use wt_extract::status::{fatal_error, wt_err, FatalError, WT_NOTFOUND};

#[test]
fn wt_err_success_is_zero() {
    assert_eq!(wt_err(0), 0);
}

#[test]
fn wt_err_keeps_not_found() {
    assert_eq!(wt_err(-31803), -31803);
    assert_eq!(wt_err(WT_NOTFOUND), WT_NOTFOUND);
}

#[test]
fn wt_err_hands_other_codes_back() {
    for code in [1, 5, 22, -1, -31799, -31808, i32::MAX, i32::MIN] {
        assert_eq!(wt_err(code), code);
    }
}

#[test]
fn wt_err_twice_is_wt_err_once() {
    for code in [0, -31803, 7, -9, 12] {
        let once = wt_err(code);
        assert_eq!(once, code);
        assert_eq!(fatal_error(once), None);
        assert_eq!(wt_err(once), once);
    }
}

#[test]
fn fatal_codes_are_named() {
    let cases = [
        (-31800, FatalError::Rollback, "WT_ROLLBACK"),
        (-31801, FatalError::DuplicateKey, "WT_DUPLICATE_KEY"),
        (-31802, FatalError::Error, "WT_ERROR"),
        (-31804, FatalError::Panic, "WT_PANIC"),
        (-31805, FatalError::Restart, "WT_RESTART"),
        (-31806, FatalError::RunRecovery, "WT_RUN_RECOVERY"),
        (-31807, FatalError::CacheFull, "WT_CACHE_FULL"),
        (2, FatalError::OpenFail, "WT_OPEN FAIL"),
    ];
    for (code, fatal, name) in cases {
        assert_eq!(fatal_error(code), Some(fatal));
        assert_eq!(fatal.name(), name);
    }
}

#[test]
fn non_fatal_codes_have_no_name() {
    for code in [0, 1, 3, -31803, -31799, -31808] {
        assert_eq!(fatal_error(code), None);
    }
}
