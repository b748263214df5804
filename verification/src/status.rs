//! Classification of WiredTiger return codes.
use vstd::prelude::*;

verus! {

/// `WT_ROLLBACK`
pub const WT_ROLLBACK: i32 = -31800;
/// `WT_DUPLICATE_KEY`
pub const WT_DUPLICATE_KEY: i32 = -31801;
/// `WT_ERROR`
pub const WT_ERROR: i32 = -31802;
/// `WT_NOTFOUND`: a cursor ran past its last record, or a search missed.
pub const WT_NOTFOUND: i32 = -31803;
/// `WT_PANIC`
pub const WT_PANIC: i32 = -31804;
/// `WT_RESTART`
pub const WT_RESTART: i32 = -31805;
/// `WT_RUN_RECOVERY`
pub const WT_RUN_RECOVERY: i32 = -31806;
/// `WT_CACHE_FULL`
pub const WT_CACHE_FULL: i32 = -31807;
/// `ENOENT` as WiredTiger reports it when a home directory cannot be opened.
pub const WT_OPEN_FAIL: i32 = 2;

/// The return codes after which nothing sensible can continue.
#[derive(Clone, Copy, Debug, PartialEq, Eq, Structural)]
pub enum FatalError {
    Rollback,
    DuplicateKey,
    Error,
    Panic,
    Restart,
    RunRecovery,
    CacheFull,
    OpenFail,
}

/// The fatal error that `code` stands for, if it stands for one.
pub open spec fn spec_fatal_error(code: i32) -> Option<FatalError> {
    if code == WT_ROLLBACK {
        Some(FatalError::Rollback)
    } else if code == WT_DUPLICATE_KEY {
        Some(FatalError::DuplicateKey)
    } else if code == WT_ERROR {
        Some(FatalError::Error)
    } else if code == WT_PANIC {
        Some(FatalError::Panic)
    } else if code == WT_RESTART {
        Some(FatalError::Restart)
    } else if code == WT_RUN_RECOVERY {
        Some(FatalError::RunRecovery)
    } else if code == WT_CACHE_FULL {
        Some(FatalError::CacheFull)
    } else if code == WT_OPEN_FAIL {
        Some(FatalError::OpenFail)
    } else {
        None
    }
}

/// Tells whether `code` is one of the fatal return codes, and which.
pub fn fatal_error(code: i32) -> (r: Option<FatalError>)
    ensures
        r == spec_fatal_error(code),
{
    if code == WT_ROLLBACK {
        Some(FatalError::Rollback)
    } else if code == WT_DUPLICATE_KEY {
        Some(FatalError::DuplicateKey)
    } else if code == WT_ERROR {
        Some(FatalError::Error)
    } else if code == WT_PANIC {
        Some(FatalError::Panic)
    } else if code == WT_RESTART {
        Some(FatalError::Restart)
    } else if code == WT_RUN_RECOVERY {
        Some(FatalError::RunRecovery)
    } else if code == WT_CACHE_FULL {
        Some(FatalError::CacheFull)
    } else if code == WT_OPEN_FAIL {
        Some(FatalError::OpenFail)
    } else {
        None
    }
}

/// Checks a WiredTiger return code that is not fatal (see `fatal_error`;
/// the caller stops on a fatal one) and hands it back unchanged: `0` for
/// success, `WT_NOTFOUND` when a cursor ran out or a search missed, and
/// any other code as it came.
pub fn wt_err(code: i32) -> (r: i32)
    requires
        spec_fatal_error(code) is None,
    ensures
        r == code,
{
    code
}

impl FatalError {
    /// The name of the condition, as WiredTiger's headers spell it.
    pub open spec fn spec_name(self) -> Seq<char> {
        match self {
            FatalError::Rollback => "WT_ROLLBACK"@,
            FatalError::DuplicateKey => "WT_DUPLICATE_KEY"@,
            FatalError::Error => "WT_ERROR"@,
            FatalError::Panic => "WT_PANIC"@,
            FatalError::Restart => "WT_RESTART"@,
            FatalError::RunRecovery => "WT_RUN_RECOVERY"@,
            FatalError::CacheFull => "WT_CACHE_FULL"@,
            FatalError::OpenFail => "WT_OPEN FAIL"@,
        }
    }

    /// The name of the condition, as WiredTiger's headers spell it.
    pub fn name(&self) -> (r: &'static str)
        ensures
            r@ == self.spec_name(),
    {
        match self {
            FatalError::Rollback => "WT_ROLLBACK",
            FatalError::DuplicateKey => "WT_DUPLICATE_KEY",
            FatalError::Error => "WT_ERROR",
            FatalError::Panic => "WT_PANIC",
            FatalError::Restart => "WT_RESTART",
            FatalError::RunRecovery => "WT_RUN_RECOVERY",
            FatalError::CacheFull => "WT_CACHE_FULL",
            FatalError::OpenFail => "WT_OPEN FAIL",
        }
    }
}

/// The fatal codes are `2` (a home directory that cannot be opened) and
/// the WiredTiger codes from `-31807` to `-31800` other than
/// `WT_NOTFOUND`; no two of them stand for the same condition.
pub proof fn fatal_codes_are_the_wiredtiger_errors(code: i32, other: i32)
    ensures
        spec_fatal_error(code) is Some <==> (code == 2 || (-31807 <= code <= -31800 && code != -31803)),
        spec_fatal_error(code) is Some ==> (spec_fatal_error(other) == spec_fatal_error(code) <==> code == other),
{
}

/// A code that `wt_err` accepts comes back unchanged, and so is accepted
/// again: checking twice is checking once.
pub proof fn wt_err_passes_through(code: i32)
    requires
        spec_fatal_error(code) is None,
    ensures
        spec_fatal_error(code) is None,
        forall|r: i32| r == code ==> spec_fatal_error(r) is None,
{
}

} // verus!
