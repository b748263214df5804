use wt_extract::command::{choose_command, db_path, parse_namespace_list, Command};

fn names(v: &[&str]) -> Vec<String> {
    v.iter().map(|s| s.to_string()).collect()
}

#[test]
fn namespace_list_of_readme_example() {
    assert_eq!(parse_namespace_list("zips.small_zips zips.zips"), names(&["zips.small_zips", "zips.zips"]));
}

#[test]
fn namespace_list_skips_blank_pieces_and_trims() {
    assert_eq!(parse_namespace_list("  a  \tb\t "), names(&["a", "b"]));
    assert_eq!(parse_namespace_list(""), names(&[]));
    assert_eq!(parse_namespace_list("   "), names(&[]));
    assert_eq!(parse_namespace_list("\t"), names(&[]));
    assert_eq!(parse_namespace_list("db.c\u{3000}"), names(&["db.c"]));
    assert_eq!(parse_namespace_list("a\tb"), names(&["a\tb"]));
}

#[test]
fn namespace_list_survives_joining_again() {
    for s in ["zips.small_zips zips.zips", "  a  \tb\t ", "", "x\u{a0} y", "one"] {
        let first = parse_namespace_list(s);
        for n in &first {
            assert!(!n.is_empty());
            assert!(!n.contains(' '));
            assert_eq!(n.trim(), n);
        }
        let joined = first.join(" ");
        assert_eq!(parse_namespace_list(&joined), first);
    }
}

#[test]
fn help_comes_first() {
    assert_eq!(choose_command(true, true, Some("o".to_string()), Some("a".to_string())), Command::Usage);
}

#[test]
fn list_comes_before_copying() {
    assert_eq!(choose_command(false, true, None, Some("a".to_string())), Command::List);
}

#[test]
fn copying_needs_an_outpath() {
    assert_eq!(choose_command(false, false, None, Some("a".to_string())), Command::MissingOutpath);
}

#[test]
fn copying_needs_namespaces() {
    assert_eq!(choose_command(false, false, Some("WT_TEST".to_string()), None), Command::ChooseNamespace);
}

#[test]
fn copy_command_carries_parsed_namespaces() {
    assert_eq!(
        choose_command(false, false, Some("WT_TEST".to_string()), Some("zips.small_zips  zips.zips".to_string())),
        Command::Copy { out_path: "WT_TEST".to_string(), namespaces: names(&["zips.small_zips", "zips.zips"]) }
    );
}

#[test]
fn db_path_defaults_to_data_db() {
    assert_eq!(db_path(None), "/data/db");
    assert_eq!(db_path(Some("/tmp/x".to_string())), "/tmp/x");
}
