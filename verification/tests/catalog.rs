use bson::{Bson, Document};
use wt_extract::catalog::{get_tablenames, plan_metadata_fix, read_catalog_record, CatalogError};
use wt_extract::listing::{list_tables, ListLine, Listing};

fn done(lines: Vec<ListLine>) -> Listing {
    Listing { lines, stopped: None }
}

fn encode(doc: &Document) -> Vec<u8> {
    let mut v = Vec::new();
    bson::encode_document(&mut v, doc).unwrap();
    v
}

fn entry(ns: &str, ident: &str, indexes: &[(&str, &str)]) -> Vec<u8> {
    let mut d = Document::new();
    d.insert("md", Document::new());
    d.insert("ns", ns);
    d.insert("ident", ident);
    if !indexes.is_empty() {
        let mut ix = Document::new();
        for (k, v) in indexes {
            ix.insert(*k, *v);
        }
        d.insert("idxIdent", ix);
    }
    encode(&d)
}

fn feature_doc() -> Vec<u8> {
    let mut d = Document::new();
    d.insert("isFeatureDoc", true);
    d.insert("ns", Bson::Null);
    encode(&d)
}

fn names(v: &[&str]) -> Vec<String> {
    v.iter().map(|s| s.to_string()).collect()
}

fn sample_catalog() -> Vec<Vec<u8>> {
    vec![
        feature_doc(),
        entry("local.startup_log", "collection-0--9", &[("_id_", "index-1--9")]),
        entry("zips.zips", "collection-2--9", &[("_id_", "index-3--9"), ("state_1", "index-4--9")]),
        entry("zips.small_zips", "collection-5--9", &[]),
    ]
}

#[test]
fn read_record_hands_out_fields() {
    let rec = read_catalog_record(&entry("zips.zips", "collection-2--9", &[("_id_", "index-3--9")])).unwrap();
    let ns = rec.ns.unwrap();
    assert_eq!(ns.text, Some("zips.zips".to_string()));
    assert_eq!(ns.rendered, "\"zips.zips\"");
    assert_eq!(rec.ident.unwrap().rendered, "\"collection-2--9\"");
    let ix = rec.index_idents.unwrap();
    assert_eq!(ix.text, None);
    assert_eq!(ix.entries, Some(vec![("_id_".to_string(), "\"index-3--9\"".to_string())]));
}

#[test]
fn read_record_of_non_string_field() {
    let mut d = Document::new();
    d.insert("ident", 5i32);
    d.insert("ns", 7i64);
    let rec = read_catalog_record(&encode(&d)).unwrap();
    let ident = rec.ident.unwrap();
    assert_eq!(ident.text, None);
    assert_eq!(ident.rendered, "5");
    assert_eq!(ident.entries, None);
    assert_eq!(rec.ns.unwrap().rendered, "7");
    assert!(rec.index_idents.is_none());
}

#[test]
fn read_record_of_garbage() {
    assert!(read_catalog_record(&[1, 2, 3]).is_none());
    assert!(read_catalog_record(&[]).is_none());
}

#[test]
fn tablenames_of_namespace_with_indexes() {
    let r = get_tablenames(&sample_catalog(), "zips.zips");
    assert_eq!(r, Ok(names(&["collection-2--9", "index-3--9", "index-4--9"])));
}

#[test]
fn tablenames_of_namespace_without_indexes() {
    assert_eq!(get_tablenames(&sample_catalog(), "zips.small_zips"), Ok(names(&["collection-5--9"])));
}

#[test]
fn tablenames_of_unknown_namespace() {
    assert_eq!(get_tablenames(&sample_catalog(), "zips"), Ok(names(&[])));
    assert_eq!(get_tablenames(&[], "zips.zips"), Ok(names(&[])));
}

#[test]
fn tablenames_gather_every_matching_record() {
    let values = vec![entry("a.b", "collection-1--1", &[]), entry("a.b", "collection-2--1", &[("_id_", "index-3--1")])];
    assert_eq!(get_tablenames(&values, "a.b"), Ok(names(&["collection-1--1", "collection-2--1", "index-3--1"])));
}

#[test]
fn tablenames_of_concatenated_catalogs() {
    let a = sample_catalog();
    let b = vec![entry("zips.zips", "collection-7--2", &[("_id_", "index-8--2")])];
    let mut ab = a.clone();
    ab.extend(b.clone());
    let mut expected = get_tablenames(&a, "zips.zips").unwrap();
    expected.extend(get_tablenames(&b, "zips.zips").unwrap());
    assert_eq!(get_tablenames(&ab, "zips.zips"), Ok(expected));
}

#[test]
fn tablenames_stop_on_undecodable_value() {
    let mut values = sample_catalog();
    values.insert(2, vec![9, 9, 9]);
    assert_eq!(get_tablenames(&values, "zips.zips"), Err(CatalogError::Undecodable { record: 2 }));
}

#[test]
fn tablenames_stop_on_missing_namespace() {
    let mut d = Document::new();
    d.insert("ident", "collection-1--1");
    let mut values = sample_catalog();
    values.push(encode(&d));
    assert_eq!(get_tablenames(&values, "nothing.here"), Err(CatalogError::MissingNamespace { record: 4 }));
}

#[test]
fn tablenames_stop_on_indexes_that_are_no_document() {
    let mut d = Document::new();
    d.insert("ns", "a.b");
    d.insert("ident", "collection-1--1");
    d.insert("idxIdent", "index-2--1");
    let values = vec![encode(&d)];
    assert_eq!(get_tablenames(&values, "a.b"), Err(CatalogError::IndexesNotDocument { record: 0 }));
    // Only a matching record reads its indexes.
    assert_eq!(get_tablenames(&values, "c.d"), Ok(names(&[])));
}

#[test]
fn tablenames_of_non_string_namespace_match_the_empty_name() {
    let mut d = Document::new();
    d.insert("ns", 3i32);
    d.insert("ident", 4i32);
    let values = vec![encode(&d)];
    assert_eq!(get_tablenames(&values, ""), Ok(names(&[""])));
    assert_eq!(get_tablenames(&values, "3"), Ok(names(&[])));
}

#[test]
fn tablenames_strip_quotes_from_index_renderings() {
    let mut d = Document::new();
    d.insert("ns", "a.b");
    d.insert("ident", "collection-1--1");
    let mut ix = Document::new();
    ix.insert("_id_", "index-\"2\"--1");
    ix.insert("n_1", 12i32);
    d.insert("idxIdent", ix);
    assert_eq!(get_tablenames(&[encode(&d)], "a.b"), Ok(names(&["collection-1--1", "index-\\2\\--1", "12"])));
}

#[test]
fn listing_at_verbosity_zero_is_empty() {
    assert_eq!(list_tables(&sample_catalog(), 0), done(vec![]));
}

#[test]
fn listing_at_verbosity_one_names_namespaces() {
    let expected = vec![
        ListLine::Heading,
        ListLine::Namespace { ns: "local.startup_log".to_string() },
        ListLine::Namespace { ns: "zips.zips".to_string() },
        ListLine::Namespace { ns: "zips.small_zips".to_string() },
    ];
    assert_eq!(list_tables(&sample_catalog(), 1), done(expected));
}

#[test]
fn listing_at_verbosity_two_shows_tables_and_indexes() {
    let expected = vec![
        ListLine::NamespaceFile { ns: "local.startup_log".to_string(), file: "collection-0--9".to_string() },
        ListLine::IndexesHeading,
        ListLine::Index { key: "_id_".to_string(), value: "\"index-1--9\"".to_string() },
        ListLine::Blank,
        ListLine::NamespaceFile { ns: "zips.zips".to_string(), file: "collection-2--9".to_string() },
        ListLine::IndexesHeading,
        ListLine::Index { key: "_id_".to_string(), value: "\"index-3--9\"".to_string() },
        ListLine::Index { key: "state_1".to_string(), value: "\"index-4--9\"".to_string() },
        ListLine::Blank,
        ListLine::NamespaceFile { ns: "zips.small_zips".to_string(), file: "collection-5--9".to_string() },
        ListLine::Blank,
    ];
    assert_eq!(list_tables(&sample_catalog(), 2), done(expected));
}

#[test]
fn listing_goes_on_after_undecodable_value() {
    let values = vec![vec![0u8], entry("a.b", "collection-1--1", &[])];
    assert_eq!(
        list_tables(&values, 1),
        done(vec![ListLine::Heading, ListLine::Undecodable, ListLine::Namespace { ns: "a.b".to_string() }])
    );
    assert_eq!(list_tables(&values, 0), done(vec![ListLine::Undecodable]));
}

#[test]
fn listing_stops_on_missing_namespace() {
    let mut d = Document::new();
    d.insert("ident", "collection-1--1");
    let values = vec![entry("a.b", "collection-0--1", &[]), encode(&d), entry("c.d", "collection-2--1", &[])];
    assert_eq!(list_tables(&values, 0), Listing { lines: vec![], stopped: Some(CatalogError::MissingNamespace { record: 1 }) });
    assert_eq!(
        list_tables(&values, 1),
        Listing {
            lines: vec![ListLine::Heading, ListLine::Namespace { ns: "a.b".to_string() }],
            stopped: Some(CatalogError::MissingNamespace { record: 1 }),
        }
    );
}

#[test]
fn listing_reads_indexes_only_at_verbosity_two() {
    let mut d = Document::new();
    d.insert("ns", "a.b");
    d.insert("ident", "collection-1--1");
    d.insert("idxIdent", 1i32);
    let values = vec![encode(&d)];
    assert_eq!(
        list_tables(&values, 2),
        Listing {
            lines: vec![
                ListLine::NamespaceFile { ns: "a.b".to_string(), file: "collection-1--1".to_string() },
                ListLine::IndexesHeading,
            ],
            stopped: Some(CatalogError::IndexesNotDocument { record: 0 }),
        }
    );
    assert_eq!(list_tables(&values, 1), done(vec![ListLine::Heading, ListLine::Namespace { ns: "a.b".to_string() }]));
}

#[test]
fn listing_shows_non_string_values_as_rendered() {
    let mut d = Document::new();
    d.insert("ns", 42i32);
    d.insert("ident", "collection-1--1");
    assert_eq!(list_tables(&[encode(&d)], 1), done(vec![ListLine::Heading, ListLine::Namespace { ns: "42".to_string() }]));
}

#[test]
fn metadata_fix_finds_first_matching_record() {
    let mut values = sample_catalog();
    values.push(entry("zips.zips", "collection-9--9", &[]));
    let fix = plan_metadata_fix(&values, "zips.zips").unwrap();
    assert_eq!(fix.record, 2);
    assert_eq!(fix.table_name, "collection-2--9");
    assert_eq!(fix.table_uri, "table:collection-2--9");
}

#[test]
fn metadata_fix_names_first_table_of_namespace() {
    let values = sample_catalog();
    for ns in ["zips.zips", "zips.small_zips", "local.startup_log"] {
        let tables = get_tablenames(&values, ns).unwrap();
        let fix = plan_metadata_fix(&values, ns).unwrap();
        assert_eq!(fix.table_name, tables[0]);
    }
    assert!(get_tablenames(&values, "no.such").unwrap().is_empty());
    assert_eq!(plan_metadata_fix(&values, "no.such").map(|f| f.record), Err(CatalogError::NamespaceNotFound));
}

#[test]
fn metadata_fix_does_not_read_past_its_record() {
    let values = vec![entry("a.b", "collection-1--1", &[]), vec![7u8]];
    assert_eq!(plan_metadata_fix(&values, "a.b").map(|f| f.record), Ok(0));
    assert_eq!(plan_metadata_fix(&values, "c.d").map(|f| f.record), Err(CatalogError::Undecodable { record: 1 }));
}

#[test]
fn metadata_fix_stops_on_missing_namespace() {
    let mut d = Document::new();
    d.insert("ident", "collection-1--1");
    let values = vec![encode(&d), entry("a.b", "collection-2--1", &[])];
    assert_eq!(plan_metadata_fix(&values, "a.b").map(|f| f.record), Err(CatalogError::MissingNamespace { record: 0 }));
}

#[test]
fn metadata_fix_compares_rendered_namespaces() {
    let mut d = Document::new();
    d.insert("ns", 42i32);
    d.insert("ident", 8i32);
    let fix = plan_metadata_fix(&[encode(&d)], "42").unwrap();
    assert_eq!(fix.table_name, "8");
    assert_eq!(fix.table_uri, "table:8");
}

#[test]
fn undecodable_value_only_adds_its_note() {
    let a = vec![entry("a.b", "collection-1--1", &[("_id_", "index-2--1")])];
    let b = vec![feature_doc(), entry("c.d", "collection-3--1", &[])];
    for verbosity in [0i8, 1, 2] {
        let mut without = a.clone();
        without.extend(b.clone());
        let mut with = a.clone();
        with.push(vec![1, 2]);
        with.extend(b.clone());
        let plain = list_tables(&without, verbosity);
        let noted = list_tables(&with, verbosity);
        assert_eq!(plain.stopped, None);
        assert_eq!(noted.stopped, None);
        let before = list_tables(&a, verbosity).lines.len();
        let mut expected = plain.lines.clone();
        expected.insert(before, ListLine::Undecodable);
        assert_eq!(noted.lines, expected);
    }
}

#[test]
fn brief_and_full_listings_name_same_namespaces() {
    let mut values = sample_catalog();
    values.insert(1, vec![5]);
    let brief: Vec<String> = list_tables(&values, 1)
        .lines
        .into_iter()
        .filter_map(|l| match l {
            ListLine::Namespace { ns } => Some(ns),
            _ => None,
        })
        .collect();
    let full: Vec<String> = list_tables(&values, 2)
        .lines
        .into_iter()
        .filter_map(|l| match l {
            ListLine::NamespaceFile { ns, .. } => Some(ns),
            _ => None,
        })
        .collect();
    assert_eq!(brief, vec!["local.startup_log".to_string(), "zips.zips".to_string(), "zips.small_zips".to_string()]);
    assert_eq!(brief, full);
}
