//! How one table is copied from the source data directory.
use vstd::prelude::*;
use crate::text::{chars_of, has_substring, is_index_table, string_of, table_uri, table_uri_of};

verus! {

/// What copying the table needs to know.
#[derive(Clone, Debug, PartialEq, Eq)]
pub struct TableCopy {
    /// The table's URI in both data directories, "table:" and its name;
    /// also the key of its metadata.
    pub uri: String,
    /// Whether the table holds an index, whose records are keyed by byte
    /// strings; a collection's records are keyed by 64-bit record ids.
    pub keyed_by_bytes: bool,
}

/// The URI and key kind of the table `table_name`.
pub fn plan_table_copy(table_name: &str) -> (r: TableCopy)
    ensures
        r.uri@ == table_uri_of(table_name@),
        r.uri@ == "table:"@ + table_name@,
        r.uri@.len() == table_name@.len() + 6,
        r.uri@.skip(6) == table_name@,
        r.keyed_by_bytes == has_substring(table_name@, "index-"@),
{
    TableCopy { uri: table_uri(table_name), keyed_by_bytes: is_index_table(table_name) }
}

/// The URI of the catalog table.
pub open spec fn catalog_uri() -> Seq<char> {
    "table:_mdb_catalog"@
}

pub open spec fn strings_view(v: Seq<String>) -> Seq<Seq<char>> {
    v.map_values(|s: String| s@)
}

/// The tables whose size records the destination's `sizeStorer` receives
/// once a namespace's catalog record is copied, in order: the catalog's
/// own, when the `sizeStorer` table was just created, then the copied
/// collection's.
pub fn size_records_to_copy(collection_uri: &str, size_storer_created: bool) -> (r: Vec<String>)
    ensures
        strings_view(r@) == if size_storer_created {
            seq![catalog_uri(), collection_uri@]
        } else {
            seq![collection_uri@]
        },
{
    let mut r: Vec<String> = Vec::new();
    if size_storer_created {
        r.push(string_of(chars_of("table:_mdb_catalog").as_slice()));
    }
    r.push(string_of(chars_of(collection_uri).as_slice()));
    assert(strings_view(r@) =~= if size_storer_created {
        seq![catalog_uri(), collection_uri@]
    } else {
        seq![collection_uri@]
    });
    r
}

} // verus!
