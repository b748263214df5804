//! The `_mdb_catalog` table: one BSON document per namespace, naming the
//! WiredTiger table (`ident`) that holds the collection, its namespace
//! (`ns`, "database.collection") and the tables of its indexes
//! (`idxIdent`).
use vstd::prelude::*;
use crate::document::{
    decode_document, decoded_fields, document_field, quoted_when_string, Field, FieldView,
};
use crate::text::{strip_quotes, without_quotes, without_quotes_of_unquoted};

verus! {

/// Why the catalog could not be read as asked.
#[derive(Clone, Copy, Debug, PartialEq, Eq, Structural)]
pub enum CatalogError {
    /// The value of the record at this position is no BSON document.
    Undecodable { record: usize },
    /// The record at this position names a table but no namespace.
    MissingNamespace { record: usize },
    /// The `idxIdent` field of the record at this position is no document.
    IndexesNotDocument { record: usize },
    /// No record names a table for the namespace asked for.
    NamespaceNotFound,
}

/// The three fields of a catalog document that are read.
#[derive(Clone, Debug, PartialEq, Eq)]
pub struct CatalogRecord {
    pub ident: Option<Field>,
    pub ns: Option<Field>,
    pub index_idents: Option<Field>,
}

pub struct RecordView {
    pub ident: Option<FieldView>,
    pub ns: Option<FieldView>,
    pub index_idents: Option<FieldView>,
}

pub open spec fn field_view(f: Option<Field>) -> Option<FieldView> {
    match f {
        Some(f) => Some(f@),
        None => None,
    }
}

impl View for CatalogRecord {
    type V = RecordView;

    open spec fn view(&self) -> RecordView {
        RecordView {
            ident: field_view(self.ident),
            ns: field_view(self.ns),
            index_idents: field_view(self.index_idents),
        }
    }
}

/// The field under `key`, if the document has one.
pub open spec fn field_at(m: Map<Seq<char>, FieldView>, key: Seq<char>) -> Option<FieldView> {
    if m.contains_key(key) {
        Some(m[key])
    } else {
        None
    }
}

/// The catalog record of a decoded document.
pub open spec fn record_of(m: Map<Seq<char>, FieldView>) -> RecordView {
    RecordView {
        ident: field_at(m, "ident"@),
        ns: field_at(m, "ns"@),
        index_idents: field_at(m, "idxIdent"@),
    }
}

/// Every field of the record that is present renders a string in quotes.
pub open spec fn record_quoted(rec: RecordView) -> bool {
    &&& (rec.ident matches Some(f) ==> quoted_when_string(f))
    &&& (rec.ns matches Some(f) ==> quoted_when_string(f))
    &&& (rec.index_idents matches Some(f) ==> quoted_when_string(f))
}

/// The catalog record that `bytes` decode to, if they decode.
pub open spec fn decoded_record(bytes: Seq<u8>) -> Option<RecordView> {
    match decoded_fields(bytes) {
        Some(m) => Some(record_of(m)),
        None => None,
    }
}

/// Decodes one catalog value and reads its `ident`, `ns` and `idxIdent`
/// fields; `None` where the value is no BSON document.
pub fn read_catalog_record(bytes: &[u8]) -> (r: Option<CatalogRecord>)
    ensures
        match r {
            Some(rec) => decoded_record(bytes@) == Some(rec@) && record_quoted(rec@),
            None => decoded_record(bytes@) is None,
        },
{
    match decode_document(bytes) {
        Ok(d) => {
            let ident = document_field(&d, "ident");
            let ns = document_field(&d, "ns");
            let index_idents = document_field(&d, "idxIdent");
            let rec = CatalogRecord { ident, ns, index_idents };
            assert(rec@ == record_of(crate::document::document_fields(d)));
            assert(crate::document::document_fields(d).contains_key("ident"@) ==> quoted_when_string(crate::document::document_fields(d)["ident"@]));
            assert(crate::document::document_fields(d).contains_key("ns"@) ==> quoted_when_string(crate::document::document_fields(d)["ns"@]));
            assert(crate::document::document_fields(d).contains_key("idxIdent"@) ==> quoted_when_string(crate::document::document_fields(d)["idxIdent"@]));
            Some(rec)
        },
        Err(_) => None,
    }
}

/// The string a field holds, or the empty string when it holds another
/// kind of value.
pub open spec fn text_or_empty(f: FieldView) -> Seq<char> {
    match f.text {
        Some(s) => s,
        None => Seq::empty(),
    }
}

/// An index entry's table name: its rendering without quotes.
pub open spec fn index_table(e: (Seq<char>, Seq<char>)) -> Seq<char> {
    without_quotes(e.1)
}

/// The tables that the catalog record at position `i` contributes to the
/// namespace `wanted`: none unless it names a table (`ident`); an error
/// when it names a table but no namespace; none when its namespace is not
/// `wanted`; otherwise its table, then the table of each of its indexes,
/// in the order of `idxIdent`.
pub open spec fn record_tables(rec: RecordView, wanted: Seq<char>, i: usize) -> Result<
    Seq<Seq<char>>,
    CatalogError,
> {
    match rec.ident {
        None => Ok(Seq::empty()),
        Some(ident) => match rec.ns {
            None => Err(CatalogError::MissingNamespace { record: i }),
            Some(ns) => if text_or_empty(ns) != wanted {
                Ok(Seq::empty())
            } else {
                match rec.index_idents {
                    None => Ok(seq![text_or_empty(ident)]),
                    Some(ix) => match ix.entries {
                        None => Err(CatalogError::IndexesNotDocument { record: i }),
                        Some(es) => Ok(seq![text_or_empty(ident)] + es.map_values(
                            |e: (Seq<char>, Seq<char>)| index_table(e),
                        )),
                    },
                }
            },
        },
    }
}

/// The tables of namespace `wanted` that the first `n` catalog values
/// name, in catalog order, or the first error met.
pub open spec fn tables_upto(values: Seq<Vec<u8>>, wanted: Seq<char>, n: nat) -> Result<
    Seq<Seq<char>>,
    CatalogError,
>
    decreases n,
{
    if n == 0 {
        Ok(Seq::empty())
    } else {
        match tables_upto(values, wanted, (n - 1) as nat) {
            Err(e) => Err(e),
            Ok(acc) => match decoded_record(values[n - 1]@) {
                None => Err(CatalogError::Undecodable { record: (n - 1) as usize }),
                Some(rec) => match record_tables(rec, wanted, (n - 1) as usize) {
                    Err(e) => Err(e),
                    Ok(ts) => Ok(acc + ts),
                },
            },
        }
    }
}

/// Once the catalog has failed to give the tables, more values do not
/// change the error.
pub proof fn tables_error_persists(values: Seq<Vec<u8>>, wanted: Seq<char>, m: nat, n: nat)
    requires
        m <= n,
        tables_upto(values, wanted, m) is Err,
    ensures
        tables_upto(values, wanted, n) == tables_upto(values, wanted, m),
    decreases n - m,
{
    if m < n {
        tables_error_persists(values, wanted, m, (n - 1) as nat);
    }
}

/// The tables of namespace `wanted` that the catalog values name.
pub open spec fn catalog_tables(values: Seq<Vec<u8>>, wanted: Seq<char>) -> Result<
    Seq<Seq<char>>,
    CatalogError,
> {
    tables_upto(values, wanted, values.len())
}

pub open spec fn strings_view(v: Seq<String>) -> Seq<Seq<char>> {
    v.map_values(|s: String| s@)
}

/// The view of a list of names or an error.
pub open spec fn names_result(r: Result<Vec<String>, CatalogError>) -> Result<
    Seq<Seq<char>>,
    CatalogError,
> {
    match r {
        Ok(v) => Ok(strings_view(v@)),
        Err(e) => Err(e),
    }
}

/// The text of a field, or the empty string.
fn text_of(f: &Field) -> (r: String)
    ensures
        r@ == text_or_empty(f@),
{
    match &f.text {
        Some(s) => s.clone(),
        None => String::new(),
    }
}

/// The tables that one catalog record contributes to namespace `wanted`.
fn record_tables_of(rec: &CatalogRecord, wanted: &String, i: usize) -> (r: Result<
    Vec<String>,
    CatalogError,
>)
    ensures
        names_result(r) == record_tables(rec@, wanted@, i),
{
    let ident = match &rec.ident {
        None => {
            let v: Vec<String> = Vec::new();
            assert(strings_view(v@) =~= Seq::empty());
            return Ok(v);
        },
        Some(f) => f,
    };
    let ns = match &rec.ns {
        None => return Err(CatalogError::MissingNamespace { record: i }),
        Some(f) => f,
    };
    let ns_text = text_of(ns);
    if !(ns_text == *wanted) {
        let v: Vec<String> = Vec::new();
        assert(strings_view(v@) =~= Seq::empty());
        return Ok(v);
    }
    let mut out: Vec<String> = Vec::new();
    out.push(text_of(ident));
    assert(strings_view(out@) =~= seq![text_or_empty(ident@)]);
    match &rec.index_idents {
        None => Ok(out),
        Some(ix) => match &ix.entries {
            None => Err(CatalogError::IndexesNotDocument { record: i }),
            Some(es) => {
                let ghost esv = es@.map_values(|e: (String, String)| crate::document::entry_view(e));
                let ghost ts = esv.map_values(|e: (Seq<char>, Seq<char>)| index_table(e));
                let mut k: usize = 0;
                while k < es.len()
                    invariant
                        k <= es.len(),
                        ts.len() == es.len(),
                        forall|j: int| 0 <= j < es.len() ==> #[trigger] ts[j] == without_quotes(es@[j].1@),
                        strings_view(out@) =~= seq![text_or_empty(ident@)] + ts.take(k as int),
                    decreases es.len() - k,
                {
                    let t = strip_quotes(es[k].1.as_str());
                    let ghost prev = out@;
                    out.push(t);
                    assert(strings_view(out@) =~= strings_view(prev).push(ts[k as int]));
                    assert(ts.take(k + 1) == ts.take(k as int).push(ts[k as int]));
                    k = k + 1;
                }
                assert(ts.take(es.len() as int) == ts);
                Ok(out)
            },
        },
    }
}

/// The WiredTiger tables that hold namespace `wanted` ("database.collection"),
/// read from the values of the `_mdb_catalog` table in cursor order: for
/// each record that names a table and whose namespace is `wanted`, its
/// table and then the tables of its indexes.  An error where a value does
/// not decode, or a record that names a table has no namespace, or has an
/// `idxIdent` that is no document.
pub fn get_tablenames(values: &[Vec<u8>], wanted: &str) -> (r: Result<Vec<String>, CatalogError>)
    ensures
        names_result(r) == catalog_tables(values@, wanted@),
{
    let wanted_string = wanted.to_owned();
    let mut out: Vec<String> = Vec::new();
    let mut i: usize = 0;
    assert(strings_view(out@) =~= Seq::empty());
    while i < values.len()
        invariant
            i <= values.len(),
            wanted_string@ == wanted@,
            tables_upto(values@, wanted@, i as nat) == Ok::<Seq<Seq<char>>, CatalogError>(
                strings_view(out@),
            ),
        decreases values.len() - i,
    {
        let rec = match read_catalog_record(values[i].as_slice()) {
            None => {
                proof {
                    tables_error_persists(values@, wanted@, (i + 1) as nat, values@.len());
                }
                return Err(CatalogError::Undecodable { record: i });
            },
            Some(rec) => rec,
        };
        let ts = match record_tables_of(&rec, &wanted_string, i) {
            Err(e) => {
                proof {
                    tables_error_persists(values@, wanted@, (i + 1) as nat, values@.len());
                }
                return Err(e);
            },
            Ok(ts) => ts,
        };
        let ghost before = out@;
        let mut k: usize = 0;
        while k < ts.len()
            invariant
                k <= ts.len(),
                strings_view(out@) =~= strings_view(before) + strings_view(ts@).take(k as int),
            decreases ts.len() - k,
        {
            let ghost prev = out@;
            out.push(ts[k].clone());
            assert(strings_view(out@) =~= strings_view(prev).push(ts@[k as int]@));
            assert(strings_view(ts@).take(k + 1) == strings_view(ts@).take(k as int).push(ts@[k as int]@));
            k = k + 1;
        }
        assert(strings_view(ts@).take(ts.len() as int) == strings_view(ts@));
        i = i + 1;
    }
    Ok(out)
}

/// Where the search for a namespace's catalog record stands.
pub enum Search {
    Searching,
    Found { record: usize, table: Seq<char> },
    Failed { error: CatalogError },
}

/// One step of the search for namespace `namespace`, on the value at
/// position `i`: an error where it does not decode, or names a table but
/// no namespace; a find where it names a table and its namespace, as
/// rendered and without double quotes, is `namespace`; the table is the
/// record's `ident` rendered without double quotes.
pub open spec fn search_step(bytes: Seq<u8>, namespace: Seq<char>, i: usize) -> Search {
    match decoded_record(bytes) {
        None => Search::Failed { error: CatalogError::Undecodable { record: i } },
        Some(rec) => match rec.ident {
            None => Search::Searching,
            Some(ident) => match rec.ns {
                None => Search::Failed { error: CatalogError::MissingNamespace { record: i } },
                Some(ns) => if without_quotes(ns.rendered) == namespace {
                    Search::Found { record: i, table: without_quotes(ident.rendered) }
                } else {
                    Search::Searching
                },
            },
        },
    }
}

/// The search over the first `n` values: it stops at the first find or
/// error.
pub open spec fn search_upto(values: Seq<Vec<u8>>, namespace: Seq<char>, n: nat) -> Search
    decreases n,
{
    if n == 0 {
        Search::Searching
    } else {
        match search_upto(values, namespace, (n - 1) as nat) {
            Search::Searching => search_step(values[n - 1]@, namespace, (n - 1) as usize),
            done => done,
        }
    }
}

/// Once the search has stopped, more values do not change its outcome.
pub proof fn search_stops(values: Seq<Vec<u8>>, namespace: Seq<char>, m: nat, n: nat)
    requires
        m <= n,
        !(search_upto(values, namespace, m) is Searching),
    ensures
        search_upto(values, namespace, n) == search_upto(values, namespace, m),
    decreases n - m,
{
    if m < n {
        search_stops(values, namespace, m, (n - 1) as nat);
    }
}

/// The catalog record to copy for a namespace, as found in the source
/// catalog.
#[derive(Clone, Debug, PartialEq, Eq)]
pub struct MetadataFix {
    /// The position of the record among the catalog values.
    pub record: usize,
    /// The table that holds the namespace's collection.
    pub table_name: String,
    /// The URI of that table: "table:" and its name.
    pub table_uri: String,
}

/// The outcome of the search over all values: a missing namespace is an
/// error of its own.
pub open spec fn catalog_entry(values: Seq<Vec<u8>>, namespace: Seq<char>) -> Result<
    (usize, Seq<char>),
    CatalogError,
> {
    match search_upto(values, namespace, values.len()) {
        Search::Searching => Err(CatalogError::NamespaceNotFound),
        Search::Found { record, table } => Ok((record, table)),
        Search::Failed { error } => Err(error),
    }
}

pub open spec fn fix_result(r: Result<MetadataFix, CatalogError>) -> Result<
    (usize, Seq<char>),
    CatalogError,
> {
    match r {
        Ok(f) => Ok((f.record, f.table_name@)),
        Err(e) => Err(e),
    }
}

/// Finds, among the values of the source `_mdb_catalog` in cursor order,
/// the first record that names a table and whose namespace (rendered,
/// without double quotes) is `namespace`: the record that the destination
/// catalog needs, with its table and that table's URI.  Values after it
/// are not read.  An error where a value before it does not decode, or a
/// record before it names a table but no namespace, or where no record
/// matches.
pub fn plan_metadata_fix(values: &[Vec<u8>], namespace: &str) -> (r: Result<MetadataFix, CatalogError>)
    ensures
        fix_result(r) == catalog_entry(values@, namespace@),
        r matches Ok(f) ==> f.table_uri@ == crate::text::table_uri_of(f.table_name@),
        r matches Ok(f) ==> f.table_uri@ == "table:"@ + f.table_name@,
        r matches Ok(f) ==> f.table_uri@.skip(6) == f.table_name@,
        r matches Ok(f) ==> f.record < values@.len() && holds_namespace(values@[f.record as int]@, namespace@, f.table_name@),
        r matches Ok(f) ==> forall|j: int| 0 <= j < f.record ==> #[trigger] passes_over(values@[j]@, namespace@),
{
    let count = values.len();
    let wanted = namespace.to_owned();
    let mut i: usize = 0;
    while i < values.len()
        invariant
            i <= values.len(),
            wanted@ == namespace@,
            count == values@.len(),
            search_upto(values@, namespace@, i as nat) is Searching,
        decreases values.len() - i,
    {
        proof {
            if !(search_upto(values@, namespace@, (i + 1) as nat) is Searching) {
                search_stops(values@, namespace@, (i + 1) as nat, values@.len());
            }
        }
        let rec = match read_catalog_record(values[i].as_slice()) {
            None => return Err(CatalogError::Undecodable { record: i }),
            Some(rec) => rec,
        };
        match rec.ident {
            None => {},
            Some(ident) => {
                let ns = match rec.ns {
                    None => return Err(CatalogError::MissingNamespace { record: i }),
                    Some(f) => f,
                };
                let shown = strip_quotes(ns.rendered.as_str());
                if shown == wanted {
                    let table_name = strip_quotes(ident.rendered.as_str());
                    let table_uri = crate::text::table_uri(table_name.as_str());
                    let fix = MetadataFix { record: i, table_name, table_uri };
                    proof {
                        assert(catalog_entry(values@, namespace@) == Ok::<(usize, Seq<char>), CatalogError>((i, fix.table_name@)));
                        metadata_fix_is_first_match(values@, namespace@);
                        assert forall|j: int| 0 <= j < fix.record implies #[trigger] passes_over(values@[j]@, namespace@) by {
                            assert(passes_over(values@[j]@, namespace@));
                        }
                    }
                    return Ok(fix);
                }
            },
        }
        i = i + 1;
    }
    Err(CatalogError::NamespaceNotFound)
}

/// A field that is absent, or holds a string without double quotes that
/// it renders inside a pair of double quotes.
pub open spec fn plain_field(f: Option<FieldView>) -> bool {
    f matches Some(v) ==> {
        &&& v.text matches Some(s)
        &&& !s.contains('"')
        &&& quoted_when_string(v)
    }
}

/// Every catalog value decodes; a record that names a table names a
/// namespace too; and tables and namespaces are named by strings without
/// double quotes.
pub open spec fn plain_catalog(values: Seq<Vec<u8>>) -> bool {
    forall|i: int|
        0 <= i < values.len() ==> (#[trigger] decoded_record(values[i]@) matches Some(rec) && {
            &&& rec.ident is Some ==> rec.ns is Some
            &&& plain_field(rec.ident)
            &&& plain_field(rec.ns)
        })
}

/// A plain field shown without quotes is the string it holds.
pub proof fn plain_field_shown_as_text(f: FieldView)
    requires
        plain_field(Some(f)),
    ensures
        without_quotes(f.rendered) == text_or_empty(f),
{
    let s = f.text->Some_0;
    crate::text::without_quotes_of_quoted(s);
}

/// The tables that the values of a catalog give for a namespace do not
/// depend on any value after the ones read.
proof fn tables_upto_prefix(v1: Seq<Vec<u8>>, v2: Seq<Vec<u8>>, wanted: Seq<char>, n: nat)
    requires
        n <= v1.len(),
        n <= v2.len(),
        forall|i: int| 0 <= i < n ==> v1[i] == v2[i],
    ensures
        tables_upto(v1, wanted, n) == tables_upto(v2, wanted, n),
    decreases n,
{
    if n > 0 {
        tables_upto_prefix(v1, v2, wanted, (n - 1) as nat);
        assert(v1[n - 1] == v2[n - 1]);
    }
}

/// Which record is read does not change the tables it contributes, only
/// the position an error reports.
proof fn record_tables_position(rec: RecordView, wanted: Seq<char>, i: usize, j: usize)
    requires
        record_tables(rec, wanted, i) is Ok,
    ensures
        record_tables(rec, wanted, j) == record_tables(rec, wanted, i),
{
}

/// The tables that a namespace has in two catalogs read one after the
/// other are its tables in the first followed by its tables in the
/// second.
pub proof fn tables_of_concatenated_catalogs(a: Seq<Vec<u8>>, b: Seq<Vec<u8>>, wanted: Seq<char>)
    requires
        catalog_tables(a, wanted) is Ok,
        catalog_tables(b, wanted) is Ok,
    ensures
        catalog_tables(a + b, wanted) == Ok::<Seq<Seq<char>>, CatalogError>(
            catalog_tables(a, wanted)->Ok_0 + catalog_tables(b, wanted)->Ok_0,
        ),
{
    tables_concat_upto(a, b, wanted, b.len());
}

proof fn tables_concat_upto(a: Seq<Vec<u8>>, b: Seq<Vec<u8>>, wanted: Seq<char>, n: nat)
    requires
        n <= b.len(),
        catalog_tables(a, wanted) is Ok,
        tables_upto(b, wanted, n) is Ok,
    ensures
        tables_upto(a + b, wanted, a.len() + n) == Ok::<Seq<Seq<char>>, CatalogError>(
            catalog_tables(a, wanted)->Ok_0 + tables_upto(b, wanted, n)->Ok_0,
        ),
    decreases n,
{
    let x = catalog_tables(a, wanted)->Ok_0;
    if n == 0 {
        tables_upto_prefix(a + b, a, wanted, a.len());
        assert(x + Seq::<Seq<char>>::empty() == x);
    } else {
        let m = (n - 1) as nat;
        if tables_upto(b, wanted, m) is Err {
            tables_error_persists(b, wanted, m, n);
        }
        tables_concat_upto(a, b, wanted, m);
        let y = tables_upto(b, wanted, m)->Ok_0;
        assert((a + b)[a.len() + n - 1] == b[n - 1]);
        let rec = decoded_record(b[n - 1]@)->Some_0;
        record_tables_position(rec, wanted, (n - 1) as usize, (a.len() + n - 1) as usize);
        let ts = record_tables(rec, wanted, (n - 1) as usize)->Ok_0;
        assert(x + y + ts == x + (y + ts));
    }
}

/// How far the search and the listing of tables agree over the first `n`
/// values of a plain catalog.
proof fn search_matches_tables_upto(values: Seq<Vec<u8>>, wanted: Seq<char>, n: nat)
    requires
        n <= values.len(),
        plain_catalog(values),
        tables_upto(values, wanted, n) is Ok,
    ensures
        ({
            let ts = tables_upto(values, wanted, n)->Ok_0;
            &&& ts.len() == 0 <==> search_upto(values, wanted, n) is Searching
            &&& ts.len() > 0 ==> (search_upto(values, wanted, n) matches Search::Found { record, table }
                && table == ts[0] && record < n)
        }),
    decreases n,
{
    if n > 0 {
        let m = (n - 1) as nat;
        if tables_upto(values, wanted, m) is Err {
            tables_error_persists(values, wanted, m, n);
        }
        search_matches_tables_upto(values, wanted, m);
        let acc = tables_upto(values, wanted, m)->Ok_0;
        let rec = decoded_record(values[n - 1]@)->Some_0;
        assert(decoded_record(values[m as int]@) matches Some(r) && plain_field(r.ident) && plain_field(r.ns));
        let ts = record_tables(rec, wanted, m as usize)->Ok_0;
        if acc.len() > 0 {
            assert((acc + ts)[0] == acc[0]);
        } else {
            assert(acc + ts == ts);
            match rec.ident {
                None => {},
                Some(ident) => {
                    let ns = rec.ns->Some_0;
                    plain_field_shown_as_text(ns);
                    plain_field_shown_as_text(ident);
                },
            }
        }
    }
}

/// In a catalog whose records name their tables and namespaces by strings
/// without double quotes, the record that `plan_metadata_fix` finds for a
/// namespace is the one whose table `get_tablenames` lists first, and it
/// finds none exactly when `get_tablenames` lists no table.
pub proof fn metadata_fix_names_first_table(values: Seq<Vec<u8>>, wanted: Seq<char>)
    requires
        plain_catalog(values),
        catalog_tables(values, wanted) is Ok,
    ensures
        ({
            let ts = catalog_tables(values, wanted)->Ok_0;
            &&& ts.len() == 0 ==> catalog_entry(values, wanted) == Err::<(usize, Seq<char>), CatalogError>(
                CatalogError::NamespaceNotFound,
            )
            &&& ts.len() > 0 ==> (catalog_entry(values, wanted) matches Ok((record, table))
                && table == ts[0] && record < values.len())
        }),
{
    search_matches_tables_upto(values, wanted, values.len());
}

/// What one record contributes to the tables of a namespace: nothing
/// when it names no table, or when its namespace string is another; an
/// error when it names a table but no namespace; otherwise its table,
/// then one table for every entry of `idxIdent`, in order, each entry's
/// value without quotes, and nothing else.
pub proof fn record_contributes_table_then_every_index(rec: RecordView, wanted: Seq<char>, i: usize)
    ensures
        rec.ident is None ==> record_tables(rec, wanted, i) == Ok::<Seq<Seq<char>>, CatalogError>(Seq::empty()),
        rec.ident is Some && rec.ns is None ==> record_tables(rec, wanted, i) == Err::<Seq<Seq<char>>, CatalogError>(
            CatalogError::MissingNamespace { record: i },
        ),
        rec.ident is Some && (rec.ns matches Some(ns) && text_or_empty(ns) != wanted) ==> record_tables(rec, wanted, i)
            == Ok::<Seq<Seq<char>>, CatalogError>(Seq::empty()),
        rec.ident is Some && (rec.ns matches Some(ns) && text_or_empty(ns) == wanted) && rec.index_idents is None
            ==> record_tables(rec, wanted, i) == Ok::<Seq<Seq<char>>, CatalogError>(
            seq![text_or_empty(rec.ident->Some_0)],
        ),
        rec.ident is Some && (rec.ns matches Some(ns) && text_or_empty(ns) == wanted) && (rec.index_idents matches Some(ix)
            && ix.entries is None) ==> record_tables(rec, wanted, i) == Err::<Seq<Seq<char>>, CatalogError>(
            CatalogError::IndexesNotDocument { record: i },
        ),
        rec.ident is Some && (rec.ns matches Some(ns) && text_or_empty(ns) == wanted) && (rec.index_idents matches Some(ix)
            && ix.entries is Some) ==> ({
            let es = rec.index_idents->Some_0.entries->Some_0;
            &&& record_tables(rec, wanted, i) is Ok
            &&& record_tables(rec, wanted, i)->Ok_0.len() == es.len() + 1
            &&& record_tables(rec, wanted, i)->Ok_0[0] == text_or_empty(rec.ident->Some_0)
            &&& forall|j: int| 0 <= j < es.len() ==> #[trigger] record_tables(rec, wanted, i)->Ok_0[j + 1]
                == without_quotes(es[j].1)
        }),
{
}

/// A catalog of one value gives the tables of that value's record, or
/// stops with an error at position 0.
pub proof fn tables_of_single_value(v: Vec<u8>, wanted: Seq<char>)
    ensures
        decoded_record(v@) is None ==> catalog_tables(seq![v], wanted) == Err::<Seq<Seq<char>>, CatalogError>(
            CatalogError::Undecodable { record: 0 },
        ),
        decoded_record(v@) matches Some(rec) ==> catalog_tables(seq![v], wanted) == record_tables(rec, wanted, 0),
{
    let one = seq![v];
    assert(one[0] == v);
    assert(one.len() == 1);
    assert(tables_upto(one, wanted, 0) == Ok::<Seq<Seq<char>>, CatalogError>(Seq::empty()));
    let rec = decoded_record(v@);
    if rec is Some {
        let r = record_tables(rec->Some_0, wanted, 0);
        if r is Ok {
            assert(Seq::<Seq<char>>::empty() + r->Ok_0 == r->Ok_0);
        }
    }
}

/// Whether the search for `namespace` goes on past this value: the value
/// decodes, and its record names no table or names one under another
/// namespace.
pub open spec fn passes_over(bytes: Seq<u8>, namespace: Seq<char>) -> bool {
    decoded_record(bytes) matches Some(rec) && (rec.ident is None || (rec.ns matches Some(ns)
        && without_quotes(ns.rendered) != namespace))
}

/// Whether this value holds the record of `namespace`, with `table`: it
/// decodes to a record that names a table, its namespace shown without
/// quotes is `namespace` and its table shown without quotes is `table`.
pub open spec fn holds_namespace(bytes: Seq<u8>, namespace: Seq<char>, table: Seq<char>) -> bool {
    decoded_record(bytes) matches Some(rec) && (rec.ident matches Some(ident) && rec.ns matches Some(ns)
        && without_quotes(ns.rendered) == namespace && without_quotes(ident.rendered) == table)
}

proof fn search_upto_outcome(values: Seq<Vec<u8>>, namespace: Seq<char>, n: nat)
    requires
        n <= values.len(),
        values.len() <= usize::MAX,
    ensures
        search_upto(values, namespace, n) is Searching ==> forall|j: int| 0 <= j < n ==> #[trigger] passes_over(
            values[j]@,
            namespace,
        ),
        search_upto(values, namespace, n) matches Search::Found { record, table } ==> {
            &&& record < n
            &&& holds_namespace(values[record as int]@, namespace, table)
            &&& forall|j: int| 0 <= j < record ==> #[trigger] passes_over(values[j]@, namespace)
        },
        search_upto(values, namespace, n) matches Search::Failed { error } ==> match error {
            CatalogError::Undecodable { record } => record < n && decoded_record(values[record as int]@) is None
                && forall|j: int| 0 <= j < record ==> #[trigger] passes_over(values[j]@, namespace),
            CatalogError::MissingNamespace { record } => record < n && (decoded_record(values[record as int]@) matches Some(rec)
                && rec.ident is Some && rec.ns is None)
                && forall|j: int| 0 <= j < record ==> #[trigger] passes_over(values[j]@, namespace),
            _ => false,
        },
    decreases n,
{
    if n > 0 {
        let m = (n - 1) as nat;
        search_upto_outcome(values, namespace, m);
        assert(((n - 1) as usize) as int == m);
        if search_upto(values, namespace, m) is Searching {
            if search_upto(values, namespace, n) is Searching {
                assert forall|j: int| 0 <= j < n implies #[trigger] passes_over(values[j]@, namespace) by {
                    if j < m {
                        assert(passes_over(values[j]@, namespace));
                    }
                }
            }
        }
    }
}

/// The record that `plan_metadata_fix` finds for a namespace is the
/// value at the position it reports: that value names a table, its
/// namespace shown without quotes is the one asked for, its table shown
/// without quotes is the table reported, and every value before it
/// decodes and does not match.  It finds nothing only when every value
/// decodes and none matches; it stops on an undecodable value, or on a
/// record with a table but no namespace, only where every value before
/// passes.
pub proof fn metadata_fix_is_first_match(values: Seq<Vec<u8>>, namespace: Seq<char>)
    requires
        values.len() <= usize::MAX,
    ensures
        catalog_entry(values, namespace) matches Ok((record, table)) ==> {
            &&& record < values.len()
            &&& holds_namespace(values[record as int]@, namespace, table)
            &&& forall|j: int| 0 <= j < record ==> #[trigger] passes_over(values[j]@, namespace)
        },
        catalog_entry(values, namespace) == Err::<(usize, Seq<char>), CatalogError>(CatalogError::NamespaceNotFound)
            ==> forall|j: int| 0 <= j < values.len() ==> #[trigger] passes_over(values[j]@, namespace),
        catalog_entry(values, namespace) matches Err(CatalogError::Undecodable { record }) ==> {
            &&& record < values.len()
            &&& decoded_record(values[record as int]@) is None
            &&& forall|j: int| 0 <= j < record ==> #[trigger] passes_over(values[j]@, namespace)
        },
        catalog_entry(values, namespace) matches Err(CatalogError::MissingNamespace { record }) ==> {
            &&& record < values.len()
            &&& decoded_record(values[record as int]@) matches Some(rec) && rec.ident is Some && rec.ns is None
            &&& forall|j: int| 0 <= j < record ==> #[trigger] passes_over(values[j]@, namespace)
        },
        !(catalog_entry(values, namespace) matches Err(CatalogError::IndexesNotDocument { .. })),
{
    search_upto_outcome(values, namespace, values.len());
}

} // verus!
