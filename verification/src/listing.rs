//! The listing of the catalog: what is printed for each `_mdb_catalog`
//! value at a verbosity, and where the listing stops.
use vstd::prelude::*;
use crate::catalog::{
    decoded_record, plain_catalog, plain_field, plain_field_shown_as_text, read_catalog_record,
    text_or_empty, CatalogError, CatalogRecord, RecordView,
};
use crate::text::{strip_quotes, without_quotes};

verus! {

/// One line of the catalog listing.
#[derive(Clone, Debug, PartialEq, Eq)]
pub enum ListLine {
    /// "namespaces: ", printed first at verbosity 1.
    Heading,
    /// A value that is no BSON document; the listing goes on after it.
    Undecodable,
    /// At verbosity 2 and more: a namespace and the table that holds it.
    NamespaceFile { ns: String, file: String },
    /// At verbosity 2 and more: "indexes:", before the indexes.
    IndexesHeading,
    /// At verbosity 2 and more: one index, by name and table.
    Index { key: String, value: String },
    /// At verbosity 2 and more: the empty line after each namespace.
    Blank,
    /// At verbosity 1: a namespace.
    Namespace { ns: String },
}

pub enum LineView {
    Heading,
    Undecodable,
    NamespaceFile { ns: Seq<char>, file: Seq<char> },
    IndexesHeading,
    Index { key: Seq<char>, value: Seq<char> },
    Blank,
    Namespace { ns: Seq<char> },
}

impl View for ListLine {
    type V = LineView;

    open spec fn view(&self) -> LineView {
        match self {
            ListLine::Heading => LineView::Heading,
            ListLine::Undecodable => LineView::Undecodable,
            ListLine::NamespaceFile { ns, file } => LineView::NamespaceFile { ns: ns@, file: file@ },
            ListLine::IndexesHeading => LineView::IndexesHeading,
            ListLine::Index { key, value } => LineView::Index { key: key@, value: value@ },
            ListLine::Blank => LineView::Blank,
            ListLine::Namespace { ns } => LineView::Namespace { ns: ns@ },
        }
    }
}

pub open spec fn index_line(e: (Seq<char>, Seq<char>)) -> LineView {
    LineView::Index { key: e.0, value: e.1 }
}

/// The lines that the catalog value at position `i` adds to the listing,
/// and the error the listing stops on there, if it stops: a note when the
/// value does not decode; nothing when it names no table; a stop, with no
/// line, when it names a table but no namespace; otherwise, at verbosity 2
/// and more, the namespace and its table, then, when it has indexes,
/// "indexes:" and the indexes (or a stop, right after "indexes:", when
/// they are no document), then an empty line; at verbosity 1 the
/// namespace; at 0 nothing.  Namespaces and tables are shown as rendered,
/// without double quotes.
pub open spec fn record_lines(rec: Option<RecordView>, verbosity: i8, i: usize) -> (
    Seq<LineView>,
    Option<CatalogError>,
) {
    match rec {
        None => (seq![LineView::Undecodable], None),
        Some(rec) => match rec.ident {
            None => (Seq::empty(), None),
            Some(ident) => match rec.ns {
                None => (Seq::empty(), Some(CatalogError::MissingNamespace { record: i })),
                Some(ns) => {
                    let shown = without_quotes(ns.rendered);
                    if verbosity > 1 {
                        let head = seq![
                            LineView::NamespaceFile { ns: shown, file: without_quotes(ident.rendered) },
                        ];
                        match rec.index_idents {
                            None => (head.push(LineView::Blank), None),
                            Some(ix) => match ix.entries {
                                None => (
                                    head.push(LineView::IndexesHeading),
                                    Some(CatalogError::IndexesNotDocument { record: i }),
                                ),
                                Some(es) => (
                                    head.push(LineView::IndexesHeading) + es.map_values(
                                        |e: (Seq<char>, Seq<char>)| index_line(e),
                                    ).push(LineView::Blank),
                                    None,
                                ),
                            },
                        }
                    } else if verbosity > 0 {
                        (seq![LineView::Namespace { ns: shown }], None)
                    } else {
                        (Seq::empty(), None)
                    }
                },
            },
        },
    }
}

/// The lines of the first `n` catalog values, and the error the listing
/// stopped on, if it stopped: nothing after a stop is read.
pub open spec fn body_upto(values: Seq<Vec<u8>>, verbosity: i8, n: nat) -> (
    Seq<LineView>,
    Option<CatalogError>,
)
    decreases n,
{
    if n == 0 {
        (Seq::empty(), None)
    } else {
        let prev = body_upto(values, verbosity, (n - 1) as nat);
        if prev.1 is Some {
            prev
        } else {
            let r = record_lines(decoded_record(values[n - 1]@), verbosity, (n - 1) as usize);
            (prev.0 + r.0, r.1)
        }
    }
}

/// The lines of all the catalog values, and where the listing stopped.
pub open spec fn body(values: Seq<Vec<u8>>, verbosity: i8) -> (Seq<LineView>, Option<CatalogError>) {
    body_upto(values, verbosity, values.len())
}

/// The heading: "namespaces: " at verbosity 1, nothing otherwise.
pub open spec fn heading(verbosity: i8) -> Seq<LineView> {
    if verbosity == 1 {
        seq![LineView::Heading]
    } else {
        Seq::empty()
    }
}

/// The whole listing: the heading, then the lines of the values.
pub open spec fn listing(values: Seq<Vec<u8>>, verbosity: i8) -> (Seq<LineView>, Option<CatalogError>) {
    (heading(verbosity) + body(values, verbosity).0, body(values, verbosity).1)
}

pub open spec fn lines_view(v: Seq<ListLine>) -> Seq<LineView> {
    v.map_values(|l: ListLine| l@)
}

pub open spec fn field_record(rec: Option<CatalogRecord>) -> Option<RecordView> {
    match rec {
        Some(r) => Some(r@),
        None => None,
    }
}

/// The listing of a catalog: the lines printed, in order, and the error
/// the listing stopped on after them, if it stopped.
#[derive(Clone, Debug, PartialEq, Eq)]
pub struct Listing {
    pub lines: Vec<ListLine>,
    pub stopped: Option<CatalogError>,
}

/// Appends the lines of one catalog value to `out`; tells whether the
/// listing stops there.
fn push_record_lines(out: &mut Vec<ListLine>, rec: Option<CatalogRecord>, verbosity: i8, i: usize) -> (r: Option<CatalogError>)
    ensures
        lines_view(final(out)@) == lines_view(old(out)@) + record_lines(field_record(rec), verbosity, i).0,
        r == record_lines(field_record(rec), verbosity, i).1,
{
    let ghost start = out@;
    let rec = match rec {
        None => {
            out.push(ListLine::Undecodable);
            assert(lines_view(out@) =~= lines_view(start) + seq![LineView::Undecodable]);
            return None;
        },
        Some(rec) => rec,
    };
    let ident = match rec.ident {
        None => {
            assert(lines_view(out@) =~= lines_view(start) + Seq::<LineView>::empty());
            return None;
        },
        Some(f) => f,
    };
    let ns = match rec.ns {
        None => {
            assert(lines_view(out@) =~= lines_view(start) + Seq::<LineView>::empty());
            return Some(CatalogError::MissingNamespace { record: i });
        },
        Some(f) => f,
    };
    let shown = strip_quotes(ns.rendered.as_str());
    if verbosity > 1 {
        let file = strip_quotes(ident.rendered.as_str());
        out.push(ListLine::NamespaceFile { ns: shown, file });
        let ghost head = lines_view(out@);
        match rec.index_idents {
            None => {
                out.push(ListLine::Blank);
                assert(lines_view(out@) =~= head.push(LineView::Blank));
                None
            },
            Some(ix) => {
                out.push(ListLine::IndexesHeading);
                assert(lines_view(out@) =~= head.push(LineView::IndexesHeading));
                match ix.entries {
                    None => Some(CatalogError::IndexesNotDocument { record: i }),
                    Some(es) => {
                        let ghost mid = lines_view(out@);
                        let ghost esv = es@.map_values(|e: (String, String)| crate::document::entry_view(e));
                        let ghost ls = esv.map_values(|e: (Seq<char>, Seq<char>)| index_line(e));
                        let mut k: usize = 0;
                        while k < es.len()
                            invariant
                                k <= es.len(),
                                ls.len() == es.len(),
                                forall|j: int| 0 <= j < es.len() ==> #[trigger] ls[j] == (LineView::Index { key: es@[j].0@, value: es@[j].1@ }),
                                lines_view(out@) =~= mid + ls.take(k as int),
                            decreases es.len() - k,
                        {
                            let ghost prev = out@;
                            out.push(ListLine::Index { key: es[k].0.clone(), value: es[k].1.clone() });
                            assert(lines_view(out@) =~= lines_view(prev).push(ls[k as int]));
                            assert(ls.take(k + 1) == ls.take(k as int).push(ls[k as int]));
                            k = k + 1;
                        }
                        assert(ls.take(es.len() as int) == ls);
                        let ghost before_blank = out@;
                        out.push(ListLine::Blank);
                        assert(lines_view(out@) =~= lines_view(before_blank).push(LineView::Blank));
                        None
                    },
                }
            },
        }
    } else if verbosity > 0 {
        out.push(ListLine::Namespace { ns: shown });
        assert(lines_view(out@) =~= lines_view(start) + seq![LineView::Namespace { ns: without_quotes(ns@.rendered) }]);
        None
    } else {
        assert(lines_view(out@) =~= lines_view(start) + Seq::<LineView>::empty());
        None
    }
}

/// Once the listing has stopped, more values change nothing.
pub proof fn body_stop_persists(values: Seq<Vec<u8>>, verbosity: i8, m: nat, n: nat)
    requires
        m <= n,
        body_upto(values, verbosity, m).1 is Some,
    ensures
        body_upto(values, verbosity, n) == body_upto(values, verbosity, m),
    decreases n - m,
{
    if m < n {
        body_stop_persists(values, verbosity, m, (n - 1) as nat);
    }
}

/// The listing of the `_mdb_catalog` values, in cursor order, at the given
/// verbosity (see `record_lines`): at verbosity 1 a heading comes first.
/// It stops where a record names a table but no namespace, or, at
/// verbosity 2 and more, has an `idxIdent` that is no document; the lines
/// printed before the stop are kept.
pub fn list_tables(values: &[Vec<u8>], verbosity: i8) -> (r: Listing)
    ensures
        (lines_view(r.lines@), r.stopped) == listing(values@, verbosity),
        verbosity == 1 ==> r.lines@.len() >= 1 && r.lines@[0]@ == LineView::Heading,
{
    let mut out: Vec<ListLine> = Vec::new();
    if verbosity == 1 {
        out.push(ListLine::Heading);
    }
    let ghost h = lines_view(out@);
    assert(h =~= heading(verbosity));
    assert(verbosity == 1 ==> out@[0]@ == LineView::Heading);
    assert(lines_view(out@) =~= h + body_upto(values@, verbosity, 0).0);
    let mut i: usize = 0;
    while i < values.len()
        invariant
            i <= values.len(),
            h == heading(verbosity),
            body_upto(values@, verbosity, i as nat).1 is None,
            lines_view(out@) == h + body_upto(values@, verbosity, i as nat).0,
            verbosity == 1 ==> out@.len() >= 1 && out@[0]@ == LineView::Heading,
        decreases values.len() - i,
    {
        let rec = read_catalog_record(values[i].as_slice());
        let ghost before = lines_view(out@);
        let stop = push_record_lines(&mut out, rec, verbosity, i);
        assert(lines_view(out@) =~= h + body_upto(values@, verbosity, (i + 1) as nat).0);
        assert(verbosity == 1 ==> lines_view(out@)[0] == h[0]);
        assert(verbosity == 1 ==> out@[0]@ == lines_view(out@)[0]);
        if let Some(e) = stop {
            proof {
                body_stop_persists(values@, verbosity, (i + 1) as nat, values@.len());
            }
            return Listing { lines: out, stopped: Some(e) };
        }
        i = i + 1;
    }
    Listing { lines: out, stopped: None }
}

/// The lines of a value do not depend on its position, only the error a
/// stop reports does.
proof fn record_lines_position(rec: Option<RecordView>, verbosity: i8, i: usize, j: usize)
    ensures
        record_lines(rec, verbosity, i).0 == record_lines(rec, verbosity, j).0,
        record_lines(rec, verbosity, i).1 is None <==> record_lines(rec, verbosity, j).1 is None,
{
}

/// The lines of the first `n` values depend on those values alone.
proof fn body_prefix(v1: Seq<Vec<u8>>, v2: Seq<Vec<u8>>, verbosity: i8, n: nat)
    requires
        n <= v1.len(),
        n <= v2.len(),
        forall|i: int| 0 <= i < n ==> v1[i] == v2[i],
    ensures
        body_upto(v1, verbosity, n) == body_upto(v2, verbosity, n),
    decreases n,
{
    if n > 0 {
        body_prefix(v1, v2, verbosity, (n - 1) as nat);
        assert(v1[n - 1] == v2[n - 1]);
    }
}

proof fn body_concat_upto(a: Seq<Vec<u8>>, b: Seq<Vec<u8>>, verbosity: i8, n: nat)
    requires
        n <= b.len(),
        body(a, verbosity).1 is None,
        body_upto(b, verbosity, n).1 is None,
    ensures
        body_upto(a + b, verbosity, a.len() + n) == (
            body(a, verbosity).0 + body_upto(b, verbosity, n).0,
            None::<CatalogError>,
        ),
    decreases n,
{
    let x = body(a, verbosity).0;
    if n == 0 {
        body_prefix(a + b, a, verbosity, a.len());
        assert(x + Seq::<LineView>::empty() == x);
    } else {
        let m = (n - 1) as nat;
        if body_upto(b, verbosity, m).1 is Some {
            body_stop_persists(b, verbosity, m, n);
        }
        body_concat_upto(a, b, verbosity, m);
        let y = body_upto(b, verbosity, m).0;
        assert((a + b)[a.len() + n - 1] == b[n - 1]);
        let rec = decoded_record(b[n - 1]@);
        record_lines_position(rec, verbosity, (n - 1) as usize, (a.len() + n - 1) as usize);
        let ls = record_lines(rec, verbosity, (n - 1) as usize).0;
        assert(x + y + ls == x + (y + ls));
    }
}

/// The listing of two catalogs read one after the other, where neither
/// stops, is the lines of the first followed by the lines of the second.
pub proof fn listing_of_concatenated_catalogs(a: Seq<Vec<u8>>, b: Seq<Vec<u8>>, verbosity: i8)
    requires
        body(a, verbosity).1 is None,
        body(b, verbosity).1 is None,
    ensures
        body(a + b, verbosity) == (body(a, verbosity).0 + body(b, verbosity).0, None::<CatalogError>),
{
    body_concat_upto(a, b, verbosity, b.len());
}

/// A value that is no BSON document adds one note to the listing and
/// leaves every other line as it is: the listing with it is the listing
/// without it, with the note where the value stands.
pub proof fn undecodable_value_adds_one_note(
    a: Seq<Vec<u8>>,
    bad: Vec<u8>,
    b: Seq<Vec<u8>>,
    verbosity: i8,
)
    requires
        decoded_record(bad@) is None,
        body(a, verbosity).1 is None,
        body(b, verbosity).1 is None,
    ensures
        listing(a + seq![bad] + b, verbosity) == (
            heading(verbosity) + body(a, verbosity).0 + seq![LineView::Undecodable] + body(b, verbosity).0,
            None::<CatalogError>,
        ),
        listing(a + b, verbosity) == (
            heading(verbosity) + body(a, verbosity).0 + body(b, verbosity).0,
            None::<CatalogError>,
        ),
{
    let one = seq![bad];
    assert(body_upto(one, verbosity, 0) == (Seq::<LineView>::empty(), None::<CatalogError>));
    assert(one[0] == bad);
    assert(Seq::<LineView>::empty() + seq![LineView::Undecodable] == seq![LineView::Undecodable]);
    assert(body(one, verbosity) == (seq![LineView::Undecodable], None::<CatalogError>));
    listing_of_concatenated_catalogs(a, one, verbosity);
    listing_of_concatenated_catalogs(a + one, b, verbosity);
    listing_of_concatenated_catalogs(a, b, verbosity);
    let h = heading(verbosity);
    let x = body(a, verbosity).0;
    let y = body(b, verbosity).0;
    let u = seq![LineView::Undecodable];
    assert(h + (x + u + y) == h + x + u + y);
    assert(h + (x + y) == h + x + y);
}

/// The namespaces that lines name, in order: those of the brief
/// `Namespace` lines and of the full `NamespaceFile` lines.
pub open spec fn namespaces_listed(lines: Seq<LineView>) -> Seq<Seq<char>>
    decreases lines.len(),
{
    if lines.len() == 0 {
        Seq::empty()
    } else {
        let front = namespaces_listed(lines.drop_last());
        match lines.last() {
            LineView::Namespace { ns } => front.push(ns),
            LineView::NamespaceFile { ns, file } => front.push(ns),
            _ => front,
        }
    }
}

proof fn namespaces_listed_concat(a: Seq<LineView>, b: Seq<LineView>)
    ensures
        namespaces_listed(a + b) == namespaces_listed(a) + namespaces_listed(b),
    decreases b.len(),
{
    if b.len() == 0 {
        assert(a + b == a);
        assert(namespaces_listed(a) + Seq::<Seq<char>>::empty() == namespaces_listed(a));
    } else {
        namespaces_listed_concat(a, b.drop_last());
        assert((a + b).drop_last() == a + b.drop_last());
        assert((a + b).last() == b.last());
        let p = namespaces_listed(a);
        let q = namespaces_listed(b.drop_last());
        match b.last() {
            LineView::Namespace { ns } => {
                assert((p + q).push(ns) == p + q.push(ns));
            },
            LineView::NamespaceFile { ns, file } => {
                assert((p + q).push(ns) == p + q.push(ns));
            },
            _ => {},
        }
    }
}

proof fn index_lines_name_no_namespace(es: Seq<(Seq<char>, Seq<char>)>)
    ensures
        namespaces_listed(es.map_values(|e: (Seq<char>, Seq<char>)| index_line(e))).len() == 0,
    decreases es.len(),
{
    if es.len() > 0 {
        index_lines_name_no_namespace(es.drop_last());
        let f = |e: (Seq<char>, Seq<char>)| index_line(e);
        assert(es.map_values(f).drop_last() == es.drop_last().map_values(f));
        assert(es.map_values(f).last() == index_line(es.last()));
    }
}

/// One value names the same namespaces in the brief and the full listing,
/// when the full listing does not stop on it.
proof fn record_names_same_namespace(rec: Option<RecordView>, i: usize)
    requires
        record_lines(rec, 2, i).1 is None,
    ensures
        namespaces_listed(record_lines(rec, 1, i).0) == namespaces_listed(record_lines(rec, 2, i).0),
{
    match rec {
        None => {},
        Some(r) => match r.ident {
            None => {},
            Some(ident) => match r.ns {
                None => {},
                Some(ns) => {
                    let shown = without_quotes(ns.rendered);
                    let head = seq![
                        LineView::NamespaceFile { ns: shown, file: without_quotes(ident.rendered) },
                    ];
                    assert(head.drop_last() =~= Seq::<LineView>::empty());
                    assert(namespaces_listed(Seq::<LineView>::empty()) == Seq::<Seq<char>>::empty());
                    assert(head.last() == head[0]);
                    assert(namespaces_listed(head) =~= seq![shown]);
                    let one = seq![LineView::Namespace { ns: shown }];
                    assert(one.drop_last() =~= Seq::<LineView>::empty());
                    assert(namespaces_listed(one) == seq![shown]);
                    let blank = seq![LineView::Blank];
                    assert(blank.drop_last() =~= Seq::<LineView>::empty());
                    assert(namespaces_listed(blank) =~= Seq::<Seq<char>>::empty());
                    match r.index_idents {
                        None => {
                            namespaces_listed_concat(head, blank);
                            assert(head + blank == head.push(LineView::Blank));
                            assert(seq![shown] + Seq::<Seq<char>>::empty() == seq![shown]);
                        },
                        Some(ix) => {
                            let es = ix.entries->Some_0;
                            let ils = es.map_values(|e: (Seq<char>, Seq<char>)| index_line(e));
                            index_lines_name_no_namespace(es);
                            let ih = seq![LineView::IndexesHeading];
                            assert(ih.drop_last() =~= Seq::<LineView>::empty());
                            assert(namespaces_listed(ih) =~= Seq::<Seq<char>>::empty());
                            namespaces_listed_concat(head, ih);
                            namespaces_listed_concat(head + ih, ils);
                            namespaces_listed_concat(head + ih + ils, blank);
                            assert(head.push(LineView::IndexesHeading) + ils.push(LineView::Blank)
                                == head + ih + ils + blank);
                            assert(namespaces_listed(ils) =~= Seq::<Seq<char>>::empty());
                            assert(seq![shown] + Seq::<Seq<char>>::empty() + Seq::<Seq<char>>::empty()
                                + Seq::<Seq<char>>::empty() == seq![shown]);
                        },
                    }
                },
            },
        },
    }
}

proof fn brief_and_full_upto(values: Seq<Vec<u8>>, n: nat)
    requires
        n <= values.len(),
        body_upto(values, 1, n).1 is None,
        body_upto(values, 2, n).1 is None,
    ensures
        namespaces_listed(body_upto(values, 1, n).0) == namespaces_listed(body_upto(values, 2, n).0),
    decreases n,
{
    if n > 0 {
        let m = (n - 1) as nat;
        if body_upto(values, 1, m).1 is Some {
            body_stop_persists(values, 1, m, n);
        }
        if body_upto(values, 2, m).1 is Some {
            body_stop_persists(values, 2, m, n);
        }
        brief_and_full_upto(values, m);
        let rec = decoded_record(values[m as int]@);
        record_names_same_namespace(rec, m as usize);
        namespaces_listed_concat(body_upto(values, 1, m).0, record_lines(rec, 1, m as usize).0);
        namespaces_listed_concat(body_upto(values, 2, m).0, record_lines(rec, 2, m as usize).0);
    }
}

/// The brief listing (verbosity 1) and the full listing (verbosity 2) of a
/// catalog on which neither stops name the same namespaces, in the same
/// order: after its heading, the brief listing names one namespace for
/// each "namespace ... is file ..." line of the full one.
pub proof fn brief_and_full_listings_agree(values: Seq<Vec<u8>>)
    requires
        listing(values, 1).1 is None,
        listing(values, 2).1 is None,
    ensures
        namespaces_listed(listing(values, 1).0) == namespaces_listed(listing(values, 2).0),
{
    brief_and_full_upto(values, values.len());
    let h = seq![LineView::Heading];
    assert(h.drop_last() =~= Seq::<LineView>::empty());
    assert(namespaces_listed(Seq::<LineView>::empty()) == Seq::<Seq<char>>::empty());
    assert(h.last() == LineView::Heading);
    assert(namespaces_listed(h) =~= Seq::<Seq<char>>::empty());
    namespaces_listed_concat(h, body(values, 1).0);
    namespaces_listed_concat(Seq::<LineView>::empty(), body(values, 2).0);
    assert(Seq::<LineView>::empty() + body(values, 2).0 == body(values, 2).0);
    assert(heading(2) + body(values, 2).0 == body(values, 2).0);
}

/// The brief lines, one per record among the first `n` values that names
/// a table, each naming the namespace string of its record.
pub open spec fn namespace_lines(values: Seq<Vec<u8>>, n: nat) -> Seq<LineView>
    decreases n,
{
    if n == 0 {
        Seq::empty()
    } else {
        let front = namespace_lines(values, (n - 1) as nat);
        match decoded_record(values[n - 1]@) {
            Some(rec) => match (rec.ident, rec.ns) {
                (Some(_), Some(ns)) => front.push(LineView::Namespace { ns: text_or_empty(ns) }),
                _ => front,
            },
            None => front,
        }
    }
}

proof fn brief_listing_upto(values: Seq<Vec<u8>>, n: nat)
    requires
        n <= values.len(),
        plain_catalog(values),
    ensures
        body_upto(values, 1, n) == (namespace_lines(values, n), None::<CatalogError>),
    decreases n,
{
    if n > 0 {
        let m = (n - 1) as nat;
        brief_listing_upto(values, m);
        assert(decoded_record(values[m as int]@) matches Some(r) && (r.ident is Some ==> r.ns is Some)
            && plain_field(r.ident) && plain_field(r.ns));
        let rec = decoded_record(values[m as int]@)->Some_0;
        let front = namespace_lines(values, m);
        match (rec.ident, rec.ns) {
            (Some(_), Some(ns)) => {
                plain_field_shown_as_text(ns);
                let l = LineView::Namespace { ns: text_or_empty(ns) };
                assert(front + seq![l] =~= front.push(l));
            },
            (Some(_), None) => {},
            _ => {
                assert(front + Seq::<LineView>::empty() =~= front);
            },
        }
    }
}

/// In a catalog whose records name their tables and namespaces by strings
/// without double quotes, the listing at verbosity 1 is the heading and
/// then the namespace string of each record that names a table, in order,
/// and it does not stop.
pub proof fn brief_listing_names_namespaces(values: Seq<Vec<u8>>)
    requires
        plain_catalog(values),
    ensures
        listing(values, 1) == (
            seq![LineView::Heading] + namespace_lines(values, values.len()),
            None::<CatalogError>,
        ),
{
    brief_listing_upto(values, values.len());
}

/// What the full listing (verbosity 2 and more) shows of a record that
/// names a table and a namespace: its namespace and table without quotes;
/// then, when it has indexes as a document of entries `es`, "indexes:",
/// exactly one index line for each entry, in order, with the entry's key
/// and rendered value, and an empty line; without indexes, just the empty
/// line.  The listing does not stop there.
pub proof fn full_listing_shows_every_index(rec: RecordView, verbosity: i8, i: usize)
    requires
        verbosity > 1,
        rec.ident is Some,
        rec.ns is Some,
    ensures
        ({
            let lines = record_lines(Some(rec), verbosity, i).0;
            let first = LineView::NamespaceFile {
                ns: without_quotes(rec.ns->Some_0.rendered),
                file: without_quotes(rec.ident->Some_0.rendered),
            };
            &&& lines.len() >= 2
            &&& lines[0] == first
            &&& rec.index_idents is None ==> lines == seq![first, LineView::Blank]
                && record_lines(Some(rec), verbosity, i).1 is None
            &&& (rec.index_idents matches Some(ix) && ix.entries is None) ==> lines == seq![
                first,
                LineView::IndexesHeading,
            ] && record_lines(Some(rec), verbosity, i).1 == Some(
                CatalogError::IndexesNotDocument { record: i },
            )
            &&& (rec.index_idents matches Some(ix) && ix.entries is Some) ==> {
                let es = rec.index_idents->Some_0.entries->Some_0;
                &&& record_lines(Some(rec), verbosity, i).1 is None
                &&& lines.len() == es.len() + 3
                &&& lines[1] == LineView::IndexesHeading
                &&& forall|j: int| 0 <= j < es.len() ==> #[trigger] lines[j + 2] == (LineView::Index {
                    key: es[j].0,
                    value: es[j].1,
                })
                &&& lines[es.len() + 2int] == LineView::Blank
            }
        }),
{
}

/// What the brief listing (verbosity 1) shows of a record: one line with
/// its namespace without quotes when it names a table and a namespace,
/// nothing when it names no table, and a stop with no line when it names
/// a table but no namespace; a value that does not decode shows a note.
/// At verbosity 0 only the note and the stop remain.
pub proof fn brief_listing_shows_one_line(rec: Option<RecordView>, i: usize)
    ensures
        rec is None ==> record_lines(rec, 1, i) == (seq![LineView::Undecodable], None::<CatalogError>)
            && record_lines(rec, 0, i) == (seq![LineView::Undecodable], None::<CatalogError>),
        (rec matches Some(r) && r.ident is None) ==> record_lines(rec, 1, i) == (Seq::<LineView>::empty(), None::<CatalogError>)
            && record_lines(rec, 0, i) == (Seq::<LineView>::empty(), None::<CatalogError>),
        (rec matches Some(r) && r.ident is Some && r.ns is None) ==> record_lines(rec, 1, i) == (
            Seq::<LineView>::empty(),
            Some(CatalogError::MissingNamespace { record: i }),
        ) && record_lines(rec, 0, i) == (
            Seq::<LineView>::empty(),
            Some(CatalogError::MissingNamespace { record: i }),
        ),
        (rec matches Some(r) && r.ident is Some && r.ns matches Some(ns)) ==> record_lines(rec, 1, i) == (
            seq![LineView::Namespace { ns: without_quotes(rec->Some_0.ns->Some_0.rendered) }],
            None::<CatalogError>,
        ) && record_lines(rec, 0, i) == (Seq::<LineView>::empty(), None::<CatalogError>),
{
}

/// A catalog of one value lists the lines of that value after the
/// heading, and stops where that value stops the listing.
pub proof fn listing_of_single_value(v: Vec<u8>, verbosity: i8)
    ensures
        listing(seq![v], verbosity) == (
            heading(verbosity) + record_lines(decoded_record(v@), verbosity, 0).0,
            record_lines(decoded_record(v@), verbosity, 0).1,
        ),
{
    let one = seq![v];
    assert(one[0] == v);
    assert(one.len() == 1);
    assert(body_upto(one, verbosity, 0) == (Seq::<LineView>::empty(), None::<CatalogError>));
    let ls = record_lines(decoded_record(v@), verbosity, 0).0;
    assert(Seq::<LineView>::empty() + ls == ls);
}

} // verus!
