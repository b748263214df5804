//! The BSON documents of the catalog, decoded by the `bson` crate.
//!
//! A document is held as `bson::Document`; what the catalog logic reads of
//! a field is handed out as a `Field` of plain values.
use vstd::prelude::*;

verus! {

#[verifier::external_type_specification]
#[verifier::external_body]
pub struct ExDocument(bson::Document);

#[verifier::external_type_specification]
#[verifier::external_body]
pub struct ExDecoderError(bson::DecoderError);

/// What the catalog logic reads of one field of a document.
#[derive(Clone, Debug, PartialEq, Eq)]
pub struct Field {
    /// The string the field holds, when it is a BSON string.
    pub text: Option<String>,
    /// The field's value as `bson` displays it (a string in double quotes,
    /// a number in decimal, a document in braces, ...).
    pub rendered: String,
    /// When the value converts to a JSON object: each of its entries, the
    /// key and the value as `serde_json` renders it, in order.
    pub entries: Option<Vec<(String, String)>>,
}

/// The plain-value model of a `Field`.
pub struct FieldView {
    pub text: Option<Seq<char>>,
    pub rendered: Seq<char>,
    pub entries: Option<Seq<(Seq<char>, Seq<char>)>>,
}

pub open spec fn entry_view(e: (String, String)) -> (Seq<char>, Seq<char>) {
    (e.0@, e.1@)
}

impl View for Field {
    type V = FieldView;

    open spec fn view(&self) -> FieldView {
        FieldView {
            text: match self.text {
                Some(s) => Some(s@),
                None => None,
            },
            rendered: self.rendered@,
            entries: match self.entries {
                Some(v) => Some(v@.map_values(|e: (String, String)| entry_view(e))),
                None => None,
            },
        }
    }
}

/// A field that holds a string is rendered as that string inside a pair
/// of double quotes.
pub open spec fn quoted_when_string(f: FieldView) -> bool {
    f.text matches Some(s) ==> f.rendered == seq!['"'] + s + seq!['"']
}

/// The fields that a `bson::Document` holds, by key.
pub uninterp spec fn document_fields(d: bson::Document) -> Map<Seq<char>, FieldView>;

/// What `bson::decode_document` makes of `bytes`: the fields of the
/// document, or `None` where it reports an error.
pub uninterp spec fn decoded_fields(bytes: Seq<u8>) -> Option<Map<Seq<char>, FieldView>>;

/// Calls `bson::decode_document` on `bytes`.  Trusted: the call fails
/// exactly where the name `decoded_fields` says so, and the fields of the
/// document it returns are those that the name gives for the same bytes.
/// One fact about the fields is stated, from `bson`'s `Display` impl for
/// `Bson::String`: a string is rendered inside a pair of double quotes.
/// Nothing more is stated of the decoder: which byte strings it accepts,
/// and how values other than strings render, is left to the names.
#[verifier::external_body]
pub(crate) fn decode_document(bytes: &[u8]) -> (r: Result<bson::Document, bson::DecoderError>)
    ensures
        r is Ok <==> decoded_fields(bytes@) is Some,
        r matches Ok(d) ==> decoded_fields(bytes@) == Some(document_fields(d)),
        r matches Ok(d) ==> forall|k: Seq<char>| #[trigger] document_fields(d).contains_key(k)
            ==> quoted_when_string(document_fields(d)[k]),
{
    let mut reader: &[u8] = bytes;
    bson::decode_document(&mut reader)
}

/// Calls `bson::Document::get` for `key` and hands the value out as a
/// `Field`: its string when it is `Bson::String`, its `Display` rendering,
/// and the entries of `Bson::to_json` when that is a JSON object.
/// Trusted: the field is present exactly where `document_fields` has the
/// key, and what is handed out is what that name holds there.
#[verifier::external_body]
#[allow(deprecated)]
pub(crate) fn document_field(d: &bson::Document, key: &str) -> (r: Option<Field>)
    ensures
        r is Some <==> document_fields(*d).contains_key(key@),
        r matches Some(f) ==> f@ == document_fields(*d)[key@],
{
    match d.get(key) {
        Some(b) => Some(Field {
            text: match b {
                bson::Bson::String(s) => Some(s.clone()),
                _ => None,
            },
            rendered: b.to_string(),
            entries: b.to_json().as_object().map(
                |m| m.iter().map(|(k, v)| (k.clone(), v.to_string())).collect(),
            ),
        }),
        None => None,
    }
}

} // verus!
