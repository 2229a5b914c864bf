//! Reading top-level fields of a JSON document (`serde_json`).

use vstd::prelude::*;

verus! {

/// What a JSON object holds under one key, in the forms that the DAR-20
/// rules read: nothing, a string, a number that is a `u64`, or anything else.
#[derive(Debug, Clone)]
pub enum JsonField {
    Missing,
    Text(String),
    Unsigned(u64),
    Other,
}

/// The contents of a `JsonField`.
pub enum JsonFieldView {
    Missing,
    Text(Seq<char>),
    Unsigned(u64),
    Other,
}

impl View for JsonField {
    type V = JsonFieldView;

    open spec fn view(&self) -> JsonFieldView {
        match self {
            JsonField::Missing => JsonFieldView::Missing,
            JsonField::Text(s) => JsonFieldView::Text(s@),
            JsonField::Unsigned(n) => JsonFieldView::Unsigned(*n),
            JsonField::Other => JsonFieldView::Other,
        }
    }
}

/// The contents of an optional field.
pub open spec fn opt_field(f: Option<JsonField>) -> Option<JsonFieldView> {
    match f {
        Some(v) => Some(v@),
        None => None,
    }
}

/// What `serde_json::from_str::<serde_json::Value>` and `Value::get` give
/// for the field `key` of the document `text`: `None` where `text` is not
/// JSON, otherwise the field (missing where the document is not an object
/// or has no such key).
pub uninterp spec fn spec_json_field(text: Seq<char>, key: Seq<char>) -> Option<JsonFieldView>;

/// Parses `text` with `serde_json::from_str` into a `serde_json::Value` and
/// looks up `key` with `Value::get`; a string is handed out as text, a number
/// as a `u64` where `Number::as_u64` gives one. The JSON grammar is the
/// crate's, so the result is only named: it depends on the two texts alone.
#[verifier::external_body]
pub(crate) fn json_field(text: &str, key: &str) -> (res: Option<JsonField>)
    ensures
        opt_field(res) == spec_json_field(text@, key@),
{
    let doc: serde_json::Value = serde_json::from_str(text).ok()?;
    Some(
        match doc.get(key) {
            None => JsonField::Missing,
            Some(serde_json::Value::String(s)) => JsonField::Text(s.clone()),
            Some(serde_json::Value::Number(n)) => match n.as_u64() {
                Some(v) => JsonField::Unsigned(v),
                None => JsonField::Other,
            },
            Some(_) => JsonField::Other,
        },
    )
}

} // verus!
