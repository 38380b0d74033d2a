use vstd::prelude::*;

verus! {

/// What a JSON text holds at a JSON pointer: `None` when the text does not
/// parse, `Some(None)` when the pointer leads to no string, and
/// `Some(Some(s))` when it leads to the string `s`.
pub uninterp spec fn json_str_at(doc: Seq<char>, pointer: Seq<char>) -> Option<Option<Seq<char>>>;

/// The text that bytes decode to as UTF-8, with each invalid sequence
/// replaced by U+FFFD.
pub uninterp spec fn utf8_lossy(bytes: Seq<u8>) -> Seq<char>;

/// Relies on `String::from_utf8_lossy`: lenient UTF-8 decoding.
#[verifier::external_body]
pub(crate) fn decode_lossy(bytes: &[u8]) -> (r: String)
    ensures
        r@ == utf8_lossy(bytes@),
{
    String::from_utf8_lossy(bytes).into_owned()
}

pub open spec fn lookup_view(r: Option<Option<String>>) -> Option<Option<Seq<char>>> {
    match r {
        None => None,
        Some(None) => Some(None),
        Some(Some(s)) => Some(Some(s@)),
    }
}

/// Relies on serde_json::from_str to parse `doc` into a `Value`, then on
/// `Value::pointer` (RFC 6901 lookup) and `Value::as_str`.
#[verifier::external_body]
pub(crate) fn lookup_str(doc: &str, pointer: &str) -> (r: Option<Option<String>>)
    ensures
        lookup_view(r) == json_str_at(doc@, pointer@),
{
    let value: serde_json::Value = serde_json::from_str(doc).ok()?;
    Some(value.pointer(pointer).and_then(|v| v.as_str()).map(|s| s.to_string()))
}

} // verus!
