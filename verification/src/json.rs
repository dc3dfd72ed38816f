//! Looking one text member up in a JSON document.

use crate::text;
use vstd::prelude::*;
use vstd::string::*;

verus! {

/// What serde_json makes of the document `text` and its top-level member `key`:
/// the member's text, nothing when the document is no object or has no such
/// member or the member is no string, or the message of the parse error.
pub uninterp spec fn json_member(text: Seq<u8>, key: Seq<char>) -> core::result::Result<
    Option<Seq<char>>,
    Seq<char>,
>;

/// The text behind a lookup's result.
pub open spec fn member_text(r: Result<Option<String>, String>) -> Result<
    Option<Seq<char>>,
    Seq<char>,
> {
    match r {
        Ok(member) => Ok(text::opt_text(member)),
        Err(message) => Err(message@),
    }
}

/// `serde_json::from_slice` into a `Value`, then `Value::get` and
/// `Value::as_str`. The outcome depends on the document and the key alone.
#[verifier::external_body]
pub(crate) fn string_member(text: &[u8], key: &str) -> (r: Result<Option<String>, String>)
    ensures
        member_text(r) == json_member(text@, key@),
{
    let value: serde_json::Value = serde_json::from_slice(text).map_err(|e| e.to_string())?;
    Ok(value.get(key).and_then(serde_json::Value::as_str).map(str::to_owned))
}

/// The member `key` of a document, nothing when the document cannot be read.
pub open spec fn readable_member(text: Seq<u8>, key: Seq<char>) -> Option<Seq<char>> {
    match json_member(text, key) {
        Ok(member) => member,
        Err(_) => None,
    }
}

/// The text member `key` of the document `text`, if there is one.
pub fn text_member(text: &[u8], key: &str) -> (r: Option<String>)
    ensures
        text::opt_text(r) == readable_member(text@, key@),
{
    match string_member(text, key) {
        Ok(member) => member,
        Err(_) => None,
    }
}

/// A member counts exactly if the document could be read and holds it as text.
pub proof fn lemma_readable_member(document: Seq<u8>, key: Seq<char>, value: Seq<char>)
    ensures
        readable_member(document, key) == Some(value) <==> json_member(document, key) == Ok::<
            Option<Seq<char>>,
            Seq<char>,
        >(Some(value)),
        json_member(document, key) is Err ==> readable_member(document, key) is None,
{
}

/// A lookup's result says the text of the member, or of the error, as it is.
pub proof fn lemma_member_text(member: Option<String>, message: String)
    ensures
        member_text(Ok(member)) == Ok::<Option<Seq<char>>, Seq<char>>(text::opt_text(member)),
        member_text(Err(message)) == Err::<Option<Seq<char>>, Seq<char>>(message@),
{
}

} // verus!
