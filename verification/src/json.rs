//! The exchange-rate provider's answer, read by `serde_json`.
//!
//! Nothing here is proved: the function below hands its work to
//! `serde_json`, and its contract only gives what comes back a name.

use vstd::prelude::*;

verus! {

/// The number that a JSON text holds under `key` inside the object under
/// `section`, as `serde_json` writes that number out; `None` where the text
/// is not JSON or holds no number there.
pub uninterp spec fn json_number_at(body: Seq<char>, section: Seq<char>, key: Seq<char>) -> Option<
    Seq<char>,
>;

/// `serde_json::from_str` to a `Value`, `Value`'s index by name, twice, and
/// the `Display` of the `Number` found there. The same text and names always
/// give the same result, which is all that the contract says.
#[verifier::external_body]
pub(crate) fn number_at(body: &str, section: &str, key: &str) -> (res: Option<String>)
    ensures
        match res {
            Some(number) => json_number_at(body@, section@, key@) == Some(number@),
            None => json_number_at(body@, section@, key@) is None,
        },
{
    match serde_json::from_str::<serde_json::Value>(body) {
        Ok(value) => value[section][key].as_number().map(|n| n.to_string()),
        Err(_) => None,
    }
}

} // verus!
