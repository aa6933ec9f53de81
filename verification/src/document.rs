//! What is read of the JSON documents that replies carry.
use crate::names::texts;
use crate::outcome::{faults_agree, outcome};
use std::collections::HashMap;
use vstd::prelude::*;

verus! {

/// A member of a JSON object, as far as it is a scalar that can name a lease.
#[derive(Debug)]
pub enum Member {
    Text(String),
    /// A number, as JSON writes it.
    Number(String),
    /// Another value, or no such member.
    Other,
}

/// The mathematical value of a [`Member`].
pub enum MemberView {
    Text(Seq<char>),
    Number(Seq<char>),
    Other,
}

impl View for Member {
    type V = MemberView;

    open spec fn view(&self) -> MemberView {
        match self {
            Member::Text(text) => MemberView::Text(text@),
            Member::Number(text) => MemberView::Number(text@),
            Member::Other => MemberView::Other,
        }
    }
}

/// The member `key` of the JSON document `body`, or the message that says why `body` is none.
pub uninterp spec fn document_member(body: Seq<u8>, key: Seq<char>) -> Result<
    MemberView,
    Seq<char>,
>;

/// The compact text of the JSON document `body`, or the message that says why `body` is none.
pub uninterp spec fn document_text(body: Seq<u8>) -> Result<Seq<char>, Seq<char>>;

/// The keys of the JSON object of lists of texts `body`, or the message that says why `body` is
/// none.
pub uninterp spec fn document_keys(body: Seq<u8>) -> Result<Set<Seq<char>>, Seq<char>>;

/// Calls `serde_json::from_slice` and indexes the `serde_json::Value` by `key`. The claims: the
/// member, or the text of the error, depends on the arguments alone; and it is an error, with
/// that text, exactly where [`read_text`] gives one.
#[verifier::external_body]
pub(crate) fn read_member(body: &[u8], key: &str) -> (member: Result<Member, String>)
    ensures
        outcome(member) == document_member(body@, key@),
        faults_agree(outcome(member), document_text(body@)),
{
    let document: serde_json::Value = serde_json::from_slice(body).map_err(|e| e.to_string())?;
    Ok(match &document[key] {
        serde_json::Value::String(text) => Member::Text(text.clone()),
        serde_json::Value::Number(number) => Member::Number(number.to_string()),
        _ => Member::Other,
    })
}

/// Calls `serde_json::from_slice` and prints the `serde_json::Value`. The claim: the text, or
/// that of the error, depends on `body` alone.
#[verifier::external_body]
pub(crate) fn read_text(body: &[u8]) -> (text: Result<String, String>)
    ensures
        outcome(text) == document_text(body@),
{
    let document: serde_json::Value = serde_json::from_slice(body).map_err(|e| e.to_string())?;
    Ok(document.to_string())
}

/// The keys of a list, each once, or an error.
pub open spec fn key_set(keys: Result<Vec<String>, String>) -> Result<Set<Seq<char>>, Seq<char>> {
    match keys {
        Ok(list) => Ok(texts(list@).to_set()),
        Err(message) => Err(message@),
    }
}

/// Calls `serde_json::from_slice` for a `HashMap<String, Vec<String>>` and takes its keys. The
/// claims: which keys there are, or the text of the error, depends on `body` alone, and no key
/// comes twice. The order of the keys is not claimed: it is that of the map's walk.
#[verifier::external_body]
pub(crate) fn read_keys(body: &[u8]) -> (keys: Result<Vec<String>, String>)
    ensures
        key_set(keys) == document_keys(body@),
        keys matches Ok(list) ==> texts(list@).no_duplicates(),
{
    let map: HashMap<String, Vec<String>> = serde_json::from_slice(body).map_err(|e| e.to_string())?;
    Ok(map.into_keys().collect())
}

} // verus!
