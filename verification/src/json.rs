//! Reading the model server's JSON answers: the reply texts of a chat
//! completion and the status of a health report.

use vstd::prelude::*;
use crate::server::status_is_ok;
use crate::votes::{replies_say_in_bed, says_in_bed};

verus! {

/// A JSON document, node for node as serde_json reads it.  Object members
/// are kept in the order serde_json's map keeps them (by key); keys are
/// unique.
pub enum Json {
    Null,
    Bool(bool),
    /// A number, as serde_json prints it.
    Number(String),
    Text(String),
    Array(Vec<Json>),
    Object(Vec<(String, Json)>),
}

#[verifier::external_type_specification]
#[verifier::external_body]
pub struct ExValue(serde_json::Value);

/// What `serde_json::from_str::<serde_json::Value>` makes of a text, node
/// for node; `None` when the text is not JSON.
pub uninterp spec fn parsed_json(text: Seq<char>) -> Option<Json>;

/// `serde_json::from_str::<serde_json::Value>`, with the value it returns
/// turned into a `Json` node for node.  Claimed: the result is the named
/// parse of the text, a function of the text alone.
#[verifier::external_body]
fn parse_json(text: &str) -> (j: Option<Json>)
    ensures
        j == parsed_json(text@),
{
    match serde_json::from_str::<serde_json::Value>(text) {
        Ok(v) => Some(json_of_value(v)),
        Err(_) => None,
    }
}

/// The node-for-node conversion of a serde_json value that `parse_json`
/// makes: each variant becomes the variant of the same name, numbers their
/// printed form, and object members come in the map's order.
#[verifier::external_body]
fn json_of_value(v: serde_json::Value) -> Json {
    match v {
        serde_json::Value::Null => Json::Null,
        serde_json::Value::Bool(b) => Json::Bool(b),
        serde_json::Value::Number(n) => Json::Number(n.to_string()),
        serde_json::Value::String(s) => Json::Text(s),
        serde_json::Value::Array(a) => Json::Array(a.into_iter().map(json_of_value).collect()),
        serde_json::Value::Object(m) => Json::Object(
            m.into_iter().map(|(k, v)| (k, json_of_value(v))).collect(),
        ),
    }
}

/// The member `key` of an object's members, `Null` when there is none.
pub open spec fn member(entries: Seq<(String, Json)>, key: Seq<char>) -> Json
    decreases entries.len(),
{
    if entries.len() == 0 {
        Json::Null
    } else if entries[0].0@ == key {
        entries[0].1
    } else {
        member(entries.drop_first(), key)
    }
}

/// `j[key]` as serde_json indexes a value: the member of an object, `Null`
/// for a missing member or for anything that is not an object.
pub open spec fn field(j: Json, key: Seq<char>) -> Json {
    match j {
        Json::Object(entries) => member(entries@, key),
        _ => Json::Null,
    }
}

/// The text of a node, when it is a text.
pub open spec fn text_of(j: Json) -> Option<Seq<char>> {
    match j {
        Json::Text(s) => Some(s@),
        _ => None,
    }
}

/// The `message.content` text of every item; `None` when one of them has
/// none.
pub open spec fn contents_of(items: Seq<Json>) -> Option<Seq<Seq<char>>>
    decreases items.len(),
{
    if items.len() == 0 {
        Some(Seq::empty())
    } else {
        match (
            contents_of(items.drop_last()),
            text_of(field(field(items.last(), "message"@), "content"@)),
        ) {
            (Some(cs), Some(c)) => Some(cs.push(c)),
            _ => None,
        }
    }
}

/// The reply texts of a chat completion: the `message.content` of each
/// entry of its `choices` array.  `None` when `choices` is not an array or
/// an entry has no text there.
pub open spec fn reply_contents(j: Json) -> Option<Seq<Seq<char>>> {
    match field(j, "choices"@) {
        Json::Array(items) => contents_of(items@),
        _ => None,
    }
}

/// The `status` text of a health report, when it is a text.
pub open spec fn status_text(j: Json) -> Option<Seq<char>> {
    text_of(field(j, "status"@))
}

/// Whether two texts are the same.
fn same_text(a: &str, b: &str) -> (same: bool)
    ensures
        same == (a@ == b@),
{
    let n = a.unicode_len();
    if b.unicode_len() != n {
        return false;
    }
    for i in 0..n
        invariant
            n == a@.len(),
            n == b@.len(),
            forall|k: int| 0 <= k < i ==> a@[k] == b@[k],
    {
        if a.get_char(i) != b.get_char(i) {
            return false;
        }
    }
    assert(a@ =~= b@);
    true
}

/// `j[key]`: the member, or `None` where serde_json gives `Null` for a
/// missing member or a non-object.
pub fn get_field<'a>(j: &'a Json, key: &str) -> (f: Option<&'a Json>)
    ensures
        match f {
            Some(v) => *v == field(*j, key@),
            None => field(*j, key@) == Json::Null,
        },
{
    match j {
        Json::Object(entries) => {
            let n = entries.len();
            assert(entries@.skip(0) =~= entries@);
            assert(field(*j, key@) == member(entries@, key@));
            for i in 0..n
                invariant
                    field(*j, key@) == member(entries@, key@),
                    n == entries@.len(),
                    member(entries@, key@) == member(entries@.skip(i as int), key@),
            {
                assert(entries@.skip(i as int).drop_first() =~= entries@.skip(i + 1));
                assert(entries@.skip(i as int)[0] == entries@[i as int]);
                let k = entries[i].0.as_str();
                if same_text(k, key) {
                    assert(k@ == entries@[i as int].0@);
                    assert(member(entries@.skip(i as int), key@) == entries@[i as int].1);
                    return Some(&entries[i].1);
                }
            }
            assert(entries@.skip(n as int) =~= Seq::<(String, Json)>::empty());
            None
        },
        _ => None,
    }
}

/// The text at `j[key]`, when there is one.
fn text_field<'a>(j: &'a Json, key: &str) -> (t: Option<&'a str>)
    ensures
        match t {
            Some(s) => text_of(field(*j, key@)) == Some(s@),
            None => text_of(field(*j, key@)) is None,
        },
{
    match get_field(j, key) {
        Some(Json::Text(s)) => Some(s.as_str()),
        _ => None,
    }
}

/// The reply texts of a parsed chat completion.
pub fn reply_contents_of(j: &Json) -> (cs: Option<Vec<String>>)
    ensures
        match cs {
            Some(v) => reply_contents(*j) == Some(v@.map_values(|s: String| s@)),
            None => reply_contents(*j) is None,
        },
{
    let items = match get_field(j, "choices") {
        Some(Json::Array(items)) => items,
        _ => {
            return None;
        },
    };
    let mut out: Vec<String> = Vec::new();
    for i in 0..items.len()
        invariant
            field(*j, "choices"@) == Json::Array(*items),
            contents_of(items@.take(i as int)) == Some(out@.map_values(|s: String| s@)),
    {
        assert(items@.take(i + 1).drop_last() =~= items@.take(i as int));
        let content = match get_field(&items[i], "message") {
            Some(message) => text_field(message, "content"),
            None => {
                proof {
                    assert(field(Json::Null, "content"@) == Json::Null);
                }
                None
            },
        };
        match content {
            Some(c) => {
                let ghost before = out@;
                out.push(String::from_str(c));
                assert(out@.map_values(|s: String| s@) =~= before.map_values(|s: String| s@).push(c@));
            },
            None => {
                assert(contents_of(items@.take(i + 1)) is None);
                assert(items@.take(i + 1) =~= items@.take(i as int) + seq![items@[i as int]]);
                assert(contents_of(items@) is None) by {
                    lemma_contents_missing(items@, i as int);
                }
                return None;
            },
        }
    }
    assert(items@.take(items@.len() as int) =~= items@);
    Some(out)
}

/// Once one item has no text, the whole list has none.
proof fn lemma_contents_missing(items: Seq<Json>, i: int)
    requires
        0 <= i < items.len(),
        contents_of(items.take(i + 1)) is None,
    ensures
        contents_of(items) is None,
    decreases items.len() - i,
{
    if i + 1 == items.len() {
        assert(items.take(i + 1) =~= items);
    } else {
        assert(items.take(i + 2).drop_last() =~= items.take(i + 1));
        lemma_contents_missing(items, i + 1);
    }
}

/// The answer in a chat completion text: whether its replies say someone
/// is lying in bed.  `None` when the text is not JSON or its replies cannot
/// be read.
pub fn answer_of_reply(reply: &str) -> (answer: Option<bool>)
    ensures
        answer == match parsed_json(reply@) {
            Some(j) => match reply_contents(j) {
                Some(cs) => Some(says_in_bed(cs)),
                None => None,
            },
            None => None,
        },
{
    let j = match parse_json(reply) {
        Some(j) => j,
        None => {
            return None;
        },
    };
    match reply_contents_of(&j) {
        Some(cs) => Some(replies_say_in_bed(&cs)),
        None => None,
    }
}

/// Whether a health report text says the server is healthy: its `status`
/// is the text "ok".  `None` when the text is not JSON.
pub fn health_of_body(body: &str) -> (healthy: Option<bool>)
    ensures
        healthy == match parsed_json(body@) {
            Some(j) => Some(status_text(j) == Some("ok"@)),
            None => None,
        },
{
    let j = match parse_json(body) {
        Some(j) => j,
        None => {
            return None;
        },
    };
    Some(status_is_ok(text_field(&j, "status")))
}

} // verus!
