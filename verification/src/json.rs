//! The JSON that this crate reads and writes, as far as `serde_json` does the
//! work: reading the members of an object, and writing a text as a JSON
//! string. What `serde_json` returns is given a name here and not defined;
//! everything else in the crate is stated over those names.

use crate::text::text_eq;
use vstd::prelude::*;

verus! {

/// `serde_json`'s error type, carried through without being looked into.
#[verifier::external_type_specification]
#[verifier::external_body]
pub struct ExJsonError(serde_json::Error);

/// The value of a member of a JSON object, as far as this crate reads it:
/// its kind, and for a string the text.
pub enum MemberValue {
    Null,
    Bool,
    Number,
    Text(Seq<char>),
    Array,
    Object,
}

/// The value of a member of a JSON object: its kind, and for a string the
/// text.
#[derive(Debug, Clone, PartialEq, Eq)]
pub enum JsonMember {
    Null,
    Bool,
    Number,
    Text(String),
    Array,
    Object,
}

impl View for JsonMember {
    type V = MemberValue;

    open spec fn view(&self) -> MemberValue {
        match self {
            JsonMember::Null => MemberValue::Null,
            JsonMember::Bool => MemberValue::Bool,
            JsonMember::Number => MemberValue::Number,
            JsonMember::Text(text) => MemberValue::Text(text@),
            JsonMember::Array => MemberValue::Array,
            JsonMember::Object => MemberValue::Object,
        }
    }
}

/// The members of an object, each a key with its value.
pub open spec fn members_view(members: Seq<(String, JsonMember)>) -> Seq<(Seq<char>, MemberValue)> {
    members.map_values(|m: (String, JsonMember)| (m.0@, m.1@))
}

/// The value under `key` in `members`: that of the first member with this
/// key, or `None` where no member has it.
pub open spec fn member_of(members: Seq<(Seq<char>, MemberValue)>, key: Seq<char>) -> Option<
    MemberValue,
>
    decreases members.len(),
{
    if members.len() == 0 {
        None
    } else if members[0].0 == key {
        Some(members[0].1)
    } else {
        member_of(members.drop_first(), key)
    }
}

/// The value under a key is that of the member at `at`, where that member
/// has the key and none before it has.
pub proof fn lemma_member_at(members: Seq<(Seq<char>, MemberValue)>, key: Seq<char>, at: int)
    requires
        0 <= at < members.len(),
        members[at].0 == key,
        forall|i: int| 0 <= i < at ==> (#[trigger] members[i]).0 != key,
    ensures
        member_of(members, key) == Some(members[at].1),
    decreases at,
{
    if at > 0 {
        let rest = members.drop_first();
        assert forall|i: int| 0 <= i < at - 1 implies (#[trigger] rest[i]).0 != key by {
            assert(rest[i] == members[i + 1]);
        }
        lemma_member_at(rest, key, at - 1);
    }
}

/// What `serde_json` reads from `text` when asked for an object: its
/// members, or `None` where `text` is not one JSON object and nothing more.
pub uninterp spec fn json_object(text: Seq<char>) -> Option<Seq<(Seq<char>, MemberValue)>>;

/// What `serde_json` writes for the string `text`: the JSON string literal,
/// quotes included, or `None` where it reports an error.
pub uninterp spec fn json_quoted(text: Seq<char>) -> Option<Seq<char>>;

/// Calls `serde_json::from_str` for a `serde_json::Map<String, Value>` and
/// hands the members out in the map's order, each value reduced to its kind
/// and, for a string, its text. Nothing is proved of this function: the
/// contract only gives its result the name [`json_object`].
#[verifier::external_body]
pub(crate) fn read_object(text: &str) -> (r: Result<Vec<(String, JsonMember)>, serde_json::Error>)
    ensures
        match r {
            Ok(members) => json_object(text@) == Some(members_view(members@)),
            Err(_) => json_object(text@) is None,
        },
{
    let object: serde_json::Map<String, serde_json::Value> = serde_json::from_str(text)?;
    let mut members = Vec::new();
    for (key, value) in object {
        members.push((key, match value {
            serde_json::Value::Null => JsonMember::Null,
            serde_json::Value::Bool(_) => JsonMember::Bool,
            serde_json::Value::Number(_) => JsonMember::Number,
            serde_json::Value::String(text) => JsonMember::Text(text),
            serde_json::Value::Array(_) => JsonMember::Array,
            serde_json::Value::Object(_) => JsonMember::Object,
        }));
    }
    Ok(members)
}

/// Calls `serde_json::to_string` on a `str`. Nothing is proved of this
/// function: the contract only gives its result the name [`json_quoted`].
#[verifier::external_body]
pub(crate) fn quote(text: &str) -> (r: Result<String, serde_json::Error>)
    ensures
        match r {
            Ok(quoted) => json_quoted(text@) == Some(quoted@),
            Err(_) => json_quoted(text@) is None,
        },
{
    serde_json::to_string(text)
}

/// Looks up the value under `key`.
pub fn find_member<'a>(members: &'a Vec<(String, JsonMember)>, key: &str) -> (r: Option<
    &'a JsonMember,
>)
    ensures
        match r {
            Some(value) => member_of(members_view(members@), key@) == Some(value@),
            None => member_of(members_view(members@), key@) is None,
        },
{
    let ghost all = members_view(members@);
    let mut i: usize = 0;
    proof {
        assert(all.skip(0) =~= all);
    }
    while i < members.len()
        invariant
            i <= members@.len(),
            all == members_view(members@),
            member_of(all, key@) == member_of(all.skip(i as int), key@),
        decreases members@.len() - i,
    {
        if text_eq(members[i].0.as_str(), key) {
            return Some(&members[i].1);
        }
        proof {
            assert(all.skip(i as int).drop_first() =~= all.skip(i + 1));
        }
        i += 1;
    }
    None
}

} // verus!
