//! Structured request bodies as plain values, and the text form of strings
//! in responses.

use crate::text::digit_char;
use vstd::prelude::*;

verus! {

/// A structured value as a request carries it. A number that is no integer
/// of 64 bits is kept as `OtherNumber`, without its digits: nothing here reads
/// them.
#[derive(Debug)]
pub enum JsonValue {
    Null,
    Bool(bool),
    Integer(i64),
    OtherNumber,
    Text(String),
    List(Vec<JsonValue>),
    Object(Vec<(String, JsonValue)>),
}

/// The value of the first member called `name`, if there is one.
pub open spec fn first_named(members: Seq<(String, JsonValue)>, name: Seq<char>) -> Option<
    JsonValue,
>
    decreases members.len(),
{
    if members.len() == 0 {
        None
    } else if members[0].0@ == name {
        Some(members[0].1)
    } else {
        first_named(members.drop_first(), name)
    }
}

/// The member `name` of an object; nothing for a value that is no object or
/// has no such member.
pub open spec fn member(value: JsonValue, name: Seq<char>) -> Option<JsonValue> {
    match value {
        JsonValue::Object(members) => first_named(members@, name),
        _ => None,
    }
}

/// The text of member `name`, where the member is there and is a text.
pub open spec fn member_text(value: JsonValue, name: Seq<char>) -> Option<Seq<char>> {
    match member(value, name) {
        Some(JsonValue::Text(text)) => Some(text@),
        _ => None,
    }
}

/// The integer of member `name`, where the member is there and is an
/// integer.
pub open spec fn member_integer(value: JsonValue, name: Seq<char>) -> Option<i64> {
    match member(value, name) {
        Some(JsonValue::Integer(n)) => Some(n),
        _ => None,
    }
}

impl JsonValue {
    /// Looks up a member of an object by name.
    pub fn get<'a>(&'a self, name: &str) -> (out: Option<&'a JsonValue>)
        ensures
            out is Some == member(*self, name@) is Some,
            out is Some ==> *out->0 == member(*self, name@)->0,
    {
        match self {
            JsonValue::Object(members) => {
                let wanted = String::from_str(name);
                let mut i: usize = 0;
                assert(members@.skip(0) =~= members@);
                while i < members.len()
                    invariant
                        i <= members.len(),
                        wanted@ == name@,
                        member(*self, name@) == first_named(members@.skip(i as int), name@),
                    decreases members.len() - i,
                {
                    proof {
                        assert(members@.skip(i as int).drop_first() =~= members@.skip(i + 1));
                        assert(members@.skip(i as int)[0] == members@[i as int]);
                    }
                    if members[i].0 == wanted {
                        return Some(&members[i].1);
                    }
                    i += 1;
                }
                None
            },
            _ => None,
        }
    }

    /// The text of member `name`.
    pub fn get_text<'a>(&'a self, name: &str) -> (out: Option<&'a String>)
        ensures
            out is Some == member_text(*self, name@) is Some,
            out is Some ==> out->0@ == member_text(*self, name@)->0,
    {
        match self.get(name) {
            Some(JsonValue::Text(text)) => Some(text),
            _ => None,
        }
    }

    /// The integer of member `name`.
    pub fn get_integer(&self, name: &str) -> (out: Option<i64>)
        ensures
            out == member_integer(*self, name@),
    {
        match self.get(name) {
            Some(JsonValue::Integer(n)) => Some(*n),
            _ => None,
        }
    }
}

/// How one character stands inside a quoted string: a backslash before a
/// quotation mark or a backslash, a letter after a backslash for backspace,
/// tab, line feed, form feed and carriage return, `\u00` and two hexadecimal
/// digits for the other characters below U+0020, and the character itself
/// otherwise.
pub open spec fn escaped_char(c: char) -> Seq<char> {
    if c == '"' {
        seq!['\\', '"']
    } else if c == '\\' {
        seq!['\\', '\\']
    } else if c == '\u{8}' {
        seq!['\\', 'b']
    } else if c == '\t' {
        seq!['\\', 't']
    } else if c == '\n' {
        seq!['\\', 'n']
    } else if c == '\u{c}' {
        seq!['\\', 'f']
    } else if c == '\r' {
        seq!['\\', 'r']
    } else if (c as int) < 32 {
        seq!['\\', 'u', '0', '0', digit_char(c as int / 16), digit_char(c as int % 16)]
    } else {
        seq![c]
    }
}

/// The characters of a string, each as it stands inside a quoted string.
pub open spec fn escaped(text: Seq<char>) -> Seq<char>
    decreases text.len(),
{
    if text.len() == 0 {
        Seq::empty()
    } else {
        escaped(text.drop_last()) + escaped_char(text.last())
    }
}

/// A string as a quoted string: its escaped characters between two quotation
/// marks.
pub open spec fn quoted(text: Seq<char>) -> Seq<char> {
    seq!['"'] + escaped(text) + seq!['"']
}

/// Calls `serde_json::to_string` on a string. The contract claims that the
/// result is the string between quotation marks, with the escapes that
/// `escaped_char` lists and every other character unchanged.
#[verifier::external_body]
pub(crate) fn quote(text: &str) -> (out: String)
    ensures
        out@ == quoted(text@),
{
    serde_json::to_string(text).unwrap_or_default()
}

} // verus!
