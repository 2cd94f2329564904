//! The JSON values of the EasyEDA API, as the library reads them.

use vstd::prelude::*;

use crate::shape::truthy_word;
use crate::text::{chars_eq, chars_of, lower_all, lower_chars, single};

verus! {

/// A JSON number: its text and, where it is an integer in range, its value
/// as an `i64`.
#[derive(Debug, PartialEq)]
pub struct JsonNumber {
    pub text: String,
    pub as_i64: Option<i64>,
}

/// A JSON value. An object keeps its members in order.
#[derive(Debug, PartialEq)]
pub enum JsonValue {
    Null,
    Bool(bool),
    Number(JsonNumber),
    String(String),
    Array(Vec<JsonValue>),
    Object(Vec<(String, JsonValue)>),
}

/// The position of the first member named `key`, or the number of members.
pub open spec fn member_index(members: Seq<(String, JsonValue)>, key: Seq<char>) -> int
    decreases members.len(),
{
    if members.len() == 0 {
        0
    } else if members[0].0@ == key {
        0
    } else {
        1 + member_index(members.drop_first(), key)
    }
}

proof fn lemma_member_index(members: Seq<(String, JsonValue)>, key: Seq<char>)
    ensures
        0 <= member_index(members, key) <= members.len(),
        member_index(members, key) < members.len() ==> members[member_index(members, key)].0@
            == key,
    decreases members.len(),
{
    if members.len() > 0 && members[0].0@ != key {
        lemma_member_index(members.drop_first(), key);
    }
}

/// The member `key` of an object; none for a missing member or a value
/// that is not an object (`Value::get`).
pub open spec fn get_spec(v: JsonValue, key: Seq<char>) -> Option<JsonValue> {
    match v {
        JsonValue::Object(members) => {
            let i = member_index(members@, key);
            if i < members@.len() {
                Some(members@[i].1)
            } else {
                None
            }
        },
        _ => None,
    }
}

/// The member `key` of an object.
pub fn get<'a>(v: &'a JsonValue, key: &str) -> (r: Option<&'a JsonValue>)
    ensures
        match r {
            Some(x) => get_spec(*v, key@) == Some(*x),
            None => get_spec(*v, key@) is None,
        },
{
    match v {
        JsonValue::Object(members) => {
            let k = chars_of(key);
            let n = members.len();
            let mut i: usize = 0;
            assert(members@.skip(0) =~= members@);
            while i < n
                invariant
                    i <= n == members@.len(),
                    k@ == key@,
                    *v == JsonValue::Object(*members),
                    member_index(members@, key@) == i + member_index(members@.skip(i as int), key@),
                decreases n - i,
            {
                assert(members@.skip(i as int)[0] == members@[i as int]);
                if chars_eq(&chars_of(members[i].0.as_str()), &k) {
                    assert(members@[i as int].0@ == key@);
                    assert(member_index(members@.skip(i as int), key@) == 0);
                    assert(member_index(members@, key@) == i);
                    return Some(&members[i].1);
                }
                assert(members@.skip(i as int).drop_first() =~= members@.skip(i + 1));
                i += 1;
            }
            assert(members@.skip(n as int) =~= Seq::<(String, JsonValue)>::empty());
            None
        },
        _ => None,
    }
}

/// The value itself where present, `Null` where missing
/// (`unwrap_or(&Value::Null)`).
pub open spec fn or_null(v: Option<JsonValue>) -> JsonValue {
    match v {
        Some(x) => x,
        None => JsonValue::Null,
    }
}

/// The string form of a value: a string's text, a number's text, `true` or
/// `false`, and empty for anything else.
pub open spec fn safe_string_spec(v: JsonValue) -> Seq<char> {
    match v {
        JsonValue::String(s) => s@,
        JsonValue::Number(n) => n.text@,
        JsonValue::Bool(b) => if b {
            "true"@
        } else {
            "false"@
        },
        _ => Seq::empty(),
    }
}

/// The string form of a value.
pub fn safe_string(v: &JsonValue) -> (r: String)
    ensures
        r@ == safe_string_spec(*v),
{
    match v {
        JsonValue::String(s) => s.clone(),
        JsonValue::Number(n) => n.text.clone(),
        JsonValue::Bool(b) => if *b {
            String::from_str("true")
        } else {
            String::from_str("false")
        },
        _ => String::new(),
    }
}

/// The string form of an optional member, empty where it is missing.
pub fn safe_string_of(v: Option<&JsonValue>) -> (r: String)
    ensures
        r@ == safe_string_spec(or_null(
            match v {
                Some(x) => Some(*x),
                None => None,
            },
        )),
{
    match v {
        Some(x) => safe_string(x),
        None => String::new(),
    }
}

/// The truth value of a value: a boolean itself; a string whose ASCII
/// lower-case form is one of `true`, `1`, `yes`, `on`, `show`, `y`, `t`; a
/// non-zero integer; `false` for anything else.
pub open spec fn safe_bool_spec(v: JsonValue) -> bool {
    match v {
        JsonValue::Bool(b) => b,
        JsonValue::String(s) => truthy_word(lower_all(s@)),
        JsonValue::Number(n) => match n.as_i64 {
            Some(i) => i != 0,
            None => false,
        },
        _ => false,
    }
}

/// The truth value of a value.
pub fn safe_bool(v: &JsonValue) -> (r: bool)
    ensures
        r == safe_bool_spec(*v),
{
    match v {
        JsonValue::Bool(b) => *b,
        JsonValue::String(s) => {
            let w = lower_chars(&chars_of(s.as_str()));
            chars_eq(&w, &vec!['t', 'r', 'u', 'e']) || chars_eq(&w, &single('1')) || chars_eq(
                &w,
                &vec!['y', 'e', 's'],
            ) || chars_eq(&w, &vec!['o', 'n']) || chars_eq(&w, &vec!['s', 'h', 'o', 'w'])
                || chars_eq(&w, &single('y')) || chars_eq(&w, &single('t'))
        },
        JsonValue::Number(n) => match n.as_i64 {
            Some(i) => i != 0,
            None => false,
        },
        _ => false,
    }
}

/// A value from which a coordinate is read: the text of a number or a
/// string, a boolean, or nothing usable (read as zero).
#[derive(Debug, PartialEq)]
pub enum NumericSource {
    Number(String),
    Text(String),
    Bool(bool),
    Absent,
}

/// The source a coordinate is read from for an optional member.
pub open spec fn numeric_source_matches(n: NumericSource, v: Option<JsonValue>) -> bool {
    match or_null(v) {
        JsonValue::Number(x) => n matches NumericSource::Number(t) && t@ == x.text@,
        JsonValue::String(s) => n matches NumericSource::Text(t) && t@ == s@,
        JsonValue::Bool(b) => n == NumericSource::Bool(b),
        _ => n is Absent,
    }
}

/// The source a coordinate is read from for an optional member.
pub fn numeric_source(v: Option<&JsonValue>) -> (r: NumericSource)
    ensures
        numeric_source_matches(
            r,
            match v {
                Some(x) => Some(*x),
                None => None,
            },
        ),
{
    match v {
        Some(JsonValue::Number(x)) => NumericSource::Number(x.text.clone()),
        Some(JsonValue::String(s)) => NumericSource::Text(s.clone()),
        Some(JsonValue::Bool(b)) => NumericSource::Bool(*b),
        _ => NumericSource::Absent,
    }
}

} // verus!
