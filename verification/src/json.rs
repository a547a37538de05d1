//! A JSON document model holding, as plain values, what the library reads
//! from JSON, and the parse that produces it.
use vstd::prelude::*;

verus! {

/// A JSON number: its value when it is an integer that fits in `i64`, and
/// its text.
pub struct JsonNumber {
    pub as_i64: Option<i64>,
    pub text: String,
}

/// A JSON value. Object members keep the order the parser gives them; no
/// key occurs twice in what the parser produces.
pub enum JsonValue {
    Null,
    Bool(bool),
    Number(JsonNumber),
    Str(String),
    Array(Vec<JsonValue>),
    Object(Vec<(String, JsonValue)>),
}

/// Index of the first member of `pairs` whose key is `k`.
pub open spec fn key_index(pairs: Seq<(String, JsonValue)>, k: Seq<char>) -> Option<int> {
    if exists|i: int| 0 <= i < pairs.len() && pairs[i].0@ == k {
        Some(choose|i: int| 0 <= i < pairs.len() && pairs[i].0@ == k
            && forall|j: int| 0 <= j < i ==> pairs[j].0@ != k)
    } else {
        None
    }
}

/// The member `k` of an object; nothing for other values or a missing key.
pub open spec fn json_get(v: JsonValue, k: Seq<char>) -> Option<JsonValue> {
    match v {
        JsonValue::Object(pairs) => match key_index(pairs@, k) {
            Some(i) => Some(pairs@[i].1),
            None => None,
        },
        _ => None,
    }
}

/// Element `i` of an array; nothing for other values or an index past the end.
pub open spec fn json_at(v: JsonValue, i: int) -> Option<JsonValue> {
    match v {
        JsonValue::Array(items) => if 0 <= i < items@.len() { Some(items@[i]) } else { None },
        _ => None,
    }
}

/// The text of a string value.
pub open spec fn json_str(v: JsonValue) -> Option<Seq<char>> {
    match v {
        JsonValue::Str(s) => Some(s@),
        _ => None,
    }
}

/// The value of a number that is an `i64`.
pub open spec fn json_i64(v: JsonValue) -> Option<i64> {
    match v {
        JsonValue::Number(n) => n.as_i64,
        _ => None,
    }
}

/// `json_get` on an optional value.
pub open spec fn opt_get(v: Option<JsonValue>, k: Seq<char>) -> Option<JsonValue> {
    match v {
        Some(x) => json_get(x, k),
        None => None,
    }
}

/// `json_at` on an optional value.
pub open spec fn opt_at(v: Option<JsonValue>, i: int) -> Option<JsonValue> {
    match v {
        Some(x) => json_at(x, i),
        None => None,
    }
}

/// `json_str` on an optional value.
pub open spec fn opt_str(v: Option<JsonValue>) -> Option<Seq<char>> {
    match v {
        Some(x) => json_str(x),
        None => None,
    }
}

/// `json_i64` on an optional value.
pub open spec fn opt_i64(v: Option<JsonValue>) -> Option<i64> {
    match v {
        Some(x) => json_i64(x),
        None => None,
    }
}

impl JsonValue {
    /// The member `key` of an object.
    pub fn get(&self, key: &str) -> (r: Option<&JsonValue>)
        ensures
            match r {
                Some(x) => json_get(*self, key@) == Some(*x),
                None => json_get(*self, key@) is None,
            },
    {
        match self {
            JsonValue::Object(pairs) => {
                let mut i: usize = 0;
                while i < pairs.len()
                    invariant
                        *self == JsonValue::Object(*pairs),
                        i <= pairs@.len(),
                        forall|j: int| 0 <= j < i ==> pairs@[j].0@ != key@,
                    decreases pairs@.len() - i,
                {
                    if crate::text::same_text(pairs[i].0.as_str(), key) {
                        proof {
                            let k = choose|k: int| 0 <= k < pairs@.len() && pairs@[k].0@ == key@
                                && forall|j: int| 0 <= j < k ==> pairs@[j].0@ != key@;
                            assert(0 <= i < pairs@.len() && pairs@[i as int].0@ == key@);
                            if k < i {
                                assert(pairs@[k].0@ != key@);
                            } else if k > i {
                                assert(pairs@[i as int].0@ != key@);
                            }
                            assert(key_index(pairs@, key@) == Some(i as int));
                            assert(*self == JsonValue::Object(*pairs));
                            assert(json_get(*self, key@) == Some(pairs@[i as int].1));
                        }
                        return Some(&pairs[i].1);
                    }
                    i = i + 1;
                }
                None
            },
            _ => None,
        }
    }

    /// Element `index` of an array.
    pub fn at(&self, index: usize) -> (r: Option<&JsonValue>)
        ensures
            match r {
                Some(x) => json_at(*self, index as int) == Some(*x),
                None => json_at(*self, index as int) is None,
            },
    {
        match self {
            JsonValue::Array(items) => {
                if index < items.len() {
                    Some(&items[index])
                } else {
                    None
                }
            },
            _ => None,
        }
    }

    /// The text of a string value.
    pub fn as_str(&self) -> (r: Option<&str>)
        ensures
            match r {
                Some(s) => json_str(*self) == Some(s@),
                None => json_str(*self) is None,
            },
    {
        match self {
            JsonValue::Str(s) => Some(s.as_str()),
            _ => None,
        }
    }

    /// The value of a number that is an `i64`.
    pub fn as_i64(&self) -> (r: Option<i64>)
        ensures
            r == json_i64(*self),
    {
        match self {
            JsonValue::Number(n) => n.as_i64,
            _ => None,
        }
    }
}

/// What `serde_json::from_str` parses `text` into, as a `JsonValue`, or
/// nothing when `text` is not JSON.
pub uninterp spec fn json_parse(text: Seq<char>) -> Option<JsonValue>;

#[verifier::external_type_specification]
#[verifier::external_body]
pub struct ExSerdeJsonValue(serde_json::Value);

/// `serde_json::from_str` into a `serde_json::Value`, converted to a
/// `JsonValue`; the result is named.
#[verifier::external_body]
pub fn parse_json(text: &str) -> (r: Option<JsonValue>)
    ensures
        r == json_parse(text@),
{
    serde_json::from_str::<serde_json::Value>(text).ok().map(from_serde)
}

/// The one-for-one conversion of a `serde_json::Value` into a `JsonValue`:
/// each variant becomes the variant of the same name, object members in the
/// order the map yields them, numbers as `as_i64` and their text. Nothing is
/// stated of it: it is part of what `parse_json`'s name stands for.
#[verifier::external_body]
fn from_serde(v: serde_json::Value) -> JsonValue {
    match v {
        serde_json::Value::Null => JsonValue::Null,
        serde_json::Value::Bool(b) => JsonValue::Bool(b),
        serde_json::Value::Number(n) => JsonValue::Number(JsonNumber { as_i64: n.as_i64(), text: n.to_string() }),
        serde_json::Value::String(s) => JsonValue::Str(s),
        serde_json::Value::Array(items) => JsonValue::Array(items.into_iter().map(from_serde).collect()),
        serde_json::Value::Object(m) => JsonValue::Object(m.into_iter().map(|(k, x)| (k, from_serde(x))).collect()),
    }
}

/// What serde_json writes, compactly, for `v` once it is turned into a
/// `serde_json::Value`.
pub uninterp spec fn json_text_of(v: JsonValue) -> Seq<char>;

/// The one-for-one conversion of a `JsonValue` into a `serde_json::Value`
/// (a number whose text serde_json does not read becomes `null`). Nothing is
/// stated of it: it is part of what `json_text`'s name stands for.
#[verifier::external_body]
fn to_serde(v: &JsonValue) -> serde_json::Value {
    match v {
        JsonValue::Null => serde_json::Value::Null,
        JsonValue::Bool(b) => serde_json::Value::Bool(*b),
        JsonValue::Number(n) => n.text.parse::<serde_json::Number>().map(serde_json::Value::Number).unwrap_or(serde_json::Value::Null),
        JsonValue::Str(s) => serde_json::Value::String(s.clone()),
        JsonValue::Array(items) => serde_json::Value::Array(items.iter().map(to_serde).collect()),
        JsonValue::Object(m) => serde_json::Value::Object(m.iter().map(|(k, x)| (k.clone(), to_serde(x))).collect()),
    }
}

/// The compact JSON text of `v`, written by serde_json (`Value::to_string`);
/// the result is named.
#[verifier::external_body]
pub(crate) fn json_text(v: &JsonValue) -> (r: String)
    ensures
        r@ == json_text_of(*v),
{
    to_serde(v).to_string()
}

} // verus!

verus! {

/// The member `key` of the members `pairs` of an object, taken out of them.
pub fn take_member(pairs: &mut Vec<(String, JsonValue)>, key: &str) -> (r: Option<JsonValue>)
    ensures
        r == match key_index(old(pairs)@, key@) {
            Some(i) => Some(old(pairs)@[i].1),
            None => None,
        },
        match key_index(old(pairs)@, key@) {
            Some(i) => final(pairs)@ == old(pairs)@.remove(i),
            None => final(pairs)@ == old(pairs)@,
        },
{
    let ghost old_pairs = pairs@;
    let mut i: usize = 0;
    while i < pairs.len()
        invariant
            pairs@ == old_pairs,
            old(pairs)@ == old_pairs,
            i <= pairs@.len(),
            forall|j: int| 0 <= j < i ==> pairs@[j].0@ != key@,
        decreases pairs@.len() - i,
    {
        if crate::text::same_text(pairs[i].0.as_str(), key) {
            proof {
                let k = choose|k: int| 0 <= k < old_pairs.len() && old_pairs[k].0@ == key@
                    && forall|j: int| 0 <= j < k ==> old_pairs[j].0@ != key@;
                assert(0 <= i < old_pairs.len() && old_pairs[i as int].0@ == key@);
                if k < i {
                    assert(old_pairs[k].0@ != key@);
                } else if k > i {
                    assert(old_pairs[i as int].0@ != key@);
                }
                assert(key_index(old_pairs, key@) == Some(i as int));
            }
            let removed = pairs.remove(i);
            assert(removed == old_pairs[i as int]);
            assert(old(pairs)@ == old_pairs);
            assert(key_index(old(pairs)@, key@) == Some(i as int));
            return Some(removed.1);
        }
        i = i + 1;
    }
    None
}

/// The member `key` of an object value, taken out of it.
pub fn into_member(v: JsonValue, key: &str) -> (r: Option<JsonValue>)
    ensures
        r == json_get(v, key@),
{
    let ghost v0 = v;
    match v {
        JsonValue::Object(pairs) => {
            let mut ps = pairs;
            let r = take_member(&mut ps, key);
            assert(r == json_get(v0, key@));
            r
        },
        _ => None,
    }
}

} // verus!

verus! {

/// The lower-case hexadecimal digit for `d` (`0 <= d <= 15`).
pub open spec fn hex_digit_char(d: nat) -> char {
    if d < 10 {
        crate::text::digit_char(d)
    } else if d == 10 { 'a' } else if d == 11 { 'b' } else if d == 12 { 'c' }
    else if d == 13 { 'd' } else if d == 14 { 'e' } else { 'f' }
}

/// How a JSON string writes the character `c`: the quote and the backslash
/// escaped, backspace, tab, line feed, form feed and carriage return in their
/// short forms, the other control characters as `\u00XX`, everything else as
/// it is.
pub open spec fn json_escape_char(c: char) -> Seq<char> {
    if c == '"' {
        seq!['\\', '"']
    } else if c == '\\' {
        seq!['\\', '\\']
    } else if c == '\u{8}' {
        seq!['\\', 'b']
    } else if c == '\t' {
        seq!['\\', 't']
    } else if c == '\n' {
        seq!['\\', 'n']
    } else if c == '\u{c}' {
        seq!['\\', 'f']
    } else if c == '\r' {
        seq!['\\', 'r']
    } else if (c as u32) < 0x20 {
        seq!['\\', 'u', '0', '0', hex_digit_char(((c as u32) / 16) as nat), hex_digit_char(((c as u32) % 16) as nat)]
    } else {
        seq![c]
    }
}

/// The characters of `s`, each as a JSON string writes it.
pub open spec fn json_escaped(s: Seq<char>) -> Seq<char>
    decreases s.len(),
{
    if s.len() == 0 {
        Seq::empty()
    } else {
        json_escaped(s.drop_last()) + json_escape_char(s.last())
    }
}

/// `s` as a JSON string.
pub open spec fn json_string_text(s: Seq<char>) -> Seq<char> {
    seq!['"'] + json_escaped(s) + seq!['"']
}

/// The strings `items` as a compact JSON array: `[`, the strings separated
/// by commas, `]`.
pub open spec fn json_string_list(items: Seq<Seq<char>>) -> Seq<char> {
    seq!['['] + crate::text::joined(items.map_values(|s: Seq<char>| json_string_text(s)), seq![',']) + seq![']']
}

} // verus!
