//! A JSON value as the clients read it.
use vstd::prelude::*;

verus! {

/// A floating-point JSON number, held as the renderings the clients use.
#[derive(Debug, Clone)]
pub struct FloatNumber {
    /// The number as `serde_json` prints it.
    pub text: String,
    /// The number as an integer (`n as i64`) when it has no fractional part.
    pub whole: Option<i64>,
    /// The number printed with two decimals (`{:.2}`).
    pub fixed2: String,
}

/// A JSON number.
#[derive(Debug, Clone)]
pub enum JsonNumber {
    /// An integer held as `i64`.
    Int(i64),
    /// A non-negative integer held as `u64` (reading JSON gives this form only
    /// above `i64::MAX`, but any value of it is read as the number it holds).
    UInt(u64),
    /// A floating-point number.
    Float(FloatNumber),
}

/// A JSON value.
#[derive(Debug)]
pub enum JsonValue {
    /// `null`.
    Null,
    /// `true` or `false`.
    Bool(bool),
    /// A number.
    Number(JsonNumber),
    /// A string.
    Str(String),
    /// An array.
    Array(Vec<JsonValue>),
    /// An object, its members in order.
    Object(Vec<(String, JsonValue)>),
}

} // verus!

verus! {

/// The value of the first member named `key`.
pub open spec fn member(members: Seq<(String, JsonValue)>, key: Seq<char>) -> Option<JsonValue>
    decreases members.len(),
{
    if members.len() == 0 {
        None
    } else if members[0].0@ == key {
        Some(members[0].1)
    } else {
        member(members.subrange(1, members.len() as int), key)
    }
}

/// Whether `a` and `b` are the same JSON value: the same variant, equal scalars and
/// strings, and arrays and objects of the same length whose items (and member names)
/// are the same in the same order.
pub open spec fn same_json(a: JsonValue, b: JsonValue) -> bool
    decreases a,
{
    match a {
        JsonValue::Null => b is Null,
        JsonValue::Bool(x) => b == JsonValue::Bool(x),
        JsonValue::Number(n) => b == JsonValue::Number(n),
        JsonValue::Str(t) => b == JsonValue::Str(t),
        JsonValue::Array(xs) => match b {
            JsonValue::Array(ys) => {
                &&& xs@.len() == ys@.len()
                &&& forall|i: int| 0 <= i < xs@.len() ==> same_json(#[trigger] xs@[i], ys@[i])
            },
            _ => false,
        },
        JsonValue::Object(xs) => match b {
            JsonValue::Object(ys) => {
                &&& xs@.len() == ys@.len()
                &&& forall|i: int|
                    0 <= i < xs@.len() ==> (#[trigger] xs@[i]).0 == ys@[i].0 && same_json(
                        xs@[i].1,
                        ys@[i].1,
                    )
            },
            _ => false,
        },
    }
}

fn copy_number(n: &JsonNumber) -> (r: JsonNumber)
    ensures
        r == *n,
{
    match n {
        JsonNumber::Int(i) => JsonNumber::Int(*i),
        JsonNumber::UInt(u) => JsonNumber::UInt(*u),
        JsonNumber::Float(f) => JsonNumber::Float(
            FloatNumber { text: f.text.clone(), whole: f.whole, fixed2: f.fixed2.clone() },
        ),
    }
}

impl JsonValue {
    /// A copy of this value.
    pub fn deep_copy(&self) -> (r: Self)
        ensures
            same_json(r, *self),
        decreases self,
    {
        match self {
            JsonValue::Null => JsonValue::Null,
            JsonValue::Bool(b) => JsonValue::Bool(*b),
            JsonValue::Number(n) => JsonValue::Number(copy_number(n)),
            JsonValue::Str(s) => JsonValue::Str(s.clone()),
            JsonValue::Array(items) => {
                let mut out: Vec<JsonValue> = Vec::new();
                let mut i: usize = 0;
                while i < items.len()
                    invariant
                        i <= items.len(),
                        *self == JsonValue::Array(*items),
                        out@.len() == i,
                        forall|j: int| 0 <= j < i ==> same_json(#[trigger] out@[j], items@[j]),
                    decreases items.len() - i,
                {
                    proof {
                        assert(decreases_to!(*items => items@));
                        assert(decreases_to!(items@ => items@[i as int]));
                        assert(decreases_to!(*self => (*self)->Array_0));
                        assert((*self)->Array_0 == *items);
                        assert(decreases_to!(*self => items@[i as int]));
                    }
                    let item = items[i].deep_copy();
                    out.push(item);
                    i += 1;
                }
                JsonValue::Array(out)
            }
            JsonValue::Object(members) => {
                let mut out: Vec<(String, JsonValue)> = Vec::new();
                let mut i: usize = 0;
                while i < members.len()
                    invariant
                        i <= members.len(),
                        *self == JsonValue::Object(*members),
                        out@.len() == i,
                        forall|j: int|
                            0 <= j < i ==> (#[trigger] out@[j]).0 == members@[j].0 && same_json(
                                out@[j].1,
                                members@[j].1,
                            ),
                    decreases members.len() - i,
                {
                    proof {
                        assert(decreases_to!(*members => members@));
                        assert(decreases_to!(members@ => members@[i as int]));
                        assert(decreases_to!(members@[i as int] => members@[i as int].1));
                        assert(decreases_to!(*self => (*self)->Object_0));
                        assert((*self)->Object_0 == *members);
                        assert(decreases_to!(*self => members@[i as int].1));
                    }
                    let key = members[i].0.clone();
                    let value = members[i].1.deep_copy();
                    out.push((key, value));
                    i += 1;
                }
                JsonValue::Object(out)
            }
        }
    }

    /// The member named `key` of an object (`None` for other values), as
    /// `serde_json::Value::get` with a string index.
    pub open spec fn spec_get(self, key: Seq<char>) -> Option<JsonValue> {
        match self {
            JsonValue::Object(members) => member(members@, key),
            _ => None,
        }
    }

    /// Looks up the member named `key` of an object.
    pub fn get(&self, key: &str) -> (r: Option<&JsonValue>)
        ensures
            match r {
                Some(v) => self.spec_get(key@) == Some(*v),
                None => self.spec_get(key@) is None,
            },
    {
        match self {
            JsonValue::Object(members) => {
                let mut i: usize = 0;
                proof { assert(members@.subrange(0, members@.len() as int) =~= members@); }
                while i < members.len()
                    invariant
                        i <= members.len(),
                        *self == JsonValue::Object(*members),
                        member(members@, key@) == member(members@.subrange(i as int, members@.len() as int), key@),
                    decreases members.len() - i,
                {
                    proof {
                        let rest = members@.subrange(i as int, members@.len() as int);
                        assert(rest.subrange(1, rest.len() as int) =~= members@.subrange(i + 1, members@.len() as int));
                    }
                    if crate::text::str_eq(members[i].0.as_str(), key) {
                        proof {
                            let rest = members@.subrange(i as int, members@.len() as int);
                            assert(rest[0] == members@[i as int]);
                        }
                        return Some(&members[i].1);
                    }
                    i += 1;
                }
                None
            }
            _ => None,
        }
    }

    /// The string inside a JSON string, as `as_str`.
    pub open spec fn spec_as_str(self) -> Option<Seq<char>> {
        match self {
            JsonValue::Str(s) => Some(s@),
            _ => None,
        }
    }

    /// The integer inside a number that fits `i64`, as `as_i64`.
    pub open spec fn spec_as_i64(self) -> Option<i64> {
        match self {
            JsonValue::Number(JsonNumber::Int(n)) => Some(n),
            JsonValue::Number(JsonNumber::UInt(n)) => if n <= i64::MAX { Some(n as i64) } else { None },
            _ => None,
        }
    }

    /// The integer inside a non-negative integer number, as `as_u64`.
    pub open spec fn spec_as_u64(self) -> Option<u64> {
        match self {
            JsonValue::Number(JsonNumber::Int(n)) => if n >= 0 { Some(n as u64) } else { None },
            JsonValue::Number(JsonNumber::UInt(n)) => Some(n),
            _ => None,
        }
    }

    /// The boolean inside a JSON boolean, as `as_bool`.
    pub open spec fn spec_as_bool(self) -> Option<bool> {
        match self {
            JsonValue::Bool(b) => Some(b),
            _ => None,
        }
    }

    /// The string inside a JSON string.
    pub fn as_str(&self) -> (r: Option<&str>)
        ensures
            match r {
                Some(s) => self.spec_as_str() == Some(s@),
                None => self.spec_as_str() is None,
            },
    {
        match self {
            JsonValue::Str(s) => Some(s.as_str()),
            _ => None,
        }
    }

    /// The integer inside a number that fits `i64`.
    pub fn as_i64(&self) -> (r: Option<i64>)
        ensures
            r == self.spec_as_i64(),
    {
        match self {
            JsonValue::Number(JsonNumber::Int(n)) => Some(*n),
            JsonValue::Number(JsonNumber::UInt(n)) => if *n <= i64::MAX as u64 { Some(*n as i64) } else { None },
            _ => None,
        }
    }

    /// The integer inside a non-negative integer number.
    pub fn as_u64(&self) -> (r: Option<u64>)
        ensures
            r == self.spec_as_u64(),
    {
        match self {
            JsonValue::Number(JsonNumber::Int(n)) => if *n >= 0 { Some(*n as u64) } else { None },
            JsonValue::Number(JsonNumber::UInt(n)) => Some(*n),
            _ => None,
        }
    }

    /// The boolean inside a JSON boolean.
    pub fn as_bool(&self) -> (r: Option<bool>)
        ensures
            r == self.spec_as_bool(),
    {
        match self {
            JsonValue::Bool(b) => Some(*b),
            _ => None,
        }
    }

    /// The items of a JSON array.
    pub fn as_array(&self) -> (r: Option<&Vec<JsonValue>>)
        ensures
            match r {
                Some(v) => self == JsonValue::Array(*v),
                None => !(self is Array),
            },
    {
        match self {
            JsonValue::Array(items) => Some(items),
            _ => None,
        }
    }
}

impl Clone for JsonValue {
    fn clone(&self) -> Self {
        self.deep_copy()
    }
}

} // verus!

verus! {

/// Lower-case hexadecimal digit.
pub open spec fn hex_digit(d: nat) -> char {
    if d < 10 { crate::text::digit_char(d) } else if d == 10 { 'a' } else if d == 11 { 'b' }
    else if d == 12 { 'c' } else if d == 13 { 'd' } else if d == 14 { 'e' } else { 'f' }
}

/// How `serde_json` writes one character inside a string literal.
pub open spec fn escape_char(c: char) -> Seq<char> {
    let u = c as u32;
    if c == '"' { seq!['\\', '"'] }
    else if c == '\\' { seq!['\\', '\\'] }
    else if u == 8 { seq!['\\', 'b'] }
    else if u == 9 { seq!['\\', 't'] }
    else if u == 10 { seq!['\\', 'n'] }
    else if u == 12 { seq!['\\', 'f'] }
    else if u == 13 { seq!['\\', 'r'] }
    else if u < 0x20 { seq!['\\', 'u', '0', '0', hex_digit((u / 16) as nat), hex_digit((u % 16) as nat)] }
    else { seq![c] }
}

/// The escaped body of a string literal.
pub open spec fn escape_str(s: Seq<char>) -> Seq<char>
    decreases s.len(),
{
    if s.len() == 0 { seq![] } else { escape_str(s.drop_last()) + escape_char(s.last()) }
}

/// A JSON string literal.
pub open spec fn quoted(s: Seq<char>) -> Seq<char> {
    seq!['"'] + escape_str(s) + seq!['"']
}

/// The compact text of a JSON number.
pub open spec fn number_text(n: JsonNumber) -> Seq<char> {
    match n {
        JsonNumber::Int(i) => crate::text::signed_decimal(i as int),
        JsonNumber::UInt(u) => crate::text::decimal(u as nat),
        JsonNumber::Float(f) => f.text@,
    }
}

/// The compact text of a JSON value, as `serde_json` prints it.
pub open spec fn json_text(v: JsonValue) -> Seq<char>
    decreases v,
{
    match v {
        JsonValue::Null => seq!['n', 'u', 'l', 'l'],
        JsonValue::Bool(b) => if b { seq!['t', 'r', 'u', 'e'] } else { seq!['f', 'a', 'l', 's', 'e'] },
        JsonValue::Number(n) => number_text(n),
        JsonValue::Str(s) => quoted(s@),
        JsonValue::Array(items) => seq!['['] + items_text(items@) + seq![']'],
        JsonValue::Object(members) => seq!['{'] + members_text(members@) + seq!['}'],
    }
}

/// Comma-separated texts of array items.
pub open spec fn items_text(items: Seq<JsonValue>) -> Seq<char>
    decreases items,
{
    if items.len() == 0 {
        seq![]
    } else if items.len() == 1 {
        json_text(items[0])
    } else {
        items_text(items.subrange(0, items.len() - 1)) + seq![','] + json_text(items[items.len() - 1])
    }
}

/// Comma-separated texts of object members.
pub open spec fn members_text(members: Seq<(String, JsonValue)>) -> Seq<char>
    decreases members,
{
    if members.len() == 0 {
        seq![]
    } else if members.len() == 1 {
        quoted(members[0].0@) + seq![':'] + json_text(members[0].1)
    } else {
        members_text(members.subrange(0, members.len() - 1)) + seq![','] + quoted(members[members.len() - 1].0@)
            + seq![':'] + json_text(members[members.len() - 1].1)
    }
}

fn hex(d: u32) -> (c: char)
    requires
        d < 16,
    ensures
        c == hex_digit(d as nat),
{
    if d == 0 { '0' } else if d == 1 { '1' } else if d == 2 { '2' } else if d == 3 { '3' }
    else if d == 4 { '4' } else if d == 5 { '5' } else if d == 6 { '6' } else if d == 7 { '7' }
    else if d == 8 { '8' } else if d == 9 { '9' } else if d == 10 { 'a' } else if d == 11 { 'b' }
    else if d == 12 { 'c' } else if d == 13 { 'd' } else if d == 14 { 'e' } else { 'f' }
}

fn push_escaped_char(out: &mut Vec<char>, c: char)
    ensures
        final(out)@ == old(out)@ + escape_char(c),
{
    let u = c as u32;
    if c == '"' { out.push('\\'); out.push('"'); }
    else if c == '\\' { out.push('\\'); out.push('\\'); }
    else if u == 8 { out.push('\\'); out.push('b'); }
    else if u == 9 { out.push('\\'); out.push('t'); }
    else if u == 10 { out.push('\\'); out.push('n'); }
    else if u == 12 { out.push('\\'); out.push('f'); }
    else if u == 13 { out.push('\\'); out.push('r'); }
    else if u < 0x20 {
        out.push('\\'); out.push('u'); out.push('0'); out.push('0');
        out.push(hex(u / 16)); out.push(hex(u % 16));
    } else {
        out.push(c);
    }
    proof { assert(out@ =~= old(out)@ + escape_char(c)); }
}

fn push_quoted(out: &mut Vec<char>, s: &String)
    ensures
        final(out)@ == old(out)@ + quoted(s@),
{
    let cs = crate::text::chars_of(s.as_str());
    out.push('"');
    let mut i: usize = 0;
    while i < cs.len()
        invariant
            i <= cs.len(),
            cs@ == s@,
            out@ == old(out)@ + seq!['"'] + escape_str(cs@.subrange(0, i as int)),
        decreases cs.len() - i,
    {
        proof { assert(cs@.subrange(0, i + 1).drop_last() =~= cs@.subrange(0, i as int)); }
        push_escaped_char(out, cs[i]);
        i += 1;
        proof { assert(out@ =~= old(out)@ + seq!['"'] + escape_str(cs@.subrange(0, i as int))); }
    }
    out.push('"');
    proof {
        assert(cs@.subrange(0, cs.len() as int) =~= s@);
        assert(out@ =~= old(out)@ + quoted(s@));
    }
}

/// Appends the compact JSON text of `v` to `out`.
pub fn push_json(out: &mut Vec<char>, v: &JsonValue)
    ensures
        final(out)@ == old(out)@ + json_text(*v),
    decreases v,
{
    match v {
        JsonValue::Null => {
            out.push('n'); out.push('u'); out.push('l'); out.push('l');
            proof { assert(out@ =~= old(out)@ + json_text(*v)); }
        }
        JsonValue::Bool(b) => {
            if *b {
                out.push('t'); out.push('r'); out.push('u'); out.push('e');
            } else {
                out.push('f'); out.push('a'); out.push('l'); out.push('s'); out.push('e');
            }
            proof { assert(out@ =~= old(out)@ + json_text(*v)); }
        }
        JsonValue::Number(n) => {
            match n {
                JsonNumber::Int(i) => crate::text::push_signed_decimal(out, *i),
                JsonNumber::UInt(u) => crate::text::push_decimal(out, *u),
                JsonNumber::Float(f) => {
                    let cs = crate::text::chars_of(f.text.as_str());
                    crate::text::push_seq(out, &cs);
                }
            }
        }
        JsonValue::Str(s) => push_quoted(out, s),
        JsonValue::Array(items) => {
            out.push('[');
            let ghost start = out@;
            let mut i: usize = 0;
            while i < items.len()
                invariant
                    i <= items.len(),
                    *v == JsonValue::Array(*items),
                    out@ == start + items_text(items@.subrange(0, i as int)),
                decreases items.len() - i,
            {
                proof {
                    assert(decreases_to!(*items => items@));
                    assert(decreases_to!(items@ => items@[i as int]));
                    assert(decreases_to!(*v => (*v)->Array_0));
                    assert(decreases_to!(*v => items@[i as int]));
                    assert(items@.subrange(0, i + 1).subrange(0, i as int) =~= items@.subrange(0, i as int));
                }
                if i > 0 {
                    out.push(',');
                }
                push_json(out, &items[i]);
                i += 1;
                proof { assert(out@ =~= start + items_text(items@.subrange(0, i as int))); }
            }
            out.push(']');
            proof {
                assert(items@.subrange(0, items.len() as int) =~= items@);
                assert(out@ =~= old(out)@ + json_text(*v));
            }
        }
        JsonValue::Object(members) => {
            out.push('{');
            let ghost start = out@;
            let mut i: usize = 0;
            while i < members.len()
                invariant
                    i <= members.len(),
                    *v == JsonValue::Object(*members),
                    out@ == start + members_text(members@.subrange(0, i as int)),
                decreases members.len() - i,
            {
                proof {
                    assert(decreases_to!(*members => members@));
                    assert(decreases_to!(members@ => members@[i as int]));
                    assert(decreases_to!(members@[i as int] => members@[i as int].1));
                    assert(decreases_to!(*v => (*v)->Object_0));
                    assert(decreases_to!(*v => members@[i as int].1));
                    assert(members@.subrange(0, i + 1).subrange(0, i as int) =~= members@.subrange(0, i as int));
                }
                if i > 0 {
                    out.push(',');
                }
                push_quoted(out, &members[i].0);
                out.push(':');
                push_json(out, &members[i].1);
                i += 1;
                proof { assert(out@ =~= start + members_text(members@.subrange(0, i as int))); }
            }
            out.push('}');
            proof {
                assert(members@.subrange(0, members.len() as int) =~= members@);
                assert(out@ =~= old(out)@ + json_text(*v));
            }
        }
    }
}

impl JsonValue {
    /// The compact JSON text of this value, as `serde_json::Value::to_string`.
    pub fn to_text(&self) -> (r: String)
        ensures
            r@ == json_text(*self),
    {
        let mut out: Vec<char> = Vec::new();
        push_json(&mut out, self);
        proof { assert(out@ =~= json_text(*self)); }
        crate::text::string_of(&out)
    }
}

} // verus!
