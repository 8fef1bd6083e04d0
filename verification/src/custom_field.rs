//! How the value of a task's custom field is displayed.
use vstd::prelude::*;
use crate::filter_config::strings_view;
use crate::json::{json_text, JsonNumber, JsonValue};
use crate::models::{CustomField, ProgressValue};
use crate::text::{chars_of, hex_number, parse_hex_str, parse_i64, parse_i64_str, push_seq, push_signed_decimal,
    signed_decimal, string_of};

verus! {

/// Two to the power `k`.
pub open spec fn two_pow(k: nat) -> nat
    decreases k,
{
    if k == 0 { 1 } else { 2 * two_pow((k - 1) as nat) }
}

/// The integers below this bound are exactly representable as `f64`.
pub open spec fn exact_f64_bound() -> nat {
    9007199254740992
}

/// How many low bits of `m` do not fit the 53-bit significand of an `f64`.
pub open spec fn excess_bits(m: nat) -> nat
    decreases m,
{
    if m < exact_f64_bound() { 0 } else { 1 + excess_bits(m / 2) }
}

/// The `f64` nearest to `m` (ties to the even significand), as an integer.
pub open spec fn nearest_f64(m: nat) -> nat {
    let k = excess_bits(m);
    let p = two_pow(k);
    let q = m / p;
    let r = m % p;
    if k == 0 {
        m
    } else if r * 2 > p || (r * 2 == p && q % 2 == 1) {
        (q + 1) * p
    } else {
        q * p
    }
}

/// What `n as f64 as i64` gives for an integer `n` of magnitude below 2^64:
/// `n` rounded to the nearest `f64`, then saturated to the range of `i64`.
pub open spec fn through_f64(n: int) -> i64 {
    if n >= 0 {
        let m = nearest_f64(n as nat);
        if m > i64::MAX { i64::MAX } else { m as i64 }
    } else {
        let m = nearest_f64((-n) as nat);
        if m > 0x8000_0000_0000_0000 { i64::MIN } else { (-m) as i64 }
    }
}

proof fn lemma_two_pow_pos(k: nat)
    ensures
        two_pow(k) >= 1,
    decreases k,
{
    if k > 0 {
        lemma_two_pow_pos((k - 1) as nat);
    }
}

/// The `f64` nearest to `mag` (`mag as f64`), as an integer.
pub fn nearest_f64_of(mag: u64) -> (r: u128)
    ensures
        r == nearest_f64(mag as nat),
        r <= 0x2_0000_0000_0000_0000,
{
    let m: u128 = mag as u128;
    let mut cur: u128 = m;
    let mut p: u128 = 1;
    let ghost mut k: nat = 0;
    while cur >= 9007199254740992
        invariant
            p == two_pow(k),
            p >= 1,
            p <= 0x1_0000_0000_0000_0000,
            p == 1 || p <= m,
            cur == m / p,
            p * cur <= m,
            m < 0x1_0000_0000_0000_0000,
            excess_bits(m as nat) == k + excess_bits(cur as nat),
        decreases cur,
    {
        proof {
            vstd::arithmetic::div_mod::lemma_div_denominator(m as int, p as int, 2);
            assert(p * 2 * (cur / 2) <= p * cur) by (nonlinear_arith)
                requires p >= 1;
            assert(p * 2 <= p * cur) by (nonlinear_arith)
                requires p >= 1, cur >= 2;
        }
        cur = cur / 2;
        p = p * 2;
        proof {
            k = k + 1;
        }
    }
    proof {
        assert(excess_bits(cur as nat) == 0);
        assert(two_pow(excess_bits(m as nat)) == p);
    }
    let q = m / p;
    let rem = m % p;
    let rounded: u128 = if k_is_zero(p) {
        m
    } else if rem * 2 > p || (rem * 2 == p && q % 2 == 1) {
        proof {
            assert(q * p <= m) by (nonlinear_arith)
                requires q == m / p, p >= 1;
            assert((q + 1) * p <= m + p) by (nonlinear_arith)
                requires q * p <= m;
        }
        (q + 1) * p
    } else {
        proof {
            assert(q * p <= m) by (nonlinear_arith)
                requires q == m / p, p >= 1;
        }
        q * p
    };
    proof {
        if p == 1 {
            assert(k == 0) by {
                if k > 0 {
                    lemma_two_pow_pos((k - 1) as nat);
                }
            }
        } else {
            assert(k != 0);
        }
    }
    proof {
        assert(rounded <= 0x2_0000_0000_0000_0000) by {
            if p > 1 {
                assert((q + 1) * p <= m + p) by (nonlinear_arith)
                    requires q == m / p, p >= 1;
                assert(q * p <= m) by (nonlinear_arith)
                    requires q == m / p, p >= 1;
            }
        }
    }
    rounded
}

/// Rounds the magnitude `mag` to the nearest `f64` and saturates, with the
/// sign given by `neg`: `n as f64 as i64` for `n` = `mag` or `-mag`.
fn round_through_f64(neg: bool, mag: u64) -> (r: i64)
    requires
        neg ==> mag <= 0x8000_0000_0000_0000,
    ensures
        r == through_f64(if neg { -(mag as int) } else { mag as int }),
{
    let rounded = nearest_f64_of(mag);
    if neg {
        if rounded > 0x8000_0000_0000_0000 {
            i64::MIN
        } else if rounded == 0x8000_0000_0000_0000 {
            i64::MIN
        } else {
            -(rounded as i64)
        }
    } else if rounded > 0x7fff_ffff_ffff_ffff {
        i64::MAX
    } else {
        rounded as i64
    }
}

/// Whether the scale of the rounding is one, that is, no bit is dropped.
fn k_is_zero(p: u128) -> (r: bool)
    ensures
        r == (p == 1),
{
    p == 1
}

/// What a number field shows for a JSON value: an integral number as an
/// integer (going through `f64` as the clients do), another number with two
/// decimals, anything else as its JSON text.
pub open spec fn number_display(val: JsonValue) -> Seq<char> {
    match val {
        JsonValue::Number(JsonNumber::Int(n)) => signed_decimal(through_f64(n as int) as int),
        JsonValue::Number(JsonNumber::UInt(n)) => signed_decimal(through_f64(n as int) as int),
        JsonValue::Number(JsonNumber::Float(f)) => match f.whole {
            Some(w) => signed_decimal(w as int),
            None => f.fixed2@,
        },
        _ => json_text(val),
    }
}

/// Formats a JSON number value as an integer string if whole, otherwise 2 d.p.
pub fn format_number(val: &JsonValue) -> (r: String)
    ensures
        r@ == number_display(*val),
{
    match val {
        JsonValue::Number(JsonNumber::Int(n)) => {
            let neg = *n < 0;
            let mag: u64 = if *n >= 0 { *n as u64 } else if *n == i64::MIN { 0x8000_0000_0000_0000u64 } else { (-*n) as u64 };
            let w = round_through_f64(neg, mag);
            let mut out: Vec<char> = Vec::new();
            push_signed_decimal(&mut out, w);
            crate::text::string_of(&out)
        },
        JsonValue::Number(JsonNumber::UInt(n)) => {
            let w = round_through_f64(false, *n);
            let mut out: Vec<char> = Vec::new();
            push_signed_decimal(&mut out, w);
            crate::text::string_of(&out)
        },
        JsonValue::Number(JsonNumber::Float(f)) => match f.whole {
            Some(w) => {
                let mut out: Vec<char> = Vec::new();
                push_signed_decimal(&mut out, w);
                crate::text::string_of(&out)
            },
            None => f.fixed2.clone(),
        },
        _ => val.to_text(),
    }
}

/// The date `chrono` shows for a timestamp in milliseconds, formatted as
/// `%b %d, %Y` (as "Jan 12, 2000"), or `None` when the timestamp is out of
/// chrono's range.
pub uninterp spec fn utc_date(ms: i64) -> Option<Seq<char>>;

/// Calls `chrono::DateTime::from_timestamp_millis` and formats the result with
/// `%b %d, %Y`. The contract claims only that the result is a function of
/// `ms` (a UTC date involves no time zone or clock); what the text is, it
/// leaves to `utc_date`.
#[verifier::external_body]
pub(crate) fn utc_date_text(ms: i64) -> (r: Option<String>)
    ensures
        match r {
            Some(t) => utc_date(ms) == Some(t@),
            None => utc_date(ms) is None,
        },
{
    match chrono::DateTime::from_timestamp_millis(ms) {
        Some(dt) => Some(dt.format("%b %d, %Y").to_string()),
        None => None,
    }
}

/// A Unicode scalar value: a code point that is not a surrogate.
pub open spec fn is_scalar(v: u32) -> bool {
    v < 0xD800 || (0xE000 <= v && v <= 0x10FFFF)
}

/// Calls `char::from_u32`, which gives the character with code `v` exactly
/// when `v` is a Unicode scalar value.
#[verifier::external_body]
fn char_from_u32(v: u32) -> (r: Option<char>)
    ensures
        match r {
            Some(c) => is_scalar(v) && c == v as char,
            None => !is_scalar(v),
        },
{
    char::from_u32(v)
}

/// The string member `key` of `v`, when `v` is an object that has one.
pub open spec fn str_at(v: JsonValue, key: Seq<char>) -> Option<Seq<char>> {
    match v.spec_get(key) {
        Some(x) => x.spec_as_str(),
        None => None,
    }
}

/// The `i64` member `key` of `v`, when `v` is an object that has one.
pub open spec fn i64_at(v: JsonValue, key: Seq<char>) -> Option<i64> {
    match v.spec_get(key) {
        Some(x) => x.spec_as_i64(),
        None => None,
    }
}

/// The string member `key` of the field's type configuration.
pub open spec fn config_str(tc: Option<JsonValue>, key: Seq<char>) -> Option<Seq<char>> {
    match tc {
        Some(t) => str_at(t, key),
        None => None,
    }
}

/// The `options` array of the field's type configuration.
pub open spec fn options_of(tc: Option<JsonValue>) -> Option<Seq<JsonValue>> {
    match tc {
        Some(t) => match t.spec_get("options"@) {
            Some(JsonValue::Array(items)) => Some(items@),
            _ => None,
        },
        None => None,
    }
}

/// The first index from `i` on whose string member `key` is `want`.
pub open spec fn find_str(items: Seq<JsonValue>, key: Seq<char>, want: Seq<char>, i: int) -> Option<int>
    decreases items.len() - i,
{
    if i < 0 || i >= items.len() {
        None
    } else if str_at(items[i], key) == Some(want) {
        Some(i)
    } else {
        find_str(items, key, want, i + 1)
    }
}

/// The first index from `i` on whose integer member `key` is `want`.
pub open spec fn find_i64(items: Seq<JsonValue>, key: Seq<char>, want: i64, i: int) -> Option<int>
    decreases items.len() - i,
{
    if i < 0 || i >= items.len() {
        None
    } else if i64_at(items[i], key) == Some(want) {
        Some(i)
    } else {
        find_i64(items, key, want, i + 1)
    }
}

/// The `name_key` string of the first option whose `id` is `option_id`.
pub open spec fn resolved_name(tc: Option<JsonValue>, option_id: Seq<char>, name_key: Seq<char>) -> Option<Seq<char>> {
    match options_of(tc) {
        Some(items) => match find_str(items, "id"@, option_id, 0) {
            Some(k) => str_at(items[k], name_key),
            None => None,
        },
        None => None,
    }
}

/// Finds the first item whose string member `key` is `want`.
fn find_by_str(items: &Vec<JsonValue>, key: &str, want: &str) -> (r: Option<usize>)
    ensures
        match r {
            Some(k) => find_str(items@, key@, want@, 0) == Some(k as int) && k < items@.len(),
            None => find_str(items@, key@, want@, 0) is None,
        },
{
    let mut i: usize = 0;
    while i < items.len()
        invariant
            i <= items.len(),
            find_str(items@, key@, want@, 0) == find_str(items@, key@, want@, i as int),
        decreases items.len() - i,
    {
        let hit = match items[i].get(key) {
            Some(x) => match x.as_str() {
                Some(t) => crate::text::str_eq(t, want),
                None => false,
            },
            None => false,
        };
        if hit {
            return Some(i);
        }
        i += 1;
    }
    None
}

/// Finds the first item whose integer member `key` is `want`.
fn find_by_i64(items: &Vec<JsonValue>, key: &str, want: i64) -> (r: Option<usize>)
    ensures
        match r {
            Some(k) => find_i64(items@, key@, want, 0) == Some(k as int) && k < items@.len(),
            None => find_i64(items@, key@, want, 0) is None,
        },
{
    let mut i: usize = 0;
    while i < items.len()
        invariant
            i <= items.len(),
            find_i64(items@, key@, want, 0) == find_i64(items@, key@, want, i as int),
        decreases items.len() - i,
    {
        let hit = match items[i].get(key) {
            Some(x) => x.as_i64() == Some(want),
            None => false,
        };
        if hit {
            return Some(i);
        }
        i += 1;
    }
    None
}

/// The `options` array of a type configuration.
fn options_vec(tc: &Option<JsonValue>) -> (r: Option<&Vec<JsonValue>>)
    ensures
        match r {
            Some(v) => options_of(*tc) == Some(v@),
            None => options_of(*tc) is None,
        },
{
    match tc {
        Some(t) => match t.get("options") {
            Some(o) => o.as_array(),
            None => None,
        },
        None => None,
    }
}

/// The string member `key` of `v`.
fn get_str<'a>(v: &'a JsonValue, key: &str) -> (r: Option<&'a str>)
    ensures
        match r {
            Some(t) => str_at(*v, key@) == Some(t@),
            None => str_at(*v, key@) is None,
        },
{
    match v.get(key) {
        Some(x) => x.as_str(),
        None => None,
    }
}

/// Looks up an option by `id` in `type_config.options` and returns the value
/// of `name_key` (typically `"name"` for dropdowns or `"label"` for labels).
pub fn resolve_option_name(type_config: &Option<JsonValue>, option_id: &str, name_key: &str) -> (r: Option<String>)
    ensures
        match r {
            Some(t) => resolved_name(*type_config, option_id@, name_key@) == Some(t@),
            None => resolved_name(*type_config, option_id@, name_key@) is None,
        },
{
    let items = match options_vec(type_config) {
        Some(items) => items,
        None => return None,
    };
    match find_by_str(items, "id", option_id) {
        Some(k) => match get_str(&items[k], name_key) {
            Some(t) => Some(string_of(&chars_of(t))),
            None => None,
        },
        None => None,
    }
}

/// What the date field shows: the value (a string, or an integer written in
/// decimal) read as a timestamp in milliseconds and shown as a UTC date; the
/// value's text where it is no timestamp or out of range; anything else as
/// its JSON text.
pub open spec fn date_text(val: JsonValue) -> Seq<char> {
    let ts = match val.spec_as_str() {
        Some(t) => Some(t),
        None => match val.spec_as_i64() {
            Some(n) => Some(signed_decimal(n as int)),
            None => None,
        },
    };
    match ts {
        None => json_text(val),
        Some(t) => match parse_i64(t) {
            Some(ms) => match utc_date(ms) {
                Some(d) => d,
                None => t,
            },
            None => t,
        },
    }
}

/// What a drop-down field shows: the name of the option whose `id` is the
/// value (or of the option whose `orderindex` is the value, when the value is
/// an integer), else the value itself; anything else as its JSON text.
pub open spec fn dropdown_text(tc: Option<JsonValue>, val: JsonValue) -> Seq<char> {
    match val.spec_as_str() {
        Some(id) => match resolved_name(tc, id, "name"@) {
            Some(n) => n,
            None => id,
        },
        None => match val.spec_as_i64() {
            Some(n) => match options_of(tc) {
                Some(items) => match find_i64(items, "orderindex"@, n, 0) {
                    Some(k) => match str_at(items[k], "name"@) {
                        Some(name) => name,
                        None => signed_decimal(n as int),
                    },
                    None => signed_decimal(n as int),
                },
                None => signed_decimal(n as int),
            },
            None => json_text(val),
        },
    }
}

/// The strings among `items`, in order.
pub open spec fn string_items(items: Seq<JsonValue>) -> Seq<Seq<char>>
    decreases items.len(),
{
    if items.len() == 0 {
        Seq::empty()
    } else {
        let rest = string_items(items.drop_last());
        match items.last().spec_as_str() {
            Some(t) => rest.push(t),
            None => rest,
        }
    }
}

/// The name a user object shows: its `username`, or its `email` when it has
/// no `username` member.
pub open spec fn user_name(u: JsonValue) -> Option<Seq<char>> {
    match u.spec_get("username"@) {
        Some(x) => x.spec_as_str(),
        None => str_at(u, "email"@),
    }
}

/// The names of the user objects among `items`, in order.
pub open spec fn user_names(items: Seq<JsonValue>) -> Seq<Seq<char>>
    decreases items.len(),
{
    if items.len() == 0 {
        Seq::empty()
    } else {
        let rest = user_names(items.drop_last());
        match user_name(items.last()) {
            Some(t) => rest.push(t),
            None => rest,
        }
    }
}

/// The task a task reference names: the string itself, or its `id` member.
pub open spec fn task_ref(t: JsonValue) -> Option<Seq<char>> {
    match t.spec_as_str() {
        Some(s) => Some(s),
        None => str_at(t, "id"@),
    }
}

/// The task IDs among `items`, in order.
pub open spec fn task_refs(items: Seq<JsonValue>) -> Seq<Seq<char>>
    decreases items.len(),
{
    if items.len() == 0 {
        Seq::empty()
    } else {
        let rest = task_refs(items.drop_last());
        match task_ref(items.last()) {
            Some(t) => rest.push(t),
            None => rest,
        }
    }
}

/// The name a label shows: its option's `label`, else its `name`, else the ID.
pub open spec fn label_name(tc: Option<JsonValue>, id: Seq<char>) -> Seq<char> {
    match resolved_name(tc, id, "label"@) {
        Some(n) => n,
        None => match resolved_name(tc, id, "name"@) {
            Some(n) => n,
            None => id,
        },
    }
}

/// The names of the labels `ids`, in order.
pub open spec fn label_names(tc: Option<JsonValue>, ids: Seq<Seq<char>>) -> Seq<Seq<char>>
    decreases ids.len(),
{
    if ids.len() == 0 {
        Seq::empty()
    } else {
        label_names(tc, ids.drop_last()).push(label_name(tc, ids.last()))
    }
}

/// `parts` joined with `sep` between each two.
pub open spec fn joined(parts: Seq<Seq<char>>, sep: Seq<char>) -> Seq<char>
    decreases parts.len(),
{
    if parts.len() == 0 {
        Seq::empty()
    } else if parts.len() == 1 {
        parts[0]
    } else {
        joined(parts.drop_last(), sep) + sep + parts.last()
    }
}

/// `parts` joined with ", ", or a dash when there are none.
pub open spec fn list_text(parts: Seq<Seq<char>>) -> Seq<char> {
    if parts.len() == 0 { "—"@ } else { joined(parts, ", "@) }
}

/// The character an emoji field repeats: the one whose code point its
/// configuration gives in hexadecimal, else a star.
pub open spec fn emoji_glyph(tc: Option<JsonValue>) -> char {
    match config_str(tc, "code_point"@) {
        Some(cp) => match hex_number(cp, u32::MAX as int) {
            Some(v) => if is_scalar(v as u32) { (v as u32) as char } else { '★' },
            None => '★',
        },
        None => '★',
    }
}

/// What an emoji field shows: its glyph repeated as many times as the value
/// (a non-negative integer) says, or a dash for none.
pub open spec fn emoji_text(tc: Option<JsonValue>, val: JsonValue) -> Seq<char> {
    let count: nat = match val.spec_as_u64() {
        Some(c) => c as nat,
        None => 0,
    };
    if count == 0 { "—"@ } else { Seq::new(count, |_i: int| emoji_glyph(tc)) }
}

/// What a manual progress field shows for its worked-out progress.
pub open spec fn progress_text(p: Option<ProgressValue>) -> Seq<char> {
    match p {
        Some(ProgressValue::Percent(x)) => signed_decimal(x as int) + "%"@,
        Some(ProgressValue::Current(c)) => signed_decimal(c as int),
        None => "—"@,
    }
}

/// What an automatic progress field shows: the percentage (the value, or its
/// `percent` member), else the JSON text.
pub open spec fn auto_progress_text(val: JsonValue) -> Seq<char> {
    match val.spec_as_i64() {
        Some(n) => signed_decimal(n as int) + "%"@,
        None => match i64_at(val, "percent"@) {
            Some(p) => signed_decimal(p as int) + "%"@,
            None => json_text(val),
        },
    }
}

/// The text a custom field shows for its value.
pub open spec fn display_of(f: CustomField) -> Seq<char> {
    let tc = f.type_config;
    let t = f.field_type@;
    match f.value {
        None => "—"@,
        Some(val) => if t == "number"@ {
            number_display(val)
        } else if t == "currency"@ {
            (match config_str(tc, "currency_type"@) { Some(sym) => sym, None => "$"@ }) + " "@ + number_display(val)
        } else if t == "checkbox"@ {
            if val.spec_as_bool() == Some(true) { "✅"@ } else { "☐"@ }
        } else if t == "date"@ {
            date_text(val)
        } else if t == "drop_down"@ {
            dropdown_text(tc, val)
        } else if t == "labels"@ {
            match val {
                JsonValue::Array(items) => list_text(label_names(tc, string_items(items@))),
                _ => json_text(val),
            }
        } else if t == "emoji"@ {
            emoji_text(tc, val)
        } else if t == "users"@ {
            match val {
                JsonValue::Array(items) => list_text(user_names(items@)),
                _ => json_text(val),
            }
        } else if t == "tasks"@ {
            match val {
                JsonValue::Array(items) => list_text(task_refs(items@)),
                _ => json_text(val),
            }
        } else if t == "manual_progress"@ {
            progress_text(f.progress)
        } else if t == "automatic_progress"@ {
            auto_progress_text(val)
        } else if t == "location"@ {
            match str_at(val, "formatted_address"@) {
                Some(a) => a,
                None => json_text(val),
            }
        } else if t == "url"@ || t == "email"@ || t == "phone"@ || t == "short_text"@ || t == "text"@ {
            match val.spec_as_str() {
                Some(s) => s,
                None => "—"@,
            }
        } else {
            match val.spec_as_str() {
                Some(s) => s,
                None => json_text(val),
            }
        },
    }
}

/// A string holding `s`.
fn owned(s: &str) -> (r: String)
    ensures
        r@ == s@,
{
    string_of(&chars_of(s))
}

/// A string holding the decimal form of `n`.
fn decimal_string(n: i64) -> (r: String)
    ensures
        r@ == signed_decimal(n as int),
{
    let mut out: Vec<char> = Vec::new();
    push_signed_decimal(&mut out, n);
    string_of(&out)
}

/// A string holding the decimal form of `n`, followed by `suffix`.
fn decimal_with(n: i64, suffix: &str) -> (r: String)
    ensures
        r@ == signed_decimal(n as int) + suffix@,
{
    let mut out: Vec<char> = Vec::new();
    push_signed_decimal(&mut out, n);
    push_seq(&mut out, &chars_of(suffix));
    string_of(&out)
}

/// Shows a date field's value.
fn date_display(val: &JsonValue) -> (r: String)
    ensures
        r@ == date_text(*val),
{
    let ts: String = match val.as_str() {
        Some(t) => owned(t),
        None => match val.as_i64() {
            Some(n) => decimal_string(n),
            None => return val.to_text(),
        },
    };
    match parse_i64_str(ts.as_str()) {
        Some(ms) => match utc_date_text(ms) {
            Some(d) => d,
            None => ts,
        },
        None => ts,
    }
}

/// Shows a drop-down field's value.
fn dropdown_display(tc: &Option<JsonValue>, val: &JsonValue) -> (r: String)
    ensures
        r@ == dropdown_text(*tc, *val),
{
    match val.as_str() {
        Some(id) => match resolve_option_name(tc, id, "name") {
            Some(n) => n,
            None => owned(id),
        },
        None => match val.as_i64() {
            Some(n) => {
                let fallback = decimal_string(n);
                match options_vec(tc) {
                    Some(items) => match find_by_i64(items, "orderindex", n) {
                        Some(k) => match get_str(&items[k], "name") {
                            Some(name) => owned(name),
                            None => fallback,
                        },
                        None => fallback,
                    },
                    None => fallback,
                }
            },
            None => val.to_text(),
        },
    }
}

/// The strings among `items`, in order.
fn collect_strings(items: &Vec<JsonValue>) -> (r: Vec<String>)
    ensures
        strings_view(r@) == string_items(items@),
{
    let mut out: Vec<String> = Vec::new();
    let mut i: usize = 0;
    while i < items.len()
        invariant
            i <= items.len(),
            strings_view(out@) == string_items(items@.subrange(0, i as int)),
        decreases items.len() - i,
    {
        proof { assert(items@.subrange(0, i + 1).drop_last() =~= items@.subrange(0, i as int)); }
        let ghost before = out@;
        if let Some(t) = items[i].as_str() {
            out.push(owned(t));
            proof { assert(strings_view(out@) =~= strings_view(before).push(t@)); }
        }
        i += 1;
    }
    proof { assert(items@.subrange(0, items@.len() as int) =~= items@); }
    out
}

/// The names of the user objects among `items`, in order.
fn collect_user_names(items: &Vec<JsonValue>) -> (r: Vec<String>)
    ensures
        strings_view(r@) == user_names(items@),
{
    let mut out: Vec<String> = Vec::new();
    let mut i: usize = 0;
    while i < items.len()
        invariant
            i <= items.len(),
            strings_view(out@) == user_names(items@.subrange(0, i as int)),
        decreases items.len() - i,
    {
        proof { assert(items@.subrange(0, i + 1).drop_last() =~= items@.subrange(0, i as int)); }
        let ghost before = out@;
        let name: Option<&str> = match items[i].get("username") {
            Some(x) => x.as_str(),
            None => get_str(&items[i], "email"),
        };
        if let Some(t) = name {
            out.push(owned(t));
            proof { assert(strings_view(out@) =~= strings_view(before).push(t@)); }
        }
        i += 1;
    }
    proof { assert(items@.subrange(0, items@.len() as int) =~= items@); }
    out
}

/// The task IDs among `items`, in order.
fn collect_task_refs(items: &Vec<JsonValue>) -> (r: Vec<String>)
    ensures
        strings_view(r@) == task_refs(items@),
{
    let mut out: Vec<String> = Vec::new();
    let mut i: usize = 0;
    while i < items.len()
        invariant
            i <= items.len(),
            strings_view(out@) == task_refs(items@.subrange(0, i as int)),
        decreases items.len() - i,
    {
        proof { assert(items@.subrange(0, i + 1).drop_last() =~= items@.subrange(0, i as int)); }
        let ghost before = out@;
        let id: Option<&str> = match items[i].as_str() {
            Some(t) => Some(t),
            None => get_str(&items[i], "id"),
        };
        if let Some(t) = id {
            out.push(owned(t));
            proof { assert(strings_view(out@) =~= strings_view(before).push(t@)); }
        }
        i += 1;
    }
    proof { assert(items@.subrange(0, items@.len() as int) =~= items@); }
    out
}

/// The names of the labels `ids`, in order.
fn collect_label_names(tc: &Option<JsonValue>, ids: &Vec<String>) -> (r: Vec<String>)
    ensures
        strings_view(r@) == label_names(*tc, strings_view(ids@)),
{
    let mut out: Vec<String> = Vec::new();
    let mut i: usize = 0;
    while i < ids.len()
        invariant
            i <= ids.len(),
            strings_view(out@) == label_names(*tc, strings_view(ids@).subrange(0, i as int)),
        decreases ids.len() - i,
    {
        proof {
            assert(strings_view(ids@).subrange(0, i + 1).drop_last() =~= strings_view(ids@).subrange(0, i as int));
            assert(strings_view(ids@).subrange(0, i + 1).last() == ids@[i as int]@);
        }
        let ghost before = out@;
        let id = ids[i].as_str();
        let name = match resolve_option_name(tc, id, "label") {
            Some(n) => n,
            None => match resolve_option_name(tc, id, "name") {
                Some(n) => n,
                None => owned(id),
            },
        };
        out.push(name);
        proof { assert(strings_view(out@) =~= strings_view(before).push(label_name(*tc, id@))); }
        i += 1;
    }
    proof { assert(strings_view(ids@).subrange(0, ids@.len() as int) =~= strings_view(ids@)); }
    out
}

/// `parts` joined with ", ", or a dash when there are none.
pub(crate) fn list_display(parts: &Vec<String>) -> (r: String)
    ensures
        r@ == list_text(strings_view(parts@)),
{
    if parts.len() == 0 {
        return owned("—");
    }
    let mut out: Vec<char> = Vec::new();
    let mut i: usize = 0;
    while i < parts.len()
        invariant
            i <= parts.len(),
            out@ == joined(strings_view(parts@).subrange(0, i as int), ", "@),
        decreases parts.len() - i,
    {
        let ghost prev = strings_view(parts@).subrange(0, i as int);
        proof {
            assert(strings_view(parts@).subrange(0, i + 1).drop_last() =~= prev);
            assert(strings_view(parts@).subrange(0, i + 1).last() == parts@[i as int]@);
        }
        if i > 0 {
            push_seq(&mut out, &chars_of(", "));
        }
        push_seq(&mut out, &chars_of(parts[i].as_str()));
        proof {
            if i == 0 {
                assert(out@ =~= strings_view(parts@).subrange(0, 1)[0]);
            }
        }
        i += 1;
    }
    proof { assert(strings_view(parts@).subrange(0, parts@.len() as int) =~= strings_view(parts@)); }
    string_of(&out)
}

/// Shows an emoji field's value.
fn emoji_display(tc: &Option<JsonValue>, val: &JsonValue) -> (r: String)
    ensures
        r@ == emoji_text(*tc, *val),
{
    let count: u64 = match val.as_u64() {
        Some(c) => c,
        None => 0,
    };
    if count == 0 {
        return owned("—");
    }
    let code_point: Option<&str> = match tc {
        Some(t) => get_str(t, "code_point"),
        None => None,
    };
    let glyph: char = match code_point {
        Some(cp) => match parse_hex_str(cp, 0xFFFF_FFFFu64) {
            Some(v) => match char_from_u32(v as u32) {
                Some(c) => c,
                None => '★',
            },
            None => '★',
        },
        None => '★',
    };
    proof {
        assert(glyph == emoji_glyph(*tc));
    }
    let mut out: Vec<char> = Vec::new();
    let mut j: u64 = 0;
    while j < count
        invariant
            j <= count,
            out@ == Seq::new(j as nat, |_i: int| glyph),
        decreases count - j,
    {
        out.push(glyph);
        j += 1;
        proof { assert(out@ =~= Seq::new(j as nat, |_i: int| glyph)); }
    }
    proof { assert(out@ =~= Seq::new(count as nat, |_i: int| emoji_glyph(*tc))); }
    string_of(&out)
}

/// Shows an automatic progress field's value.
fn auto_progress_display(val: &JsonValue) -> (r: String)
    ensures
        r@ == auto_progress_text(*val),
{
    match val.as_i64() {
        Some(n) => decimal_with(n, "%"),
        None => match val.get("percent") {
            Some(x) => match x.as_i64() {
                Some(p) => decimal_with(p, "%"),
                None => val.to_text(),
            },
            None => val.to_text(),
        },
    }
}

/// Whether `s` holds the text `lit`.
fn is_type(s: &String, lit: &str) -> (r: bool)
    ensures
        r == (s@ == lit@),
{
    crate::text::str_eq(s.as_str(), lit)
}

impl CustomField {
    /// Returns a human-readable display string for this field's current value.
    ///
    /// Resolves option IDs to display names for `drop_down` and `labels` types
    /// using `type_config.options`. Falls back to the raw value string when
    /// `type_config` is absent or the option ID is not found.
    pub fn display_value(&self) -> (r: String)
        requires
            self.field_type@ == "manual_progress"@ && self.value is Some ==> self.progress is Some,
        ensures
            r@ == display_of(*self),
    {
        let val = match &self.value {
            Some(v) => v,
            None => return owned("—"),
        };
        let tc = &self.type_config;
        let t = &self.field_type;
        if is_type(t, "number") {
            format_number(val)
        } else if is_type(t, "currency") {
            let symbol: &str = match tc {
                Some(c) => match get_str(c, "currency_type") {
                    Some(sym) => sym,
                    None => "$",
                },
                None => "$",
            };
            let mut out = chars_of(symbol);
            push_seq(&mut out, &chars_of(" "));
            push_seq(&mut out, &chars_of(format_number(val).as_str()));
            string_of(&out)
        } else if is_type(t, "checkbox") {
            if val.as_bool() == Some(true) { owned("✅") } else { owned("☐") }
        } else if is_type(t, "date") {
            date_display(val)
        } else if is_type(t, "drop_down") {
            dropdown_display(tc, val)
        } else if is_type(t, "labels") {
            match val.as_array() {
                Some(items) => {
                    let ids = collect_strings(items);
                    let names = collect_label_names(tc, &ids);
                    list_display(&names)
                },
                None => val.to_text(),
            }
        } else if is_type(t, "emoji") {
            emoji_display(tc, val)
        } else if is_type(t, "users") {
            match val.as_array() {
                Some(items) => list_display(&collect_user_names(items)),
                None => val.to_text(),
            }
        } else if is_type(t, "tasks") {
            match val.as_array() {
                Some(items) => list_display(&collect_task_refs(items)),
                None => val.to_text(),
            }
        } else if is_type(t, "manual_progress") {
            match self.progress {
                Some(ProgressValue::Percent(x)) => decimal_with(x, "%"),
                Some(ProgressValue::Current(c)) => decimal_string(c),
                None => owned("—"),
            }
        } else if is_type(t, "automatic_progress") {
            auto_progress_display(val)
        } else if is_type(t, "location") {
            match get_str(val, "formatted_address") {
                Some(a) => owned(a),
                None => val.to_text(),
            }
        } else if is_type(t, "url") || is_type(t, "email") || is_type(t, "phone") || is_type(t, "short_text")
            || is_type(t, "text") {
            match val.as_str() {
                Some(v) => owned(v),
                None => owned("—"),
            }
        } else {
            match val.as_str() {
                Some(v) => owned(v),
                None => val.to_text(),
            }
        }
    }
}

} // verus!

verus! {

proof fn lemma_task_refs_prefix(items: Seq<JsonValue>, ids: Seq<Seq<char>>, n: int)
    requires
        0 <= n <= items.len(),
        items.len() == ids.len(),
        forall|k: int| 0 <= k < items.len() ==> (#[trigger] items[k]).spec_as_str() == Some(ids[k])
            || (items[k].spec_as_str() is None && str_at(items[k], "id"@) == Some(ids[k])),
    ensures
        task_refs(items.subrange(0, n)) == ids.subrange(0, n),
    decreases n,
{
    if n > 0 {
        lemma_task_refs_prefix(items, ids, n - 1);
        let p = items.subrange(0, n);
        assert(p.drop_last() =~= items.subrange(0, n - 1));
        assert(p.last() == items[n - 1]);
        assert(task_ref(items[n - 1]) == Some(ids[n - 1]));
        assert(ids.subrange(0, n) =~= ids.subrange(0, n - 1).push(ids[n - 1]));
    } else {
        assert(items.subrange(0, 0) =~= Seq::<JsonValue>::empty());
        assert(ids.subrange(0, 0) =~= Seq::<Seq<char>>::empty());
    }
}

/// A `tasks` field lists the reference of every task it holds, in order, joined
/// by ", ": an item that is a string is its own reference, and an object item
/// is referred to by its string `id` member. No such item is dropped.
pub proof fn law_task_field_shows_every_reference(f: CustomField, items: Vec<JsonValue>, ids: Seq<Seq<char>>)
    requires
        f.field_type@ == "tasks"@,
        f.value == Some(JsonValue::Array(items)),
        items@.len() == ids.len(),
        ids.len() > 0,
        forall|k: int| 0 <= k < items@.len() ==> (#[trigger] items@[k]).spec_as_str() == Some(ids[k])
            || (items@[k].spec_as_str() is None && str_at(items@[k], "id"@) == Some(ids[k])),
    ensures
        display_of(f) == joined(ids, ", "@),
{
    lemma_task_refs_prefix(items@, ids, ids.len() as int);
    assert(items@.subrange(0, items@.len() as int) =~= items@);
    assert(ids.subrange(0, ids.len() as int) =~= ids);
    reveal_strlit("tasks");
    reveal_strlit("number");
    reveal_strlit("currency");
    reveal_strlit("checkbox");
    reveal_strlit("date");
    reveal_strlit("drop_down");
    reveal_strlit("labels");
    reveal_strlit("emoji");
    reveal_strlit("users");
    let t = f.field_type@;
    assert(t != "number"@ && t != "currency"@ && t != "checkbox"@ && t != "date"@ && t != "drop_down"@
        && t != "labels"@ && t != "emoji"@ && t != "users"@) by {
        assert(t[0] == 't');
        assert("number"@[0] == 'n');
        assert("currency"@[0] == 'c');
        assert("checkbox"@[0] == 'c');
        assert("date"@[0] == 'd');
        assert("drop_down"@[0] == 'd');
        assert("labels"@[0] == 'l');
        assert("emoji"@[0] == 'e');
        assert("users"@[0] == 'u');
    }
    assert(task_refs(items@) == ids);
    assert(list_text(ids) == joined(ids, ", "@));
}

} // verus!
