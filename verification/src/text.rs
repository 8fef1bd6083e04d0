//! Character-level string helpers with specifications.
use vstd::prelude::*;

verus! {

/// The decimal digit character for `d` (`0 <= d < 10`).
pub open spec fn digit_char(d: nat) -> char {
    if d == 0 { '0' } else if d == 1 { '1' } else if d == 2 { '2' } else if d == 3 { '3' }
    else if d == 4 { '4' } else if d == 5 { '5' } else if d == 6 { '6' } else if d == 7 { '7' }
    else if d == 8 { '8' } else { '9' }
}

/// Decimal representation of a natural number, without leading zeros.
pub open spec fn decimal(n: nat) -> Seq<char>
    decreases n,
{
    if n < 10 {
        seq![digit_char(n)]
    } else {
        decimal(n / 10) + seq![digit_char(n % 10)]
    }
}

/// Decimal representation of an integer, with a leading `-` when negative.
pub open spec fn signed_decimal(n: int) -> Seq<char> {
    if n < 0 { seq!['-'] + decimal((-n) as nat) } else { decimal(n as nat) }
}

fn digit(d: u64) -> (c: char)
    requires
        d < 10,
    ensures
        c == digit_char(d as nat),
{
    if d == 0 { '0' } else if d == 1 { '1' } else if d == 2 { '2' } else if d == 3 { '3' }
    else if d == 4 { '4' } else if d == 5 { '5' } else if d == 6 { '6' } else if d == 7 { '7' }
    else if d == 8 { '8' } else { '9' }
}

/// Appends the decimal digits of `n` to `out`.
pub fn push_decimal(out: &mut Vec<char>, n: u64)
    ensures
        final(out)@ == old(out)@ + decimal(n as nat),
    decreases n,
{
    if n < 10 {
        out.push(digit(n));
    } else {
        push_decimal(out, n / 10);
        out.push(digit(n % 10));
    }
}

/// Appends the decimal digits of a wide number to `out`.
pub fn push_decimal_wide(out: &mut Vec<char>, n: u128)
    ensures
        final(out)@ == old(out)@ + decimal(n as nat),
    decreases n,
{
    if n < 10 {
        out.push(digit(n as u64));
    } else {
        push_decimal_wide(out, n / 10);
        out.push(digit((n % 10) as u64));
    }
}

/// Appends the decimal form of a signed number to `out`.
pub fn push_signed_decimal(out: &mut Vec<char>, n: i64)
    ensures
        final(out)@ == old(out)@ + signed_decimal(n as int),
{
    if n < 0 {
        out.push('-');
        let m: u64 = if n == i64::MIN { 9223372036854775808u64 } else { (-n) as u64 };
        push_decimal(out, m);
        proof {
            assert(old(out)@ + seq!['-'] + decimal(m as nat) =~= old(out)@ + (seq!['-'] + decimal(m as nat)));
        }
    } else {
        push_decimal(out, n as u64);
    }
}

/// Appends the characters of `s` to `out`.
pub fn push_seq(out: &mut Vec<char>, s: &Vec<char>)
    ensures
        final(out)@ == old(out)@ + s@,
{
    let mut i: usize = 0;
    while i < s.len()
        invariant
            i <= s.len(),
            out@ == old(out)@ + s@.subrange(0, i as int),
        decreases s.len() - i,
    {
        out.push(s[i]);
        i += 1;
        proof {
            assert(s@.subrange(0, i as int) =~= s@.subrange(0, i - 1) + seq![s@[i - 1]]);
        }
    }
    proof {
        assert(s@.subrange(0, s.len() as int) =~= s@);
    }
}

/// The characters of a string slice.
pub(crate) fn chars_of(s: &str) -> (r: Vec<char>)
    ensures
        r@ == s@,
{
    broadcast use vstd::string::axiom_spec_iter;
    let mut out: Vec<char> = Vec::new();
    for c in it: s.chars()
        invariant
            it.seq() == s@,
            out@ == it.seq().subrange(0, it.index() as int),
    {
        out.push(c);
    }
    out
}

/// A string made of the given characters.
#[verifier::external_body]
pub(crate) fn string_of(v: &Vec<char>) -> (r: String)
    ensures
        r@ == v@,
{
    String::from_iter(v.iter())
}

/// A string holding the decimal form of `n`.
pub fn u64_to_string(n: u64) -> (r: String)
    ensures
        r@ == decimal(n as nat),
{
    let mut v: Vec<char> = Vec::new();
    push_decimal(&mut v, n);
    proof { assert(v@ =~= decimal(n as nat)); }
    string_of(&v)
}

} // verus!

verus! {

/// ASCII letters and digits.
pub open spec fn is_ascii_alnum(c: char) -> bool {
    (0x61 <= (c as u32) && (c as u32) <= 0x7a) || (0x41 <= (c as u32) && (c as u32) <= 0x5a)
        || (0x30 <= (c as u32) && (c as u32) <= 0x39)
}

/// ASCII white space as `char::is_whitespace` classifies it (tab to carriage return, space).
pub open spec fn is_ascii_ws(c: char) -> bool {
    (9 <= (c as u32) && (c as u32) <= 13) || (c as u32) == 32
}

/// What `char::is_alphanumeric` returns for `c`.
pub uninterp spec fn char_alphanumeric(c: char) -> bool;

/// What `char::is_whitespace` returns for `c`.
pub uninterp spec fn char_whitespace(c: char) -> bool;

/// What `str::to_lowercase` returns for a string with these characters.
pub uninterp spec fn lowercase(s: Seq<char>) -> Seq<char>;

/// Alphanumeric in the sense of `char::is_alphanumeric`, spelled out for ASCII.
pub open spec fn alnum(c: char) -> bool {
    if (c as u32) < 128 { is_ascii_alnum(c) } else { char_alphanumeric(c) }
}

/// White space in the sense of `char::is_whitespace`, spelled out for ASCII.
pub open spec fn white(c: char) -> bool {
    if (c as u32) < 128 { is_ascii_ws(c) } else { char_whitespace(c) }
}

/// `char::is_alphanumeric`: true for characters that are alphabetic or numeric in
/// Unicode. Of ASCII characters exactly the letters and digits qualify.
#[verifier::external_body]
pub(crate) fn is_alphanumeric(c: char) -> (r: bool)
    ensures
        (c as u32) >= 128 ==> r == char_alphanumeric(c),
        (c as u32) < 128 ==> r == is_ascii_alnum(c),
        r == alnum(c),
{
    c.is_alphanumeric()
}

/// `char::is_whitespace`: true for characters with the Unicode `White_Space`
/// property. Of ASCII characters exactly tab, line feed, vertical tab, form feed,
/// carriage return and space qualify.
#[verifier::external_body]
pub(crate) fn is_whitespace(c: char) -> (r: bool)
    ensures
        (c as u32) >= 128 ==> r == char_whitespace(c),
        (c as u32) < 128 ==> r == is_ascii_ws(c),
        r == white(c),
{
    c.is_whitespace()
}

/// ASCII lower-casing of one character.
pub open spec fn ascii_lower(c: char) -> char {
    if 0x41 <= (c as u32) && (c as u32) <= 0x5a { ((c as u32) + 32) as char } else { c }
}

/// True when every character is ASCII.
pub open spec fn all_ascii(s: Seq<char>) -> bool {
    forall|i: int| 0 <= i < s.len() ==> (#[trigger] s[i] as u32) < 128
}

/// `str::to_lowercase`: the Unicode lower-case mapping. On an ASCII string it lowers
/// exactly the letters `A` to `Z`.
#[verifier::external_body]
pub(crate) fn to_lowercase(s: &str) -> (r: String)
    ensures
        r@ == lowercase(s@),
        all_ascii(s@) ==> r@ == s@.map_values(|c: char| ascii_lower(c)),
{
    s.to_lowercase()
}

/// Lower-cases one ASCII character.
pub fn to_ascii_lower(c: char) -> (r: char)
    ensures
        r == ascii_lower(c),
{
    let u = c as u32;
    if 0x41 <= u && u <= 0x5a {
        let l: u8 = (u + 32) as u8;
        l as char
    } else {
        c
    }
}

/// Case-insensitive equality as `str::eq_ignore_ascii_case` defines it.
pub open spec fn eq_ignore_ascii_case(a: Seq<char>, b: Seq<char>) -> bool {
    a.len() == b.len() && forall|i: int| 0 <= i < a.len() ==> ascii_lower(#[trigger] a[i]) == ascii_lower(b[i])
}

/// Compares two character sequences ignoring ASCII case.
pub fn chars_eq_ignore_ascii_case(a: &Vec<char>, b: &Vec<char>) -> (r: bool)
    ensures
        r == eq_ignore_ascii_case(a@, b@),
{
    if a.len() != b.len() {
        return false;
    }
    let mut i: usize = 0;
    while i < a.len()
        invariant
            i <= a.len(),
            a.len() == b.len(),
            forall|j: int| 0 <= j < i ==> ascii_lower(#[trigger] a@[j]) == ascii_lower(b@[j]),
        decreases a.len() - i,
    {
        if to_ascii_lower(a[i]) != to_ascii_lower(b[i]) {
            return false;
        }
        i += 1;
    }
    true
}

/// Compares two strings ignoring ASCII case.
pub fn str_eq_ignore_ascii_case(a: &str, b: &str) -> (r: bool)
    ensures
        r == eq_ignore_ascii_case(a@, b@),
{
    let av = chars_eq_ignore_ascii_case(&chars_of(a), &chars_of(b));
    av
}

/// `needle` occurs in `hay` starting at `i`.
pub open spec fn occurs_at(hay: Seq<char>, needle: Seq<char>, i: int) -> bool {
    0 <= i && i + needle.len() <= hay.len() && hay.subrange(i, i + needle.len()) == needle
}

/// `needle` occurs somewhere in `hay` (the empty needle occurs everywhere).
pub open spec fn contains_seq(hay: Seq<char>, needle: Seq<char>) -> bool {
    exists|i: int| #[trigger] occurs_at(hay, needle, i)
}

/// Checks whether `needle` occurs at position `i` of `hay`.
pub fn matches_at(hay: &Vec<char>, needle: &Vec<char>, i: usize) -> (r: bool)
    ensures
        r == occurs_at(hay@, needle@, i as int),
{
    if i > hay.len() || needle.len() > hay.len() - i {
        return false;
    }
    let mut j: usize = 0;
    while j < needle.len()
        invariant
            j <= needle.len(),
            i + needle.len() <= hay.len(),
            forall|k: int| 0 <= k < j ==> hay@[i + k] == needle@[k],
        decreases needle.len() - j,
    {
        if hay[i + j] != needle[j] {
            proof {
                assert(hay@.subrange(i as int, i + needle.len())[j as int] != needle@[j as int]);
            }
            return false;
        }
        j += 1;
    }
    proof {
        assert(hay@.subrange(i as int, i + needle.len()) =~= needle@);
    }
    true
}

/// Substring search on character sequences.
pub fn contains_chars(hay: &Vec<char>, needle: &Vec<char>) -> (r: bool)
    ensures
        r == contains_seq(hay@, needle@),
{
    if needle.len() > hay.len() {
        proof {
            assert forall|i: int| !occurs_at(hay@, needle@, i) by {}
        }
        return false;
    }
    let last = hay.len() - needle.len();
    let mut i: usize = 0;
    loop
        invariant
            needle.len() <= hay.len(),
            last == hay.len() - needle.len(),
            i <= last,
            forall|k: int| 0 <= k < i ==> !occurs_at(hay@, needle@, k),
        ensures
            forall|k: int| 0 <= k <= last ==> !occurs_at(hay@, needle@, k),
        decreases last - i,
    {
        if matches_at(hay, needle, i) {
            return true;
        }
        if i == last {
            break;
        }
        i += 1;
    }
    proof {
        assert forall|k: int| !occurs_at(hay@, needle@, k) by {
            if 0 <= k <= last {
            }
        }
    }
    false
}

/// Substring search on string slices, as `str::contains` with a `&str` pattern.
pub fn str_contains(hay: &str, needle: &str) -> (r: bool)
    ensures
        r == contains_seq(hay@, needle@),
{
    contains_chars(&chars_of(hay), &chars_of(needle))
}

/// Number of bytes that `c` takes in UTF-8.
pub open spec fn utf8_len(c: char) -> nat {
    if (c as u32) < 0x80 { 1 } else if (c as u32) < 0x800 { 2 } else if (c as u32) < 0x10000 { 3 } else { 4 }
}

/// Number of bytes that a character sequence takes in UTF-8.
pub open spec fn utf8_bytes(s: Seq<char>) -> nat
    decreases s.len(),
{
    if s.len() == 0 { 0 } else { utf8_bytes(s.drop_last()) + utf8_len(s.last()) }
}

/// The bytes of `s` up to character `n + 1` are those up to `n` and the
/// bytes of character `n`.
pub proof fn lemma_utf8_prefix_step(s: Seq<char>, n: int)
    requires
        0 <= n < s.len(),
    ensures
        utf8_bytes(s.subrange(0, n + 1)) == utf8_bytes(s.subrange(0, n)) + utf8_len(s[n]),
{
    assert(s.subrange(0, n + 1).drop_last() =~= s.subrange(0, n));
}

/// Longer prefixes take more bytes.
pub proof fn lemma_utf8_prefix_grows(s: Seq<char>, a: int, b: int)
    requires
        0 <= a <= b <= s.len(),
    ensures
        utf8_bytes(s.subrange(0, a)) <= utf8_bytes(s.subrange(0, b)),
        a < b ==> utf8_bytes(s.subrange(0, a)) < utf8_bytes(s.subrange(0, b)),
    decreases b - a,
{
    if a < b {
        lemma_utf8_prefix_step(s, b - 1);
        lemma_utf8_prefix_grows(s, a, b - 1);
    }
}

/// A sequence has at most as many characters as UTF-8 bytes.
pub proof fn lemma_chars_le_bytes(s: Seq<char>)
    ensures
        s.len() <= utf8_bytes(s),
    decreases s.len(),
{
    if s.len() > 0 {
        lemma_chars_le_bytes(s.drop_last());
    }
}

/// The number of bytes `s` takes in UTF-8.
pub fn utf8_size(s: &Vec<char>) -> (r: u128)
    requires
        s.len() <= usize::MAX,
    ensures
        r == utf8_bytes(s@),
{
    let mut total: u128 = 0;
    let mut i: usize = 0;
    while i < s.len()
        invariant
            i <= s.len(),
            total == utf8_bytes(s@.subrange(0, i as int)),
            total <= 4 * i,
        decreases s.len() - i,
    {
        proof { lemma_utf8_prefix_step(s@, i as int); }
        total = total + char_utf8_len(s[i]) as u128;
        i += 1;
    }
    proof { assert(s@.subrange(0, s@.len() as int) =~= s@); }
    total
}

/// The view of an optional string slice.
pub open spec fn opt_str(o: Option<&str>) -> Option<Seq<char>> {
    match o {
        Some(t) => Some(t@),
        None => None,
    }
}

/// Byte length of one character in UTF-8.
pub fn char_utf8_len(c: char) -> (r: usize)
    ensures
        r == utf8_len(c),
{
    let u = c as u32;
    if u < 0x80 { 1 } else if u < 0x800 { 2 } else if u < 0x10000 { 3 } else { 4 }
}

} // verus!

verus! {

/// Equality of character sequences.
pub fn chars_eq(a: &Vec<char>, b: &Vec<char>) -> (r: bool)
    ensures
        r == (a@ == b@),
{
    if a.len() != b.len() {
        return false;
    }
    let mut i: usize = 0;
    while i < a.len()
        invariant
            i <= a.len(),
            a.len() == b.len(),
            forall|j: int| 0 <= j < i ==> a@[j] == b@[j],
        decreases a.len() - i,
    {
        if a[i] != b[i] {
            return false;
        }
        i += 1;
    }
    proof { assert(a@ =~= b@); }
    true
}

/// Equality of string slices.
pub fn str_eq(a: &str, b: &str) -> (r: bool)
    ensures
        r == (a@ == b@),
{
    chars_eq(&chars_of(a), &chars_of(b))
}

} // verus!

verus! {

/// An ASCII decimal digit.
pub open spec fn is_digit(c: char) -> bool {
    0x30 <= (c as u32) && (c as u32) <= 0x39
}

/// The value of a run of decimal digits.
pub open spec fn digits_value(s: Seq<char>) -> int
    decreases s.len(),
{
    if s.len() == 0 { 0 } else { digits_value(s.drop_last()) * 10 + ((s.last() as u32) - 0x30) }
}

/// A non-empty run of decimal digits.
pub open spec fn all_digits(s: Seq<char>) -> bool {
    s.len() > 0 && forall|i: int| 0 <= i < s.len() ==> is_digit(#[trigger] s[i])
}

/// The integer that `str::parse` reads from `s`: an optional `+` or `-` and at
/// least one decimal digit, nothing else.
pub open spec fn parse_int(s: Seq<char>) -> Option<int> {
    if s.len() > 0 && s[0] == '+' && all_digits(s.drop_first()) {
        Some(digits_value(s.drop_first()))
    } else if s.len() > 0 && s[0] == '-' && all_digits(s.drop_first()) {
        Some(-digits_value(s.drop_first()))
    } else if all_digits(s) {
        Some(digits_value(s))
    } else {
        None
    }
}

/// What `s.parse::<i64>()` gives, as an option.
pub open spec fn parse_i64(s: Seq<char>) -> Option<i64> {
    match parse_int(s) {
        Some(v) => if i64::MIN <= v <= i64::MAX { Some(v as i64) } else { None },
        None => None,
    }
}

proof fn lemma_digits_value_nonneg(s: Seq<char>)
    requires
        forall|i: int| 0 <= i < s.len() ==> is_digit(#[trigger] s[i]),
    ensures
        digits_value(s) >= 0,
    decreases s.len(),
{
    if s.len() > 0 {
        lemma_digits_value_nonneg(s.drop_last());
    }
}

proof fn lemma_digits_value_mono(s: Seq<char>, k: int)
    requires
        0 <= k <= s.len(),
        forall|i: int| 0 <= i < s.len() ==> is_digit(#[trigger] s[i]),
    ensures
        digits_value(s.subrange(0, k)) <= digits_value(s),
    decreases s.len(),
{
    lemma_digits_value_nonneg(s);
    if k < s.len() {
        assert(s.drop_last().subrange(0, k) =~= s.subrange(0, k));
        lemma_digits_value_mono(s.drop_last(), k);
        lemma_digits_value_nonneg(s.drop_last());
    } else {
        assert(s.subrange(0, k) =~= s);
    }
}

/// Reads the value of the digit run `s[from..]`, saturating above `limit`.
fn read_digits(s: &Vec<char>, from: usize, limit: u128) -> (r: Option<u128>)
    requires
        from <= s.len(),
        limit <= u64::MAX as u128,
    ensures
        match r {
            None => !all_digits(s@.subrange(from as int, s@.len() as int)),
            Some(v) => all_digits(s@.subrange(from as int, s@.len() as int))
                && (v <= limit ==> v == digits_value(s@.subrange(from as int, s@.len() as int)))
                && (v > limit ==> digits_value(s@.subrange(from as int, s@.len() as int)) > limit),
        },
{
    if from == s.len() {
        return None;
    }
    let mut v: u128 = 0;
    let mut k = from;
    while k < s.len()
        invariant
            from <= k <= s.len(),
            limit <= u64::MAX as u128,
            forall|i: int| from <= i < k ==> is_digit(#[trigger] s@[i]),
            v <= limit + 1,
            v <= limit ==> v == digits_value(s@.subrange(from as int, k as int)),
            v > limit ==> digits_value(s@.subrange(from as int, k as int)) > limit,
        decreases s.len() - k,
    {
        let c = s[k];
        let u = c as u32;
        if u < 0x30 || u > 0x39 {
            proof {
                let t = s@.subrange(from as int, s@.len() as int);
                assert(t[k - from] == c);
            }
            return None;
        }
        proof {
            let t = s@.subrange(from as int, k + 1);
            assert(t.drop_last() =~= s@.subrange(from as int, k as int));
            assert(t.last() == c);
            assert forall|i: int| 0 <= i < s@.subrange(from as int, k as int).len()
                implies is_digit(#[trigger] s@.subrange(from as int, k as int)[i]) by {
                assert(s@.subrange(from as int, k as int)[i] == s@[from + i]);
            }
            lemma_digits_value_nonneg(s@.subrange(from as int, k as int));
        }
        if v <= limit {
            let d = (u - 0x30) as u128;
            let nv = v * 10 + d;
            if nv > limit {
                v = limit + 1;
            } else {
                v = nv;
            }
        }
        k += 1;
    }
    proof {
        let t = s@.subrange(from as int, s@.len() as int);
        assert forall|i: int| 0 <= i < t.len() implies is_digit(#[trigger] t[i]) by {
            assert(t[i] == s@[from + i]);
        }
    }
    Some(v)
}

/// Parses a signed decimal integer as `str::parse::<i64>` does.
pub fn parse_i64_chars(s: &Vec<char>) -> (r: Option<i64>)
    ensures
        r == parse_i64(s@),
{
    let limit: u128 = 9223372036854775808;
    if s.len() > 0 && (s[0] == '+' || s[0] == '-') {
        let neg = s[0] == '-';
        proof { assert(s@.drop_first() =~= s@.subrange(1, s@.len() as int)); }
        match read_digits(s, 1, limit) {
            None => {
                proof {
                    assert(!all_digits(s@)) by {
                        if all_digits(s@) { assert(is_digit(s@[0])); }
                    }
                }
                None
            }
            Some(v) => {
                if neg {
                    if v <= limit {
                        if v == limit { Some(i64::MIN) } else { Some(-(v as i64)) }
                    } else {
                        None
                    }
                } else {
                    if v < limit { Some(v as i64) } else { None }
                }
            }
        }
    } else {
        proof { assert(s@.subrange(0, s@.len() as int) =~= s@); }
        match read_digits(s, 0, limit) {
            None => None,
            Some(v) => if v < limit { Some(v as i64) } else { None },
        }
    }
}

/// Parses a signed decimal integer from a string slice.
pub fn parse_i64_str(s: &str) -> (r: Option<i64>)
    ensures
        r == parse_i64(s@),
{
    parse_i64_chars(&chars_of(s))
}

/// What `s.parse::<u64>()` gives, as an option: an optional `+` and at least
/// one decimal digit, nothing else, with a value that fits.
pub open spec fn parse_u64(s: Seq<char>) -> Option<u64> {
    let d = if s.len() > 0 && s[0] == '+' { s.drop_first() } else { s };
    if all_digits(d) && digits_value(d) <= u64::MAX { Some(digits_value(d) as u64) } else { None }
}

/// Parses an unsigned decimal integer from a string slice, as `str::parse::<u64>`.
pub fn parse_u64_str(text: &str) -> (r: Option<u64>)
    ensures
        r == parse_u64(text@),
{
    let s = chars_of(text);
    let from: usize = if s.len() > 0 && s[0] == '+' { 1 } else { 0 };
    proof {
        if from == 1 {
            assert(s@.drop_first() =~= s@.subrange(1, s@.len() as int));
        } else {
            assert(s@.subrange(0, s@.len() as int) =~= s@);
        }
    }
    match read_digits(&s, from, 18446744073709551615u128) {
        None => None,
        Some(v) => if v <= 18446744073709551615u128 { Some(v as u64) } else { None },
    }
}

/// The value of a hexadecimal digit (either case), or -1 for another character.
pub open spec fn hex_val(c: char) -> int {
    let u = c as u32;
    if 0x30 <= u && u <= 0x39 {
        u - 0x30
    } else if 0x61 <= u && u <= 0x66 {
        u - 0x61 + 10
    } else if 0x41 <= u && u <= 0x46 {
        u - 0x41 + 10
    } else {
        -1
    }
}

/// A non-empty run of hexadecimal digits.
pub open spec fn all_hex(s: Seq<char>) -> bool {
    s.len() > 0 && forall|i: int| 0 <= i < s.len() ==> hex_val(#[trigger] s[i]) >= 0
}

/// The value of a run of hexadecimal digits.
pub open spec fn hex_value(s: Seq<char>) -> int
    decreases s.len(),
{
    if s.len() == 0 { 0 } else { hex_value(s.drop_last()) * 16 + hex_val(s.last()) }
}

/// What `from_str_radix(s, 16)` gives for an unsigned type whose largest value
/// is `max`: an optional `+` (not alone) and hexadecimal digits whose value
/// does not exceed `max`.
pub open spec fn hex_number(s: Seq<char>, max: int) -> Option<int> {
    let d = if s.len() > 1 && s[0] == '+' { s.drop_first() } else { s };
    if all_hex(d) && hex_value(d) <= max { Some(hex_value(d)) } else { None }
}

proof fn lemma_hex_prefix_grows(s: Seq<char>, i: int)
    requires
        0 <= i < s.len(),
        forall|k: int| 0 <= k < s.len() ==> hex_val(#[trigger] s[k]) >= 0,
    ensures
        hex_value(s.subrange(0, i)) <= hex_value(s.subrange(0, i + 1)),
        hex_value(s.subrange(0, i)) >= 0,
    decreases i,
{
    assert(s.subrange(0, i + 1).drop_last() =~= s.subrange(0, i));
    if i > 0 {
        lemma_hex_prefix_grows(s, i - 1);
    } else {
        assert(s.subrange(0, 0).len() == 0);
    }
}

proof fn lemma_hex_prefix_bound(s: Seq<char>, i: int)
    requires
        0 <= i <= s.len(),
        forall|k: int| 0 <= k < s.len() ==> hex_val(#[trigger] s[k]) >= 0,
    ensures
        hex_value(s.subrange(0, i)) <= hex_value(s),
    decreases s.len() - i,
{
    if i < s.len() {
        lemma_hex_prefix_grows(s, i);
        lemma_hex_prefix_bound(s, i + 1);
    } else {
        assert(s.subrange(0, i) =~= s);
    }
}

pub(crate) fn hex_digit_value(c: char) -> (r: Option<u64>)
    ensures
        match r {
            Some(v) => hex_val(c) >= 0 && v == hex_val(c),
            None => hex_val(c) < 0,
        },
{
    let u = c as u32;
    if 0x30 <= u && u <= 0x39 {
        Some((u - 0x30) as u64)
    } else if 0x61 <= u && u <= 0x66 {
        Some((u - 0x61 + 10) as u64)
    } else if 0x41 <= u && u <= 0x46 {
        Some((u - 0x41 + 10) as u64)
    } else {
        None
    }
}

/// Parses `s` as `from_str_radix(s, 16)` does for an unsigned type whose
/// largest value is `max`.
pub fn parse_hex_str(s: &str, max: u64) -> (r: Option<u64>)
    ensures
        match r {
            Some(v) => hex_number(s@, max as int) == Some(v as int),
            None => hex_number(s@, max as int) is None,
        },
{
    let all = chars_of(s);
    let start: usize = if all.len() > 1 && all[0] == '+' { 1 } else { 0 };
    let ghost d = if s@.len() > 1 && s@[0] == '+' { s@.drop_first() } else { s@ };
    proof { assert(d =~= all@.subrange(start as int, all@.len() as int)); }
    if start >= all.len() {
        return None;
    }
    let mut acc: u64 = 0;
    let mut over = false;
    let mut i: usize = start;
    while i < all.len()
        invariant
            start <= i <= all.len(),
            d == all@.subrange(start as int, all@.len() as int),
            d == (if s@.len() > 1 && s@[0] == '+' { s@.drop_first() } else { s@ }),
            forall|k: int| 0 <= k < i - start ==> hex_val(#[trigger] d[k]) >= 0,
            !over ==> acc == hex_value(d.subrange(0, i - start)) && acc <= max,
            over ==> hex_value(d.subrange(0, i - start)) > max,
        decreases all.len() - i,
    {
        let v = match hex_digit_value(all[i]) {
            Some(v) => v,
            None => {
                proof {
                    assert(d[i - start] == all@[i as int]);
                    assert(hex_val(d[i - start]) < 0);
                    assert(!all_hex(d));
                }
                return None;
            },
        };
        proof {
            assert(d[i - start] == all@[i as int]);
            assert(d.subrange(0, i - start + 1).drop_last() =~= d.subrange(0, i - start));
            assert(forall|k: int| 0 <= k < i - start + 1 ==> hex_val(#[trigger] d.subrange(0, i - start + 1)[k]) >= 0);
            lemma_hex_prefix_grows(d.subrange(0, i - start + 1), i - start);
            assert(d.subrange(0, i - start + 1).subrange(0, i - start) =~= d.subrange(0, i - start));
            assert(d.subrange(0, i - start + 1).subrange(0, i - start + 1) =~= d.subrange(0, i - start + 1));
        }
        if !over {
            if v > max || acc > (max - v) / 16 {
                proof {
                    if v <= max {
                        assert(acc * 16 + v > max) by (nonlinear_arith)
                            requires acc > (max - v) / 16, v <= max;
                    }
                }
                over = true;
            } else {
                proof {
                    assert(acc * 16 + v <= max) by (nonlinear_arith)
                        requires acc <= (max - v) / 16, v <= max;
                }
                acc = acc * 16 + v;
            }
        }
        i += 1;
    }
    proof {
        assert(d.subrange(0, i - start) =~= d);
        if over {
            assert(all_hex(d));
        }
    }
    if over { None } else { Some(acc) }
}

/// The lines of `s` from `i` on, the current one starting at `start`, as
/// `str::lines` splits them: at each `\n`, dropping a `\r` just before it,
/// with no final empty line.
pub open spec fn lines_from(s: Seq<char>, i: int, start: int) -> Seq<Seq<char>>
    decreases s.len() - i,
{
    if i < 0 || i >= s.len() {
        if 0 <= start < s.len() { seq![s.subrange(start, s.len() as int)] } else { Seq::empty() }
    } else if s[i] == '\n' {
        let piece = s.subrange(start, i);
        let line = if piece.len() > 0 && piece.last() == '\r' { piece.drop_last() } else { piece };
        seq![line] + lines_from(s, i + 1, i + 1)
    } else {
        lines_from(s, i + 1, start)
    }
}

/// The lines of a text, as `str::lines` gives them.
pub fn split_lines(s: &str) -> (r: Vec<String>)
    ensures
        r@.map_values(|l: String| l@) == lines_from(s@, 0, 0),
{
    let cs = chars_of(s);
    let ghost t = s@;
    let mut out: Vec<String> = Vec::new();
    let mut i: usize = 0;
    let mut start: usize = 0;
    while i < cs.len()
        invariant
            cs@ == t,
            start <= i <= cs.len(),
            out@.map_values(|l: String| l@) + lines_from(t, i as int, start as int) == lines_from(t, 0, 0),
        decreases cs.len() - i,
    {
        if cs[i] == '\n' {
            let mut end = i;
            if end > start && cs[end - 1] == '\r' {
                end = end - 1;
            }
            let piece = slice_of(&cs, start, end);
            let ghost before = out@;
            let ghost whole = t.subrange(start as int, i as int);
            let ghost line = if whole.len() > 0 && whole.last() == '\r' { whole.drop_last() } else { whole };
            proof { assert(piece@ =~= line); }
            out.push(string_of(&piece));
            proof {
                let rest = lines_from(t, i + 1, i + 1);
                assert(lines_from(t, i as int, start as int) == seq![line] + rest);
                assert(out@.map_values(|l: String| l@) =~= before.map_values(|l: String| l@).push(line));
                assert(before.map_values(|l: String| l@).push(line) + rest
                    =~= before.map_values(|l: String| l@) + (seq![line] + rest));
            }
            start = i + 1;
        }
        i += 1;
    }
    if start < cs.len() {
        let piece = slice_of(&cs, start, cs.len());
        let ghost before = out@;
        let ghost line = t.subrange(start as int, t.len() as int);
        proof { assert(piece@ =~= line); }
        out.push(string_of(&piece));
        proof {
            assert(lines_from(t, i as int, start as int) == seq![line]);
            assert(out@.map_values(|l: String| l@) =~= before.map_values(|l: String| l@) + seq![line]);
        }
    } else {
        proof {
            assert(lines_from(t, i as int, start as int) =~= Seq::<Seq<char>>::empty());
            assert(out@.map_values(|l: String| l@) + Seq::<Seq<char>>::empty() =~= out@.map_values(|l: String| l@));
        }
    }
    out
}

/// The characters of `cs` from `from` up to `to`.
fn slice_of(cs: &Vec<char>, from: usize, to: usize) -> (r: Vec<char>)
    requires
        from <= to <= cs.len(),
    ensures
        r@ == cs@.subrange(from as int, to as int),
{
    let mut out: Vec<char> = Vec::new();
    let mut k = from;
    while k < to
        invariant
            from <= k <= to <= cs.len(),
            out@ == cs@.subrange(from as int, k as int),
        decreases to - k,
    {
        out.push(cs[k]);
        k += 1;
        proof { assert(out@ =~= cs@.subrange(from as int, k as int)); }
    }
    out
}

} // verus!
