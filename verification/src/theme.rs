//! Colours of the TUI: reading hex colour strings.
use vstd::prelude::*;
use crate::text::{chars_of, hex_digit_value, hex_val};

verus! {

/// `s` without its leading `#` characters.
pub open spec fn strip_hashes(s: Seq<char>) -> Seq<char>
    decreases s.len(),
{
    if s.len() > 0 && s[0] == '#' { strip_hashes(s.drop_first()) } else { s }
}

/// The byte that the two hexadecimal digits `h[i]`, `h[i + 1]` write.
pub open spec fn hex_pair(h: Seq<char>, i: int) -> u8 {
    (hex_val(h[i]) * 16 + hex_val(h[i + 1])) as u8
}

/// The colour a hex string names: after any leading `#`, exactly six
/// hexadecimal digits (either case), read as three pairs for red, green and
/// blue. Any other text names no colour.
pub open spec fn hex_rgb(s: Seq<char>) -> Option<(u8, u8, u8)> {
    let h = strip_hashes(s);
    if h.len() == 6 && forall|i: int| 0 <= i < 6 ==> hex_val(#[trigger] h[i]) >= 0 {
        Some((hex_pair(h, 0), hex_pair(h, 2), hex_pair(h, 4)))
    } else {
        None
    }
}

/// The byte written by the digit pair at `cs[i]`, `cs[i + 1]`; `None` unless both are
/// hexadecimal digits.
fn pair_at(cs: &Vec<char>, i: usize) -> (r: Option<u8>)
    requires
        i + 1 < cs.len(),
    ensures
        match r {
            Some(v) => hex_val(cs@[i as int]) >= 0 && hex_val(cs@[i + 1]) >= 0 && v == hex_pair(cs@, i as int),
            None => hex_val(cs@[i as int]) < 0 || hex_val(cs@[i + 1]) < 0,
        },
{
    match (hex_digit_value(cs[i]), hex_digit_value(cs[i + 1])) {
        (Some(hi), Some(lo)) => {
            proof { assert(hi < 16 && lo < 16); }
            Some((hi * 16 + lo) as u8)
        },
        _ => None,
    }
}

/// Parses a hex colour string into (r, g, b).
pub fn parse_hex(hex: &str) -> (r: Option<(u8, u8, u8)>)
    ensures
        r == hex_rgb(hex@),
{
    let cs = chars_of(hex);
    let mut start: usize = 0;
    proof { assert(cs@.subrange(0, cs@.len() as int) =~= cs@); }
    while start < cs.len() && cs[start] == '#'
        invariant
            start <= cs.len(),
            cs@ == hex@,
            strip_hashes(hex@) == strip_hashes(cs@.subrange(start as int, cs@.len() as int)),
        decreases cs.len() - start,
    {
        proof {
            let rest = cs@.subrange(start as int, cs@.len() as int);
            assert(rest.drop_first() =~= cs@.subrange(start + 1, cs@.len() as int));
        }
        start += 1;
    }
    let ghost h = strip_hashes(hex@);
    proof {
        let rest = cs@.subrange(start as int, cs@.len() as int);
        assert(strip_hashes(rest) == rest);
        assert(h == rest);
    }
    if cs.len() - start != 6 {
        return None;
    }
    let rest = slice_chars(&cs, start, cs.len());
    proof { assert(rest@ == h); }
    let r = pair_at(&rest, 0);
    let g = pair_at(&rest, 2);
    let b = pair_at(&rest, 4);
    match (r, g, b) {
        (Some(r), Some(g), Some(b)) => {
            proof {
                assert forall|i: int| 0 <= i < 6 implies hex_val(#[trigger] h[i]) >= 0 by {
                    if i == 0 || i == 1 {} else if i == 2 || i == 3 {} else {}
                }
            }
            Some((r, g, b))
        },
        _ => None,
    }
}

/// The characters `cs[from..to]`.
pub fn slice_chars(cs: &Vec<char>, from: usize, to: usize) -> (r: Vec<char>)
    requires
        from <= to <= cs.len(),
    ensures
        r@ == cs@.subrange(from as int, to as int),
{
    let mut out: Vec<char> = Vec::new();
    let mut i = from;
    while i < to
        invariant
            from <= i <= to <= cs.len(),
            out@ == cs@.subrange(from as int, i as int),
        decreases to - i,
    {
        out.push(cs[i]);
        i += 1;
        proof { assert(out@ =~= cs@.subrange(from as int, i as int)); }
    }
    out
}

} // verus!
