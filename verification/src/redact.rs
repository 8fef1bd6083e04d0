//! Redaction of API tokens and e-mail addresses in exported log lines.
use vstd::prelude::*;
use crate::text::{alnum, occurs_at, is_alphanumeric, utf8_len, char_utf8_len, chars_of, string_of};

verus! {

/// A character that may continue an API token after its `pk_` prefix.
pub open spec fn is_token_char(c: char) -> bool {
    alnum(c) || c == '_'
}

/// The prefix of personal API tokens.
pub open spec fn pk_prefix() -> Seq<char> {
    seq!['p', 'k', '_']
}

/// The text that replaces a redacted token.
pub open spec fn redacted_marker() -> Seq<char> {
    seq!['p', 'k', '_', '[', 'R', 'E', 'D', 'A', 'C', 'T', 'E', 'D', ']']
}

/// Position of the first `pk_` at or after `i`, or `-1` when there is none.
pub open spec fn next_pk(s: Seq<char>, i: int) -> int
    decreases s.len() - i,
{
    if i < 0 || i + 3 > s.len() {
        -1
    } else if occurs_at(s, pk_prefix(), i) {
        i
    } else {
        next_pk(s, i + 1)
    }
}

/// End of the run of token characters that starts at `p`.
pub open spec fn token_end(s: Seq<char>, p: int) -> int
    decreases s.len() - p,
{
    if p < 0 || p >= s.len() {
        s.len() as int
    } else if !is_token_char(s[p]) {
        p
    } else {
        token_end(s, p + 1)
    }
}

pub proof fn lemma_next_pk(s: Seq<char>, i: int)
    requires
        0 <= i,
    ensures
        next_pk(s, i) == -1 || (i <= next_pk(s, i) && occurs_at(s, pk_prefix(), next_pk(s, i))),
        forall|k: int| i <= k && (next_pk(s, i) == -1 || k < next_pk(s, i)) ==> !#[trigger] occurs_at(s, pk_prefix(), k),
    decreases s.len() - i,
{
    if i < 0 || i + 3 > s.len() {
    } else if occurs_at(s, pk_prefix(), i) {
    } else {
        lemma_next_pk(s, i + 1);
    }
}

pub proof fn lemma_token_end(s: Seq<char>, p: int)
    requires
        0 <= p,
    ensures
        p <= token_end(s, p) || (p > s.len() && token_end(s, p) == s.len()),
        token_end(s, p) <= s.len() || token_end(s, p) == p,
        forall|k: int| p <= k < token_end(s, p) ==> is_token_char(#[trigger] s[k]),
    decreases s.len() - p,
{
    if p >= s.len() {
    } else if !is_token_char(s[p]) {
    } else {
        lemma_token_end(s, p + 1);
    }
}

/// The token pass of the redaction, applied to `s` from position `i` on.
pub open spec fn redact_tokens_from(s: Seq<char>, i: int) -> Seq<char>
    decreases s.len() - i,
{
    if i < 0 || i > s.len() {
        seq![]
    } else {
        let p = next_pk(s, i);
        if p < 0 {
            s.subrange(i, s.len() as int)
        } else {
            let e = token_end(s, p);
            proof {
                lemma_next_pk(s, i);
                lemma_token_end(s, p);
            }
            if e - p > 3 {
                s.subrange(i, p) + redacted_marker() + redact_tokens_from(s, e)
            } else {
                s.subrange(i, p + 3) + redact_tokens_from(s, p + 3)
            }
        }
    }
}

fn find_pk(s: &Vec<char>, i: usize) -> (r: Option<usize>)
    requires
        i <= s.len(),
    ensures
        match r {
            Some(p) => p as int == next_pk(s@, i as int),
            None => next_pk(s@, i as int) == -1,
        },
{
    let mut j = i;
    while j < s.len() && s.len() - j >= 3
        invariant
            i <= j <= s.len(),
            next_pk(s@, j as int) == next_pk(s@, i as int),
        decreases s.len() - j,
    {
        if s[j] == 'p' && s[j + 1] == 'k' && s[j + 2] == '_' {
            proof {
                assert(s@.subrange(j as int, j + 3) =~= pk_prefix());
            }
            return Some(j);
        }
        proof {
            assert(!occurs_at(s@, pk_prefix(), j as int)) by {
                if occurs_at(s@, pk_prefix(), j as int) {
                    assert(s@.subrange(j as int, j + 3)[0] == 'p');
                    assert(s@.subrange(j as int, j + 3)[1] == 'k');
                    assert(s@.subrange(j as int, j + 3)[2] == '_');
                }
            }
        }
        j += 1;
    }
    None
}

fn find_token_end(s: &Vec<char>, p: usize) -> (r: usize)
    requires
        p <= s.len(),
    ensures
        r as int == token_end(s@, p as int),
        p <= r <= s.len(),
{
    let mut j = p;
    while j < s.len() && (is_alphanumeric(s[j]) || s[j] == '_')
        invariant
            p <= j <= s.len(),
            token_end(s@, j as int) == token_end(s@, p as int),
        decreases s.len() - j,
    {
        j += 1;
    }
    j
}

fn push_marker(out: &mut Vec<char>)
    ensures
        final(out)@ == old(out)@ + redacted_marker(),
{
    out.push('p'); out.push('k'); out.push('_'); out.push('[');
    out.push('R'); out.push('E'); out.push('D'); out.push('A'); out.push('C');
    out.push('T'); out.push('E'); out.push('D'); out.push(']');
    proof { assert(out@ =~= old(out)@ + redacted_marker()); }
}

fn push_range(out: &mut Vec<char>, s: &Vec<char>, from: usize, to: usize)
    requires
        from <= to <= s.len(),
    ensures
        final(out)@ == old(out)@ + s@.subrange(from as int, to as int),
{
    let mut k = from;
    while k < to
        invariant
            from <= k <= to,
            to <= s.len(),
            out@ == old(out)@ + s@.subrange(from as int, k as int),
        decreases to - k,
    {
        out.push(s[k]);
        k += 1;
        proof {
            assert(s@.subrange(from as int, k as int) =~= s@.subrange(from as int, k - 1) + seq![s@[k - 1]]);
        }
    }
}

/// Replaces every `pk_` token that has at least one token character after the
/// prefix with `pk_[REDACTED]`.
pub fn redact_tokens(s: &Vec<char>) -> (r: Vec<char>)
    ensures
        r@ == redact_tokens_from(s@, 0),
{
    let mut out: Vec<char> = Vec::new();
    let mut i: usize = 0;
    loop
        invariant
            i <= s.len(),
            out@ + redact_tokens_from(s@, i as int) == redact_tokens_from(s@, 0),
        decreases s.len() - i,
    {
        match find_pk(s, i) {
            None => {
                push_range(&mut out, s, i, s.len());
                proof {
                    assert(out@ =~= redact_tokens_from(s@, 0));
                }
                return out;
            }
            Some(p) => {
                proof { lemma_next_pk(s@, i as int); }
                let e = find_token_end(s, p);
                let ghost prev = out@;
                if e - p > 3 {
                    push_range(&mut out, s, i, p);
                    push_marker(&mut out);
                    proof {
                        assert(prev + redact_tokens_from(s@, i as int)
                            =~= out@ + redact_tokens_from(s@, e as int));
                    }
                    i = e;
                } else {
                    proof {
                        assert(occurs_at(s@, pk_prefix(), p as int));
                    }
                    push_range(&mut out, s, i, p + 3);
                    proof {
                        assert(prev + redact_tokens_from(s@, i as int)
                            =~= out@ + redact_tokens_from(s@, p + 3));
                    }
                    i = p + 3;
                }
            }
        }
    }
}

} // verus!

verus! {

/// A character that may appear in the local part of an e-mail address.
pub open spec fn is_local_char(c: char) -> bool {
    alnum(c) || c == '.' || c == '_' || c == '-' || c == '+'
}

/// A character that may appear in the domain of an e-mail address.
pub open spec fn is_domain_char(c: char) -> bool {
    alnum(c) || c == '.' || c == '-'
}

/// Index of the last character before `k` in `r` that cannot be part of a local
/// part, or `-1`.
pub open spec fn last_non_local(r: Seq<char>, k: int) -> int
    decreases k,
{
    if k <= 0 {
        -1
    } else if !is_local_char(r[k - 1]) {
        k - 1
    } else {
        last_non_local(r, k - 1)
    }
}

/// First index at or after `j` that cannot be part of a domain, or the length.
pub open spec fn domain_end(s: Seq<char>, j: int) -> int
    decreases s.len() - j,
{
    if j < 0 || j >= s.len() {
        s.len() as int
    } else if !is_domain_char(s[j]) {
        j
    } else {
        domain_end(s, j + 1)
    }
}

/// The mask that replaces all but the first character of a local part.
pub open spec fn mask() -> Seq<char> {
    seq!['*', '*', '*', '@']
}

/// The e-mail masking pass over `input` from character `k` on, with `acc` the
/// output so far. `None` where the scan would cut the output inside a
/// multi-byte character: the byte position after the last non-local character
/// is taken to be one past its start.
pub open spec fn mask_emails_from(input: Seq<char>, k: int, acc: Seq<char>) -> Option<Seq<char>>
    decreases input.len() - k,
{
    if k < 0 || k >= input.len() {
        Some(acc)
    } else {
        let c = input[k];
        if c == '@' && k > 0 {
            let l = last_non_local(acc, acc.len() as int);
            if l >= 0 && utf8_len(acc[l]) != 1 {
                None
            } else {
                let ls = l + 1;
                if ls < acc.len() {
                    let de = domain_end(input, k + 1);
                    proof { lemma_domain_end(input, k + 1); }
                    let domain = input.subrange(k + 1, de);
                    if domain.contains('.') {
                        mask_emails_from(
                            input,
                            de,
                            acc.subrange(0, ls) + seq![acc[ls]] + mask() + domain,
                        )
                    } else {
                        mask_emails_from(input, k + 1, acc.push(c))
                    }
                } else {
                    mask_emails_from(input, k + 1, acc.push(c))
                }
            }
        } else {
            mask_emails_from(input, k + 1, acc.push(c))
        }
    }
}

pub proof fn lemma_domain_end(s: Seq<char>, j: int)
    requires
        0 <= j <= s.len(),
    ensures
        j <= domain_end(s, j) <= s.len(),
        forall|k: int| j <= k < domain_end(s, j) ==> is_domain_char(#[trigger] s[k]),
    decreases s.len() - j,
{
    if j >= s.len() {
    } else if !is_domain_char(s[j]) {
    } else {
        lemma_domain_end(s, j + 1);
    }
}

pub proof fn lemma_last_non_local(r: Seq<char>, k: int)
    requires
        0 <= k <= r.len(),
    ensures
        -1 <= last_non_local(r, k) < k,
        last_non_local(r, k) >= 0 ==> !is_local_char(r[last_non_local(r, k)]),
        forall|j: int| last_non_local(r, k) < j < k ==> is_local_char(#[trigger] r[j]),
    decreases k,
{
    if k <= 0 {
    } else if !is_local_char(r[k - 1]) {
    } else {
        lemma_last_non_local(r, k - 1);
    }
}

/// The whole e-mail masking pass; `None` where it cannot be carried out.
pub open spec fn mask_emails(input: Seq<char>) -> Option<Seq<char>> {
    mask_emails_from(input, 0, seq![])
}

fn find_last_non_local(r: &Vec<char>) -> (res: Option<usize>)
    ensures
        match res {
            Some(l) => l as int == last_non_local(r@, r@.len() as int),
            None => last_non_local(r@, r@.len() as int) == -1,
        },
{
    let mut k = r.len();
    while k > 0
        invariant
            k <= r.len(),
            last_non_local(r@, k as int) == last_non_local(r@, r@.len() as int),
        decreases k,
    {
        let c = r[k - 1];
        if !(is_alphanumeric(c) || c == '.' || c == '_' || c == '-' || c == '+') {
            return Some(k - 1);
        }
        k -= 1;
    }
    None
}

fn find_domain_end(s: &Vec<char>, j: usize) -> (r: usize)
    requires
        j <= s.len(),
    ensures
        r as int == domain_end(s@, j as int),
{
    let mut k = j;
    while k < s.len() && (is_alphanumeric(s[k]) || s[k] == '.' || s[k] == '-')
        invariant
            j <= k <= s.len(),
            domain_end(s@, k as int) == domain_end(s@, j as int),
        decreases s.len() - k,
    {
        k += 1;
    }
    k
}

fn has_dot(s: &Vec<char>, from: usize, to: usize) -> (r: bool)
    requires
        from <= to <= s.len(),
    ensures
        r == s@.subrange(from as int, to as int).contains('.'),
{
    let mut k = from;
    while k < to
        invariant
            from <= k <= to <= s.len(),
            forall|j: int| from <= j < k ==> s@[j] != '.',
        decreases to - k,
    {
        if s[k] == '.' {
            proof { assert(s@.subrange(from as int, to as int)[k - from] == '.'); }
            return true;
        }
        k += 1;
    }
    proof {
        assert forall|j: int| 0 <= j < to - from implies s@.subrange(from as int, to as int)[j] != '.' by {
            assert(s@.subrange(from as int, to as int)[j] == s@[from + j]);
        }
    }
    false
}

/// Runs the e-mail masking pass; `None` where it cannot be carried out.
pub fn try_mask_emails(input: &Vec<char>) -> (r: Option<Vec<char>>)
    ensures
        match r {
            Some(v) => mask_emails(input@) == Some(v@),
            None => mask_emails(input@) is None,
        },
{
    let mut acc: Vec<char> = Vec::new();
    let mut k: usize = 0;
    while k < input.len()
        invariant
            k <= input.len(),
            mask_emails_from(input@, k as int, acc@) == mask_emails(input@),
        decreases input.len() - k,
    {
        let c = input[k];
        if c == '@' && k > 0 {
            let l = find_last_non_local(&acc);
            proof { lemma_last_non_local(acc@, acc@.len() as int); }
            let ls: usize = match l {
                Some(li) => {
                    assert(li < acc.len());
                    if char_utf8_len(acc[li]) != 1 {
                        return None;
                    }
                    li + 1
                }
                None => 0,
            };
            if ls < acc.len() {
                let de = find_domain_end(input, k + 1);
                proof { lemma_domain_end(input@, k + 1); }
                if has_dot(input, k + 1, de) {
                    let ghost old_acc = acc@;
                    let first = acc[ls];
                    acc.truncate(ls);
                    acc.push(first);
                    acc.push('*'); acc.push('*'); acc.push('*'); acc.push('@');
                    push_range(&mut acc, input, k + 1, de);
                    proof {
                        assert(acc@ =~= old_acc.subrange(0, ls as int) + seq![old_acc[ls as int]] + mask()
                            + input@.subrange(k + 1, de as int));
                    }
                    k = de;
                    continue;
                }
            }
        }
        acc.push(c);
        k += 1;
    }
    Some(acc)
}

} // verus!

verus! {

/// The whole redaction of a log line: tokens first, then e-mail addresses.
/// `None` where the e-mail pass cannot be carried out.
pub open spec fn redact_line(line: Seq<char>) -> Option<Seq<char>> {
    mask_emails(redact_tokens_from(line, 0))
}

/// Redacts a log line, or returns `None` for the lines on which the e-mail pass
/// would cut a string inside a multi-byte character.
pub fn try_redact_log_line(line: &str) -> (r: Option<String>)
    ensures
        r is Some <==> redact_line(line@) is Some,
        r matches Some(s) ==> Some(s@) == redact_line(line@),
{
    let chars = chars_of(line);
    let tokens = redact_tokens(&chars);
    match try_mask_emails(&tokens) {
        Some(v) => Some(string_of(&v)),
        None => None,
    }
}

/// Redacts sensitive data from a log line for export: personal API tokens
/// (`pk_` followed by token characters) become `pk_[REDACTED]`, and e-mail
/// addresses are masked to their first character followed by `***@domain`.
pub fn redact_log_line(line: &str) -> (r: String)
    requires
        redact_line(line@) is Some,
    ensures
        Some(r@) == redact_line(line@),
{
    match try_redact_log_line(line) {
        Some(s) => s,
        None => {
            proof { assert(false); }
            String::new()
        }
    }
}

/// Masks e-mail addresses (e.g. `alice@example.com` becomes `a***@example.com`).
pub fn redact_emails(input: &str) -> (r: String)
    requires
        mask_emails(input@) is Some,
    ensures
        Some(r@) == mask_emails(input@),
{
    match try_mask_emails(&chars_of(input)) {
        Some(v) => string_of(&v),
        None => {
            proof { assert(false); }
            String::new()
        }
    }
}

proof fn lemma_no_pk_unchanged(s: Seq<char>)
    requires
        forall|q: int| !#[trigger] occurs_at(s, pk_prefix(), q),
    ensures
        redact_tokens_from(s, 0) == s,
{
    lemma_next_pk(s, 0);
    assert(s.subrange(0, s.len() as int) =~= s);
}

proof fn lemma_no_at_unchanged(s: Seq<char>, k: int)
    requires
        0 <= k <= s.len(),
        !s.contains('@'),
    ensures
        mask_emails_from(s, k, s.subrange(0, k)) == Some(s),
    decreases s.len() - k,
{
    if k < s.len() {
        assert(s[k] != '@') by {
            if s[k] == '@' { assert(s.contains('@')); }
        }
        assert(s.subrange(0, k).push(s[k]) =~= s.subrange(0, k + 1));
        lemma_no_at_unchanged(s, k + 1);
    } else {
        assert(s.subrange(0, k) =~= s);
    }
}

/// A line with no `pk_` and no `@` comes out of the redaction unchanged.
pub proof fn law_redaction_keeps_clean_lines(line: Seq<char>)
    requires
        forall|q: int| !#[trigger] occurs_at(line, pk_prefix(), q),
        !line.contains('@'),
    ensures
        redact_line(line) == Some(line),
{
    lemma_no_pk_unchanged(line);
    lemma_no_at_unchanged(line, 0);
    assert(line.subrange(0, 0) =~= Seq::<char>::empty());
}

/// A string with no `@` comes out of the e-mail masking unchanged, and the
/// masking never fails on it.
pub proof fn law_masking_keeps_strings_without_at(s: Seq<char>)
    requires
        !s.contains('@'),
    ensures
        mask_emails(s) == Some(s),
{
    lemma_no_at_unchanged(s, 0);
    assert(s.subrange(0, 0) =~= Seq::<char>::empty());
}

} // verus!

verus! {

/// An API token survives at `q` in `t`: `pk_` followed by a token character.
pub open spec fn live_token_at(t: Seq<char>, q: int) -> bool {
    0 <= q && q + 3 < t.len() && t[q] == 'p' && t[q + 1] == 'k' && t[q + 2] == '_'
        && is_token_char(t[q + 3])
}

proof fn lemma_first_char(s: Seq<char>, j: int)
    requires
        0 <= j < s.len(),
        s[j] != 'p',
    ensures
        redact_tokens_from(s, j).len() > 0,
        redact_tokens_from(s, j)[0] == s[j],
{
    lemma_next_pk(s, j);
    let p = next_pk(s, j);
    if p >= 0 {
        assert(s.subrange(p, p + 3)[0] == 'p');
        assert(p != j);
        lemma_token_end(s, p);
    }
}

proof fn lemma_no_live_token_from(s: Seq<char>, i: int)
    requires
        0 <= i <= s.len(),
    ensures
        forall|q: int| !#[trigger] live_token_at(redact_tokens_from(s, i), q),
    decreases s.len() - i,
{
    let t = redact_tokens_from(s, i);
    let p = next_pk(s, i);
    lemma_next_pk(s, i);
    if p < 0 {
        assert forall|q: int| !#[trigger] live_token_at(t, q) by {
            if live_token_at(t, q) {
                assert(t == s.subrange(i, s.len() as int));
                assert(s.subrange(i + q, i + q + 3) =~= pk_prefix());
                assert(occurs_at(s, pk_prefix(), i + q));
            }
        }
    } else {
        let e = token_end(s, p);
        lemma_token_end(s, p);
        assert(s.subrange(p, p + 3)[0] == 'p');
        assert(s.subrange(p, p + 3)[1] == 'k');
        assert(s.subrange(p, p + 3)[2] == '_');
        if e - p > 3 {
            lemma_no_live_token_from(s, e);
            let piece = s.subrange(i, p) + redacted_marker();
            let rest = redact_tokens_from(s, e);
            assert(t == piece + rest);
            assert forall|q: int| !#[trigger] live_token_at(t, q) by {
                if live_token_at(t, q) {
                    if q >= piece.len() {
                        assert(live_token_at(rest, q - piece.len()));
                    } else if q + 2 < p - i {
                        assert(s.subrange(i + q, i + q + 3) =~= pk_prefix());
                        assert(occurs_at(s, pk_prefix(), i + q));
                    } else if q < p - i {
                        assert(t[p - i] == 'p');
                    } else if q == p - i {
                        assert(t[q + 3] == '[');
                    } else {
                        assert(t[q] != 'p');
                    }
                }
            }
        } else {
            lemma_no_live_token_from(s, p + 3);
            let piece = s.subrange(i, p + 3);
            let rest = redact_tokens_from(s, p + 3);
            assert(t == piece + rest);
            assert(is_token_char(s[p]) && is_token_char(s[p + 1]) && is_token_char(s[p + 2]));
            assert(token_end(s, p) == token_end(s, p + 1));
            assert(token_end(s, p + 1) == token_end(s, p + 2));
            assert(token_end(s, p + 2) == token_end(s, p + 3));
            lemma_token_end(s, p + 3);
            assert(e == p + 3);
            if p + 3 < s.len() {
                lemma_token_end(s, p + 4);
                assert(!is_token_char(s[p + 3]));
                lemma_first_char(s, p + 3);
            }
            assert forall|q: int| !#[trigger] live_token_at(t, q) by {
                if live_token_at(t, q) {
                    if q >= piece.len() {
                        assert(live_token_at(rest, q - piece.len()));
                    } else if q < p - i {
                        assert(s.subrange(i + q, i + q + 3) =~= pk_prefix());
                        assert(occurs_at(s, pk_prefix(), i + q));
                    } else if q == p - i {
                        assert(t[q + 3] == rest[0]);
                    } else {
                        assert(t[q] != 'p');
                    }
                }
            }
        }
    }
}

/// No API token survives the token pass: every `pk_` left in its output is
/// followed by a character that cannot continue a token, or ends the text.
pub proof fn law_no_token_survives(line: Seq<char>)
    ensures
        forall|q: int| !#[trigger] live_token_at(redact_tokens_from(line, 0), q),
{
    lemma_no_live_token_from(line, 0);
}

proof fn lemma_tokens_keep_clean_text(s: Seq<char>, i: int)
    requires
        0 <= i <= s.len(),
        forall|q: int| !#[trigger] live_token_at(s, q),
    ensures
        redact_tokens_from(s, i) == s.subrange(i, s.len() as int),
    decreases s.len() - i,
{
    let p = next_pk(s, i);
    lemma_next_pk(s, i);
    if p >= 0 {
        assert(s.subrange(p, p + 3)[0] == 'p');
        assert(s.subrange(p, p + 3)[1] == 'k');
        assert(s.subrange(p, p + 3)[2] == '_');
        assert(token_end(s, p) == token_end(s, p + 1));
        assert(token_end(s, p + 1) == token_end(s, p + 2));
        assert(token_end(s, p + 2) == token_end(s, p + 3));
        if p + 3 < s.len() {
            assert(!live_token_at(s, p));
            assert(!is_token_char(s[p + 3]));
        }
        assert(token_end(s, p) == p + 3);
        lemma_tokens_keep_clean_text(s, p + 3);
        assert(s.subrange(i, p + 3) + s.subrange(p + 3, s.len() as int) =~= s.subrange(i, s.len() as int));
    }
}

/// The token pass changes nothing on its own output: applying it twice gives
/// the same text as applying it once.
pub proof fn law_token_pass_idempotent(line: Seq<char>)
    ensures
        redact_tokens_from(redact_tokens_from(line, 0), 0) == redact_tokens_from(line, 0),
{
    let t = redact_tokens_from(line, 0);
    lemma_no_live_token_from(line, 0);
    lemma_tokens_keep_clean_text(t, 0);
    assert(t.subrange(0, t.len() as int) =~= t);
}

} // verus!

verus! {

/// Every character is ASCII.
pub open spec fn ascii_text(s: Seq<char>) -> bool {
    forall|i: int| 0 <= i < s.len() ==> (#[trigger] s[i] as u32) < 0x80
}

/// No character of `s[a..b]` is a dot.
spec fn no_dot(s: Seq<char>, a: int, b: int) -> bool {
    forall|i: int| a <= i < b ==> #[trigger] s[i] != '.'
}

/// The local part before the `@` at `j` is empty: the character before it cannot
/// belong to a local part (or there is none).
spec fn local_empty(s: Seq<char>, j: int) -> bool {
    last_non_local(s, j) + 1 == j
}

/// The `@` at `j` is one the masking leaves alone.
spec fn at_left_alone(s: Seq<char>, j: int) -> bool {
    local_empty(s, j) || no_dot(s, j + 1, domain_end(s, j + 1))
}

/// Every `@` of `m` (but a leading one) is one the masking leaves alone.
spec fn masking_stable(m: Seq<char>) -> bool {
    forall|j: int| 0 < j < m.len() && #[trigger] m[j] == '@' ==> at_left_alone(m, j)
}

/// What holds of the masking pass over `t` at `k` with output `acc`: each `@` in
/// the output is left alone by a second pass, also as the output grows from `t[k..]`.
spec fn pass_ok(t: Seq<char>, k: int, acc: Seq<char>) -> bool {
    forall|j: int| 0 < j < acc.len() && #[trigger] acc[j] == '@' ==> local_empty(acc, j) || (
        no_dot(acc, j + 1, domain_end(acc, j + 1))
        && (domain_end(acc, j + 1) == acc.len() ==> no_dot(t, k, domain_end(t, k))))
}

proof fn lemma_last_non_local_prefix(a: Seq<char>, b: Seq<char>, j: int)
    requires
        0 <= j <= a.len(),
        j <= b.len(),
        forall|i: int| 0 <= i < j ==> a[i] == b[i],
    ensures
        last_non_local(a, j) == last_non_local(b, j),
    decreases j,
{
    if j > 0 {
        assert(a[j - 1] == b[j - 1]);
        lemma_last_non_local_prefix(a, b, j - 1);
    }
}

proof fn lemma_domain_end_at(s: Seq<char>, j: int, e: int)
    requires
        0 <= j <= e <= s.len(),
        forall|i: int| j <= i < e ==> is_domain_char(#[trigger] s[i]),
        e == s.len() || !is_domain_char(s[e]),
    ensures
        domain_end(s, j) == e,
    decreases e - j,
{
    if j < e {
        lemma_domain_end_at(s, j + 1, e);
    }
}

proof fn lemma_domain_end_stops(s: Seq<char>, j: int)
    requires
        0 <= j <= s.len(),
    ensures
        domain_end(s, j) < s.len() ==> !is_domain_char(s[domain_end(s, j)]),
    decreases s.len() - j,
{
    if j < s.len() && is_domain_char(s[j]) {
        lemma_domain_end_stops(s, j + 1);
    }
}

proof fn lemma_tokens_ascii(s: Seq<char>, i: int)
    requires
        ascii_text(s),
        0 <= i <= s.len(),
    ensures
        ascii_text(redact_tokens_from(s, i)),
    decreases s.len() - i,
{
    let p = next_pk(s, i);
    lemma_next_pk(s, i);
    let m = redacted_marker();
    assert(ascii_text(m)) by {
        assert forall|x: int| 0 <= x < m.len() implies (#[trigger] m[x] as u32) < 0x80 by {
            assert(m[x] == 'p' || m[x] == 'k' || m[x] == '_' || m[x] == '[' || m[x] == 'R' || m[x] == 'E'
                || m[x] == 'D' || m[x] == 'A' || m[x] == 'C' || m[x] == 'T' || m[x] == ']');
        }
    }
    if p < 0 {
        assert(ascii_text(s.subrange(i, s.len() as int))) by {
            assert forall|x: int| 0 <= x < s.len() - i implies (#[trigger] s.subrange(i, s.len() as int)[x] as u32) < 0x80 by {
                assert(s.subrange(i, s.len() as int)[x] == s[i + x]);
            }
        }
    } else {
        let e = token_end(s, p);
        lemma_token_end(s, p);
        if e - p > 3 {
            lemma_tokens_ascii(s, e);
            let a = s.subrange(i, p);
            let r = redact_tokens_from(s, e);
            assert forall|x: int| 0 <= x < (a + m + r).len() implies (#[trigger] (a + m + r)[x] as u32) < 0x80 by {
                if x < a.len() {
                    assert((a + m + r)[x] == s[i + x]);
                } else if x < a.len() + m.len() {
                    assert((a + m + r)[x] == m[x - a.len()]);
                } else {
                    assert((a + m + r)[x] == r[x - a.len() - m.len()]);
                }
            }
        } else {
            lemma_tokens_ascii(s, p + 3);
            let a = s.subrange(i, p + 3);
            let r = redact_tokens_from(s, p + 3);
            assert forall|x: int| 0 <= x < (a + r).len() implies (#[trigger] (a + r)[x] as u32) < 0x80 by {
                if x < a.len() {
                    assert((a + r)[x] == s[i + x]);
                } else {
                    assert((a + r)[x] == r[x - a.len()]);
                }
            }
        }
    }
}

/// A second masking pass over a text whose `@`s it leaves alone changes nothing.
proof fn lemma_masking_keeps_stable_text(m: Seq<char>, k: int)
    requires
        masking_stable(m),
        ascii_text(m),
        0 <= k <= m.len(),
    ensures
        mask_emails_from(m, k, m.subrange(0, k)) == Some(m),
    decreases m.len() - k,
{
    if k < m.len() {
        let acc = m.subrange(0, k);
        if m[k] == '@' && k > 0 {
            lemma_last_non_local_prefix(acc, m, k);
            lemma_last_non_local(acc, k);
            let l = last_non_local(acc, acc.len() as int);
            if l >= 0 {
                assert((acc[l] as u32) < 0x80) by { assert(acc[l] == m[l]); }
            }
            assert(at_left_alone(m, k));
            if !local_empty(m, k) {
                let de = domain_end(m, k + 1);
                lemma_domain_end(m, k + 1);
                assert(!m.subrange(k + 1, de).contains('.')) by {
                    if m.subrange(k + 1, de).contains('.') {
                        let x = choose|x: int| 0 <= x < m.subrange(k + 1, de).len() && #[trigger] m.subrange(k + 1, de)[x] == '.';
                        assert(m[k + 1 + x] == '.');
                    }
                }
            }
        }
        assert(acc.push(m[k]) =~= m.subrange(0, k + 1));
        lemma_masking_keeps_stable_text(m, k + 1);
    } else {
        assert(m.subrange(0, k) =~= m);
    }
}

/// The output after masking the address whose `@` is `t[k]`.
spec fn masked_acc(t: Seq<char>, k: int, acc: Seq<char>, ls: int) -> Seq<char> {
    acc.subrange(0, ls) + seq![acc[ls]] + mask() + t.subrange(k + 1, domain_end(t, k + 1))
}

/// The situation in which the masking pass masks the address at `t[k]`.
spec fn masks_here(t: Seq<char>, k: int, acc: Seq<char>, ls: int) -> bool {
    &&& 0 < k < t.len()
    &&& t[k] == '@'
    &&& ls == last_non_local(acc, acc.len() as int) + 1
    &&& 0 <= ls < acc.len()
    &&& t.subrange(k + 1, domain_end(t, k + 1)).contains('.')
}

proof fn lemma_mask_step_ascii(t: Seq<char>, k: int, acc: Seq<char>, ls: int)
    requires
        ascii_text(t),
        ascii_text(acc),
        masks_here(t, k, acc, ls),
    ensures
        ascii_text(masked_acc(t, k, acc, ls)),
{
    let de = domain_end(t, k + 1);
    lemma_domain_end(t, k + 1);
    let acc2 = masked_acc(t, k, acc, ls);
    assert forall|i: int| 0 <= i < acc2.len() implies (#[trigger] acc2[i] as u32) < 0x80 by {
        if i <= ls {
            assert(acc2[i] == acc[i]);
        } else if i < ls + 5 {
            assert(acc2[i] == '*' || acc2[i] == '@');
        } else {
            assert(acc2[i] == t[k + 1 + i - ls - 5]);
        }
    }
}

proof fn lemma_mask_step_tokens(t: Seq<char>, k: int, acc: Seq<char>, ls: int)
    requires
        masks_here(t, k, acc, ls),
        forall|q: int| !#[trigger] live_token_at(acc + t.subrange(k, t.len() as int), q),
    ensures
        forall|q: int| !#[trigger] live_token_at(
            masked_acc(t, k, acc, ls) + t.subrange(domain_end(t, k + 1), t.len() as int), q),
{
    let de = domain_end(t, k + 1);
    lemma_domain_end(t, k + 1);
    let n = acc.len() as int;
    let acc2 = masked_acc(t, k, acc, ls);
    let n2 = acc2.len() as int;
    assert(n2 == ls + 5 + de - k - 1);
    let old_all = acc + t.subrange(k, t.len() as int);
    let new_all = acc2 + t.subrange(de, t.len() as int);
    assert forall|q: int| !#[trigger] live_token_at(new_all, q) by {
        if live_token_at(new_all, q) {
            if q + 3 <= ls {
                assert(new_all[q] == old_all[q]);
                assert(new_all[q + 1] == old_all[q + 1]);
                assert(new_all[q + 2] == old_all[q + 2]);
                assert(new_all[q + 3] == old_all[q + 3]);
                assert(live_token_at(old_all, q));
            } else if q <= ls {
                assert(new_all[ls + 1] == '*');
                if q + 3 == ls + 1 {
                    assert(!is_token_char(new_all[q + 3]));
                }
            } else if q <= ls + 4 {
                assert(new_all[q] == '*' || new_all[q] == '@');
            } else {
                let off = n + 1 + q - ls - 5;
                assert(old_all[off] == t[k + 1 + q - ls - 5]);
                assert(old_all[off + 1] == t[k + 1 + q - ls - 5 + 1]);
                assert(old_all[off + 2] == t[k + 1 + q - ls - 5 + 2]);
                assert(old_all[off + 3] == t[k + 1 + q - ls - 5 + 3]);
                assert(new_all[q] == t[k + 1 + q - ls - 5]) by {
                    if q < n2 { assert(new_all[q] == acc2[q]); } else { assert(new_all[q] == t[de + q - n2]); }
                }
                assert(new_all[q + 1] == t[k + 1 + q - ls - 5 + 1]) by {
                    if q + 1 < n2 { assert(new_all[q + 1] == acc2[q + 1]); } else { assert(new_all[q + 1] == t[de + q + 1 - n2]); }
                }
                assert(new_all[q + 2] == t[k + 1 + q - ls - 5 + 2]) by {
                    if q + 2 < n2 { assert(new_all[q + 2] == acc2[q + 2]); } else { assert(new_all[q + 2] == t[de + q + 2 - n2]); }
                }
                assert(new_all[q + 3] == t[k + 1 + q - ls - 5 + 3]) by {
                    if q + 3 < n2 { assert(new_all[q + 3] == acc2[q + 3]); } else { assert(new_all[q + 3] == t[de + q + 3 - n2]); }
                }
                assert(live_token_at(old_all, off));
            }
        }
    }
}

proof fn lemma_mask_step_old_at(t: Seq<char>, k: int, acc: Seq<char>, ls: int, j: int)
    requires
        masks_here(t, k, acc, ls),
        0 < j < ls,
        acc[j] == '@',
        !local_empty(acc, j) ==> no_dot(acc, j + 1, domain_end(acc, j + 1)),
    ensures
        local_empty(masked_acc(t, k, acc, ls), j) || (
            no_dot(masked_acc(t, k, acc, ls), j + 1, domain_end(masked_acc(t, k, acc, ls), j + 1))
            && domain_end(masked_acc(t, k, acc, ls), j + 1) < masked_acc(t, k, acc, ls).len()),
{
    let acc2 = masked_acc(t, k, acc, ls);
    let n = acc.len() as int;
    lemma_domain_end(t, k + 1);
    assert(forall|i: int| 0 <= i <= ls ==> acc2[i] == acc[i]);
    lemma_last_non_local_prefix(acc2, acc, j);
    if !local_empty(acc, j) {
        let e = domain_end(acc, j + 1);
        lemma_domain_end(acc, j + 1);
        lemma_domain_end_stops(acc, j + 1);
        if e <= ls {
            assert forall|i: int| j + 1 <= i < e implies is_domain_char(#[trigger] acc2[i]) && acc2[i] != '.' by {
                assert(acc2[i] == acc[i]);
            }
            assert(acc2[e] == acc[e]);
            lemma_domain_end_at(acc2, j + 1, e);
        } else {
            assert(acc2[ls + 1] == '*');
            assert forall|i: int| j + 1 <= i < ls + 1 implies is_domain_char(#[trigger] acc2[i]) && acc2[i] != '.' by {
                assert(acc2[i] == acc[i]);
            }
            lemma_domain_end_at(acc2, j + 1, ls + 1);
        }
    }
}

proof fn lemma_mask_step_ats(t: Seq<char>, k: int, acc: Seq<char>, ls: int)
    requires
        masks_here(t, k, acc, ls),
        pass_ok(t, k, acc),
    ensures
        pass_ok(t, domain_end(t, k + 1), masked_acc(t, k, acc, ls)),
{
    let de = domain_end(t, k + 1);
    lemma_domain_end(t, k + 1);
    let n = acc.len() as int;
    let l = ls - 1;
    lemma_last_non_local(acc, n);
    let acc2 = masked_acc(t, k, acc, ls);
    let n2 = acc2.len() as int;
    assert forall|j: int| 0 < j < n2 && #[trigger] acc2[j] == '@' implies local_empty(acc2, j) || (
        no_dot(acc2, j + 1, domain_end(acc2, j + 1))
        && (domain_end(acc2, j + 1) == n2 ==> no_dot(t, de, domain_end(t, de)))) by {
        if j == ls + 4 {
            assert(acc2[ls + 3] == '*');
            assert(local_empty(acc2, j));
        } else if j > ls + 4 {
            assert(acc2[j] == t[k + 1 + j - ls - 5]);
            assert(is_domain_char(t[k + 1 + j - ls - 5]));
        } else if j > ls {
            assert(acc2[j] == '*');
        } else if j == ls {
            assert(acc2[j] == acc[ls]);
            assert(is_local_char(acc[ls]));
        } else {
            assert(acc2[j] == acc[j]);
            lemma_mask_step_old_at(t, k, acc, ls, j);
        }
    }
}

proof fn lemma_push_step(t: Seq<char>, k: int, acc: Seq<char>)
    requires
        ascii_text(t),
        ascii_text(acc),
        0 <= k < t.len(),
        pass_ok(t, k, acc),
        t[k] == '@' && acc.len() > 0 ==> local_empty(acc, acc.len() as int)
            || no_dot(t, k + 1, domain_end(t, k + 1)),
    ensures
        pass_ok(t, k + 1, acc.push(t[k])),
        ascii_text(acc.push(t[k])),
{
    let c = t[k];
    let n = acc.len() as int;
    let acc2 = acc.push(c);
    assert forall|i: int| 0 <= i < acc2.len() implies (#[trigger] acc2[i] as u32) < 0x80 by {
        if i < n { assert(acc2[i] == acc[i]); }
    }
    lemma_domain_end(t, k);
    if is_domain_char(c) {
        assert(domain_end(t, k) == domain_end(t, k + 1));
    }
    assert forall|j: int| 0 < j < acc2.len() && #[trigger] acc2[j] == '@' implies local_empty(acc2, j) || (
        no_dot(acc2, j + 1, domain_end(acc2, j + 1))
        && (domain_end(acc2, j + 1) == acc2.len() ==> no_dot(t, k + 1, domain_end(t, k + 1)))) by {
        assert(forall|i: int| 0 <= i < n ==> acc2[i] == acc[i]);
        if j < n {
            assert(acc2[j] == acc[j]);
            lemma_last_non_local_prefix(acc2, acc, j);
            if !local_empty(acc, j) {
                let e = domain_end(acc, j + 1);
                lemma_domain_end(acc, j + 1);
                lemma_domain_end_stops(acc, j + 1);
                assert forall|i: int| j + 1 <= i < e implies is_domain_char(#[trigger] acc2[i]) && acc2[i] != '.' by {
                    assert(acc2[i] == acc[i]);
                }
                if e < n {
                    assert(acc2[e] == acc[e]);
                    lemma_domain_end_at(acc2, j + 1, e);
                } else if is_domain_char(c) {
                    assert(acc2[n] == c);
                    lemma_domain_end(t, k + 1);
                    assert(no_dot(t, k, domain_end(t, k)));
                    assert(k < domain_end(t, k));
                    assert(t[k] != '.');
                    lemma_domain_end_at(acc2, j + 1, n + 1);
                    assert(no_dot(acc2, j + 1, n + 1));
                    assert(no_dot(t, k + 1, domain_end(t, k + 1)));
                } else {
                    assert(acc2[n] == c);
                    lemma_domain_end_at(acc2, j + 1, n);
                }
            }
        } else {
            lemma_last_non_local_prefix(acc2, acc, n);
            assert(domain_end(acc2, n + 1) == n + 1);
        }
    }
}

/// The masking pass over an ASCII text without live tokens succeeds, and its
/// output is ASCII, has no live token, and has only `@`s a second pass leaves alone.
proof fn lemma_masking_output(t: Seq<char>, k: int, acc: Seq<char>)
    requires
        ascii_text(t),
        ascii_text(acc),
        0 <= k <= t.len(),
        k == 0 ==> acc.len() == 0,
        pass_ok(t, k, acc),
        forall|q: int| !#[trigger] live_token_at(acc + t.subrange(k, t.len() as int), q),
    ensures
        mask_emails_from(t, k, acc) matches Some(m) && masking_stable(m) && ascii_text(m)
            && forall|q: int| !#[trigger] live_token_at(m, q),
    decreases t.len() - k,
{
    if k >= t.len() {
        assert(acc + t.subrange(k, t.len() as int) =~= acc);
        return;
    }
    let c = t[k];
    let n = acc.len() as int;
    let l = last_non_local(acc, n);
    lemma_last_non_local(acc, n);
    let ls = l + 1;
    let de = domain_end(t, k + 1);
    lemma_domain_end(t, k + 1);
    if c == '@' && k > 0 && l >= 0 {
        assert((acc[l] as u32) < 0x80);
    }
    if c == '@' && k > 0 && ls < n && t.subrange(k + 1, de).contains('.') {
        assert(masks_here(t, k, acc, ls));
        lemma_mask_step_ascii(t, k, acc, ls);
        lemma_mask_step_tokens(t, k, acc, ls);
        lemma_mask_step_ats(t, k, acc, ls);
        assert(masked_acc(t, k, acc, ls) == acc.subrange(0, ls) + seq![acc[ls]] + mask() + t.subrange(k + 1, de));
        lemma_masking_output(t, de, masked_acc(t, k, acc, ls));
    } else {
        if c == '@' && n > 0 && !local_empty(acc, n) {
            assert(k > 0);
            assert forall|i: int| k + 1 <= i < de implies #[trigger] t[i] != '.' by {
                if t[i] == '.' {
                    assert(t.subrange(k + 1, de)[i - k - 1] == '.');
                }
            }
        }
        lemma_push_step(t, k, acc);
        assert(acc.push(c) + t.subrange(k + 1, t.len() as int) =~= acc + t.subrange(k, t.len() as int));
        lemma_masking_output(t, k + 1, acc.push(c));
    }
}

proof fn lemma_masking_adds_no_token(t: Seq<char>, k: int, acc: Seq<char>)
    requires
        0 <= k <= t.len(),
        mask_emails_from(t, k, acc) is Some,
        forall|q: int| !#[trigger] live_token_at(acc + t.subrange(k, t.len() as int), q),
    ensures
        forall|q: int| !#[trigger] live_token_at(mask_emails_from(t, k, acc)->0, q),
    decreases t.len() - k,
{
    if k >= t.len() {
        assert(acc + t.subrange(k, t.len() as int) =~= acc);
        return;
    }
    let c = t[k];
    let n = acc.len() as int;
    let l = last_non_local(acc, n);
    lemma_last_non_local(acc, n);
    let ls = l + 1;
    let de = domain_end(t, k + 1);
    lemma_domain_end(t, k + 1);
    if c == '@' && k > 0 && ls < n && t.subrange(k + 1, de).contains('.') {
        assert(masks_here(t, k, acc, ls));
        lemma_mask_step_tokens(t, k, acc, ls);
        assert(masked_acc(t, k, acc, ls) == acc.subrange(0, ls) + seq![acc[ls]] + mask() + t.subrange(k + 1, de));
        lemma_masking_adds_no_token(t, de, masked_acc(t, k, acc, ls));
    } else {
        assert(acc.push(c) + t.subrange(k + 1, t.len() as int) =~= acc + t.subrange(k, t.len() as int));
        lemma_masking_adds_no_token(t, k + 1, acc.push(c));
    }
}

/// No API token survives the whole redaction: wherever it succeeds, every
/// `pk_` left in the line is followed by a character that cannot continue a
/// token, or ends the line.
pub proof fn law_no_token_survives_redaction(line: Seq<char>)
    requires
        redact_line(line) is Some,
    ensures
        forall|q: int| !#[trigger] live_token_at(redact_line(line)->0, q),
{
    let t = redact_tokens_from(line, 0);
    lemma_no_live_token_from(line, 0);
    let e = Seq::<char>::empty();
    assert(e + t.subrange(0, t.len() as int) =~= t);
    lemma_masking_adds_no_token(t, 0, e);
}

/// Redaction changes nothing on its own output: for an ASCII line it succeeds,
/// and redacting the result again gives the result back.
pub proof fn law_redaction_idempotent(line: Seq<char>)
    requires
        ascii_text(line),
    ensures
        redact_line(line) matches Some(r) && redact_line(r) == Some(r),
{
    let t = redact_tokens_from(line, 0);
    lemma_tokens_ascii(line, 0);
    lemma_no_live_token_from(line, 0);
    let e = Seq::<char>::empty();
    assert(e + t.subrange(0, t.len() as int) =~= t);
    lemma_masking_output(t, 0, e);
    let m = mask_emails(t)->0;
    lemma_tokens_keep_clean_text(m, 0);
    assert(m.subrange(0, m.len() as int) =~= m);
    lemma_masking_keeps_stable_text(m, 0);
    assert(m.subrange(0, 0) =~= e);
}

} // verus!
