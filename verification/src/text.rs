//! Verified text utilities: whitespace trimming, prefix tests, substring
//! search, splitting, and decimal parsing/formatting over `Seq<char>` views.

use vstd::prelude::*;
use vstd::string::*;

verus! {

/// The characters that count as whitespace when a line is trimmed
/// (the Unicode `White_Space` set).
pub open spec fn is_ws(c: char) -> bool {
    c == ' ' || c == '\t' || c == '\n' || c == '\r' || c == '\u{b}' || c == '\u{c}'
        || c == '\u{85}' || c == '\u{a0}' || c == '\u{1680}' || c == '\u{2000}'
        || c == '\u{2001}' || c == '\u{2002}' || c == '\u{2003}' || c == '\u{2004}'
        || c == '\u{2005}' || c == '\u{2006}' || c == '\u{2007}' || c == '\u{2008}'
        || c == '\u{2009}' || c == '\u{200a}' || c == '\u{2028}' || c == '\u{2029}'
        || c == '\u{202f}' || c == '\u{205f}' || c == '\u{3000}'
}

pub fn is_ws_char(c: char) -> (r: bool)
    ensures
        r == is_ws(c),
{
    c == ' ' || c == '\t' || c == '\n' || c == '\r' || c == '\u{b}' || c == '\u{c}'
        || c == '\u{85}' || c == '\u{a0}' || c == '\u{1680}' || c == '\u{2000}'
        || c == '\u{2001}' || c == '\u{2002}' || c == '\u{2003}' || c == '\u{2004}'
        || c == '\u{2005}' || c == '\u{2006}' || c == '\u{2007}' || c == '\u{2008}'
        || c == '\u{2009}' || c == '\u{200a}' || c == '\u{2028}' || c == '\u{2029}'
        || c == '\u{202f}' || c == '\u{205f}' || c == '\u{3000}'
}

/// The sequence with its leading whitespace removed.
pub open spec fn trim_start_seq(s: Seq<char>) -> Seq<char>
    decreases s.len(),
{
    if s.len() > 0 && is_ws(s[0]) {
        trim_start_seq(s.drop_first())
    } else {
        s
    }
}

/// The sequence with its trailing whitespace removed.
pub open spec fn trim_end_seq(s: Seq<char>) -> Seq<char>
    decreases s.len(),
{
    if s.len() > 0 && is_ws(s.last()) {
        trim_end_seq(s.drop_last())
    } else {
        s
    }
}

/// The sequence with whitespace removed from both ends.
pub open spec fn trim_seq(s: Seq<char>) -> Seq<char> {
    trim_end_seq(trim_start_seq(s))
}

proof fn lemma_trim_start_skip(s: Seq<char>, i: int)
    requires
        0 <= i <= s.len(),
        forall|j: int| 0 <= j < i ==> is_ws(s[j]),
        i == s.len() || !is_ws(s[i]),
    ensures
        trim_start_seq(s) == s.skip(i),
    decreases i,
{
    if i == 0 {
        assert(s.skip(0) =~= s);
    } else {
        assert(is_ws(s[0]));
        let t = s.drop_first();
        assert(forall|j: int| 0 <= j < i - 1 ==> is_ws(#[trigger] t[j]));
        lemma_trim_start_skip(t, i - 1);
        assert(t.skip(i - 1) =~= s.skip(i));
    }
}

proof fn lemma_trim_end_take(s: Seq<char>, k: int)
    requires
        0 <= k <= s.len(),
        forall|j: int| k <= j < s.len() ==> is_ws(s[j]),
        k == 0 || !is_ws(s[k - 1]),
    ensures
        trim_end_seq(s) == s.take(k),
    decreases s.len() - k,
{
    if k == s.len() {
        assert(s.take(k) =~= s);
        if s.len() > 0 && is_ws(s.last()) {
            assert(!is_ws(s[k - 1]));
        }
    } else {
        assert(is_ws(s.last()));
        let t = s.drop_last();
        lemma_trim_end_take(t, k);
        assert(t.take(k) =~= s.take(k));
    }
}

/// Removes leading and trailing whitespace, as the detection-text grammar
/// asks of every line.
pub fn str_trim<'a>(s: &'a str) -> (r: &'a str)
    ensures
        r@ == trim_seq(s@),
{
    let len = s.unicode_len();
    let mut start: usize = 0;
    while start < len && is_ws_char(s.get_char(start))
        invariant
            len == s@.len(),
            0 <= start <= len,
            forall|j: int| 0 <= j < start ==> is_ws(s@[j]),
        decreases len - start,
    {
        start = start + 1;
    }
    let mut end: usize = len;
    while end > start && is_ws_char(s.get_char(end - 1))
        invariant
            len == s@.len(),
            start <= end <= len,
            forall|j: int| end <= j < len ==> is_ws(s@[j]),
        decreases end,
    {
        end = end - 1;
    }
    proof {
        lemma_trim_start_skip(s@, start as int);
        let t = s@.skip(start as int);
        assert(forall|j: int|
            end - start <= j < t.len() ==> is_ws(#[trigger] t[j]));
        lemma_trim_end_take(t, end - start);
        assert(t.take(end - start) =~= s@.subrange(start as int, end as int));
    }
    s.substring_char(start, end)
}

/// Whether `s` starts with `p`.
pub fn str_has_prefix(s: &str, p: &str) -> (r: bool)
    ensures
        r == p@.is_prefix_of(s@),
{
    let sl = s.unicode_len();
    let pl = p.unicode_len();
    if pl > sl {
        return false;
    }
    let mut i: usize = 0;
    while i < pl
        invariant
            sl == s@.len(),
            pl == p@.len(),
            pl <= sl,
            0 <= i <= pl,
            forall|j: int| 0 <= j < i ==> s@[j] == p@[j],
        decreases pl - i,
    {
        if s.get_char(i) != p.get_char(i) {
            assert(!p@.is_prefix_of(s@)) by {
                assert(p@[i as int] != s@.subrange(0, pl as int)[i as int]);
            }
            return false;
        }
        i = i + 1;
    }
    proof {
        assert(p@ =~= s@.subrange(0, pl as int));
    }
    true
}

/// What remains of `s` after its first `n` characters.
pub fn str_skip<'a>(s: &'a str, n: usize) -> (r: &'a str)
    requires
        n <= s@.len(),
    ensures
        r@ == s@.skip(n as int),
{
    let len = s.unicode_len();
    let r = s.substring_char(n, len);
    proof {
        assert(s@.subrange(n as int, len as int) =~= s@.skip(n as int));
    }
    r
}

/// Whether `sub` occurs somewhere in `s`.
pub open spec fn contains_seq(s: Seq<char>, sub: Seq<char>) -> bool {
    exists|i: int|
        0 <= i && i + sub.len() <= s.len() && #[trigger] s.subrange(i, i + sub.len()) == sub
}

/// Substring search, by direct comparison at every position.
pub fn str_contains(s: &str, sub: &str) -> (r: bool)
    ensures
        r == contains_seq(s@, sub@),
{
    let sl = s.unicode_len();
    let subl = sub.unicode_len();
    if subl > sl {
        return false;
    }
    if subl == 0 {
        proof {
            assert(s@.subrange(0, 0 + sub@.len() as int) =~= sub@);
        }
        return true;
    }
    let mut i: usize = 0;
    while i <= sl - subl
        invariant
            sl == s@.len(),
            subl == sub@.len(),
            1 <= subl <= sl,
            0 <= i <= sl - subl + 1,
            forall|i2: int|
                0 <= i2 < i ==> #[trigger] s@.subrange(i2, i2 + subl as int) != sub@,
        decreases sl - i,
    {
        let mut k: usize = 0;
        let mut matched = true;
        while k < subl
            invariant
                sl == s@.len(),
                subl == sub@.len(),
                i + subl <= sl,
                0 <= k <= subl,
                matched ==> forall|j: int| 0 <= j < k ==> s@[i + j] == sub@[j],
                !matched ==> s@.subrange(i as int, i + subl as int) != sub@,
            decreases subl - k,
        {
            if s.get_char(i + k) != sub.get_char(k) {
                proof {
                    assert(s@.subrange(i as int, i + subl as int)[k as int]
                        == s@[i + k]);
                }
                matched = false;
                k = subl;
            } else {
                k = k + 1;
            }
        }
        if matched {
            proof {
                assert(s@.subrange(i as int, i + subl as int) =~= sub@);
            }
            return true;
        }
        i = i + 1;
    }
    proof {
        assert forall|i2: int| 0 <= i2 && i2 + sub@.len() <= s@.len()
            implies #[trigger] s@.subrange(i2, i2 + sub@.len()) != sub@ by {
            assert(i2 < i);
        }
    }
    false
}

/// The segments of `s` between occurrences of `sep`: every separator makes
/// a cut, and empty segments are kept, so there is always one more segment
/// than there are separators.
pub open spec fn split_seq(s: Seq<char>, sep: char) -> Seq<Seq<char>>
    decreases s.len(),
{
    if s.len() == 0 {
        seq![Seq::<char>::empty()]
    } else if s[0] == sep {
        seq![Seq::<char>::empty()] + split_seq(s.drop_first(), sep)
    } else {
        let rest = split_seq(s.drop_first(), sep);
        seq![seq![s[0]] + rest[0]] + rest.drop_first()
    }
}

/// `parts` with `pre` glued onto the front of its first segment.
pub open spec fn prepend_first(pre: Seq<char>, parts: Seq<Seq<char>>) -> Seq<Seq<char>> {
    seq![pre + parts[0]] + parts.drop_first()
}

pub proof fn lemma_split_seq_len(s: Seq<char>, sep: char)
    ensures
        split_seq(s, sep).len() >= 1,
    decreases s.len(),
{
    if s.len() > 0 {
        lemma_split_seq_len(s.drop_first(), sep);
    }
}

/// No segment of a split contains the separator.
pub proof fn lemma_split_seq_no_sep(s: Seq<char>, sep: char)
    ensures
        forall|k: int, j: int|
            0 <= k < split_seq(s, sep).len() && 0 <= j < split_seq(s, sep)[k].len()
                ==> #[trigger] split_seq(s, sep)[k][j] != sep,
    decreases s.len(),
{
    if s.len() == 0 {
    } else if s[0] == sep {
        lemma_split_seq_no_sep(s.drop_first(), sep);
        let rest = split_seq(s.drop_first(), sep);
        let whole = split_seq(s, sep);
        assert forall|k: int, j: int|
            0 <= k < whole.len() && 0 <= j < whole[k].len()
            implies #[trigger] whole[k][j] != sep by {
            if k > 0 {
                assert(whole[k] == rest[k - 1]);
            }
        }
    } else {
        lemma_split_seq_no_sep(s.drop_first(), sep);
        lemma_split_seq_len(s.drop_first(), sep);
        let rest = split_seq(s.drop_first(), sep);
        let whole = split_seq(s, sep);
        assert forall|k: int, j: int|
            0 <= k < whole.len() && 0 <= j < whole[k].len()
            implies #[trigger] whole[k][j] != sep by {
            if k == 0 {
                if j > 0 {
                    assert(whole[0][j] == rest[0][j - 1]);
                }
            } else {
                assert(whole[k] == rest[k]);
            }
        }
    }
}

/// Splits `s` at every occurrence of `sep`.
pub fn str_split(s: &str, sep: char) -> (r: Vec<String>)
    ensures
        r.deep_view() == split_seq(s@, sep),
{
    let len = s.unicode_len();
    let mut r: Vec<String> = Vec::new();
    let mut seg_start: usize = 0;
    let mut i: usize = 0;
    proof {
        assert(s@.skip(0) =~= s@);
        lemma_split_seq_len(s@, sep);
        assert(split_seq(s@, sep) =~~= r.deep_view()
            + prepend_first(s@.subrange(0, 0), split_seq(s@.skip(0), sep)));
    }
    while i < len
        invariant
            len == s@.len(),
            0 <= seg_start <= i <= len,
            split_seq(s@, sep) == r.deep_view()
                + prepend_first(s@.subrange(seg_start as int, i as int),
                    split_seq(s@.skip(i as int), sep)),
        decreases len - i,
    {
        let ghost pre = s@.subrange(seg_start as int, i as int);
        let ghost tail = s@.skip(i as int);
        proof {
            assert(tail.len() > 0);
            assert(tail[0] == s@[i as int]);
            assert(tail.drop_first() =~= s@.skip(i as int + 1));
            lemma_split_seq_len(s@.skip(i as int + 1), sep);
        }
        let c = s.get_char(i);
        if c == sep {
            let seg = s.substring_char(seg_start, i);
            r.push(seg.to_owned());
            seg_start = i + 1;
            proof {
                let rest = split_seq(s@.skip(i as int + 1), sep);
                assert(split_seq(tail, sep) == seq![Seq::<char>::empty()] + rest);
                assert(prepend_first(pre, split_seq(tail, sep))
                    =~~= seq![pre] + rest);
                assert(seq![pre] + prepend_first(
                    s@.subrange(i as int + 1, i as int + 1), rest)
                    =~~= seq![pre] + rest);
            }
        } else {
            proof {
                let rest = split_seq(s@.skip(i as int + 1), sep);
                assert(split_seq(tail, sep)
                    == seq![seq![tail[0]] + rest[0]] + rest.drop_first());
                assert(prepend_first(pre, split_seq(tail, sep))
                    =~~= seq![pre + seq![tail[0]] + rest[0]] + rest.drop_first());
                assert(s@.subrange(seg_start as int, i as int + 1)
                    =~= pre + seq![s@[i as int]]);
                assert(prepend_first(s@.subrange(seg_start as int, i as int + 1), rest)
                    =~~= seq![pre + seq![tail[0]] + rest[0]] + rest.drop_first());
            }
        }
        i = i + 1;
    }
    let seg = s.substring_char(seg_start, len);
    r.push(seg.to_owned());
    proof {
        assert(s@.skip(len as int) =~= Seq::<char>::empty());
        assert(split_seq(s@.skip(len as int), sep)
            == seq![Seq::<char>::empty()]);
        assert(r.deep_view() =~~= split_seq(s@, sep));
    }
    r
}

/// The maximal runs of non-whitespace characters in `s`, in order.
pub open spec fn split_ws_seq(s: Seq<char>) -> Seq<Seq<char>>
    decreases s.len(),
{
    if s.len() == 0 {
        Seq::<Seq<char>>::empty()
    } else if is_ws(s[0]) {
        split_ws_seq(s.drop_first())
    } else if s.len() > 1 && !is_ws(s[1]) {
        let rest = split_ws_seq(s.drop_first());
        seq![seq![s[0]] + rest[0]] + rest.drop_first()
    } else {
        seq![seq![s[0]]] + split_ws_seq(s.drop_first())
    }
}

proof fn lemma_split_ws_token(s: Seq<char>, k: int)
    requires
        1 <= k <= s.len(),
        forall|j: int| 0 <= j < k ==> !is_ws(s[j]),
        k == s.len() || is_ws(s[k]),
    ensures
        split_ws_seq(s) == seq![s.take(k)] + split_ws_seq(s.skip(k)),
    decreases k,
{
    let rest = split_ws_seq(s.drop_first());
    if k == 1 {
        if s.len() == 1 {
            assert(s.drop_first() =~= s.skip(1));
            assert(s.take(1) =~= seq![s[0]]);
            assert(split_ws_seq(s) =~~= seq![s.take(1)] + split_ws_seq(s.skip(1)));
        } else {
            assert(is_ws(s[1]));
            assert(s.drop_first() =~= s.skip(1));
            assert(s.take(1) =~= seq![s[0]]);
            assert(split_ws_seq(s) =~~= seq![s.take(1)] + split_ws_seq(s.skip(1)));
        }
    } else {
        let t = s.drop_first();
        assert(forall|j: int| 0 <= j < k - 1 ==> !is_ws(#[trigger] t[j]));
        assert(k - 1 == t.len() || is_ws(t[k - 1]));
        lemma_split_ws_token(t, k - 1);
        assert(!is_ws(s[1]));
        assert(split_ws_seq(s) == seq![seq![s[0]] + rest[0]] + rest.drop_first());
        assert(rest[0] == t.take(k - 1));
        assert(seq![s[0]] + t.take(k - 1) =~= s.take(k));
        assert(rest.drop_first() =~= split_ws_seq(t.skip(k - 1)));
        assert(t.skip(k - 1) =~= s.skip(k));
        assert(split_ws_seq(s) =~~= seq![s.take(k)] + split_ws_seq(s.skip(k)));
    }
}

/// Splits `s` into its whitespace-separated tokens.
pub fn str_split_ws(s: &str) -> (r: Vec<String>)
    ensures
        r.deep_view() == split_ws_seq(s@),
{
    let len = s.unicode_len();
    let mut r: Vec<String> = Vec::new();
    let mut i: usize = 0;
    proof {
        assert(s@.skip(0) =~= s@);
        assert(split_ws_seq(s@) =~~= r.deep_view() + split_ws_seq(s@.skip(0)));
    }
    while i < len
        invariant
            len == s@.len(),
            0 <= i <= len,
            split_ws_seq(s@) == r.deep_view() + split_ws_seq(s@.skip(i as int)),
        decreases len - i,
    {
        let ghost tail = s@.skip(i as int);
        let c = s.get_char(i);
        if is_ws_char(c) {
            proof {
                assert(tail[0] == s@[i as int]);
                assert(tail.drop_first() =~= s@.skip(i as int + 1));
            }
            i = i + 1;
        } else {
            let tok_start = i;
            let mut j: usize = i + 1;
            while j < len && !is_ws_char(s.get_char(j))
                invariant
                    len == s@.len(),
                    tok_start < j <= len,
                    forall|t: int| tok_start <= t < j ==> !is_ws(s@[t]),
                decreases len - j,
            {
                j = j + 1;
            }
            let tok = s.substring_char(tok_start, j);
            r.push(tok.to_owned());
            proof {
                assert(forall|t: int|
                    0 <= t < j - tok_start ==> !is_ws(#[trigger] tail[t]));
                assert(j - tok_start == tail.len() || is_ws(tail[j - tok_start]));
                lemma_split_ws_token(tail, j - tok_start);
                assert(tail.take(j - tok_start)
                    =~= s@.subrange(tok_start as int, j as int));
                assert(tail.skip(j - tok_start) =~= s@.skip(j as int));
                assert(split_ws_seq(s@) =~~= r.deep_view() + split_ws_seq(s@.skip(j as int)));
            }
            i = j;
        }
    }
    proof {
        assert(s@.skip(len as int) =~= Seq::<char>::empty());
        assert(r.deep_view() =~~= split_ws_seq(s@));
    }
    r
}

pub open spec fn is_digit(c: char) -> bool {
    '0' <= c && c <= '9'
}

pub open spec fn digit_val(c: char) -> int {
    c as int - '0' as int
}

/// The value of a sequence of decimal digits, most significant first.
pub open spec fn dec_val(s: Seq<char>) -> int
    decreases s.len(),
{
    if s.len() == 0 {
        0
    } else {
        dec_val(s.drop_last()) * 10 + digit_val(s.last())
    }
}

pub open spec fn all_digits(s: Seq<char>) -> bool {
    forall|j: int| 0 <= j < s.len() ==> is_digit(#[trigger] s[j])
}

pub proof fn lemma_dec_val_nonneg(s: Seq<char>)
    requires
        all_digits(s),
    ensures
        dec_val(s) >= 0,
    decreases s.len(),
{
    if s.len() > 0 {
        assert(all_digits(s.drop_last()));
        lemma_dec_val_nonneg(s.drop_last());
    }
}

/// A digit string's value only grows as more digits follow.
proof fn lemma_dec_val_prefix_le(s: Seq<char>, k: int)
    requires
        all_digits(s),
        0 <= k <= s.len(),
    ensures
        dec_val(s.take(k)) <= dec_val(s),
    decreases s.len() - k,
{
    if k == s.len() {
        assert(s.take(k) =~= s);
    } else {
        assert(s.take(k + 1).drop_last() =~= s.take(k));
        assert(s.take(k + 1).last() == s[k]);
        assert(all_digits(s.take(k)));
        lemma_dec_val_nonneg(s.take(k));
        lemma_dec_val_prefix_le(s, k + 1);
    }
}

/// Reads the digits of `s` from position `start` on; `None` when a
/// non-digit occurs, nothing follows `start`, or the value exceeds `cap`.
fn parse_digits_capped(s: &str, start: usize, cap: u64) -> (r: Option<u64>)
    requires
        start <= s@.len(),
        cap <= 0xFFFF_FFFF,
    ensures
        ({
            let body = s@.skip(start as int);
            match r {
                Some(v) => body.len() > 0 && all_digits(body) && v == dec_val(body)
                    && v <= cap,
                None => !(body.len() > 0 && all_digits(body) && dec_val(body) <= cap),
            }
        }),
{
    let ghost body = s@.skip(start as int);
    let len = s.unicode_len();
    if start == len {
        return None;
    }
    let mut acc: u64 = 0;
    let mut i: usize = start;
    proof {
        assert(s@.subrange(start as int, start as int) =~= body.take(0));
    }
    while i < len
        invariant
            len == s@.len(),
            start < len,
            start <= i <= len,
            cap <= 0xFFFF_FFFF,
            body == s@.skip(start as int),
            all_digits(body.take(i - start)),
            acc == dec_val(body.take(i - start)),
            acc <= cap,
        decreases len - i,
    {
        let c = s.get_char(i);
        if c < '0' || c > '9' {
            proof {
                assert(body[i - start] == s@[i as int]);
                assert(!all_digits(body));
            }
            return None;
        }
        let d = (c as u32) - ('0' as u32);
        proof {
            assert(body.take(i - start + 1).drop_last() =~= body.take(i - start));
            assert(body.take(i - start + 1).last() == s@[i as int]);
        }
        acc = acc * 10 + (d as u64);
        if acc > cap {
            proof {
                if all_digits(body) {
                    lemma_dec_val_prefix_le(body, i - start + 1);
                }
            }
            return None;
        }
        i = i + 1;
    }
    proof {
        assert(body.take(len - start as int) =~= body);
    }
    Some(acc)
}

/// The result of parsing `s` as an unsigned byte, in the way the standard
/// decimal grammar reads it: an optional `+`, then one or more digits,
/// value at most 255.
pub open spec fn u8_parse_spec(s: Seq<char>) -> Option<u8> {
    let body = if s.len() > 0 && s[0] == '+' {
        s.drop_first()
    } else {
        s
    };
    if body.len() > 0 && all_digits(body) && dec_val(body) <= 255 {
        Some(dec_val(body) as u8)
    } else {
        None
    }
}

pub fn parse_u8(s: &str) -> (r: Option<u8>)
    ensures
        r == u8_parse_spec(s@),
{
    let len = s.unicode_len();
    if len == 0 {
        return None;
    }
    let first = s.get_char(0);
    let start: usize = if first == '+' {
        1
    } else {
        0
    };
    proof {
        if first == '+' {
            assert(s@.skip(1) =~= s@.drop_first());
        } else {
            assert(s@.skip(0) =~= s@);
        }
    }
    match parse_digits_capped(s, start, 255) {
        Some(v) => Some(v as u8),
        None => None,
    }
}

/// The result of parsing `s` as a 32-bit signed integer: an optional sign,
/// then one or more digits, value within the type's range.
pub open spec fn i32_parse_spec(s: Seq<char>) -> Option<i32> {
    let neg = s.len() > 0 && s[0] == '-';
    let body = if s.len() > 0 && (s[0] == '+' || s[0] == '-') {
        s.drop_first()
    } else {
        s
    };
    if body.len() > 0 && all_digits(body) {
        let v = if neg {
            -dec_val(body)
        } else {
            dec_val(body)
        };
        if -0x8000_0000 <= v <= 0x7FFF_FFFF {
            Some(v as i32)
        } else {
            None
        }
    } else {
        None
    }
}

pub fn parse_i32(s: &str) -> (r: Option<i32>)
    ensures
        r == i32_parse_spec(s@),
{
    let len = s.unicode_len();
    if len == 0 {
        return None;
    }
    let first = s.get_char(0);
    let neg = first == '-';
    let start: usize = if first == '-' || first == '+' {
        1
    } else {
        0
    };
    proof {
        if first == '-' || first == '+' {
            assert(s@.skip(1) =~= s@.drop_first());
        } else {
            assert(s@.skip(0) =~= s@);
        }
    }
    match parse_digits_capped(s, start, 0x8000_0000) {
        Some(v) => {
            if neg {
                if v == 0x8000_0000 {
                    Some(i32::MIN)
                } else {
                    Some(-(v as i32))
                }
            } else {
                if v <= 0x7FFF_FFFF {
                    Some(v as i32)
                } else {
                    None
                }
            }
        },
        None => None,
    }
}

pub open spec fn digit_char(d: int) -> char {
    if d == 0 { '0' }
    else if d == 1 { '1' }
    else if d == 2 { '2' }
    else if d == 3 { '3' }
    else if d == 4 { '4' }
    else if d == 5 { '5' }
    else if d == 6 { '6' }
    else if d == 7 { '7' }
    else if d == 8 { '8' }
    else { '9' }
}

/// The decimal digits of `n`, most significant first.
pub open spec fn dec_str(n: nat) -> Seq<char>
    decreases n,
{
    if n < 10 {
        seq![digit_char(n as int)]
    } else {
        dec_str(n / 10) + seq![digit_char((n % 10) as int)]
    }
}

/// The decimal form of `n`, a leading minus sign when negative.
pub open spec fn int_str(n: int) -> Seq<char> {
    if n < 0 {
        seq!['-'] + dec_str((-n) as nat)
    } else {
        dec_str(n as nat)
    }
}

fn push_digit(out: &mut String, d: u32)
    requires
        d < 10,
    ensures
        final(out)@ == old(out)@ + seq![digit_char(d as int)],
{
    proof {
        reveal_strlit("0");
        reveal_strlit("1");
        reveal_strlit("2");
        reveal_strlit("3");
        reveal_strlit("4");
        reveal_strlit("5");
        reveal_strlit("6");
        reveal_strlit("7");
        reveal_strlit("8");
        reveal_strlit("9");
    }
    if d == 0 {
        out.append("0");
    } else if d == 1 {
        out.append("1");
    } else if d == 2 {
        out.append("2");
    } else if d == 3 {
        out.append("3");
    } else if d == 4 {
        out.append("4");
    } else if d == 5 {
        out.append("5");
    } else if d == 6 {
        out.append("6");
    } else if d == 7 {
        out.append("7");
    } else if d == 8 {
        out.append("8");
    } else {
        out.append("9");
    }
    proof {
        assert(out@ =~= old(out)@ + seq![digit_char(d as int)]);
    }
}

/// Appends the decimal digits of `n` to `out`.
pub fn push_u32_dec(out: &mut String, n: u32)
    ensures
        final(out)@ == old(out)@ + dec_str(n as nat),
    decreases n,
{
    if n >= 10 {
        push_u32_dec(out, n / 10);
        push_digit(out, n % 10);
        proof {
            assert(out@ =~= old(out)@ + dec_str(n as nat));
        }
    } else {
        push_digit(out, n);
    }
}

/// Appends the decimal form of `n` to `out`, sign included.
pub fn push_i32_dec(out: &mut String, n: i32)
    ensures
        final(out)@ == old(out)@ + int_str(n as int),
{
    if n < 0 {
        proof {
            reveal_strlit("-");
        }
        out.append("-");
        let m: u32 = if n == i32::MIN {
            0x8000_0000u32
        } else {
            (-n) as u32
        };
        push_u32_dec(out, m);
        proof {
            assert(out@ =~= old(out)@ + int_str(n as int));
        }
    } else {
        push_u32_dec(out, n as u32);
    }
}

/// The segments joined with `sep` between neighbours.
pub open spec fn join_sep(parts: Seq<Seq<char>>, sep: char) -> Seq<char>
    decreases parts.len(),
{
    if parts.len() == 0 {
        Seq::<char>::empty()
    } else if parts.len() == 1 {
        parts[0]
    } else {
        join_sep(parts.drop_last(), sep) + seq![sep] + parts.last()
    }
}

/// Joins `parts[from..to]` with `-` between neighbours.
pub fn join_dash(parts: &Vec<String>, from: usize, to: usize) -> (r: String)
    requires
        from <= to <= parts@.len(),
    ensures
        r@ == join_sep(parts.deep_view().subrange(from as int, to as int), '-'),
{
    let ghost dv = parts.deep_view();
    let mut out = String::new();
    let mut i: usize = from;
    proof {
        assert(dv.subrange(from as int, from as int)
            =~= Seq::<Seq<char>>::empty());
    }
    while i < to
        invariant
            from <= i <= to <= parts@.len(),
            dv == parts.deep_view(),
            out@ == join_sep(dv.subrange(from as int, i as int), '-'),
        decreases to - i,
    {
        proof {
            reveal_strlit("-");
            assert(dv.subrange(from as int, i as int + 1).drop_last()
                =~= dv.subrange(from as int, i as int));
            assert(dv.subrange(from as int, i as int + 1).last() == dv[i as int]);
            assert(dv[i as int] == parts@[i as int]@);
        }
        if i > from {
            out.append("-");
        }
        out.append(parts[i].as_str());
        proof {
            assert(out@ =~= join_sep(dv.subrange(from as int, i as int + 1), '-'));
        }
        i = i + 1;
    }
    out
}

/// Character-for-character equality of two string slices.
pub fn str_eq(a: &str, b: &str) -> (r: bool)
    ensures
        r == (a@ == b@),
{
    let oa = a.to_owned();
    let ob = b.to_owned();
    oa == ob
}

} // verus!
