//! Character-level text helpers: UTF-8 widths, capacity-bounded strings
//! and decimal rendering.

use vstd::prelude::*;

verus! {

/// Bytes `c` takes in UTF-8.
pub open spec fn char_width(c: char) -> nat {
    if (c as u32) < 0x80 {
        1
    } else if (c as u32) < 0x800 {
        2
    } else if (c as u32) < 0x10000 {
        3
    } else {
        4
    }
}

/// Bytes `s` takes in UTF-8.
pub open spec fn utf8_len(s: Seq<char>) -> nat
    decreases s.len(),
{
    if s.len() == 0 {
        0
    } else {
        utf8_len(s.drop_last()) + char_width(s.last())
    }
}

pub proof fn lemma_utf8_len_push(s: Seq<char>, c: char)
    ensures
        utf8_len(s.push(c)) == utf8_len(s) + char_width(c),
{
    assert(s.push(c).drop_last() =~= s);
}

/// A longer prefix never takes fewer bytes.
pub proof fn lemma_utf8_len_prefix(s: Seq<char>, i: int, j: int)
    requires
        0 <= i <= j <= s.len(),
    ensures
        utf8_len(s.take(i)) <= utf8_len(s.take(j)),
    decreases j - i,
{
    if i < j {
        lemma_utf8_len_prefix(s, i, j - 1);
        assert(s.take(j).drop_last() =~= s.take(j - 1));
    }
}

/// Same as `char::len_utf8`.
pub fn char_utf8_width(c: char) -> (w: usize)
    ensures
        w == char_width(c),
{
    let v = c as u32;
    if v < 0x80 {
        1
    } else if v < 0x800 {
        2
    } else if v < 0x10000 {
        3
    } else {
        4
    }
}

/// `String::push`.
#[verifier::external_body]
pub(crate) fn push_char(s: &mut String, c: char)
    ensures
        final(s)@ == old(s)@.push(c),
{
    s.push(c);
}

/// `s` truncated to its longest prefix that fits in `capacity` UTF-8 bytes:
/// `value.take(k)` where the first `k` characters fit and, unless `k` is the
/// whole string, the first `k + 1` do not.
pub open spec fn fits_prefix(value: Seq<char>, capacity: nat, result: Seq<char>) -> bool {
    &&& result.len() <= value.len()
    &&& result == value.take(result.len() as int)
    &&& utf8_len(result) <= capacity
    &&& result.len() < value.len() ==> utf8_len(value.take(result.len() + 1int)) > capacity
}

/// Copies characters of `value` while they fit in `capacity` UTF-8 bytes,
/// stopping at the first one that does not.
pub fn bounded_copy(value: &str, capacity: usize) -> (out: String)
    ensures
        fits_prefix(value@, capacity as nat, out@),
{
    let n = value.unicode_len();
    let mut out = String::new();
    let mut used: usize = 0;
    let mut i: usize = 0;
    while i < n
        invariant
            n == value@.len(),
            i <= n,
            out@ == value@.take(i as int),
            used == utf8_len(out@),
            used <= capacity,
        decreases n - i,
    {
        let c = value.get_char(i);
        let w = char_utf8_width(c);
        proof {
            assert(value@.take(i + 1) =~= out@.push(c));
            lemma_utf8_len_push(out@, c);
        }
        if w > capacity - used {
            return out;
        }
        push_char(&mut out, c);
        used = used + w;
        i = i + 1;
    }
    assert(value@.take(n as int) =~= value@);
    out
}

/// The decimal digit character for `d < 10`.
pub open spec fn digit_char(d: nat) -> char {
    ((d + 48) as u32) as char
}

/// The decimal rendering of `n`, most significant digit first, without
/// leading zeros.
pub open spec fn decimal(n: nat) -> Seq<char>
    decreases n,
{
    if n < 10 {
        seq![digit_char(n)]
    } else {
        decimal(n / 10).push(digit_char(n % 10))
    }
}

/// Appends the decimal rendering of `n` to `s`.
pub fn push_decimal(s: &mut String, n: u64)
    ensures
        final(s)@ == old(s)@ + decimal(n as nat),
    decreases n,
{
    if n >= 10 {
        push_decimal(s, n / 10);
    }
    let d = (n % 10) as u8;
    let ch = (d + 48) as char;
    push_char(s, ch);
    assert(final(s)@ =~= old(s)@ + decimal(n as nat));
}

/// Appends `t` to `s`.
pub fn push_str(s: &mut String, t: &str)
    ensures
        final(s)@ == old(s)@ + t@,
{
    s.append(t);
}

} // verus!
