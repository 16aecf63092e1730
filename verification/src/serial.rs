//! Serial port naming: on Windows, ports COM10 and above must be opened
//! through the `\\.\` device namespace; other systems take names as they
//! are.

use vstd::prelude::*;
use crate::text::{push_char, push_str};

verus! {

/// `c` is one of `0` to `9`.
pub open spec fn is_ascii_digit(c: char) -> bool {
    '0' <= c && c <= '9'
}

/// The value of a run of decimal digits.
pub open spec fn digits_value(s: Seq<char>) -> nat
    decreases s.len(),
{
    if s.len() == 0 {
        0
    } else {
        digits_value(s.drop_last()) * 10 + ((s.last() as u32) - 48) as nat
    }
}

/// `s` without its leading `+`, if any.
pub open spec fn unsigned_digits(s: Seq<char>) -> Seq<char> {
    if s.len() > 0 && s[0] == '+' {
        s.drop_first()
    } else {
        s
    }
}

/// What `str::parse::<u32>` gives: the value of an optional `+` followed
/// by at least one ASCII digit, when it fits in `u32`; `None` otherwise.
pub open spec fn parse_u32(s: Seq<char>) -> Option<nat> {
    let digits = unsigned_digits(s);
    if digits.len() == 0 || exists|i: int| 0 <= i < digits.len() && !is_ascii_digit(#[trigger] digits[i]) {
        None
    } else if digits_value(digits) > u32::MAX {
        None
    } else {
        Some(digits_value(digits))
    }
}

/// The first three characters spell `COM` in any letter case.
pub open spec fn has_com_prefix(s: Seq<char>) -> bool {
    &&& s.len() >= 3
    &&& (s[0] == 'C' || s[0] == 'c')
    &&& (s[1] == 'O' || s[1] == 'o')
    &&& (s[2] == 'M' || s[2] == 'm')
}

/// `COM<n>` (any letter case) with a number of at least 10.
pub open spec fn needs_device_path(name: Seq<char>) -> bool {
    has_com_prefix(name) && (parse_u32(name.skip(3)) matches Some(n) && n >= 10)
}

/// The Windows device namespace prefix `\\.\`.
pub open spec fn device_prefix() -> Seq<char> {
    seq!['\\', '\\', '.', '\\']
}

/// The operating system a port is opened on.
#[derive(Clone, Copy, Debug, PartialEq, Eq, Structural)]
pub enum HostOs {
    Windows,
    Other,
}

/// The name to open a port by on Windows.
pub open spec fn normalized_name(name: Seq<char>) -> Seq<char> {
    if needs_device_path(name) {
        device_prefix() + name
    } else {
        name
    }
}

/// One more digit multiplies the value by ten and adds the digit.
pub proof fn lemma_digits_value_push(s: Seq<char>, c: char)
    ensures
        digits_value(s.push(c)) == digits_value(s) * 10 + ((c as u32) - 48) as nat,
{
    assert(s.push(c).drop_last() =~= s);
}

/// Whether `s` parses as a `u32` of at least 10.
pub fn parses_at_least_ten(s: &str) -> (b: bool)
    ensures
        b == (parse_u32(s@) matches Some(n) && n >= 10),
{
    let n = s.unicode_len();
    let mut start: usize = 0;
    if n > 0 && s.get_char(0) == '+' {
        start = 1;
    }
    let ghost digits = unsigned_digits(s@);
    assert(digits =~= s@.skip(start as int));
    if start == n {
        return false;
    }
    let mut value: u64 = 0;
    let mut i: usize = start;
    while i < n
        invariant
            n == s@.len(),
            start <= i <= n,
            digits == unsigned_digits(s@),
            digits =~= s@.skip(start as int),
            forall|j: int| 0 <= j < i - start ==> is_ascii_digit(#[trigger] digits[j]),
            value == digits_value(digits.take(i - start)),
            value <= u32::MAX,
        decreases n - i,
    {
        let c = s.get_char(i);
        assert(c == digits[i - start]);
        if !(c >= '0' && c <= '9') {
            assert(!is_ascii_digit(digits[i - start]));
            assert(exists|j: int| 0 <= j < digits.len() && !is_ascii_digit(#[trigger] digits[j]));
            assert(parse_u32(s@) == None::<nat>);
            return false;
        }
        proof {
            assert(digits.take(i - start + 1) =~= digits.take(i - start).push(c));
            lemma_digits_value_push(digits.take(i - start), c);
        }
        let d = (c as u32 - 48) as u64;
        value = value * 10 + d;
        if value > 0xFFFF_FFFF {
            proof {
                if forall|j: int| 0 <= j < digits.len() ==> is_ascii_digit(#[trigger] digits[j]) {
                    lemma_digits_value_grows(digits, i - start + 1);
                    assert(digits_value(digits) > u32::MAX);
                } else {
                    let j = choose|j: int| 0 <= j < digits.len() && !is_ascii_digit(#[trigger] digits[j]);
                    assert(!is_ascii_digit(digits[j]));
                }
                assert(parse_u32(s@) == None::<nat>);
            }
            return false;
        }
        i = i + 1;
    }
    assert(digits.take(n - start) =~= digits);
    value >= 10
}

/// Once a prefix of a digit run exceeds a bound, so does the whole run.
pub proof fn lemma_digits_value_grows(digits: Seq<char>, k: int)
    requires
        0 <= k <= digits.len(),
        forall|j: int| 0 <= j < digits.len() ==> is_ascii_digit(#[trigger] digits[j]),
    ensures
        digits_value(digits.take(k)) <= digits_value(digits),
    decreases digits.len() - k,
{
    if k < digits.len() {
        lemma_digits_value_grows(digits, k + 1);
        let t = digits.take(k + 1);
        assert(t.drop_last() =~= digits.take(k));
        assert(is_ascii_digit(t.last()));
    } else {
        assert(digits.take(k) =~= digits);
    }
}

/// The name a port is opened by: on Windows `\\.\COM<n>` for `n >= 10`;
/// otherwise, and on other systems, the name unchanged.
pub fn normalize_serial_port_name(port_name: &str, os: HostOs) -> (name: String)
    ensures
        name@ == match os {
            HostOs::Windows => normalized_name(port_name@),
            HostOs::Other => port_name@,
        },
{
    let n = port_name.unicode_len();
    if os == HostOs::Windows && n >= 3 {
        let c0 = port_name.get_char(0);
        let c1 = port_name.get_char(1);
        let c2 = port_name.get_char(2);
        if (c0 == 'C' || c0 == 'c') && (c1 == 'O' || c1 == 'o') && (c2 == 'M' || c2 == 'm') {
            let suffix = port_name.substring_char(3, n);
            assert(suffix@ =~= port_name@.skip(3));
            if parses_at_least_ten(suffix) {
                let mut out = String::new();
                push_str(&mut out, "\\\\.\\");
                proof {
                    reveal_strlit("\\\\.\\");
                }
                assert(out@ =~= device_prefix());
                push_str(&mut out, port_name);
                return out;
            }
        }
    }
    let mut out = String::new();
    push_str(&mut out, port_name);
    assert(out@ =~= port_name@);
    out
}

/// The names to try when opening `port_name`: the name itself, then, on
/// Windows, its device-namespace form when that differs.
pub fn candidate_names(port_name: &str, os: HostOs) -> (names: Vec<String>)
    ensures
        names@.len() == if os == HostOs::Windows && needs_device_path(port_name@) {
            2int
        } else {
            1int
        },
        names@[0]@ == port_name@,
        os == HostOs::Windows && needs_device_path(port_name@) ==> names@[1]@ == device_prefix()
            + port_name@,
{
    let mut first = String::new();
    push_str(&mut first, port_name);
    assert(first@ =~= port_name@);
    let mut out: Vec<String> = Vec::new();
    out.push(first);
    let normalized = normalize_serial_port_name(port_name, os);
    let n = port_name.unicode_len();
    let differs = normalized.unicode_len() != n;
    proof {
        if os == HostOs::Windows && needs_device_path(port_name@) {
            assert(normalized@.len() == port_name@.len() + 4);
        }
    }
    if differs {
        out.push(normalized);
    }
    out
}

/// `s` with every single quote doubled, as a single-quoted PowerShell
/// string needs it.
pub open spec fn quotes_doubled(s: Seq<char>) -> Seq<char>
    decreases s.len(),
{
    if s.len() == 0 {
        Seq::empty()
    } else {
        quotes_doubled(s.drop_last()) + if s.last() == '\'' {
            seq!['\'', '\'']
        } else {
            seq![s.last()]
        }
    }
}

/// `s` ready to stand between single quotes in a PowerShell script: every
/// single quote doubled.
pub fn powershell_quoted(s: &str) -> (out: String)
    ensures
        out@ == quotes_doubled(s@),
{
    let n = s.unicode_len();
    let mut out = String::new();
    let mut i: usize = 0;
    while i < n
        invariant
            n == s@.len(),
            i <= n,
            out@ == quotes_doubled(s@.take(i as int)),
        decreases n - i,
    {
        let c = s.get_char(i);
        assert(s@.take(i + 1).drop_last() =~= s@.take(i as int));
        if c == '\'' {
            push_char(&mut out, '\'');
            push_char(&mut out, '\'');
        } else {
            push_char(&mut out, c);
        }
        i = i + 1;
        assert(out@ =~= quotes_doubled(s@.take(i as int)));
    }
    assert(s@.take(n as int) =~= s@);
    out
}

} // verus!
