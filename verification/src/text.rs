//! Text helpers: comparing a string with a literal, decimal and hex
//! digits.
use vstd::prelude::*;
use vstd::string::StrSliceExecFns;

verus! {

/// Whether two strings hold the same characters.
pub fn str_eq(a: &str, b: &str) -> (r: bool)
    ensures
        r == (a@ == b@),
{
    let n = a.unicode_len();
    if n != b.unicode_len() {
        return false;
    }
    let mut i: usize = 0;
    while i < n
        invariant
            n == a@.len(),
            n == b@.len(),
            0 <= i <= n,
            forall|j: int| 0 <= j < i ==> a@[j] == b@[j],
        decreases n - i,
    {
        if a.get_char(i) != b.get_char(i) {
            return false;
        }
        i = i + 1;
    }
    assert(a@ =~= b@);
    true
}

/// `String::push`: appends one character. Claimed: the string afterwards
/// is the string before followed by `c`.
#[verifier::external_body]
pub(crate) fn push_char(s: &mut String, c: char)
    ensures
        final(s)@ == old(s)@.push(c),
{
    s.push(c);
}

/// Appends the characters of `t`.
pub fn push_str(s: &mut String, t: &str)
    ensures
        final(s)@ == old(s)@ + t@,
{
    let n = t.unicode_len();
    let mut i: usize = 0;
    while i < n
        invariant
            n == t@.len(),
            0 <= i <= n,
            s@ == old(s)@ + t@.subrange(0, i as int),
        decreases n - i,
    {
        push_char(s, t.get_char(i));
        i = i + 1;
        proof {
            assert(t@.subrange(0, i as int) =~= t@.subrange(0, i - 1).push(t@[i - 1]));
        }
    }
    assert(t@.subrange(0, n as int) =~= t@);
}

/// The character of a digit below 16 (lower-case for 10 to 15).
pub open spec fn digit_char(d: int) -> char {
    if d < 10 {
        (0x30 + d) as char
    } else {
        (0x61 + d - 10) as char
    }
}

fn digit(d: u64) -> (c: char)
    requires
        d < 16,
    ensures
        c == digit_char(d as int),
{
    if d < 10 {
        ((0x30 + d) as u8) as char
    } else {
        ((0x61 + d - 10) as u8) as char
    }
}

/// The decimal digits of `n`, without leading zeros ("0" for zero).
pub open spec fn decimal(n: nat) -> Seq<char>
    decreases n,
{
    if n < 10 {
        seq![digit_char(n as int)]
    } else {
        decimal(n / 10).push(digit_char((n % 10) as int))
    }
}

/// The last `width` lower-case hex digits of `n`, zero-padded.
pub open spec fn hex_fixed(n: nat, width: nat) -> Seq<char>
    decreases width,
{
    if width == 0 {
        Seq::empty()
    } else {
        hex_fixed(n / 16, (width - 1) as nat).push(digit_char((n % 16) as int))
    }
}

/// Appends the decimal digits of `n`.
pub fn push_decimal(s: &mut String, n: u64)
    ensures
        final(s)@ == old(s)@ + decimal(n as nat),
    decreases n,
{
    if n >= 10 {
        push_decimal(s, n / 10);
    }
    push_char(s, digit(n % 10));
    proof {
        if n < 10 {
            assert(decimal(n as nat) =~= seq![digit_char(n as int)]);
        }
    }
}

/// Appends the last `width` hex digits of `n`, zero-padded.
pub fn push_hex(s: &mut String, n: u64, width: u32)
    ensures
        final(s)@ == old(s)@ + hex_fixed(n as nat, width as nat),
    decreases width,
{
    if width > 0 {
        push_hex(s, n / 16, width - 1);
        push_char(s, digit(n % 16));
    } else {
        assert(hex_fixed(n as nat, 0) =~= Seq::<char>::empty());
    }
}

} // verus!
