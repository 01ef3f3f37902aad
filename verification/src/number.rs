//! Reading unsigned 32-bit numbers from command-line text, in decimal or
//! (after "0x") in hex, with the digit rules and error messages of the
//! standard library's integer parsing.
use vstd::prelude::*;
use vstd::string::StrSliceExecFns;

verus! {

/// Why a number could not be read.
#[derive(Clone, Copy, Debug, PartialEq, Eq)]
pub enum NumberError {
    /// There was no text.
    Empty,
    /// A character is not a digit of the radix.
    InvalidDigit,
    /// The value does not fit in 32 bits.
    Overflow,
}

/// The message each failure is reported with.
pub open spec fn number_error_text(e: NumberError) -> Seq<char> {
    match e {
        NumberError::Empty => "cannot parse integer from empty string"@,
        NumberError::InvalidDigit => "invalid digit found in string"@,
        NumberError::Overflow => "number too large to fit in target type"@,
    }
}

/// The message each failure is reported with.
pub fn number_error_message(e: NumberError) -> (s: String)
    ensures
        s@ == number_error_text(e),
{
    match e {
        NumberError::Empty => String::from_str("cannot parse integer from empty string"),
        NumberError::InvalidDigit => String::from_str("invalid digit found in string"),
        NumberError::Overflow => String::from_str("number too large to fit in target type"),
    }
}

/// The value of a digit character: 0 to 9 for '0' to '9', 10 to 35 for
/// the letters of either case; 36 for anything else.
pub open spec fn digit_value(c: char) -> int {
    if '0' <= c && c <= '9' {
        c as int - '0' as int
    } else if 'a' <= c && c <= 'z' {
        c as int - 'a' as int + 10
    } else if 'A' <= c && c <= 'Z' {
        c as int - 'A' as int + 10
    } else {
        36
    }
}

/// Reads the first `n` digits of `d` left to right, failing at the first
/// character that is not a digit of the radix or at the first digit that
/// takes the value past `u32::MAX`.
pub open spec fn scan_digits(d: Seq<char>, radix: int, n: nat) -> Result<int, NumberError>
    decreases n,
{
    if n == 0 {
        Ok(0)
    } else {
        match scan_digits(d, radix, (n - 1) as nat) {
            Err(e) => Err(e),
            Ok(v) => {
                let c = digit_value(d[n - 1]);
                if c >= radix {
                    Err(NumberError::InvalidDigit)
                } else if v * radix + c > u32::MAX {
                    Err(NumberError::Overflow)
                } else {
                    Ok(v * radix + c)
                }
            },
        }
    }
}

/// The number `s` spells in the radix: an optional '+' and then digits.
pub open spec fn read_radix(s: Seq<char>, radix: int) -> Result<u32, NumberError> {
    if s.len() == 0 {
        Err(NumberError::Empty)
    } else if s.len() == 1 && (s[0] == '+' || s[0] == '-') {
        Err(NumberError::InvalidDigit)
    } else {
        let d = if s[0] == '+' {
            s.drop_first()
        } else {
            s
        };
        match scan_digits(d, radix, d.len()) {
            Ok(v) => Ok(v as u32),
            Err(e) => Err(e),
        }
    }
}

proof fn lemma_scan_error_stays(d: Seq<char>, radix: int, k: nat, m: nat)
    requires
        k <= m,
        scan_digits(d, radix, k) is Err,
    ensures
        scan_digits(d, radix, m) == scan_digits(d, radix, k),
    decreases m - k,
{
    if k < m {
        lemma_scan_error_stays(d, radix, k, (m - 1) as nat);
    }
}

fn digit_of(c: char) -> (v: u32)
    ensures
        v == digit_value(c),
{
    if '0' <= c && c <= '9' {
        (c as u32) - ('0' as u32)
    } else if 'a' <= c && c <= 'z' {
        (c as u32) - ('a' as u32) + 10
    } else if 'A' <= c && c <= 'Z' {
        (c as u32) - ('A' as u32) + 10
    } else {
        36
    }
}

proof fn lemma_scan_bound(d: Seq<char>, radix: int, n: nat)
    ensures
        scan_digits(d, radix, n) matches Ok(v) ==> 0 <= v <= u32::MAX,
    decreases n,
{
    if n > 0 {
        lemma_scan_bound(d, radix, (n - 1) as nat);
    }
}

/// Reads a number in the given radix (2 to 36) as the standard library's
/// `u32::from_str_radix` does.
pub fn read_u32_radix(s: &str, radix: u32) -> (out: Result<u32, NumberError>)
    requires
        2 <= radix <= 36,
    ensures
        out == read_radix(s@, radix as int),
{
    let n = s.unicode_len();
    if n == 0 {
        return Err(NumberError::Empty);
    }
    let first = s.get_char(0);
    if n == 1 && (first == '+' || first == '-') {
        return Err(NumberError::InvalidDigit);
    }
    let start: usize = if first == '+' {
        1
    } else {
        0
    };
    let ghost d = if s@[0] == '+' {
        s@.drop_first()
    } else {
        s@
    };
    proof {
        if s@[0] == '+' {
            assert(d =~= s@.subrange(1, n as int));
        } else {
            assert(d =~= s@.subrange(0, n as int));
        }
    }
    let mut value: u32 = 0;
    let mut i: usize = start;
    while i < n
        invariant
            n == s@.len(),
            start <= i <= n,
            start == 0 || start == 1,
            d == s@.subrange(start as int, n as int),
            2 <= radix <= 36,
            d.len() == n - start,
            read_radix(s@, radix as int) == match scan_digits(d, radix as int, d.len()) {
                Ok(v) => Ok(v as u32),
                Err(e) => Err(e),
            },
            scan_digits(d, radix as int, (i - start) as nat) == Ok::<int, NumberError>(
                value as int,
            ),
        decreases n - i,
    {
        let c = digit_of(s.get_char(i));
        assert(d[i - start] == s@[i as int]);
        if c >= radix {
            proof {
                lemma_scan_error_stays(d, radix as int, (i - start + 1) as nat, d.len());
            }
            return Err(NumberError::InvalidDigit);
        }
        assert(value as u64 * radix as u64 <= 36 * 0xffff_ffffu64) by (nonlinear_arith)
            requires
                value <= 0xffff_ffffu32,
                radix <= 36,
        ;
        let wide = value as u64 * radix as u64 + c as u64;
        if wide > u32::MAX as u64 {
            proof {
                lemma_scan_error_stays(d, radix as int, (i - start + 1) as nat, d.len());
            }
            return Err(NumberError::Overflow);
        }
        value = wide as u32;
        i = i + 1;
    }
    proof {
        if s@[0] == '+' {
            assert(d =~= s@.subrange(1, n as int));
        } else {
            assert(d =~= s@.subrange(0, n as int));
        }
    }
    Ok(value)
}

/// The number a command-line value spells: hex after a "0x" prefix,
/// decimal otherwise.
pub open spec fn spec_parse_u32(s: Seq<char>) -> Result<u32, NumberError> {
    if s.len() >= 2 && s[0] == '0' && s[1] == 'x' {
        read_radix(s.subrange(2, s.len() as int), 16)
    } else {
        read_radix(s, 10)
    }
}

/// The number a command-line value spells: hex after a "0x" or "0X"
/// prefix, decimal otherwise.
pub open spec fn spec_parse_u32_either_prefix(s: Seq<char>) -> Result<u32, NumberError> {
    if s.len() >= 2 && s[0] == '0' && (s[1] == 'x' || s[1] == 'X') {
        read_radix(s.subrange(2, s.len() as int), 16)
    } else {
        read_radix(s, 10)
    }
}

/// The message of a failed read, or the number.
pub open spec fn with_message(r: Result<u32, NumberError>) -> Result<u32, Seq<char>> {
    match r {
        Ok(v) => Ok(v),
        Err(e) => Err(number_error_text(e)),
    }
}

/// The view of a result whose error is a `String`.
pub open spec fn result_view(r: Result<u32, String>) -> Result<u32, Seq<char>> {
    match r {
        Ok(v) => Ok(v),
        Err(e) => Err(e@),
    }
}

fn hex_prefix_len(value: &str, upper_too: bool) -> (k: usize)
    ensures
        k == (if value@.len() >= 2 && value@[0] == '0' && (value@[1] == 'x' || (upper_too
            && value@[1] == 'X')) {
            2usize
        } else {
            0usize
        }),
{
    let n = value.unicode_len();
    if n >= 2 && value.get_char(0) == '0' {
        let second = value.get_char(1);
        if second == 'x' || (upper_too && second == 'X') {
            return 2;
        }
    }
    0
}

fn finish(r: Result<u32, NumberError>) -> (out: Result<u32, String>)
    ensures
        result_view(out) == with_message(r),
{
    match r {
        Ok(v) => Ok(v),
        Err(e) => Err(number_error_message(e)),
    }
}

/// Reads a command-line number: hex after "0x", decimal otherwise.
pub fn parse_u32(value: &str) -> (out: Result<u32, String>)
    ensures
        result_view(out) == with_message(spec_parse_u32(value@)),
{
    let k = hex_prefix_len(value, false);
    if k == 2 {
        let n = value.unicode_len();
        let hex = value.substring_char(2, n);
        finish(read_u32_radix(hex, 16))
    } else {
        finish(read_u32_radix(value, 10))
    }
}

/// Reads a command-line number: hex after "0x" or "0X", decimal
/// otherwise.
pub fn parse_u32_either_prefix(value: &str) -> (out: Result<u32, String>)
    ensures
        result_view(out) == with_message(spec_parse_u32_either_prefix(value@)),
{
    let k = hex_prefix_len(value, true);
    if k == 2 {
        let n = value.unicode_len();
        let hex = value.substring_char(2, n);
        finish(read_u32_radix(hex, 16))
    } else {
        finish(read_u32_radix(value, 10))
    }
}

} // verus!

verus! {

proof fn lemma_scan_prefix(a: Seq<char>, b: Seq<char>, radix: int, n: nat)
    requires
        n <= a.len(),
        n <= b.len(),
        a.subrange(0, n as int) == b.subrange(0, n as int),
    ensures
        scan_digits(a, radix, n) == scan_digits(b, radix, n),
    decreases n,
{
    if n > 0 {
        assert(a[n - 1] == a.subrange(0, n as int)[n - 1]);
        assert(b[n - 1] == b.subrange(0, n as int)[n - 1]);
        assert(a.subrange(0, n - 1) =~= a.subrange(0, n as int).subrange(0, n - 1));
        assert(b.subrange(0, n - 1) =~= b.subrange(0, n as int).subrange(0, n - 1));
        lemma_scan_prefix(a, b, radix, (n - 1) as nat);
    }
}

proof fn lemma_scan_decimal(n: nat)
    requires
        n <= u32::MAX,
    ensures
        scan_digits(crate::text::decimal(n), 10, crate::text::decimal(n).len()) == Ok::<
            int,
            NumberError,
        >(n as int),
        crate::text::decimal(n).len() >= 1,
        crate::text::decimal(n)[0] != '+' && crate::text::decimal(n)[0] != '-',
    decreases n,
{
    let d = crate::text::decimal(n);
    if n < 10 {
        assert(d.len() == 1);
        assert(scan_digits(d, 10, 0) == Ok::<int, NumberError>(0));
    } else {
        let prev = crate::text::decimal(n / 10);
        lemma_scan_decimal(n / 10);
        assert(d == prev.push(crate::text::digit_char((n % 10) as int)));
        assert(d.subrange(0, prev.len() as int) =~= prev.subrange(0, prev.len() as int));
        lemma_scan_prefix(d, prev, 10, prev.len());
        assert(d[0] == prev[0]);
        assert((n / 10) * 10 + n % 10 == n);
    }
}

/// Reading back the decimal text of a 32-bit number gives the number.
pub proof fn lemma_parse_decimal_roundtrip(n: u32)
    ensures
        spec_parse_u32(crate::text::decimal(n as nat)) == Ok::<u32, NumberError>(n),
{
    let d = crate::text::decimal(n as nat);
    lemma_scan_decimal(n as nat);
    if d.len() >= 2 {
        assert(d[1] != 'x') by {
            lemma_decimal_chars(n as nat);
        }
    }
}

proof fn lemma_decimal_chars(n: nat)
    ensures
        forall|i: int| 0 <= i < crate::text::decimal(n).len() ==> '0' <= #[trigger] crate::text::decimal(n)[i] <= '9',
    decreases n,
{
    if n >= 10 {
        lemma_decimal_chars(n / 10);
        let prev = crate::text::decimal(n / 10);
        assert(crate::text::decimal(n) == prev.push(crate::text::digit_char((n % 10) as int)));
    }
}

} // verus!
