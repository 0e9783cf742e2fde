//! The value grammar: literal values appearing on the right-hand side of a
//! field option.  Two literal forms are supported: decimal integers in the
//! range of `i64` (with an optional leading minus sign), and double-quoted
//! strings without escape processing (every byte up to the next quote is
//! taken verbatim).

use vstd::prelude::*;

use crate::common::ErrV;
use crate::common::ErrorKind;
use crate::common::ParseError;
use crate::common::byte_at;
use crate::common::copy_bytes;
use crate::common::err_at;
use crate::common::is_digit;
use crate::common::make_err;

verus! {

/// A literal value: structural equality, immutable once parsed.
#[derive(Debug, PartialEq, Eq)]
pub enum Value {
    /// A decimal integer literal in the range of `i64`.
    Integer(i64),
    /// A double-quoted string literal, its bytes taken verbatim.
    String(Vec<u8>),
}

/// Mathematical model of a `Value`.
pub enum ValueV {
    Integer(int),
    String(Seq<u8>),
}

impl DeepView for Value {
    type V = ValueV;

    open spec fn deep_view(&self) -> ValueV {
        match self {
            Value::Integer(n) => ValueV::Integer(*n as int),
            Value::String(b) => ValueV::String(b@),
        }
    }
}

/// Length of the run of non-quote bytes starting at `i`.
pub open spec fn str_len(s: Seq<u8>, i: int) -> nat
    decreases crate::common::input_left(s, i),
{
    if 0 <= i && i < s.len() && s[i] != 34 {
        str_len(s, i + 1) + 1
    } else {
        0
    }
}

/// Length of the run of decimal digits starting at `i`.
pub open spec fn digits_len(s: Seq<u8>, i: int) -> nat
    decreases crate::common::input_left(s, i),
{
    if 0 <= i && i < s.len() && is_digit(s[i]) {
        digits_len(s, i + 1) + 1
    } else {
        0
    }
}

/// Length of the run of `'0'` bytes starting at `i`.
pub open spec fn zeros_len(s: Seq<u8>, i: int) -> nat
    decreases crate::common::input_left(s, i),
{
    if 0 <= i && i < s.len() && s[i] == 48 {
        zeros_len(s, i + 1) + 1
    } else {
        0
    }
}

/// The number denoted by the digit bytes of `s` in `[a, b)`.
pub open spec fn digits_val(s: Seq<u8>, a: int, b: int) -> int
    decreases b - a,
{
    if 0 <= a && a < b && b <= s.len() {
        digits_val(s, a, b - 1) * 10 + (s[b - 1] - 48)
    } else {
        0
    }
}

/// Ten to the `n`.
pub open spec fn pow10(n: nat) -> int
    decreases n,
{
    if n == 0 {
        1
    } else {
        10 * pow10((n - 1) as nat)
    }
}

/// What parsing a literal value at `i` yields.  A quote opens a string
/// literal, which commits: a missing closing quote is a fatal failure at the
/// end of input.  Otherwise a decimal integer (optional minus sign, then
/// digits) is recognized; a literal whose value lies outside `i64`, or whose
/// significant digits number more than 19 (all such values lie outside
/// `i64`), is rejected with `InvalidValue`.  Anything else fails recoverably
/// with `InvalidValue` at `i`.
pub open spec fn spec_value(s: Seq<u8>, i: int) -> Result<(nat, ValueV), ErrV> {
    if 0 <= i && i < s.len() && s[i] == 34 {
        let j = i + 1 + str_len(s, i + 1);
        if j < s.len() {
            Ok(((j + 1 - i) as nat, ValueV::String(s.subrange(i + 1, j))))
        } else {
            Err(err_at(s, s.len() as int, ErrorKind::ExpectedChar(34), true, None))
        }
    } else {
        let d0 = if 0 <= i && i < s.len() && s[i] == 45 {
            i + 1
        } else {
            i
        };
        if 0 <= i && d0 < s.len() && is_digit(s[d0]) {
            let e = d0 + digits_len(s, d0);
            let k = d0 + zeros_len(s, d0);
            let m = digits_val(s, k, e);
            let v = if s[i] == 45 {
                -m
            } else {
                m
            };
            if e - k > 19 || v < -9223372036854775808 || v > 9223372036854775807 {
                Err(err_at(s, i, ErrorKind::InvalidValue, false, None))
            } else {
                Ok(((e - i) as nat, ValueV::Integer(v)))
            }
        } else {
            Err(err_at(s, i, ErrorKind::InvalidValue, false, None))
        }
    }
}

/// A successful value parse consumes at least one byte and stays inside the
/// buffer.
pub proof fn lemma_value_consumed(s: Seq<u8>, i: int)
    requires
        0 <= i <= s.len(),
    ensures
        match spec_value(s, i) {
            Ok((c, _)) => 1 <= c && i + c <= s.len(),
            Err(_) => true,
        },
{
    if i < s.len() && s[i] == 34 {
        lemma_str_len_le(s, i + 1);
    } else {
        let d0 = if i < s.len() && s[i] == 45 {
            i + 1
        } else {
            i
        };
        if d0 < s.len() && is_digit(s[d0]) {
            lemma_digits_len_le(s, d0);
        }
    }
}

/// The non-quote run starting at a valid position stays inside the buffer.
pub proof fn lemma_str_len_le(s: Seq<u8>, i: int)
    requires
        0 <= i <= s.len(),
    ensures
        i + str_len(s, i) <= s.len(),
    decreases s.len() - i,
{
    if i < s.len() && s[i] != 34 {
        lemma_str_len_le(s, i + 1);
    }
}

/// The digit run starting at a valid position stays inside the buffer.
pub proof fn lemma_digits_len_le(s: Seq<u8>, i: int)
    requires
        0 <= i <= s.len(),
    ensures
        i + digits_len(s, i) <= s.len(),
    decreases s.len() - i,
{
    if i < s.len() && is_digit(s[i]) {
        lemma_digits_len_le(s, i + 1);
    }
}

/// Every byte of the digit run is a digit.
pub proof fn lemma_digits_run(s: Seq<u8>, i: int)
    requires
        0 <= i <= s.len(),
    ensures
        forall|k: int| i <= k < i + digits_len(s, i) ==> is_digit(s[k]),
    decreases s.len() - i,
{
    if i < s.len() && is_digit(s[i]) {
        lemma_digits_run(s, i + 1);
    }
}

/// A run of zeros is a prefix of the digit run starting at the same place.
pub proof fn lemma_zeros_le_digits(s: Seq<u8>, i: int)
    requires
        0 <= i <= s.len(),
    ensures
        zeros_len(s, i) <= digits_len(s, i),
    decreases s.len() - i,
{
    if i < s.len() && s[i] == 48 {
        lemma_zeros_le_digits(s, i + 1);
    }
}

/// Ten to the power is monotone in the exponent.
pub proof fn lemma_pow10_le(a: nat, b: nat)
    requires
        a <= b,
    ensures
        pow10(a) <= pow10(b),
        pow10(a) >= 1,
    decreases b,
{
    if a == b {
        lemma_pow10_value(a);
    } else {
        lemma_pow10_le(a, (b - 1) as nat);
    }
}

/// Ten to the power is at least one.
pub proof fn lemma_pow10_value(n: nat)
    ensures
        pow10(n) >= 1,
    decreases n,
{
    if n > 0 {
        lemma_pow10_value((n - 1) as nat);
    }
}

/// True when position `i` is inside the buffer and holds a byte other than a
/// double quote.
fn at_str_byte(input: &[u8], i: usize) -> (r: bool)
    requires
        i <= input@.len(),
    ensures
        r == (i < input@.len() && input@[i as int] != 34),
{
    if i < input.len() {
        byte_at(input, i) != 34
    } else {
        false
    }
}

/// True when position `i` is inside the buffer and holds a decimal digit.
fn at_digit(input: &[u8], i: usize) -> (r: bool)
    requires
        i <= input@.len(),
    ensures
        r == (i < input@.len() && is_digit(input@[i as int])),
{
    if i < input.len() {
        let c = byte_at(input, i);
        48 <= c && c <= 57
    } else {
        false
    }
}

/// True when position `i` is inside the buffer and holds the byte `'0'`.
fn at_zero(input: &[u8], i: usize) -> (r: bool)
    requires
        i <= input@.len(),
    ensures
        r == (i < input@.len() && input@[i as int] == 48),
{
    if i < input.len() {
        byte_at(input, i) == 48
    } else {
        false
    }
}

/// Scans the run of non-quote bytes starting at `pos`.
fn scan_str(input: &[u8], pos: usize) -> (r: usize)
    requires
        pos <= input@.len(),
    ensures
        r == pos + str_len(input@, pos as int),
        pos <= r <= input@.len(),
{
    let n = input.len();
    let mut cur: usize = pos;
    while at_str_byte(input, cur)
        invariant
            n == input@.len(),
            pos <= cur <= input@.len(),
            pos + str_len(input@, pos as int) == cur + str_len(input@, cur as int),
        decreases input@.len() - cur,
    {
        cur = cur + 1;
    }
    cur
}

/// Scans the run of decimal digits starting at `pos`.
fn scan_digits(input: &[u8], pos: usize) -> (r: usize)
    requires
        pos <= input@.len(),
    ensures
        r == pos + digits_len(input@, pos as int),
        pos <= r <= input@.len(),
{
    let n = input.len();
    let mut cur: usize = pos;
    while at_digit(input, cur)
        invariant
            n == input@.len(),
            pos <= cur <= input@.len(),
            pos + digits_len(input@, pos as int) == cur + digits_len(input@, cur as int),
        decreases input@.len() - cur,
    {
        cur = cur + 1;
    }
    cur
}

/// Scans the run of `'0'` bytes starting at `pos`.
fn scan_zeros(input: &[u8], pos: usize) -> (r: usize)
    requires
        pos <= input@.len(),
    ensures
        r == pos + zeros_len(input@, pos as int),
        pos <= r <= input@.len(),
{
    let n = input.len();
    let mut cur: usize = pos;
    while at_zero(input, cur)
        invariant
            n == input@.len(),
            pos <= cur <= input@.len(),
            pos + zeros_len(input@, pos as int) == cur + zeros_len(input@, cur as int),
        decreases input@.len() - cur,
    {
        cur = cur + 1;
    }
    cur
}

/// Parses a literal value at `pos`: a decimal integer or a double-quoted
/// string, exactly as `spec_value` lays down.
pub fn parse_value(input: &[u8], pos: usize) -> (r: Result<(usize, Value), ParseError>)
    requires
        pos <= input@.len(),
        input@.len() < usize::MAX,
    ensures
        match (r, spec_value(input@, pos as int)) {
            (Ok((end, v)), Ok((c, sv))) => end == pos + c && v.deep_view() == sv,
            (Err(e), Err(se)) => e@ == se,
            _ => false,
        },
        match r {
            Ok((end, _)) => end <= input@.len(),
            Err(_) => true,
        },
{
    if pos < input.len() && byte_at(input, pos) == 34 {
        let j = scan_str(input, pos + 1);
        if j < input.len() {
            let text = copy_bytes(input, pos + 1, j);
            Ok((j + 1, Value::String(text)))
        } else {
            Err(make_err(input, input.len(), ErrorKind::ExpectedChar(34), true, None))
        }
    } else {
        let neg = pos < input.len() && byte_at(input, pos) == 45;
        let d0 = if neg {
            pos + 1
        } else {
            pos
        };
        if d0 < input.len() && at_digit(input, d0) {
            let e = scan_digits(input, d0);
            let k = scan_zeros(input, d0);
            proof {
                lemma_zeros_le_digits(input@, d0 as int);
                lemma_digits_run(input@, d0 as int);
            }
            if e - k > 19 {
                return Err(make_err(input, pos, ErrorKind::InvalidValue, false, None));
            }
            let mut t: usize = k;
            let mut n: i128 = 0;
            proof {
                lemma_pow10_value(0);
            }
            while t < e
                invariant
                    k <= t <= e <= input@.len(),
                    e - k <= 19,
                    forall|q: int| k <= q < e ==> is_digit(input@[q]),
                    n == digits_val(input@, k as int, t as int),
                    0 <= n < pow10((t - k) as nat),
                decreases e - t,
            {
                proof {
                    lemma_pow10_le((t - k + 1) as nat, 19nat);
                    lemma_pow10_concrete();
                }
                let d = byte_at(input, t);
                n = n * 10 + ((d - 48) as i128);
                t = t + 1;
            }
            proof {
                lemma_pow10_le((e - k) as nat, 19nat);
                lemma_pow10_concrete();
            }
            let v: i128 = if neg {
                -n
            } else {
                n
            };
            if v < -9223372036854775808i128 || v > 9223372036854775807i128 {
                Err(make_err(input, pos, ErrorKind::InvalidValue, false, None))
            } else {
                Ok((e, Value::Integer(v as i64)))
            }
        } else {
            Err(make_err(input, pos, ErrorKind::InvalidValue, false, None))
        }
    }
}

/// Ten to the nineteenth, written out: the bound under which a digit run is
/// accumulated without overflowing the accumulator.
pub proof fn lemma_pow10_concrete()
    ensures
        pow10(19) == 10000000000000000000,
{
    reveal_with_fuel(pow10, 21);
}

} // verus!
