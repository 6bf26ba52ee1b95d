//! Numerals: how numbers are written out as text, and how they are read from it.

use vstd::prelude::*;
use vstd::string::*;

verus! {

/// The character that stands for the digit `d`.
pub open spec fn digit_char(d: int) -> char {
    seq!['0', '1', '2', '3', '4', '5', '6', '7', '8', '9'][d]
}

/// `n` in decimal, without sign or leading zeros.
pub open spec fn decimal(n: nat) -> Seq<char>
    decreases n,
{
    if n < 10 {
        seq![digit_char(n as int)]
    } else {
        decimal(n / 10).push(digit_char((n % 10) as int))
    }
}

/// `n` in decimal, with zeros in front up to `width` characters.
pub open spec fn zero_padded(n: nat, width: nat) -> Seq<char>
    decreases width,
{
    if width <= decimal(n).len() {
        decimal(n)
    } else {
        seq!['0'] + zero_padded(n, (width - 1) as nat)
    }
}

fn digit_text(d: u8) -> (s: &'static str)
    requires
        d < 10,
    ensures
        s@ == seq![digit_char(d as int)],
{
    proof {
        reveal_strlit("0");
        reveal_strlit("1");
        reveal_strlit("2");
        reveal_strlit("3");
        reveal_strlit("4");
        reveal_strlit("5");
        reveal_strlit("6");
        reveal_strlit("7");
        reveal_strlit("8");
        reveal_strlit("9");
    }
    let s = match d {
        0 => "0",
        1 => "1",
        2 => "2",
        3 => "3",
        4 => "4",
        5 => "5",
        6 => "6",
        7 => "7",
        8 => "8",
        _ => "9",
    };
    assert(s@ =~= seq![digit_char(d as int)]);
    s
}

/// Writes `n` in decimal.
pub fn render_decimal(n: u64) -> (s: String)
    ensures
        s@ == decimal(n as nat),
    decreases n,
{
    if n < 10 {
        String::from_str(digit_text(n as u8))
    } else {
        let mut s = render_decimal(n / 10);
        s.append(digit_text((n % 10) as u8));
        assert(s@ =~= decimal(n as nat));
        s
    }
}

/// Writes `n` in decimal, at least `width` characters wide, filled with zeros.
pub fn render_zero_padded(n: u64, width: usize) -> (s: String)
    ensures
        s@ == zero_padded(n as nat, width as nat),
{
    let digits = render_decimal(n);
    let len = digits.as_str().unicode_len();
    let mut s = String::new();
    let mut w: usize = width;
    while w > len
        invariant
            len == decimal(n as nat).len(),
            zero_padded(n as nat, width as nat) == s@ + zero_padded(n as nat, w as nat),
        decreases w,
    {
        proof {
            reveal_strlit("0");
            assert(s@ + (seq!['0'] + zero_padded(n as nat, (w - 1) as nat)) =~= (s@ + "0"@)
                + zero_padded(n as nat, (w - 1) as nat));
        }
        s.append("0");
        w = w - 1;
    }
    s.append(digits.as_str());
    s
}

/// The value of one digit: decimal, or hexadecimal in either case of the letters.
pub open spec fn digit_of(b: u8, hex: bool) -> Option<int> {
    if 0x30 <= b <= 0x39 {
        Some(b - 0x30)
    } else if hex && 0x61 <= b <= 0x66 {
        Some(b - 0x61 + 10)
    } else if hex && 0x41 <= b <= 0x46 {
        Some(b - 0x41 + 10)
    } else {
        None
    }
}

/// The base that the digits count in.
pub open spec fn radix(hex: bool) -> int {
    if hex {
        16
    } else {
        10
    }
}

/// The number that a run of digits writes; `None` for an empty run and for
/// one that holds anything but digits.
pub open spec fn digits_value(s: Seq<u8>, hex: bool) -> Option<int>
    decreases s.len(),
{
    if s.len() == 0 {
        None
    } else if s.len() == 1 {
        digit_of(s[0], hex)
    } else {
        match (digits_value(s.drop_last(), hex), digit_of(s.last(), hex)) {
            (Some(high), Some(low)) => Some(high * radix(hex) + low),
            _ => None,
        }
    }
}

/// The number that a numeral writes: digits behind an optional `+`, or, where
/// `signed`, an optional `-`.
pub open spec fn numeral_value(s: Seq<u8>, hex: bool, signed: bool) -> Option<int> {
    if s.len() > 0 && s[0] == 0x2b {
        digits_value(s.skip(1), hex)
    } else if signed && s.len() > 0 && s[0] == 0x2d {
        match digits_value(s.skip(1), hex) {
            Some(v) => Some(-v),
            None => None,
        }
    } else {
        digits_value(s, hex)
    }
}

/// The number that a numeral writes, if it lies from `lo` to `hi`.
pub open spec fn numeral_within(s: Seq<u8>, hex: bool, signed: bool, lo: int, hi: int) -> Option<
    int,
> {
    match numeral_value(s, hex, signed) {
        Some(v) if lo <= v <= hi => Some(v),
        _ => None,
    }
}

/// The number in a field of a record: a decimal numeral, or behind `0x` a
/// hexadecimal one.
pub open spec fn integer_field(s: Seq<u8>, signed: bool, lo: int, hi: int) -> Option<int> {
    if s.len() >= 2 && s[0] == 0x30 && s[1] == 0x78 {
        numeral_within(s.skip(2), true, signed, lo, hi)
    } else {
        numeral_within(s, false, signed, lo, hi)
    }
}

/// Digits write no negative number.
pub proof fn lemma_digits_nonnegative(s: Seq<u8>, hex: bool)
    ensures
        digits_value(s, hex) matches Some(v) ==> v >= 0,
    decreases s.len(),
{
    if s.len() > 1 {
        lemma_digits_nonnegative(s.drop_last(), hex);
        if let (Some(high), Some(low)) = (digits_value(s.drop_last(), hex), digit_of(s.last(), hex)) {
            assert(high * radix(hex) >= 0) by (nonlinear_arith)
                requires
                    high >= 0,
                    radix(hex) >= 10,
            ;
        }
    }
}

/// Where a run of digits writes a number, each of its beginnings writes one
/// that is no larger.
pub proof fn lemma_digits_prefix(s: Seq<u8>, hex: bool, k: int)
    requires
        1 <= k <= s.len(),
        digits_value(s, hex) is Some,
    ensures
        digits_value(s.take(k), hex) matches Some(p) && 0 <= p <= digits_value(s, hex).unwrap(),
    decreases s.len(),
{
    lemma_digits_nonnegative(s, hex);
    if k == s.len() {
        assert(s.take(k) =~= s);
    } else {
        lemma_digits_prefix(s.drop_last(), hex, k);
        assert(s.drop_last().take(k) =~= s.take(k));
        let high = digits_value(s.drop_last(), hex).unwrap();
        assert(high * radix(hex) >= high) by (nonlinear_arith)
            requires
                high >= 0,
                radix(hex) >= 10,
        ;
    }
}

fn digit(b: u8, hex: bool) -> (d: Option<i64>)
    ensures
        match d {
            Some(v) => digit_of(b, hex) == Some(v as int) && 0 <= v < radix(hex),
            None => digit_of(b, hex) is None,
        },
{
    if 0x30 <= b && b <= 0x39 {
        Some((b - 0x30) as i64)
    } else if hex && 0x61 <= b && b <= 0x66 {
        Some((b - 0x61 + 10) as i64)
    } else if hex && 0x41 <= b && b <= 0x46 {
        Some((b - 0x41 + 10) as i64)
    } else {
        None
    }
}

/// Reads the digits of `s` from `start` on, as long as they stay within `limit`.
fn read_digits(s: &[u8], start: usize, hex: bool, limit: i64) -> (value: Option<i64>)
    requires
        start <= s.len(),
        0 <= limit <= 0x1_0000_0000,
    ensures
        match value {
            Some(v) => digits_value(s@.skip(start as int), hex) == Some(v as int) && 0 <= v
                <= limit,
            None => digits_value(s@.skip(start as int), hex) matches Some(v) ==> v > limit,
        },
{
    let ghost run = s@.skip(start as int);
    if start == s.len() {
        return None;
    }
    let base: i64 = if hex {
        16
    } else {
        10
    };
    let mut acc: i64 = 0;
    let mut i: usize = start;
    while i < s.len()
        invariant
            start <= i <= s.len(),
            run == s@.skip(start as int),
            base == radix(hex),
            0 <= limit <= 0x1_0000_0000,
            0 <= acc <= limit,
            i > start ==> digits_value(run.take(i - start), hex) == Some(acc as int),
            i == start ==> acc == 0,
        decreases s.len() - i,
    {
        let ghost next = run.take(i + 1 - start);
        proof {
            assert(next.last() == s@[i as int]);
            assert(next.drop_last() =~= run.take(i - start));
        }
        match digit(s[i], hex) {
            None => {
                proof {
                    if digits_value(run, hex) is Some {
                        lemma_digits_prefix(run, hex, i + 1 - start);
                    }
                }
                return None;
            },
            Some(d) => {
                assert(acc * base + d <= 0x1_0000_0000 * 16 + 15) by (nonlinear_arith)
                    requires
                        0 <= acc <= 0x1_0000_0000,
                        10 <= base <= 16,
                        0 <= d < 16,
                ;
                assert(acc * base + d >= 0) by (nonlinear_arith)
                    requires
                        0 <= acc,
                        10 <= base,
                        0 <= d,
                ;
                let wider: i64 = acc * base + d;
                assert(digits_value(next, hex) == Some(wider as int));
                if wider > limit {
                    proof {
                        if digits_value(run, hex) is Some {
                            lemma_digits_prefix(run, hex, i + 1 - start);
                        }
                    }
                    return None;
                }
                acc = wider;
            },
        }
        i = i + 1;
    }
    proof {
        assert(run.take(i - start) =~= run);
    }
    Some(acc)
}

/// Reads a numeral whose value lies from `lo` to `hi`.
fn read_numeral(s: &[u8], start: usize, hex: bool, signed: bool, lo: i64, hi: i64) -> (value:
    Option<i64>)
    requires
        start <= s.len(),
        -0x1_0000_0000 <= lo <= 0 <= hi <= 0x1_0000_0000,
    ensures
        value matches Some(v) ==> lo <= v <= hi,
        match value {
            Some(v) => numeral_within(s@.skip(start as int), hex, signed, lo as int, hi as int)
                == Some(v as int),
            None => numeral_within(s@.skip(start as int), hex, signed, lo as int, hi as int)
                is None,
        },
{
    let ghost run = s@.skip(start as int);
    proof {
        if start < s.len() {
            assert(run.skip(1) =~= s@.skip(start + 1));
            assert(run[0] == s@[start as int]);
        }
        lemma_digits_nonnegative(run, hex);
        lemma_digits_nonnegative(run.skip(1), hex);
    }
    if start < s.len() && s[start] == 0x2b {
        read_digits(s, start + 1, hex, hi)
    } else if signed && start < s.len() && s[start] == 0x2d {
        match read_digits(s, start + 1, hex, -lo) {
            Some(v) => Some(-v),
            None => None,
        }
    } else {
        read_digits(s, start, hex, hi)
    }
}

/// Reads the number in a field of a record, if it lies from `lo` to `hi`.
fn read_integer_field(s: &[u8], signed: bool, lo: i64, hi: i64) -> (value: Option<i64>)
    requires
        -0x1_0000_0000 <= lo <= 0 <= hi <= 0x1_0000_0000,
    ensures
        value matches Some(v) ==> lo <= v <= hi,
        match value {
            Some(v) => integer_field(s@, signed, lo as int, hi as int) == Some(v as int),
            None => integer_field(s@, signed, lo as int, hi as int) is None,
        },
{
    proof {
        assert(s@.skip(0) =~= s@);
    }
    if s.len() >= 2 && s[0] == 0x30 && s[1] == 0x78 {
        read_numeral(s, 2, true, signed, lo, hi)
    } else {
        read_numeral(s, 0, false, signed, lo, hi)
    }
}

/// What a field holds as an `i32`.
pub open spec fn spec_i32_field(s: Seq<u8>) -> Option<i32> {
    match integer_field(s, true, i32::MIN as int, i32::MAX as int) {
        Some(v) => Some(v as i32),
        None => None,
    }
}

/// What a field holds as a `u16`.
pub open spec fn spec_u16_field(s: Seq<u8>) -> Option<u16> {
    match integer_field(s, false, 0, u16::MAX as int) {
        Some(v) => Some(v as u16),
        None => None,
    }
}

/// What a field holds as a `u32`.
pub open spec fn spec_u32_field(s: Seq<u8>) -> Option<u32> {
    match integer_field(s, false, 0, u32::MAX as int) {
        Some(v) => Some(v as u32),
        None => None,
    }
}

/// What a text holds as a `u16` written in decimal.
pub open spec fn spec_u16_decimal(s: Seq<u8>) -> Option<u16> {
    match numeral_within(s, false, false, 0, u16::MAX as int) {
        Some(v) => Some(v as u16),
        None => None,
    }
}

/// Reads a field as an `i32`: a numeral with an optional sign, in decimal or
/// behind `0x` in hexadecimal.
pub fn parse_i32_field(s: &[u8]) -> (value: Option<i32>)
    ensures
        value == spec_i32_field(s@),
{
    match read_integer_field(s, true, i32::MIN as i64, i32::MAX as i64) {
        Some(v) => Some(v as i32),
        None => None,
    }
}

/// Reads a field as a `u16`: a numeral with an optional `+`, in decimal or
/// behind `0x` in hexadecimal.
pub fn parse_u16_field(s: &[u8]) -> (value: Option<u16>)
    ensures
        value == spec_u16_field(s@),
{
    match read_integer_field(s, false, 0, u16::MAX as i64) {
        Some(v) => Some(v as u16),
        None => None,
    }
}

/// Reads a field as a `u32`: a numeral with an optional `+`, in decimal or
/// behind `0x` in hexadecimal.
pub fn parse_u32_field(s: &[u8]) -> (value: Option<u32>)
    ensures
        value == spec_u32_field(s@),
{
    match read_integer_field(s, false, 0, u32::MAX as i64) {
        Some(v) => Some(v as u32),
        None => None,
    }
}

/// Reads a text as a `u16` written in decimal, with an optional `+`.
pub fn parse_u16_decimal(s: &[u8]) -> (value: Option<u16>)
    ensures
        value == spec_u16_decimal(s@),
{
    proof {
        assert(s@.skip(0) =~= s@);
    }
    match read_numeral(s, 0, false, false, 0, u16::MAX as i64) {
        Some(v) => Some(v as u16),
        None => None,
    }
}

/// The byte is a decimal digit.
pub open spec fn is_decimal_digit(b: u8) -> bool {
    0x30 <= b <= 0x39
}

/// The digits and points of a decimal numeral: what stands behind its sign.
pub open spec fn unsigned_part(s: Seq<u8>) -> Seq<u8> {
    if s.len() > 0 && (s[0] == 0x2b || s[0] == 0x2d) {
        s.skip(1)
    } else {
        s
    }
}

/// The text is a decimal numeral: an optional sign, then digits with at most
/// one point among them, before them or behind them, and at least one digit.
pub open spec fn is_decimal_numeral(s: Seq<u8>) -> bool {
    let body = unsigned_part(s);
    &&& forall|i: int| 0 <= i < body.len() ==> is_decimal_digit(#[trigger] body[i]) || body[i] == 0x2e
    &&& forall|i: int, j: int|
        0 <= i < j < body.len() ==> !(#[trigger] body[i] == 0x2e && #[trigger] body[j] == 0x2e)
    &&& exists|i: int| 0 <= i < body.len() && is_decimal_digit(#[trigger] body[i])
}

/// Tells whether the text is a decimal numeral.
pub fn check_decimal_numeral(s: &[u8]) -> (ok: bool)
    ensures
        ok == is_decimal_numeral(s@),
{
    let start: usize = if s.len() > 0 && (s[0] == 0x2b || s[0] == 0x2d) {
        1
    } else {
        0
    };
    let ghost body = unsigned_part(s@);
    proof {
        assert(s@.skip(0) =~= s@);
    }
    let mut point: Option<usize> = None;
    let mut digit: Option<usize> = None;
    let mut i: usize = start;
    while i < s.len()
        invariant
            start <= i <= s.len(),
            body == s@.skip(start as int),
            body == unsigned_part(s@),
            forall|k: int| 0 <= k < i - start ==> is_decimal_digit(#[trigger] body[k]) || body[k] == 0x2e,
            forall|k: int, l: int|
                0 <= k < l < i - start ==> !(#[trigger] body[k] == 0x2e && #[trigger] body[l] == 0x2e),
            match point {
                Some(p) => start <= p < i && body[p - start] == 0x2e,
                None => forall|k: int| 0 <= k < i - start ==> #[trigger] body[k] != 0x2e,
            },
            match digit {
                Some(d) => start <= d < i && is_decimal_digit(body[d - start]),
                None => forall|k: int| 0 <= k < i - start ==> !is_decimal_digit(#[trigger] body[k]),
            },
        decreases s.len() - i,
    {
        let b = s[i];
        assert(body[i - start] == b);
        if 0x30 <= b && b <= 0x39 {
            digit = Some(i);
        } else if b == 0x2e {
            if let Some(p) = point {
                assert(body[p - start] == 0x2e && body[i - start] == 0x2e);
                return false;
            }
            point = Some(i);
        } else {
            assert(!(is_decimal_digit(body[i - start]) || body[i - start] == 0x2e));
            return false;
        }
        i = i + 1;
    }
    match digit {
        Some(d) => {
            assert(is_decimal_digit(body[d - start]));
            true
        },
        None => false,
    }
}

} // verus!
