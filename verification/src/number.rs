//! Numbers as text: decimal rendering, decimal parsing and hexadecimal bytes.
use crate::text;
use vstd::prelude::*;

verus! {

/// The decimal digit for `d`, for `d` below ten.
pub open spec fn digit(d: int) -> char {
    ('0' as u32 + d) as char
}

/// `n` in decimal, without leading zeros.
pub open spec fn decimal(n: nat) -> Seq<char>
    decreases n,
{
    if n < 10 {
        seq![digit(n as int)]
    } else {
        decimal(n / 10).push(digit((n % 10) as int))
    }
}

/// `n` in decimal, with a minus sign where it is negative.
pub open spec fn integer(n: int) -> Seq<char> {
    if n < 0 {
        seq!['-'] + decimal((-n) as nat)
    } else {
        decimal(n as nat)
    }
}

/// The digit character of a number below ten.
fn digit_char(d: u8) -> (r: char)
    requires
        d < 10,
    ensures
        r == digit(d as int),
{
    (48u8 + d) as char
}

/// Appends `n` in decimal.
fn push_decimal(out: &mut String, n: u64)
    ensures
        final(out)@ == old(out)@ + decimal(n as nat),
    decreases n,
{
    if n >= 10 {
        push_decimal(out, n / 10);
    }
    out.push(digit_char((n % 10) as u8));
    assert(out@ =~= old(out)@ + decimal(n as nat));
}

/// `n` in decimal.
pub fn decimal_text(n: u64) -> (r: String)
    ensures
        r@ == decimal(n as nat),
{
    let mut r: String = String::new();
    push_decimal(&mut r, n);
    assert(r@ =~= decimal(n as nat));
    r
}

/// `n` in decimal, with a minus sign where it is negative.
pub fn integer_text(n: i64) -> (r: String)
    ensures
        r@ == integer(n as int),
{
    let mut r: String = String::new();
    if n < 0 {
        let magnitude: u64 = (-(n + 1)) as u64 + 1;
        r.push('-');
        push_decimal(&mut r, magnitude);
    } else {
        push_decimal(&mut r, n as u64);
    }
    assert(r@ =~= integer(n as int));
    r
}

/// A decimal digit.
pub open spec fn is_digit(c: char) -> bool {
    '0' <= c <= '9'
}

/// At least one character, and digits only.
pub open spec fn all_digits(s: Seq<char>) -> bool {
    s.len() > 0 && forall|i: int| 0 <= i < s.len() ==> is_digit(#[trigger] s[i])
}

/// The number that a sequence of digits writes.
pub open spec fn digits_value(s: Seq<char>) -> nat
    decreases s.len(),
{
    if s.len() == 0 {
        0
    } else {
        digits_value(s.drop_last()) * 10 + (s.last() as u32 - '0' as u32) as nat
    }
}

/// The number that `s` writes without a minus sign: digits, with at most one plus sign in front.
pub open spec fn unsigned_value(s: Seq<char>) -> Option<nat> {
    let digits = if s.len() > 0 && s[0] == '+' {
        s.skip(1)
    } else {
        s
    };
    if all_digits(digits) {
        Some(digits_value(digits))
    } else {
        None
    }
}

/// The number that `s` writes: digits, with at most one sign in front.
pub open spec fn signed_value(s: Seq<char>) -> Option<int> {
    if s.len() > 0 && s[0] == '-' {
        if all_digits(s.skip(1)) {
            Some(-(digits_value(s.skip(1)) as int))
        } else {
            None
        }
    } else {
        match unsigned_value(s) {
            Some(n) => Some(n as int),
            None => None,
        }
    }
}

/// More digits never make a smaller number.
proof fn lemma_digits_grow(s: Seq<char>, i: int)
    requires
        0 <= i <= s.len(),
    ensures
        digits_value(s.take(i)) <= digits_value(s),
    decreases s.len() - i,
{
    if i < s.len() {
        lemma_digits_grow(s, i + 1);
        assert(s.take(i + 1).drop_last() =~= s.take(i));
    } else {
        assert(s.take(i) =~= s);
    }
}

/// The number that the digits from `from` on write, where they are digits only and the number
/// is at most `max`.
fn parse_digits(chars: &Vec<char>, from: usize, max: u64) -> (r: Option<u64>)
    requires
        from <= chars.len(),
    ensures
        match r {
            Some(n) => all_digits(chars@.skip(from as int)) && n == digits_value(
                chars@.skip(from as int),
            ) && n <= max,
            None => !all_digits(chars@.skip(from as int)) || digits_value(chars@.skip(from as int))
                > max,
        },
{
    let ghost digits = chars@.skip(from as int);
    if from == chars.len() {
        return None;
    }
    let mut n: u64 = 0;
    let mut large: bool = false;
    let mut i: usize = from;
    while i < chars.len()
        invariant
            from <= i <= chars.len(),
            digits == chars@.skip(from as int),
            digits.len() == chars.len() - from,
            forall|j: int| 0 <= j < i - from ==> is_digit(#[trigger] digits[j]),
            large ==> digits_value(digits) > max,
            !large ==> n == digits_value(digits.take(i - from)) && n <= max,
        decreases chars.len() - i,
    {
        let c: char = chars[i];
        assert(c == digits[i - from]);
        if c < '0' || c > '9' {
            return None;
        }
        if !large {
            let d: u64 = (c as u32 - '0' as u32) as u64;
            assert(digits.take(i - from + 1).drop_last() =~= digits.take(i - from));
            proof {
                lemma_digits_grow(digits, i - from + 1);
            }
            if d > max || n > (max - d) / 10 {
                large = true;
            } else {
                n = n * 10 + d;
            }
        }
        i += 1;
    }
    assert(digits.take(digits.len() as int) =~= digits);
    if large {
        None
    } else {
        Some(n)
    }
}

/// The number that `s` writes without a minus sign, where it is at most `max`.
pub fn parse_unsigned(s: &str, max: u64) -> (r: Option<u64>)
    ensures
        match r {
            Some(n) => unsigned_value(s@) == Some(n as nat) && n <= max,
            None => match unsigned_value(s@) {
                Some(n) => n > max,
                None => true,
            },
        },
{
    let chars: Vec<char> = text::chars_of(s);
    let from: usize = if chars.len() > 0 && chars[0] == '+' {
        1
    } else {
        0
    };
    assert(chars@.skip(0) =~= s@);
    parse_digits(&chars, from, max)
}

/// The number that `s` writes, where it fits.
pub fn parse_signed(s: &str) -> (r: Option<i64>)
    ensures
        match r {
            Some(n) => signed_value(s@) == Some(n as int),
            None => match signed_value(s@) {
                Some(n) => n < i64::MIN || n > i64::MAX,
                None => true,
            },
        },
{
    let chars: Vec<char> = text::chars_of(s);
    if chars.len() > 0 && chars[0] == '-' {
        match parse_digits(&chars, 1, 0x8000_0000_0000_0000) {
            Some(n) => if n == 0x8000_0000_0000_0000 {
                Some(i64::MIN)
            } else {
                Some(-(n as i64))
            },
            None => None,
        }
    } else {
        match parse_unsigned(s, 0x7fff_ffff_ffff_ffff) {
            Some(n) => Some(n as i64),
            None => None,
        }
    }
}

/// The lower-case hexadecimal digit for `d`, for `d` below sixteen.
pub open spec fn hex_digit(d: int) -> char {
    if d < 10 {
        ('0' as u32 + d) as char
    } else {
        ('a' as u32 + (d - 10)) as char
    }
}

/// The two lower-case hexadecimal digits of every byte, in order.
pub open spec fn hex_of(bytes: Seq<u8>) -> Seq<char> {
    Seq::new(
        2 * bytes.len(),
        |i: int|
            hex_digit(
                if i % 2 == 0 {
                    bytes[i / 2] as int / 16
                } else {
                    bytes[i / 2] as int % 16
                },
            ),
    )
}

/// The hexadecimal digit of a number below sixteen.
fn hex_char(d: u8) -> (r: char)
    requires
        d < 16,
    ensures
        r == hex_digit(d as int),
{
    if d < 10 {
        (48u8 + d) as char
    } else {
        (97u8 + (d - 10)) as char
    }
}

/// The bytes in lower-case hexadecimal.
pub fn hex(value: &[u8]) -> (r: String)
    ensures
        r@ == hex_of(value@),
{
    let mut encoded: String = String::new();
    let mut i: usize = 0;
    while i < value.len()
        invariant
            i <= value.len(),
            encoded@ == hex_of(value@).take(2 * i),
        decreases value.len() - i,
    {
        encoded.push(hex_char(value[i] / 16));
        encoded.push(hex_char(value[i] % 16));
        assert(encoded@ =~= hex_of(value@).take(2 * (i + 1)));
        i += 1;
    }
    assert(hex_of(value@).take(2 * value@.len() as int) =~= hex_of(value@));
    encoded
}

/// The hexadecimal text of bytes names them: different bytes have different texts.
pub proof fn hex_is_injective(a: Seq<u8>, b: Seq<u8>)
    requires
        hex_of(a) == hex_of(b),
    ensures
        a == b,
{
    assert(hex_of(a).len() == 2 * a.len() && hex_of(b).len() == 2 * b.len());
    assert forall|i: int| 0 <= i < a.len() implies a[i] == b[i] by {
        assert(hex_of(a)[2 * i] == hex_of(b)[2 * i]);
        assert(hex_of(a)[2 * i + 1] == hex_of(b)[2 * i + 1]);
        assert((2 * i) / 2 == i && (2 * i + 1) / 2 == i);
        assert(hex_of(a)[2 * i] == hex_digit(a[i] as int / 16));
        assert(hex_of(b)[2 * i] == hex_digit(b[i] as int / 16));
        assert(hex_of(a)[2 * i + 1] == hex_digit(a[i] as int % 16));
        assert(hex_of(b)[2 * i + 1] == hex_digit(b[i] as int % 16));
    }
    assert(a =~= b);
}

/// A number below ten is one digit, the character as far behind zero as the number says; and ten
/// times a number and a digit is the number followed by the digit.
pub proof fn decimals_grow_by_digits(n: nat, d: nat)
    requires
        d < 10,
    ensures
        decimal(d).len() == 1,
        decimal(d)[0] as u32 == '0' as u32 + d,
        n > 0 ==> decimal(10 * n + d) == decimal(n) + decimal(d),
{
    if n > 0 {
        assert((10 * n + d) / 10 == n);
        assert((10 * n + d) % 10 == d);
        assert(decimal(10 * n + d) =~= decimal(n) + decimal(d));
    }
}

/// What is written in decimal reads back: digits only, without a leading zero, of just that value.
pub proof fn decimals_read_back(n: nat)
    ensures
        decimal(n).len() > 0,
        forall|i: int| 0 <= i < decimal(n).len() ==> '0' <= #[trigger] decimal(n)[i] <= '9',
        n > 0 ==> decimal(n)[0] != '0',
        digits_value(decimal(n)) == n,
        unsigned_value(decimal(n)) == Some(n),
        unsigned_value(seq!['+'] + decimal(n)) == Some(n),
        signed_value(decimal(n)) == Some(n as int),
        signed_value(seq!['-'] + decimal(n)) == Some(-(n as int)),
    decreases n,
{
    let s = decimal(n);
    if n >= 10 {
        decimals_read_back(n / 10);
        let front = decimal(n / 10);
        assert(s.drop_last() =~= front);
        assert(s.last() == digit((n % 10) as int));
        assert forall|i: int| 0 <= i < s.len() implies '0' <= #[trigger] s[i] <= '9' by {
            if i < front.len() {
                assert(s[i] == front[i]);
            }
        }
        assert(s[0] == front[0]);
        assert(digits_value(s) == digits_value(front) * 10 + n % 10);
    } else {
        assert(s.drop_last() =~= Seq::empty());
        assert(digits_value(s.drop_last()) == 0);
        assert(s.last() == digit(n as int));
    }
    assert forall|i: int| 0 <= i < s.len() implies is_digit(#[trigger] s[i]) by {}
    assert(s[0] != '+' && s[0] != '-');
    assert((seq!['+'] + s).skip(1) =~= s);
    assert((seq!['-'] + s).skip(1) =~= s);
}

/// A number is written with a minus sign exactly where it is negative, in front of its magnitude.
pub proof fn negative_numbers_have_a_minus(n: i64, r: String)
    requires
        call_ensures(integer_text, (n,), r),
    ensures
        n >= 0 ==> r@ == decimal(n as nat),
        n < 0 ==> r@ == seq!['-'] + decimal((-n) as nat),
{
}

/// A written number is what is read of it, as far as it is within the limit.
pub proof fn written_numbers_are_read(n: u64, written: String, max: u64, s: &str, r: Option<u64>)
    requires
        call_ensures(decimal_text, (n,), written),
        s@ == written@,
        call_ensures(parse_unsigned, (s, max), r),
    ensures
        n <= max ==> r == Some(n),
        n > max ==> r is None,
{
    decimals_read_back(n as nat);
}

/// A written number with a sign is what is read of it.
pub proof fn written_signed_numbers_are_read(n: i64, written: String, s: &str, r: Option<i64>)
    requires
        call_ensures(integer_text, (n,), written),
        s@ == written@,
        call_ensures(parse_signed, (s,), r),
    ensures
        r == Some(n),
{
    if n < 0 {
        decimals_read_back((-n) as nat);
    } else {
        decimals_read_back(n as nat);
    }
}

/// A text that is empty, or a sign alone, or holds anything but digits behind its first character,
/// is no number.
pub proof fn other_texts_are_no_numbers(s: &str, max: u64, r: Option<u64>, signed: Option<i64>, i: int)
    requires
        call_ensures(parse_unsigned, (s, max), r),
        call_ensures(parse_signed, (s,), signed),
    ensures
        s@.len() == 0 ==> r is None && signed is None,
        s@.len() == 1 && (s@[0] < '0' || s@[0] > '9') ==> r is None && signed is None,
        1 <= i < s@.len() && (s@[i] < '0' || s@[i] > '9') ==> r is None && signed is None,
        s@.len() > 0 && s@[0] == '-' ==> r is None,
        s@.len() > 0 && (s@[0] < '0' || s@[0] > '9') && s@[0] != '+' && s@[0] != '-'
            ==> r is None && signed is None,
        r is Some ==> r->0 <= max,
{
    if s@.len() > 0 {
        assert(all_digits(s@) ==> is_digit(s@[0]));
        let rest = s@.skip(1);
        if 1 <= i < s@.len() {
            assert(rest[i - 1] == s@[i]);
            assert(all_digits(s@) ==> is_digit(s@[i]));
            assert(all_digits(rest) ==> is_digit(rest[i - 1]));
        }
    }
}

/// The value of digits grows tenfold with each further digit.
pub proof fn digits_count_tenfold(s: Seq<char>, c: char)
    requires
        '0' <= c <= '9',
    ensures
        digits_value(Seq::empty()) == 0,
        digits_value(s.push(c)) == 10 * digits_value(s) + (c as u32 - '0' as u32),
{
    assert(s.push(c).drop_last() =~= s);
}

/// Every byte is written as two lower-case hexadecimal digits, the higher one first: the byte is
/// sixteen times the first and the second.
pub proof fn hexadecimal_is_read_back(value: &[u8], r: String, i: int)
    requires
        call_ensures(hex, (value,), r),
        0 <= i < value@.len(),
    ensures
        r@.len() == 2 * value@.len(),
        ({
            let high = r@[2 * i];
            let low = r@[2 * i + 1];
            &&& '0' <= high <= '9' || 'a' <= high <= 'f'
            &&& '0' <= low <= '9' || 'a' <= low <= 'f'
            &&& value@[i] == 16 * (if high <= '9' {
                high as u32 - '0' as u32
            } else {
                high as u32 - 'a' as u32 + 10
            }) + (if low <= '9' {
                low as u32 - '0' as u32
            } else {
                low as u32 - 'a' as u32 + 10
            })
        }),
{
    assert((2 * i) / 2 == i && (2 * i + 1) / 2 == i && (2 * i) % 2 == 0 && (2 * i + 1) % 2 == 1);
    assert(r@[2 * i] == hex_digit(value@[i] as int / 16));
    assert(r@[2 * i + 1] == hex_digit(value@[i] as int % 16));
}

/// The hexadecimal text of bytes has two digits for each, those of the first byte first.
pub proof fn hexadecimal_goes_byte_by_byte(bytes: Seq<u8>, i: int)
    requires
        0 <= i < bytes.len(),
    ensures
        hex_of(bytes).len() == 2 * bytes.len(),
        bytes[i] / 16 < 10 ==> hex_of(bytes)[2 * i] as u32 == '0' as u32 + bytes[i] / 16,
        bytes[i] / 16 >= 10 ==> hex_of(bytes)[2 * i] as u32 == 'a' as u32 + bytes[i] / 16 - 10,
        bytes[i] % 16 < 10 ==> hex_of(bytes)[2 * i + 1] as u32 == '0' as u32 + bytes[i] % 16,
        bytes[i] % 16 >= 10 ==> hex_of(bytes)[2 * i + 1] as u32 == 'a' as u32 + bytes[i] % 16 - 10,
{
    assert((2 * i) / 2 == i && (2 * i + 1) / 2 == i && (2 * i) % 2 == 0 && (2 * i + 1) % 2 == 1);
}

} // verus!
