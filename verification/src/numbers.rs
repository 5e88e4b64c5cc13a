//! Decimal numbers as text.
use vstd::prelude::*;
use vstd::string::*;

verus! {

/// The digit for a number below ten.
pub open spec fn digit(n: nat) -> char {
    (0x30 + n) as char
}

/// `n` in decimal digits, without leading zeros.
pub open spec fn decimal(n: nat) -> Seq<char>
    decreases n,
{
    if n < 10 {
        seq![digit(n)]
    } else {
        decimal(n / 10).push(digit(n % 10))
    }
}

/// `s` with zeros in front, up to `width` characters.
pub open spec fn zero_padded(s: Seq<char>, width: nat) -> Seq<char>
    decreases width - s.len(),
{
    if s.len() >= width {
        s
    } else {
        zero_padded(seq!['0'] + s, width)
    }
}

/// The hexadecimal digit for a number below sixteen.
pub open spec fn hex_digit(n: nat) -> char {
    if n < 10 {
        digit(n)
    } else {
        (0x41 + (n - 10)) as char
    }
}

/// `n` in hexadecimal digits, in upper case, without leading zeros.
pub open spec fn hex(n: nat) -> Seq<char>
    decreases n,
{
    if n < 16 {
        seq![hex_digit(n)]
    } else {
        hex(n / 16).push(hex_digit(n % 16))
    }
}

/// `n` in decimal, with a minus sign when it is negative.
pub open spec fn signed_decimal(n: int) -> Seq<char> {
    if n < 0 {
        seq!['-'] + decimal((-n) as nat)
    } else {
        decimal(n as nat)
    }
}

pub open spec fn is_digit(c: char) -> bool {
    '0' <= c <= '9'
}

pub open spec fn all_digits(s: Seq<char>) -> bool {
    forall|i: int| 0 <= i < s.len() ==> is_digit(#[trigger] s[i])
}

/// The value of a sequence of digits.
pub open spec fn digits_value(s: Seq<char>) -> nat
    decreases s.len(),
{
    if s.len() == 0 {
        0
    } else {
        (digits_value(s.drop_last()) * 10 + (s.last() as u32 - 0x30)) as nat
    }
}

/// `s` without a leading plus sign.
pub open spec fn unsigned(s: Seq<char>) -> Seq<char> {
    if s.len() > 0 && s[0] == '+' {
        s.skip(1)
    } else {
        s
    }
}

/// The number that `s` denotes: decimal digits, at least one, with an optional
/// plus sign, and a value of at most 32 bits.
pub open spec fn u32_of(s: Seq<char>) -> Option<u32> {
    let d = unsigned(s);
    if d.len() > 0 && all_digits(d) && digits_value(d) <= u32::MAX {
        Some(digits_value(d) as u32)
    } else {
        None
    }
}

/// `n` in decimal.
pub fn to_decimal(n: u64) -> (s: String)
    ensures
        s@ == decimal(n as nat),
    decreases n,
{
    let last: char = (0x30u8 + (n % 10) as u8) as char;
    if n < 10 {
        let mut s = String::new();
        s.push(last);
        assert(s@ =~= seq![digit(n as nat)]);
        s
    } else {
        let mut s = to_decimal(n / 10);
        s.push(last);
        s
    }
}

/// `n` in decimal, with a minus sign when it is negative.
pub fn to_signed_decimal(n: i32) -> (s: String)
    ensures
        s@ == signed_decimal(n as int),
{
    if n < 0 {
        let mut s = String::new();
        s.push('-');
        let magnitude: u64 = (-(n as i64)) as u64;
        let d = to_decimal(magnitude);
        s.push_str(d.as_str());
        assert(s@ =~= seq!['-'] + decimal(magnitude as nat));
        s
    } else {
        to_decimal(n as u64)
    }
}

/// `n` in hexadecimal, in upper case.
pub fn to_hex(n: u32) -> (s: String)
    ensures
        s@ == hex(n as nat),
    decreases n,
{
    let low: u8 = (n % 16) as u8;
    let last: char = if low < 10 {
        (0x30u8 + low) as char
    } else {
        (0x41u8 + (low - 10)) as char
    };
    if n < 16 {
        let mut s = String::new();
        s.push(last);
        assert(s@ =~= seq![hex_digit(n as nat)]);
        s
    } else {
        let mut s = to_hex(n / 16);
        s.push(last);
        s
    }
}

/// `s` with zeros in front, up to `width` characters.
pub fn pad_zeros(s: &str, width: usize) -> (r: String)
    ensures
        r@ == zero_padded(s@, width as nat),
    decreases width - s@.len(),
{
    if s.unicode_len() >= width {
        s.to_owned()
    } else {
        let mut longer = String::new();
        longer.push('0');
        longer.push_str(s);
        assert(longer@ =~= seq!['0'] + s@);
        pad_zeros(longer.as_str(), width)
    }
}

proof fn lemma_value_grows(s: Seq<char>, i: int)
    requires
        0 <= i <= s.len(),
        all_digits(s),
    ensures
        digits_value(s.take(i)) <= digits_value(s),
    decreases s.len() - i,
{
    if i < s.len() {
        lemma_value_grows(s, i + 1);
        assert(s.take(i + 1).drop_last() =~= s.take(i));
        assert(is_digit(s[i]));
    } else {
        assert(s.take(i) =~= s);
    }
}

/// The number that `s` denotes, when it is one of 32 bits.
pub fn parse_u32(s: &str) -> (r: Option<u32>)
    ensures
        r == u32_of(s@),
{
    let n: usize = s.unicode_len();
    let start: usize = if n > 0 && s.get_char(0) == '+' {
        1
    } else {
        0
    };
    let ghost d = unsigned(s@);
    assert(d =~= s@.skip(start as int));
    if start == n {
        return None;
    }
    let mut v: u32 = 0;
    let mut i: usize = start;
    while i < n
        invariant
            n == s@.len(),
            start <= i <= n,
            d == s@.skip(start as int),
            d == unsigned(s@),
            forall|j: int| 0 <= j < i - start ==> is_digit(#[trigger] d[j]),
            v == digits_value(d.take(i - start)),
        decreases n - i,
    {
        let c: char = s.get_char(i);
        assert(d[i - start] == c);
        if !('0' <= c && c <= '9') {
            assert(!is_digit(d[i - start]));
            return None;
        }
        let x: u32 = c as u32 - 0x30;
        proof {
            assert(d.take(i - start + 1).drop_last() =~= d.take(i - start));
        }
        let wide: u64 = v as u64 * 10 + x as u64;
        if wide > u32::MAX as u64 {
            proof {
                if all_digits(d) {
                    lemma_value_grows(d, i - start + 1);
                }
            }
            return None;
        }
        v = wide as u32;
        i = i + 1;
    }
    assert(d.take(n - start) =~= d);
    Some(v)
}

proof fn lemma_decimal_is_digits(n: nat)
    ensures
        decimal(n).len() > 0,
        all_digits(decimal(n)),
        digits_value(decimal(n)) == n,
    decreases n,
{
    if n < 10 {
        assert(decimal(n).drop_last() =~= Seq::<char>::empty());
        reveal_with_fuel(digits_value, 2);
    } else {
        lemma_decimal_is_digits(n / 10);
        assert(decimal(n).drop_last() =~= decimal(n / 10));
        assert forall|i: int| 0 <= i < decimal(n).len() implies is_digit(#[trigger] decimal(n)[i]) by {
            if i < decimal(n / 10).len() {
                assert(decimal(n)[i] == decimal(n / 10)[i]);
            }
        }
    }
}

/// A 32-bit number that is written out reads back as itself.
pub proof fn law_parse_undoes_decimal(n: u32)
    ensures
        u32_of(decimal(n as nat)) == Some(n),
{
    lemma_decimal_is_digits(n as nat);
    assert(is_digit(decimal(n as nat)[0]));
}

/// The value of hexadecimal digits.
pub open spec fn hex_value(s: Seq<char>) -> nat
    decreases s.len(),
{
    if s.len() == 0 {
        0
    } else {
        let d = s.last() as int;
        (hex_value(s.drop_last()) * 16 + if d <= 0x39 {
            d - 0x30
        } else {
            d - 0x41 + 10
        }) as nat
    }
}

/// What is printed in hexadecimal has the value that was printed.
pub proof fn law_hexadecimal_keeps_the_value(n: nat)
    ensures
        hex(n).len() > 0,
        hex_value(hex(n)) == n,
    decreases n,
{
    if n < 16 {
        assert(hex(n).drop_last() =~= Seq::<char>::empty());
        assert(hex_value(hex(n).drop_last()) == 0);
    } else {
        law_hexadecimal_keeps_the_value(n / 16);
        assert(hex(n).drop_last() =~= hex(n / 16));
        assert(hex(n).last() == hex_digit(n % 16));
    }
}

/// Padding puts zeros in front, up to the width, and nothing else.
pub proof fn law_padding_puts_zeros_in_front(s: Seq<char>, width: nat)
    ensures
        zero_padded(s, width).len() == if s.len() < width {
            width
        } else {
            s.len()
        },
        zero_padded(s, width).skip(zero_padded(s, width).len() - s.len()) == s,
        forall|i: int|
            0 <= i < zero_padded(s, width).len() - s.len() ==> #[trigger] zero_padded(s, width)[i]
                == '0',
    decreases width - s.len(),
{
    if s.len() < width {
        let t = seq!['0'] + s;
        law_padding_puts_zeros_in_front(t, width);
        let p = zero_padded(s, width);
        assert(p.skip(p.len() - s.len()) =~= p.skip(p.len() - t.len()).skip(1));
        assert(t.skip(1) =~= s);
        assert forall|i: int| 0 <= i < p.len() - s.len() implies #[trigger] p[i] == '0' by {
            if i == p.len() - t.len() {
                assert(p.skip(p.len() - t.len())[0] == t[0]);
            }
        }
    } else {
        assert(s.skip(0) =~= s);
    }
}

/// A number that is printed is read back; a text that is no number is none.
pub proof fn law_texts_without_digits_are_no_numbers(s: Seq<char>, n: nat)
    ensures
        n <= u32::MAX ==> u32_of(decimal(n)) == Some(n as u32),
        n > u32::MAX ==> u32_of(decimal(n)) is None,
        s.len() == 0 ==> u32_of(s) is None,
        !all_digits(unsigned(s)) ==> u32_of(s) is None,
{
    lemma_decimal_is_digits(n);
    let d = decimal(n);
    assert(is_digit(d[0]));
    assert(unsigned(d) == d);
}

} // verus!
