//! Numbers as text: decimal and hexadecimal printing, and reading a signed 32-bit integer.
use vstd::prelude::*;

use crate::text::{chars_of, code_point, joined};

verus! {

/// The decimal digit with value `d`.
pub open spec fn decimal_digit(d: int) -> char {
    (48 + d) as char
}

/// The decimal digits of `n`, most significant first, without leading zeros.
pub open spec fn decimal_of(n: nat) -> Seq<char>
    decreases n,
{
    if n < 10 {
        seq![decimal_digit(n as int)]
    } else {
        decimal_of(n / 10).push(decimal_digit((n % 10) as int))
    }
}

/// The decimal form of `n`, with a minus sign before a negative number.
pub open spec fn signed_decimal_of(n: int) -> Seq<char> {
    if n < 0 {
        "-"@ + decimal_of((-n) as nat)
    } else {
        decimal_of(n as nat)
    }
}

/// The decimal form of `n`.
pub fn decimal(n: u128) -> (r: String)
    ensures
        r@ == decimal_of(n as nat),
    decreases n,
{
    let digit = (48 + (n % 10) as u8) as char;
    if n < 10 {
        let mut out = String::new();
        out.push(digit);
        assert(out@ =~= seq![digit]);
        out
    } else {
        let mut out = decimal(n / 10);
        out.push(digit);
        out
    }
}

/// The decimal form of `n`, with a minus sign before a negative number.
pub fn signed_decimal(n: i32) -> (r: String)
    ensures
        r@ == signed_decimal_of(n as int),
{
    if n < 0 {
        joined("-", decimal((-(n as i64)) as u128).as_str())
    } else {
        decimal(n as u128)
    }
}

/// The lower-case hexadecimal digit with value `d`.
pub open spec fn hex_digit(d: int) -> char {
    if d < 10 {
        (48 + d) as char
    } else {
        (87 + d) as char
    }
}

/// The hexadecimal digits of `n`, most significant first, without leading zeros.
pub open spec fn hex_of(n: nat) -> Seq<char>
    decreases n,
{
    if n < 16 {
        seq![hex_digit(n as int)]
    } else {
        hex_of(n / 16).push(hex_digit((n % 16) as int))
    }
}

/// The hexadecimal form of `n`.
pub fn hex(n: u128) -> (r: String)
    ensures
        r@ == hex_of(n as nat),
    decreases n,
{
    let low: u8 = (n % 16) as u8;
    let digit = if low < 10 {
        (48 + low) as char
    } else {
        (87 + low) as char
    };
    if n < 16 {
        let mut out = String::new();
        out.push(digit);
        assert(out@ =~= seq![digit]);
        out
    } else {
        let mut out = hex(n / 16);
        out.push(digit);
        out
    }
}

/// The last `width` hexadecimal digits of `n`, leading zeros included.
pub open spec fn hex_padded(n: nat, width: nat) -> Seq<char>
    decreases width,
{
    if width == 0 {
        Seq::empty()
    } else {
        hex_padded(n / 16, (width - 1) as nat).push(hex_digit((n % 16) as int))
    }
}

/// The last `width` hexadecimal digits of `n`, leading zeros included.
pub fn hex_fixed(n: u64, width: u8) -> (r: String)
    ensures
        r@ == hex_padded(n as nat, width as nat),
    decreases width,
{
    if width == 0 {
        String::new()
    } else {
        let low: u8 = (n % 16) as u8;
        let digit = if low < 10 {
            (48 + low) as char
        } else {
            (87 + low) as char
        };
        let mut out = hex_fixed(n / 16, width - 1);
        out.push(digit);
        out
    }
}

/// `c` is one of `0` to `9`.
pub open spec fn is_decimal_digit(c: char) -> bool {
    48 <= c as int <= 57
}

/// `s` is a run of decimal digits, at least one.
pub open spec fn all_digits(s: Seq<char>) -> bool {
    s.len() > 0 && forall|i: int| 0 <= i < s.len() ==> is_decimal_digit(#[trigger] s[i])
}

/// The number that the decimal digits of `s` spell.
pub open spec fn digits_value(s: Seq<char>) -> nat
    decreases s.len(),
{
    if s.len() == 0 {
        0
    } else {
        (digits_value(s.drop_last()) * 10 + (s.last() as int - 48)) as nat
    }
}

/// The integer that `s` spells: decimal digits after at most one sign. `None` where `s` has another
/// shape.
pub open spec fn integer_of(s: Seq<char>) -> Option<int> {
    if s.len() > 0 && (s[0] == '-' || s[0] == '+') {
        if all_digits(s.skip(1)) {
            let n = digits_value(s.skip(1)) as int;
            Some(
                if s[0] == '-' {
                    -n
                } else {
                    n
                },
            )
        } else {
            None
        }
    } else if all_digits(s) {
        Some(digits_value(s) as int)
    } else {
        None
    }
}

/// The 32-bit integer that `s` spells, where it spells one in range.
pub open spec fn i32_of(s: Seq<char>) -> Option<i32> {
    match integer_of(s) {
        Some(n) => if i32::MIN <= n <= i32::MAX {
            Some(n as i32)
        } else {
            None
        },
        None => None,
    }
}

proof fn lemma_digits_value_grows(s: Seq<char>, n: int)
    requires
        0 <= n <= s.len(),
        forall|i: int| 0 <= i < s.len() ==> is_decimal_digit(#[trigger] s[i]),
    ensures
        digits_value(s.take(n)) <= digits_value(s),
    decreases s.len(),
{
    if n == s.len() {
        assert(s.take(n) =~= s);
    } else {
        lemma_digits_value_grows(s.drop_last(), n);
        assert(s.drop_last().take(n) =~= s.take(n));
        assert(is_decimal_digit(s[s.len() - 1]));
    }
}

/// The 32-bit integer that `s` spells, where it spells one in range.
pub fn parse_i32(s: &str) -> (r: Option<i32>)
    ensures
        r == i32_of(s@),
{
    let chars = chars_of(s);
    let total: usize = chars.len();
    let signed = total > 0 && (chars[0] == '-' || chars[0] == '+');
    let negative = signed && chars[0] == '-';
    let start: usize = if signed {
        1
    } else {
        0
    };
    let ghost body = chars@.skip(start as int);
    assert(chars@.skip(0) =~= chars@);
    if start == total {
        return None;
    }
    let mut value: i64 = 0;
    let mut too_large = false;
    let mut i: usize = start;
    while i < total
        invariant
            start <= i <= total,
            start < total,
            total == chars@.len(),
            chars@ == s@,
            signed == (s@.len() > 0 && (s@[0] == '-' || s@[0] == '+')),
            start == (if signed {
                1int
            } else {
                0int
            }),
            body == (if signed {
                s@.skip(1)
            } else {
                s@
            }),
            body == chars@.skip(start as int),
            forall|j: int| 0 <= j < i - start ==> is_decimal_digit(#[trigger] body[j]),
            0 <= value <= 0xffff_ffff,
            !too_large ==> value == digits_value(body.take(i - start)),
            too_large ==> exists|n: int|
                0 <= n <= i - start && #[trigger] digits_value(body.take(n)) > 0xffff_ffff,
        decreases total - i,
    {
        let c: u32 = code_point(chars[i]);
        assert(body[i - start] == chars@[i as int]);
        if c < 48 || c > 57 {
            assert(!is_decimal_digit(body[i - start]));
            return None;
        }
        proof {
            assert(body.take(i - start + 1).drop_last() =~= body.take(i - start));
            assert(body.take(i - start + 1).last() == body[i - start]);
        }
        if !too_large {
            let next: i64 = value * 10 + (c as i64 - 48);
            if next > 0xffff_ffff {
                too_large = true;
                assert(digits_value(body.take(i - start + 1)) > 0xffff_ffff);
            } else {
                value = next;
            }
        }
        i = i + 1;
    }
    proof {
        assert(body.take(body.len() as int) =~= body);
        assert(all_digits(body));
    }
    if too_large {
        proof {
            let n = choose|n: int|
                0 <= n <= i - start && #[trigger] digits_value(body.take(n)) > 0xffff_ffff;
            lemma_digits_value_grows(body, n);
        }
        return None;
    }
    let number: i64 = if negative {
        -value
    } else {
        value
    };
    if -0x8000_0000 <= number && number <= 0x7fff_ffff {
        Some(number as i32)
    } else {
        None
    }
}

/// The decimal form of a number is made of digits, and they have its value.
pub proof fn lemma_decimal_digits(n: nat)
    ensures
        all_digits(decimal_of(n)),
        digits_value(decimal_of(n)) == n,
    decreases n,
{
    let digit = decimal_digit((n % 10) as int);
    if n < 10 {
        let s = seq![decimal_digit(n as int)];
        assert(s.drop_last() =~= Seq::<char>::empty());
        assert(digits_value(s.drop_last()) == 0);
    } else {
        lemma_decimal_digits(n / 10);
        let s = decimal_of(n);
        assert(s.drop_last() =~= decimal_of(n / 10));
        assert forall|i: int| 0 <= i < s.len() implies is_decimal_digit(#[trigger] s[i]) by {
            if i < s.len() - 1 {
                assert(s[i] == decimal_of(n / 10)[i]);
            }
        }
    }
}

/// Reading the decimal form of a number gives the number back.
pub proof fn law_decimal_reads_back(n: int)
    ensures
        integer_of(signed_decimal_of(n)) == Some(n),
{
    reveal_strlit("-");
    if n < 0 {
        lemma_decimal_digits((-n) as nat);
        let s = signed_decimal_of(n);
        assert(s.skip(1) =~= decimal_of((-n) as nat));
    } else {
        lemma_decimal_digits(n as nat);
        assert(is_decimal_digit(decimal_of(n as nat)[0]));
    }
}

/// Different numbers have different decimal forms.
pub proof fn law_decimal_distinct(a: nat, b: nat)
    requires
        a != b,
    ensures
        decimal_of(a) != decimal_of(b),
{
    lemma_decimal_digits(a);
    lemma_decimal_digits(b);
}

/// A padded hexadecimal form has exactly the asked number of digits.
pub proof fn law_hex_padded_width(n: nat, width: nat)
    ensures
        hex_padded(n, width).len() == width,
    decreases width,
{
    if width > 0 {
        law_hex_padded_width(n / 16, (width - 1) as nat);
    }
}

/// The number that the hexadecimal digits of `s` spell.
pub open spec fn hex_value(s: Seq<char>) -> nat
    decreases s.len(),
{
    if s.len() == 0 {
        0
    } else {
        let c = s.last() as int;
        (hex_value(s.drop_last()) * 16 + if c < 87 {
            c - 48
        } else {
            c - 87
        }) as nat
    }
}

proof fn lemma_hex_value(n: nat)
    ensures
        hex_value(hex_of(n)) == n,
    decreases n,
{
    let digit = hex_digit((n % 16) as int);
    if n < 16 {
        let s = seq![hex_digit(n as int)];
        assert(s.drop_last() =~= Seq::<char>::empty());
        assert(hex_value(s.drop_last()) == 0);
    } else {
        lemma_hex_value(n / 16);
        assert(hex_of(n).drop_last() =~= hex_of(n / 16));
        assert(hex_of(n).last() == digit);
    }
}

/// Different numbers have different hexadecimal forms.
pub proof fn law_hex_distinct(a: nat, b: nat)
    requires
        a != b,
    ensures
        hex_of(a) != hex_of(b),
{
    lemma_hex_value(a);
    lemma_hex_value(b);
}

} // verus!
