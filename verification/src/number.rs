//! Numbers as text: how they are written and how they are read back.

use crate::text;
use vstd::prelude::*;

verus! {

/// The character that stands for the digit `d` below ten.
pub open spec fn digit(d: nat) -> char {
    (0x30 + d) as char
}

/// `n` in decimal, without leading zeros.
pub open spec fn digits(n: nat) -> Seq<char>
    decreases n,
{
    if n < 10 {
        seq![digit(n)]
    } else {
        digits(n / 10).push(digit(n % 10))
    }
}

/// `n` in decimal, with a leading zero when it has one digit.
pub open spec fn two_digits(n: nat) -> Seq<char> {
    if n < 10 {
        seq!['0', digit(n)]
    } else {
        digits(n)
    }
}

/// A whole number in decimal, with a sign when it is negative.
pub open spec fn signed(n: int) -> Seq<char> {
    if n < 0 {
        "-"@ + digits((-n) as nat)
    } else {
        digits(n as nat)
    }
}

/// The value of a digit; letters of either case stand for ten and up.
pub open spec fn digit_value(c: char) -> Option<nat> {
    if '0' <= c <= '9' {
        Some((c as nat - 0x30) as nat)
    } else if 'a' <= c <= 'z' {
        Some((c as nat - 0x61 + 10) as nat)
    } else if 'A' <= c <= 'Z' {
        Some((c as nat - 0x41 + 10) as nat)
    } else {
        None
    }
}

/// `c` is a digit of the number system with base `radix`.
pub open spec fn is_digit(c: char, radix: nat) -> bool {
    digit_value(c) matches Some(d) && d < radix
}

/// The number that a row of digits writes in base `radix`.
pub open spec fn value(s: Seq<char>, radix: nat) -> nat
    decreases s.len(),
{
    if s.len() == 0 {
        0
    } else {
        value(s.drop_last(), radix) * radix + digit_value(s.last()).unwrap_or(0)
    }
}

/// `s` without a plus sign before it.
pub open spec fn unsigned_part(s: Seq<char>) -> Seq<char> {
    if s.len() > 0 && s[0] == '+' {
        s.subrange(1, s.len() as int)
    } else {
        s
    }
}

/// The number no larger than `max` that `s` writes in base `radix`: a row of at
/// least one digit, with a plus sign before it or not.
pub open spec fn parsed(s: Seq<char>, radix: nat, max: nat) -> Option<nat> {
    let d = unsigned_part(s);
    if d.len() > 0 && (forall|i: int| 0 <= i < d.len() ==> is_digit(d[i], radix)) && value(d, radix)
        <= max {
        Some(value(d, radix))
    } else {
        None
    }
}

/// A longer row of digits writes no smaller number.
pub proof fn lemma_value_grows(s: Seq<char>, radix: nat, i: int)
    requires
        0 <= i <= s.len(),
        radix >= 1,
    ensures
        value(s.take(i), radix) <= value(s, radix),
    decreases s.len(),
{
    if i == s.len() {
        assert(s.take(i) =~= s);
    } else {
        lemma_value_grows(s.drop_last(), radix, i);
        assert(s.drop_last().take(i) =~= s.take(i));
        let head = value(s.drop_last(), radix);
        assert(head <= head * radix) by (nonlinear_arith)
            requires
                radix >= 1,
        ;
    }
}

/// The value of a digit.
pub fn digit_of(c: char) -> (r: Option<u32>)
    ensures
        match r {
            Some(d) => digit_value(c) == Some(d as nat) && d < 36,
            None => digit_value(c) is None,
        },
{
    if '0' <= c && c <= '9' {
        Some(c as u32 - 0x30)
    } else if 'a' <= c && c <= 'z' {
        Some(c as u32 - 0x61 + 10)
    } else if 'A' <= c && c <= 'Z' {
        Some(c as u32 - 0x41 + 10)
    } else {
        None
    }
}

/// Reads a number no larger than `max` in base `radix`.
pub fn parse(s: &[char], radix: u32, max: u64) -> (r: Option<u64>)
    requires
        2 <= radix <= 36,
    ensures
        match r {
            Some(n) => parsed(s@, radix as nat, max as nat) == Some(n as nat),
            None => parsed(s@, radix as nat, max as nat) is None,
        },
{
    let start: usize = if s.len() > 0 && s[0] == '+' {
        1
    } else {
        0
    };
    let ghost d = unsigned_part(s@);
    if start == s.len() {
        return None;
    }
    let mut n: u64 = 0;
    let mut over: bool = false;
    let mut i: usize = start;
    assert(d.take(0) =~= Seq::<char>::empty());
    assert(start == 0 ==> d =~= s@.subrange(0, s@.len() as int));
    while i < s.len()
        invariant
            2 <= radix <= 36,
            start <= i <= s.len(),
            start <= 1,
            d == s@.subrange(start as int, s@.len() as int),
            d == unsigned_part(s@),
            forall|j: int| 0 <= j < i - start ==> is_digit(d[j], radix as nat),
            over ==> value(d.take(i - start), radix as nat) > max,
            !over ==> n == value(d.take(i - start), radix as nat) && n <= max,
        decreases s.len() - i,
    {
        assert(d[i - start] == s@[i as int]);
        let v: u32 = match digit_of(s[i]) {
            Some(v) if v < radix => v,
            _ => {
                assert(!is_digit(d[i - start], radix as nat));
                return None;
            },
        };
        proof {
            assert(d.take(i - start + 1).drop_last() =~= d.take(i - start));
            assert(d.take(i - start + 1).last() == s@[i as int]);
            let head = value(d.take(i - start), radix as nat);
            assert(value(d.take(i - start + 1), radix as nat) == head * (radix as nat) + v);
            assert(head * (radix as nat) >= head) by (nonlinear_arith)
                requires
                    radix >= 1,
            ;
        }
        if !over {
            let wide: u128 = n as u128;
            assert(wide * radix <= 0xffff_ffff_ffff_ffff * 36) by (nonlinear_arith)
                requires
                    wide <= 0xffff_ffff_ffff_ffff,
                    radix <= 36,
            ;
            let next: u128 = wide * (radix as u128) + v as u128;
            if next > max as u128 {
                over = true;
            } else {
                n = next as u64;
            }
        }
        i = i + 1;
        assert(i - start == i - 1 - start + 1);
    }
    assert(d.take(d.len() as int) =~= d);
    if over {
        None
    } else {
        Some(n)
    }
}

/// The character of a hexadecimal digit, in lower or upper case.
pub open spec fn hex_digit(d: nat, upper: bool) -> char {
    if d < 10 {
        (0x30 + d) as char
    } else if upper {
        (0x41 + d - 10) as char
    } else {
        (0x61 + d - 10) as char
    }
}

/// A byte as two hexadecimal digits.
pub open spec fn hex_byte(b: u8, upper: bool) -> Seq<char> {
    seq![hex_digit((b / 16) as nat, upper), hex_digit((b % 16) as nat, upper)]
}

fn hex_char(d: u8, upper: bool) -> (r: char)
    requires
        d < 16,
    ensures
        r == hex_digit(d as nat, upper),
{
    let c: u8 = if d < 10 {
        0x30 + d
    } else if upper {
        0x41 + (d - 10)
    } else {
        0x61 + (d - 10)
    };
    c as char
}

/// Appends a byte as two hexadecimal digits.
pub fn put_hex(out: &mut String, b: u8, upper: bool)
    ensures
        final(out)@ == old(out)@ + hex_byte(b, upper),
{
    let ghost before = out@;
    out.push(hex_char(b / 16, upper));
    out.push(hex_char(b % 16, upper));
    assert(out@ =~= before + hex_byte(b, upper));
}

/// Writes a number in decimal.
pub fn decimal(n: u64) -> (r: String)
    ensures
        r@ == digits(n as nat),
    decreases n,
{
    if n < 10 {
        let mut s = String::new();
        let c: u8 = 0x30 + n as u8;
        s.push(c as char);
        assert(s@ =~= digits(n as nat));
        s
    } else {
        let mut s = decimal(n / 10);
        let c: u8 = 0x30 + (n % 10) as u8;
        s.push(c as char);
        s
    }
}

/// Writes a number in decimal with at least two digits.
pub fn decimal_two(n: u64) -> (r: String)
    ensures
        r@ == two_digits(n as nat),
{
    let d = decimal(n);
    if n < 10 {
        let s = text::cat("0", d.as_str());
        proof {
            reveal_strlit("0");
        }
        assert(s@ =~= two_digits(n as nat));
        s
    } else {
        d
    }
}

/// Writes a whole number in decimal, with a sign when it is negative.
pub fn signed_decimal(n: i128) -> (r: String)
    requires
        -u64::MAX <= n <= u64::MAX,
    ensures
        r@ == signed(n as int),
{
    if n < 0 {
        text::cat("-", decimal((-n) as u64).as_str())
    } else {
        decimal(n as u64)
    }
}

/// Digits are written with the ten characters for them, the lowest last.
pub proof fn law_digits(n: nat, d: nat)
    requires
        d < 10,
    ensures
        digits(d) == seq!["0123456789"@[d as int]],
        n > 0 ==> digits(10 * n + d) == digits(n).push("0123456789"@[d as int]),
{
    reveal_strlit("0123456789");
    assert(d == 0 || d == 1 || d == 2 || d == 3 || d == 4 || d == 5 || d == 6 || d == 7 || d == 8 || d
        == 9);
    assert(digit(d) == "0123456789"@[d as int]);
    if n > 0 {
        assert((10 * n + d) / 10 == n && (10 * n + d) % 10 == d);
    }
}

/// A byte is written as two of the sixteen characters, the higher half first.
pub proof fn law_hex_byte(b: u8, upper: bool)
    ensures
        ({
            let table = if upper {
                "0123456789ABCDEF"@
            } else {
                "0123456789abcdef"@
            };
            hex_byte(b, upper) == seq![table[(b / 16) as int], table[(b % 16) as int]]
        }),
{
    reveal_strlit("0123456789ABCDEF");
    reveal_strlit("0123456789abcdef");
    lemma_hex_char((b / 16) as nat, upper);
    lemma_hex_char((b % 16) as nat, upper);
}

proof fn lemma_hex_char(d: nat, upper: bool)
    requires
        d < 16,
    ensures
        hex_digit(d, upper) == (if upper {
            "0123456789ABCDEF"@
        } else {
            "0123456789abcdef"@
        })[d as int],
{
    reveal_strlit("0123456789ABCDEF");
    reveal_strlit("0123456789abcdef");
    assert(d == 0 || d == 1 || d == 2 || d == 3 || d == 4 || d == 5 || d == 6 || d == 7 || d == 8 || d
        == 9 || d == 10 || d == 11 || d == 12 || d == 13 || d == 14 || d == 15);
}

/// A number is read from digits alone, at least one of them, with a plus sign before
/// them or not, and only when it is not too large.
pub proof fn law_parsed(s: Seq<char>, n: nat, max: nat)
    ensures
        parsed(Seq::empty(), 10, max) is None,
        n > max ==> parsed(digits(n), 10, max) is None,
        n <= max ==> parsed(seq!['+'] + digits(n), 10, max) == Some(n),
        (exists|i: int| 0 < i < s.len() && !('0' <= #[trigger] s[i] <= '9')) ==> parsed(s, 10, max) is None,
{
    lemma_digits(n);
    let d = digits(n);
    assert('0' <= d[0] <= '9');
    assert(unsigned_part(d) == d);
    let plus = seq!['+'] + d;
    assert(plus.subrange(1, plus.len() as int) =~= d);
    if exists|i: int| 0 < i < s.len() && !('0' <= #[trigger] s[i] <= '9') {
        let i = choose|i: int| 0 < i < s.len() && !('0' <= #[trigger] s[i] <= '9');
        let u = unsigned_part(s);
        let k = i - (s.len() - u.len());
        assert(u[k] == s[i]);
        assert(!is_digit(u[k], 10));
    }
}

/// Whole numbers below zero have a minus sign before the digits, others none.
pub proof fn law_signed(n: nat)
    ensures
        signed(n as int) == digits(n),
        n > 0 ==> signed(-(n as int)) == "-"@ + digits(n),
{
}

/// What is written in decimal reads back as the same number.
pub proof fn law_decimal_round_trip(n: nat, max: nat)
    requires
        n <= max,
    ensures
        parsed(digits(n), 10, max) == Some(n),
{
    lemma_digits(n);
    assert(digits(n)[0] != '+') by {
        assert(is_digit(digits(n)[0], 10));
    }
}

/// The digits of a number are digits, and write it.
pub proof fn lemma_digits(n: nat)
    ensures
        digits(n).len() > 0,
        forall|i: int| 0 <= i < digits(n).len() ==> '0' <= #[trigger] digits(n)[i] <= '9',
        forall|i: int| 0 <= i < digits(n).len() ==> is_digit(#[trigger] digits(n)[i], 10),
        value(digits(n), 10) == n,
    decreases n,
{
    if n >= 10 {
        lemma_digits(n / 10);
        assert(digits(n).drop_last() =~= digits(n / 10));
    } else {
        reveal_with_fuel(value, 2);
        assert(digits(n).drop_last() =~= Seq::<char>::empty());
    }
}

} // verus!
