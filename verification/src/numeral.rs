//! Numbers written as text, and read back from it.
use vstd::arithmetic::div_mod::*;
use vstd::arithmetic::mul::*;
use vstd::prelude::*;
use vstd::string::*;

use crate::text::chars_of;

verus! {

/// The character that stands for `d` in a numeral: `0` to `9`, then `a` to `f`.
pub open spec fn digit_char(d: int) -> char {
    if d < 10 {
        ('0' as int + d) as char
    } else {
        ('a' as int + d - 10) as char
    }
}

/// The number that a digit stands for, lower case letters included.
pub open spec fn digit_value(c: char) -> int {
    if '0' <= c <= '9' {
        c as int - '0' as int
    } else {
        c as int - 'a' as int + 10
    }
}

/// `n` written in base `radix`, most significant digit first and without leading zeros.
pub open spec fn numeral(n: nat, radix: nat) -> Seq<char>
    decreases n,
{
    if radix < 2 || n < radix {
        seq![digit_char(n as int)]
    } else {
        proof {
            lemma_div_decreases(n as int, radix as int);
        }
        numeral(n / radix, radix).push(digit_char((n % radix) as int))
    }
}

/// `n` in decimal.
pub open spec fn decimal(n: nat) -> Seq<char> {
    numeral(n, 10)
}

/// `n` in decimal, with a minus sign where it is negative.
pub open spec fn signed_decimal(n: int) -> Seq<char> {
    if n < 0 {
        "-"@ + decimal((-n) as nat)
    } else {
        decimal(n as nat)
    }
}

/// `n` in lower case hexadecimal.
pub open spec fn hexadecimal(n: nat) -> Seq<char> {
    numeral(n, 16)
}

/// The number that the digits of `s` spell in base `radix`.
pub open spec fn spelled(s: Seq<char>, radix: nat) -> int
    decreases s.len(),
{
    if s.len() == 0 {
        0
    } else {
        spelled(s.drop_last(), radix) * radix + digit_value(s.last())
    }
}

/// `0` to `9`.
pub open spec fn is_digit(c: char) -> bool {
    '0' <= c <= '9'
}

/// `0` to `9`, `a` to `f` or `A` to `F`.
pub open spec fn is_hex_digit(c: char) -> bool {
    is_digit(c) || 'a' <= c <= 'f' || 'A' <= c <= 'F'
}

/// Every character of `s` is a decimal digit.
pub open spec fn all_digits(s: Seq<char>) -> bool {
    forall|i: int| 0 <= i < s.len() ==> is_digit(#[trigger] s[i])
}

/// Every character of `s` is a hexadecimal digit of either case.
pub open spec fn all_hex_digits(s: Seq<char>) -> bool {
    forall|i: int| 0 <= i < s.len() ==> is_hex_digit(#[trigger] s[i])
}

/// `s` without one leading plus sign.
pub open spec fn unsigned_part(s: Seq<char>) -> Seq<char> {
    if s.len() > 0 && s.first() == '+' {
        s.drop_first()
    } else {
        s
    }
}

/// The number that `s` denotes as a `u32`: decimal digits, with at most one plus sign before them.
pub open spec fn u32_of(s: Seq<char>) -> Option<u32> {
    let digits = unsigned_part(s);
    if digits.len() > 0 && all_digits(digits) && spelled(digits, 10) <= u32::MAX {
        Some(spelled(digits, 10) as u32)
    } else {
        None
    }
}

/// A numeral is not empty, each of its characters stands for a digit below the radix, and it
/// spells the number that it was written for.
pub proof fn numeral_spells(n: nat, radix: nat)
    requires
        2 <= radix <= 16,
    ensures
        numeral(n, radix).len() > 0,
        spelled(numeral(n, radix), radix) == n,
        forall|i: int|
            0 <= i < numeral(n, radix).len() ==> {
                let c = #[trigger] numeral(n, radix)[i];
                is_hex_digit(c) && 0 <= digit_value(c) < radix && c == digit_char(digit_value(c))
            },
    decreases n,
{
    let s = numeral(n, radix);
    if n < radix {
        assert(s.drop_last() =~= Seq::<char>::empty());
        reveal_with_fuel(spelled, 2);
        assert(digit_value(digit_char(n as int)) == n);
    } else {
        lemma_div_decreases(n as int, radix as int);
        lemma_fundamental_div_mod(n as int, radix as int);
        lemma_mod_bound(n as int, radix as int);
        numeral_spells(n / radix, radix);
        let d = (n % radix) as int;
        assert(s.drop_last() =~= numeral(n / radix, radix));
        assert(s.last() == digit_char(d));
        assert(digit_value(digit_char(d)) == d);
        lemma_mul_is_commutative((n / radix) as int, radix as int);
        assert forall|i: int| 0 <= i < s.len() implies {
            let c = #[trigger] s[i];
            is_hex_digit(c) && 0 <= digit_value(c) < radix && c == digit_char(digit_value(c))
        } by {
            if i < s.len() - 1 {
                assert(s[i] == numeral(n / radix, radix)[i]);
            }
        }
    }
}

/// Two numbers with the same numeral are the same number.
pub proof fn numeral_injective(a: nat, b: nat, radix: nat)
    requires
        2 <= radix <= 16,
        numeral(a, radix) == numeral(b, radix),
    ensures
        a == b,
{
    numeral_spells(a, radix);
    numeral_spells(b, radix);
}

/// A decimal numeral holds nothing but the digits `0` to `9`.
pub proof fn decimal_is_digits(n: nat)
    ensures
        decimal(n).len() > 0,
        all_digits(decimal(n)),
{
    numeral_spells(n, 10);
}

/// Reading a `u32` back from its decimal numeral gives the number that was written.
pub proof fn u32_round_trip(n: u32)
    ensures
        u32_of(decimal(n as nat)) == Some(n),
{
    numeral_spells(n as nat, 10);
    decimal_is_digits(n as nat);
    assert(is_digit(decimal(n as nat)[0]));
}

/// The digits before the last ones spell no more than all of them.
proof fn spelled_grows(s: Seq<char>, k: int)
    requires
        all_digits(s),
        0 <= k <= s.len(),
    ensures
        0 <= spelled(s.take(k), 10) <= spelled(s, 10),
    decreases s.len(),
{
    if s.len() == 0 {
        assert(s.take(k) =~= s);
    } else {
        let init = s.drop_last();
        assert forall|i: int| 0 <= i < init.len() implies is_digit(#[trigger] init[i]) by {
            assert(init[i] == s[i]);
        }
        assert(is_digit(s[s.len() - 1]));
        spelled_grows(init, init.len() as int);
        assert(init.take(init.len() as int) =~= init);
        if k == s.len() {
            assert(s.take(k) =~= s);
        } else {
            spelled_grows(init, k);
            assert(init.take(k) =~= s.take(k));
        }
    }
}

/// The one-character text for a digit below sixteen.
fn digit_text(d: u128) -> (r: &'static str)
    requires
        d < 16,
    ensures
        r@ == seq![digit_char(d as int)],
{
    proof {
        reveal_strlit("0");
        reveal_strlit("1");
        reveal_strlit("2");
        reveal_strlit("3");
        reveal_strlit("4");
        reveal_strlit("5");
        reveal_strlit("6");
        reveal_strlit("7");
        reveal_strlit("8");
        reveal_strlit("9");
        reveal_strlit("a");
        reveal_strlit("b");
        reveal_strlit("c");
        reveal_strlit("d");
        reveal_strlit("e");
        reveal_strlit("f");
    }
    let r = match d {
        0 => "0",
        1 => "1",
        2 => "2",
        3 => "3",
        4 => "4",
        5 => "5",
        6 => "6",
        7 => "7",
        8 => "8",
        9 => "9",
        10 => "a",
        11 => "b",
        12 => "c",
        13 => "d",
        14 => "e",
        _ => "f",
    };
    assert(r@ =~= seq![digit_char(d as int)]);
    r
}

/// `n` in base `radix`.
fn write_numeral(n: u128, radix: u128) -> (r: String)
    requires
        2 <= radix <= 16,
    ensures
        r@ == numeral(n as nat, radix as nat),
    decreases n,
{
    if n < radix {
        digit_text(n).to_owned()
    } else {
        proof {
            lemma_div_decreases(n as int, radix as int);
            lemma_mod_bound(n as int, radix as int);
        }
        let mut out = write_numeral(n / radix, radix);
        out.append(digit_text(n % radix));
        assert(out@ =~= numeral(n as nat, radix as nat));
        out
    }
}

/// `n` in decimal.
pub fn write_decimal(n: u128) -> (r: String)
    ensures
        r@ == decimal(n as nat),
{
    write_numeral(n, 10)
}

/// `n` in decimal, with a minus sign where it is negative.
pub fn write_signed_decimal(n: i32) -> (r: String)
    ensures
        r@ == signed_decimal(n as int),
{
    if n < 0 {
        let magnitude: u128 = (-(n as i64)) as u128;
        let mut out = "-".to_owned();
        out.append(write_decimal(magnitude).as_str());
        out
    } else {
        write_decimal(n as u128)
    }
}

/// `n` in lower case hexadecimal.
pub fn write_hexadecimal(n: u128) -> (r: String)
    ensures
        r@ == hexadecimal(n as nat),
{
    write_numeral(n, 16)
}

/// Whether every character is a decimal digit.
pub fn only_digits(s: &Vec<char>) -> (r: bool)
    ensures
        r == all_digits(s@),
{
    let mut i: usize = 0;
    while i < s.len()
        invariant
            i <= s@.len(),
            forall|j: int| 0 <= j < i ==> is_digit(#[trigger] s@[j]),
        decreases s@.len() - i,
    {
        if !('0' <= s[i] && s[i] <= '9') {
            assert(!is_digit(s@[i as int]));
            return false;
        }
        i = i + 1;
    }
    true
}

/// Whether every character is a hexadecimal digit of either case.
pub fn only_hex_digits(s: &Vec<char>) -> (r: bool)
    ensures
        r == all_hex_digits(s@),
{
    let mut i: usize = 0;
    while i < s.len()
        invariant
            i <= s@.len(),
            forall|j: int| 0 <= j < i ==> is_hex_digit(#[trigger] s@[j]),
        decreases s@.len() - i,
    {
        let c = s[i];
        if !(('0' <= c && c <= '9') || ('a' <= c && c <= 'f') || ('A' <= c && c <= 'F')) {
            assert(!is_hex_digit(s@[i as int]));
            return false;
        }
        i = i + 1;
    }
    true
}

/// Reads a `u32` from decimal digits with at most one plus sign before them.
pub fn parse_u32(s: &str) -> (r: Option<u32>)
    ensures
        r == u32_of(s@),
{
    let chars = chars_of(s);
    let start: usize = if chars.len() > 0 && chars[0] == '+' {
        1
    } else {
        0
    };
    let ghost digits = unsigned_part(s@);
    assert(digits =~= s@.skip(start as int));
    if start == chars.len() {
        return None;
    }
    let mut value: u64 = 0;
    let mut i: usize = start;
    while i < chars.len()
        invariant
            start <= i <= chars@.len(),
            chars@ == s@,
            digits == s@.skip(start as int),
            digits == unsigned_part(s@),
            digits.len() == s@.len() - start,
            all_digits(digits.take(i - start)),
            value == spelled(digits.take(i - start), 10),
            value <= u32::MAX,
        decreases chars@.len() - i,
    {
        let c = chars[i];
        let ghost k = i - start;
        assert(digits[k] == c);
        if !('0' <= c && c <= '9') {
            assert(!is_digit(digits[k]));
            return None;
        }
        let d: u64 = (c as u32 - '0' as u32) as u64;
        proof {
            let next = digits.take(k + 1);
            assert(next.drop_last() =~= digits.take(k));
            assert(next.last() == c);
            assert forall|j: int| 0 <= j < next.len() implies is_digit(#[trigger] next[j]) by {
                if j < k {
                    assert(next[j] == digits.take(k)[j]);
                }
            }
        }
        value = value * 10 + d;
        if value > 0xffff_ffff {
            proof {
                if all_digits(digits) {
                    spelled_grows(digits, k + 1);
                }
            }
            return None;
        }
        i = i + 1;
    }
    proof {
        assert(digits.take(digits.len() as int) =~= digits);
    }
    Some(value as u32)
}

// ---- What numerals look like ----

/// A decimal numeral is written digit by digit: one digit below ten, and one more behind the
/// numeral of the tens.
pub proof fn decimal_by_digits(tens: nat, d: nat)
    requires
        d < 10,
    ensures
        decimal(d) == seq![('0' as int + d) as char],
        tens > 0 ==> decimal(10 * tens + d) == decimal(tens).push(('0' as int + d) as char),
{
    if tens > 0 {
        lemma_fundamental_div_mod_converse((10 * tens + d) as int, 10, tens as int, d as int);
    }
}

/// A hexadecimal numeral is written digit by digit, in lower case.
pub proof fn hexadecimal_by_digits(sixteens: nat, d: nat)
    requires
        d < 16,
    ensures
        ({
            let c = if d < 10 {
                ('0' as int + d) as char
            } else {
                ('a' as int + (d - 10)) as char
            };
            &&& hexadecimal(d) == seq![c]
            &&& sixteens > 0 ==> hexadecimal(16 * sixteens + d) == hexadecimal(sixteens).push(c)
        }),
{
    if sixteens > 0 {
        lemma_fundamental_div_mod_converse(
            (16 * sixteens + d) as int,
            16,
            sixteens as int,
            d as int,
        );
    }
}

/// A minus sign stands before the numeral of a negative number, and nothing before another.
pub proof fn sign_stands_in_front(n: nat)
    ensures
        n > 0 ==> signed_decimal(-(n as int)) == seq!['-'] + decimal(n),
        signed_decimal(n as int) == decimal(n),
{
    reveal_strlit("-");
    assert("-"@ =~= seq!['-']);
}

/// So many zeros.
pub open spec fn zeros(k: nat) -> Seq<char> {
    Seq::new(k, |i: int| '0')
}

proof fn zeros_spell_nothing(k: nat, x: Seq<char>)
    ensures
        spelled(zeros(k) + x, 10) == spelled(x, 10),
    decreases k + x.len(),
{
    let s = zeros(k) + x;
    if x.len() > 0 {
        assert(s.drop_last() =~= zeros(k) + x.drop_last());
        assert(s.last() == x.last());
        zeros_spell_nothing(k, x.drop_last());
    } else if k > 0 {
        let fewer = (k - 1) as nat;
        assert(s.drop_last() =~= zeros(fewer) + x);
        assert(s.last() == '0');
        zeros_spell_nothing(fewer, x);
    } else {
        assert(s =~= x);
    }
}

proof fn digits_are_a_padded_numeral(t: Seq<char>) -> (k: nat)
    requires
        t.len() > 0,
        all_digits(t),
    ensures
        spelled(t, 10) >= 0,
        t == zeros(k) + decimal(spelled(t, 10) as nat),
    decreases t.len(),
{
    let init = t.drop_last();
    let c = t[t.len() - 1];
    let d = (c as int - '0' as int) as nat;
    assert(is_digit(c));
    assert(('0' as int + d) as char == c);
    if init.len() == 0 {
        reveal_with_fuel(spelled, 2);
        decimal_by_digits(0, d);
        assert(t =~= zeros(0) + decimal(d));
        0
    } else {
        assert forall|i: int| 0 <= i < init.len() implies is_digit(#[trigger] init[i]) by {
            assert(init[i] == t[i]);
        }
        let k = digits_are_a_padded_numeral(init);
        let m = spelled(init, 10) as nat;
        assert(spelled(t, 10) == 10 * m + d);
        decimal_by_digits(m, d);
        if m > 0 {
            assert(t =~= init.push(c));
            assert((zeros(k) + decimal(m)).push(c) =~= zeros(k) + decimal(m).push(c));
            k
        } else {
            decimal_by_digits(0, 0);
            assert(t =~= init.push(c));
            assert(init =~= zeros(k + 1));
            assert(zeros(k + 1).push(c) =~= zeros(k + 1) + seq![c]);
            k + 1
        }
    }
}

/// A numeral is read back to its number, with any zeros before it and with or without a plus sign
/// before those.
pub proof fn padded_numerals_are_read(n: u32, k: nat)
    ensures
        u32_of(zeros(k) + decimal(n as nat)) == Some(n),
        u32_of(seq!['+'] + zeros(k) + decimal(n as nat)) == Some(n),
{
    let s = zeros(k) + decimal(n as nat);
    decimal_is_digits(n as nat);
    numeral_spells(n as nat, 10);
    zeros_spell_nothing(k, decimal(n as nat));
    assert forall|i: int| 0 <= i < s.len() implies is_digit(#[trigger] s[i]) by {
        if i >= k {
            assert(s[i] == decimal(n as nat)[i - k]);
        }
    }
    assert(is_digit(s[0]));
    let p = seq!['+'] + zeros(k) + decimal(n as nat);
    assert(p.drop_first() =~= s);
}

/// Nothing else is read as a number: what is read as `n` is its numeral, with zeros before it if
/// any, and a plus sign before those if any.
pub proof fn only_numerals_are_read(s: Seq<char>, n: u32)
    requires
        u32_of(s) == Some(n),
    ensures
        exists|k: nat|
            s == #[trigger] zeros(k) + decimal(n as nat) || s == seq!['+'] + zeros(k) + decimal(
                n as nat,
            ),
{
    let digits = unsigned_part(s);
    let k = digits_are_a_padded_numeral(digits);
    if s.len() > 0 && s[0] == '+' {
        assert(s =~= seq!['+'] + digits);
        assert(seq!['+'] + (zeros(k) + decimal(n as nat)) =~= seq!['+'] + zeros(k) + decimal(
            n as nat,
        ));
    }
    assert(s == zeros(k) + decimal(n as nat) || s == seq!['+'] + zeros(k) + decimal(n as nat));
}

} // verus!
