//! Decimal rendering of fixed-point quantities.
use vstd::prelude::*;

verus! {

/// The character of the decimal digit `d` (`d < 10`).
pub open spec fn digit_char(d: nat) -> char {
    if d == 0 {
        '0'
    } else if d == 1 {
        '1'
    } else if d == 2 {
        '2'
    } else if d == 3 {
        '3'
    } else if d == 4 {
        '4'
    } else if d == 5 {
        '5'
    } else if d == 6 {
        '6'
    } else if d == 7 {
        '7'
    } else if d == 8 {
        '8'
    } else {
        '9'
    }
}

/// The decimal numeral of `n`, without leading zeros.
pub open spec fn digits(n: nat) -> Seq<char>
    decreases n,
{
    if n < 10 {
        seq![digit_char(n)]
    } else {
        digits(n / 10).push(digit_char(n % 10))
    }
}

/// The value of a decimal digit character.
pub open spec fn digit_value(c: char) -> nat {
    if c == '0' {
        0
    } else if c == '1' {
        1
    } else if c == '2' {
        2
    } else if c == '3' {
        3
    } else if c == '4' {
        4
    } else if c == '5' {
        5
    } else if c == '6' {
        6
    } else if c == '7' {
        7
    } else if c == '8' {
        8
    } else {
        9
    }
}

/// The number a string of decimal digits denotes.
pub open spec fn numeral_value(s: Seq<char>) -> nat
    decreases s.len(),
{
    if s.len() == 0 {
        0
    } else {
        10 * numeral_value(s.drop_last()) + digit_value(s.last())
    }
}

/// Law: the numeral of `n` reads back as `n` and has no leading zero
/// unless it is `0` itself.
pub proof fn lemma_digits_read_back(n: nat)
    ensures
        numeral_value(digits(n)) == n,
        digits(n).len() > 0,
        digits(n)[0] == '0' ==> n == 0,
    decreases n,
{
    assert(digit_value(digit_char(n % 10)) == n % 10);
    if n >= 10 {
        lemma_digits_read_back(n / 10);
        assert(digits(n).drop_last() == digits(n / 10));
        assert(digits(n)[0] == digits(n / 10)[0]);
        assert(10 * (n / 10) + n % 10 == n);
        assert(digits(n).last() == digit_char(n % 10));
        assert(numeral_value(digits(n)) == 10 * numeral_value(digits(n).drop_last()) + digit_value(
            digits(n).last(),
        ));
    } else {
        assert(digits(n).drop_last() =~= Seq::<char>::empty());
        assert(digit_value(digit_char(n)) == n);
        assert(numeral_value(digits(n)) == 10 * numeral_value(digits(n).drop_last()) + digit_value(
            digits(n).last(),
        ));
    }
}

/// `centi / 100` written with exactly two decimals.
pub open spec fn fixed2_text(centi: nat) -> Seq<char> {
    digits(centi / 100) + seq!['.', digit_char((centi % 100) / 10), digit_char(centi % 10)]
}

/// `deci / 10` written with exactly one decimal.
pub open spec fn fixed1_text(deci: nat) -> Seq<char> {
    digits(deci / 10) + seq!['.', digit_char(deci % 10)]
}

/// `centi / 100` written in the shortest form that keeps its value, the way
/// a two-decimal number is displayed with `{}`: no trailing zeros in the
/// fraction and no decimal point for whole numbers.
pub open spec fn short_text(centi: nat) -> Seq<char> {
    let whole = digits(centi / 100);
    let frac = centi % 100;
    if frac == 0 {
        whole
    } else if frac % 10 == 0 {
        whole + seq!['.', digit_char(frac / 10)]
    } else {
        whole + seq!['.', digit_char(frac / 10), digit_char(frac % 10)]
    }
}

/// The one-character string of the digit `d`.
fn digit_str(d: u64) -> (r: &'static str)
    requires
        d < 10,
    ensures
        r@ == seq![digit_char(d as nat)],
{
    proof {
        reveal_strlit("0");
        reveal_strlit("1");
        reveal_strlit("2");
        reveal_strlit("3");
        reveal_strlit("4");
        reveal_strlit("5");
        reveal_strlit("6");
        reveal_strlit("7");
        reveal_strlit("8");
        reveal_strlit("9");
    }
    let r = if d == 0 {
        "0"
    } else if d == 1 {
        "1"
    } else if d == 2 {
        "2"
    } else if d == 3 {
        "3"
    } else if d == 4 {
        "4"
    } else if d == 5 {
        "5"
    } else if d == 6 {
        "6"
    } else if d == 7 {
        "7"
    } else if d == 8 {
        "8"
    } else {
        "9"
    };
    assert(r@ =~= seq![digit_char(d as nat)]);
    r
}

/// Writes `n` in decimal.
pub fn decimal(n: u128) -> (r: String)
    ensures
        r@ == digits(n as nat),
    decreases n,
{
    if n < 10 {
        String::from_str(digit_str(n as u64))
    } else {
        let mut s = decimal(n / 10);
        s.append(digit_str((n % 10) as u64));
        s
    }
}

/// Appends the point and the digits of a fraction to `s`.
fn push_point(s: &mut String)
    ensures
        final(s)@ == old(s)@.push('.'),
{
    proof {
        reveal_strlit(".");
    }
    s.append(".");
    assert(s@ =~= old(s)@.push('.'));
}

/// Writes `centi / 100` with two decimals.
pub fn fixed2(centi: u128) -> (r: String)
    ensures
        r@ == fixed2_text(centi as nat),
{
    let mut s = decimal(centi / 100);
    push_point(&mut s);
    s.append(digit_str(((centi % 100) / 10) as u64));
    s.append(digit_str((centi % 10) as u64));
    assert(s@ =~= fixed2_text(centi as nat));
    s
}

/// Writes `deci / 10` with one decimal.
pub fn fixed1(deci: u64) -> (r: String)
    ensures
        r@ == fixed1_text(deci as nat),
{
    let mut s = decimal((deci / 10) as u128);
    push_point(&mut s);
    s.append(digit_str(deci % 10));
    assert(s@ =~= fixed1_text(deci as nat));
    s
}

/// Writes `centi / 100` in its shortest form.
pub fn short(centi: u64) -> (r: String)
    ensures
        r@ == short_text(centi as nat),
{
    let mut s = decimal((centi / 100) as u128);
    let frac = centi % 100;
    if frac != 0 {
        push_point(&mut s);
        s.append(digit_str(frac / 10));
        if frac % 10 != 0 {
            s.append(digit_str(frac % 10));
        }
    }
    assert(s@ =~= short_text(centi as nat));
    s
}

/// Writes `deci / 10` in its shortest form: the same text as
/// `short_text(deci as nat * 10)`.
pub fn short_tenths(deci: u64) -> (r: String)
    ensures
        r@ == short_text(deci as nat * 10),
{
    let mut s = decimal((deci / 10) as u128);
    let frac = deci % 10;
    if frac != 0 {
        push_point(&mut s);
        s.append(digit_str(frac));
    }
    proof {
        let c: nat = deci as nat * 10;
        assert(c / 100 == deci / 10 && c % 100 == 10 * (deci % 10)) by (nonlinear_arith)
            requires
                c == deci * 10,
        ;
        assert((10 * (deci % 10)) % 10 == 0 && (10 * (deci % 10)) / 10 == deci % 10) by (nonlinear_arith);
    }
    assert(s@ =~= short_text(deci as nat * 10));
    s
}

} // verus!
