//! Decimal text of unsigned integers and of fixed-point values with two
//! fractional digits.
use vstd::arithmetic::div_mod::{lemma_div_is_ordered, lemma_fundamental_div_mod};
use vstd::prelude::*;

verus! {

/// The character of a decimal digit.
pub open spec fn digit_char(d: nat) -> char {
    if d == 0 {
        '0'
    } else if d == 1 {
        '1'
    } else if d == 2 {
        '2'
    } else if d == 3 {
        '3'
    } else if d == 4 {
        '4'
    } else if d == 5 {
        '5'
    } else if d == 6 {
        '6'
    } else if d == 7 {
        '7'
    } else if d == 8 {
        '8'
    } else {
        '9'
    }
}

/// Decimal digits of `n`, most significant first, without leading zeros.
pub open spec fn digits_of(n: nat) -> Seq<char>
    decreases n,
{
    if n < 10 {
        seq![digit_char(n)]
    } else {
        digits_of(n / 10).push(digit_char(n % 10))
    }
}

/// `c` hundredths written with two fractional digits: 1234 reads "12.34".
pub open spec fn centi_text(c: nat) -> Seq<char> {
    digits_of(c / 100) + seq!['.', digit_char((c / 10) % 10), digit_char(c % 10)]
}

/// `kb / 1024` in hundredths, rounded to the nearest, ties to the even
/// neighbour: the mebibytes that `kb` kibibytes make, to two places.
pub open spec fn mib_centi(kb: nat) -> nat {
    let q = (kb * 100) / 1024;
    let r = (kb * 100) % 1024;
    if r > 512 || (r == 512 && q % 2 == 1) {
        q + 1
    } else {
        q
    }
}

fn digit_str(d: u64) -> (r: &'static str)
    requires
        d < 10,
    ensures
        r@ == seq![digit_char(d as nat)],
{
    proof {
        reveal_strlit("0");
        reveal_strlit("1");
        reveal_strlit("2");
        reveal_strlit("3");
        reveal_strlit("4");
        reveal_strlit("5");
        reveal_strlit("6");
        reveal_strlit("7");
        reveal_strlit("8");
        reveal_strlit("9");
    }
    if d == 0 {
        "0"
    } else if d == 1 {
        "1"
    } else if d == 2 {
        "2"
    } else if d == 3 {
        "3"
    } else if d == 4 {
        "4"
    } else if d == 5 {
        "5"
    } else if d == 6 {
        "6"
    } else if d == 7 {
        "7"
    } else if d == 8 {
        "8"
    } else {
        "9"
    }
}

/// Appends the decimal digits of `n` to `s`.
pub fn push_decimal(s: &mut String, n: u64)
    ensures
        final(s)@ == old(s)@ + digits_of(n as nat),
    decreases n,
{
    if n >= 10 {
        push_decimal(s, n / 10);
    }
    s.append(digit_str(n % 10));
    proof {
        if n >= 10 {
            assert(old(s)@ + digits_of(n as nat) =~= old(s)@ + digits_of((n / 10) as nat) + seq![
                digit_char((n % 10) as nat),
            ]);
        } else {
            assert(digits_of(n as nat) =~= seq![digit_char(n as nat)]);
        }
    }
}

/// Appends `c` hundredths with two fractional digits to `s`.
pub fn push_centi(s: &mut String, c: u64)
    ensures
        final(s)@ == old(s)@ + centi_text(c as nat),
{
    push_decimal(s, c / 100);
    s.append(".");
    s.append(digit_str((c / 10) % 10));
    s.append(digit_str(c % 10));
    proof {
        reveal_strlit(".");
        assert(final(s)@ =~= old(s)@ + centi_text(c as nat));
    }
}

/// The decimal text of `n`.
pub fn decimal_text(n: u64) -> (r: String)
    ensures
        r@ == digits_of(n as nat),
{
    let mut s = String::new();
    push_decimal(&mut s, n);
    assert(s@ =~= digits_of(n as nat));
    s
}

/// The mebibytes that `kb` kibibytes make, in hundredths, rounded to the
/// nearest with ties to even.
pub fn mib_centi_of(kb: u64) -> (r: u64)
    ensures
        r == mib_centi(kb as nat),
{
    let scaled: u128 = (kb as u128) * 100;
    let q: u128 = scaled / 1024;
    let r: u128 = scaled % 1024;
    assert(q < 0x1_0000_0000_0000_0000u128 / 10) by (nonlinear_arith)
        requires
            q == scaled / 1024,
            scaled == (kb as u128) * 100,
            kb < 0x1_0000_0000_0000_0000u128,
    ;
    if r > 512 || (r == 512 && q % 2 == 1) {
        (q + 1) as u64
    } else {
        q as u64
    }
}

/// More kibibytes never show as fewer mebibytes.
pub proof fn lemma_mib_centi_monotone(a: nat, b: nat)
    requires
        a <= b,
    ensures
        mib_centi(a) <= mib_centi(b),
{
    let (sa, sb) = ((a * 100) as int, (b * 100) as int);
    assert(sa <= sb) by (nonlinear_arith)
        requires
            a <= b,
            sa == a * 100,
            sb == b * 100,
    ;
    lemma_div_is_ordered(sa, sb, 1024);
    lemma_fundamental_div_mod(sa, 1024);
    lemma_fundamental_div_mod(sb, 1024);
    let (qa, qb) = (sa / 1024, sb / 1024);
    if qa == qb {
        assert(sa % 1024 <= sb % 1024);
    }
}

} // verus!
