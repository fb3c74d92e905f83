//! Text that is put together from parts: numerals and quoted words.

use vstd::prelude::*;

verus! {

/// The digit for a number below sixteen; from ten on they are the small letters
/// from `a`.
pub open spec fn digit(d: int) -> char {
    if d < 10 {
        ('0' as int + d) as char
    } else {
        ('a' as int + (d - 10)) as char
    }
}

/// The number that a digit stands for.
pub open spec fn digit_value(c: char) -> int {
    if c as int <= '9' as int {
        c as int - '0' as int
    } else {
        c as int - 'a' as int + 10
    }
}

/// The number written out to this base, without leading zeros.
pub open spec fn numeral(n: int, base: int) -> Seq<char>
    decreases n,
    when 2 <= base <= 16 && n >= 0
{
    if n < base {
        seq![digit(n)]
    } else {
        proof {
            vstd::arithmetic::div_mod::lemma_div_decreases(n, base);
            vstd::arithmetic::div_mod::lemma_div_pos_is_pos(n, base);
        }
        numeral(n / base, base).push(digit(n % base))
    }
}

/// The number that the digits stand for to this base.
pub open spec fn numeral_value(digits: Seq<char>, base: int) -> int
    decreases digits.len(),
{
    if digits.len() == 0 {
        0
    } else {
        numeral_value(digits.drop_last(), base) * base + digit_value(digits.last())
    }
}

/// The text between double quotes, as it is.
pub open spec fn quoted(s: Seq<char>) -> Seq<char> {
    "\""@ + s + "\""@
}

/// The digit for a number below sixteen.
fn digit_text(d: u128) -> (r: &'static str)
    requires
        d < 16,
    ensures
        r@ == seq![digit(d as int)],
{
    proof {
        reveal_strlit("0");
        reveal_strlit("1");
        reveal_strlit("2");
        reveal_strlit("3");
        reveal_strlit("4");
        reveal_strlit("5");
        reveal_strlit("6");
        reveal_strlit("7");
        reveal_strlit("8");
        reveal_strlit("9");
        reveal_strlit("a");
        reveal_strlit("b");
        reveal_strlit("c");
        reveal_strlit("d");
        reveal_strlit("e");
        reveal_strlit("f");
    }
    let r: &'static str = match d {
        0 => "0",
        1 => "1",
        2 => "2",
        3 => "3",
        4 => "4",
        5 => "5",
        6 => "6",
        7 => "7",
        8 => "8",
        9 => "9",
        10 => "a",
        11 => "b",
        12 => "c",
        13 => "d",
        14 => "e",
        _ => "f",
    };
    assert(r@ =~= seq![digit(d as int)]);
    r
}

/// Writes the number out to this base behind the text.
pub(crate) fn append_numeral(text: &mut String, n: u128, base: u128)
    requires
        base == 10 || base == 16,
    ensures
        final(text)@ == old(text)@ + numeral(n as int, base as int),
    decreases n,
{
    let ghost before: Seq<char> = text@;
    if n >= base {
        append_numeral(text, n / base, base);
    }
    text.append(digit_text(n % base));
    assert(text@ =~= before + numeral(n as int, base as int));
}

/// The text between double quotes, as it is.
pub(crate) fn quote(s: &str) -> (r: String)
    ensures
        r@ == quoted(s@),
{
    let mut r: String = "\"".to_owned();
    r.append(s);
    r.append("\"");
    r
}

/// A number is read back from its numeral: no two numbers are written alike.
pub proof fn law_numeral_value(n: int, base: int)
    requires
        n >= 0,
        2 <= base <= 16,
    ensures
        numeral_value(numeral(n, base), base) == n,
    decreases n,
{
    let digits = numeral(n, base);
    if n < base {
        assert(digits.drop_last().len() == 0);
        assert(numeral_value(digits.drop_last(), base) == 0);
        assert(digits.last() == digit(n));
        assert(0 * base == 0);
    } else {
        vstd::arithmetic::div_mod::lemma_div_decreases(n, base);
        vstd::arithmetic::div_mod::lemma_div_pos_is_pos(n, base);
        vstd::arithmetic::div_mod::lemma_mod_bound(n, base);
        law_numeral_value(n / base, base);
        assert(digits.drop_last() =~= numeral(n / base, base));
        assert(digits.last() == digit(n % base));
        vstd::arithmetic::div_mod::lemma_fundamental_div_mod(n, base);
        vstd::arithmetic::mul::lemma_mul_is_commutative(base, n / base);
    }
}

/// The digits are the ten decimal ones and the letters from `a` to `f`, each at the
/// place of the number that it stands for.
pub proof fn law_digits(d: int)
    requires
        0 <= d < 16,
    ensures
        digit(d) == "0123456789abcdef"@[d],
        digit_value("0123456789abcdef"@[d]) == d,
{
    reveal_strlit("0123456789abcdef");
}

/// A numeral has a digit for each power of the base up to the highest one that the
/// number holds, the highest first: the digit for a power says how often the power
/// goes into the number, less what higher powers hold of it.
pub proof fn law_numeral_is_positional(n: int, base: int, k: int)
    requires
        n >= 0,
        2 <= base <= 16,
        0 <= k < numeral(n, base).len(),
    ensures
        numeral(n, base)[numeral(n, base).len() - 1 - k] == "0123456789abcdef"@[n
            / vstd::arithmetic::power::pow(base, k as nat) % base],
        n < vstd::arithmetic::power::pow(base, numeral(n, base).len()),
        n > 0 ==> vstd::arithmetic::power::pow(base, (numeral(n, base).len() - 1) as nat) <= n,
        n == 0 ==> numeral(n, base).len() == 1,
    decreases n,
{
    let digits = numeral(n, base);
    vstd::arithmetic::power::lemma_pow0(base);
    vstd::arithmetic::power::lemma_pow1(base);
    if n < base {
        vstd::arithmetic::div_mod::lemma_small_mod(n as nat, base as nat);
        vstd::arithmetic::div_mod::lemma_div_basics(n);
        law_digits(n);
    } else {
        let rest = numeral(n / base, base);
        vstd::arithmetic::div_mod::lemma_div_decreases(n, base);
        vstd::arithmetic::div_mod::lemma_div_pos_is_pos(n, base);
        vstd::arithmetic::div_mod::lemma_mod_bound(n, base);
        vstd::arithmetic::div_mod::lemma_fundamental_div_mod(n, base);
        vstd::arithmetic::div_mod::lemma_div_basics(n);
        law_digits(n % base);
        let len = rest.len();
        assert(len > 0);
        law_numeral_is_positional(n / base, base, if k == 0 { 0 } else { k - 1 });
        if k > 0 {
            let power = vstd::arithmetic::power::pow(base, (k - 1) as nat);
            vstd::arithmetic::power::lemma_pow_positive(base, (k - 1) as nat);
            assert(vstd::arithmetic::power::pow(base, k as nat) == base * power) by {
                reveal(vstd::arithmetic::power::pow);
            }
            vstd::arithmetic::div_mod::lemma_div_denominator(n, base, power);
            assert(digits[digits.len() - 1 - k] == rest[rest.len() - 1 - (k - 1)]);
        }
        let high = vstd::arithmetic::power::pow(base, len);
        let low = vstd::arithmetic::power::pow(base, (len - 1) as nat);
        assert(vstd::arithmetic::power::pow(base, len + 1) == base * high) by {
            reveal(vstd::arithmetic::power::pow);
        }
        assert(high == base * low) by {
            reveal(vstd::arithmetic::power::pow);
        }
        let q = n / base;
        let m = n % base;
        assert(n < base * high) by (nonlinear_arith)
            requires
                n == base * q + m,
                0 <= m < base,
                q + 1 <= high,
        ;
        assert(base * low <= n) by (nonlinear_arith)
            requires
                n == base * q + m,
                0 <= m,
                0 < base,
                low <= q,
        ;
    }
}

/// Between quotes a text stands as it is, and nothing else.
pub proof fn law_quoted(s: Seq<char>)
    ensures
        quoted(s) == seq!['"'] + s + seq!['"'],
{
    reveal_strlit("\"");
    assert(quoted(s) =~= seq!['"'] + s + seq!['"']);
}

} // verus!
