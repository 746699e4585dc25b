//! Decimal notation of unsigned integers.
use vstd::arithmetic::power::{lemma_pow0, lemma_pow1, lemma_pow_adds, lemma_pow_positive, pow};
use vstd::prelude::*;

verus! {

/// The character that stands for a digit below ten.
pub open spec fn digit_char(digit: nat) -> char {
    (48 + digit) as char
}

/// The decimal notation of `n`, without leading zeros.
pub open spec fn decimal(n: nat) -> Seq<char>
    decreases n,
{
    if n < 10 {
        seq![digit_char(n)]
    } else {
        decimal(n / 10).push(digit_char(n % 10))
    }
}

/// The number that a sequence of decimal digits denotes.
pub open spec fn decimal_value(digits: Seq<char>) -> nat
    decreases digits.len(),
{
    if digits.len() == 0 {
        0
    } else {
        10 * decimal_value(digits.drop_last()) + (digits.last() as nat - 48) as nat
    }
}

/// Law: reading the decimal notation of a number back gives the number.
pub proof fn decimal_reads_back(n: nat)
    ensures
        decimal_value(decimal(n)) == n,
        decimal(n).len() > 0,
        forall|i: int| 0 <= i < decimal(n).len() ==> '0' <= #[trigger] decimal(n)[i] <= '9',
    decreases n,
{
    if n < 10 {
        assert(decimal(n).drop_last() =~= Seq::<char>::empty());
        assert(decimal_value(Seq::<char>::empty()) == 0);
    } else {
        decimal_reads_back(n / 10);
        assert(decimal(n).drop_last() =~= decimal(n / 10));
    }
}

/// Law: two numbers with the same decimal notation are equal.
pub proof fn decimal_is_injective(a: nat, b: nat)
    requires
        decimal(a) == decimal(b),
    ensures
        a == b,
{
    decimal_reads_back(a);
    decimal_reads_back(b);
}

/// The digit `d` as text.
fn digit_text(d: u64) -> (text: &'static str)
    requires
        d < 10,
    ensures
        text@ == seq![digit_char(d as nat)],
{
    proof {
        reveal_strlit("0");
        reveal_strlit("1");
        reveal_strlit("2");
        reveal_strlit("3");
        reveal_strlit("4");
        reveal_strlit("5");
        reveal_strlit("6");
        reveal_strlit("7");
        reveal_strlit("8");
        reveal_strlit("9");
    }
    if d == 0 {
        "0"
    } else if d == 1 {
        "1"
    } else if d == 2 {
        "2"
    } else if d == 3 {
        "3"
    } else if d == 4 {
        "4"
    } else if d == 5 {
        "5"
    } else if d == 6 {
        "6"
    } else if d == 7 {
        "7"
    } else if d == 8 {
        "8"
    } else {
        "9"
    }
}

/// Appends the decimal notation of `n` to `text`.
pub fn push_decimal(text: &mut String, n: u64)
    ensures
        final(text)@ == old(text)@ + decimal(n as nat),
    decreases n,
{
    if n >= 10 {
        push_decimal(text, n / 10);
    }
    text.append(digit_text(n % 10));
    assert(text@ =~= old(text)@ + decimal(n as nat));
}

/// Law: the digits of a number, counted from the end, are those of its ones, tens, hundreds and
/// so on. There are as many as the number needs and no more: it has no leading zeros.
pub proof fn digits_go_by_powers_of_ten(n: nat, i: nat)
    ensures
        decimal(n).len() >= 1,
        n < pow(10, decimal(n).len()),
        decimal(n).len() > 1 ==> n >= pow(10, (decimal(n).len() - 1) as nat),
        i < decimal(n).len() ==> decimal(n)[decimal(n).len() - 1 - i] as nat == 48 + (n as int
            / pow(10, i)) % 10,
    decreases n,
{
    lemma_pow0(10);
    lemma_pow1(10);
    if n < 10 {
        if i == 0 {
            assert(n as int / 1 == n);
        }
    } else {
        let front = decimal(n / 10);
        let len = front.len();
        digits_go_by_powers_of_ten(n / 10, if i > 0 { (i - 1) as nat } else { 0 });
        lemma_pow_adds(10, len, 1);
        lemma_pow_adds(10, (len - 1) as nat, 1);
        assert(n < pow(10, len + 1)) by (nonlinear_arith)
            requires
                n as int / 10 < pow(10, len),
                pow(10, len + 1) == pow(10, len) * 10,
        ;
        assert(n >= pow(10, len)) by (nonlinear_arith)
            requires
                n >= 10,
                len == 1 ==> pow(10, len) == 10,
                len > 1 ==> n as int / 10 >= pow(10, (len - 1) as nat),
                pow(10, len) == pow(10, (len - 1) as nat) * 10,
                len >= 1,
        ;
        if 0 < i < decimal(n).len() {
            let j = (i - 1) as nat;
            assert(decimal(n)[decimal(n).len() - 1 - i] == front[len - 1 - j]);
            lemma_pow_adds(10, 1, j);
            lemma_pow_positive(10, j);
            vstd::arithmetic::div_mod::lemma_div_denominator(n as int, 10, pow(10, j));
        } else if i == 0 {
            assert(n as int / 1 == n);
        }
    }
}

} // verus!
