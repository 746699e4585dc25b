//! Amounts of data as text.
use crate::decimal::{
    decimal, decimal_is_injective, decimal_reads_back, decimal_value, digit_char, push_decimal,
};
use crate::double::{
    div_half_even, div_half_even_is_nearest, div_half_even_upper, nearest_double,
    nearest_double_monotone, round_quotient, round_to_double, small_integers_are_doubles,
};
use crate::tasks::MtorrentApp;
use vstd::prelude::*;

verus! {

/// How many bytes the unit with the given number stands for.
pub open spec fn unit_size(unit: nat) -> nat {
    if unit == 0 {
        1
    } else if unit == 1 {
        0x400
    } else if unit == 2 {
        0x10_0000
    } else if unit == 3 {
        0x4000_0000
    } else {
        0x100_0000_0000
    }
}

/// What the unit with the given number is called.
pub open spec fn unit_name(unit: nat) -> Seq<char> {
    if unit == 0 {
        "B"@
    } else if unit == 1 {
        "KB"@
    } else if unit == 2 {
        "MB"@
    } else if unit == 3 {
        "GB"@
    } else {
        "TB"@
    }
}

/// The largest unit that is not larger than an amount of bytes.
pub open spec fn unit_of(bytes: nat) -> nat {
    if bytes < unit_size(1) {
        0
    } else if bytes < unit_size(2) {
        1
    } else if bytes < unit_size(3) {
        2
    } else if bytes < unit_size(4) {
        3
    } else {
        4
    }
}

/// An amount in its largest unit, in double precision: with one decimal place below ten
/// units, as a whole number of units otherwise.
pub open spec fn amount_chars(bytes: nat) -> Seq<char> {
    let size = unit_size(unit_of(bytes));
    let amount = nearest_double(bytes);
    if amount < 10 * size {
        let tenths = div_half_even(10 * amount, size);
        decimal(tenths / 10) + "."@ + decimal(tenths % 10)
    } else {
        decimal(div_half_even(amount, size))
    }
}

/// An amount of bytes with its unit.
pub open spec fn size_chars(bytes: nat) -> Seq<char> {
    if bytes == 0 {
        "0 B"@
    } else {
        amount_chars(bytes) + " "@ + unit_name(unit_of(bytes))
    }
}

/// Digits in groups of three, counted from the end, with blanks between the groups.
pub open spec fn grouped(digits: Seq<char>) -> Seq<char>
    decreases digits.len(),
{
    if digits.len() <= 3 {
        digits
    } else {
        grouped(digits.take(digits.len() - 3)) + " "@ + digits.skip(digits.len() - 3)
    }
}

/// An amount of bytes as a whole number of KiB.
pub open spec fn kib_chars(bytes: nat) -> Seq<char> {
    grouped(decimal(bytes / 1024)) + " KiB"@
}

impl MtorrentApp {
    /// An amount of bytes as text such as `1.5 KB`.
    pub fn format_bytes(bytes: u64) -> (text: String)
        ensures
            text@ == size_chars(bytes as nat),
    {
        if bytes == 0 {
            return "0 B".to_string();
        }
        let (size, name): (u64, &str) = if bytes < 0x400 {
            (1, "B")
        } else if bytes < 0x10_0000 {
            (0x400, "KB")
        } else if bytes < 0x4000_0000 {
            (0x10_0000, "MB")
        } else if bytes < 0x100_0000_0000 {
            (0x4000_0000, "GB")
        } else {
            (0x100_0000_0000, "TB")
        };
        let amount: u128 = round_to_double(bytes);
        let mut text = String::new();
        if amount < 10 * (size as u128) {
            proof {
                div_half_even_upper((10 * amount) as nat, size as nat, 100);
            }
            let tenths: u64 = round_quotient(10 * amount, size as u128) as u64;
            push_decimal(&mut text, tenths / 10);
            text.append(".");
            push_decimal(&mut text, tenths % 10);
        } else {
            proof {
                // Either way the rounded quotient fits into 64 bits.
                if size > 1 {
                    assert(amount <= 0x40_0000_0000_0000 * size) by (nonlinear_arith)
                        requires
                            amount <= 0x1_0000_0000_0000_0000,
                            size >= 0x400,
                    ;
                    div_half_even_upper(amount as nat, size as nat, 0x40_0000_0000_0000);
                } else {
                    small_integers_are_doubles(bytes as nat);
                    div_half_even_upper(amount as nat, 1, bytes as nat);
                }
            }
            let whole: u64 = round_quotient(amount, size as u128) as u64;
            push_decimal(&mut text, whole);
        }
        text.append(" ");
        text.append(name);
        text
    }

    /// An amount of bytes as text such as `1 024 KiB`.
    pub fn format_bytes_kib(bytes: u64) -> (text: String)
        ensures
            text@ == kib_chars(bytes as nat),
    {
        let mut text = String::new();
        push_grouped(&mut text, bytes / 1024);
        text.append(" KiB");
        text
    }
}

/// Law: a positive amount is at least one of its units, and, below the largest unit, less
/// than 1024 of them.
pub proof fn unit_fits(bytes: nat)
    requires
        bytes > 0,
    ensures
        unit_of(bytes) <= 4,
        unit_size(unit_of(bytes)) <= bytes,
        unit_of(bytes) < 4 ==> bytes < 1024 * unit_size(unit_of(bytes)),
{
}

/// Law: counted from the end, every fourth character of grouped digits is a blank, and no
/// other.
pub proof fn blank_every_fourth(digits: Seq<char>)
    requires
        forall|i: int| 0 <= i < digits.len() ==> '0' <= #[trigger] digits[i] <= '9',
    ensures
        forall|i: int|
            #![trigger grouped(digits)[i]]
            0 <= i < grouped(digits).len() ==> (grouped(digits)[i] == ' ' <==> (
            grouped(digits).len() - 1 - i) % 4 == 3),
        digits.len() > 0 ==> grouped(digits).len() > 0 && grouped(digits)[0] != ' ',
    decreases digits.len(),
{
    reveal_strlit(" ");
    if digits.len() > 3 {
        let front = digits.take(digits.len() - 3);
        blank_every_fourth(front);
        let all = grouped(digits);
        let n = grouped(front).len();
        assert(all.len() == n + 4);
        assert forall|i: int| #![trigger all[i]] 0 <= i < all.len() implies (all[i] == ' ' <==> (
        all.len() - 1 - i) % 4 == 3) by {
            if i < n {
                assert(all[i] == grouped(front)[i]);
            } else if i > n {
                assert(all[i] == digits[digits.len() - 3 + (i - n - 1)]);
            }
        }
    }
}

/// Law: without its blanks, a grouped number is the number.
pub proof fn grouping_adds_blanks_only(digits: Seq<char>)
    requires
        forall|i: int| 0 <= i < digits.len() ==> '0' <= #[trigger] digits[i] <= '9',
    ensures
        grouped(digits).filter(|c: char| c != ' ') == digits,
    decreases digits.len(),
{
    let kept = |c: char| c != ' ';
    if digits.len() <= 3 {
        keeps_all(digits, kept);
    } else {
        reveal_strlit(" ");
        let front = digits.take(digits.len() - 3);
        let back = digits.skip(digits.len() - 3);
        grouping_adds_blanks_only(front);
        keeps_all(back, kept);
        assert(" "@.filter(kept) =~= Seq::<char>::empty()) by {
            " "@.lemma_all_neg_filter_empty(kept);
        }
        Seq::filter_distributes_over_add(grouped(front), " "@, kept);
        Seq::filter_distributes_over_add(grouped(front) + " "@, back, kept);
        assert(front + back =~= digits);
        assert(front + Seq::<char>::empty() =~= front);
    }
}

/// A filter that every element passes keeps the sequence.
proof fn keeps_all(s: Seq<char>, kept: spec_fn(char) -> bool)
    requires
        forall|i: int| 0 <= i < s.len() ==> kept(#[trigger] s[i]),
    ensures
        s.filter(kept) == s,
    decreases s.len(),
{
    reveal(Seq::filter);
    if s.len() > 0 {
        assert forall|i: int| 0 <= i < s.drop_last().len() implies kept(
            #[trigger] s.drop_last()[i],
        ) by {
            assert(s.drop_last()[i] == s[i]);
        }
        keeps_all(s.drop_last(), kept);
        assert(s.drop_last().push(s.last()) =~= s);
    }
}

/// Law: the number of KiB can be read back from its grouped digits.
pub proof fn kib_reads_back(bytes: nat)
    ensures
        decimal_value(grouped(decimal(bytes / 1024)).filter(|c: char| c != ' ')) == bytes / 1024,
{
    decimal_reads_back(bytes / 1024);
    grouping_adds_blanks_only(decimal(bytes / 1024));
}

/// The last three digits of a number of at least four digits.
proof fn last_three_digits(n: nat)
    requires
        n >= 1000,
    ensures
        decimal(n).len() > 3,
        decimal(n).take(decimal(n).len() - 3) == decimal(n / 1000),
        decimal(n).skip(decimal(n).len() - 3) == seq![
            digit_char(n / 100 % 10),
            digit_char(n / 10 % 10),
            digit_char(n % 10),
        ],
{
    let (tens, hundreds, thousands) = (n / 10, n / 100, n / 1000);
    assert(tens / 10 == hundreds && hundreds / 10 == thousands);
    assert(decimal(n) == decimal(tens).push(digit_char(n % 10)));
    assert(decimal(tens) == decimal(hundreds).push(digit_char(tens % 10)));
    assert(decimal(hundreds) == decimal(thousands).push(digit_char(hundreds % 10)));
    decimal_reads_back(thousands);
    assert(decimal(n).take(decimal(n).len() - 3) =~= decimal(thousands));
    assert(decimal(n).skip(decimal(n).len() - 3) =~= seq![
        digit_char(n / 100 % 10),
        digit_char(n / 10 % 10),
        digit_char(n % 10),
    ]);
}

/// A number below one thousand has at most three digits.
proof fn at_most_three_digits(n: nat)
    requires
        n < 1000,
    ensures
        decimal(n).len() <= 3,
{
    reveal_with_fuel(decimal, 3);
}

/// Appends a number with its digits in groups of three.
fn push_grouped(text: &mut String, n: u64)
    ensures
        final(text)@ == old(text)@ + grouped(decimal(n as nat)),
    decreases n,
{
    if n < 1000 {
        proof {
            at_most_three_digits(n as nat);
        }
        push_decimal(text, n);
        return;
    }
    push_grouped(text, n / 1000);
    text.append(" ");
    push_decimal(text, n / 100 % 10);
    push_decimal(text, n / 10 % 10);
    push_decimal(text, n % 10);
    proof {
        last_three_digits(n as nat);
        assert(text@ =~= old(text)@ + grouped(decimal(n as nat)));
    }
}

/// Law: a positive amount is shown in the largest of the units of 1, 1024, 1024^2, 1024^3 and
/// 1024^4 bytes that is not larger than the amount, called `B`, `KB`, `MB`, `GB` and `TB`.
/// Below ten units the number of tenths of the unit that is nearest to the amount is shown,
/// with one decimal place; from ten units on, the nearest number of units. What lies exactly
/// between two numbers goes to the even one. Zero bytes are `0 B`.
pub proof fn size_is_shown_in_its_unit(bytes: nat) -> (parts: (nat, Seq<char>, nat))
    ensures
        bytes == 0 ==> size_chars(bytes) == "0 B"@,
        bytes > 0 ==> {
            let (size, name, shown) = parts;
            let amount = nearest_double(bytes);
            &&& size <= bytes
            &&& {
                ||| size == 1 && name == "B"@ && bytes < 1024
                ||| size == 1024 && name == "KB"@ && bytes < 1024 * 1024
                ||| size == 1024 * 1024 && name == "MB"@ && bytes < 1024 * 1024 * 1024
                ||| size == 1024 * 1024 * 1024 && name == "GB"@ && bytes < 1024 * 1024 * 1024
                    * 1024
                ||| size == 1024 * 1024 * 1024 * 1024 && name == "TB"@
            }
            &&& bytes < 10 * size ==> {
                &&& size_chars(bytes) == decimal(shown / 10) + "."@ + decimal(shown % 10) + " "@
                    + name
                &&& 2 * (shown * size - 10 * bytes) <= size
                &&& 2 * (10 * bytes - shown * size) <= size
                &&& 2 * (shown * size - 10 * bytes) == size ==> shown % 2 == 0
                &&& 2 * (10 * bytes - shown * size) == size ==> shown % 2 == 0
            }
            &&& bytes >= 10 * size ==> {
                &&& size_chars(bytes) == decimal(shown) + " "@ + name
                &&& 2 * (shown * size - amount) <= size
                &&& 2 * (amount - shown * size) <= size
                &&& 2 * (shown * size - amount) == size ==> shown % 2 == 0
                &&& 2 * (amount - shown * size) == size ==> shown % 2 == 0
            }
        },
{
    let size = unit_size(unit_of(bytes));
    let name = unit_name(unit_of(bytes));
    let amount = nearest_double(bytes);
    if bytes < 10 * size {
        small_integers_are_doubles(bytes);
        div_half_even_is_nearest(10 * amount, size);
        (size, name, div_half_even(10 * amount, size))
    } else {
        small_integers_are_doubles(10 * size);
        nearest_double_monotone(10 * size, bytes);
        div_half_even_is_nearest(amount, size);
        (size, name, div_half_even(amount, size))
    }
}

/// Law: an amount in KiB ends in ` KiB`. In front of that stands the number of whole KiB: with
/// a blank at every fourth place, counted from the end, and without the blanks its decimal
/// digits.
pub proof fn kib_is_shown_in_groups(bytes: nat)
    ensures
        ({
            let text = kib_chars(bytes);
            let number = text.take(text.len() - 4);
            &&& text.len() > 4
            &&& text.skip(text.len() - 4) == " KiB"@
            &&& number.filter(|c: char| c != ' ') == decimal(bytes / 1024)
            &&& number[0] != ' '
            &&& forall|i: int|
                #![trigger number[i]]
                0 <= i < number.len() ==> (number[i] == ' ' <==> (number.len() - 1 - i) % 4 == 3)
        }),
{
    reveal_strlit(" KiB");
    let digits = decimal(bytes / 1024);
    let text = kib_chars(bytes);
    decimal_reads_back(bytes / 1024);
    blank_every_fourth(digits);
    grouping_adds_blanks_only(digits);
    assert(text.take(text.len() - 4) =~= grouped(digits));
    assert(text.skip(text.len() - 4) =~= " KiB"@);
}

/// Law: of an amount of up to 64 bits, the text in its unit and the text in KiB agree. The text
/// in KiB ends in the number of whole KiB, which is none for what is shown in bytes.
pub proof fn texts_of_an_amount_agree(bytes: u64, size: String, kib: String)
    requires
        call_ensures(MtorrentApp::format_bytes, (bytes,), size),
        call_ensures(MtorrentApp::format_bytes_kib, (bytes,), kib),
    ensures
        size@ == size_chars(bytes as nat),
        kib@ == kib_chars(bytes as nat),
        kib@ == decimal(0) + " KiB"@ <==> bytes < 1024,
{
    let digits = decimal(bytes as nat / 1024);
    reveal_strlit(" KiB");
    if bytes < 1024 {
        assert(digits.len() <= 3);
    } else if kib@ == decimal(0) + " KiB"@ {
        kib_is_shown_in_groups(bytes as nat);
        kib_is_shown_in_groups(0);
        assert(kib@ =~= kib_chars(0));
        decimal_is_injective(bytes as nat / 1024, 0);
    }
}

} // verus!
