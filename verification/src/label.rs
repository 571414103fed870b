//! Identifiers made of a fixed prefix and a number written in decimal.

use vstd::prelude::*;
use vstd::string::*;

verus! {

/// The character that stands for a digit below ten.
pub open spec fn digit_char(d: nat) -> char {
    if d == 0 {
        '0'
    } else if d == 1 {
        '1'
    } else if d == 2 {
        '2'
    } else if d == 3 {
        '3'
    } else if d == 4 {
        '4'
    } else if d == 5 {
        '5'
    } else if d == 6 {
        '6'
    } else if d == 7 {
        '7'
    } else if d == 8 {
        '8'
    } else {
        '9'
    }
}

/// Whether the character is one of the ten decimal digits.
pub open spec fn is_digit(c: char) -> bool {
    exists|d: nat| d < 10 && c == #[trigger] digit_char(d)
}

/// The number in decimal, most significant digit first, without leading zeros.
pub open spec fn decimal(n: nat) -> Seq<char>
    decreases n,
{
    if n < 10 {
        seq![digit_char(n)]
    } else {
        decimal(n / 10).push(digit_char(n % 10))
    }
}

/// The prefix followed by the number in decimal.
pub open spec fn label(prefix: Seq<char>, n: nat) -> Seq<char> {
    prefix + decimal(n)
}

/// The prefix followed by two numbers in decimal with an underscore between them.
pub open spec fn label_pair(prefix: Seq<char>, m: nat, n: nat) -> Seq<char> {
    prefix + decimal(m) + seq!['_'] + decimal(n)
}

/// A decimal numeral has at least one character, and all of them are digits.
pub proof fn lemma_decimal_digits(n: nat)
    ensures
        decimal(n).len() >= 1,
        n >= 10 ==> decimal(n).len() >= 2,
        forall|i: int| 0 <= i < decimal(n).len() ==> is_digit(#[trigger] decimal(n)[i]),
    decreases n,
{
    if n < 10 {
        assert(decimal(n)[0] == digit_char(n));
    } else {
        lemma_decimal_digits(n / 10);
        let d = n % 10;
        assert(decimal(n).last() == digit_char(d));
        assert forall|i: int| 0 <= i < decimal(n).len() implies is_digit(
            #[trigger] decimal(n)[i],
        ) by {
            if i < decimal(n / 10).len() {
                assert(decimal(n)[i] == decimal(n / 10)[i]);
            }
        }
    }
}

/// Two numbers with the same decimal numeral are the same number.
pub proof fn lemma_decimal_injective(m: nat, n: nat)
    requires
        decimal(m) == decimal(n),
    ensures
        m == n,
    decreases m,
{
    lemma_decimal_digits(m);
    lemma_decimal_digits(n);
    if m < 10 {
        assert(decimal(m).len() == 1);
        assert(n < 10);
        assert(decimal(m)[0] == digit_char(m));
        assert(decimal(n)[0] == digit_char(n));
    } else {
        assert(n >= 10);
        let hi_m = decimal(m / 10);
        let hi_n = decimal(n / 10);
        assert(decimal(m).last() == digit_char(m % 10));
        assert(decimal(n).last() == digit_char(n % 10));
        assert(hi_m =~= decimal(m).drop_last());
        assert(hi_n =~= decimal(n).drop_last());
        lemma_decimal_injective(m / 10, n / 10);
    }
}

/// Two labels with the same prefix and the same text carry the same number.
pub proof fn lemma_label_injective(prefix: Seq<char>, m: nat, n: nat)
    requires
        label(prefix, m) == label(prefix, n),
    ensures
        m == n,
{
    let p = prefix.len() as int;
    assert(decimal(m) =~= label(prefix, m).subrange(p, label(prefix, m).len() as int));
    assert(decimal(n) =~= label(prefix, n).subrange(p, label(prefix, n).len() as int));
    lemma_decimal_injective(m, n);
}

/// Two labels with the same prefix and the same text carry the same pair of numbers.
pub proof fn lemma_label_pair_injective(prefix: Seq<char>, m1: nat, n1: nat, m2: nat, n2: nat)
    requires
        label_pair(prefix, m1, n1) == label_pair(prefix, m2, n2),
    ensures
        m1 == m2,
        n1 == n2,
{
    let p = prefix.len() as int;
    let a = label_pair(prefix, m1, n1);
    let b = label_pair(prefix, m2, n2);
    let len1 = decimal(m1).len() as int;
    let len2 = decimal(m2).len() as int;
    lemma_decimal_digits(m1);
    lemma_decimal_digits(m2);
    assert(!is_digit('_')) by {
        assert forall|d: nat| d < 10 implies '_' != #[trigger] digit_char(d) by {}
    }
    assert(a[p + len1] == '_');
    assert(b[p + len2] == '_');
    if len1 < len2 {
        assert(b[p + len1] == decimal(m2)[len1]);
        assert(false);
    }
    if len2 < len1 {
        assert(a[p + len2] == decimal(m1)[len2]);
        assert(false);
    }
    assert(decimal(m1) =~= a.subrange(p, p + len1));
    assert(decimal(m2) =~= b.subrange(p, p + len2));
    assert(decimal(n1) =~= a.subrange(p + len1 + 1, a.len() as int));
    assert(decimal(n2) =~= b.subrange(p + len2 + 1, b.len() as int));
    lemma_decimal_injective(m1, m2);
    lemma_decimal_injective(n1, n2);
}

/// A label with one number differs from every label with the same prefix
/// and a pair of numbers.
pub proof fn lemma_label_differs_from_pair(prefix: Seq<char>, n: nat, m1: nat, m2: nat)
    ensures
        label(prefix, n) != label_pair(prefix, m1, m2),
{
    let single = label(prefix, n);
    let pair = label_pair(prefix, m1, m2);
    let at = (prefix.len() + decimal(m1).len()) as int;
    lemma_decimal_digits(n);
    lemma_decimal_digits(m2);
    assert(!is_digit('_')) by {
        assert forall|d: nat| d < 10 implies '_' != #[trigger] digit_char(d) by {}
    }
    assert(pair[at] == '_');
    if single == pair {
        let digits = decimal(n);
        assert(single.len() == prefix.len() + digits.len());
        assert(pair.len() == at + 1 + decimal(m2).len());
        assert(single[at] == digits[at - prefix.len()]);
        assert(is_digit(digits[at - prefix.len()]));
    }
}

/// The one-character text of a digit below ten.
fn digit_str(d: u128) -> (text: &'static str)
    requires
        d < 10,
    ensures
        text@ == seq![digit_char(d as nat)],
{
    proof {
        reveal_strlit("0");
        reveal_strlit("1");
        reveal_strlit("2");
        reveal_strlit("3");
        reveal_strlit("4");
        reveal_strlit("5");
        reveal_strlit("6");
        reveal_strlit("7");
        reveal_strlit("8");
        reveal_strlit("9");
    }
    let text = if d == 0 {
        "0"
    } else if d == 1 {
        "1"
    } else if d == 2 {
        "2"
    } else if d == 3 {
        "3"
    } else if d == 4 {
        "4"
    } else if d == 5 {
        "5"
    } else if d == 6 {
        "6"
    } else if d == 7 {
        "7"
    } else if d == 8 {
        "8"
    } else {
        "9"
    };
    assert(text@ =~= seq![digit_char(d as nat)]);
    text
}

/// Appends the number in decimal to the text.
pub fn push_decimal(text: &mut String, n: u128)
    ensures
        final(text)@ == old(text)@ + decimal(n as nat),
    decreases n,
{
    if n < 10 {
        text.append(digit_str(n));
    } else {
        push_decimal(text, n / 10);
        text.append(digit_str(n % 10));
        assert(text@ =~= old(text)@ + decimal(n as nat));
    }
}

/// The prefix followed by the number in decimal.
pub fn make_label(prefix: &str, n: u128) -> (text: String)
    ensures
        text@ == label(prefix@, n as nat),
{
    let mut text = String::from_str(prefix);
    push_decimal(&mut text, n);
    text
}

/// The prefix followed by two numbers in decimal with an underscore between them.
pub fn make_label_pair(prefix: &str, m: u128, n: u128) -> (text: String)
    ensures
        text@ == label_pair(prefix@, m as nat, n as nat),
{
    let mut text = String::from_str(prefix);
    push_decimal(&mut text, m);
    proof {
        reveal_strlit("_");
    }
    text.append("_");
    assert("_"@ =~= seq!['_']);
    push_decimal(&mut text, n);
    text
}

} // verus!
