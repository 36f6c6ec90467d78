//! What is written can be read again: a whole number as it is formatted is
//! parsed as that number.
use crate::format::OutputStyle;
use crate::numtheory::{abs, gcd};
use crate::parser::util::{char_at, digits_end, digits_value, is_digit, pow10};
use crate::parser::value::{
    comma_at, comparison_sign, p_and_rest, p_comma_rest, p_logic, p_logic_rest, p_number,
    p_or_rest, p_single_value, p_space_rest, p_sum_rest, p_term_rest, p_value_expression,
    sum_sign, term_sign, word_between,
};
use crate::rational::Ratio;
use crate::text::{decimal, int_text};
use crate::value::ValueView;
use vstd::prelude::*;

verus! {

/// A decimal numeral is made of digits, at least one, and of at most `k`
/// of them for a number below ten to the power of `k`.
pub proof fn lemma_decimal_digits(n: nat, k: nat)
    requires
        k >= 1,
        n < pow10(k),
    ensures
        1 <= decimal(n).len() <= k,
        forall|i: int| 0 <= i < decimal(n).len() ==> is_digit(#[trigger] decimal(n)[i]),
    decreases n,
{
    if n >= 10 {
        assert(k >= 2) by {
            reveal_with_fuel(pow10, 2);
        }
        lemma_decimal_digits(n / 10, (k - 1) as nat);
    }
}

/// The digits of a text write the same number as the same digits at the
/// same places of another text.
proof fn lemma_digits_value_same(s: Seq<char>, t: Seq<char>, from: int, to: int)
    requires
        0 <= from <= to,
        to <= s.len(),
        to <= t.len(),
        forall|i: int| from <= i < to ==> s[i] == t[i],
    ensures
        digits_value(s, from, to) == digits_value(t, from, to),
    decreases to - from,
{
    if to > from {
        lemma_digits_value_same(s, t, from, to - 1);
    }
}

/// The digits of the decimal numeral of a number write that number.
proof fn lemma_digits_of_decimal(s: Seq<char>, start: int, n: nat)
    requires
        0 <= start <= s.len(),
        s.subrange(start, s.len() as int) == decimal(n),
    ensures
        digits_value(s, start, s.len() as int) == n,
    decreases n,
{
    let d = decimal(n);
    let len = s.len() as int;
    assert(len - start == d.len());
    assert(s[len - 1] == d[len - 1 - start]);
    if n < 10 {
        assert(digits_value(s, start, start) == 0);
    } else {
        let t = s.drop_last();
        assert(t.subrange(start, t.len() as int) =~= decimal(n / 10)) by {
            assert forall|i: int| 0 <= i < t.len() - start implies t.subrange(
                start,
                t.len() as int,
            )[i] == decimal(n / 10)[i] by {
                assert(s.subrange(start, len)[i] == s[start + i]);
            }
        }
        lemma_digits_of_decimal(t, start, n / 10);
        lemma_digits_value_same(s, t, start, len - 1);
    }
}

/// A text that is digits from a place to its end has that many digits
/// there.
proof fn lemma_digits_to_end(s: Seq<char>, pos: int)
    requires
        0 <= pos <= s.len(),
        forall|i: int| pos <= i < s.len() ==> is_digit(#[trigger] s[i]),
    ensures
        digits_end(s, pos) == s.len(),
    decreases s.len() - pos,
{
    if pos < s.len() {
        lemma_digits_to_end(s, pos + 1);
    }
}

/// A whole number is written as its decimal numeral, in every style.
pub proof fn lemma_format_scalar(k: int, style: OutputStyle)
    ensures
        ValueView::scalar(k).format(style) == int_text(k),
{
    reveal_strlit("0");
    reveal_strlit("");
}

/// The decimal numeral of a whole number is read as that number, to the
/// end of the numeral.
pub proof fn lemma_number_of_int_text(k: int)
    requires
        isize::MIN <= k <= isize::MAX,
    ensures
        p_number(int_text(k), 0) == Some((ValueView::scalar(k), int_text(k).len() as int)),
        int_text(k).len() > 0,
{
    reveal(p_number);
    let s = int_text(k);
    let n: nat = abs(k);
    let start: int = if k < 0 {
        1
    } else {
        0
    };
    assert(n < pow10(19)) by {
        reveal_with_fuel(pow10, 20);
    }
    lemma_decimal_digits(n, 19);
    assert(s.subrange(start, s.len() as int) =~= decimal(n));
    assert forall|i: int| start <= i < s.len() implies is_digit(#[trigger] s[i]) by {
    }
    lemma_digits_to_end(s, start);
    lemma_digits_of_decimal(s, start, n);
    assert((char_at(s, 0) == Some('-')) == (k < 0));
    assert(pow10(0) == 1);
    assert(gcd(n, 1) == 1) by {
        reveal_with_fuel(gcd, 3);
    }
    assert(1int / 1 == 1);
    let end = s.len() as int;
    assert(Ratio::reduce(k, 1) == Ratio::from_int(k));
}

/// Nothing goes on behind the end of the text: what has been read so far
/// is the whole expression.
proof fn lemma_rest_at_end(s: Seq<char>, v: ValueView)
    ensures
        p_term_rest(s, s.len() as int, v) == Some((v, s.len() as int)),
        p_sum_rest(s, s.len() as int, v) == Some((v, s.len() as int)),
        p_logic_rest(s, s.len() as int, v) == Some((v, s.len() as int)),
        p_and_rest(s, s.len() as int, v) == Some((v, s.len() as int)),
        p_or_rest(s, s.len() as int, v) == Some((v, s.len() as int)),
        p_space_rest(s, s.len() as int, seq![v]) == Some((v, s.len() as int)),
        p_comma_rest(s, s.len() as int, seq![v], false) == Some((v, s.len() as int)),
{
    let end = s.len() as int;
    reveal(term_sign);
    reveal(sum_sign);
    reveal(comparison_sign);
    reveal(word_between);
    reveal(comma_at);
    reveal_strlit("==");
    reveal_strlit("!=");
    reveal_strlit(">=");
    reveal_strlit("<=");
}

/// A whole number as it is written is read as that number: the decimal
/// numeral of `k` is a value expression for the plain number `k`, to its
/// end.
pub proof fn lemma_scalar_round_trip(k: int, style: OutputStyle)
    requires
        isize::MIN <= k <= isize::MAX,
    ensures
        p_value_expression(ValueView::scalar(k).format(style), 0) == Some(
            (ValueView::scalar(k), ValueView::scalar(k).format(style).len() as int),
        ),
{
    lemma_format_scalar(k, style);
    lemma_number_of_int_text(k);
    lemma_number_is_expression(int_text(k), ValueView::scalar(k));
}

/// A text that is one number is an expression for that number.
proof fn lemma_number_is_expression(s: Seq<char>, v: ValueView)
    requires
        s.len() > 0,
        p_number(s, 0) == Some((v, s.len() as int)),
    ensures
        p_value_expression(s, 0) == Some((v, s.len() as int)),
{
    let end = s.len() as int;
    lemma_rest_at_end(s, v);
    assert(p_single_value(s, 0) == Some((v, end)));
    lemma_single_is_logic(s, v);
}

/// A text that is one single value is a comparison of that value alone.
proof fn lemma_single_is_logic(s: Seq<char>, v: ValueView)
    requires
        s.len() > 0,
        p_single_value(s, 0) == Some((v, s.len() as int)),
    ensures
        p_logic(s, 0) == Some((v, s.len() as int)),
{
    lemma_rest_at_end(s, v);
}

} // verus!
