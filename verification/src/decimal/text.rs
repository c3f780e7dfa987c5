//! Decimal text: what counts as a decimal number, the parts it is made of
//! and its canonical form.

use vstd::prelude::*;

verus! {


/// A decimal digit.
pub open spec fn is_digit(c: char) -> bool {
    '0' <= c && c <= '9'
}

/// Every character is a decimal digit.
pub open spec fn all_digits(s: Seq<char>) -> bool {
    forall|i: int| 0 <= i < s.len() ==> is_digit(#[trigger] s[i])
}

/// Every character is the digit zero.
pub open spec fn all_zeros(s: Seq<char>) -> bool {
    forall|i: int| 0 <= i < s.len() ==> #[trigger] s[i] == '0'
}

/// The position of the first decimal point, or the length where there is none.
pub open spec fn point_position(s: Seq<char>) -> int
    decreases s.len(),
{
    if s.len() == 0 || s[0] == '.' {
        0
    } else {
        1 + point_position(s.drop_first())
    }
}

/// The text starts with a minus sign.
pub open spec fn is_negative_text(s: Seq<char>) -> bool {
    s.len() > 0 && s[0] == '-'
}

/// The text after its sign.
pub open spec fn unsigned_text(s: Seq<char>) -> Seq<char> {
    if is_negative_text(s) {
        s.drop_first()
    } else {
        s
    }
}

/// The text holds a decimal point.
pub open spec fn has_point(s: Seq<char>) -> bool {
    point_position(unsigned_text(s)) < unsigned_text(s).len()
}

/// What stands between the sign and the first decimal point.
pub open spec fn integer_part(s: Seq<char>) -> Seq<char> {
    unsigned_text(s).take(point_position(unsigned_text(s)))
}

/// What stands after the first decimal point.
pub open spec fn fraction_part(s: Seq<char>) -> Seq<char> {
    if has_point(s) {
        unsigned_text(s).skip(point_position(unsigned_text(s)) + 1)
    } else {
        Seq::empty()
    }
}

/// The text is a decimal number: an optional minus sign, one or more digits
/// and, optionally, a point followed by one or more digits.
pub open spec fn is_decimal_text(s: Seq<char>) -> bool {
    &&& integer_part(s).len() > 0
    &&& all_digits(integer_part(s))
    &&& all_digits(fraction_part(s))
    &&& has_point(s) ==> fraction_part(s).len() > 0
}

/// The digits without the zeros that lead them; one digit always stays.
pub open spec fn without_leading_zeros(digits: Seq<char>) -> Seq<char>
    decreases digits.len(),
{
    if digits.len() > 1 && digits[0] == '0' {
        without_leading_zeros(digits.drop_first())
    } else {
        digits
    }
}

/// The digits without the zeros that trail them.
pub open spec fn without_trailing_zeros(digits: Seq<char>) -> Seq<char>
    decreases digits.len(),
{
    if digits.len() > 0 && digits.last() == '0' {
        without_trailing_zeros(digits.drop_last())
    } else {
        digits
    }
}

/// The text made of a sign, integer digits and fraction digits; the point is
/// written only before a fraction that has digits.
pub open spec fn compose(negative: bool, integer: Seq<char>, fraction: Seq<char>) -> Seq<char> {
    let sign = if negative {
        seq!['-']
    } else {
        Seq::<char>::empty()
    };
    let tail = if fraction.len() > 0 {
        seq!['.'] + fraction
    } else {
        Seq::<char>::empty()
    };
    sign + integer + tail
}

/// The canonical form of a decimal text: the same sign, the integer digits
/// without leading zeros, the fraction digits without trailing zeros.
pub open spec fn canonical_text(s: Seq<char>) -> Seq<char> {
    compose(
        is_negative_text(s),
        without_leading_zeros(integer_part(s)),
        without_trailing_zeros(fraction_part(s)),
    )
}

/// The text is a decimal number written in canonical form.
pub open spec fn is_canonical(s: Seq<char>) -> bool {
    is_decimal_text(s) && canonical_text(s) == s
}

/// Every digit of the text is zero: the number is zero, whatever its sign.
pub open spec fn denotes_zero(s: Seq<char>) -> bool {
    all_zeros(integer_part(s)) && all_zeros(fraction_part(s))
}

/// The number is greater than zero.
pub open spec fn denotes_positive(s: Seq<char>) -> bool {
    !is_negative_text(s) && !denotes_zero(s)
}

/// `point_position` is the one position before which no point stands and at
/// which the text ends or a point stands.
pub proof fn lemma_point_position(s: Seq<char>, p: int)
    requires
        0 <= p <= s.len(),
        forall|i: int| 0 <= i < p ==> #[trigger] s[i] != '.',
        p < s.len() ==> s[p] == '.',
    ensures
        point_position(s) == p,
    decreases s.len(),
{
    if p > 0 {
        let rest = s.drop_first();
        assert forall|i: int| 0 <= i < p - 1 implies #[trigger] rest[i] != '.' by {
            assert(rest[i] == s[i + 1]);
        }
        lemma_point_position(rest, p - 1);
    }
}

/// A sign, integer digits and fraction digits are read back from the text
/// composed of them.
pub proof fn lemma_compose_parts(negative: bool, integer: Seq<char>, fraction: Seq<char>)
    requires
        integer.len() > 0,
        all_digits(integer),
        all_digits(fraction),
    ensures
        is_negative_text(compose(negative, integer, fraction)) == negative,
        integer_part(compose(negative, integer, fraction)) == integer,
        fraction_part(compose(negative, integer, fraction)) == fraction,
        is_decimal_text(compose(negative, integer, fraction)),
{
    let text = compose(negative, integer, fraction);
    let tail = if fraction.len() > 0 {
        seq!['.'] + fraction
    } else {
        Seq::<char>::empty()
    };
    assert(is_digit(integer[0]));
    assert(is_negative_text(text) == negative);
    let body = unsigned_text(text);
    assert(body =~= integer + tail);
    assert forall|i: int| 0 <= i < integer.len() implies #[trigger] body[i] != '.' by {
        assert(is_digit(integer[i]));
    }
    lemma_point_position(body, integer.len() as int);
    assert(integer_part(text) =~= integer);
    assert(fraction_part(text) =~= fraction);
}

/// Stripping leading zeros leaves digits, at least one, with a zero in
/// front only where it is the one digit left; stripping again changes
/// nothing.
pub proof fn lemma_without_leading_zeros(digits: Seq<char>)
    requires
        digits.len() > 0,
        all_digits(digits),
    ensures
        without_leading_zeros(digits).len() > 0,
        all_digits(without_leading_zeros(digits)),
        without_leading_zeros(digits).len() == 1 || without_leading_zeros(digits)[0] != '0',
        without_leading_zeros(without_leading_zeros(digits)) == without_leading_zeros(digits),
        all_zeros(without_leading_zeros(digits)) == all_zeros(digits),
    decreases digits.len(),
{
    if digits.len() > 1 && digits[0] == '0' {
        let rest = digits.drop_first();
        assert forall|i: int| 0 <= i < rest.len() implies is_digit(#[trigger] rest[i]) by {
            assert(rest[i] == digits[i + 1]);
        }
        lemma_without_leading_zeros(rest);
        if all_zeros(rest) {
            assert forall|i: int| 0 <= i < digits.len() implies #[trigger] digits[i] == '0' by {
                if i > 0 {
                    assert(rest[i - 1] == digits[i]);
                }
            }
        }
        if all_zeros(digits) {
            assert forall|i: int| 0 <= i < rest.len() implies #[trigger] rest[i] == '0' by {
                assert(rest[i] == digits[i + 1]);
            }
        }
    }
}

/// Stripping trailing zeros leaves digits that do not end in a zero;
/// stripping again changes nothing.
pub proof fn lemma_without_trailing_zeros(digits: Seq<char>)
    requires
        all_digits(digits),
    ensures
        all_digits(without_trailing_zeros(digits)),
        without_trailing_zeros(digits).len() == 0 || without_trailing_zeros(digits).last() != '0',
        without_trailing_zeros(without_trailing_zeros(digits)) == without_trailing_zeros(digits),
        all_zeros(without_trailing_zeros(digits)) == all_zeros(digits),
    decreases digits.len(),
{
    if digits.len() > 0 && digits.last() == '0' {
        let rest = digits.drop_last();
        assert forall|i: int| 0 <= i < rest.len() implies is_digit(#[trigger] rest[i]) by {
            assert(rest[i] == digits[i]);
        }
        lemma_without_trailing_zeros(rest);
        if all_zeros(rest) {
            assert forall|i: int| 0 <= i < digits.len() implies #[trigger] digits[i] == '0' by {
                if i < rest.len() {
                    assert(rest[i] == digits[i]);
                }
            }
        }
        if all_zeros(digits) {
            assert forall|i: int| 0 <= i < rest.len() implies #[trigger] rest[i] == '0' by {
                assert(rest[i] == digits[i]);
            }
        }
    }
}

/// The canonical form of a decimal text is a decimal text in canonical form,
/// with the sign of the text it was made from, and zero where that was zero.
pub proof fn lemma_canonical_text(s: Seq<char>)
    requires
        is_decimal_text(s),
    ensures
        is_canonical(canonical_text(s)),
        is_negative_text(canonical_text(s)) == is_negative_text(s),
        denotes_zero(canonical_text(s)) == denotes_zero(s),
{
    let integer = without_leading_zeros(integer_part(s));
    let fraction = without_trailing_zeros(fraction_part(s));
    lemma_without_leading_zeros(integer_part(s));
    lemma_without_trailing_zeros(fraction_part(s));
    lemma_compose_parts(is_negative_text(s), integer, fraction);
}

/// The one digit zero is a decimal text in canonical form, and it denotes
/// zero.
pub proof fn lemma_zero_text()
    ensures
        is_canonical(seq!['0']),
        denotes_zero(seq!['0']),
        !is_negative_text(seq!['0']),
{
    let digits = seq!['0'];
    assert(all_digits(digits));
    lemma_compose_parts(false, digits, Seq::<char>::empty());
    assert(compose(false, digits, Seq::<char>::empty()) =~= digits);
}

/// Where `point_position` points: inside the text or at its end, with no
/// point before it and a point at it unless the text ends there.
pub proof fn lemma_point_position_bounds(s: Seq<char>)
    ensures
        0 <= point_position(s) <= s.len(),
        forall|i: int| 0 <= i < point_position(s) ==> #[trigger] s[i] != '.',
        point_position(s) < s.len() ==> s[point_position(s)] == '.',
    decreases s.len(),
{
    if !(s.len() == 0 || s[0] == '.') {
        let rest = s.drop_first();
        lemma_point_position_bounds(rest);
        assert forall|i: int| 0 <= i < point_position(s) implies #[trigger] s[i] != '.' by {
            if i > 0 {
                assert(rest[i - 1] == s[i]);
            }
        }
    }
}

/// A decimal text holds a minus sign, digits and points only.
pub proof fn lemma_decimal_text_is_ascii(s: Seq<char>)
    requires
        is_decimal_text(s),
    ensures
        forall|i: int| 0 <= i < s.len() ==> '\0' <= #[trigger] s[i] <= '\u{7f}',
{
    let body = unsigned_text(s);
    let p = point_position(body);
    let lead: int = if is_negative_text(s) {
        1
    } else {
        0
    };
    lemma_point_position_bounds(body);
    assert forall|i: int| 0 <= i < s.len() implies '\0' <= #[trigger] s[i] <= '\u{7f}' by {
        if i >= lead {
            let j = i - lead;
            assert(body[j] == s[i]);
            if j < p {
                assert(integer_part(s)[j] == body[j]);
                assert(is_digit(integer_part(s)[j]));
            } else if j > p {
                assert(fraction_part(s)[j - p - 1] == body[j]);
                assert(is_digit(fraction_part(s)[j - p - 1]));
            }
        }
    }
}

} // verus!
