//! The number that a decimal text denotes.
//!
//! The canonical form is a matter of text. What it must not do is change
//! the number: this module says what the number is, and shows that zeros
//! that lead the integer digits or trail the fraction digits do not count.

use vstd::prelude::*;
use crate::decimal::text::{
    all_digits, all_zeros, canonical_text, denotes_zero, fraction_part, integer_part,
    is_canonical, is_decimal_text, is_digit, is_negative_text, lemma_compose_parts,
    lemma_without_leading_zeros, lemma_without_trailing_zeros, without_leading_zeros,
    without_trailing_zeros,
};

verus! {

/// The value of a decimal digit.
pub open spec fn digit_value(c: char) -> nat {
    (c as int - '0' as int) as nat
}

/// The number that a run of digits denotes; the empty run denotes zero.
pub open spec fn digits_value(digits: Seq<char>) -> nat
    decreases digits.len(),
{
    if digits.len() == 0 {
        0
    } else {
        10 * digits_value(digits.drop_last()) + digit_value(digits.last())
    }
}

/// Ten to the power `n`.
pub open spec fn pow10(n: nat) -> nat
    decreases n,
{
    if n == 0 {
        1
    } else {
        10 * pow10((n - 1) as nat)
    }
}

/// The magnitude of the number that a decimal text denotes, counted in
/// units of ten to the power minus `scale`. The scale must leave room for
/// the fraction digits of the text.
pub open spec fn magnitude_at_scale(s: Seq<char>, scale: nat) -> nat
    recommends
        scale >= fraction_part(s).len(),
{
    digits_value(integer_part(s) + fraction_part(s)) * pow10(
        (scale - fraction_part(s).len()) as nat,
    )
}

/// A power of ten is not zero.
pub proof fn lemma_pow10_positive(n: nat)
    ensures
        pow10(n) > 0,
    decreases n,
{
    if n > 0 {
        lemma_pow10_positive((n - 1) as nat);
    }
}

/// A zero in front of a run of digits does not change the number.
pub proof fn lemma_leading_zero_value(digits: Seq<char>)
    requires
        digits.len() > 0,
        digits[0] == '0',
    ensures
        digits_value(digits) == digits_value(digits.drop_first()),
    decreases digits.len(),
{
    let front = digits.drop_last();
    let rest = digits.drop_first();
    if digits.len() == 1 {
        assert(digits_value(front) == 0);
        assert(digits_value(rest) == 0);
    } else {
        lemma_leading_zero_value(front);
        assert(front.drop_first() =~= rest.drop_last());
        assert(rest.last() == digits.last());
        assert(digits_value(rest) == 10 * digits_value(rest.drop_last()) + digit_value(
            rest.last(),
        ));
    }
}

/// A run of digits denotes zero exactly when all of them are zeros.
pub proof fn lemma_digits_value_zero(digits: Seq<char>)
    requires
        all_digits(digits),
    ensures
        digits_value(digits) == 0 <==> all_zeros(digits),
    decreases digits.len(),
{
    if digits.len() > 0 {
        let front = digits.drop_last();
        assert forall|i: int| 0 <= i < front.len() implies is_digit(#[trigger] front[i]) by {
            assert(front[i] == digits[i]);
        }
        lemma_digits_value_zero(front);
        assert(is_digit(digits[digits.len() - 1]));
        if all_zeros(digits) {
            assert(digits[digits.len() - 1] == '0');
            assert forall|i: int| 0 <= i < front.len() implies #[trigger] front[i] == '0' by {
                assert(front[i] == digits[i]);
            }
        }
        if digits_value(digits) == 0 {
            assert forall|i: int| 0 <= i < digits.len() implies #[trigger] digits[i] == '0' by {
                if i < front.len() {
                    assert(front[i] == digits[i]);
                }
            }
        }
    }
}

/// Stripping the leading zeros of the digits in front does not change the
/// number that a run of digits denotes.
pub proof fn lemma_front_zeros_value(front: Seq<char>, digits: Seq<char>)
    requires
        front.len() > 0,
    ensures
        digits_value(without_leading_zeros(front) + digits) == digits_value(front + digits),
    decreases front.len(),
{
    if front.len() > 1 && front[0] == '0' {
        lemma_front_zeros_value(front.drop_first(), digits);
        let whole = front + digits;
        assert(whole[0] == '0');
        lemma_leading_zero_value(whole);
        assert(whole.drop_first() =~= front.drop_first() + digits);
    }
}

/// Stripping trailing zeros from the fraction digits does not change the
/// number, counted at a scale that leaves room for all of them.
pub proof fn lemma_trailing_zeros_value(integer: Seq<char>, fraction: Seq<char>, scale: nat)
    requires
        scale >= fraction.len(),
    ensures
        digits_value(integer + without_trailing_zeros(fraction)) * pow10(
            (scale - without_trailing_zeros(fraction).len()) as nat,
        ) == digits_value(integer + fraction) * pow10((scale - fraction.len()) as nat),
    decreases fraction.len(),
{
    if fraction.len() > 0 && fraction.last() == '0' {
        let shorter = fraction.drop_last();
        lemma_trailing_zeros_value(integer, shorter, scale);
        let whole = integer + fraction;
        assert(whole.drop_last() =~= integer + shorter);
        assert(whole.last() == '0');
        let v = digits_value(integer + shorter);
        let p = pow10((scale - fraction.len()) as nat);
        assert(digits_value(whole) == 10 * v);
        assert(pow10((scale - shorter.len()) as nat) == 10 * p);
        assert(v * (10 * p) == (10 * v) * p) by (nonlinear_arith);
    }
}

/// The canonical form of a decimal text denotes the number that the text
/// denotes.
pub proof fn lemma_canonical_text_keeps_value(s: Seq<char>, scale: nat)
    requires
        is_decimal_text(s),
        scale >= fraction_part(s).len(),
    ensures
        scale >= fraction_part(canonical_text(s)).len(),
        magnitude_at_scale(canonical_text(s), scale) == magnitude_at_scale(s, scale),
        is_negative_text(canonical_text(s)) == is_negative_text(s),
{
    let integer = without_leading_zeros(integer_part(s));
    let fraction = without_trailing_zeros(fraction_part(s));
    lemma_without_leading_zeros(integer_part(s));
    lemma_without_trailing_zeros(fraction_part(s));
    lemma_compose_parts(is_negative_text(s), integer, fraction);
    lemma_without_trailing_zeros_shorter(fraction_part(s));
    lemma_front_zeros_value(integer_part(s), fraction);
    lemma_trailing_zeros_value(integer_part(s), fraction_part(s), scale);
}

/// Stripping trailing zeros does not make a run of digits longer.
pub proof fn lemma_without_trailing_zeros_shorter(digits: Seq<char>)
    ensures
        without_trailing_zeros(digits).len() <= digits.len(),
    decreases digits.len(),
{
    if digits.len() > 0 && digits.last() == '0' {
        lemma_without_trailing_zeros_shorter(digits.drop_last());
    }
}

/// A decimal text denotes zero exactly when all its digits are zeros.
pub proof fn lemma_zero_iff_value_zero(s: Seq<char>, scale: nat)
    requires
        is_decimal_text(s),
        scale >= fraction_part(s).len(),
    ensures
        denotes_zero(s) <==> magnitude_at_scale(s, scale) == 0,
{
    let digits = integer_part(s) + fraction_part(s);
    let p = pow10((scale - fraction_part(s).len()) as nat);
    assert forall|i: int| 0 <= i < digits.len() implies is_digit(#[trigger] digits[i]) by {
        if i < integer_part(s).len() {
            assert(digits[i] == integer_part(s)[i]);
        } else {
            assert(digits[i] == fraction_part(s)[i - integer_part(s).len()]);
        }
    }
    lemma_digits_value_zero(digits);
    lemma_pow10_positive((scale - fraction_part(s).len()) as nat);
    if all_zeros(digits) {
        assert forall|i: int| 0 <= i < integer_part(s).len() implies #[trigger] integer_part(
            s,
        )[i] == '0' by {
            assert(digits[i] == integer_part(s)[i]);
        }
        assert forall|i: int| 0 <= i < fraction_part(s).len() implies #[trigger] fraction_part(
            s,
        )[i] == '0' by {
            assert(digits[i + integer_part(s).len()] == fraction_part(s)[i]);
        }
    }
    if denotes_zero(s) {
        assert forall|i: int| 0 <= i < digits.len() implies #[trigger] digits[i] == '0' by {
            if i < integer_part(s).len() {
                assert(digits[i] == integer_part(s)[i]);
            } else {
                assert(digits[i] == fraction_part(s)[i - integer_part(s).len()]);
            }
        }
    }
    let v = digits_value(digits);
    assert(v * p == 0 <==> v == 0) by (nonlinear_arith)
        requires
            p > 0,
    ;
}

/// Powers of ten multiply as their exponents add.
pub proof fn lemma_pow10_adds(a: nat, b: nat)
    ensures
        pow10(a + b) == pow10(a) * pow10(b),
    decreases a,
{
    if a == 0 {
        assert(pow10(a) == 1);
        assert(a + b == b);
    } else {
        let less = (a - 1) as nat;
        lemma_pow10_adds(less, b);
        assert(pow10(a) == 10 * pow10(less));
        assert(pow10(a + b) == 10 * pow10(less + b));
        assert(10 * (pow10(less) * pow10(b)) == (10 * pow10(less)) * pow10(b))
            by (nonlinear_arith);
    }
}

/// A greater exponent does not give a smaller power of ten.
pub proof fn lemma_pow10_monotone(a: nat, b: nat)
    requires
        a <= b,
    ensures
        pow10(a) <= pow10(b),
    decreases b,
{
    if a < b {
        lemma_pow10_monotone(a, (b - 1) as nat);
    }
}

/// A run of digits denotes a number below ten to the power of its length.
pub proof fn lemma_digits_value_below(digits: Seq<char>)
    requires
        all_digits(digits),
    ensures
        digits_value(digits) < pow10(digits.len()),
    decreases digits.len(),
{
    if digits.len() > 0 {
        let front = digits.drop_last();
        assert forall|i: int| 0 <= i < front.len() implies is_digit(#[trigger] front[i]) by {
            assert(front[i] == digits[i]);
        }
        lemma_digits_value_below(front);
        assert(is_digit(digits[digits.len() - 1]));
    }
}

/// A run of digits that does not start with a zero denotes a number of as
/// many digits: at least ten to the power of its length less one.
pub proof fn lemma_digits_value_at_least(digits: Seq<char>)
    requires
        all_digits(digits),
        digits.len() > 0,
        digits[0] != '0',
    ensures
        digits_value(digits) >= pow10((digits.len() - 1) as nat),
    decreases digits.len(),
{
    let front = digits.drop_last();
    assert(is_digit(digits[digits.len() - 1]));
    if digits.len() == 1 {
        assert(digits_value(front) == 0);
    } else {
        assert forall|i: int| 0 <= i < front.len() implies is_digit(#[trigger] front[i]) by {
            assert(front[i] == digits[i]);
        }
        assert(front[0] == digits[0]);
        lemma_digits_value_at_least(front);
    }
}

/// A run of digits that does not end in a zero denotes a number that is no
/// multiple of ten.
pub proof fn lemma_digits_value_not_tenfold(digits: Seq<char>)
    requires
        all_digits(digits),
        digits.len() > 0,
        digits.last() != '0',
    ensures
        digits_value(digits) % 10 != 0,
{
    assert(is_digit(digits[digits.len() - 1]));
}

/// Two runs of digits of one length that denote one number are one run.
pub proof fn lemma_digits_value_injective(a: Seq<char>, b: Seq<char>)
    requires
        all_digits(a),
        all_digits(b),
        a.len() == b.len(),
        digits_value(a) == digits_value(b),
    ensures
        a == b,
    decreases a.len(),
{
    if a.len() == 0 {
        assert(a =~= b);
    } else {
        let front_a = a.drop_last();
        let front_b = b.drop_last();
        assert forall|i: int| 0 <= i < front_a.len() implies is_digit(#[trigger] front_a[i]) by {
            assert(front_a[i] == a[i]);
        }
        assert forall|i: int| 0 <= i < front_b.len() implies is_digit(#[trigger] front_b[i]) by {
            assert(front_b[i] == b[i]);
        }
        assert(is_digit(a[a.len() - 1]));
        assert(is_digit(b[b.len() - 1]));
        assert(a.last() == b.last());
        lemma_digits_value_injective(front_a, front_b);
        assert(a =~= front_a.push(a.last()));
        assert(b =~= front_b.push(b.last()));
    }
}

/// Of two digit runs that denote one number at one scale, neither can have
/// the longer fraction unless that fraction ends in a zero.
proof fn lemma_longer_fraction_ends_in_zero(
    shorter: Seq<char>,
    shorter_fraction: nat,
    longer: Seq<char>,
    longer_fraction: nat,
    scale: nat,
)
    requires
        all_digits(longer),
        longer.len() > 0,
        shorter_fraction < longer_fraction <= scale,
        digits_value(shorter) * pow10((scale - shorter_fraction) as nat) == digits_value(longer)
            * pow10((scale - longer_fraction) as nat),
    ensures
        longer.last() == '0',
{
    let gap = (longer_fraction - shorter_fraction) as nat;
    let room = (scale - longer_fraction) as nat;
    lemma_pow10_adds(gap, room);
    lemma_pow10_positive(room);
    let p = pow10(room);
    let q = pow10((gap - 1) as nat);
    let v = digits_value(shorter);
    let w = digits_value(longer);
    assert(pow10(gap) == 10 * q);
    assert(pow10((scale - shorter_fraction) as nat) == (10 * q) * p);
    assert(w == 10 * (v * q)) by (nonlinear_arith)
        requires
            v * ((10 * q) * p) == w * p,
            p > 0,
    ;
    if longer.last() != '0' {
        lemma_digits_value_not_tenfold(longer);
    }
}

/// Two canonical texts of one sign that denote one number are one text:
/// every number has one canonical form.
pub proof fn lemma_canonical_text_unique(a: Seq<char>, b: Seq<char>, scale: nat)
    requires
        is_canonical(a),
        is_canonical(b),
        is_negative_text(a) == is_negative_text(b),
        scale >= fraction_part(a).len(),
        scale >= fraction_part(b).len(),
        magnitude_at_scale(a, scale) == magnitude_at_scale(b, scale),
    ensures
        a == b,
{
    let ia = integer_part(a);
    let fa = fraction_part(a);
    let ib = integer_part(b);
    let fb = fraction_part(b);
    // A canonical text is composed of its own parts, which carry no zeros
    // that could be stripped.
    lemma_without_leading_zeros(ia);
    lemma_without_trailing_zeros(fa);
    lemma_without_leading_zeros(ib);
    lemma_without_trailing_zeros(fb);
    lemma_compose_parts(is_negative_text(a), without_leading_zeros(ia), without_trailing_zeros(fa));
    lemma_compose_parts(is_negative_text(b), without_leading_zeros(ib), without_trailing_zeros(fb));
    assert(ia == without_leading_zeros(ia) && fa == without_trailing_zeros(fa));
    assert(ib == without_leading_zeros(ib) && fb == without_trailing_zeros(fb));
    let da = ia + fa;
    let db = ib + fb;
    assert forall|i: int| 0 <= i < da.len() implies is_digit(#[trigger] da[i]) by {
        if i < ia.len() {
            assert(da[i] == ia[i]);
        } else {
            assert(da[i] == fa[i - ia.len()]);
        }
    }
    assert forall|i: int| 0 <= i < db.len() implies is_digit(#[trigger] db[i]) by {
        if i < ib.len() {
            assert(db[i] == ib[i]);
        } else {
            assert(db[i] == fb[i - ib.len()]);
        }
    }
    // The fractions have one length: the longer one would end in a zero.
    if fa.len() < fb.len() {
        assert(db.last() == fb.last());
        lemma_longer_fraction_ends_in_zero(da, fa.len(), db, fb.len(), scale);
    }
    if fb.len() < fa.len() {
        assert(da.last() == fa.last());
        lemma_longer_fraction_ends_in_zero(db, fb.len(), da, fa.len(), scale);
    }
    assert(fa.len() == fb.len());
    // So the digits denote one number.
    let room = (scale - fa.len()) as nat;
    lemma_pow10_positive(room);
    assert(digits_value(da) == digits_value(db)) by (nonlinear_arith)
        requires
            digits_value(da) * pow10(room) == digits_value(db) * pow10(room),
            pow10(room) > 0,
    ;
    // The integer digits have one length: the longer run would not start
    // with a zero and would denote too great a number.
    lemma_digits_value_below(da);
    lemma_digits_value_below(db);
    if ia.len() < ib.len() {
        assert(db[0] == ib[0]);
        lemma_digits_value_at_least(db);
        lemma_pow10_monotone(da.len(), (db.len() - 1) as nat);
    }
    if ib.len() < ia.len() {
        assert(da[0] == ia[0]);
        lemma_digits_value_at_least(da);
        lemma_pow10_monotone(db.len(), (da.len() - 1) as nat);
    }
    assert(ia.len() == ib.len());
    lemma_digits_value_injective(da, db);
    assert(ia =~= da.take(ia.len() as int));
    assert(ib =~= db.take(ib.len() as int));
    assert(fa =~= da.skip(ia.len() as int));
    assert(fb =~= db.skip(ib.len() as int));
}

} // verus!
