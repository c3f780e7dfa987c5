//! The amount type and its reader.

use vstd::prelude::*;
use crate::decimal::text::{
    all_zeros, canonical_text, compose, denotes_positive, denotes_zero, fraction_part,
    integer_part, is_canonical, is_decimal_text, is_digit, is_negative_text,
    lemma_canonical_text, lemma_decimal_text_is_ascii, lemma_point_position,
    lemma_point_position_bounds, lemma_without_leading_zeros, lemma_without_trailing_zeros,
    lemma_zero_text, point_position, unsigned_text, without_leading_zeros,
    without_trailing_zeros,
};

verus! {

/// The ASCII code of the digit zero.
const DIGIT_ZERO: u8 = 48;

/// The ASCII code of the digit nine.
const DIGIT_NINE: u8 = 57;

/// The ASCII code of the minus sign.
const MINUS_SIGN: u8 = 45;

/// The ASCII code of the decimal point.
const DECIMAL_POINT: u8 = 46;

/// The characters that a sequence of ASCII bytes encodes.
spec fn ascii_text(bytes: Seq<u8>) -> Seq<char> {
    Seq::new(bytes.len(), |i: int| bytes[i] as char)
}

/// Whether a byte is an ASCII decimal digit.
fn is_digit_byte(b: u8) -> (r: bool)
    ensures
        r == is_digit(b as char),
{
    DIGIT_ZERO <= b && b <= DIGIT_NINE
}

/// The end of the run of digits that starts at `from`.
fn digits_end(bytes: &[u8], from: usize) -> (to: usize)
    requires
        from <= bytes@.len(),
    ensures
        from <= to <= bytes@.len(),
        forall|i: int| from <= i < to ==> is_digit(#[trigger] ascii_text(bytes@)[i]),
        to < bytes@.len() ==> !is_digit(ascii_text(bytes@)[to as int]),
{
    let mut to = from;
    while to < bytes.len() && is_digit_byte(bytes[to])
        invariant
            from <= to <= bytes@.len(),
            forall|i: int| from <= i < to ==> is_digit(#[trigger] ascii_text(bytes@)[i]),
        decreases bytes@.len() - to,
    {
        to += 1;
    }
    to
}

/// Where the parts of a decimal text stand in it.
struct Outline {
    negative: bool,
    integer_from: usize,
    integer_to: usize,
    fraction_from: usize,
    fraction_to: usize,
}

/// Finds the sign, the integer digits and the fraction digits of a decimal
/// text, or finds that the text is none.
fn outline(bytes: &[u8]) -> (found: Option<Outline>)
    ensures
        found is Some <==> is_decimal_text(ascii_text(bytes@)),
        found matches Some(o) ==> {
            &&& o.negative == is_negative_text(ascii_text(bytes@))
            &&& o.integer_from < o.integer_to <= o.fraction_from <= o.fraction_to <= bytes@.len()
            &&& integer_part(ascii_text(bytes@)) == ascii_text(bytes@).subrange(
                o.integer_from as int,
                o.integer_to as int,
            )
            &&& fraction_part(ascii_text(bytes@)) == ascii_text(bytes@).subrange(
                o.fraction_from as int,
                o.fraction_to as int,
            )
        },
{
    let n = bytes.len();
    let ghost s = ascii_text(bytes@);
    let negative = n > 0 && bytes[0] == MINUS_SIGN;
    let start: usize = if negative {
        1
    } else {
        0
    };
    let ghost body = unsigned_text(s);
    let ghost p = point_position(body);
    proof {
        assert(negative == is_negative_text(s));
        assert(body =~= s.skip(start as int));
        lemma_point_position_bounds(body);
    }
    let integer_to = digits_end(bytes, start);
    let ghost q = integer_to - start;
    proof {
        assert forall|i: int| 0 <= i < q implies #[trigger] body[i] != '.' by {
            assert(is_digit(s[i + start]));
        }
    }
    if integer_to == start {
        proof {
            if start < n && p > 0 {
                assert(integer_part(s)[0] == body[0]);
            }
        }
        return None;
    }
    if integer_to == n {
        proof {
            lemma_point_position(body, q);
            assert(integer_part(s) =~= s.subrange(start as int, integer_to as int));
            assert(fraction_part(s) =~= s.subrange(n as int, n as int));
        }
        return Some(
            Outline { negative, integer_from: start, integer_to, fraction_from: n, fraction_to: n },
        );
    }
    if bytes[integer_to] != DECIMAL_POINT {
        proof {
            assert(body[q] == s[integer_to as int]);
            if p < q {
                assert(is_digit(s[p + start]));
            } else if p > q {
                assert(integer_part(s)[q] == body[q]);
            }
        }
        return None;
    }
    proof {
        assert(body[q] == s[integer_to as int]);
        lemma_point_position(body, q);
        assert(integer_part(s) =~= s.subrange(start as int, integer_to as int));
        assert(fraction_part(s) =~= s.skip(integer_to + 1));
    }
    let fraction_from = integer_to + 1;
    let fraction_to = digits_end(bytes, fraction_from);
    if fraction_to != n || fraction_to == fraction_from {
        proof {
            if fraction_to < n {
                assert(fraction_part(s)[fraction_to - fraction_from] == s[fraction_to as int]);
            }
        }
        return None;
    }
    proof {
        assert(fraction_part(s) =~= s.subrange(fraction_from as int, fraction_to as int));
        assert forall|i: int| 0 <= i < fraction_part(s).len() implies is_digit(
            #[trigger] fraction_part(s)[i],
        ) by {
            assert(is_digit(s[i + fraction_from]));
        }
        assert forall|i: int| 0 <= i < integer_part(s).len() implies is_digit(
            #[trigger] integer_part(s)[i],
        ) by {
            assert(is_digit(s[i + start]));
        }
    }
    Some(Outline { negative, integer_from: start, integer_to, fraction_from, fraction_to })
}

/// The start of the digits in `from..to` that stay when leading zeros go.
fn skip_leading_zeros(bytes: &[u8], from: usize, to: usize) -> (kept_from: usize)
    requires
        from < to <= bytes@.len(),
    ensures
        from <= kept_from < to,
        without_leading_zeros(ascii_text(bytes@).subrange(from as int, to as int)) == ascii_text(
            bytes@,
        ).subrange(kept_from as int, to as int),
{
    let ghost s = ascii_text(bytes@);
    let mut kept_from = from;
    while kept_from + 1 < to && bytes[kept_from] == DIGIT_ZERO
        invariant
            from <= kept_from < to <= bytes@.len(),
            s == ascii_text(bytes@),
            without_leading_zeros(s.subrange(from as int, to as int)) == without_leading_zeros(
                s.subrange(kept_from as int, to as int),
            ),
        decreases to - kept_from,
    {
        proof {
            let kept = s.subrange(kept_from as int, to as int);
            assert(kept[0] == s[kept_from as int]);
            assert(kept.drop_first() =~= s.subrange(kept_from + 1, to as int));
        }
        kept_from += 1;
    }
    proof {
        let kept = s.subrange(kept_from as int, to as int);
        assert(kept[0] == s[kept_from as int]);
    }
    kept_from
}

/// The end of the digits in `from..to` that stay when trailing zeros go.
fn skip_trailing_zeros(bytes: &[u8], from: usize, to: usize) -> (kept_to: usize)
    requires
        from <= to <= bytes@.len(),
    ensures
        from <= kept_to <= to,
        without_trailing_zeros(ascii_text(bytes@).subrange(from as int, to as int)) == ascii_text(
            bytes@,
        ).subrange(from as int, kept_to as int),
{
    let ghost s = ascii_text(bytes@);
    let mut kept_to = to;
    while kept_to > from && bytes[kept_to - 1] == DIGIT_ZERO
        invariant
            from <= kept_to <= to <= bytes@.len(),
            s == ascii_text(bytes@),
            without_trailing_zeros(s.subrange(from as int, to as int)) == without_trailing_zeros(
                s.subrange(from as int, kept_to as int),
            ),
        decreases kept_to - from,
    {
        proof {
            let kept = s.subrange(from as int, kept_to as int);
            assert(kept.last() == s[kept_to - 1]);
            assert(kept.drop_last() =~= s.subrange(from as int, kept_to - 1));
        }
        kept_to -= 1;
    }
    proof {
        let kept = s.subrange(from as int, kept_to as int);
        if kept_to > from {
            assert(kept.last() == s[kept_to - 1]);
        }
    }
    kept_to
}

/// An exact decimal amount, held as its canonical text.
#[derive(Debug)]
pub struct Decimal {
    text: String,
    negative: bool,
    zero: bool,
}

impl View for Decimal {
    type V = Seq<char>;

    /// The canonical text of the amount.
    closed spec fn view(&self) -> Seq<char> {
        self.text@
    }
}

impl Clone for Decimal {
    fn clone(&self) -> (copy: Decimal)
        ensures
            copy@ == self@,
    {
        proof {
            use_type_invariant(self);
        }
        Decimal { text: self.text.clone(), negative: self.negative, zero: self.zero }
    }
}

impl Decimal {
    #[verifier::type_invariant]
    spec fn well_formed(&self) -> bool {
        &&& is_canonical(self.text@)
        &&& self.negative == is_negative_text(self.text@)
        &&& self.zero == denotes_zero(self.text@)
    }

    /// Reads a decimal text. Every decimal text is accepted, whatever zeros
    /// lead its integer digits or trail its fraction digits, and nothing
    /// else is; the amount is the text's canonical form.
    pub fn parse(text: &str) -> (parsed: Option<Decimal>)
        ensures
            parsed is Some <==> is_decimal_text(text@),
            parsed matches Some(amount) ==> amount@ == canonical_text(text@) && is_canonical(
                amount@,
            ),
    {
        if !text.is_ascii() {
            proof {
                if is_decimal_text(text@) {
                    lemma_decimal_text_is_ascii(text@);
                }
            }
            return None;
        }
        let bytes = text.as_bytes();
        let ghost s = text@;
        assert(s =~= ascii_text(bytes@)) by {
            assert forall|i: int| 0 <= i < s.len() implies s[i] == #[trigger] bytes@[i] as char by {
                assert('\0' <= s[i] <= '\u{7f}');
                assert(bytes@[i] == s[i] as u8);
            }
        }
        let found = outline(bytes);
        let o = match found {
            Some(o) => o,
            None => {
                return None;
            },
        };
        let integer_from = skip_leading_zeros(bytes, o.integer_from, o.integer_to);
        let fraction_to = skip_trailing_zeros(bytes, o.fraction_from, o.fraction_to);
        let zero = bytes[integer_from] == DIGIT_ZERO && fraction_to == o.fraction_from;
        let ghost integer = s.subrange(integer_from as int, o.integer_to as int);
        let ghost fraction = s.subrange(o.fraction_from as int, fraction_to as int);
        proof {
            lemma_without_leading_zeros(integer_part(s));
            lemma_without_trailing_zeros(fraction_part(s));
            lemma_canonical_text(s);
            assert(integer == without_leading_zeros(integer_part(s)));
            assert(fraction == without_trailing_zeros(fraction_part(s)));
            assert(integer[0] == s[integer_from as int]);
            assert(zero == denotes_zero(s)) by {
                if all_zeros(integer) {
                    assert(integer[0] == '0');
                }
                if all_zeros(fraction) && fraction.len() > 0 {
                    assert(fraction[fraction.len() - 1] == '0');
                }
            }
            reveal_strlit("-");
            reveal_strlit(".");
        }
        let mut out = String::new();
        if o.negative {
            out.append("-");
        }
        out.append(text.substring_ascii(integer_from, o.integer_to));
        if fraction_to > o.fraction_from {
            out.append(".");
            out.append(text.substring_ascii(o.fraction_from, fraction_to));
        }
        assert(out@ =~= compose(o.negative, integer, fraction));
        Some(Decimal { text: out, negative: o.negative, zero })
    }

    /// The amount zero.
    pub fn zero() -> (amount: Decimal)
        ensures
            amount@ == seq!['0'],
            is_canonical(amount@),
            denotes_zero(amount@),
    {
        let text = String::from_str("0");
        proof {
            reveal_strlit("0");
            lemma_zero_text();
            assert(text@ =~= seq!['0']);
        }
        Decimal { text, negative: false, zero: true }
    }

    /// The canonical text of the amount.
    pub fn as_str(&self) -> (text: &str)
        ensures
            text@ == self@,
            is_canonical(self@),
    {
        proof {
            use_type_invariant(self);
        }
        self.text.as_str()
    }

    /// The canonical text of the amount, handed over.
    pub fn into_text(self) -> (text: String)
        ensures
            text@ == self@,
            is_canonical(self@),
    {
        proof {
            use_type_invariant(&self);
        }
        self.text
    }

    /// Whether the amount is zero, whatever its sign.
    pub fn is_zero(&self) -> (r: bool)
        ensures
            r == denotes_zero(self@),
    {
        proof {
            use_type_invariant(self);
        }
        self.zero
    }

    /// Whether the amount carries a minus sign.
    pub fn is_negative(&self) -> (r: bool)
        ensures
            r == is_negative_text(self@),
    {
        proof {
            use_type_invariant(self);
        }
        self.negative
    }

    /// Whether the amount is greater than zero.
    pub fn is_positive(&self) -> (r: bool)
        ensures
            r == denotes_positive(self@),
    {
        proof {
            use_type_invariant(self);
        }
        !self.negative && !self.zero
    }
}

} // verus!
