//! Lexicographic order on texts, by code point.

use vstd::prelude::*;
use vstd::std_specs::iter::IteratorSpec;

verus! {

/// Strict lexicographic order: at the first position where the two texts
/// differ the character with the smaller code point decides, and a proper
/// prefix precedes every text that extends it.
pub open spec fn lex_less(a: Seq<char>, b: Seq<char>) -> bool
    decreases a.len(),
{
    if b.len() == 0 {
        false
    } else if a.len() == 0 {
        true
    } else if a[0] == b[0] {
        lex_less(a.drop_first(), b.drop_first())
    } else {
        a[0] < b[0]
    }
}

/// No text precedes itself.
pub proof fn lemma_lex_irreflexive(a: Seq<char>)
    ensures
        !lex_less(a, a),
    decreases a.len(),
{
    if a.len() > 0 {
        lemma_lex_irreflexive(a.drop_first());
    }
}

/// The order is transitive.
pub proof fn lemma_lex_transitive(a: Seq<char>, b: Seq<char>, c: Seq<char>)
    requires
        lex_less(a, b),
        lex_less(b, c),
    ensures
        lex_less(a, c),
    decreases a.len(),
{
    if a.len() > 0 && a[0] == b[0] && b[0] == c[0] {
        lemma_lex_transitive(a.drop_first(), b.drop_first(), c.drop_first());
    }
}

/// Two different texts are ordered one way or the other.
pub proof fn lemma_lex_total(a: Seq<char>, b: Seq<char>)
    ensures
        a == b || lex_less(a, b) || lex_less(b, a),
    decreases a.len(),
{
    if a.len() == 0 || b.len() == 0 {
        if a.len() == 0 && b.len() == 0 {
            assert(a =~= b);
        }
    } else if a[0] == b[0] {
        lemma_lex_total(a.drop_first(), b.drop_first());
        if a.drop_first() == b.drop_first() {
            assert(a =~= seq![a[0]] + a.drop_first());
            assert(b =~= seq![b[0]] + b.drop_first());
        }
    }
}

/// Of two texts at most one precedes the other.
pub proof fn lemma_lex_asymmetric(a: Seq<char>, b: Seq<char>)
    requires
        lex_less(a, b),
    ensures
        !lex_less(b, a),
        a != b,
{
    lemma_lex_irreflexive(a);
    if lex_less(b, a) {
        lemma_lex_transitive(a, b, a);
    }
}

/// A common prefix does not take part in the comparison.
pub proof fn lemma_lex_skip_common(a: Seq<char>, b: Seq<char>, n: int)
    requires
        0 <= n <= a.len(),
        n <= b.len(),
        a.take(n) == b.take(n),
    ensures
        lex_less(a, b) == lex_less(a.skip(n), b.skip(n)),
    decreases n,
{
    if n == 0 {
        assert(a.skip(0) =~= a);
        assert(b.skip(0) =~= b);
    } else {
        assert(a[0] == a.take(n)[0]);
        assert(b[0] == b.take(n)[0]);
        assert(a.drop_first().take(n - 1) =~= a.take(n).drop_first());
        assert(b.drop_first().take(n - 1) =~= b.take(n).drop_first());
        lemma_lex_skip_common(a.drop_first(), b.drop_first(), n - 1);
        assert(a.drop_first().skip(n - 1) =~= a.skip(n));
        assert(b.drop_first().skip(n - 1) =~= b.skip(n));
    }
}

/// After a common prefix, a text that ends comes before one that goes on,
/// and otherwise the smaller character at the first difference comes first.
pub proof fn lemma_lex_first_difference(a: Seq<char>, b: Seq<char>, n: int)
    requires
        0 <= n <= a.len(),
        n <= b.len(),
        a.take(n) == b.take(n),
        n < b.len(),
        n == a.len() || a[n] < b[n],
    ensures
        lex_less(a, b),
{
    lemma_lex_skip_common(a, b, n);
    if n < a.len() {
        assert(a.skip(n)[0] == a[n]);
    }
    assert(b.skip(n)[0] == b[n]);
}

/// Every text precedes all texts after it.
pub open spec fn ascending(texts: Seq<Seq<char>>) -> bool {
    forall|i: int, j: int|
        0 <= i < j < texts.len() ==> lex_less(#[trigger] texts[i], #[trigger] texts[j])
}

/// Texts of which each precedes the next are ascending.
pub proof fn lemma_ascending_from_neighbours(texts: Seq<Seq<char>>)
    requires
        forall|i: int| 0 <= i < texts.len() - 1 ==> lex_less(#[trigger] texts[i], texts[i + 1]),
    ensures
        ascending(texts),
{
    assert forall|i: int, j: int| 0 <= i < j < texts.len() implies lex_less(
        #[trigger] texts[i],
        #[trigger] texts[j],
    ) by {
        lemma_reaches(texts, i, j);
    }
}

/// In a chain of neighbours that each precede the next, a text precedes
/// any later one.
proof fn lemma_reaches(texts: Seq<Seq<char>>, i: int, j: int)
    requires
        forall|k: int| 0 <= k < texts.len() - 1 ==> lex_less(#[trigger] texts[k], texts[k + 1]),
        0 <= i < j < texts.len(),
    ensures
        lex_less(texts[i], texts[j]),
    decreases j - i,
{
    if i + 1 < j {
        lemma_reaches(texts, i, j - 1);
        lemma_lex_transitive(texts[i], texts[j - 1], texts[j]);
    }
}

/// How one text stands to another in the lexicographic order.
#[derive(Clone, Copy, Debug, PartialEq, Eq, Structural)]
pub enum Rank {
    Before,
    Same,
    After,
}

/// Ranks `a` against `b`.
pub fn rank(a: &str, b: &str) -> (r: Rank)
    ensures
        r == Rank::Before <==> lex_less(a@, b@),
        r == Rank::Same <==> a@ == b@,
        r == Rank::After <==> lex_less(b@, a@),
{
    let mut rest_a = a.chars();
    let mut rest_b = b.chars();
    let ghost mut n: int = 0;
    loop
        invariant
            0 <= n <= a@.len(),
            n <= b@.len(),
            a@.take(n) == b@.take(n),
            rest_a.remaining() == a@.skip(n),
            rest_b.remaining() == b@.skip(n),
        decreases a@.len() - n,
    {
        let next_a = rest_a.next();
        let next_b = rest_b.next();
        proof {
            lemma_lex_skip_common(a@, b@, n);
            lemma_lex_skip_common(b@, a@, n);
        }
        match (next_a, next_b) {
            (None, None) => {
                proof {
                    assert(a@ =~= a@.take(n));
                    assert(b@ =~= b@.take(n));
                    lemma_lex_irreflexive(a@);
                }
                return Rank::Same;
            },
            (None, Some(_)) => {
                proof {
                    lemma_lex_asymmetric(a@, b@);
                }
                return Rank::Before;
            },
            (Some(_), None) => {
                proof {
                    lemma_lex_asymmetric(b@, a@);
                }
                return Rank::After;
            },
            (Some(ca), Some(cb)) => {
                if ca != cb {
                    if ca < cb {
                        proof {
                            lemma_lex_asymmetric(a@, b@);
                        }
                        return Rank::Before;
                    } else {
                        proof {
                            lemma_lex_asymmetric(b@, a@);
                        }
                        return Rank::After;
                    }
                }
                proof {
                    assert(a@.take(n + 1) =~= a@.take(n).push(ca));
                    assert(b@.take(n + 1) =~= b@.take(n).push(cb));
                    assert(a@.skip(n).drop_first() =~= a@.skip(n + 1));
                    assert(b@.skip(n).drop_first() =~= b@.skip(n + 1));
                    n = n + 1;
                }
            },
        }
    }
}

} // verus!
