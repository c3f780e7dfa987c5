//! The canonical parameter set: request parameters held in ascending
//! lexicographic order of their names.
//!
//! The order is part of the contract. The signature of a request is computed
//! over the parameters in exactly the order in which this set holds them.

use vstd::prelude::*;
use crate::lexical::{
    lemma_lex_asymmetric, lemma_lex_irreflexive, lemma_lex_transitive, lex_less, rank, Rank,
};

verus! {

/// Every entry's name precedes the names of all entries after it.
pub open spec fn strictly_ascending(entries: Seq<(Seq<char>, Seq<char>)>) -> bool {
    forall|i: int, j: int|
        #![trigger entries[i], entries[j]]
        0 <= i < j < entries.len() ==> lex_less(entries[i].0, entries[j].0)
}

/// Some entry carries `name`.
pub open spec fn has_name(entries: Seq<(Seq<char>, Seq<char>)>, name: Seq<char>) -> bool {
    exists|i: int| 0 <= i < entries.len() && (#[trigger] entries[i]).0 == name
}

/// The position of an entry that carries `name`.
pub open spec fn position_of(entries: Seq<(Seq<char>, Seq<char>)>, name: Seq<char>) -> int {
    choose|i: int| 0 <= i < entries.len() && (#[trigger] entries[i]).0 == name
}

/// The mapping from names to values that a sequence of entries stands for.
pub open spec fn entries_map(entries: Seq<(Seq<char>, Seq<char>)>) -> Map<Seq<char>, Seq<char>> {
    Map::new(
        |name: Seq<char>| has_name(entries, name),
        |name: Seq<char>| entries[position_of(entries, name)].1,
    )
}

/// How many entries stand before the place of `name`: the length of the
/// run of names at the front that precede it.
pub open spec fn insertion_point(entries: Seq<(Seq<char>, Seq<char>)>, name: Seq<char>) -> int
    decreases entries.len(),
{
    if entries.len() > 0 && lex_less(entries[0].0, name) {
        1 + insertion_point(entries.drop_first(), name)
    } else {
        0
    }
}

/// The entries after `name` has been given `value`: an entry of that name
/// takes the value where it stands, and a new entry goes to its place.
pub open spec fn with_entry(
    entries: Seq<(Seq<char>, Seq<char>)>,
    name: Seq<char>,
    value: Seq<char>,
) -> Seq<(Seq<char>, Seq<char>)> {
    let at = insertion_point(entries, name);
    if has_name(entries, name) {
        entries.update(at, (name, value))
    } else {
        entries.insert(at, (name, value))
    }
}

/// The insertion point is the one position with only preceding names
/// before it and none at it.
pub proof fn lemma_insertion_point(entries: Seq<(Seq<char>, Seq<char>)>, name: Seq<char>, at: int)
    requires
        0 <= at <= entries.len(),
        forall|i: int| 0 <= i < at ==> lex_less((#[trigger] entries[i]).0, name),
        at < entries.len() ==> !lex_less(entries[at].0, name),
    ensures
        insertion_point(entries, name) == at,
    decreases entries.len(),
{
    if at > 0 {
        let rest = entries.drop_first();
        assert(lex_less(entries[0].0, name));
        assert forall|i: int| 0 <= i < at - 1 implies lex_less((#[trigger] rest[i]).0, name) by {
            assert(rest[i] == entries[i + 1]);
        }
        if at - 1 < rest.len() {
            assert(rest[at - 1] == entries[at]);
        }
        lemma_insertion_point(rest, name, at - 1);
    }
}

/// In an ascending sequence no two entries share a name.
pub proof fn lemma_names_distinct(entries: Seq<(Seq<char>, Seq<char>)>, i: int, j: int)
    requires
        strictly_ascending(entries),
        0 <= i < entries.len(),
        0 <= j < entries.len(),
        entries[i].0 == entries[j].0,
    ensures
        i == j,
{
    lemma_lex_irreflexive(entries[i].0);
    if i < j {
        assert(lex_less(entries[i].0, entries[j].0));
    } else if j < i {
        assert(lex_less(entries[j].0, entries[i].0));
    }
}

/// In an ascending sequence each entry is what the mapping holds under its name.
pub proof fn lemma_entry_in_map(entries: Seq<(Seq<char>, Seq<char>)>, i: int)
    requires
        strictly_ascending(entries),
        0 <= i < entries.len(),
    ensures
        entries_map(entries).contains_key(entries[i].0),
        entries_map(entries)[entries[i].0] == entries[i].1,
{
    let name = entries[i].0;
    assert(has_name(entries, name));
    lemma_names_distinct(entries, i, position_of(entries, name));
}

/// Two ascending sequences that stand for the same mapping are the same
/// sequence: the canonical form of a mapping is unique.
pub proof fn lemma_canonical_form_unique(
    a: Seq<(Seq<char>, Seq<char>)>,
    b: Seq<(Seq<char>, Seq<char>)>,
)
    requires
        strictly_ascending(a),
        strictly_ascending(b),
        entries_map(a) == entries_map(b),
    ensures
        a == b,
    decreases a.len(),
{
    if a.len() == 0 {
        if b.len() > 0 {
            lemma_entry_in_map(b, 0);
            assert(has_name(a, b[0].0));
        }
        assert(a =~= b);
    } else if b.len() == 0 {
        lemma_entry_in_map(a, 0);
        assert(has_name(b, a[0].0));
    } else {
        // The first entries agree: each first name occurs in the other
        // sequence, and neither can stand after the other's first.
        lemma_entry_in_map(a, 0);
        lemma_entry_in_map(b, 0);
        assert(has_name(b, a[0].0));
        assert(has_name(a, b[0].0));
        let ib = position_of(b, a[0].0);
        let ia = position_of(a, b[0].0);
        if ib > 0 {
            assert(lex_less(b[0].0, b[ib].0));
            if ia > 0 {
                assert(lex_less(a[0].0, a[ia].0));
                lemma_lex_asymmetric(a[0].0, b[0].0);
            } else {
                lemma_lex_irreflexive(a[0].0);
            }
        }
        assert(a[0].0 == b[0].0);
        assert(a[0] == b[0]);
        let ta = a.drop_first();
        let tb = b.drop_first();
        lemma_tail_map(a);
        lemma_tail_map(b);
        lemma_canonical_form_unique(ta, tb);
        assert(a =~= seq![a[0]] + ta);
        assert(b =~= seq![b[0]] + tb);
    }
}

/// Dropping the first entry of an ascending sequence leaves an ascending
/// sequence, removes the entry's name from the mapping and changes nothing
/// else.
pub proof fn lemma_tail_map(entries: Seq<(Seq<char>, Seq<char>)>)
    requires
        strictly_ascending(entries),
        entries.len() > 0,
    ensures
        strictly_ascending(entries.drop_first()),
        entries_map(entries.drop_first()) == entries_map(entries).remove(entries[0].0),
{
    let tail = entries.drop_first();
    assert(strictly_ascending(tail)) by {
        assert forall|i: int, j: int| 0 <= i < j < tail.len() implies lex_less(
            (#[trigger] tail[i]).0,
            (#[trigger] tail[j]).0,
        ) by {
            assert(tail[i] == entries[i + 1] && tail[j] == entries[j + 1]);
        }
    }
    let left = entries_map(tail);
    let right = entries_map(entries).remove(entries[0].0);
    assert forall|name: Seq<char>| #[trigger] left.contains_key(name) implies right.contains_key(
        name,
    ) && left[name] == right[name] by {
        let k = position_of(tail, name);
        assert(tail[k] == entries[k + 1]);
        lemma_entry_in_map(tail, k);
        lemma_entry_in_map(entries, k + 1);
        assert(lex_less(entries[0].0, entries[k + 1].0));
        lemma_lex_asymmetric(entries[0].0, entries[k + 1].0);
    }
    assert forall|name: Seq<char>| #[trigger] right.contains_key(name) implies left.contains_key(
        name,
    ) by {
        let k = position_of(entries, name);
        assert(k > 0);
        assert(tail[k - 1] == entries[k]);
    }
    assert(left.dom() =~= right.dom());
    assert(left =~= right);
}

/// Placing a new entry between the names before it and the names after it
/// keeps the sequence ascending and adds the entry to the mapping.
proof fn lemma_insert_at(
    entries: Seq<(Seq<char>, Seq<char>)>,
    at: int,
    name: Seq<char>,
    value: Seq<char>,
)
    requires
        strictly_ascending(entries),
        0 <= at <= entries.len(),
        forall|i: int| 0 <= i < at ==> lex_less((#[trigger] entries[i]).0, name),
        at < entries.len() ==> lex_less(name, entries[at].0),
    ensures
        strictly_ascending(entries.insert(at, (name, value))),
        entries_map(entries.insert(at, (name, value))) == entries_map(entries).insert(name, value),
{
    let grown = entries.insert(at, (name, value));
    assert forall|j: int| at <= j < entries.len() implies lex_less(
        name,
        (#[trigger] entries[j]).0,
    ) by {
        if at < j {
            assert(lex_less(entries[at].0, entries[j].0));
            lemma_lex_transitive(name, entries[at].0, entries[j].0);
        }
    }
    assert forall|i: int, j: int| 0 <= i < j < grown.len() implies lex_less(
        (#[trigger] grown[i]).0,
        (#[trigger] grown[j]).0,
    ) by {
        let before_i = if i < at { i } else { i - 1 };
        let before_j = if j < at { j } else { j - 1 };
        if i != at && j != at {
            assert(grown[i] == entries[before_i]);
            assert(grown[j] == entries[before_j]);
        } else if i == at {
            assert(grown[j] == entries[before_j]);
        } else {
            assert(grown[i] == entries[before_i]);
        }
    }
    let left = entries_map(grown);
    let right = entries_map(entries).insert(name, value);
    assert forall|key: Seq<char>| #[trigger] left.contains_key(key) implies right.contains_key(key)
        && left[key] == right[key] by {
        let k = position_of(grown, key);
        lemma_entry_in_map(grown, k);
        if k < at {
            assert(grown[k] == entries[k]);
            lemma_entry_in_map(entries, k);
            lemma_lex_asymmetric(entries[k].0, name);
        } else if k > at {
            assert(grown[k] == entries[k - 1]);
            lemma_entry_in_map(entries, k - 1);
            lemma_lex_asymmetric(name, entries[k - 1].0);
        }
    }
    assert forall|key: Seq<char>| #[trigger] right.contains_key(key) implies left.contains_key(
        key,
    ) by {
        if key == name {
            assert(grown[at].0 == key);
        } else {
            let k = position_of(entries, key);
            if k < at {
                assert(grown[k] == entries[k]);
            } else {
                assert(grown[k + 1] == entries[k]);
            }
        }
    }
    assert(left.dom() =~= right.dom());
    assert(left =~= right);
}

/// Replacing the value of an entry keeps the sequence ascending and
/// overwrites the value that the mapping holds under the entry's name.
proof fn lemma_replace_at(entries: Seq<(Seq<char>, Seq<char>)>, at: int, value: Seq<char>)
    requires
        strictly_ascending(entries),
        0 <= at < entries.len(),
    ensures
        strictly_ascending(entries.update(at, (entries[at].0, value))),
        entries_map(entries.update(at, (entries[at].0, value))) == entries_map(entries).insert(
            entries[at].0,
            value,
        ),
{
    let name = entries[at].0;
    let changed = entries.update(at, (name, value));
    assert forall|i: int, j: int| 0 <= i < j < changed.len() implies lex_less(
        (#[trigger] changed[i]).0,
        (#[trigger] changed[j]).0,
    ) by {
        assert(changed[i].0 == entries[i].0);
        assert(changed[j].0 == entries[j].0);
    }
    let left = entries_map(changed);
    let right = entries_map(entries).insert(name, value);
    assert forall|key: Seq<char>| #[trigger] left.contains_key(key) implies right.contains_key(key)
        && left[key] == right[key] by {
        let k = position_of(changed, key);
        lemma_entry_in_map(changed, k);
        if k != at {
            assert(changed[k] == entries[k]);
            lemma_entry_in_map(entries, k);
            if key == name {
                lemma_names_distinct(entries, k, at);
            }
        }
    }
    assert forall|key: Seq<char>| #[trigger] right.contains_key(key) implies left.contains_key(
        key,
    ) by {
        if key == name {
            assert(changed[at].0 == key);
        } else {
            let k = position_of(entries, key);
            assert(changed[k].0 == entries[k].0);
        }
    }
    assert(left.dom() =~= right.dom());
    assert(left =~= right);
}

/// The texts of a vector of owned entries.
pub open spec fn entries_view(entries: Seq<(String, String)>) -> Seq<(Seq<char>, Seq<char>)> {
    Seq::new(entries.len(), |i: int| (entries[i].0@, entries[i].1@))
}

/// Request parameters by name, each name at most once, in ascending
/// lexicographic order of the names.
#[derive(Debug)]
pub struct CanonicalParameterSet {
    entries: Vec<(String, String)>,
}

impl View for CanonicalParameterSet {
    type V = Seq<(Seq<char>, Seq<char>)>;

    /// The entries in the order in which the set holds them.
    closed spec fn view(&self) -> Seq<(Seq<char>, Seq<char>)> {
        entries_view(self.entries@)
    }
}

impl CanonicalParameterSet {
    #[verifier::type_invariant]
    spec fn ordered(&self) -> bool {
        strictly_ascending(entries_view(self.entries@))
    }

    /// The mapping from names to values that the set stands for.
    pub open spec fn as_map(&self) -> Map<Seq<char>, Seq<char>> {
        entries_map(self@)
    }

    /// The set without any parameter.
    pub fn new() -> (set: Self)
        ensures
            set@ == Seq::<(Seq<char>, Seq<char>)>::empty(),
            set.as_map() == Map::<Seq<char>, Seq<char>>::empty(),
            strictly_ascending(set@),
    {
        let set = CanonicalParameterSet { entries: Vec::new() };
        assert(set@ =~= Seq::<(Seq<char>, Seq<char>)>::empty());
        assert(set.as_map() =~= Map::<Seq<char>, Seq<char>>::empty());
        set
    }

    /// How many parameters the set holds.
    pub fn len(&self) -> (n: usize)
        ensures
            n == self@.len(),
    {
        self.entries.len()
    }

    /// The name and the value at position `i` of the canonical order, if
    /// the set holds that many parameters.
    pub fn entry_at(&self, i: usize) -> (entry: Option<(&str, &str)>)
        ensures
            entry is Some <==> i < self@.len(),
            entry matches Some((name, value)) ==> name@ == self@[i as int].0 && value@
                == self@[i as int].1,
    {
        if i < self.entries.len() {
            Some((self.entries[i].0.as_str(), self.entries[i].1.as_str()))
        } else {
            None
        }
    }

    /// The value held under `name`, if the set holds one.
    pub fn get(&self, name: &str) -> (found: Option<&str>)
        ensures
            found is Some <==> self.as_map().contains_key(name@),
            found matches Some(value) ==> value@ == self.as_map()[name@],
    {
        proof {
            use_type_invariant(self);
        }
        let mut at: usize = 0;
        while at < self.entries.len()
            invariant
                at <= self.entries.len(),
                strictly_ascending(self@),
                self@.len() == self.entries.len(),
                forall|i: int| 0 <= i < at ==> (#[trigger] self@[i]).0 != name@,
            decreases self.entries.len() - at,
        {
            assert(self@[at as int].0 == self.entries[at as int].0@);
            assert(self@[at as int].1 == self.entries[at as int].1@);
            if rank(self.entries[at].0.as_str(), name) == Rank::Same {
                proof {
                    lemma_entry_in_map(self@, at as int);
                }
                return Some(self.entries[at].1.as_str());
            }
            at += 1;
        }
        None
    }

    /// Sets the value held under `name`, keeping the canonical order: a name
    /// that the set lacks is placed where the order puts it, and a name that
    /// it holds keeps its place and takes the new value.
    pub fn insert(&mut self, name: &str, value: String)
        ensures
            final(self)@ == with_entry(old(self)@, name@, value@),
            strictly_ascending(final(self)@),
            final(self).as_map() == old(self).as_map().insert(name@, value@),
    {
        proof {
            use_type_invariant(&*self);
        }
        let mut entries: Vec<(String, String)> = Vec::new();
        std::mem::swap(&mut entries, &mut self.entries);
        let ghost before = entries_view(entries@);
        let mut at: usize = 0;
        let mut found = false;
        while at < entries.len()
            invariant_except_break
                !found,
            invariant
                at <= entries.len(),
                before == entries_view(entries@),
                strictly_ascending(before),
                forall|i: int| 0 <= i < at ==> lex_less((#[trigger] before[i]).0, name@),
            ensures
                found ==> at < entries.len() && before[at as int].0 == name@,
                !found && at < entries.len() ==> lex_less(name@, before[at as int].0),
            decreases entries.len() - at,
        {
            assert(before[at as int].0 == entries[at as int].0@);
            match rank(entries[at].0.as_str(), name) {
                Rank::Before => {
                    at += 1;
                },
                Rank::Same => {
                    found = true;
                    break ;
                },
                Rank::After => {
                    break ;
                },
            }
        }
        if found {
            proof {
                lemma_replace_at(before, at as int, value@);
                lemma_lex_irreflexive(name@);
                lemma_insertion_point(before, name@, at as int);
                assert(has_name(before, name@));
            }
            entries.set(at, (name.to_owned(), value));
            assert(entries_view(entries@) =~= before.update(at as int, (name@, value@)));
        } else {
            proof {
                lemma_insert_at(before, at as int, name@, value@);
                if at < entries.len() {
                    lemma_lex_asymmetric(name@, before[at as int].0);
                }
                lemma_insertion_point(before, name@, at as int);
                assert(!has_name(before, name@)) by {
                    if has_name(before, name@) {
                        let k = position_of(before, name@);
                        lemma_lex_irreflexive(name@);
                        if k > at {
                            assert(lex_less(before[at as int].0, before[k].0));
                            lemma_lex_asymmetric(name@, before[at as int].0);
                        }
                    }
                }
            }
            entries.insert(at, (name.to_owned(), value));
            assert(entries_view(entries@) =~= before.insert(at as int, (name@, value@)));
        }
        self.entries = entries;
    }

    /// The parameters in their canonical order.
    pub fn into_entries(self) -> (entries: Vec<(String, String)>)
        ensures
            entries_view(entries@) == self@,
            strictly_ascending(self@),
    {
        proof {
            use_type_invariant(&self);
        }
        self.entries
    }
}

} // verus!
