//! Parameter sets: finite maps from parameter names to values.

use crate::text::same_text;
use vstd::prelude::*;

verus! {

/// No two entries of `entries` carry the same name.
pub open spec fn distinct_names(entries: Seq<(String, String)>) -> bool {
    forall|i: int, j: int|
        0 <= i < entries.len() && 0 <= j < entries.len() && i != j
            ==> (#[trigger] entries[i]).0@ != (#[trigger] entries[j]).0@
}

/// Whether some entry of `entries` carries `name`.
pub open spec fn names(entries: Seq<(String, String)>, name: Seq<char>) -> bool {
    exists|i: int| 0 <= i < entries.len() && (#[trigger] entries[i]).0@ == name
}

/// The map that `entries` spell out: each name is bound to the value of an
/// entry that carries it.
pub open spec fn bindings(entries: Seq<(String, String)>) -> Map<Seq<char>, Seq<char>> {
    Map::new(
        |name: Seq<char>| names(entries, name),
        |name: Seq<char>|
            entries[choose|i: int| 0 <= i < entries.len() && (#[trigger] entries[i]).0@ == name].1@,
    )
}

/// With distinct names, every entry is a binding of the map.
pub proof fn lemma_bindings_of_entry(entries: Seq<(String, String)>, i: int)
    requires
        distinct_names(entries),
        0 <= i < entries.len(),
    ensures
        bindings(entries).contains_key(entries[i].0@),
        bindings(entries)[entries[i].0@] == entries[i].1@,
{
    let name = entries[i].0@;
    let j = choose|j: int| 0 <= j < entries.len() && (#[trigger] entries[j]).0@ == name;
    assert(j == i);
}

/// A set of request parameters: names are unique, and each is bound to one
/// value. Its view is the map from names to values.
#[derive(Debug)]
pub struct ParameterSet {
    entries: Vec<(String, String)>,
}

impl View for ParameterSet {
    type V = Map<Seq<char>, Seq<char>>;

    closed spec fn view(&self) -> Map<Seq<char>, Seq<char>> {
        bindings(self.entries@)
    }
}

impl ParameterSet {
    #[verifier::type_invariant]
    spec fn well_formed(&self) -> bool {
        distinct_names(self.entries@)
    }

    /// The empty parameter set.
    pub fn new() -> (set: ParameterSet)
        ensures
            set@ == Map::<Seq<char>, Seq<char>>::empty(),
    {
        let set = ParameterSet { entries: Vec::new() };
        assert(set@ =~= Map::<Seq<char>, Seq<char>>::empty());
        set
    }

    /// Where the entry that carries `name` stands, if there is one.
    fn position(&self, name: &str) -> (found: Option<usize>)
        ensures
            match found {
                Some(i) => i < self.entries@.len() && self.entries@[i as int].0@ == name@,
                None => !names(self.entries@, name@),
            },
    {
        let n: usize = self.entries.len();
        let mut i: usize = 0;
        while i < n
            invariant
                n == self.entries@.len(),
                i <= n,
                forall|j: int| 0 <= j < i ==> (#[trigger] self.entries@[j]).0@ != name@,
            decreases n - i,
        {
            if same_text(self.entries[i].0.as_str(), name) {
                return Some(i);
            }
            i += 1;
        }
        None
    }

    /// The number of parameters.
    pub fn len(&self) -> (n: usize)
        ensures
            n == self@.len(),
    {
        proof {
            use_type_invariant(self);
            lemma_bindings_len(self.entries@);
        }
        self.entries.len()
    }

    /// Whether the set holds no parameter.
    pub fn is_empty(&self) -> (empty: bool)
        ensures
            empty == (self@ == Map::<Seq<char>, Seq<char>>::empty()),
    {
        let empty = self.entries.len() == 0;
        proof {
            if empty {
                assert(self@ =~= Map::<Seq<char>, Seq<char>>::empty());
            } else {
                assert(names(self.entries@, self.entries@[0].0@));
                assert(self@.contains_key(self.entries@[0].0@));
            }
        }
        empty
    }

    /// Whether `name` is bound.
    pub fn contains_key(&self, name: &str) -> (bound: bool)
        ensures
            bound == self@.contains_key(name@),
    {
        self.position(name).is_some()
    }

    /// The value bound to `name`, if any.
    pub fn get(&self, name: &str) -> (value: Option<&String>)
        ensures
            match value {
                Some(v) => self@.contains_key(name@) && v@ == self@[name@],
                None => !self@.contains_key(name@),
            },
    {
        proof {
            use_type_invariant(self);
        }
        match self.position(name) {
            Some(i) => {
                proof {
                    lemma_bindings_of_entry(self.entries@, i as int);
                }
                Some(&self.entries[i].1)
            },
            None => None,
        }
    }

    /// Binds `name` to `value`, replacing what `name` was bound to before.
    pub fn insert(&mut self, name: String, value: String)
        ensures
            final(self)@ == old(self)@.insert(name@, value@),
    {
        proof {
            use_type_invariant(&*self);
        }
        let ghost before = self.entries@;
        let ghost bound_name = name@;
        let ghost bound_value = value@;
        let found = self.position(name.as_str());
        let mut taken = ParameterSet { entries: Vec::new() };
        core::mem::swap(self, &mut taken);
        let mut entries = taken.entries;
        match found {
            Some(i) => {
                entries.set(i, (name, value));
            },
            None => {
                entries.push((name, value));
            },
        }
        let ghost after = entries@;
        let ghost at: int = match found {
            Some(i) => i as int,
            None => before.len() as int,
        };
        proof {
            assert(after[at].0@ == bound_name && after[at].1@ == bound_value);
            assert(distinct_names(after));
        }
        *self = ParameterSet { entries };
        proof {
            assert forall|k: Seq<char>|
                bindings(after).contains_key(k) <==> bindings(before).insert(
                    bound_name,
                    bound_value,
                ).contains_key(k) by {
                if names(after, k) {
                    let j = choose|j: int| 0 <= j < after.len() && (#[trigger] after[j]).0@ == k;
                    if k != bound_name {
                        assert(before[j].0@ == k);
                    }
                }
                if names(before, k) {
                    let j = choose|j: int| 0 <= j < before.len() && (#[trigger] before[j]).0@ == k;
                    assert(after[j].0@ == k);
                }
                if k == bound_name {
                    assert(after[at].0@ == k);
                }
            }
            assert forall|k: Seq<char>| bindings(after).contains_key(k) implies bindings(after)[k]
                == bindings(before).insert(bound_name, bound_value)[k] by {
                let j = choose|j: int| 0 <= j < after.len() && (#[trigger] after[j]).0@ == k;
                lemma_bindings_of_entry(after, j);
                if k != bound_name {
                    assert(before[j] == after[j]);
                    lemma_bindings_of_entry(before, j);
                } else {
                    assert(at == j);
                }
            }
            assert(bindings(after) =~= bindings(before).insert(bound_name, bound_value));
        }
    }

    /// The parameters as pairs of name and value, each name once.
    pub fn to_pairs(&self) -> (pairs: Vec<(String, String)>)
        ensures
            distinct_names(pairs@),
            bindings(pairs@) == self@,
            pairs@.len() == self@.len(),
    {
        proof {
            use_type_invariant(self);
            lemma_bindings_len(self.entries@);
        }
        let n: usize = self.entries.len();
        let mut pairs: Vec<(String, String)> = Vec::new();
        let mut i: usize = 0;
        while i < n
            invariant
                n == self.entries@.len(),
                i <= n,
                pairs@.len() == i,
                forall|j: int|
                    0 <= j < i ==> (#[trigger] pairs@[j]).0@ == self.entries@[j].0@ && pairs@[j].1@
                        == self.entries@[j].1@,
            decreases n - i,
        {
            let name = self.entries[i].0.clone();
            let value = self.entries[i].1.clone();
            pairs.push((name, value));
            i += 1;
        }
        proof {
            lemma_bindings_agree(pairs@, self.entries@);
        }
        pairs
    }
}

/// Sequences of entries that agree name by name and value by value spell out
/// the same map.
pub proof fn lemma_bindings_agree(a: Seq<(String, String)>, b: Seq<(String, String)>)
    requires
        a.len() == b.len(),
        distinct_names(b),
        forall|j: int|
            0 <= j < a.len() ==> (#[trigger] a[j]).0@ == b[j].0@ && a[j].1@ == b[j].1@,
    ensures
        distinct_names(a),
        bindings(a) == bindings(b),
{
    assert forall|i: int, j: int| 0 <= i < a.len() && 0 <= j < a.len() && i != j implies (
    #[trigger] a[i]).0@ != (#[trigger] a[j]).0@ by {
        assert(b[i].0@ != b[j].0@);
    }
    assert forall|k: Seq<char>| names(a, k) <==> names(b, k) by {
        if names(a, k) {
            let j = choose|j: int| 0 <= j < a.len() && (#[trigger] a[j]).0@ == k;
            assert(b[j].0@ == k);
        }
        if names(b, k) {
            let j = choose|j: int| 0 <= j < b.len() && (#[trigger] b[j]).0@ == k;
            assert(a[j].0@ == k);
        }
    }
    assert forall|k: Seq<char>| bindings(a).contains_key(k) implies bindings(a)[k] == bindings(
        b,
    )[k] by {
        let j = choose|j: int| 0 <= j < a.len() && (#[trigger] a[j]).0@ == k;
        lemma_bindings_of_entry(a, j);
        assert(b[j].0@ == k);
        lemma_bindings_of_entry(b, j);
    }
    assert(bindings(a) =~= bindings(b));
}

/// With distinct names, the map has as many bindings as there are entries.
pub proof fn lemma_bindings_len(entries: Seq<(String, String)>)
    requires
        distinct_names(entries),
    ensures
        bindings(entries).dom().finite(),
        bindings(entries).len() == entries.len(),
    decreases entries.len(),
{
    if entries.len() == 0 {
        assert(bindings(entries) =~= Map::<Seq<char>, Seq<char>>::empty());
    } else {
        let front = entries.drop_last();
        let last = entries.last();
        assert forall|i: int, j: int|
            0 <= i < front.len() && 0 <= j < front.len() && i != j implies (#[trigger] front[i]).0@
            != (#[trigger] front[j]).0@ by {
            assert(entries[i].0@ != entries[j].0@);
        }
        lemma_bindings_len(front);
        assert(!names(front, last.0@)) by {
            if names(front, last.0@) {
                let j = choose|j: int| 0 <= j < front.len() && (#[trigger] front[j]).0@ == last.0@;
                assert(entries[j].0@ == entries[entries.len() - 1].0@);
            }
        }
        assert forall|k: Seq<char>|
            bindings(entries).dom().contains(k) <==> bindings(front).dom().insert(
                last.0@,
            ).contains(k) by {
            if names(entries, k) {
                let j = choose|j: int| 0 <= j < entries.len() && (#[trigger] entries[j]).0@ == k;
                if j < front.len() {
                    assert(front[j].0@ == k);
                }
            }
            if names(front, k) {
                let j = choose|j: int| 0 <= j < front.len() && (#[trigger] front[j]).0@ == k;
                assert(entries[j].0@ == k);
            }
            if k == last.0@ {
                assert(entries[entries.len() - 1].0@ == k);
            }
        }
        assert(bindings(entries).dom() =~= bindings(front).dom().insert(last.0@));
    }
}

} // verus!
