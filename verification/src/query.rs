//! The query that is sent: defaults and overrides merged under one rule.

use crate::params::ParameterSet;
use vstd::prelude::*;
use vstd::string::StringExecFns;

verus! {

/// The name of the field that tells the service which client library asks.
pub open spec fn marker_name() -> Seq<char> {
    "source"@
}

/// The value of that field.
pub open spec fn marker_value() -> Seq<char> {
    "rust"@
}

/// The query sent for a call: the marker field, overlaid with the client's
/// defaults, overlaid with the call's overrides. Where a name is bound more
/// than once, the binding laid on last stands.
pub open spec fn merged_query(
    defaults: Map<Seq<char>, Seq<char>>,
    overrides: Map<Seq<char>, Seq<char>>,
) -> Map<Seq<char>, Seq<char>> {
    Map::<Seq<char>, Seq<char>>::empty().insert(marker_name(), marker_value()).union_prefer_right(
        defaults,
    ).union_prefer_right(overrides)
}

/// Override precedence. A name that the overrides bind is bound in the merged
/// query to the override's value, whether or not the defaults bind it too. A
/// name that only the defaults bind keeps the default's value.
pub proof fn lemma_override_precedence(
    defaults: Map<Seq<char>, Seq<char>>,
    overrides: Map<Seq<char>, Seq<char>>,
    name: Seq<char>,
)
    ensures
        overrides.contains_key(name) ==> merged_query(defaults, overrides).contains_key(name)
            && merged_query(defaults, overrides)[name] == overrides[name],
        defaults.contains_key(name) && !overrides.contains_key(name) ==> merged_query(
            defaults,
            overrides,
        ).contains_key(name) && merged_query(defaults, overrides)[name] == defaults[name],
{
}

/// The merged query binds nothing but the marker's name and the names that
/// the defaults or the overrides bind.
pub proof fn lemma_merged_names(
    defaults: Map<Seq<char>, Seq<char>>,
    overrides: Map<Seq<char>, Seq<char>>,
    name: Seq<char>,
)
    ensures
        merged_query(defaults, overrides).contains_key(name) <==> name == marker_name()
            || defaults.contains_key(name) || overrides.contains_key(name),
{
}

/// The marker field is always present. Neither the defaults nor the overrides
/// can remove it; it holds the marker's value unless one of them binds its
/// name, and then the override stands before the default.
pub proof fn lemma_marker_present(
    defaults: Map<Seq<char>, Seq<char>>,
    overrides: Map<Seq<char>, Seq<char>>,
)
    ensures
        merged_query(defaults, overrides).contains_key(marker_name()),
        merged_query(defaults, overrides)[marker_name()] == (if overrides.contains_key(
            marker_name(),
        ) {
            overrides[marker_name()]
        } else if defaults.contains_key(marker_name()) {
            defaults[marker_name()]
        } else {
            marker_value()
        }),
{
}

/// Merging is a function of the defaults and the overrides alone: two merges
/// of the same sets give equal queries.
pub proof fn lemma_merge_repeatable(
    defaults: Map<Seq<char>, Seq<char>>,
    overrides: Map<Seq<char>, Seq<char>>,
    first: Map<Seq<char>, Seq<char>>,
    second: Map<Seq<char>, Seq<char>>,
)
    requires
        first == merged_query(defaults, overrides),
        second == merged_query(defaults, overrides),
    ensures
        first == second,
{
}

/// Merging the same overrides over an already merged query changes nothing.
pub proof fn lemma_merge_idempotent(
    defaults: Map<Seq<char>, Seq<char>>,
    overrides: Map<Seq<char>, Seq<char>>,
)
    ensures
        merged_query(merged_query(defaults, overrides), overrides) == merged_query(
            defaults,
            overrides,
        ),
{
    assert(merged_query(merged_query(defaults, overrides), overrides) =~= merged_query(
        defaults,
        overrides,
    ));
}

/// Copies into `query` every binding of `from` whose name `unless` does not
/// bind.
fn overlay(query: &mut ParameterSet, from: &ParameterSet, unless: &ParameterSet)
    ensures
        final(query)@ == old(query)@.union_prefer_right(from@.remove_keys(unless@.dom())),
{
    let pairs = from.to_pairs();
    let ghost start = query@;
    let n: usize = pairs.len();
    let mut i: usize = 0;
    while i < n
        invariant
            n == pairs@.len(),
            i <= n,
            crate::params::distinct_names(pairs@),
            query@ == start.union_prefer_right(
                crate::params::bindings(pairs@.take(i as int)).remove_keys(unless@.dom()),
            ),
        decreases n - i,
    {
        proof {
            lemma_take_next(pairs@, i as int);
        }
        if !unless.contains_key(pairs[i].0.as_str()) {
            let name = pairs[i].0.clone();
            let value = pairs[i].1.clone();
            query.insert(name, value);
        }
        i += 1;
        assert(query@ =~= start.union_prefer_right(
            crate::params::bindings(pairs@.take(i as int)).remove_keys(unless@.dom()),
        ));
    }
    assert(pairs@.take(n as int) =~= pairs@);
}

/// Taking one more entry binds that entry's name to its value.
proof fn lemma_take_next(entries: Seq<(String, String)>, i: int)
    requires
        crate::params::distinct_names(entries),
        0 <= i < entries.len(),
    ensures
        crate::params::bindings(entries.take(i + 1)) == crate::params::bindings(
            entries.take(i),
        ).insert(entries[i].0@, entries[i].1@),
        !crate::params::bindings(entries.take(i)).contains_key(entries[i].0@),
{
    let shorter = entries.take(i);
    let longer = entries.take(i + 1);
    assert(crate::params::distinct_names(longer)) by {
        assert forall|a: int, b: int|
            0 <= a < longer.len() && 0 <= b < longer.len() && a != b implies (
        #[trigger] longer[a]).0@ != (#[trigger] longer[b]).0@ by {
            assert(entries[a].0@ != entries[b].0@);
        }
    }
    assert(crate::params::distinct_names(shorter)) by {
        assert forall|a: int, b: int|
            0 <= a < shorter.len() && 0 <= b < shorter.len() && a != b implies (
        #[trigger] shorter[a]).0@ != (#[trigger] shorter[b]).0@ by {
            assert(entries[a].0@ != entries[b].0@);
        }
    }
    if crate::params::names(shorter, entries[i].0@) {
        let j = choose|j: int| 0 <= j < shorter.len() && (#[trigger] shorter[j]).0@ == entries[i].0@;
        assert(entries[j].0@ == entries[i].0@);
    }
    let target = crate::params::bindings(shorter).insert(entries[i].0@, entries[i].1@);
    assert forall|k: Seq<char>|
        crate::params::bindings(longer).contains_key(k) <==> target.contains_key(k) by {
        if crate::params::names(longer, k) {
            let j = choose|j: int| 0 <= j < longer.len() && (#[trigger] longer[j]).0@ == k;
            if j < i {
                assert(shorter[j].0@ == k);
            }
        }
        if crate::params::names(shorter, k) {
            let j = choose|j: int| 0 <= j < shorter.len() && (#[trigger] shorter[j]).0@ == k;
            assert(longer[j].0@ == k);
        }
        if k == entries[i].0@ {
            assert(longer[i].0@ == k);
        }
    }
    assert forall|k: Seq<char>| crate::params::bindings(longer).contains_key(k) implies
        crate::params::bindings(longer)[k] == target[k] by {
        let j = choose|j: int| 0 <= j < longer.len() && (#[trigger] longer[j]).0@ == k;
        crate::params::lemma_bindings_of_entry(longer, j);
        if j < i {
            assert(shorter[j] == longer[j]);
            crate::params::lemma_bindings_of_entry(shorter, j);
        }
    }
    assert(crate::params::bindings(longer) =~= target);
}

/// Merges the call's `overrides` over the client's `defaults`.
///
/// The query starts from the marker field. Every default whose name the
/// overrides do not bind is added, then every override: an override stands
/// against a default of the same name, and either stands against the marker.
pub fn merge(defaults: &ParameterSet, overrides: &ParameterSet) -> (query: ParameterSet)
    ensures
        query@ == merged_query(defaults@, overrides@),
{
    let mut query = ParameterSet::new();
    query.insert(String::from_str("source"), String::from_str("rust"));
    overlay(&mut query, defaults, overrides);
    let nothing = ParameterSet::new();
    overlay(&mut query, overrides, &nothing);
    assert(query@ =~= merged_query(defaults@, overrides@));
    query
}

} // verus!
