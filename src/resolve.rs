use vstd::prelude::*;

use crate::dependency::{Crate, DependencyView};

verus! {

/// `latest` is a successful lookup whose version differs from the declared one.
pub open spec fn is_update(c: Crate, latest: Option<String>) -> bool {
    latest matches Some(v) && v@ != c.version@
}

/// The record that queues `c` for an update to version `v`.
pub open spec fn updated(c: Crate, v: Seq<char>) -> DependencyView {
    DependencyView { name: c.name@, version: v, features: c.features@ }
}

/// The update set of a batch of lookups: for each dependency whose lookup
/// succeeded with a version other than the declared one, in order, the record
/// with the resolved version and the declared features.
pub open spec fn update_set(results: Seq<(Crate, Option<String>)>) -> Seq<DependencyView>
    decreases results.len(),
{
    if results.len() == 0 {
        Seq::empty()
    } else {
        let rest = update_set(results.drop_last());
        let (c, latest) = results.last();
        if is_update(c, latest) {
            rest.push(updated(c, latest->Some_0@))
        } else {
            rest
        }
    }
}

/// No two dependencies of the batch share a name.
pub open spec fn names_unique(results: Seq<(Crate, Option<String>)>) -> bool {
    forall|i: int, j: int|
        0 <= i < results.len() && 0 <= j < results.len() && i != j ==> (#[trigger] results[i]).0.name@
            != (#[trigger] results[j]).0.name@
}

/// The update that one lookup calls for: `c` with the resolved version and
/// its own features, where the lookup succeeded with a version other than the
/// declared one; `None` otherwise.
pub fn resolved_update(c: &Crate, latest: &Option<String>) -> (r: Option<Crate>)
    ensures
        match r {
            Some(u) => is_update(*c, *latest) && u@ == updated(*c, latest->Some_0@),
            None => !is_update(*c, *latest),
        },
{
    match latest {
        Some(v) => {
            if *v == c.version {
                None
            } else {
                Some(Crate { name: c.name.clone(), version: v.clone(), features: c.features.clone() })
            }
        },
        None => None,
    }
}

/// Collects the update set of a batch: each dependency paired with the
/// outcome of its registry lookup (`None` where the lookup failed).
pub fn select_updates(results: &Vec<(Crate, Option<String>)>) -> (r: Vec<Crate>)
    ensures
        r@.map_values(|c: Crate| c@) == update_set(results@),
{
    let mut out: Vec<Crate> = Vec::new();
    let mut i: usize = 0;
    while i < results.len()
        invariant
            i <= results@.len(),
            out@.map_values(|c: Crate| c@) == update_set(results@.take(i as int)),
        decreases results@.len() - i,
    {
        let entry = &results[i];
        assert(results@.take(i + 1).drop_last() =~= results@.take(i as int));
        let ghost before = out@;
        match resolved_update(&entry.0, &entry.1) {
            Some(u) => {
                out.push(u);
                assert(out@.map_values(|c: Crate| c@) =~= before.map_values(|c: Crate| c@).push(
                    u@,
                ));
            },
            None => {},
        }
        i = i + 1;
    }
    assert(results@.take(results@.len() as int) =~= results@);
    out
}

/// Each record of the update set comes from a lookup that called for an
/// update: the index of that lookup.
pub proof fn lemma_update_source(s: Seq<(Crate, Option<String>)>, k: int) -> (i: int)
    requires
        0 <= k < update_set(s).len(),
    ensures
        0 <= i < s.len(),
        is_update(s[i].0, s[i].1),
        update_set(s)[k] == updated(s[i].0, s[i].1->Some_0@),
    decreases s.len(),
{
    let t = s.drop_last();
    let rest = update_set(t);
    if k < rest.len() {
        let i = lemma_update_source(t, k);
        assert(s[i] == t[i]);
        i
    } else {
        s.len() - 1
    }
}

/// Each lookup that calls for an update has its record in the update set:
/// the index of that record.
pub proof fn lemma_update_target(s: Seq<(Crate, Option<String>)>, i: int) -> (k: int)
    requires
        0 <= i < s.len(),
        is_update(s[i].0, s[i].1),
    ensures
        0 <= k < update_set(s).len(),
        update_set(s)[k] == updated(s[i].0, s[i].1->Some_0@),
    decreases s.len(),
{
    let t = s.drop_last();
    if i < s.len() - 1 {
        assert(t[i] == s[i]);
        lemma_update_target(t, i)
    } else {
        update_set(t).len() as int
    }
}

/// Where the batch's names are unique, so are the names in its update set.
pub proof fn lemma_update_names_unique(s: Seq<(Crate, Option<String>)>, k1: int, k2: int)
    requires
        names_unique(s),
        0 <= k1 < update_set(s).len(),
        0 <= k2 < update_set(s).len(),
        k1 != k2,
    ensures
        update_set(s)[k1].name != update_set(s)[k2].name,
    decreases s.len(),
{
    let t = s.drop_last();
    let rest = update_set(t);
    let n = s.len() - 1;
    assert(names_unique(t)) by {
        assert forall|i: int, j: int|
            0 <= i < t.len() && 0 <= j < t.len() && i != j implies (#[trigger] t[i]).0.name@
            != (#[trigger] t[j]).0.name@ by {
            assert(t[i] == s[i] && t[j] == s[j]);
        }
    }
    if k1 < rest.len() && k2 < rest.len() {
        lemma_update_names_unique(t, k1, k2);
    } else {
        let k = if k1 < rest.len() { k1 } else { k2 };
        let i = lemma_update_source(t, k);
        assert(t[i] == s[i]);
        assert(s[n] == s.last());
        assert(s[i].0.name@ != s[n].0.name@);
    }
}

/// A dependency whose lookup resolved to exactly its declared version is not
/// in the update set.
pub proof fn lemma_unchanged_excluded(results: Seq<(Crate, Option<String>)>, i: int)
    requires
        names_unique(results),
        0 <= i < results.len(),
        results[i].1 matches Some(v) && v@ == results[i].0.version@,
    ensures
        forall|k: int|
            0 <= k < update_set(results).len() ==> (#[trigger] update_set(results)[k]).name
                != results[i].0.name@,
{
    assert forall|k: int| 0 <= k < update_set(results).len() implies (
    #[trigger] update_set(results)[k]).name != results[i].0.name@ by {
        let j = lemma_update_source(results, k);
        assert(j != i);
    }
}

/// A dependency whose lookup resolved to another version is in the update
/// set exactly once, with the resolved version and its declared features.
pub proof fn lemma_changed_included_once(results: Seq<(Crate, Option<String>)>, i: int)
    requires
        names_unique(results),
        0 <= i < results.len(),
        results[i].1 matches Some(v) && v@ != results[i].0.version@,
    ensures
        exists|k: int|
            0 <= k < update_set(results).len() && #[trigger] update_set(results)[k] == updated(
                results[i].0,
                results[i].1->Some_0@,
            ),
        forall|k1: int, k2: int|
            0 <= k1 < update_set(results).len() && 0 <= k2 < update_set(results).len()
                && update_set(results)[k1].name == results[i].0.name@ && update_set(results)[k2].name
                == results[i].0.name@ ==> k1 == k2,
{
    let k = lemma_update_target(results, i);
    assert(update_set(results)[k] == updated(results[i].0, results[i].1->Some_0@));
    assert forall|k1: int, k2: int|
        0 <= k1 < update_set(results).len() && 0 <= k2 < update_set(results).len()
            && update_set(results)[k1].name == results[i].0.name@ && update_set(results)[k2].name
            == results[i].0.name@ implies k1 == k2 by {
        if k1 != k2 {
            lemma_update_names_unique(results, k1, k2);
        }
    }
}

/// A failed lookup contributes nothing: the update set of the batch is that
/// of the batch without the failed dependency, so every other dependency is
/// included or left out exactly as it would be on its own.
pub proof fn lemma_failed_lookup_isolated(results: Seq<(Crate, Option<String>)>, x: int)
    requires
        0 <= x < results.len(),
        results[x].1 is None,
    ensures
        update_set(results) == update_set(results.remove(x)),
    decreases results.len(),
{
    let n = results.len() - 1;
    if x == n {
        assert(results.remove(x) =~= results.drop_last());
    } else {
        let t = results.drop_last();
        lemma_failed_lookup_isolated(t, x);
        let r = results.remove(x);
        assert(r.drop_last() =~= t.remove(x));
        assert(r.last() == results.last());
    }
}

} // verus!
