//! Version management for node registries.

use vstd::prelude::*;

use crate::text::str_eq;

verus! {

/// A version set maps node IDs to their schema versions.
///
/// Aggregating crates use this to pin the API surface:
/// "in API v3, `zenfilters.exposure` uses schema v2".
#[derive(Clone, Debug, Default)]
pub struct VersionSet {
    versions: Vec<(&'static str, u32)>,
    /// The public-facing API version number that users see.
    pub api_version: u32,
}

/// Whether `s` holds an entry for `id`.
pub open spec fn has_id(s: Seq<(&'static str, u32)>, id: Seq<char>) -> bool {
    exists|i: int| 0 <= i < s.len() && (#[trigger] s[i]).0@ == id
}

/// The position of the first entry of `s` for `id`.
pub open spec fn first_id(s: Seq<(&'static str, u32)>, id: Seq<char>) -> int {
    choose|i: int|
        0 <= i < s.len() && (#[trigger] s[i]).0@ == id && forall|j: int|
            0 <= j < i ==> (#[trigger] s[j]).0@ != id
}

/// The version recorded for `id`: that of its first entry.
pub open spec fn lookup(s: Seq<(&'static str, u32)>, id: Seq<char>) -> Option<u32> {
    if has_id(s, id) {
        Some(s[first_id(s, id)].1)
    } else {
        None
    }
}

proof fn lemma_first_id(s: Seq<(&'static str, u32)>, id: Seq<char>, i: int)
    requires
        0 <= i < s.len(),
        s[i].0@ == id,
        forall|j: int| 0 <= j < i ==> (#[trigger] s[j]).0@ != id,
    ensures
        has_id(s, id),
        first_id(s, id) == i,
{
}

/// When `id` occurs in `s`, `first_id` names its first occurrence.
proof fn lemma_first_id_exists(s: Seq<(&'static str, u32)>, id: Seq<char>, i: int)
    requires
        0 <= i < s.len(),
        s[i].0@ == id,
    ensures
        0 <= first_id(s, id) <= i,
        s[first_id(s, id)].0@ == id,
        forall|j: int| 0 <= j < first_id(s, id) ==> (#[trigger] s[j]).0@ != id,
    decreases i,
{
    if exists|j: int| 0 <= j < i && (#[trigger] s[j]).0@ == id {
        let j = choose|j: int| 0 <= j < i && (#[trigger] s[j]).0@ == id;
        lemma_first_id_exists(s, id, j);
    } else {
        lemma_first_id(s, id, i);
    }
}

/// Overwriting the first entry for `id` records `version` for `id` and
/// changes nothing for other IDs.
proof fn lemma_update_entry(
    pre: Seq<(&'static str, u32)>,
    i: int,
    id: &'static str,
    version: u32,
    k: Seq<char>,
)
    requires
        has_id(pre, id@),
        i == first_id(pre, id@),
    ensures
        ({
            let post = pre.update(i, (id, version));
            &&& has_id(post, k) == (has_id(pre, k) || k == id@)
            &&& lookup(post, k) == if k == id@ {
                Some(version)
            } else {
                lookup(pre, k)
            }
        }),
{
    let post = pre.update(i, (id, version));
    let wi = choose|w: int| 0 <= w < pre.len() && (#[trigger] pre[w]).0@ == id@;
    lemma_first_id_exists(pre, id@, wi);
    if k == id@ {
        lemma_first_id(post, k, i);
    } else if has_id(pre, k) {
        let wk = choose|w: int| 0 <= w < pre.len() && (#[trigger] pre[w]).0@ == k;
        lemma_first_id_exists(pre, k, wk);
        let w = first_id(pre, k);
        assert(w != i);
        assert(post[w] == pre[w]);
        lemma_first_id(post, k, w);
    } else {
        assert forall|j: int| 0 <= j < post.len() implies (#[trigger] post[j]).0@ != k by {
            if j != i {
                assert(post[j] == pre[j]);
            }
        }
    }
}

/// Appending an entry for a new `id` records `version` for it and changes
/// nothing for other IDs.
proof fn lemma_push_entry(pre: Seq<(&'static str, u32)>, id: &'static str, version: u32, k: Seq<char>)
    requires
        !has_id(pre, id@),
    ensures
        ({
            let post = pre.push((id, version));
            &&& has_id(post, k) == (has_id(pre, k) || k == id@)
            &&& lookup(post, k) == if k == id@ {
                Some(version)
            } else {
                lookup(pre, k)
            }
        }),
{
    let post = pre.push((id, version));
    if k == id@ {
        lemma_first_id(post, k, pre.len() as int);
    } else if has_id(pre, k) {
        let wk = choose|w: int| 0 <= w < pre.len() && (#[trigger] pre[w]).0@ == k;
        lemma_first_id_exists(pre, k, wk);
        let w = first_id(pre, k);
        assert(post[w] == pre[w]);
        lemma_first_id(post, k, w);
    } else {
        assert forall|j: int| 0 <= j < post.len() implies (#[trigger] post[j]).0@ != k by {
            if j < pre.len() {
                assert(post[j] == pre[j]);
            }
        }
    }
}

impl View for VersionSet {
    type V = Map<Seq<char>, u32>;

    /// Node ID to schema version.
    closed spec fn view(&self) -> Map<Seq<char>, u32> {
        Map::new(|id: Seq<char>| has_id(self.versions@, id), |id: Seq<char>| lookup(self.versions@, id)->0)
    }
}

impl VersionSet {
    /// The public-facing API version of this set (its `api_version` field).
    pub closed spec fn api(&self) -> u32 {
        self.api_version
    }

    /// The `api_version` field, for verified callers: the field itself can
    /// stand in no contract outside this module, the set's entries being
    /// private.
    pub fn api_version(&self) -> (r: u32)
        ensures
            r == self.api(),
    {
        self.api_version
    }

    /// Index of the first entry for `id`, if any.
    fn find(&self, id: &str) -> (r: Option<usize>)
        ensures
            match r {
                Some(i) => has_id(self.versions@, id@) && i == first_id(self.versions@, id@)
                    && i < self.versions@.len(),
                None => !has_id(self.versions@, id@),
            },
    {
        let mut i: usize = 0;
        while i < self.versions.len()
            invariant
                i <= self.versions@.len(),
                forall|j: int| 0 <= j < i ==> (#[trigger] self.versions@[j]).0@ != id@,
            decreases self.versions@.len() - i,
        {
            if str_eq(self.versions[i].0, id) {
                proof {
                    lemma_first_id(self.versions@, id@, i as int);
                }
                return Some(i);
            }
            i = i + 1;
        }
        None
    }

    /// Create a new version set for the given API version.
    pub fn new(api_version: u32) -> (r: Self)
        ensures
            r@ == Map::<Seq<char>, u32>::empty(),
            r.api() == api_version,
    {
        let r = VersionSet { versions: Vec::new(), api_version };
        proof {
            assert(r@ =~= Map::<Seq<char>, u32>::empty());
        }
        r
    }

    /// Set the schema version for a node ID.
    pub fn set(&mut self, id: &'static str, version: u32)
        ensures
            final(self)@ == old(self)@.insert(id@, version),
            final(self).api() == old(self).api(),
    {
        let ghost pre = self.versions@;
        match self.find(id) {
            Some(i) => {
                self.versions.set(i, (id, version));
                proof {
                    assert forall|k: Seq<char>| #[trigger] has_id(self.versions@, k) == (has_id(pre, k) || k == id@)
                        && lookup(self.versions@, k) == (if k == id@ {
                        Some(version)
                    } else {
                        lookup(pre, k)
                    }) by {
                        lemma_update_entry(pre, i as int, id, version, k);
                    }
                    assert(self@ =~= old(self)@.insert(id@, version));
                }
            },
            None => {
                self.versions.push((id, version));
                proof {
                    assert forall|k: Seq<char>| #[trigger] has_id(self.versions@, k) == (has_id(pre, k) || k == id@)
                        && lookup(self.versions@, k) == (if k == id@ {
                        Some(version)
                    } else {
                        lookup(pre, k)
                    }) by {
                        lemma_push_entry(pre, id, version, k);
                    }
                    assert(self@ =~= old(self)@.insert(id@, version));
                }
            },
        }
    }

    /// Get the schema version for a node ID.
    pub fn get(&self, id: &str) -> (r: Option<u32>)
        ensures
            r == if self@.contains_key(id@) {
                Some(self@[id@])
            } else {
                None::<u32>
            },
    {
        match self.find(id) {
            Some(i) => Some(self.versions[i].1),
            None => None,
        }
    }
}

/// What a version set reads back after `set(id, version)`: `version` for
/// `id`, and for every other ID what it read before.
pub proof fn read_back_after_set(before: Map<Seq<char>, u32>, id: Seq<char>, version: u32, other: Seq<char>)
    ensures
        before.insert(id, version).contains_key(id),
        before.insert(id, version)[id] == version,
        other != id ==> before.insert(id, version).contains_key(other) == before.contains_key(other),
        other != id && before.contains_key(other) ==> before.insert(id, version)[other]
            == before[other],
{
}

} // verus!
