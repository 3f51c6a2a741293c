//! The artifact manifest model: one entry per independently versioned,
//! installable unit, and a manifest mapping artifact names to entries.
//!
//! A manifest is kept as a vector of key/value pairs whose keys are unique;
//! its mathematical view is the map from artifact name to entry.

use vstd::prelude::*;

verus! {

/// One manifest entry: where an artifact's archive lives, how to check it,
/// which version it is, where it is installed, and its optional service and
/// lockfile bindings.
#[derive(Debug)]
pub struct Artifact {
    /// The archive's name at the remote store and on local disk.
    pub filename: String,
    /// Lowercase hex digest of the compressed archive.
    pub sha512: String,
    /// Semantic-version string, optionally prefixed with `v`.
    pub version: String,
    /// Path where the decompressed payload is installed.
    pub destination: String,
    /// Supervisor unit to stop/start around install, if any.
    pub service: Option<String>,
    /// File used for mutual exclusion before updating, if any.
    pub lockfile: Option<String>,
}

impl Clone for Artifact {
    fn clone(&self) -> (r: Self)
        ensures
            r == *self,
    {
        Artifact {
            filename: self.filename.clone(),
            sha512: self.sha512.clone(),
            version: self.version.clone(),
            destination: self.destination.clone(),
            service: match &self.service {
                Some(s) => Some(s.clone()),
                None => None,
            },
            lockfile: match &self.lockfile {
                Some(s) => Some(s.clone()),
                None => None,
            },
        }
    }
}

/// True when no two pairs in `s` carry the same name.
pub open spec fn unique_keys(s: Seq<(String, Artifact)>) -> bool {
    forall|i: int, j: int| 0 <= i < j < s.len() ==> s[i].0@ != s[j].0@
}

/// True when some pair in `s` carries the name `k`.
pub open spec fn has_key(s: Seq<(String, Artifact)>, k: Seq<char>) -> bool {
    exists|i: int| 0 <= i < s.len() && s[i].0@ == k
}

/// The map described by a sequence of key/value pairs; later pairs win.
pub open spec fn kv_map(s: Seq<(String, Artifact)>) -> Map<Seq<char>, Artifact>
    decreases s.len(),
{
    if s.len() == 0 {
        Map::empty()
    } else {
        kv_map(s.drop_last()).insert(s.last().0@, s.last().1)
    }
}

/// The keys of `kv_map(s)` are exactly the names carried by pairs of `s`.
pub proof fn lemma_kv_map_dom(s: Seq<(String, Artifact)>)
    ensures
        forall|k: Seq<char>| #[trigger] kv_map(s).contains_key(k) <==> has_key(s, k),
    decreases s.len(),
{
    if s.len() > 0 {
        lemma_kv_map_dom(s.drop_last());
        assert forall|k: Seq<char>| #[trigger] kv_map(s).contains_key(k) implies has_key(s, k) by {
            if k == s.last().0@ {
                assert(s[s.len() - 1].0@ == k);
            } else {
                assert(kv_map(s.drop_last()).contains_key(k));
                assert(has_key(s.drop_last(), k));
                let i = choose|i: int| 0 <= i < s.drop_last().len() && s.drop_last()[i].0@ == k;
                assert(s.drop_last()[i] == s[i]);
                assert(s[i].0@ == k);
            }
        }
        assert forall|k: Seq<char>| has_key(s, k) implies #[trigger] kv_map(s).contains_key(k) by {
            let i = choose|i: int| 0 <= i < s.len() && s[i].0@ == k;
            if i < s.len() - 1 {
                assert(s.drop_last()[i].0@ == k);
                assert(has_key(s.drop_last(), k));
                assert(kv_map(s.drop_last()).contains_key(k));
            } else {
                assert(k == s.last().0@);
            }
        }
    }
}

/// With unique keys, the map sends each pair's name to that pair's entry.
pub proof fn lemma_kv_map_index(s: Seq<(String, Artifact)>, i: int)
    requires
        unique_keys(s),
        0 <= i < s.len(),
    ensures
        kv_map(s).contains_key(s[i].0@),
        kv_map(s)[s[i].0@] == s[i].1,
    decreases s.len(),
{
    if i < s.len() - 1 {
        assert(unique_keys(s.drop_last()));
        assert(s.drop_last()[i] == s[i]);
        lemma_kv_map_index(s.drop_last(), i);
        assert(s[i].0@ != s.last().0@);
    }
}

/// The full set of artifact entries, local (applied) or remote (desired).
pub struct Artifacts {
    /// Name/entry pairs; the names are unique.
    pub components: Vec<(String, Artifact)>,
}

impl View for Artifacts {
    type V = Map<Seq<char>, Artifact>;

    open spec fn view(&self) -> Map<Seq<char>, Artifact> {
        kv_map(self.components@)
    }
}

impl Artifacts {
    /// Well-formed: no artifact name occurs twice.
    pub open spec fn wf(&self) -> bool {
        unique_keys(self.components@)
    }

    /// An empty manifest with room reserved for `capacity` entries.
    pub fn with_capacity(capacity: usize) -> (r: Self)
        ensures
            r.wf(),
            r@ == Map::<Seq<char>, Artifact>::empty(),
            r.components@.len() == 0,
    {
        Artifacts { components: Vec::with_capacity(capacity) }
    }

    /// The number of entries.
    pub fn len(&self) -> (r: usize)
        ensures
            r == self.components@.len(),
    {
        self.components.len()
    }

    /// Looks an artifact up by name.
    pub fn get(&self, name: &String) -> (r: Option<&Artifact>)
        requires
            self.wf(),
        ensures
            match r {
                Some(a) => self@.contains_key(name@) && *a == self@[name@],
                None => !self@.contains_key(name@),
            },
    {
        proof {
            lemma_kv_map_dom(self.components@);
        }
        let n = self.components.len();
        let mut i: usize = 0;
        while i < n
            invariant
                self.wf(),
                n == self.components@.len(),
                i <= n,
                forall|j: int| 0 <= j < i ==> self.components@[j].0@ != name@,
            decreases n - i,
        {
            if self.components[i].0 == *name {
                proof {
                    lemma_kv_map_index(self.components@, i as int);
                }
                return Some(&self.components[i].1);
            }
            i += 1;
        }
        None
    }

    /// Adds an entry under a name that is not yet present.
    pub fn insert(&mut self, name: String, artifact: Artifact)
        requires
            old(self).wf(),
            !old(self)@.contains_key(name@),
        ensures
            final(self).wf(),
            final(self)@ == old(self)@.insert(name@, artifact),
            final(self).components@ == old(self).components@.push((name, artifact)),
    {
        proof {
            lemma_kv_map_dom(self.components@);
            let s = self.components@.push((name, artifact));
            assert(s.drop_last() =~= self.components@);
            assert forall|i: int, j: int| 0 <= i < j < s.len() implies s[i].0@ != s[j].0@ by {
                if j == s.len() - 1 {
                    assert(self.components@[i].0@ != name@);
                }
            }
        }
        self.components.push((name, artifact));
    }
}

} // verus!
