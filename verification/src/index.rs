//! The offline index: a mapping from URL to local artifact filename.
//!
//! The index is the single source of truth for "what is cached". It is held
//! as a vector of pairs with pairwise-distinct keys and viewed as a
//! mathematical map from URL to filename. Loading and persisting the backing
//! `index.json` file is the host's concern; the host rebuilds an index from
//! stored pairs and reads them back out through [`OfflineIndex::pairs`].

use crate::strutil::str_eq;
use vstd::prelude::*;

verus! {

/// No two entries share a key.
pub open spec fn unique_keys(s: Seq<(String, String)>) -> bool {
    forall|i: int, j: int| 0 <= i < j < s.len() ==> (#[trigger] s[i]).0@ != (#[trigger] s[j]).0@
}

/// The map that a sequence of key/value pairs denotes; later pairs win.
pub open spec fn entries_map(s: Seq<(String, String)>) -> Map<Seq<char>, Seq<char>>
    decreases s.len(),
{
    if s.len() == 0 {
        Map::empty()
    } else {
        entries_map(s.drop_last()).insert(s.last().0@, s.last().1@)
    }
}

/// A URL-to-filename mapping with unique keys.
pub struct OfflineIndex {
    entries: Vec<(String, String)>,
}

impl OfflineIndex {
    /// The mathematical content of the index.
    pub closed spec fn view(&self) -> Map<Seq<char>, Seq<char>> {
        entries_map(self.entries@)
    }

    /// Internal well-formedness: keys are pairwise distinct.
    pub closed spec fn wf(&self) -> bool {
        unique_keys(self.entries@)
    }

    /// An empty index, as used on first sync or when the stored index is
    /// absent or unreadable.
    pub fn empty() -> (r: Self)
        ensures
            r.wf(),
            r@ == Map::<Seq<char>, Seq<char>>::empty(),
    {
        OfflineIndex { entries: Vec::new() }
    }

    /// Number of entries.
    pub fn len(&self) -> (n: usize)
        requires
            self.wf(),
        ensures
            n == self@.dom().len(),
    {
        proof {
            lemma_entries_map_len(self.entries@);
        }
        self.entries.len()
    }

    /// The position of the entry for `url`, if any.
    fn find(&self, url: &str) -> (r: Option<usize>)
        ensures
            match r {
                Some(i) => i < self.entries@.len() && self.entries@[i as int].0@ == url@,
                None => forall|i: int|
                    0 <= i < self.entries@.len() ==> (#[trigger] self.entries@[i]).0@ != url@,
            },
    {
        let n: usize = self.entries.len();
        let mut i: usize = 0;
        while i < n
            invariant
                n == self.entries@.len(),
                0 <= i <= n,
                forall|j: int| 0 <= j < i ==> (#[trigger] self.entries@[j]).0@ != url@,
            decreases n - i,
        {
            if str_eq(self.entries[i].0.as_str(), url) {
                return Some(i);
            }
            i += 1;
        }
        None
    }

    /// Looks a URL up: the artifact filename recorded for it, if any.
    pub fn lookup(&self, url: &str) -> (r: Option<&String>)
        requires
            self.wf(),
        ensures
            match r {
                Some(f) => self@.contains_key(url@) && self@[url@] == f@,
                None => !self@.contains_key(url@),
            },
    {
        proof {
            lemma_entries_map_characterized(self.entries@);
        }
        match self.find(url) {
            Some(i) => Some(&self.entries[i].1),
            None => None,
        }
    }

    /// True when the index has an entry for the URL.
    pub fn contains(&self, url: &str) -> (r: bool)
        requires
            self.wf(),
        ensures
            r == self@.contains_key(url@),
    {
        match self.lookup(url) {
            Some(_) => true,
            None => false,
        }
    }

    /// Inserts or overwrites the entry for a URL.
    pub fn insert(&mut self, url: String, filename: String)
        requires
            old(self).wf(),
        ensures
            final(self).wf(),
            final(self)@ == old(self)@.insert(url@, filename@),
    {
        let ghost uv = url@;
        let ghost fv = filename@;
        match self.find(url.as_str()) {
            Some(i) => {
                let ghost s0 = self.entries@;
                self.entries.remove(i);
                proof {
                    lemma_entries_map_remove(s0, i as int);
                    assert forall|j: int|
                        0 <= j < self.entries@.len() implies (#[trigger] self.entries@[j]).0@
                        != uv by {
                        if j < i {
                            assert(self.entries@[j] == s0[j]);
                        } else {
                            assert(self.entries@[j] == s0[j + 1]);
                        }
                    }
                }
                self.push_fresh(url, filename);
                proof {
                    assert(entries_map(s0.remove(i as int)).insert(uv, fv) =~= entries_map(
                        s0,
                    ).insert(uv, fv));
                }
            },
            None => {
                self.push_fresh(url, filename);
            },
        }
    }

    /// Appends an entry whose key is not yet present.
    fn push_fresh(&mut self, url: String, filename: String)
        requires
            old(self).wf(),
            forall|i: int|
                0 <= i < old(self).entries@.len() ==> (#[trigger] old(self).entries@[i]).0@
                    != url@,
        ensures
            final(self).wf(),
            final(self)@ == old(self)@.insert(url@, filename@),
    {
        let ghost s0 = self.entries@;
        self.entries.push((url, filename));
        proof {
            assert(self.entries@.drop_last() =~= s0);
        }
    }

    /// The entries as plain pairs, for the host to serialize; rebuilding an
    /// index by inserting each pair in order reproduces the same map.
    pub fn pairs(&self) -> (r: &Vec<(String, String)>)
        ensures
            entries_map(r@) == self@,
            self.wf() ==> unique_keys(r@),
    {
        &self.entries
    }
}

/// With unique keys, removing one entry removes exactly its key from the
/// denoted map.
proof fn lemma_entries_map_remove(s: Seq<(String, String)>, i: int)
    requires
        0 <= i < s.len(),
        unique_keys(s),
    ensures
        unique_keys(s.remove(i)),
        entries_map(s.remove(i)) == entries_map(s).remove(s[i].0@),
{
    lemma_unique_keys_remove(s, i);
    lemma_entries_map_characterized(s);
    lemma_entries_map_characterized(s.remove(i));
    let t = s.remove(i);
    let m1 = entries_map(t);
    let m2 = entries_map(s).remove(s[i].0@);
    assert forall|k: Seq<char>| m1.contains_key(k) implies m2.contains_key(k) && m1[k]
        == m2[k] by {
        let j = choose|j: int| 0 <= j < t.len() && (#[trigger] t[j]).0@ == k;
        let j0 = if j < i {
            j
        } else {
            j + 1
        };
        assert(t[j] == s[j0]);
        assert(k != s[i].0@);
    }
    assert forall|k: Seq<char>| m2.contains_key(k) implies m1.contains_key(k) by {
        let j0 = choose|j0: int| 0 <= j0 < s.len() && (#[trigger] s[j0]).0@ == k;
        let j = if j0 < i {
            j0
        } else {
            j0 - 1
        };
        assert(t[j] == s[j0]);
    }
    assert(m1 =~= m2);
}

/// Uniqueness of keys survives removing an entry.
proof fn lemma_unique_keys_remove(s: Seq<(String, String)>, i: int)
    requires
        0 <= i < s.len(),
        unique_keys(s),
    ensures
        unique_keys(s.remove(i)),
{
    assert forall|a: int, b: int|
        0 <= a < b < s.remove(i).len() implies (#[trigger] s.remove(i)[a]).0@ != (#[trigger] s.remove(
        i,
    )[b]).0@ by {
        let a0 = if a < i {
            a
        } else {
            a + 1
        };
        let b0 = if b < i {
            b
        } else {
            b + 1
        };
        assert(s.remove(i)[a] == s[a0]);
        assert(s.remove(i)[b] == s[b0]);
    }
}

/// Uniqueness of keys survives dropping the last entry.
proof fn lemma_unique_keys_drop_last(s: Seq<(String, String)>)
    requires
        s.len() > 0,
        unique_keys(s),
    ensures
        unique_keys(s.drop_last()),
{
    assert forall|a: int, b: int|
        0 <= a < b < s.drop_last().len() implies (#[trigger] s.drop_last()[a]).0@ != (
    #[trigger] s.drop_last()[b]).0@ by {
        assert(s.drop_last()[a] == s[a]);
        assert(s.drop_last()[b] == s[b]);
    }
}

/// The denoted map holds exactly the keys that occur in the sequence; with
/// unique keys, each key maps to its entry's value.
proof fn lemma_entries_map_characterized(s: Seq<(String, String)>)
    ensures
        forall|k: Seq<char>|
            entries_map(s).contains_key(k) <==> exists|i: int|
                0 <= i < s.len() && (#[trigger] s[i]).0@ == k,
        unique_keys(s) ==> forall|i: int|
            0 <= i < s.len() ==> entries_map(s).contains_key((#[trigger] s[i]).0@)
                && entries_map(s)[s[i].0@] == s[i].1@,
    decreases s.len(),
{
    if s.len() > 0 {
        lemma_entries_map_characterized(s.drop_last());
        assert forall|k: Seq<char>| entries_map(s).contains_key(k) implies exists|i: int|
            0 <= i < s.len() && (#[trigger] s[i]).0@ == k by {
            if k == s.last().0@ {
                assert(s[s.len() - 1].0@ == k);
            } else {
                assert(entries_map(s.drop_last()).contains_key(k));
                let i = choose|i: int|
                    0 <= i < s.drop_last().len() && (#[trigger] s.drop_last()[i]).0@ == k;
                assert(s.drop_last()[i] == s[i]);
                assert(s[i].0@ == k);
            }
        }
        assert forall|k: Seq<char>|
            (exists|i: int| 0 <= i < s.len() && (#[trigger] s[i]).0@ == k) implies entries_map(
            s,
        ).contains_key(k) by {
            let i = choose|i: int| 0 <= i < s.len() && (#[trigger] s[i]).0@ == k;
            if i < s.len() - 1 {
                assert(s.drop_last()[i] == s[i]);
                assert(s.drop_last()[i].0@ == k);
                assert(entries_map(s.drop_last()).contains_key(k));
            } else {
                assert(k == s.last().0@);
            }
        }
        if unique_keys(s) {
            lemma_unique_keys_drop_last(s);
            assert forall|i: int| 0 <= i < s.len() implies entries_map(s).contains_key(
                (#[trigger] s[i]).0@,
            ) && entries_map(s)[s[i].0@] == s[i].1@ by {
                if i < s.len() - 1 {
                    assert(s.drop_last()[i] == s[i]);
                    assert(s[i].0@ != s.last().0@);
                }
            }
        }
    }
}

/// With unique keys, the denoted map has as many keys as the sequence has
/// entries.
proof fn lemma_entries_map_len(s: Seq<(String, String)>)
    requires
        unique_keys(s),
    ensures
        entries_map(s).dom().finite(),
        entries_map(s).dom().len() == s.len(),
    decreases s.len(),
{
    if s.len() == 0 {
        assert(entries_map(s).dom() =~= Set::<Seq<char>>::empty());
    } else {
        lemma_unique_keys_drop_last(s);
        lemma_entries_map_len(s.drop_last());
        lemma_entries_map_characterized(s.drop_last());
        assert(!entries_map(s.drop_last()).contains_key(s.last().0@)) by {
            if entries_map(s.drop_last()).contains_key(s.last().0@) {
                let i = choose|i: int|
                    0 <= i < s.drop_last().len() && (#[trigger] s.drop_last()[i]).0@
                        == s.last().0@;
                assert(s[i].0@ == s.last().0@);
                assert(s[i].0@ != s[s.len() - 1].0@);
            }
        }
        assert(entries_map(s).dom() =~= entries_map(s.drop_last()).dom().insert(s.last().0@));
        vstd::set::axiom_set_insert_len(entries_map(s.drop_last()).dom(), s.last().0@);
    }
}

} // verus!
