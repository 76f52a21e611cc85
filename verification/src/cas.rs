//! The content-addressed store, modeled: entries keyed by digest, the
//! on-disk fanout path of a digest, and the store/materialize contract
//! that makes every materialized file byte-identical to its entry.

use vstd::prelude::*;

verus! {

/// A content-addressed store: digest to stored bytes, one entry per
/// digest.
pub struct CasStore {
    /// The entries, in insertion order.
    pub entries: Vec<(String, Vec<u8>)>,
}

impl CasStore {
    /// One entry per digest, and no digest is empty.
    pub open spec fn wf(&self) -> bool {
        &&& forall|i: int, j: int| 0 <= i < j < self.entries@.len()
            ==> (#[trigger] self.entries@[i]).0@ != (#[trigger] self.entries@[j]).0@
        &&& forall|i: int| 0 <= i < self.entries@.len()
            ==> (#[trigger] self.entries@[i]).0@.len() > 0
    }

    /// Whether a digest is stored.
    pub open spec fn spec_has(&self, h: Seq<char>) -> bool {
        exists|i: int| 0 <= i < self.entries@.len() && (#[trigger] self.entries@[i]).0@ == h
    }

    /// The bytes stored under a digest.
    pub open spec fn spec_get(&self, h: Seq<char>) -> Seq<u8> {
        self.entries@[choose|i: int| 0 <= i < self.entries@.len()
            && (#[trigger] self.entries@[i]).0@ == h].1@
    }

    /// An empty store.
    pub fn new() -> (r: CasStore)
        ensures
            r.wf(),
            r.entries@.len() == 0,
    {
        CasStore { entries: Vec::new() }
    }

    /// Finds the position of a digest.
    fn find(&self, h: &str) -> (r: Option<usize>)
        ensures
            r matches Some(i) ==> i < self.entries@.len() && self.entries@[i as int].0@ == h@,
            r is None ==> !self.spec_has(h@),
    {
        let mut i: usize = 0;
        while i < self.entries.len()
            invariant
                i <= self.entries@.len(),
                forall|j: int| 0 <= j < i ==> (#[trigger] self.entries@[j]).0@ != h@,
            decreases self.entries@.len() - i,
        {
            if crate::strutil::str_eq(self.entries[i].0.as_str(), h) {
                return Some(i);
            }
            i += 1;
        }
        None
    }

    /// Finds the position of an entry holding exactly these bytes.
    fn find_content(&self, contents: &Vec<u8>) -> (r: Option<usize>)
        ensures
            r matches Some(i) ==> i < self.entries@.len()
                && self.entries@[i as int].1@ == contents@,
            r is None ==> !self.spec_has_content(contents@),
    {
        let mut i: usize = 0;
        while i < self.entries.len()
            invariant
                i <= self.entries@.len(),
                forall|j: int| 0 <= j < i ==> (#[trigger] self.entries@[j]).1@ != contents@,
            decreases self.entries@.len() - i,
        {
            if bytes_eq(&self.entries[i].1, contents) {
                return Some(i);
            }
            i += 1;
        }
        None
    }

    /// Whether some entry holds exactly these bytes.
    pub open spec fn spec_has_content(&self, contents: Seq<u8>) -> bool {
        exists|i: int| 0 <= i < self.entries@.len() && (#[trigger] self.entries@[i]).1@ == contents
    }

    /// Stores bytes and returns the digest they live under. Equal contents
    /// are written once: storing bytes that are already present reuses the
    /// existing entry and returns its digest. New contents go under their
    /// digest; on the (for a real digest practically impossible) collision
    /// of a fresh content with a taken digest, the entry is replaced -
    /// last writer wins, and the digest maps to the new bytes either way.
    pub fn store(&mut self, contents: Vec<u8>) -> (h: String)
        requires
            old(self).wf(),
        ensures
            final(self).wf(),
            h@.len() > 0,
            final(self).spec_has(h@),
            final(self).spec_get(h@) == contents@,
            old(self).spec_has_content(contents@) ==> *final(self) == *old(self),
            !old(self).spec_has_content(contents@) && !old(self).spec_has(h@) ==> {
                &&& final(self).entries@.len() == old(self).entries@.len() + 1
                &&& forall|j: int| 0 <= j < old(self).entries@.len()
                    ==> final(self).entries@[j] == old(self).entries@[j]
                &&& final(self).entries@.last().0@ == h@
                &&& final(self).entries@.last().1 == contents
            },
    {
        if let Some(i) = self.find_content(&contents) {
            proof {
                let c = choose|j: int| 0 <= j < self.entries@.len()
                    && (#[trigger] self.entries@[j]).0@ == self.entries@[i as int].0@;
                lemma_unique_digest(*self, c, i as int);
            }
            return self.entries[i].0.clone();
        }
        let h = crate::source::hash(&contents);
        match self.find(h.as_str()) {
            Some(i) => {
                // A fresh content under a taken digest: last writer wins.
                let ghost s0 = *self;
                let mut e = self.entries.remove(i);
                e.1 = contents;
                self.entries.insert(i, e);
                proof {
                    assert(self.entries@.len() == s0.entries@.len());
                    assert forall|j: int| 0 <= j < s0.entries@.len() && j != i
                        implies self.entries@[j] == s0.entries@[j] by {
                        if j < i {
                            assert(self.entries@[j] == s0.entries@.remove(i as int)[j]);
                        } else {
                            assert(self.entries@[j] == s0.entries@.remove(i as int)[j - 1]);
                        }
                    }
                    assert(self.entries@[i as int].0@ == s0.entries@[i as int].0@);
                    assert forall|a: int, b: int| 0 <= a < b < self.entries@.len()
                        implies (#[trigger] self.entries@[a]).0@
                            != (#[trigger] self.entries@[b]).0@ by {
                        assert(self.entries@[a].0@ == s0.entries@[a].0@);
                        assert(self.entries@[b].0@ == s0.entries@[b].0@);
                    }
                    let c = choose|j: int| 0 <= j < self.entries@.len()
                        && (#[trigger] self.entries@[j]).0@ == h@;
                    lemma_unique_digest(*self, c, i as int);
                }
                h
            },
            None => {
                let ghost s0 = *self;
                let hh = h.clone();
                self.entries.push((hh, contents));
                proof {
                    assert(self.entries@.last().0@ == h@);
                    assert forall|a: int, b: int| 0 <= a < b < self.entries@.len()
                        implies (#[trigger] self.entries@[a]).0@
                            != (#[trigger] self.entries@[b]).0@ by {
                        if b == self.entries@.len() - 1 {
                            assert(!s0.spec_has(h@));
                            assert(self.entries@[a] == s0.entries@[a]);
                        }
                    }
                    let w = self.entries@.len() - 1;
                    let c = choose|j: int| 0 <= j < self.entries@.len()
                        && (#[trigger] self.entries@[j]).0@ == h@;
                    lemma_unique_digest(*self, c, w);
                }
                h
            },
        }
    }

    /// Hands back the bytes stored under a digest: exactly the entry's
    /// bytes, and present exactly when the digest is stored.
    pub fn materialize(&self, h: &str) -> (r: Option<&Vec<u8>>)
        requires
            self.wf(),
        ensures
            r is Some <==> self.spec_has(h@),
            r matches Some(b) ==> b@ == self.spec_get(h@),
    {
        match self.find(h) {
            Some(i) => {
                proof {
                    let c = choose|j: int| 0 <= j < self.entries@.len()
                        && (#[trigger] self.entries@[j]).0@ == h@;
                    if c != i as int {
                        if c < i as int {
                            assert(self.entries@[c].0@ != self.entries@[i as int].0@);
                        } else {
                            assert(self.entries@[i as int].0@ != self.entries@[c].0@);
                        }
                    }
                }
                Some(&self.entries[i].1)
            },
            None => None,
        }
    }
}

/// Two positions holding the same digest coincide.
proof fn lemma_unique_digest(s: CasStore, i: int, j: int)
    requires
        s.wf(),
        0 <= i < s.entries@.len(),
        0 <= j < s.entries@.len(),
        s.entries@[i].0@ == s.entries@[j].0@,
    ensures
        i == j,
{
    if i < j {
        assert(s.entries@[i].0@ != s.entries@[j].0@);
    } else if j < i {
        assert(s.entries@[j].0@ != s.entries@[i].0@);
    }
}

/// Compares two byte vectors.
fn bytes_eq(a: &Vec<u8>, b: &Vec<u8>) -> (r: bool)
    ensures
        r == (a@ == b@),
{
    if a.len() != b.len() {
        return false;
    }
    let mut i: usize = 0;
    while i < a.len()
        invariant
            a@.len() == b@.len(),
            i <= a@.len(),
            forall|j: int| 0 <= j < i ==> a@[j] == b@[j],
        decreases a@.len() - i,
    {
        if a[i] != b[i] {
            return false;
        }
        i += 1;
    }
    proof {
        assert(a@ =~= b@);
    }
    true
}

/// The fanout path of a digest under the store root:
/// `cas/<first two>/<next two>/<rest>` when the digest is long enough for
/// the fanout, `cas/<digest>` otherwise.
pub fn cas_path(h: &str) -> (r: Vec<String>)
    requires
        h@.len() > 0,
    ensures
        h@.len() > 4 ==> segs_eq(r@, h@),
        h@.len() <= 4 ==> r@.len() == 2 && r@[0]@ == "cas"@ && r@[1]@ == h@,
{
    let n = h.unicode_len();
    let mut out: Vec<String> = Vec::new();
    out.push(String::from_str("cas"));
    if n > 4 {
        out.push(String::from_str(h.substring_char(0, 2)));
        out.push(String::from_str(h.substring_char(2, 4)));
        out.push(String::from_str(h.substring_char(4, n)));
    } else {
        out.push(String::from_str(h));
    }
    proof {
        reveal_strlit("cas");
    }
    out
}

/// What the fanout path of digest `h` looks like.
pub open spec fn segs_eq(r: Seq<String>, h: Seq<char>) -> bool {
    &&& r.len() == 4
    &&& r[0]@ == "cas"@
    &&& r[1]@ == h.subrange(0, 2)
    &&& r[2]@ == h.subrange(2, 4)
    &&& r[3]@ == h.subrange(4, h.len() as int)
}

} // verus!
