//! The set of persistent ids already delivered to the consumer during this
//! registration's lifetime. It grows monotonically and is replayed to the
//! server on every new connection so already-acknowledged messages are not
//! delivered again.
use vstd::prelude::*;

verus! {

/// Ordered, duplicate-free collection of delivered persistent ids.
#[derive(Clone, Debug)]
pub struct PersistentIdSet {
    ids: Vec<Vec<u8>>,
}

impl View for PersistentIdSet {
    type V = Seq<Seq<u8>>;

    closed spec fn view(&self) -> Seq<Seq<u8>> {
        self.ids.deep_view()
    }
}

/// An element of the deep view of a vector of byte strings is the view of
/// that element.
pub proof fn lemma_deep_index(v: &Vec<Vec<u8>>, i: int)
    requires
        0 <= i < v@.len(),
    ensures
        v.deep_view().len() == v@.len(),
        v.deep_view()[i] == v@[i]@,
{
    assert(v@[i].deep_view() =~= v@[i]@);
}

/// Copies a byte string.
pub fn copy_bytes(src: &[u8]) -> (r: Vec<u8>)
    ensures
        r@ == src@,
{
    let mut r: Vec<u8> = Vec::new();
    r.extend_from_slice(src);
    proof {
        assert(r@ =~= src@);
    }
    r
}

/// Compares two byte strings.
pub fn bytes_eq(a: &[u8], b: &[u8]) -> (r: bool)
    ensures
        r == (a@ == b@),
{
    if a.len() != b.len() {
        proof {
            assert(a@.len() != b@.len());
        }
        return false;
    }
    let mut i: usize = 0;
    while i < a.len()
        invariant
            i <= a@.len(),
            a@.len() == b@.len(),
            forall|k: int| 0 <= k < i ==> a@[k] == b@[k],
        decreases a@.len() - i,
    {
        if a[i] != b[i] {
            return false;
        }
        i = i + 1;
    }
    proof {
        assert(a@ =~= b@);
    }
    true
}

impl PersistentIdSet {
    /// No id occurs twice.
    pub open spec fn wf(self) -> bool {
        forall|i: int, j: int| 0 <= i < j < self@.len() ==> self@[i] != self@[j]
    }

    /// An empty set.
    pub fn new() -> (s: PersistentIdSet)
        ensures
            s@ == Seq::<Seq<u8>>::empty(),
            s.wf(),
    {
        PersistentIdSet { ids: Vec::new() }
    }

    pub fn len(&self) -> (n: usize)
        ensures
            n == self@.len(),
    {
        self.ids.len()
    }

    /// The ids in insertion order, for replay in a login request.
    pub fn as_ids(&self) -> (r: &Vec<Vec<u8>>)
        ensures
            r.deep_view() == self@,
    {
        &self.ids
    }

    /// Whether `id` was already delivered.
    pub fn contains(&self, id: &[u8]) -> (r: bool)
        ensures
            r == self@.contains(id@),
    {
        let mut i: usize = 0;
        while i < self.ids.len()
            invariant
                i <= self@.len(),
                self@ == self.ids.deep_view(),
                forall|k: int| 0 <= k < i ==> self@[k] != id@,
            decreases self@.len() - i,
        {
            proof {
                lemma_deep_index(&self.ids, i as int);
            }
            if bytes_eq(self.ids[i].as_slice(), id) {
                proof {
                    assert(self@[i as int] == id@);
                }
                return true;
            }
            i = i + 1;
        }
        proof {
            if self@.contains(id@) {
                let k = choose|k: int| 0 <= k < self@.len() && self@[k] == id@;
                assert(self@[k] != id@);
            }
        }
        false
    }

    /// Records `id` as delivered. Returns whether it was new; a set that
    /// already held the id is left unchanged, so the set only ever grows
    /// and never holds an id twice.
    pub fn insert(&mut self, id: Vec<u8>) -> (fresh: bool)
        requires
            old(self).wf(),
        ensures
            final(self).wf(),
            fresh == !old(self)@.contains(id@),
            final(self)@ == (if old(self)@.contains(id@) {
                old(self)@
            } else {
                old(self)@.push(id@)
            }),
    {
        if self.contains(id.as_slice()) {
            return false;
        }
        let ghost before = self@;
        let ghost id_view = id@;
        self.ids.push(id);
        proof {
            assert forall|k: int| 0 <= k < self.ids@.len() implies self@[k] == (before.push(
                id_view,
            ))[k] by {
                lemma_deep_index(&self.ids, k);
                if k < before.len() {
                    assert(old(self).ids@[k].deep_view() =~= old(self).ids@[k]@);
                }
            }
            assert(self@ =~= before.push(id_view));
            assert forall|i: int, j: int| 0 <= i < j < self@.len() implies self@[i] != self@[j] by {
                if j < self@.len() - 1 {
                    assert(before[i] != before[j]);
                } else {
                    assert(!before.contains(id@));
                    if self@[i] == id@ {
                        assert(before[i] == id@);
                    }
                }
            }
        }
        true
    }

    /// Builds a set from ids supplied by the caller (for example reloaded
    /// from storage), keeping the first occurrence of each.
    pub fn from_ids(ids: Vec<Vec<u8>>) -> (s: PersistentIdSet)
        ensures
            s.wf(),
            forall|i: int| 0 <= i < ids.deep_view().len() ==> s@.contains(#[trigger] ids.deep_view()[i]),
            forall|j: int| 0 <= j < s@.len() ==> ids.deep_view().contains(#[trigger] s@[j]),
    {
        let mut s = PersistentIdSet::new();
        let mut i: usize = 0;
        while i < ids.len()
            invariant
                i <= ids@.len(),
                s.wf(),
                forall|k: int| 0 <= k < i ==> s@.contains(#[trigger] ids.deep_view()[k]),
                forall|j: int| 0 <= j < s@.len() ==> ids.deep_view().contains(#[trigger] s@[j]),
            decreases ids@.len() - i,
        {
            let ghost before = s@;
            proof {
                lemma_deep_index(&ids, i as int);
            }
            let id = copy_bytes(ids[i].as_slice());
            s.insert(id);
            i = i + 1;
            proof {
                assert(s@.contains(ids.deep_view()[i - 1])) by {
                    if !before.contains(ids.deep_view()[i - 1]) {
                        assert(s@[s@.len() - 1] == ids.deep_view()[i - 1]);
                    } else {
                        let k = choose|k: int|
                            0 <= k < before.len() && before[k] == ids.deep_view()[i - 1];
                        assert(s@[k] == ids.deep_view()[i - 1]);
                    }
                }
                assert forall|k: int| 0 <= k < i implies s@.contains(
                    #[trigger] ids.deep_view()[k],
                ) by {
                    if k < i - 1 {
                        let m = choose|m: int|
                            0 <= m < before.len() && before[m] == ids.deep_view()[k];
                        assert(s@[m] == ids.deep_view()[k]);
                    }
                }
            }
        }
        s
    }
}

} // verus!
