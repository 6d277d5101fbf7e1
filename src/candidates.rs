use std::collections::VecDeque;
use vstd::prelude::*;
use crate::model::{lemma_tag_unique, tag_modulus, tag_of};

verus! {

/// `a` is at least as extreme as `b`: no greater when tracking the least
/// value, no smaller when tracking the greatest.
pub open spec fn ranks_before(a: i32, b: i32, lowest: bool) -> bool {
    if lowest {
        a <= b
    } else {
        a >= b
    }
}

/// A monotonic deque of candidates for the extreme value of a sliding window.
///
/// Each entry is a value with the tag of the position at which it arrived.
/// Entries run from the oldest position to the newest; the oldest one holds
/// the extreme value of the window.
pub struct Candidates {
    entries: VecDeque<(i32, u64)>,
    lowest: bool,
    positions: Ghost<Seq<int>>,
}

impl Candidates {
    pub closed spec fn tracks_lowest(&self) -> bool {
        self.lowest
    }

    /// The entries describe the window `h[base..]` of the history `h`.
    pub closed spec fn wf(&self, h: Seq<i32>, base: int) -> bool {
        let d = self.entries@;
        let ps = self.positions@;
        &&& d.len() == ps.len()
        &&& forall|i: int|
            #![trigger ps[i]]
            0 <= i < d.len() ==> base <= ps[i] < h.len() && d[i].1 == tag_of(ps[i]) && d[i].0
                == h[ps[i]]
        &&& forall|i: int, j: int| 0 <= i < j < d.len() ==> ps[i] < ps[j]
        &&& forall|i: int, q: int|
            #![trigger d[i], h[q]]
            0 <= i < d.len() && ps[i] <= q < h.len() ==> ranks_before(d[i].0, h[q], self.lowest)
        &&& forall|i: int, q: int|
            #![trigger d[i], h[q]]
            0 <= i < d.len() && base <= q <= ps[i] && (i == 0 || ps[i - 1] < q) ==> ranks_before(
                d[i].0,
                h[q],
                self.lowest,
            )
        &&& base < h.len() ==> d.len() > 0 && ps[d.len() - 1] == h.len() - 1
    }

    pub fn new(lowest: bool) -> (r: Candidates)
        ensures
            r.wf(Seq::empty(), 0),
            r.tracks_lowest() == lowest,
    {
        Candidates { entries: VecDeque::new(), lowest, positions: Ghost(Seq::empty()) }
    }

    fn ranks_first(&self, a: i32, b: i32) -> (r: bool)
        ensures
            r == ranks_before(a, b, self.lowest),
    {
        if self.lowest {
            a <= b
        } else {
            a >= b
        }
    }

    /// The oldest position `base` of the window leaves it.
    pub fn evict_oldest(&mut self, base_tag: u64, Ghost(h): Ghost<Seq<i32>>, Ghost(base): Ghost<int>)
        requires
            old(self).wf(h, base),
            0 <= base < h.len(),
            h.len() - base < tag_modulus(),
            base_tag == tag_of(base),
        ensures
            final(self).wf(h, base + 1),
            final(self).tracks_lowest() == old(self).tracks_lowest(),
    {
        let ghost d0 = self.entries@;
        let ghost ps0 = self.positions@;
        assert(ps0[0] == ps0[0]);
        if self.entries[0].1 == base_tag {
            proof {
                lemma_tag_unique(base, ps0[0]);
            }
            self.entries.pop_front();
            self.positions = Ghost(ps0.subrange(1, ps0.len() as int));
            proof {
                let d = self.entries@;
                let ps = self.positions@;
                assert forall|i: int| #![trigger ps[i]] 0 <= i < d.len() implies base + 1 <= ps[i] < h.len()
                    && d[i].1 == tag_of(ps[i]) && d[i].0 == h[ps[i]] by {
                    assert(ps0[i + 1] == ps[i]);
                    assert(ps0[0] < ps0[i + 1]);
                }
                assert forall|i: int, q: int|
                    #![trigger d[i], h[q]]
                    0 <= i < d.len() && ps[i] <= q < h.len() implies ranks_before(d[i].0, h[q], self.lowest) by {
                    assert(d0[i + 1] == d[i]);
                    assert(ps0[i + 1] == ps[i]);
                }
                assert forall|i: int, q: int|
                    #![trigger d[i], h[q]]
                    0 <= i < d.len() && base + 1 <= q <= ps[i] && (i == 0 || ps[i - 1] < q) implies ranks_before(
                        d[i].0,
                        h[q],
                        self.lowest,
                    ) by {
                    assert(d0[i + 1] == d[i]);
                    assert(ps0[i + 1] == ps[i]);
                    assert(ps0[i] < q);
                }
                if base + 1 < h.len() {
                    assert(d0.len() > 1);
                }
            }
        } else {
            proof {
                let d = self.entries@;
                let ps = self.positions@;
                assert(ps[0] != base);
                assert forall|i: int| #![trigger ps[i]] 0 <= i < d.len() implies base + 1 <= ps[i] by {
                    if i > 0 {
                        assert(ps[0] < ps[i]);
                    }
                }
            }
        }
    }

    /// The value `v` arrives at position `h.len()`; entries that it outranks leave.
    pub fn push_newest(&mut self, v: i32, tag: u64, Ghost(h): Ghost<Seq<i32>>, Ghost(base): Ghost<int>)
        requires
            old(self).wf(h, base),
            0 <= base <= h.len(),
            tag == tag_of(h.len() as int),
        ensures
            final(self).wf(h.push(v), base),
            final(self).tracks_lowest() == old(self).tracks_lowest(),
    {
        let ghost d0 = self.entries@;
        let ghost ps0 = self.positions@;
        assert(d0 =~= d0.subrange(0, d0.len() as int));
        assert(ps0 =~= ps0.subrange(0, d0.len() as int));
        while self.entries.len() > 0 && self.ranks_first(v, self.entries[self.entries.len() - 1].0)
            invariant
                self.lowest == old(self).lowest,
                old(self).wf(h, base),
                0 <= base <= h.len(),
                d0 == old(self).entries@,
                ps0 == old(self).positions@,
                self.entries@.len() <= d0.len(),
                self.entries@ == d0.subrange(0, self.entries@.len() as int),
                self.positions@ == ps0.subrange(0, self.entries@.len() as int),
                forall|q: int|
                    #![trigger h[q]]
                    (if self.entries@.len() == 0 { base } else { ps0[self.entries@.len() - 1] + 1 })
                        <= q < h.len() ==> ranks_before(v, h[q], self.lowest),
            decreases self.entries@.len(),
        {
            let n = self.entries.len();
            proof {
                assert forall|q: int|
                    #![trigger h[q]]
                    (if n - 1 == 0 { base } else { ps0[n - 2] + 1 }) <= q < h.len() implies ranks_before(
                        v,
                        h[q],
                        self.lowest,
                    ) by {
                    if q <= ps0[n - 1] {
                        assert(d0[n - 1] == d0[n - 1]);
                        assert(ps0[n - 1] == ps0[n - 1]);
                        if n - 1 > 0 {
                            assert(ps0[n - 2] == ps0[n - 2]);
                        }
                        assert(ranks_before(d0[n - 1].0, h[q], self.lowest));
                    }
                }
            }
            self.entries.pop_back();
            self.positions = Ghost(ps0.subrange(0, n - 1));
        }
        let ghost n = self.entries@.len() as int;
        self.entries.push_back((v, tag));
        self.positions = Ghost(self.positions@.push(h.len() as int));
        proof {
            let h2 = h.push(v);
            let d = self.entries@;
            let ps = self.positions@;
            assert(h2[h.len() as int] == v);
            assert forall|i: int| #![trigger ps[i]] 0 <= i < d.len() implies base <= ps[i] < h2.len()
                && d[i].1 == tag_of(ps[i]) && d[i].0 == h2[ps[i]] by {
                if i < n {
                    assert(ps0[i] == ps[i]);
                    assert(d0[i] == d[i]);
                }
            }
            assert forall|i: int, j: int| 0 <= i < j < d.len() implies ps[i] < ps[j] by {
                assert(ps0[i] == ps[i]);
                if j < n {
                    assert(ps0[j] == ps[j]);
                }
            }
            assert forall|i: int, q: int|
                #![trigger d[i], h2[q]]
                0 <= i < d.len() && ps[i] <= q < h2.len() implies ranks_before(d[i].0, h2[q], self.lowest) by {
                if i < n {
                    assert(ps0[i] == ps[i]);
                    assert(d0[i] == d[i]);
                    if q < h.len() {
                        assert(h2[q] == h[q]);
                    } else {
                        // the kept entry outranks the last kept one, which outranks v
                        assert(ps0[n - 1] == ps0[n - 1]);
                        assert(ranks_before(d0[i].0, h[ps0[n - 1]], self.lowest));
                        assert(d0[n - 1].0 == h[ps0[n - 1]]);
                        assert(!ranks_before(v, d0[n - 1].0, self.lowest));
                    }
                }
            }
            assert forall|i: int, q: int|
                #![trigger d[i], h2[q]]
                0 <= i < d.len() && base <= q <= ps[i] && (i == 0 || ps[i - 1] < q) implies ranks_before(
                    d[i].0,
                    h2[q],
                    self.lowest,
                ) by {
                if i < n {
                    assert(ps0[i] == ps[i]);
                    assert(d0[i] == d[i]);
                    if i > 0 {
                        assert(ps0[i - 1] == ps[i - 1]);
                    }
                    assert(h2[q] == h[q]);
                } else if q < h.len() {
                    if n > 0 {
                        assert(ps0[n - 1] == ps[n - 1]);
                    }
                    assert(h2[q] == h[q]);
                }
            }
        }
    }

    /// The extreme value of the window `h[base..]`.
    pub fn best(&self, Ghost(h): Ghost<Seq<i32>>, Ghost(base): Ghost<int>) -> (r: i32)
        requires
            self.wf(h, base),
            0 <= base < h.len(),
        ensures
            exists|p: int| base <= p < h.len() && r == h[p],
            forall|q: int| base <= q < h.len() ==> ranks_before(r, h[q], self.tracks_lowest()),
    {
        let r = self.entries[0].0;
        proof {
            let ps = self.positions@;
            assert(ps[0] == ps[0]);
            assert(self.entries@[0] == self.entries@[0]);
            assert(base <= ps[0] < h.len() && r == h[ps[0]]);
            assert forall|q: int| base <= q < h.len() implies ranks_before(r, h[q], self.lowest) by {
                assert(self.entries@[0] == self.entries@[0]);
                assert(h[q] == h[q]);
            }
        }
        r
    }
}

} // verus!
