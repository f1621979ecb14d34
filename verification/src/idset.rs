//! A set of record identifiers.
//!
//! Reference fields of the data model ("belongs to these magazines", "the
//! referees still outstanding") are sets of ids that must not repeat.  The
//! set is kept as a strictly ascending vector, so membership is canonical:
//! two sets with the same elements are the same value.

use vstd::prelude::*;

verus! {

#[derive(Debug)]
pub struct IdSet {
    pub ids: Vec<u64>,
}

impl IdSet {
    /// The elements in ascending order.
    pub open spec fn elems(self) -> Seq<u64> {
        self.ids@
    }

    /// The elements as a mathematical set.
    pub open spec fn eset(self) -> Set<u64> {
        Set::new(|x: u64| self.ids@.contains(x))
    }

    /// Strictly ascending, hence free of duplicates.
    pub open spec fn wf(self) -> bool {
        forall|i: int, j: int|
            0 <= i < j < self.ids@.len() ==> self.ids@[i] < self.ids@[j]
    }

    pub open spec fn has(self, v: u64) -> bool {
        self.ids@.contains(v)
    }

    pub fn new() -> (r: Self)
        ensures
            r.wf(),
            r.elems() == Seq::<u64>::empty(),
            r.eset() =~= Set::<u64>::empty(),
    {
        IdSet { ids: Vec::new() }
    }

    pub fn len(&self) -> (r: usize)
        ensures
            r == self.elems().len(),
    {
        self.ids.len()
    }

    pub fn is_empty(&self) -> (r: bool)
        ensures
            r == (self.elems().len() == 0),
    {
        self.ids.len() == 0
    }

    pub fn at(&self, i: usize) -> (r: u64)
        requires
            i < self.elems().len(),
        ensures
            r == self.elems()[i as int],
            self.has(r),
    {
        let r = self.ids[i];
        proof {
            assert(self.ids@.contains(r)) by {
                assert(self.ids@[i as int] == r);
            }
        }
        r
    }

    pub fn contains(&self, v: u64) -> (r: bool)
        ensures
            r == self.has(v),
    {
        let mut i: usize = 0;
        while i < self.ids.len()
            invariant
                i <= self.ids@.len(),
                forall|k: int| 0 <= k < i ==> self.ids@[k] != v,
            decreases self.ids@.len() - i,
        {
            if self.ids[i] == v {
                proof {
                    assert(self.ids@.contains(v)) by {
                        assert(self.ids@[i as int] == v);
                    }
                }
                return true;
            }
            i += 1;
        }
        false
    }

    /// Add `v`; a value already present is not repeated.
    pub fn insert(&mut self, v: u64)
        requires
            old(self).wf(),
        ensures
            final(self).wf(),
            forall|x: u64| final(self).has(x) == (old(self).has(x) || x == v),
            final(self).eset() =~= old(self).eset().insert(v),
            old(self).has(v) ==> final(self).elems() == old(self).elems(),
            !old(self).has(v) ==> final(self).elems().len() == old(self).elems().len() + 1,
    {
        let mut i: usize = 0;
        while i < self.ids.len() && self.ids[i] < v
            invariant
                i <= self.ids@.len(),
                forall|k: int| 0 <= k < i ==> self.ids@[k] < v,
            decreases self.ids@.len() - i,
        {
            i += 1;
        }
        if i < self.ids.len() && self.ids[i] == v {
            proof {
                assert(self.ids@.contains(v)) by {
                    assert(self.ids@[i as int] == v);
                }
                assert(self.eset() =~= old(self).eset().insert(v));
            }
            return ;
        }
        proof {
            assert forall|k: int| 0 <= k < self.ids@.len() implies self.ids@[k] != v by {
                if k >= i {
                    if i < self.ids@.len() {
                        if k > i {
                            assert(self.ids@[i as int] < self.ids@[k]);
                        }
                        assert(self.ids@[k] >= self.ids@[i as int]);
                    }
                }
            }
            assert(!self.ids@.contains(v));
        }
        self.ids.insert(i, v);
        proof {
            let i_ = i as int;
            let n = old(self).ids@.len() as int;
            assert(forall|k: int| #![trigger self.ids@[k]]
                0 <= k < self.ids@.len() && k != i_ ==> {
                    let prev = if k < i_ { k } else { k - 1 };
                    self.ids@[k] == old(self).ids@[prev]
                });
            assert(self.ids@[i_] == v);
            assert forall|x: u64| self.has(x) == (old(self).has(x) || x == v) by {
                if self.ids@.contains(x) {
                    let k = choose|k: int| 0 <= k < self.ids@.len() && self.ids@[k] == x;
                    if k != i_ {
                        let prev = if k < i_ { k } else { k - 1 };
                        assert(old(self).ids@[prev] == x);
                        assert(old(self).ids@.contains(x));
                    }
                }
                if old(self).ids@.contains(x) {
                    let k = choose|k: int| 0 <= k < n && old(self).ids@[k] == x;
                    let here = if k < i_ { k } else { k + 1 };
                    assert(self.ids@[here] == x);
                    assert(self.ids@.contains(x));
                }
                if x == v {
                    assert(self.ids@.contains(v));
                }
            }
            assert(self.wf()) by {
                assert forall|a: int, b: int|
                    0 <= a < b < self.ids@.len() implies self.ids@[a] < self.ids@[b] by {
                    let pa = if a < i_ { a } else { a - 1 };
                    let pb = if b < i_ { b } else { b - 1 };
                    if a != i_ && b != i_ {
                        assert(old(self).ids@[pa] < old(self).ids@[pb]);
                    } else if a == i_ {
                        assert(old(self).ids@[pb] > v);
                    } else {
                        assert(old(self).ids@[pa] < v);
                    }
                }
            }
            assert forall|x: u64|
                self.eset().contains(x) == old(self).eset().insert(v).contains(x) by {
                assert(self.has(x) == (old(self).has(x) || x == v));
            }
            assert(self.eset() =~= old(self).eset().insert(v));
        }
    }

    /// Remove `v` if present.
    pub fn remove(&mut self, v: u64)
        requires
            old(self).wf(),
        ensures
            final(self).wf(),
            forall|x: u64| final(self).has(x) == (old(self).has(x) && x != v),
            final(self).eset() =~= old(self).eset().remove(v),
            !old(self).has(v) ==> final(self).elems() == old(self).elems(),
            old(self).has(v) ==> final(self).elems().len() == old(self).elems().len() - 1,
    {
        let mut i: usize = 0;
        while i < self.ids.len()
            invariant
                *old(self) == *self,
                old(self).wf(),
                i <= self.ids@.len(),
                forall|k: int| 0 <= k < i ==> self.ids@[k] != v,
            decreases self.ids@.len() - i,
        {
            if self.ids[i] == v {
                self.ids.remove(i);
                proof {
                    let i_ = i as int;
                    let n = old(self).ids@.len() as int;
                    assert(old(self).ids@[i_] == v);
                    assert forall|k: int|
                        0 <= k < n && k != i_ implies old(self).ids@[k] != v by {
                        if k < i_ {
                            assert(old(self).ids@[k] < old(self).ids@[i_]);
                        } else {
                            assert(old(self).ids@[i_] < old(self).ids@[k]);
                        }
                    }
                    assert(forall|k: int| #![trigger self.ids@[k]]
                        0 <= k < self.ids@.len() ==> {
                            let prev = if k < i_ { k } else { k + 1 };
                            self.ids@[k] == old(self).ids@[prev]
                        });
                    assert forall|x: u64|
                        self.has(x) == (old(self).has(x) && x != v) by {
                        if self.ids@.contains(x) {
                            let k = choose|k: int|
                                0 <= k < self.ids@.len() && self.ids@[k] == x;
                            let prev = if k < i_ { k } else { k + 1 };
                            assert(old(self).ids@[prev] == x);
                            assert(old(self).ids@.contains(x));
                            assert(x != v);
                        }
                        if old(self).ids@.contains(x) && x != v {
                            let k = choose|k: int| 0 <= k < n && old(self).ids@[k] == x;
                            assert(k != i_);
                            let here = if k < i_ { k } else { k - 1 };
                            assert(self.ids@[here] == x);
                            assert(self.ids@.contains(x));
                        }
                    }
                    assert(self.wf()) by {
                        assert forall|a: int, b: int|
                            0 <= a < b < self.ids@.len()
                            implies self.ids@[a] < self.ids@[b] by {
                            let pa = if a < i_ { a } else { a + 1 };
                            let pb = if b < i_ { b } else { b + 1 };
                            assert(old(self).ids@[pa] < old(self).ids@[pb]);
                        }
                    }
                    assert forall|x: u64|
                        self.eset().contains(x) == old(self).eset().remove(v).contains(x) by {
                        assert(self.has(x) == (old(self).has(x) && x != v));
                    }
                    assert(self.eset() =~= old(self).eset().remove(v));
                }
                return ;
            }
            i += 1;
        }
        proof {
            assert(!old(self).has(v));
            assert(self.eset() =~= old(self).eset().remove(v));
        }
    }

    /// A fresh set with the same elements.
    pub fn duplicate(&self) -> (r: Self)
        ensures
            r.elems() == self.elems(),
            r.eset() == self.eset(),
            self.wf() ==> r.wf(),
    {
        let mut out: Vec<u64> = Vec::new();
        let mut i: usize = 0;
        while i < self.ids.len()
            invariant
                i <= self.ids@.len(),
                out@ == self.ids@.subrange(0, i as int),
            decreases self.ids@.len() - i,
        {
            out.push(self.ids[i]);
            i += 1;
        }
        proof {
            assert(out@ =~= self.ids@);
            let r = IdSet { ids: out };
            if self.wf() {
                assert forall|a: int, b: int|
                    0 <= a < b < r.ids@.len() implies r.ids@[a] < r.ids@[b] by {
                    assert(self.ids@[a] < self.ids@[b]);
                }
            }
        }
        IdSet { ids: out }
    }
}

} // verus!
