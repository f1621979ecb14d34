//! A thesis version and its review state machine.
//!
//! A version starts `Uploaded`.  An editor sends it out for review
//! (`Reviewing`, with the set of outstanding referees and a pattern), an
//! editor adjudges it (`Passed`), or it ends as `History`.  Versions are
//! only ever created by committing on an existing thesis, and their
//! (major, minor) numbers are unique per thesis.

use vstd::prelude::*;

use crate::attached::Attached;
use crate::idset::IdSet;
use crate::names::Countable;
use crate::store::{Collection, Entity};

verus! {

#[derive(Clone, Copy, PartialEq, Eq, Structural, Debug)]
pub enum ReviewPattern {
    Editor,
    Reviewer,
}

pub struct Reviewing {
    pub remainder_ids: IdSet,
    pub pattern: ReviewPattern,
}

pub enum VersionState {
    Uploaded,
    Reviewing(Reviewing),
    Passed(bool),
    History,
}

pub struct Version {
    pub thesis_id: u64,
    pub release_id: u64,
    pub source_ids: Vec<u64>,
    pub major_number: i32,
    pub minor_number: i32,
    pub state: VersionState,
    pub review_ids: IdSet,
    pub downloads: i32,
}

impl Version {
    /// A version is well formed when its reference sets are.
    pub open spec fn wf(self) -> bool {
        &&& self.review_ids.wf()
        &&& match self.state {
            VersionState::Reviewing(r) => r.remainder_ids.wf(),
            _ => true,
        }
    }

    pub open spec fn is_uploaded(self) -> bool {
        self.state is Uploaded
    }

    /// A new version for this thesis, carrying the given numbers.
    pub fn fresh(
        thesis_id: u64,
        release_id: u64,
        source_ids: Vec<u64>,
        major_number: i32,
        minor_number: i32,
    ) -> (r: Self)
        ensures
            r.thesis_id == thesis_id,
            r.release_id == release_id,
            r.source_ids@ == source_ids@,
            r.major_number == major_number,
            r.minor_number == minor_number,
            r.state is Uploaded,
            r.review_ids.elems() == Seq::<u64>::empty(),
            r.downloads == 0,
            r.wf(),
    {
        Version {
            thesis_id,
            release_id,
            source_ids,
            major_number,
            minor_number,
            state: VersionState::Uploaded,
            review_ids: IdSet::new(),
            downloads: 0,
        }
    }

}

/// The first pair is at most the second in the (major, minor) order that
/// picks the peak version.
pub open spec fn pair_le(a0: i32, a1: i32, b0: i32, b1: i32) -> bool {
    a0 < b0 || (a0 == b0 && a1 <= b1)
}

impl Collection<Attached<Version>> {
    /// Whether the record at `i` belongs to this thesis.
    pub open spec fn of_thesis(self, i: int, thesis_id: u64) -> bool {
        self.entities@[i].data.content.thesis_id == thesis_id
    }

    /// The ids of every version of this thesis, oldest first.
    pub fn ids_of_thesis(&self, thesis_id: u64) -> (r: Vec<u64>)
        requires
            self.wf(),
        ensures
            forall|k: int| 0 <= k < r@.len() ==> self.has(r@[k])
                && self.get(r@[k]).data.content.thesis_id == thesis_id,
            forall|i: int| 0 <= i < self.len() && self.of_thesis(i, thesis_id) ==> r@.contains(
                self.entities@[i].id,
            ),
            forall|a: int, b: int| 0 <= a < b < r@.len() ==> r@[a] != r@[b],
    {
        let mut r: Vec<u64> = Vec::new();
        let mut i: usize = 0;
        while i < self.entities.len()
            invariant
                self.wf(),
                i <= self.entities@.len(),
                forall|k: int| 0 <= k < r@.len() ==> self.has(r@[k])
                    && self.get(r@[k]).data.content.thesis_id == thesis_id,
                forall|j: int| 0 <= j < i && self.of_thesis(j, thesis_id) ==> r@.contains(
                    self.entities@[j].id,
                ),
                forall|a: int, b: int| 0 <= a < b < r@.len() ==> r@[a] != r@[b],
                forall|k: int| 0 <= k < r@.len() ==> self.idx(r@[k]) < i,
            decreases self.entities@.len() - i,
        {
            if self.entities[i].data.content.thesis_id == thesis_id {
                proof {
                    self.lemma_at(i as int);
                    assert(forall|k: int|
                        0 <= k < r@.len() ==> r@[k] != self.entities@[i as int].id);
                }
                let ghost r0 = r@;
                r.push(self.entities[i].id);
                proof {
                    assert forall|j: int|
                        0 <= j < i + 1 && self.of_thesis(j, thesis_id)
                        implies r@.contains(self.entities@[j].id) by {
                        if j < i {
                            assert(r0.contains(self.entities@[j].id));
                            let k = r0.index_of(self.entities@[j].id);
                            assert(r@[k] == self.entities@[j].id);
                        } else {
                            assert(r@[r@.len() - 1] == self.entities@[i as int].id);
                        }
                    }
                }
            }
            i += 1;
        }
        r
    }

    /// Delete every version of this thesis.
    pub fn delete_of_thesis(&mut self, thesis_id: u64) -> (r: u64)
        requires
            old(self).wf(),
            old(self).entities@.len() <= u64::MAX,
        ensures
            final(self).wf(),
            final(self).next_id == old(self).next_id,
            forall|t: int| old(self).times_le(t) ==> final(self).times_le(t),
            forall|i: int| 0 <= i < final(self).len()
                ==> final(self).entities@[i].data.content.thesis_id != thesis_id,
            forall|x: u64| final(self).has(x) == (old(self).has(x)
                && old(self).get(x).data.content.thesis_id != thesis_id),
            forall|x: u64| old(self).has(x) && old(self).get(x).data.content.thesis_id
                != thesis_id ==> final(self).get(x) == old(self).get(x),
            r == old(self).len() - final(self).len(),
    {
        let ghost p = |e: Entity<Attached<Version>>| e.data.content.thesis_id == thesis_id;
        let ghost pre = *self;
        let mut kept: Vec<Entity<Attached<Version>>> = Vec::new();
        let mut deleted: u64 = 0;
        while self.entities.len() > 0
            invariant
                pre.wf(),
                pre.entities@.len() <= u64::MAX,
                p == (|e: Entity<Attached<Version>>| e.data.content.thesis_id == thesis_id),
                self.next_id == pre.next_id,
                deleted + kept@.len() + self.entities@.len() == pre.entities@.len(),
                pre.entities@ == pre.entities@.subrange(
                    0,
                    deleted + kept@.len(),
                ) + self.entities@,
                forall|k: int| 0 <= k < kept@.len()
                    ==> pre.entities@.subrange(0, deleted + kept@.len()).contains(kept@[k])
                        && !p(kept@[k]),
                forall|j: int| 0 <= j < deleted + kept@.len() && !p(pre.entities@[j])
                    ==> kept@.contains(pre.entities@[j]),
                forall|a: int, b: int| 0 <= a < b < kept@.len() ==> kept@[a] != kept@[b],
            decreases self.entities@.len(),
        {
            let ghost done = deleted + kept@.len() as int;
            let ghost before = self.entities@;
            let ghost kept0 = kept@;
            let e = self.entities.remove(0);
            proof {
                assert(pre.entities@[done] == e) by {
                    assert((pre.entities@.subrange(0, done) + before)[done] == before[0]);
                }
                assert(pre.entities@ =~= pre.entities@.subrange(0, done + 1) + self.entities@);
            }
            if e.data.content.thesis_id == thesis_id {
                deleted = deleted + 1;
                proof {
                    Collection::lemma_skip_step(pre.entities@, kept@, done, p);
                }
            } else {
                kept.push(e);
                proof {
                    Collection::lemma_keep_step(pre.entities@, kept0, kept@, done, p);
                }
            }
        }
        proof {
            assert(deleted + kept@.len() == pre.entities@.len());
        }
        self.entities = kept;
        proof {
            assert(pre.entities@.subrange(0, pre.entities@.len() as int) =~= pre.entities@);
            Collection::lemma_filtered(pre, *self, p);
        }
        deleted
    }

    /// The greatest (major, minor) pair among this thesis's versions, by the
    /// descending composite order; nothing when the thesis has no version.
    pub fn find_peak(&self, thesis_id: u64) -> (r: Option<(i32, i32)>)
        requires
            self.wf(),
        ensures
            match r {
                Some(p) => {
                    &&& exists|i: int|
                        0 <= i < self.len() && #[trigger] self.of_thesis(i, thesis_id)
                            && self.entities@[i].data.content.major_number == p.0
                            && self.entities@[i].data.content.minor_number == p.1
                    &&& forall|i: int|
                        0 <= i < self.len() && #[trigger] self.of_thesis(i, thesis_id)
                            ==> pair_le(
                            self.entities@[i].data.content.major_number,
                            self.entities@[i].data.content.minor_number,
                            p.0,
                            p.1,
                        )
                },
                None => forall|i: int|
                    0 <= i < self.len() ==> !#[trigger] self.of_thesis(i, thesis_id),
            },
    {
        let mut best: Option<(i32, i32)> = None;
        let mut i: usize = 0;
        while i < self.entities.len()
            invariant
                self.wf(),
                i <= self.entities@.len(),
                match best {
                    Some(p) => {
                        &&& exists|j: int|
                            0 <= j < i && #[trigger] self.of_thesis(j, thesis_id)
                                && self.entities@[j].data.content.major_number == p.0
                                && self.entities@[j].data.content.minor_number == p.1
                        &&& forall|j: int|
                            0 <= j < i && #[trigger] self.of_thesis(j, thesis_id) ==> pair_le(
                                self.entities@[j].data.content.major_number,
                                self.entities@[j].data.content.minor_number,
                                p.0,
                                p.1,
                            )
                    },
                    None => forall|j: int|
                        0 <= j < i ==> !#[trigger] self.of_thesis(j, thesis_id),
                },
            decreases self.entities@.len() - i,
        {
            if self.entities[i].data.content.thesis_id == thesis_id {
                let maj = self.entities[i].data.content.major_number;
                let min = self.entities[i].data.content.minor_number;
                match best {
                    None => {
                        best = Some((maj, min));
                        proof {
                            assert(self.of_thesis(i as int, thesis_id));
                        }
                    },
                    Some(p) => {
                        if p.0 < maj || (p.0 == maj && p.1 < min) {
                            best = Some((maj, min));
                            proof {
                                assert(self.of_thesis(i as int, thesis_id));
                            }
                        }
                    },
                }
            }
            i += 1;
        }
        best
    }

    /// Atomically put the version carrying `id` into `state`; everything
    /// else about it stays.
    pub fn set_state(&mut self, id: u64, state: VersionState, now: u64) -> (r: bool)
        requires
            old(self).wf(),
            old(self).times_le(now - 1),
        ensures
            final(self).wf(),
            final(self).times_le(now as int),
            final(self).next_id == old(self).next_id,
            r == old(self).has(id),
            final(self).entities@.len() == old(self).entities@.len(),
            !r ==> *final(self) == *old(self),
            forall|x: u64| final(self).has(x) == old(self).has(x),
            r ==> final(self).get(id) == (Entity {
                id,
                data: Attached {
                    creator_id: old(self).get(id).data.creator_id,
                    content: Version {
                        thesis_id: old(self).get(id).data.content.thesis_id,
                        release_id: old(self).get(id).data.content.release_id,
                        source_ids: old(self).get(id).data.content.source_ids,
                        major_number: old(self).get(id).data.content.major_number,
                        minor_number: old(self).get(id).data.content.minor_number,
                        state,
                        review_ids: old(self).get(id).data.content.review_ids,
                        downloads: old(self).get(id).data.content.downloads,
                    },
                },
                created_at: old(self).get(id).created_at,
                updated_at: now,
            }),
            r ==> old(self).get(id).updated_at < now,
            forall|x: u64| x != id && old(self).has(x) ==> final(self).get(x) == old(self).get(x),
    {
        match self.extract(id) {
            Some((i, e)) => {
                let ghost mid = *self;
                let ghost e0 = e;
                let Entity { id: eid, data, created_at, updated_at: _ } = e;
                let Attached { creator_id, content } = data;
                let Version {
                    thesis_id,
                    release_id,
                    source_ids,
                    major_number,
                    minor_number,
                    state: _,
                    review_ids,
                    downloads,
                } = content;
                let e2 = Entity {
                    id: eid,
                    data: Attached {
                        creator_id,
                        content: Version {
                            thesis_id,
                            release_id,
                            source_ids,
                            major_number,
                            minor_number,
                            state,
                            review_ids,
                            downloads,
                        },
                    },
                    created_at,
                    updated_at: now,
                };
                self.restore(i, e2);
                proof {
                    Collection::lemma_update_entity(*old(self), mid, *self, i as int, e0, e2, now);
                }
                true
            },
            None => false,
        }
    }

    /// Atomically record that `referee` has reviewed: the referee leaves
    /// the outstanding set and the new review joins the version's review
    /// ids; the reviewing pattern and everything else stay.
    pub fn record_review(&mut self, id: u64, referee: u64, review_id: u64, now: u64) -> (r: bool)
        requires
            old(self).wf(),
            old(self).times_le(now - 1),
            old(self).has(id) ==> old(self).get(id).data.content.wf()
                && old(self).get(id).data.content.state is Reviewing,
        ensures
            final(self).wf(),
            final(self).times_le(now as int),
            final(self).next_id == old(self).next_id,
            r == old(self).has(id),
            final(self).entities@.len() == old(self).entities@.len(),
            !r ==> *final(self) == *old(self),
            forall|x: u64| final(self).has(x) == old(self).has(x),
            r ==> {
                let pre = old(self).get(id);
                let post = final(self).get(id);
                let pre_rev = pre.data.content.state->Reviewing_0;
                &&& post.id == id
                &&& post.created_at == pre.created_at
                &&& post.updated_at == now
                &&& pre.updated_at < now
                &&& post.data.creator_id == pre.data.creator_id
                &&& post.data.content.thesis_id == pre.data.content.thesis_id
                &&& post.data.content.release_id == pre.data.content.release_id
                &&& post.data.content.source_ids == pre.data.content.source_ids
                &&& post.data.content.major_number == pre.data.content.major_number
                &&& post.data.content.minor_number == pre.data.content.minor_number
                &&& post.data.content.downloads == pre.data.content.downloads
                &&& post.data.content.state is Reviewing
                &&& post.data.content.state->Reviewing_0.pattern == pre_rev.pattern
                &&& post.data.content.state->Reviewing_0.remainder_ids.eset()
                    =~= pre_rev.remainder_ids.eset().remove(referee)
                &&& pre_rev.remainder_ids.has(referee)
                    ==> post.data.content.state->Reviewing_0.remainder_ids.elems().len()
                        == pre_rev.remainder_ids.elems().len() - 1
                &&& post.data.content.review_ids.eset()
                    =~= pre.data.content.review_ids.eset().insert(review_id)
                &&& post.data.content.wf()
            },
            forall|x: u64| x != id && old(self).has(x) ==> final(self).get(x) == old(self).get(x),
    {
        match self.extract(id) {
            Some((i, e)) => {
                let ghost mid = *self;
                let ghost e0 = e;
                let Entity { id: eid, data, created_at, updated_at: _ } = e;
                let Attached { creator_id, content } = data;
                let Version {
                    thesis_id,
                    release_id,
                    source_ids,
                    major_number,
                    minor_number,
                    state,
                    mut review_ids,
                    downloads,
                } = content;
                let new_state = match state {
                    VersionState::Reviewing(rv) => {
                        let Reviewing { mut remainder_ids, pattern } = rv;
                        remainder_ids.remove(referee);
                        VersionState::Reviewing(Reviewing { remainder_ids, pattern })
                    },
                    other => other,
                };
                review_ids.insert(review_id);
                let e2 = Entity {
                    id: eid,
                    data: Attached {
                        creator_id,
                        content: Version {
                            thesis_id,
                            release_id,
                            source_ids,
                            major_number,
                            minor_number,
                            state: new_state,
                            review_ids,
                            downloads,
                        },
                    },
                    created_at,
                    updated_at: now,
                };
                self.restore(i, e2);
                proof {
                    Collection::lemma_update_entity(*old(self), mid, *self, i as int, e0, e2, now);
                }
                true
            },
            None => false,
        }
    }

    /// Atomically count one more download of the version carrying `id`.
    pub fn inc_downloads(&mut self, id: u64, now: u64) -> (r: bool)
        requires
            old(self).wf(),
            old(self).times_le(now - 1),
            old(self).has(id) ==> old(self).get(id).data.content.downloads < i32::MAX,
        ensures
            final(self).wf(),
            final(self).times_le(now as int),
            final(self).next_id == old(self).next_id,
            r == old(self).has(id),
            final(self).entities@.len() == old(self).entities@.len(),
            !r ==> *final(self) == *old(self),
            forall|x: u64| final(self).has(x) == old(self).has(x),
            r ==> {
                let pre = old(self).get(id);
                let post = final(self).get(id);
                &&& post.id == id
                &&& post.created_at == pre.created_at
                &&& post.updated_at == now
                &&& pre.updated_at < now
                &&& post.data.creator_id == pre.data.creator_id
                &&& post.data.content.downloads == pre.data.content.downloads + 1
                &&& post.data.content.thesis_id == pre.data.content.thesis_id
                &&& post.data.content.release_id == pre.data.content.release_id
                &&& post.data.content.source_ids == pre.data.content.source_ids
                &&& post.data.content.major_number == pre.data.content.major_number
                &&& post.data.content.minor_number == pre.data.content.minor_number
                &&& post.data.content.state == pre.data.content.state
                &&& post.data.content.review_ids == pre.data.content.review_ids
            },
            forall|x: u64| x != id && old(self).has(x) ==> final(self).get(x) == old(self).get(x),
    {
        match self.extract(id) {
            Some((i, e)) => {
                let ghost mid = *self;
                let ghost e0 = e;
                let Entity { id: eid, data, created_at, updated_at: _ } = e;
                let Attached { creator_id, content } = data;
                let Version {
                    thesis_id,
                    release_id,
                    source_ids,
                    major_number,
                    minor_number,
                    state,
                    review_ids,
                    downloads,
                } = content;
                let e2 = Entity {
                    id: eid,
                    data: Attached {
                        creator_id,
                        content: Version {
                            thesis_id,
                            release_id,
                            source_ids,
                            major_number,
                            minor_number,
                            state,
                            review_ids,
                            downloads: downloads + 1,
                        },
                    },
                    created_at,
                    updated_at: now,
                };
                self.restore(i, e2);
                proof {
                    Collection::lemma_update_entity(*old(self), mid, *self, i as int, e0, e2, now);
                }
                true
            },
            None => false,
        }
    }
}

impl Countable for Version {
    open spec fn singular_spec() -> Seq<char> {
        "Version"@
    }

    open spec fn lower_spec() -> Seq<char> {
        "version"@
    }

    fn singular() -> &'static str {
        "Version"
    }

    fn lower_name() -> &'static str {
        "version"
    }
}

} // verus!
