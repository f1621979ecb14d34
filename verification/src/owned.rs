//! The ownership envelope.
//!
//! Owned content belongs to exactly one owner and carries a visibility
//! flag; it starts private.  Deleting owned content runs a content-specific
//! cascade ("windup") first and deletes the record last; the cascades
//! themselves are wired up where the database knows all collections.

use vstd::prelude::*;

use crate::crud::{Patchable, Postable};
use crate::store::{Collection, Entity};

verus! {

pub struct Owned<C> {
    pub owner_id: u64,
    pub is_public: bool,
    pub content: C,
}

impl<C: Postable> Collection<Owned<C>> {
    /// Store a new owned record: the given owner, private, content built
    /// from the submission.
    pub fn insert_one_owned(&mut self, owner_id: u64, post: C::Post, now: u64) -> (r: u64)
        requires
            old(self).wf(),
            old(self).times_le(now - 1),
            old(self).next_id < u64::MAX,
        ensures
            r == old(self).next_id,
            !old(self).has(r),
            final(self).wf(),
            final(self).times_le(now as int),
            final(self).next_id == old(self).next_id + 1,
            final(self).entities@.len() == old(self).entities@.len() + 1,
            final(self).has(r),
            final(self).get(r) == (Entity {
                id: r,
                data: Owned { owner_id, is_public: false, content: C::posted_spec(post) },
                created_at: now,
                updated_at: now,
            }),
            forall|x: u64| final(self).has(x) == (old(self).has(x) || x == r),
            forall|x: u64| x != r && old(self).has(x) ==> final(self).get(x) == old(self).get(x),
    {
        let content = C::from_post(post);
        self.insert_one(Owned { owner_id, is_public: false, content }, now)
    }
}

impl<C: Patchable> Collection<Owned<C>> {
    /// Atomically land a patch on the content of the record carrying `id`;
    /// its owner and visibility stay, and it gets a fresh `updated_at`.
    pub fn set_content(&mut self, id: u64, patch: C::Patch, now: u64) -> (r: bool)
        requires
            old(self).wf(),
            old(self).times_le(now - 1),
        ensures
            final(self).wf(),
            final(self).times_le(now as int),
            final(self).next_id == old(self).next_id,
            r == old(self).has(id),
            final(self).entities@.len() == old(self).entities@.len(),
            !r ==> *final(self) == *old(self),
            forall|x: u64| final(self).has(x) == old(self).has(x),
            r ==> final(self).get(id) == (Entity {
                id,
                data: Owned {
                    owner_id: old(self).get(id).data.owner_id,
                    is_public: old(self).get(id).data.is_public,
                    content: old(self).get(id).data.content.patched_spec(patch),
                },
                created_at: old(self).get(id).created_at,
                updated_at: now,
            }),
            r ==> old(self).get(id).updated_at < now,
            forall|x: u64| x != id && old(self).has(x) ==> final(self).get(x) == old(self).get(x),
    {
        match self.extract(id) {
            Some((i, e)) => {
                let ghost mid = *self;
                let ghost e0 = e;
                let Entity { id: eid, data, created_at, updated_at: _ } = e;
                let Owned { owner_id, is_public, content } = data;
                let e2 = Entity {
                    id: eid,
                    data: Owned { owner_id, is_public, content: content.apply_patch(patch) },
                    created_at,
                    updated_at: now,
                };
                self.restore(i, e2);
                proof {
                    Collection::lemma_update_entity(*old(self), mid, *self, i as int, e0, e2, now);
                }
                true
            },
            None => false,
        }
    }
}

impl<C> Collection<Owned<C>> {
    /// Flip the visibility flag of the record carrying `id`; everything else
    /// about it, and every other record, stays as it was.
    pub fn set_visibility(&mut self, id: u64, is_public: bool, now: u64) -> (r: bool)
        requires
            old(self).wf(),
            old(self).times_le(now - 1),
        ensures
            final(self).wf(),
            final(self).times_le(now as int),
            final(self).next_id == old(self).next_id,
            r == old(self).has(id),
            final(self).entities@.len() == old(self).entities@.len(),
            !r ==> *final(self) == *old(self),
            forall|x: u64| final(self).has(x) == old(self).has(x),
            r ==> final(self).get(id) == (Entity {
                id,
                data: Owned {
                    owner_id: old(self).get(id).data.owner_id,
                    is_public,
                    content: old(self).get(id).data.content,
                },
                created_at: old(self).get(id).created_at,
                updated_at: now,
            }),
            r ==> old(self).get(id).updated_at < now,
            forall|x: u64| x != id && old(self).has(x) ==> final(self).get(x) == old(self).get(x),
    {
        match self.extract(id) {
            Some((i, e)) => {
                let ghost mid = *self;
                let Entity { id: eid, data, created_at, updated_at: _ } = e;
                let Owned { owner_id, is_public: _, content } = data;
                let e2 = Entity {
                    id: eid,
                    data: Owned { owner_id, is_public, content },
                    created_at,
                    updated_at: now,
                };
                self.restore(i, e2);
                proof {
                    Collection::lemma_update_entity(
                        *old(self), mid, *self, i as int, e, e2, now,
                    );
                }
                true
            },
            None => false,
        }
    }

    /// The ids of every record of this owner, oldest first.
    pub fn ids_of_owner(&self, owner_id: u64) -> (r: Vec<u64>)
        requires
            self.wf(),
        ensures
            forall|k: int| 0 <= k < r@.len() ==> self.has(r@[k])
                && self.get(r@[k]).data.owner_id == owner_id,
            forall|i: int| 0 <= i < self.len() && self.entities@[i].data.owner_id == owner_id
                ==> r@.contains(self.entities@[i].id),
            forall|a: int, b: int| 0 <= a < b < r@.len() ==> r@[a] != r@[b],
    {
        let mut r: Vec<u64> = Vec::new();
        let mut i: usize = 0;
        while i < self.entities.len()
            invariant
                self.wf(),
                i <= self.entities@.len(),
                forall|k: int| 0 <= k < r@.len() ==> self.has(r@[k])
                    && self.get(r@[k]).data.owner_id == owner_id,
                forall|j: int| 0 <= j < i && self.entities@[j].data.owner_id == owner_id
                    ==> r@.contains(self.entities@[j].id),
                forall|a: int, b: int| 0 <= a < b < r@.len() ==> r@[a] != r@[b],
                forall|k: int| 0 <= k < r@.len() ==> self.idx(r@[k]) < i,
            decreases self.entities@.len() - i,
        {
            if self.entities[i].data.owner_id == owner_id {
                proof {
                    self.lemma_at(i as int);
                    assert(forall|k: int|
                        0 <= k < r@.len() ==> r@[k] != self.entities@[i as int].id);
                }
                let ghost r0 = r@;
                r.push(self.entities[i].id);
                proof {
                    let id = self.entities@[i as int].id;
                    assert forall|j: int|
                        0 <= j < i + 1 && self.entities@[j].data.owner_id == owner_id
                        implies r@.contains(self.entities@[j].id) by {
                        if j < i {
                            assert(r0.contains(self.entities@[j].id));
                            let k = r0.index_of(self.entities@[j].id);
                            assert(r@[k] == self.entities@[j].id);
                        } else {
                            assert(r@[r@.len() - 1] == id);
                        }
                    }
                }
            }
            i += 1;
        }
        r
    }

    /// Delete every record of this owner; the count of deleted records comes
    /// back.  Records of other owners keep their place and their value.
    pub fn delete_of_owner(&mut self, owner_id: u64) -> (r: u64)
        requires
            old(self).wf(),
            old(self).entities@.len() <= u64::MAX,
        ensures
            final(self).wf(),
            final(self).next_id == old(self).next_id,
            forall|t: int| old(self).times_le(t) ==> final(self).times_le(t),
            forall|i: int| 0 <= i < final(self).len()
                ==> final(self).entities@[i].data.owner_id != owner_id,
            forall|x: u64| final(self).has(x)
                == (old(self).has(x) && old(self).get(x).data.owner_id != owner_id),
            forall|x: u64| old(self).has(x) && old(self).get(x).data.owner_id != owner_id
                ==> final(self).get(x) == old(self).get(x),
            r == old(self).len() - final(self).len(),
    {
        let ghost p = |e: Entity<Owned<C>>| e.data.owner_id == owner_id;
        let ghost pre = *self;
        let mut kept: Vec<Entity<Owned<C>>> = Vec::new();
        let mut deleted: u64 = 0;
        while self.entities.len() > 0
            invariant
                pre.wf(),
                pre.entities@.len() <= u64::MAX,
                p == (|e: Entity<Owned<C>>| e.data.owner_id == owner_id),
                self.next_id == pre.next_id,
                deleted + kept@.len() + self.entities@.len() == pre.entities@.len(),
                pre.entities@ == pre.entities@.subrange(
                    0,
                    deleted + kept@.len(),
                ) + self.entities@,
                forall|k: int| 0 <= k < kept@.len()
                    ==> pre.entities@.subrange(0, deleted + kept@.len()).contains(kept@[k])
                        && !p(kept@[k]),
                forall|j: int| 0 <= j < deleted + kept@.len() && !p(pre.entities@[j])
                    ==> kept@.contains(pre.entities@[j]),
                forall|a: int, b: int| 0 <= a < b < kept@.len() ==> kept@[a] != kept@[b],
            decreases self.entities@.len(),
        {
            let ghost done = deleted + kept@.len() as int;
            let ghost before = self.entities@;
            let ghost kept0 = kept@;
            let e = self.entities.remove(0);
            proof {
                assert(pre.entities@[done] == e) by {
                    assert((pre.entities@.subrange(0, done) + before)[done] == before[0]);
                }
                assert(pre.entities@ =~= pre.entities@.subrange(0, done + 1) + self.entities@);
            }
            if e.data.owner_id == owner_id {
                deleted = deleted + 1;
                proof {
                    Collection::lemma_skip_step(pre.entities@, kept@, done, p);
                }
            } else {
                kept.push(e);
                proof {
                    Collection::lemma_keep_step(pre.entities@, kept0, kept@, done, p);
                }
            }
        }
        proof {
            assert(deleted + kept@.len() == pre.entities@.len());
        }
        self.entities = kept;
        proof {
            assert(pre.entities@.subrange(0, pre.entities@.len() as int) =~= pre.entities@);
            Collection::lemma_filtered(pre, *self, p);
        }
        deleted
    }

}

} // verus!
