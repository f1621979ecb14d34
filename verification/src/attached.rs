//! The attachment envelope.
//!
//! Attached content is loosely linked to an optional creator.  When the
//! creator's profile goes away the content survives: the link is nulled by a
//! bulk update (soft disassociation), unlike owned content, which is hard
//! deleted with its owner.

use vstd::prelude::*;

use crate::store::{Collection, Entity};

verus! {

pub struct Attached<C> {
    pub creator_id: Option<u64>,
    pub content: C,
}

/// How many records of the prefix carry this creator.
pub open spec fn count_creator<C>(s: Seq<Entity<Attached<C>>>, c: u64) -> int
    decreases s.len(),
{
    if s.len() == 0 {
        0
    } else {
        count_creator(s.drop_last(), c) + if s.last().data.creator_id == Some(c) {
            1int
        } else {
            0int
        }
    }
}

/// The record after nulling its creator link at time `now`, if it carried
/// creator `c`; otherwise the record itself.
pub open spec fn creator_removed<C>(e: Entity<Attached<C>>, c: u64, now: u64) -> Entity<
    Attached<C>,
> {
    if e.data.creator_id == Some(c) {
        Entity {
            id: e.id,
            data: Attached { creator_id: None, content: e.data.content },
            created_at: e.created_at,
            updated_at: now,
        }
    } else {
        e
    }
}

impl<C> Collection<Attached<C>> {
    /// Null the creator link of every record this creator made; the pair of
    /// matched and modified counts comes back.  Content, ids and creation
    /// times stay; only touched records get a fresh `updated_at`.
    pub fn remove_creator_of_attached(&mut self, creator_id: u64, now: u64) -> (r: (u64, u64))
        requires
            old(self).wf(),
            old(self).times_le(now - 1),
            old(self).entities@.len() <= u64::MAX,
        ensures
            final(self).wf(),
            final(self).times_le(now as int),
            final(self).next_id == old(self).next_id,
            final(self).entities@.len() == old(self).entities@.len(),
            forall|k: int| 0 <= k < old(self).entities@.len()
                ==> final(self).entities@[k] == creator_removed(
                old(self).entities@[k],
                creator_id,
                now,
            ),
            r.0 == r.1,
            r.0 == count_creator(old(self).entities@, creator_id),
            forall|x: u64| final(self).has(x) == old(self).has(x),
    {
        let mut i: usize = 0;
        let mut matched: u64 = 0;
        while i < self.entities.len()
            invariant
                old(self).wf(),
                old(self).times_le(now - 1),
                old(self).entities@.len() <= u64::MAX,
                i <= self.entities@.len(),
                matched <= i,
                self.next_id == old(self).next_id,
                self.entities@.len() == old(self).entities@.len(),
                forall|k: int| 0 <= k < i ==> self.entities@[k] == creator_removed(
                    old(self).entities@[k],
                    creator_id,
                    now,
                ),
                forall|k: int| i <= k < self.entities@.len()
                    ==> self.entities@[k] == old(self).entities@[k],
                matched == count_creator(old(self).entities@.subrange(0, i as int), creator_id),
            decreases self.entities@.len() - i,
        {
            let ghost step = old(self).entities@.subrange(0, i as int);
            let ghost step1 = old(self).entities@.subrange(0, i + 1);
            proof {
                assert(step1.drop_last() =~= step);
                assert(step1.last() == old(self).entities@[i as int]);
            }
            let hit = match &self.entities[i].data.creator_id {
                Some(c) => *c == creator_id,
                None => false,
            };
            if hit {
                let ghost cur = self.entities@;
                let e = self.entities.remove(i);
                let Entity { id, data, created_at, updated_at: _ } = e;
                let Attached { creator_id: _, content } = data;
                let e2 = Entity {
                    id,
                    data: Attached { creator_id: None, content },
                    created_at,
                    updated_at: now,
                };
                self.entities.insert(i, e2);
                matched = matched + 1;
                proof {
                    assert(self.entities@ =~= cur.update(i as int, e2));
                }
            }
            i += 1;
        }
        proof {
            assert(old(self).entities@.subrange(0, i as int) =~= old(self).entities@);
            assert(final(self).wf()) by {
                assert(forall|k: int|
                    0 <= k < self.entities@.len() ==> self.entities@[k].id
                        == old(self).entities@[k].id);
                assert(forall|k: int|
                    0 <= k < self.entities@.len()
                        ==> self.entities@[k].created_at <= self.entities@[k].updated_at);
            }
            assert(final(self).times_le(now as int)) by {
                assert(forall|k: int|
                    0 <= k < self.entities@.len() ==> self.entities@[k].created_at <= now
                        && self.entities@[k].updated_at <= now);
            }
            assert forall|x: u64| final(self).has(x) == old(self).has(x) by {
                if old(self).has(x) {
                    let k = old(self).idx(x);
                    assert(self.entities@[k].id == x);
                }
                if self.has(x) {
                    let k = self.idx(x);
                    assert(old(self).entities@[k].id == x);
                }
            }
        }
        (matched, matched)
    }
}

} // verus!
