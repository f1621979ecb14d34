//! A review: one referee's judgement of one thesis version.

use vstd::prelude::*;

use crate::attached::Attached;
use crate::names::Countable;
use crate::store::{Collection, Entity};

verus! {

pub struct Review {
    pub version_id: u64,
    pub criticism: String,
    pub judgement: bool,
}

impl Countable for Review {
    open spec fn singular_spec() -> Seq<char> {
        "Review"@
    }

    open spec fn lower_spec() -> Seq<char> {
        "review"@
    }

    fn singular() -> &'static str {
        "Review"
    }

    fn lower_name() -> &'static str {
        "review"
    }
}

impl Collection<Attached<Review>> {
    /// Delete every review of this version; the windup of a version.
    pub fn delete_of_version(&mut self, version_id: u64) -> (r: u64)
        requires
            old(self).wf(),
            old(self).entities@.len() <= u64::MAX,
        ensures
            final(self).wf(),
            final(self).next_id == old(self).next_id,
            forall|t: int| old(self).times_le(t) ==> final(self).times_le(t),
            forall|i: int| 0 <= i < final(self).len()
                ==> final(self).entities@[i].data.content.version_id != version_id,
            forall|x: u64| final(self).has(x) == (old(self).has(x)
                && old(self).get(x).data.content.version_id != version_id),
            forall|x: u64| old(self).has(x) && old(self).get(x).data.content.version_id
                != version_id ==> final(self).get(x) == old(self).get(x),
            r == old(self).len() - final(self).len(),
    {
        let ghost p = |e: Entity<Attached<Review>>| e.data.content.version_id == version_id;
        let ghost pre = *self;
        let mut kept: Vec<Entity<Attached<Review>>> = Vec::new();
        let mut deleted: u64 = 0;
        while self.entities.len() > 0
            invariant
                pre.wf(),
                pre.entities@.len() <= u64::MAX,
                p == (|e: Entity<Attached<Review>>| e.data.content.version_id == version_id),
                self.next_id == pre.next_id,
                deleted + kept@.len() + self.entities@.len() == pre.entities@.len(),
                pre.entities@ == pre.entities@.subrange(
                    0,
                    deleted + kept@.len(),
                ) + self.entities@,
                forall|k: int| 0 <= k < kept@.len()
                    ==> pre.entities@.subrange(0, deleted + kept@.len()).contains(kept@[k])
                        && !p(kept@[k]),
                forall|j: int| 0 <= j < deleted + kept@.len() && !p(pre.entities@[j])
                    ==> kept@.contains(pre.entities@[j]),
                forall|a: int, b: int| 0 <= a < b < kept@.len() ==> kept@[a] != kept@[b],
            decreases self.entities@.len(),
        {
            let ghost done = deleted + kept@.len() as int;
            let ghost before = self.entities@;
            let ghost kept0 = kept@;
            let e = self.entities.remove(0);
            proof {
                assert(pre.entities@[done] == e) by {
                    assert((pre.entities@.subrange(0, done) + before)[done] == before[0]);
                }
                assert(pre.entities@ =~= pre.entities@.subrange(0, done + 1) + self.entities@);
            }
            if e.data.content.version_id == version_id {
                deleted = deleted + 1;
                proof {
                    Collection::lemma_skip_step(pre.entities@, kept@, done, p);
                }
            } else {
                kept.push(e);
                proof {
                    Collection::lemma_keep_step(pre.entities@, kept0, kept@, done, p);
                }
            }
        }
        proof {
            assert(deleted + kept@.len() == pre.entities@.len());
        }
        self.entities = kept;
        proof {
            assert(pre.entities@.subrange(0, pre.entities@.len() as int) =~= pre.entities@);
            Collection::lemma_filtered(pre, *self, p);
        }
        deleted
    }
}

} // verus!
