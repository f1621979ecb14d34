//! The general laws of the store, stated once and proved from the
//! contracts the operations themselves carry.

use vstd::prelude::*;

use crate::crud::Patchable;
use crate::profile::{Notification, NotificationPatch};
use crate::store::Collection;
use crate::thesis::{ThesisIntroduction, ThesisIntroductionPatch};

verus! {

/// Updates move time strictly forward: when a well-formed collection whose
/// stamps all lie before `now` has the record `id` restamped with `now` by a
/// successful update, its `updated_at` strictly increases.
pub proof fn law_update_time_strictly_increases<D>(
    pre: Collection<D>,
    post: Collection<D>,
    id: u64,
    now: u64,
)
    requires
        pre.wf(),
        pre.times_le(now - 1),
        pre.has(id),
        post.has(id),
        post.get(id).updated_at == now,
    ensures
        post.get(id).updated_at > pre.get(id).updated_at,
{
    let i = pre.idx(id);
    pre.lemma_at(i);
    assert(pre.entities@[i].updated_at <= now - 1);
}

/// Inserting and then finding by the returned id yields the record just
/// stored: an id never used before, the identical data, and a creation time
/// equal to the update time.
pub proof fn law_insert_then_find<D>(pre: Collection<D>, post: Collection<D>, data: D, now: u64)
    requires
        pre.wf(),
        pre.times_le(now - 1),
        pre.next_id < u64::MAX,
        Collection::inserted(pre, post, data, now),
    ensures
        !pre.has(pre.next_id),
        post.has(pre.next_id),
        post.get(pre.next_id).data == data,
        post.get(pre.next_id).created_at == post.get(pre.next_id).updated_at,
{
    let id = pre.next_id;
    let n = pre.entities@.len() as int;
    assert(post.entities@[n].id == id);
    assert(post.wf()) by {
        assert forall|a: int, b: int|
            0 <= a < b < post.entities@.len()
            implies post.entities@[a].id != post.entities@[b].id by {
            if b == n {
                assert(post.entities@[a] == pre.entities@[a]);
            }
        }
    }
    post.lemma_at(n);
}

/// A patch that sets nothing changes nothing.
pub proof fn law_unset_patch_is_identity(t: ThesisIntroduction, p: ThesisIntroductionPatch)
    requires
        p.magazine_ids is None,
        p.doi is None,
        p.title is None,
        p.abstraction is None,
        p.keywords is None,
        p.author_ids is None,
        p.language is None,
    ensures
        t.patched_spec(p) == t,
{
}

/// A patch that sets one field sets exactly that field: every other field
/// of the patched value is the old one.
pub proof fn law_patch_sets_exactly(t: ThesisIntroduction, p: ThesisIntroductionPatch)
    requires
        p.title is Some,
        p.magazine_ids is None,
        p.doi is None,
        p.abstraction is None,
        p.keywords is None,
        p.author_ids is None,
        p.language is None,
    ensures
        t.patched_spec(p).title == p.title->0,
        t.patched_spec(p).magazine_ids == t.magazine_ids,
        t.patched_spec(p).doi == t.doi,
        t.patched_spec(p).abstraction == t.abstraction,
        t.patched_spec(p).keywords == t.keywords,
        t.patched_spec(p).author_ids == t.author_ids,
        t.patched_spec(p).language == t.language,
{
}

/// The pair a commit gives a new version — the peak's major number with the
/// minor number one past the peak's — is carried by no existing version of
/// the thesis, so the unique (thesis, major, minor) index is preserved.
pub proof fn law_peak_successor_is_fresh(db: crate::db::Db, thesis_id: u64, ma: i32, mi: i32)
    requires
        crate::workflow::is_peak(db, thesis_id, ma, mi),
        mi < i32::MAX,
    ensures
        forall|i: int|
            0 <= i < db.versions.len() && #[trigger] db.versions.of_thesis(i, thesis_id) ==> !(
            db.versions.entities@[i].data.content.major_number == ma
                && db.versions.entities@[i].data.content.minor_number == mi + 1),
{
    assert forall|i: int|
        0 <= i < db.versions.len() && #[trigger] db.versions.of_thesis(i, thesis_id) implies !(
    db.versions.entities@[i].data.content.major_number == ma
        && db.versions.entities@[i].data.content.minor_number == mi + 1) by {
        assert(crate::version::pair_le(
            db.versions.entities@[i].data.content.major_number,
            db.versions.entities@[i].data.content.minor_number,
            ma,
            mi,
        ));
    }
}

/// The nested form of the same law: an unset nested patch leaves the nested
/// value unchanged.
pub proof fn law_unset_nested_patch_is_identity(n: Notification, p: NotificationPatch)
    requires
        p.email is None,
        p.push is None,
    ensures
        n.patched_spec(p) == n,
{
}

} // verus!
