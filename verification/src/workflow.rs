//! The thesis-version review workflow.
//!
//! These are the operations a request handler reaches after the transport
//! layer has done its work: each takes the caller's authorization context
//! and plain values, decides, and speaks in the error taxonomy of the core.
//! Workflow-state violations become `BadRequest` exactly where they are
//! detected; authorization failures become `Forbidden`.

use vstd::prelude::*;

use crate::attached::Attached;
use crate::auth::{AuthInfo, Permission};
use crate::crud::Patchable;
use crate::db::{untouched_but_theses, Db};
use crate::errs::Error;
use crate::owned::Owned;
use crate::store::Entity;
use crate::thesis::{Thesis, ThesisIntroductionPatch, ThesisIntroductionPost};
use crate::util::ids_contain;
use crate::version::{pair_le, Reviewing, Version, VersionState};
use crate::views::{
    render_review, render_thesis, render_version, AttachedView, EntityView, OwnedView, ReviewView,
    ThesisView, VersionView,
};

verus! {

/// The thesis has no version at all.
pub open spec fn no_version_of(db: Db, thesis_id: u64) -> bool {
    forall|i: int|
        0 <= i < db.versions.len() ==> !#[trigger] db.versions.of_thesis(i, thesis_id)
}

/// (ma, mi) is the peak version number pair of the thesis: some version of
/// the thesis carries it, and no version of the thesis exceeds it in the
/// (major, minor) order.
pub open spec fn is_peak(db: Db, thesis_id: u64, ma: i32, mi: i32) -> bool {
    &&& exists|i: int|
        0 <= i < db.versions.len() && #[trigger] db.versions.of_thesis(i, thesis_id)
            && db.versions.entities@[i].data.content.major_number == ma
            && db.versions.entities@[i].data.content.minor_number == mi
    &&& forall|i: int|
        0 <= i < db.versions.len() && #[trigger] db.versions.of_thesis(i, thesis_id) ==> pair_le(
            db.versions.entities@[i].data.content.major_number,
            db.versions.entities@[i].data.content.minor_number,
            ma,
            mi,
        )
}

/// The caller may act on the thesis: an editor, its owner, or one of its
/// authors.
pub open spec fn thesis_allowed(auth: AuthInfo, e: Entity<Owned<Thesis>>) -> bool {
    ||| auth.permits(Permission::Publishing)
    ||| e.data.owner_id == auth.id
    ||| e.data.content.intro.author_ids@.contains(auth.id)
}

pub fn thesis_authenticate(auth: &AuthInfo, e: &Entity<Owned<Thesis>>) -> (r: bool)
    ensures
        r == thesis_allowed(*auth, *e),
{
    auth.permitted(Permission::Publishing) || e.data.owner_id == auth.id || ids_contain(
        &e.data.content.intro.author_ids,
        auth.id,
    )
}

/// The caller may read the thesis: it is public, or the caller may act on
/// it.
pub open spec fn thesis_visible(auth: AuthInfo, e: Entity<Owned<Thesis>>) -> bool {
    e.data.is_public || thesis_allowed(auth, e)
}

pub fn can_show_thesis(auth: &AuthInfo, e: &Entity<Owned<Thesis>>) -> (r: bool)
    ensures
        r == thesis_visible(*auth, *e),
{
    e.data.is_public || thesis_authenticate(auth, e)
}

/// The caller may delete the thesis: a public one takes an editor, a
/// private one its owner, an author or an editor.
pub open spec fn thesis_deletable(auth: AuthInfo, e: Entity<Owned<Thesis>>) -> bool {
    if e.data.is_public {
        auth.permits(Permission::Publishing)
    } else {
        thesis_allowed(auth, e)
    }
}

pub fn can_delete_thesis(auth: &AuthInfo, e: &Entity<Owned<Thesis>>) -> (r: bool)
    ensures
        r == thesis_deletable(*auth, *e),
{
    if e.data.is_public {
        auth.permitted(Permission::Publishing)
    } else {
        thesis_authenticate(auth, e)
    }
}

/// The caller may act on a paper collection: a manager, or its owner.
pub open spec fn collection_allowed<D>(
    auth: AuthInfo,
    e: Entity<Owned<crate::paper::PaperCollection<D>>>,
) -> bool {
    auth.permits(Permission::Managing) || e.data.owner_id == auth.id
}

pub fn collection_authenticate<D>(
    auth: &AuthInfo,
    e: &Entity<Owned<crate::paper::PaperCollection<D>>>,
) -> (r: bool)
    ensures
        r == collection_allowed(*auth, *e),
{
    auth.permitted(Permission::Managing) || e.data.owner_id == auth.id
}

/// The caller may read the version: a passed or historical version is open
/// to everyone; otherwise an editor, its committer, an outstanding referee
/// while it is under review, or an author of its thesis.
pub open spec fn version_visible(db: Db, auth: AuthInfo, e: Entity<Attached<Version>>) -> bool {
    match e.data.content.state {
        crate::version::VersionState::History => true,
        crate::version::VersionState::Passed(j) => j || version_visible_restricted(db, auth, e),
        _ => version_visible_restricted(db, auth, e),
    }
}

/// The restricted arm of [`version_visible`].
pub open spec fn version_visible_restricted(
    db: Db,
    auth: AuthInfo,
    e: Entity<Attached<Version>>,
) -> bool {
    ||| auth.permits(Permission::Publishing)
    ||| e.data.creator_id == Some(auth.id)
    ||| if e.data.content.state is Reviewing {
        e.data.content.state->Reviewing_0.remainder_ids.has(auth.id)
    } else {
        db.theses.has(e.data.content.thesis_id) && db.theses.get(
            e.data.content.thesis_id,
        ).data.content.intro.author_ids@.contains(auth.id)
    }
}

pub fn can_show_version(db: &Db, auth: &AuthInfo, e: &Entity<Attached<Version>>) -> (r: bool)
    requires
        db.wf(),
    ensures
        r == version_visible(*db, *auth, *e),
{
    match &e.data.content.state {
        crate::version::VersionState::History => true,
        crate::version::VersionState::Passed(true) => true,
        _ => {
            if auth.permitted(Permission::Publishing) || e.data.creator_id == Some(auth.id) {
                true
            } else {
                match &e.data.content.state {
                    crate::version::VersionState::Reviewing(rv) => rv.remainder_ids.contains(
                        auth.id,
                    ),
                    _ => {
                        match db.theses.lookup(e.data.content.thesis_id) {
                            Some(t) => ids_contain(&t.data.content.intro.author_ids, auth.id),
                            None => false,
                        }
                    },
                }
            }
        },
    }
}

/// The caller may read the review: its writer, or anyone who may read the
/// reviewed version.
pub open spec fn review_visible(
    db: Db,
    auth: AuthInfo,
    e: Entity<Attached<crate::review::Review>>,
) -> bool {
    ||| e.data.creator_id == Some(auth.id)
    ||| {
        let vid = e.data.content.version_id;
        db.versions.has(vid) && version_visible(db, auth, db.versions.get(vid))
    }
}

pub fn can_show_review(db: &Db, auth: &AuthInfo, e: &Entity<Attached<crate::review::Review>>)
    -> (r: bool)
    requires
        db.wf(),
    ensures
        r == review_visible(*db, *auth, *e),
{
    match &e.data.creator_id {
        Some(c) => {
            if *c == auth.id {
                return true;
            }
        },
        None => {},
    }
    match db.versions.lookup(e.data.content.version_id) {
        Some(v) => can_show_version(db, auth, v),
        None => false,
    }
}

impl Db {
    /// Show a thesis to a caller who may read it: the record's identity and
    /// timestamps around the read projection of its data.
    pub fn show_thesis(&self, auth: &AuthInfo, id: u64) -> (r: Result<
        EntityView<OwnedView<ThesisView>>,
        Error,
    >)
        requires
            self.wf(),
        ensures
            match r {
                Ok(v) => {
                    let e = self.theses.get(id);
                    &&& self.theses.has(id)
                    &&& thesis_visible(*auth, e)
                    &&& v.id == id
                    &&& v.create_time == e.created_at
                    &&& v.update_time == e.updated_at
                    &&& v.data.owner_id == e.data.owner_id
                    &&& v.data.is_public == e.data.is_public
                    &&& v.data.content.downloads == e.data.content.downloads
                    &&& v.data.content.intro.title == e.data.content.intro.title
                    &&& v.data.content.intro.abstraction == e.data.content.intro.abstraction
                    &&& v.data.content.intro.doi == e.data.content.intro.doi
                    &&& v.data.content.intro.keywords@ == e.data.content.intro.keywords@
                    &&& v.data.content.intro.author_ids@ == e.data.content.intro.author_ids@
                    &&& v.data.content.intro.language@ == e.data.content.intro.language@
                    &&& v.data.content.intro.magazine_ids.elems()
                        == e.data.content.intro.magazine_ids.elems()
                },
                Err(e) => {
                    &&& (e == Error::NotFound <==> !self.theses.has(id))
                    &&& (e == Error::Forbidden <==> self.theses.has(id) && !thesis_visible(
                        *auth,
                        self.theses.get(id),
                    ))
                    &&& (e == Error::NotFound || e == Error::Forbidden)
                },
            },
    {
        match self.theses.lookup(id) {
            None => Err(Error::NotFound),
            Some(e) => {
                if !can_show_thesis(auth, e) {
                    Err(Error::Forbidden)
                } else {
                    Ok(
                        EntityView::of(
                            e,
                            OwnedView {
                                owner_id: e.data.owner_id,
                                is_public: e.data.is_public,
                                content: render_thesis(&e.data.content),
                            },
                        ),
                    )
                }
            },
        }
    }

    /// Show a version to a caller who may read it.
    pub fn show_version(&self, auth: &AuthInfo, id: u64) -> (r: Result<
        EntityView<AttachedView<VersionView>>,
        Error,
    >)
        requires
            self.wf(),
        ensures
            match r {
                Ok(v) => {
                    let e = self.versions.get(id);
                    &&& self.versions.has(id)
                    &&& version_visible(*self, *auth, e)
                    &&& v.id == id
                    &&& v.create_time == e.created_at
                    &&& v.update_time == e.updated_at
                    &&& v.data.creator_id == e.data.creator_id
                    &&& v.data.content.thesis_id == e.data.content.thesis_id
                    &&& v.data.content.release_id == e.data.content.release_id
                    &&& v.data.content.source_ids@ == e.data.content.source_ids@
                    &&& v.data.content.major_number == e.data.content.major_number
                    &&& v.data.content.minor_number == e.data.content.minor_number
                    &&& v.data.content.review_ids@ == e.data.content.review_ids.elems()
                    &&& v.data.content.downloads == e.data.content.downloads
                },
                Err(e) => {
                    &&& (e == Error::NotFound <==> !self.versions.has(id))
                    &&& (e == Error::Forbidden <==> self.versions.has(id) && !version_visible(
                        *self,
                        *auth,
                        self.versions.get(id),
                    ))
                    &&& (e == Error::NotFound || e == Error::Forbidden)
                },
            },
    {
        match self.versions.lookup(id) {
            None => Err(Error::NotFound),
            Some(e) => {
                if !can_show_version(self, auth, e) {
                    Err(Error::Forbidden)
                } else {
                    Ok(
                        EntityView::of(
                            e,
                            AttachedView {
                                creator_id: e.data.creator_id,
                                content: render_version(&e.data.content),
                            },
                        ),
                    )
                }
            },
        }
    }

    /// Show a review to a caller who may read it.
    pub fn show_review(&self, auth: &AuthInfo, id: u64) -> (r: Result<
        EntityView<AttachedView<ReviewView>>,
        Error,
    >)
        requires
            self.wf(),
        ensures
            match r {
                Ok(v) => {
                    let e = self.reviews.get(id);
                    &&& self.reviews.has(id)
                    &&& review_visible(*self, *auth, e)
                    &&& v.id == id
                    &&& v.create_time == e.created_at
                    &&& v.update_time == e.updated_at
                    &&& v.data.creator_id == e.data.creator_id
                    &&& v.data.content.version_id == e.data.content.version_id
                    &&& v.data.content.criticism == e.data.content.criticism
                    &&& v.data.content.judgement == e.data.content.judgement
                },
                Err(e) => {
                    &&& (e == Error::NotFound <==> !self.reviews.has(id))
                    &&& (e == Error::Forbidden <==> self.reviews.has(id) && !review_visible(
                        *self,
                        *auth,
                        self.reviews.get(id),
                    ))
                    &&& (e == Error::NotFound || e == Error::Forbidden)
                },
            },
    {
        match self.reviews.lookup(id) {
            None => Err(Error::NotFound),
            Some(e) => {
                if !can_show_review(self, auth, e) {
                    Err(Error::Forbidden)
                } else {
                    Ok(
                        EntityView::of(
                            e,
                            AttachedView {
                                creator_id: e.data.creator_id,
                                content: render_review(&e.data.content),
                            },
                        ),
                    )
                }
            },
        }
    }

    /// Submit a new thesis.  Every magazine it names must exist, or the
    /// submission is a bad request and nothing is stored; on success the
    /// fresh id comes back and the thesis is private and owned by the
    /// caller.
    pub fn insert_thesis_checked(&mut self, auth: &AuthInfo, post: ThesisIntroductionPost) -> (r:
        Result<u64, Error>)
        requires
            old(self).wf(),
            post.magazine_ids.wf(),
            crate::util::strings_unique(post.language@),
        ensures
            final(self).wf(),
            match r {
                Ok(id) => {
                    &&& forall|m: u64|
                        post.magazine_ids.has(m) ==> old(self).magazines.has(m)
                    &&& final(self).clock == old(self).clock + 1
                    &&& untouched_but_theses(*old(self), *final(self))
                    &&& !old(self).theses.has(id)
                    &&& final(self).theses.has(id)
                    &&& final(self).theses.get(id) == (Entity {
                        id,
                        data: Owned {
                            owner_id: auth.id,
                            is_public: false,
                            content: Thesis::new_spec(post),
                        },
                        created_at: final(self).clock,
                        updated_at: final(self).clock,
                    })
                    &&& forall|x: u64|
                        final(self).theses.has(x) == (old(self).theses.has(x) || x == id)
                    &&& forall|x: u64|
                        x != id && old(self).theses.has(x) ==> final(self).theses.get(x)
                            == old(self).theses.get(x)
                },
                Err(e) => {
                    &&& *final(self) == *old(self)
                    &&& (e == Error::BadRequest <==> exists|m: u64|
                        post.magazine_ids.has(m) && !old(self).magazines.has(m))
                    &&& (e == Error::Store <==> !(exists|m: u64|
                        post.magazine_ids.has(m) && !old(self).magazines.has(m))
                        && old(self).clock == u64::MAX)
                    &&& (e == Error::BadRequest || e == Error::Store)
                },
            },
    {
        if !self.magazines.contains_all_ids(&post.magazine_ids) {
            return Err(Error::BadRequest);
        }
        self.insert_thesis(auth.id, post)
    }

    /// Submit a new magazine.  Every category it names must exist, or the
    /// submission is a bad request and nothing is stored.
    pub fn insert_magazine_checked(
        &mut self,
        auth: &AuthInfo,
        post: crate::paper::PaperCollectionPost<crate::paper::Magazine>,
    ) -> (r: Result<u64, Error>)
        requires
            old(self).wf(),
            post.category_ids.wf(),
            crate::util::strings_unique(post.detail.abbr@),
            crate::util::strings_unique(post.detail.language@),
        ensures
            final(self).wf(),
            match r {
                Ok(id) => {
                    &&& forall|c: u64| post.category_ids.has(c) ==> old(self).categories.has(c)
                    &&& crate::db::untouched_but_magazines(*old(self), *final(self))
                    &&& !old(self).magazines.has(id)
                    &&& final(self).magazines.has(id)
                    &&& final(self).magazines.get(id).data.owner_id == auth.id
                    &&& final(self).magazines.get(id).data.is_public == false
                    &&& forall|x: u64|
                        final(self).magazines.has(x) == (old(self).magazines.has(x) || x == id)
                },
                Err(e) => {
                    &&& *final(self) == *old(self)
                    &&& (e == Error::BadRequest <==> exists|c: u64|
                        post.category_ids.has(c) && !old(self).categories.has(c))
                    &&& (e == Error::Store <==> !(exists|c: u64|
                        post.category_ids.has(c) && !old(self).categories.has(c))
                        && old(self).clock == u64::MAX)
                    &&& (e == Error::BadRequest || e == Error::Store)
                },
            },
    {
        if !self.categories.contains_all_ids(&post.category_ids) {
            return Err(Error::BadRequest);
        }
        self.insert_magazine(auth.id, post)
    }

    /// Submit a new category; every category it names as a parent must
    /// exist.
    pub fn insert_category_checked(
        &mut self,
        auth: &AuthInfo,
        post: crate::paper::PaperCollectionPost<crate::paper::Category>,
    ) -> (r: Result<u64, Error>)
        requires
            old(self).wf(),
            post.category_ids.wf(),
        ensures
            final(self).wf(),
            match r {
                Ok(id) => {
                    &&& forall|c: u64| post.category_ids.has(c) ==> old(self).categories.has(c)
                    &&& crate::db::untouched_but_categories(*old(self), *final(self))
                    &&& !old(self).categories.has(id)
                    &&& final(self).categories.has(id)
                    &&& final(self).categories.get(id).data.owner_id == auth.id
                    &&& final(self).categories.get(id).data.is_public == false
                    &&& forall|x: u64|
                        final(self).categories.has(x) == (old(self).categories.has(x) || x == id)
                },
                Err(e) => {
                    &&& *final(self) == *old(self)
                    &&& (e == Error::BadRequest <==> exists|c: u64|
                        post.category_ids.has(c) && !old(self).categories.has(c))
                    &&& (e == Error::Store <==> !(exists|c: u64|
                        post.category_ids.has(c) && !old(self).categories.has(c))
                        && old(self).clock == u64::MAX)
                    &&& (e == Error::BadRequest || e == Error::Store)
                },
            },
    {
        if !self.categories.contains_all_ids(&post.category_ids) {
            return Err(Error::BadRequest);
        }
        self.insert_category(auth.id, post)
    }

    /// Patch a magazine.  The record must exist, a patch that renames its
    /// categories may only name existing ones, and the caller must be a
    /// manager or the owner.
    pub fn set_magazine_checked(
        &mut self,
        auth: &AuthInfo,
        id: u64,
        patch: crate::paper::PaperCollectionPatch<crate::paper::Magazine>,
    ) -> (r: Result<(), Error>)
        requires
            old(self).wf(),
            patch.category_ids is Some ==> patch.category_ids->0.wf(),
            patch.detail.abbr is Some ==> crate::util::strings_unique(patch.detail.abbr->0@),
            patch.detail.language is Some ==> crate::util::strings_unique(
                patch.detail.language->0@,
            ),
        ensures
            final(self).wf(),
            match r {
                Ok(_) => {
                    &&& old(self).magazines.has(id)
                    &&& collection_allowed(*auth, old(self).magazines.get(id))
                    &&& crate::db::untouched_but_magazines(*old(self), *final(self))
                    &&& forall|x: u64| final(self).magazines.has(x) == old(self).magazines.has(x)
                    &&& final(self).magazines.get(id).data.content == old(self).magazines.get(
                        id,
                    ).data.content.patched_spec(patch)
                    &&& final(self).magazines.get(id).data.owner_id == old(self).magazines.get(
                        id,
                    ).data.owner_id
                    &&& final(self).magazines.get(id).updated_at > old(self).magazines.get(
                        id,
                    ).updated_at
                    &&& forall|x: u64|
                        x != id && old(self).magazines.has(x) ==> final(self).magazines.get(x)
                            == old(self).magazines.get(x)
                },
                Err(e) => {
                    &&& *final(self) == *old(self)
                    &&& (e == Error::NotFound <==> !old(self).magazines.has(id))
                    &&& (e == Error::BadRequest <==> old(self).magazines.has(id)
                        && patch.category_ids is Some && exists|c: u64|
                        patch.category_ids->0.has(c) && !old(self).categories.has(c))
                    &&& (e == Error::Forbidden <==> old(self).magazines.has(id) && !(
                    patch.category_ids is Some && exists|c: u64|
                        patch.category_ids->0.has(c) && !old(self).categories.has(c))
                        && !collection_allowed(*auth, old(self).magazines.get(id)))
                    &&& (e == Error::Store <==> old(self).magazines.has(id) && !(
                    patch.category_ids is Some && exists|c: u64|
                        patch.category_ids->0.has(c) && !old(self).categories.has(c))
                        && collection_allowed(*auth, old(self).magazines.get(id))
                        && old(self).clock == u64::MAX)
                    &&& (e == Error::NotFound || e == Error::BadRequest || e == Error::Forbidden
                        || e == Error::Store)
                },
            },
    {
        let allowed: bool;
        match self.magazines.lookup(id) {
            None => {
                return Err(Error::NotFound);
            },
            Some(e) => {
                allowed = collection_authenticate(auth, e);
            },
        }
        match &patch.category_ids {
            Some(cs) => {
                if !self.categories.contains_all_ids(cs) {
                    return Err(Error::BadRequest);
                }
            },
            None => {},
        }
        if !allowed {
            return Err(Error::Forbidden);
        }
        self.set_magazine(id, patch)
    }

    /// Patch a category, under the same rules as a magazine.
    pub fn set_category_checked(
        &mut self,
        auth: &AuthInfo,
        id: u64,
        patch: crate::paper::PaperCollectionPatch<crate::paper::Category>,
    ) -> (r: Result<(), Error>)
        requires
            old(self).wf(),
            patch.category_ids is Some ==> patch.category_ids->0.wf(),
        ensures
            final(self).wf(),
            match r {
                Ok(_) => {
                    &&& old(self).categories.has(id)
                    &&& collection_allowed(*auth, old(self).categories.get(id))
                    &&& crate::db::untouched_but_categories(*old(self), *final(self))
                    &&& forall|x: u64|
                        final(self).categories.has(x) == old(self).categories.has(x)
                    &&& final(self).categories.get(id).data.content == old(self).categories.get(
                        id,
                    ).data.content.patched_spec(patch)
                    &&& final(self).categories.get(id).updated_at > old(self).categories.get(
                        id,
                    ).updated_at
                    &&& forall|x: u64|
                        x != id && old(self).categories.has(x) ==> final(self).categories.get(x)
                            == old(self).categories.get(x)
                },
                Err(e) => {
                    &&& *final(self) == *old(self)
                    &&& (e == Error::NotFound <==> !old(self).categories.has(id))
                    &&& (e == Error::BadRequest <==> old(self).categories.has(id)
                        && patch.category_ids is Some && exists|c: u64|
                        patch.category_ids->0.has(c) && !old(self).categories.has(c))
                    &&& (e == Error::Forbidden <==> old(self).categories.has(id) && !(
                    patch.category_ids is Some && exists|c: u64|
                        patch.category_ids->0.has(c) && !old(self).categories.has(c))
                        && !collection_allowed(*auth, old(self).categories.get(id)))
                    &&& (e == Error::Store <==> old(self).categories.has(id) && !(
                    patch.category_ids is Some && exists|c: u64|
                        patch.category_ids->0.has(c) && !old(self).categories.has(c))
                        && collection_allowed(*auth, old(self).categories.get(id))
                        && old(self).clock == u64::MAX)
                    &&& (e == Error::NotFound || e == Error::BadRequest || e == Error::Forbidden
                        || e == Error::Store)
                },
            },
    {
        let allowed: bool;
        match self.categories.lookup(id) {
            None => {
                return Err(Error::NotFound);
            },
            Some(e) => {
                allowed = collection_authenticate(auth, e);
            },
        }
        match &patch.category_ids {
            Some(cs) => {
                if !self.categories.contains_all_ids(cs) {
                    return Err(Error::BadRequest);
                }
            },
            None => {},
        }
        if !allowed {
            return Err(Error::Forbidden);
        }
        self.set_category(id, patch)
    }

    /// Delete a magazine and cascade.  The record must exist and the caller
    /// must be a manager or the owner.
    pub fn delete_magazine_checked(&mut self, auth: &AuthInfo, id: u64) -> (r: Result<u64, Error>)
        requires
            old(self).wf(),
        ensures
            final(self).wf(),
            match r {
                Ok(n) => {
                    &&& n == 1
                    &&& old(self).magazines.has(id)
                    &&& collection_allowed(*auth, old(self).magazines.get(id))
                    &&& !final(self).magazines.has(id)
                    &&& forall|x: u64|
                        final(self).magazines.has(x) == (old(self).magazines.has(x) && x != id)
                    &&& forall|x: u64| #[trigger] final(self).theses.has(x)
                        ==> !final(self).theses.get(x).data.content.intro.magazine_ids.has(id)
                },
                Err(e) => {
                    &&& *final(self) == *old(self)
                    &&& (e == Error::NotFound <==> !old(self).magazines.has(id))
                    &&& (e == Error::Forbidden <==> old(self).magazines.has(id)
                        && !collection_allowed(*auth, old(self).magazines.get(id)))
                    &&& (e == Error::Store <==> old(self).magazines.has(id)
                        && collection_allowed(*auth, old(self).magazines.get(id))
                        && old(self).clock == u64::MAX)
                    &&& (e == Error::NotFound || e == Error::Forbidden || e == Error::Store)
                },
            },
    {
        let allowed: bool;
        match self.magazines.lookup(id) {
            None => {
                return Err(Error::NotFound);
            },
            Some(e) => {
                allowed = collection_authenticate(auth, e);
            },
        }
        if !allowed {
            return Err(Error::Forbidden);
        }
        match self.delete_magazine_cascade(id) {
            Ok(n) => Ok(n),
            Err(e) => Err(e),
        }
    }

    /// Delete a category and cascade, under the same rules as a magazine.
    pub fn delete_category_checked(&mut self, auth: &AuthInfo, id: u64) -> (r: Result<u64, Error>)
        requires
            old(self).wf(),
        ensures
            final(self).wf(),
            old(self).clock <= final(self).clock <= old(self).clock + 2,
            match r {
                Ok(n) => {
                    &&& n == 1
                    &&& old(self).categories.has(id)
                    &&& collection_allowed(*auth, old(self).categories.get(id))
                    &&& !final(self).categories.has(id)
                    &&& forall|x: u64|
                        final(self).categories.has(x) == (old(self).categories.has(x) && x != id)
                    &&& forall|x: u64| #[trigger] final(self).categories.has(x)
                        ==> !final(self).categories.get(x).data.content.category_ids.has(id)
                    &&& forall|x: u64| #[trigger] final(self).magazines.has(x)
                        ==> !final(self).magazines.get(x).data.content.category_ids.has(id)
                },
                Err(e) => {
                    &&& (e == Error::NotFound <==> !old(self).categories.has(id))
                    &&& (e == Error::Forbidden <==> old(self).categories.has(id)
                        && !collection_allowed(*auth, old(self).categories.get(id)))
                    &&& (e == Error::NotFound || e == Error::Forbidden || e == Error::Store)
                    &&& (e != Error::Store ==> *final(self) == *old(self))
                    &&& (e == Error::Store ==> {
                        &&& old(self).categories.has(id)
                        &&& collection_allowed(*auth, old(self).categories.get(id))
                        &&& final(self).clock == u64::MAX
                        &&& forall|x: u64|
                            final(self).categories.has(x) == old(self).categories.has(x)
                        &&& forall|x: u64|
                            final(self).magazines.has(x) == old(self).magazines.has(x)
                    })
                },
            },
            old(self).categories.has(id) && collection_allowed(*auth, old(self).categories.get(id))
                && old(self).clock == u64::MAX ==> r is Err && r->Err_0 == Error::Store,
    {
        let allowed: bool;
        match self.categories.lookup(id) {
            None => {
                return Err(Error::NotFound);
            },
            Some(e) => {
                allowed = collection_authenticate(auth, e);
            },
        }
        if !allowed {
            return Err(Error::Forbidden);
        }
        match self.delete_category_cascade(id) {
            Ok(n) => Ok(n),
            Err(e) => Err(e),
        }
    }

    /// Patch a thesis.  The record must exist, a patch that renames its
    /// magazines may only name existing ones, and the caller must be allowed
    /// to act on the thesis.
    pub fn set_thesis_checked(&mut self, auth: &AuthInfo, id: u64, patch: ThesisIntroductionPatch)
        -> (r: Result<(), Error>)
        requires
            old(self).wf(),
            patch.magazine_ids is Some ==> patch.magazine_ids->0.wf(),
            patch.language is Some ==> crate::util::strings_unique(patch.language->0@),
        ensures
            final(self).wf(),
            match r {
                Ok(_) => {
                    &&& old(self).theses.has(id)
                    &&& thesis_allowed(*auth, old(self).theses.get(id))
                    &&& final(self).clock == old(self).clock + 1
                    &&& untouched_but_theses(*old(self), *final(self))
                    &&& forall|x: u64| final(self).theses.has(x) == old(self).theses.has(x)
                    &&& final(self).theses.get(id) == (Entity {
                        id,
                        data: Owned {
                            owner_id: old(self).theses.get(id).data.owner_id,
                            is_public: old(self).theses.get(id).data.is_public,
                            content: old(self).theses.get(id).data.content.patched_spec(patch),
                        },
                        created_at: old(self).theses.get(id).created_at,
                        updated_at: final(self).clock,
                    })
                    &&& final(self).theses.get(id).updated_at
                        > old(self).theses.get(id).updated_at
                    &&& forall|x: u64|
                        x != id && old(self).theses.has(x) ==> final(self).theses.get(x)
                            == old(self).theses.get(x)
                },
                Err(e) => {
                    &&& *final(self) == *old(self)
                    &&& (e == Error::NotFound <==> !old(self).theses.has(id))
                    &&& (e == Error::BadRequest <==> old(self).theses.has(id)
                        && patch.magazine_ids is Some && exists|m: u64|
                        patch.magazine_ids->0.has(m) && !old(self).magazines.has(m))
                    &&& (e == Error::Forbidden <==> old(self).theses.has(id) && !(
                    patch.magazine_ids is Some && exists|m: u64|
                        patch.magazine_ids->0.has(m) && !old(self).magazines.has(m))
                        && !thesis_allowed(*auth, old(self).theses.get(id)))
                    &&& (e == Error::Store <==> old(self).theses.has(id) && !(
                    patch.magazine_ids is Some && exists|m: u64|
                        patch.magazine_ids->0.has(m) && !old(self).magazines.has(m))
                        && thesis_allowed(*auth, old(self).theses.get(id))
                        && old(self).clock == u64::MAX)
                    &&& (e == Error::NotFound || e == Error::BadRequest || e == Error::Forbidden
                        || e == Error::Store)
                },
            },
    {
        let allowed: bool;
        match self.theses.lookup(id) {
            None => {
                return Err(Error::NotFound);
            },
            Some(e) => {
                allowed = thesis_authenticate(auth, e);
            },
        }
        match &patch.magazine_ids {
            Some(ms) => {
                if !self.magazines.contains_all_ids(ms) {
                    return Err(Error::BadRequest);
                }
            },
            None => {},
        }
        if !allowed {
            return Err(Error::Forbidden);
        }
        self.set_thesis(id, patch)
    }

    /// Delete a thesis and cascade.  The record must exist and the caller
    /// must be allowed to delete it; the windup runs before the record goes.
    pub fn delete_thesis_checked(&mut self, auth: &AuthInfo, id: u64) -> (r: Result<u64, Error>)
        requires
            old(self).wf(),
        ensures
            final(self).wf(),
            match r {
                Ok(n) => {
                    &&& n == 1
                    &&& old(self).theses.has(id)
                    &&& thesis_deletable(*auth, old(self).theses.get(id))
                    &&& final(self).clock == old(self).clock
                    &&& final(self).profiles == old(self).profiles
                    &&& final(self).categories == old(self).categories
                    &&& final(self).magazines == old(self).magazines
                    &&& !final(self).theses.has(id)
                    &&& forall|x: u64|
                        final(self).theses.has(x) == (old(self).theses.has(x) && x != id)
                    &&& forall|v: u64|
                        final(self).versions.has(v) == (old(self).versions.has(v)
                            && old(self).versions.get(v).data.content.thesis_id != id)
                    &&& forall|x: u64|
                        final(self).reviews.has(x) == (old(self).reviews.has(x)
                            && !crate::db::review_of_thesis(*old(self), x, id))
                },
                Err(e) => {
                    &&& *final(self) == *old(self)
                    &&& (e == Error::NotFound <==> !old(self).theses.has(id))
                    &&& (e == Error::Forbidden <==> old(self).theses.has(id)
                        && !thesis_deletable(*auth, old(self).theses.get(id)))
                    &&& (e == Error::NotFound || e == Error::Forbidden)
                },
            },
    {
        let allowed: bool;
        match self.theses.lookup(id) {
            None => {
                return Err(Error::NotFound);
            },
            Some(e) => {
                allowed = can_delete_thesis(auth, e);
            },
        }
        if !allowed {
            return Err(Error::Forbidden);
        }
        let n = self.delete_thesis_cascade(id);
        Ok(n)
    }

    /// Commit a new version under a thesis.  The thesis must exist and the
    /// caller must be allowed to act on it.  The new version starts
    /// `Uploaded`; its minor number is one past the peak version's, its
    /// major number is carried over, and a thesis with no version starts at
    /// (0, 1).  A minor number already at the numeric ceiling is an
    /// unhandled edge: the contract rules it out rather than guarding it
    /// silently.
    pub fn commit(
        &mut self,
        auth: &AuthInfo,
        thesis_id: u64,
        release_id: u64,
        source_ids: Vec<u64>,
    ) -> (r: Result<u64, Error>)
        requires
            old(self).wf(),
            forall|i: int|
                0 <= i < old(self).versions.len()
                    ==> old(self).versions.entities@[i].data.content.minor_number < i32::MAX,
        ensures
            final(self).wf(),
            match r {
                Ok(id) => {
                    &&& old(self).theses.has(thesis_id)
                    &&& thesis_allowed(*auth, old(self).theses.get(thesis_id))
                    &&& final(self).clock == old(self).clock + 1
                    &&& crate::db::untouched_but_versions(*old(self), *final(self))
                    &&& !old(self).versions.has(id)
                    &&& final(self).versions.has(id)
                    &&& forall|x: u64|
                        final(self).versions.has(x) == (old(self).versions.has(x) || x == id)
                    &&& forall|x: u64|
                        x != id && old(self).versions.has(x) ==> final(self).versions.get(x)
                            == old(self).versions.get(x)
                    &&& {
                        let v = final(self).versions.get(id);
                        &&& v.id == id
                        &&& v.created_at == final(self).clock
                        &&& v.updated_at == final(self).clock
                        &&& v.data.creator_id == Some(auth.id)
                        &&& v.data.content.thesis_id == thesis_id
                        &&& v.data.content.release_id == release_id
                        &&& v.data.content.source_ids@ == source_ids@
                        &&& v.data.content.state is Uploaded
                        &&& v.data.content.review_ids.elems() == Seq::<u64>::empty()
                        &&& v.data.content.downloads == 0
                        &&& no_version_of(*old(self), thesis_id)
                            ==> v.data.content.major_number == 0
                                && v.data.content.minor_number == 1
                        &&& forall|ma: i32, mi: i32|
                            is_peak(*old(self), thesis_id, ma, mi)
                                ==> v.data.content.major_number == ma
                                    && v.data.content.minor_number == mi + 1
                    }
                },
                Err(e) => {
                    &&& *final(self) == *old(self)
                    &&& (e == Error::NotFound <==> !old(self).theses.has(thesis_id))
                    &&& (e == Error::Forbidden <==> old(self).theses.has(thesis_id)
                        && !thesis_allowed(*auth, old(self).theses.get(thesis_id)))
                    &&& (e == Error::Store <==> old(self).theses.has(thesis_id)
                        && thesis_allowed(*auth, old(self).theses.get(thesis_id))
                        && old(self).clock == u64::MAX)
                    &&& (e == Error::NotFound || e == Error::Forbidden || e == Error::Store)
                },
            },
    {
        let allowed: bool;
        match self.theses.lookup(thesis_id) {
            None => {
                return Err(Error::NotFound);
            },
            Some(t) => {
                allowed = thesis_authenticate(auth, t);
            },
        }
        if !allowed {
            return Err(Error::Forbidden);
        }
        let peak = self.versions.find_peak(thesis_id);
        let major: i32;
        let minor: i32;
        match peak {
            None => {
                major = 0;
                minor = 1;
            },
            Some((ma, mi)) => {
                proof {
                    let i = choose|i: int|
                        0 <= i < self.versions.len() && #[trigger] self.versions.of_thesis(
                            i,
                            thesis_id,
                        ) && self.versions.entities@[i].data.content.major_number == ma
                            && self.versions.entities@[i].data.content.minor_number == mi;
                    assert(self.versions.entities@[i].data.content.minor_number < i32::MAX);
                }
                major = ma;
                minor = mi + 1;
            },
        }
        match self.tick() {
            None => Err(Error::Store),
            Some(now) => {
                let content = Version::fresh(thesis_id, release_id, source_ids, major, minor);
                let id = self.versions.insert_one(
                    Attached { creator_id: Some(auth.id), content },
                    now,
                );
                proof {
                    assert forall|x: u64| #[trigger] self.versions.has(x)
                        implies self.versions.get(x).data.content.wf() by {
                        if x != id {
                            assert(old(self).versions.has(x));
                            assert(self.versions.get(x) == old(self).versions.get(x));
                        }
                    }
                    assert forall|ma2: i32, mi2: i32|
                        is_peak(*old(self), thesis_id, ma2, mi2)
                        implies major == ma2 && minor == mi2 + 1 by {
                        match peak {
                            None => {
                                let i = choose|i: int|
                                    0 <= i < old(self).versions.len() && #[trigger] old(
                                        self,
                                    ).versions.of_thesis(i, thesis_id) && old(
                                        self,
                                    ).versions.entities@[i].data.content.major_number == ma2
                                        && old(
                                        self,
                                    ).versions.entities@[i].data.content.minor_number == mi2;
                                assert(false);
                            },
                            Some((ma, mi)) => {
                                assert(pair_le(ma, mi, ma2, mi2));
                                assert(pair_le(ma2, mi2, ma, mi));
                            },
                        }
                    }
                }
                Ok(id)
            },
        }
    }

    /// Send a version out for review.  Only an editor may; the version must
    /// exist and still be `Uploaded`, and every listed referee must have a
    /// profile.  On success the version enters `Reviewing` with the given
    /// referee set and pattern, and the ids of the referees to notify come
    /// back; notification delivery is the caller's fire-and-forget concern
    /// and no failure of it rolls the transition back.
    pub fn edit(&mut self, auth: &AuthInfo, id: u64, reviewing: Reviewing) -> (r: Result<
        Vec<u64>,
        Error,
    >)
        requires
            old(self).wf(),
            reviewing.remainder_ids.wf(),
        ensures
            final(self).wf(),
            match r {
                Ok(notices) => {
                    &&& auth.permits(Permission::Publishing)
                    &&& old(self).versions.has(id)
                    &&& old(self).versions.get(id).data.content.state is Uploaded
                    &&& forall|p: u64|
                        reviewing.remainder_ids.has(p) ==> old(self).profiles.has(p)
                    &&& notices@ == reviewing.remainder_ids.elems()
                    &&& final(self).clock == old(self).clock + 1
                    &&& crate::db::untouched_but_versions(*old(self), *final(self))
                    &&& forall|x: u64| final(self).versions.has(x) == old(self).versions.has(x)
                    &&& forall|x: u64|
                        x != id && old(self).versions.has(x) ==> final(self).versions.get(x)
                            == old(self).versions.get(x)
                    &&& {
                        let pre = old(self).versions.get(id);
                        let post = final(self).versions.get(id);
                        &&& post.id == id
                        &&& post.created_at == pre.created_at
                        &&& post.updated_at == final(self).clock
                        &&& post.updated_at > pre.updated_at
                        &&& post.data.creator_id == pre.data.creator_id
                        &&& post.data.content.thesis_id == pre.data.content.thesis_id
                        &&& post.data.content.release_id == pre.data.content.release_id
                        &&& post.data.content.source_ids == pre.data.content.source_ids
                        &&& post.data.content.major_number == pre.data.content.major_number
                        &&& post.data.content.minor_number == pre.data.content.minor_number
                        &&& post.data.content.review_ids == pre.data.content.review_ids
                        &&& post.data.content.downloads == pre.data.content.downloads
                        &&& post.data.content.state == VersionState::Reviewing(reviewing)
                    }
                },
                Err(e) => {
                    &&& *final(self) == *old(self)
                    &&& (e == Error::Forbidden <==> !auth.permits(Permission::Publishing))
                    &&& (e == Error::NotFound <==> auth.permits(Permission::Publishing)
                        && !old(self).versions.has(id))
                    &&& (e == Error::BadRequest <==> auth.permits(Permission::Publishing)
                        && old(self).versions.has(id) && (!(old(self).versions.get(
                        id,
                    ).data.content.state is Uploaded) || exists|p: u64|
                        reviewing.remainder_ids.has(p) && !old(self).profiles.has(p)))
                    &&& (e == Error::Store <==> auth.permits(Permission::Publishing)
                        && old(self).versions.has(id) && old(self).versions.get(
                        id,
                    ).data.content.state is Uploaded && !(exists|p: u64|
                        reviewing.remainder_ids.has(p) && !old(self).profiles.has(p))
                        && old(self).clock == u64::MAX)
                    &&& (e == Error::Forbidden || e == Error::NotFound || e == Error::BadRequest
                        || e == Error::Store)
                },
            },
    {
        if !auth.permitted(Permission::Publishing) {
            return Err(Error::Forbidden);
        }
        let uploaded: bool;
        match self.versions.lookup(id) {
            None => {
                return Err(Error::NotFound);
            },
            Some(v) => {
                uploaded = match &v.data.content.state {
                    VersionState::Uploaded => true,
                    _ => false,
                };
            },
        }
        if !uploaded {
            return Err(Error::BadRequest);
        }
        if !self.profiles.contains_all_ids(&reviewing.remainder_ids) {
            return Err(Error::BadRequest);
        }
        match self.tick() {
            None => Err(Error::Store),
            Some(now) => {
                let notices = reviewing.remainder_ids.duplicate();
                let _updated = self.versions.set_state(id, VersionState::Reviewing(reviewing), now);
                proof {
                    assert forall|x: u64| #[trigger] self.versions.has(x)
                        implies self.versions.get(x).data.content.wf() by {
                        if x != id {
                            assert(old(self).versions.has(x));
                            assert(self.versions.get(x) == old(self).versions.get(x));
                        }
                    }
                }
                Ok(notices.ids)
            },
        }
    }

    /// Adjudge a version.  Only an editor may; the version must exist and be
    /// adjudgeable: still `Uploaded`, or under editor review with no
    /// referee outstanding — outstanding editor quorum is a bad request and
    /// changes nothing.  On success the version is `Passed(judgement)`, and
    /// a passing judgement makes the parent thesis public if it still
    /// exists.
    pub fn adjudge(&mut self, auth: &AuthInfo, id: u64, judgement: bool) -> (r: Result<(), Error>)
        requires
            old(self).wf(),
        ensures
            final(self).wf(),
            old(self).clock <= final(self).clock <= old(self).clock + 2,
            match r {
                Ok(_) => {
                    &&& auth.permits(Permission::Publishing)
                    &&& old(self).versions.has(id)
                    &&& adjudgeable(old(self).versions.get(id).data.content.state)
                    &&& final(self).profiles == old(self).profiles
                    &&& final(self).categories == old(self).categories
                    &&& final(self).magazines == old(self).magazines
                    &&& final(self).reviews == old(self).reviews
                    &&& forall|x: u64| final(self).versions.has(x) == old(self).versions.has(x)
                    &&& forall|x: u64|
                        x != id && old(self).versions.has(x) ==> final(self).versions.get(x)
                            == old(self).versions.get(x)
                    &&& {
                        let pre = old(self).versions.get(id);
                        let post = final(self).versions.get(id);
                        &&& post.id == id
                        &&& post.created_at == pre.created_at
                        &&& post.updated_at > pre.updated_at
                        &&& post.data.creator_id == pre.data.creator_id
                        &&& post.data.content.thesis_id == pre.data.content.thesis_id
                        &&& post.data.content.release_id == pre.data.content.release_id
                        &&& post.data.content.source_ids == pre.data.content.source_ids
                        &&& post.data.content.major_number == pre.data.content.major_number
                        &&& post.data.content.minor_number == pre.data.content.minor_number
                        &&& post.data.content.review_ids == pre.data.content.review_ids
                        &&& post.data.content.downloads == pre.data.content.downloads
                        &&& post.data.content.state == VersionState::Passed(judgement)
                    }
                    &&& {
                        let tid = old(self).versions.get(id).data.content.thesis_id;
                        if judgement && old(self).theses.has(tid) {
                            &&& forall|x: u64|
                                final(self).theses.has(x) == old(self).theses.has(x)
                            &&& final(self).theses.get(tid).data.is_public == true
                            &&& final(self).theses.get(tid).data.content == old(
                                self,
                            ).theses.get(tid).data.content
                            &&& final(self).theses.get(tid).data.owner_id == old(
                                self,
                            ).theses.get(tid).data.owner_id
                            &&& forall|x: u64|
                                x != tid && old(self).theses.has(x) ==> final(self).theses.get(x)
                                    == old(self).theses.get(x)
                        } else {
                            final(self).theses == old(self).theses
                        }
                    }
                },
                Err(e) => {
                    &&& (e == Error::Forbidden <==> !auth.permits(Permission::Publishing))
                    &&& (e == Error::NotFound <==> auth.permits(Permission::Publishing)
                        && !old(self).versions.has(id))
                    &&& (e == Error::BadRequest <==> auth.permits(Permission::Publishing)
                        && old(self).versions.has(id) && !adjudgeable(
                        old(self).versions.get(id).data.content.state,
                    ))
                    &&& (e == Error::Forbidden || e == Error::NotFound || e == Error::BadRequest
                        || e == Error::Store)
                    &&& (e != Error::Store ==> *final(self) == *old(self))
                    &&& (e == Error::Store ==> {
                        let tid = old(self).versions.get(id).data.content.thesis_id;
                        &&& auth.permits(Permission::Publishing)
                        &&& old(self).versions.has(id)
                        &&& adjudgeable(old(self).versions.get(id).data.content.state)
                        &&& final(self).clock == u64::MAX
                        &&& final(self).profiles == old(self).profiles
                        &&& final(self).categories == old(self).categories
                        &&& final(self).magazines == old(self).magazines
                        &&& final(self).reviews == old(self).reviews
                        &&& final(self).versions == old(self).versions
                        &&& (final(self).theses == old(self).theses || (judgement && old(
                            self,
                        ).theses.has(tid) && (forall|x: u64|
                            final(self).theses.has(x) == old(self).theses.has(x))
                            && final(self).theses.get(tid).data.is_public == true
                            && final(self).theses.get(tid).data.owner_id == old(
                            self,
                        ).theses.get(tid).data.owner_id && final(self).theses.get(
                            tid,
                        ).data.content == old(self).theses.get(tid).data.content && (
                        forall|x: u64|
                            x != tid && old(self).theses.has(x) ==> final(self).theses.get(x)
                                == old(self).theses.get(x))))
                    })
                },
            },
            auth.permits(Permission::Publishing) && old(self).versions.has(id) && adjudgeable(
                old(self).versions.get(id).data.content.state,
            ) && old(self).clock == u64::MAX ==> r is Err && r->Err_0 == Error::Store,
    {
        if !auth.permitted(Permission::Publishing) {
            return Err(Error::Forbidden);
        }
        let ok_state: bool;
        let thesis_id: u64;
        match self.versions.lookup(id) {
            None => {
                return Err(Error::NotFound);
            },
            Some(v) => {
                thesis_id = v.data.content.thesis_id;
                ok_state = match &v.data.content.state {
                    VersionState::Uploaded => true,
                    VersionState::Reviewing(rv) => match rv.pattern {
                        crate::version::ReviewPattern::Editor => rv.remainder_ids.is_empty(),
                        crate::version::ReviewPattern::Reviewer => false,
                    },
                    _ => false,
                };
            },
        }
        if !ok_state {
            return Err(Error::BadRequest);
        }
        if judgement {
            match self.set_thesis_visibility(thesis_id, true) {
                Ok(_) => {},
                Err(Error::Store) => {
                    return Err(Error::Store);
                },
                Err(_) => {},
            }
        }
        match self.tick() {
            None => Err(Error::Store),
            Some(now) => {
                let _updated = self.versions.set_state(id, VersionState::Passed(judgement), now);
                proof {
                    assert forall|x: u64| #[trigger] self.versions.has(x)
                        implies self.versions.get(x).data.content.wf() by {
                        if x != id {
                            assert(old(self).versions.has(x));
                        }
                    }
                }
                Ok(())
            },
        }
    }

    /// File a review on a version.  The version must exist, be under review,
    /// and count the caller among its outstanding referees — anyone else is
    /// forbidden and no review is stored.  On success the review is stored
    /// under the caller's name, the caller atomically leaves the outstanding
    /// set while the review joins the version's review ids, and the count of
    /// referees still outstanding comes back with the new review's id.
    /// When the last outstanding referee of a referee-pattern review
    /// judges in favour and every earlier referenced review also judged in
    /// favour, the parent thesis becomes public if it still exists.
    pub fn review(&mut self, auth: &AuthInfo, id: u64, entry: crate::review::Review) -> (r: Result<
        (u64, usize),
        Error,
    >)
        requires
            old(self).wf(),
        ensures
            final(self).wf(),
            old(self).clock <= final(self).clock <= old(self).clock + 3,
            match r {
                Ok(rc) => {
                    let rid = rc.0;
                    let count = rc.1;
                    let pre_v = old(self).versions.get(id);
                    let pre_rev = pre_v.data.content.state->Reviewing_0;
                    &&& old(self).versions.has(id)
                    &&& pre_v.data.content.state is Reviewing
                    &&& pre_rev.remainder_ids.has(auth.id)
                    &&& count as int == pre_rev.remainder_ids.elems().len() - 1
                    &&& !old(self).reviews.has(rid)
                    &&& final(self).reviews.has(rid)
                    &&& final(self).reviews.get(rid).data.creator_id == Some(auth.id)
                    &&& final(self).reviews.get(rid).data.content == entry
                    &&& forall|x: u64|
                        final(self).reviews.has(x) == (old(self).reviews.has(x) || x == rid)
                    &&& forall|x: u64|
                        x != rid && old(self).reviews.has(x) ==> final(self).reviews.get(x)
                            == old(self).reviews.get(x)
                    &&& forall|x: u64| final(self).versions.has(x) == old(self).versions.has(x)
                    &&& forall|x: u64|
                        x != id && old(self).versions.has(x) ==> final(self).versions.get(x)
                            == old(self).versions.get(x)
                    &&& {
                        let post_v = final(self).versions.get(id);
                        &&& post_v.id == id
                        &&& post_v.created_at == pre_v.created_at
                        &&& post_v.updated_at > pre_v.updated_at
                        &&& post_v.data.creator_id == pre_v.data.creator_id
                        &&& post_v.data.content.thesis_id == pre_v.data.content.thesis_id
                        &&& post_v.data.content.release_id == pre_v.data.content.release_id
                        &&& post_v.data.content.source_ids == pre_v.data.content.source_ids
                        &&& post_v.data.content.major_number == pre_v.data.content.major_number
                        &&& post_v.data.content.minor_number == pre_v.data.content.minor_number
                        &&& post_v.data.content.downloads == pre_v.data.content.downloads
                        &&& post_v.data.content.state is Reviewing
                        &&& post_v.data.content.state->Reviewing_0.pattern == pre_rev.pattern
                        &&& post_v.data.content.state->Reviewing_0.remainder_ids.eset()
                            =~= pre_rev.remainder_ids.eset().remove(auth.id)
                        &&& post_v.data.content.review_ids.eset()
                            =~= pre_v.data.content.review_ids.eset().insert(rid)
                    }
                    &&& final(self).profiles == old(self).profiles
                    &&& final(self).categories == old(self).categories
                    &&& final(self).magazines == old(self).magazines
                    &&& {
                        let tid = pre_v.data.content.thesis_id;
                        let promote = count == 0 && entry.judgement && pre_rev.pattern
                            == crate::version::ReviewPattern::Reviewer && quorum_all_true(
                            old(self).reviews,
                            pre_v.data.content.review_ids.elems(),
                        );
                        if promote && old(self).theses.has(tid) {
                            &&& forall|x: u64|
                                final(self).theses.has(x) == old(self).theses.has(x)
                            &&& final(self).theses.get(tid).data.is_public == true
                            &&& final(self).theses.get(tid).data.owner_id == old(
                                self,
                            ).theses.get(tid).data.owner_id
                            &&& final(self).theses.get(tid).data.content == old(
                                self,
                            ).theses.get(tid).data.content
                            &&& forall|x: u64|
                                x != tid && old(self).theses.has(x) ==> final(self).theses.get(x)
                                    == old(self).theses.get(x)
                        } else {
                            final(self).theses == old(self).theses
                        }
                    }
                },
                Err(e) => {
                    &&& (e == Error::NotFound <==> !old(self).versions.has(id))
                    &&& (e == Error::Forbidden <==> old(self).versions.has(id) && !(old(
                        self,
                    ).versions.get(id).data.content.state is Reviewing && old(
                        self,
                    ).versions.get(id).data.content.state->Reviewing_0.remainder_ids.has(auth.id)))
                    &&& (e == Error::NotFound || e == Error::Forbidden || e == Error::Store)
                    &&& (e != Error::Store ==> *final(self) == *old(self))
                    &&& (e == Error::Store ==> {
                        &&& old(self).versions.has(id)
                        &&& old(self).versions.get(id).data.content.state is Reviewing
                        &&& old(self).versions.get(
                            id,
                        ).data.content.state->Reviewing_0.remainder_ids.has(auth.id)
                        &&& final(self).clock == u64::MAX
                        &&& final(self).profiles == old(self).profiles
                        &&& final(self).categories == old(self).categories
                        &&& final(self).magazines == old(self).magazines
                        &&& final(self).theses == old(self).theses
                        &&& forall|x: u64|
                            old(self).reviews.has(x) ==> final(self).reviews.has(x)
                                && final(self).reviews.get(x) == old(self).reviews.get(x)
                        &&& final(self).reviews.entities@.len() <= old(
                            self,
                        ).reviews.entities@.len() + 1
                        &&& forall|x: u64|
                            final(self).versions.has(x) == old(self).versions.has(x)
                        &&& forall|x: u64|
                            x != id && old(self).versions.has(x) ==> final(self).versions.get(x)
                                == old(self).versions.get(x)
                    })
                },
            },
            old(self).versions.has(id) && old(self).versions.get(
                id,
            ).data.content.state is Reviewing && old(self).versions.get(
                id,
            ).data.content.state->Reviewing_0.remainder_ids.has(auth.id) && old(self).clock
                == u64::MAX ==> r is Err && r->Err_0 == Error::Store,
    {
        let rem_len: usize;
        let pattern: crate::version::ReviewPattern;
        let thesis_id: u64;
        let rids: Vec<u64>;
        match self.versions.lookup(id) {
            None => {
                return Err(Error::NotFound);
            },
            Some(v) => {
                match &v.data.content.state {
                    VersionState::Reviewing(rv) => {
                        if !rv.remainder_ids.contains(auth.id) {
                            return Err(Error::Forbidden);
                        }
                        rem_len = rv.remainder_ids.len();
                        pattern = rv.pattern;
                        thesis_id = v.data.content.thesis_id;
                        rids = v.data.content.review_ids.duplicate().ids;
                    },
                    _ => {
                        return Err(Error::Forbidden);
                    },
                }
            },
        }
        proof {
            let rems = old(self).versions.get(id).data.content.state->Reviewing_0.remainder_ids;
            assert(rems.elems().len() >= 1) by {
                let k = rems.elems().index_of(auth.id);
                assert(rems.elems()[k] == auth.id);
            }
        }
        let judgement = entry.judgement;
        let review_id: u64;
        match self.tick() {
            None => {
                return Err(Error::Store);
            },
            Some(now) => {
                review_id = self.reviews.insert_one(
                    Attached { creator_id: Some(auth.id), content: entry },
                    now,
                );
            },
        }
        let ghost s1 = *self;
        match self.tick() {
            None => {
                return Err(Error::Store);
            },
            Some(now2) => {
                let _updated = self.versions.record_review(id, auth.id, review_id, now2);
                proof {
                    assert forall|x: u64| #[trigger] self.versions.has(x)
                        implies self.versions.get(x).data.content.wf() by {
                        if x != id {
                            assert(old(self).versions.has(x));
                        }
                    }
                }
            },
        }
        let ghost s2 = *self;
        let count = rem_len - 1;
        
        if count == 0 && judgement {
            let is_referee = match pattern {
                crate::version::ReviewPattern::Reviewer => true,
                crate::version::ReviewPattern::Editor => false,
            };
            if is_referee {
                let mut all = true;
                let mut i: usize = 0;
                while i < rids.len()
                    invariant
                        *self == s2,
                        s2.wf(),
                        i <= rids@.len(),
                        all == (forall|k: int|
                            0 <= k < i && s2.reviews.has(#[trigger] rids@[k])
                                ==> s2.reviews.get(rids@[k]).data.content.judgement),
                    decreases rids@.len() - i,
                {
                    let ghost all0 = all;
                    match self.reviews.lookup(rids[i]) {
                        Some(rv) => {
                            if !rv.data.content.judgement {
                                all = false;
                            }
                        },
                        None => {},
                    }
                    proof {
                        assert(all == (forall|k: int|
                            0 <= k < i + 1 && s2.reviews.has(#[trigger] rids@[k])
                                ==> s2.reviews.get(rids@[k]).data.content.judgement)) by {
                            if all {
                                assert forall|k: int|
                                    0 <= k < i + 1 && s2.reviews.has(#[trigger] rids@[k])
                                    implies s2.reviews.get(
                                        rids@[k],
                                    ).data.content.judgement by {
                                    if k < i {
                                        assert(all0);
                                    }
                                }
                            } else {
                                if all0 {
                                    assert(s2.reviews.has(rids@[i as int]) && !s2.reviews.get(
                                        rids@[i as int],
                                    ).data.content.judgement);
                                } else {
                                    let k = choose|k: int|
                                        0 <= k < i && s2.reviews.has(#[trigger] rids@[k])
                                            && !s2.reviews.get(
                                            rids@[k],
                                        ).data.content.judgement;
                                    assert(s2.reviews.has(rids@[k]));
                                }
                            }
                        }
                    }
                    i += 1;
                }
                proof {
                    assert(all == quorum_all_true(
                        old(self).reviews,
                        old(self).versions.get(id).data.content.review_ids.elems(),
                    )) by {
                        let rseq = rids@;
                        if all {
                            assert forall|k: int|
                                0 <= k < rseq.len() && old(self).reviews.has(#[trigger] rseq[k])
                                implies old(self).reviews.get(
                                    rseq[k],
                                ).data.content.judgement by {
                                assert(rseq[k] != review_id);
                                assert(s2.reviews.has(rseq[k]));
                                assert(s2.reviews.get(rseq[k]) == old(self).reviews.get(rseq[k]));
                            }
                        } else {
                            let k = choose|k: int|
                                0 <= k < rseq.len() && s2.reviews.has(#[trigger] rseq[k])
                                    && !s2.reviews.get(rseq[k]).data.content.judgement;
                            assert(s2.reviews.has(rseq[k]));
                            if rseq[k] == review_id {
                                assert(s2.reviews.get(rseq[k]).data.content.judgement);
                            } else {
                                assert(old(self).reviews.has(rseq[k]));
                                assert(old(self).reviews.get(rseq[k])
                                    == s2.reviews.get(rseq[k]));
                            }
                        }
                    }
                }
                if all {
                    match self.set_thesis_visibility(thesis_id, true) {
                        Ok(_) => {},
                        Err(Error::Store) => {
                            return Err(Error::Store);
                        },
                        Err(_) => {},
                    }
                }
            }
        }
        Ok((review_id, count))
    }

    /// Count one download of a version's release.  The version must exist;
    /// when its thesis still exists both download counters go up by one,
    /// and a version whose thesis is gone counts nothing.
    pub fn version_downloaded(&mut self, id: u64) -> (r: Result<bool, Error>)
        requires
            old(self).wf(),
            old(self).versions.has(id) ==> old(self).versions.get(id).data.content.downloads
                < i32::MAX,
            old(self).versions.has(id) && old(self).theses.has(
                old(self).versions.get(id).data.content.thesis_id,
            ) ==> old(self).theses.get(
                old(self).versions.get(id).data.content.thesis_id,
            ).data.content.downloads < i32::MAX,
        ensures
            final(self).wf(),
            old(self).clock <= final(self).clock <= old(self).clock + 2,
            match r {
                Ok(counted) => {
                    let tid = old(self).versions.get(id).data.content.thesis_id;
                    &&& old(self).versions.has(id)
                    &&& counted == old(self).theses.has(tid)
                    &&& final(self).profiles == old(self).profiles
                    &&& final(self).categories == old(self).categories
                    &&& final(self).magazines == old(self).magazines
                    &&& final(self).reviews == old(self).reviews
                    &&& !counted ==> final(self).theses == old(self).theses
                        && final(self).versions == old(self).versions
                    &&& counted ==> {
                        &&& forall|x: u64| final(self).theses.has(x) == old(self).theses.has(x)
                        &&& forall|x: u64|
                            final(self).versions.has(x) == old(self).versions.has(x)
                        &&& final(self).theses.get(tid).data.content.downloads == old(
                            self,
                        ).theses.get(tid).data.content.downloads + 1
                        &&& final(self).theses.get(tid).data.content.intro == old(
                            self,
                        ).theses.get(tid).data.content.intro
                        &&& final(self).theses.get(tid).data.is_public == old(self).theses.get(
                            tid,
                        ).data.is_public
                        &&& final(self).theses.get(tid).data.owner_id == old(self).theses.get(
                            tid,
                        ).data.owner_id
                        &&& forall|x: u64|
                            x != tid && old(self).theses.has(x) ==> final(self).theses.get(x)
                                == old(self).theses.get(x)
                        &&& final(self).versions.get(id).data.content.downloads == old(
                            self,
                        ).versions.get(id).data.content.downloads + 1
                        &&& final(self).versions.get(id).data.content.state == old(
                            self,
                        ).versions.get(id).data.content.state
                        &&& forall|x: u64|
                            x != id && old(self).versions.has(x) ==> final(self).versions.get(x)
                                == old(self).versions.get(x)
                    }
                },
                Err(e) => {
                    &&& (e == Error::NotFound <==> !old(self).versions.has(id))
                    &&& (e == Error::NotFound || e == Error::Store)
                    &&& (e == Error::NotFound ==> *final(self) == *old(self))
                    &&& (e == Error::Store ==> {
                        let tid = old(self).versions.get(id).data.content.thesis_id;
                        &&& old(self).versions.has(id)
                        &&& old(self).theses.has(tid)
                        &&& final(self).clock == u64::MAX
                        &&& final(self).profiles == old(self).profiles
                        &&& final(self).categories == old(self).categories
                        &&& final(self).magazines == old(self).magazines
                        &&& final(self).reviews == old(self).reviews
                        &&& final(self).versions == old(self).versions
                        &&& (final(self).theses == old(self).theses || ((forall|x: u64|
                            final(self).theses.has(x) == old(self).theses.has(x))
                            && final(self).theses.get(tid).data.content.downloads == old(
                            self,
                        ).theses.get(tid).data.content.downloads + 1 && final(self).theses.get(
                            tid,
                        ).data.content.intro == old(self).theses.get(tid).data.content.intro
                            && final(self).theses.get(tid).data.is_public == old(
                            self,
                        ).theses.get(tid).data.is_public && final(self).theses.get(
                            tid,
                        ).data.owner_id == old(self).theses.get(tid).data.owner_id && (
                        forall|x: u64|
                            x != tid && old(self).theses.has(x) ==> final(self).theses.get(x)
                                == old(self).theses.get(x))))
                    })
                },
            },
            old(self).versions.has(id) && old(self).theses.has(
                old(self).versions.get(id).data.content.thesis_id,
            ) && old(self).clock == u64::MAX ==> r is Err && r->Err_0 == Error::Store,
    {
        let thesis_id: u64;
        match self.versions.lookup(id) {
            None => {
                return Err(Error::NotFound);
            },
            Some(v) => {
                thesis_id = v.data.content.thesis_id;
            },
        }
        let thesis_there: bool;
        match self.theses.lookup(thesis_id) {
            None => {
                thesis_there = false;
            },
            Some(_) => {
                thesis_there = true;
            },
        }
        if !thesis_there {
            return Ok(false);
        }
        match self.tick() {
            None => {
                return Err(Error::Store);
            },
            Some(now) => {
                let _counted = self.theses.inc_downloads(thesis_id, now);
                proof {
                    assert forall|x: u64| #[trigger] self.theses.has(x)
                        implies self.theses.get(x).data.content.wf() by {
                        if x != thesis_id {
                            assert(old(self).theses.has(x));
                        } else {
                            assert(self.theses.get(x).data.content.intro == old(
                                self,
                            ).theses.get(x).data.content.intro);
                        }
                    }
                }
            },
        }
        match self.tick() {
            None => {
                return Err(Error::Store);
            },
            Some(now2) => {
                let _counted = self.versions.inc_downloads(id, now2);
                proof {
                    assert forall|x: u64| #[trigger] self.versions.has(x)
                        implies self.versions.get(x).data.content.wf() by {
                        if x != id {
                            assert(old(self).versions.has(x));
                        }
                    }
                }
            },
        }
        Ok(true)
    }
}

/// Every review of the given ids that the collection still holds judged in
/// favour; a dangling id constrains nothing.
pub open spec fn quorum_all_true(
    reviews: crate::store::Collection<Attached<crate::review::Review>>,
    rids: Seq<u64>,
) -> bool {
    forall|k: int|
        0 <= k < rids.len() && reviews.has(#[trigger] rids[k]) ==> reviews.get(
            rids[k],
        ).data.content.judgement
}

/// A version in this state can be adjudged: freshly uploaded, or under
/// editor review with no referee outstanding.
pub open spec fn adjudgeable(state: VersionState) -> bool {
    match state {
        VersionState::Uploaded => true,
        VersionState::Reviewing(rv) => rv.pattern == crate::version::ReviewPattern::Editor
            && rv.remainder_ids.elems().len() == 0,
        _ => false,
    }
}

} // verus!
