//! The database: one typed collection per content type, under one logical
//! clock.
//!
//! Every mutation advances the clock by one and stamps what it touches, so
//! stored timestamps never exceed the clock and `updated_at` strictly
//! increases across successful updates.  A mutation on an exhausted clock
//! fails with [`Error::Store`] and changes nothing: that is this model's
//! only store failure.  Multi-document cascades are sequences of such
//! single-document steps; they are not transactional, and a failure in the
//! middle leaves the steps already taken in place, which is why every
//! cascade step tolerates re-execution.

use vstd::prelude::*;

use crate::attached::Attached;
use crate::crud::{Patchable, Postable};
use crate::errs::Error;
use crate::owned::Owned;
use crate::paper::{Category, Magazine, PaperCollection, PaperCollectionPost};
use crate::profile::{BioPost, Profile, ProfilePatch};
use crate::review::Review;
use crate::store::{Collection, Entity};
use crate::thesis::{Thesis, ThesisIntroductionPatch, ThesisIntroductionPost};
use crate::version::Version;

verus! {

/// A collection in step with the database clock: well formed, every
/// timestamp at most the clock, and its id counter no further along than the
/// clock that fed it.
pub open spec fn col_ok<D>(c: Collection<D>, clock: u64) -> bool {
    &&& c.wf()
    &&& c.times_le(clock as int)
    &&& c.next_id <= clock
    &&& c.entities@.len() <= clock
}

pub struct Db {
    pub clock: u64,
    pub profiles: Collection<Profile>,
    pub categories: Collection<Owned<PaperCollection<Category>>>,
    pub magazines: Collection<Owned<PaperCollection<Magazine>>>,
    pub theses: Collection<Owned<Thesis>>,
    pub versions: Collection<Attached<Version>>,
    pub reviews: Collection<Attached<Review>>,
}

impl Db {
    pub open spec fn wf(self) -> bool {
        &&& col_ok(self.profiles, self.clock)
        &&& col_ok(self.categories, self.clock)
        &&& col_ok(self.magazines, self.clock)
        &&& col_ok(self.theses, self.clock)
        &&& col_ok(self.versions, self.clock)
        &&& col_ok(self.reviews, self.clock)
        &&& forall|i: int, j: int|
            0 <= i < j < self.profiles.len() ==> self.profiles.entities@[i].data.email@
                != self.profiles.entities@[j].data.email@
        &&& forall|x: u64|
            #[trigger] self.theses.has(x) ==> self.theses.get(x).data.content.wf()
        &&& forall|x: u64|
            #[trigger] self.versions.has(x) ==> self.versions.get(x).data.content.wf()
        &&& forall|x: u64|
            #[trigger] self.categories.has(x) ==> self.categories.get(x).data.content.wf()
        &&& forall|x: u64|
            #[trigger] self.magazines.has(x) ==> self.magazines.get(x).data.content.wf()
    }

    pub fn new() -> (r: Self)
        ensures
            r.wf(),
            r.clock == 0,
            r.profiles.len() == 0,
            r.categories.len() == 0,
            r.magazines.len() == 0,
            r.theses.len() == 0,
            r.versions.len() == 0,
            r.reviews.len() == 0,
    {
        Db {
            clock: 0,
            profiles: Collection { entities: Vec::new(), next_id: 0 },
            categories: Collection { entities: Vec::new(), next_id: 0 },
            magazines: Collection { entities: Vec::new(), next_id: 0 },
            theses: Collection { entities: Vec::new(), next_id: 0 },
            versions: Collection { entities: Vec::new(), next_id: 0 },
            reviews: Collection { entities: Vec::new(), next_id: 0 },
        }
    }

    /// Advance the clock for one mutation; an exhausted clock is the store
    /// failure.
    pub(crate) fn tick(&mut self) -> (r: Option<u64>)
        requires
            old(self).wf(),
        ensures
            match r {
                Some(now) => {
                    &&& old(self).clock < u64::MAX
                    &&& now == old(self).clock + 1
                    &&& final(self).clock == now
                    &&& final(self).profiles == old(self).profiles
                    &&& final(self).categories == old(self).categories
                    &&& final(self).magazines == old(self).magazines
                    &&& final(self).theses == old(self).theses
                    &&& final(self).versions == old(self).versions
                    &&& final(self).reviews == old(self).reviews
                    &&& final(self).wf()
                },
                None => *final(self) == *old(self) && old(self).clock == u64::MAX,
            },
    {
        if self.clock == u64::MAX {
            None
        } else {
            self.clock = self.clock + 1;
            Some(self.clock)
        }
    }

    /// Create a profile for this email, with default notification
    /// preferences and the submitted bio.  The email is the unique key of
    /// the profile collection: a second profile with the same email is
    /// refused as a conflict.
    pub fn insert_profile(&mut self, email: String, bio: BioPost) -> (r: Result<u64, Error>)
        requires
            old(self).wf(),
        ensures
            final(self).wf(),
            match r {
                Ok(id) => {
                    &&& !old(self).profiles.has_email(email@)
                    &&& old(self).clock < u64::MAX
                    &&& final(self).clock == old(self).clock + 1
                    &&& untouched_but_profiles(*old(self), *final(self))
                    &&& !old(self).profiles.has(id)
                    &&& final(self).profiles.has(id)
                    &&& final(self).profiles.get(id) == (Entity {
                        id,
                        data: Profile::new_spec(email, bio),
                        created_at: final(self).clock,
                        updated_at: final(self).clock,
                    })
                    &&& forall|x: u64|
                        final(self).profiles.has(x) == (old(self).profiles.has(x) || x == id)
                    &&& forall|x: u64|
                        x != id && old(self).profiles.has(x) ==> final(self).profiles.get(x)
                            == old(self).profiles.get(x)
                },
                Err(e) => {
                    &&& *final(self) == *old(self)
                    &&& (e == Error::Conflict <==> old(self).profiles.has_email(email@))
                    &&& (e == Error::Store <==> !old(self).profiles.has_email(email@)
                        && old(self).clock == u64::MAX)
                    &&& (e == Error::Conflict || e == Error::Store)
                },
            },
    {
        match self.profiles.find_by_email(&email) {
            Some(i) => {
                proof {
                    assert(old(self).profiles.has_email(email@));
                }
                Err(Error::Conflict)
            },
            None => {
                match self.tick() {
                    None => Err(Error::Store),
                    Some(now) => {
                        let id = self.profiles.insert_one(Profile::new(email, bio), now);
                        proof {
                            assert forall|i: int, j: int|
                                0 <= i < j < self.profiles.len()
                                implies self.profiles.entities@[i].data.email@
                                    != self.profiles.entities@[j].data.email@ by {
                                if j == self.profiles.len() - 1 {
                                    assert(self.profiles.entities@[i]
                                        == old(self).profiles.entities@[i]);
                                }
                            }
                        }
                        Ok(id)
                    },
                }
            },
        }
    }

    /// The profile keyed by this email, if any: profiles are looked up by
    /// their unique email at login.
    pub fn profile_by_email(&self, email: &String) -> (r: Option<&Entity<Profile>>)
        requires
            self.wf(),
        ensures
            match r {
                Some(e) => self.profiles.has(e.id) && *e == self.profiles.get(e.id)
                    && e.data.email@ == email@,
                None => !self.profiles.has_email(email@),
            },
    {
        match self.profiles.find_by_email(email) {
            Some(i) => {
                proof {
                    self.profiles.lemma_at(i as int);
                }
                Some(&self.profiles.entities[i])
            },
            None => None,
        }
    }

    /// Land a patch on the profile carrying `id`.
    pub fn set_profile(&mut self, id: u64, patch: ProfilePatch) -> (r: Result<(), Error>)
        requires
            old(self).wf(),
        ensures
            final(self).wf(),
            match r {
                Ok(_) => {
                    &&& old(self).profiles.has(id)
                    &&& old(self).clock < u64::MAX
                    &&& final(self).clock == old(self).clock + 1
                    &&& untouched_but_profiles(*old(self), *final(self))
                    &&& forall|x: u64| final(self).profiles.has(x) == old(self).profiles.has(x)
                    &&& final(self).profiles.get(id) == (Entity {
                        id,
                        data: old(self).profiles.get(id).data.patched_spec(patch),
                        created_at: old(self).profiles.get(id).created_at,
                        updated_at: final(self).clock,
                    })
                    &&& final(self).profiles.get(id).updated_at
                        > old(self).profiles.get(id).updated_at
                    &&& forall|x: u64|
                        x != id && old(self).profiles.has(x) ==> final(self).profiles.get(x)
                            == old(self).profiles.get(x)
                },
                Err(e) => {
                    &&& *final(self) == *old(self)
                    &&& (e == Error::NotFound <==> !old(self).profiles.has(id))
                    &&& (e == Error::Store <==> old(self).profiles.has(id)
                        && old(self).clock == u64::MAX)
                    &&& (e == Error::NotFound || e == Error::Store)
                },
            },
    {
        match self.profiles.find_index(id) {
            None => Err(Error::NotFound),
            Some(_) => {
                match self.tick() {
                    None => Err(Error::Store),
                    Some(now) => {
                        let _updated = self.profiles.set_data(id, patch, now);
                        proof {
                            assert forall|i: int, j: int|
                                0 <= i < j < self.profiles.len()
                                implies self.profiles.entities@[i].data.email@
                                    != self.profiles.entities@[j].data.email@ by {
                                Self::lemma_emails_stay_distinct(
                                    old(self).profiles,
                                    self.profiles,
                                    i,
                                    j,
                                );
                            }
                        }
                        Ok(())
                    },
                }
            },
        }
    }

    /// Store a new private thesis for this owner.
    pub fn insert_thesis(&mut self, owner_id: u64, post: ThesisIntroductionPost) -> (r: Result<
        u64,
        Error,
    >)
        requires
            old(self).wf(),
            post.magazine_ids.wf(),
            crate::util::strings_unique(post.language@),
        ensures
            final(self).wf(),
            match r {
                Ok(id) => {
                    &&& old(self).clock < u64::MAX
                    &&& final(self).clock == old(self).clock + 1
                    &&& untouched_but_theses(*old(self), *final(self))
                    &&& !old(self).theses.has(id)
                    &&& final(self).theses.has(id)
                    &&& final(self).theses.get(id) == (Entity {
                        id,
                        data: Owned {
                            owner_id,
                            is_public: false,
                            content: Thesis::new_spec(post),
                        },
                        created_at: final(self).clock,
                        updated_at: final(self).clock,
                    })
                    &&& forall|x: u64|
                        final(self).theses.has(x) == (old(self).theses.has(x) || x == id)
                    &&& forall|x: u64|
                        x != id && old(self).theses.has(x) ==> final(self).theses.get(x)
                            == old(self).theses.get(x)
                },
                Err(e) => {
                    &&& *final(self) == *old(self)
                    &&& e == Error::Store
                    &&& old(self).clock == u64::MAX
                },
            },
    {
        match self.tick() {
            None => Err(Error::Store),
            Some(now) => {
                let id = self.theses.insert_one_owned(owner_id, post, now);
                proof {
                    assert forall|x: u64| #[trigger] self.theses.has(x)
                        implies self.theses.get(x).data.content.wf() by {
                        if x != id {
                            assert(old(self).theses.has(x));
                            assert(self.theses.get(x) == old(self).theses.get(x));
                        }
                    }
                }
                Ok(id)
            },
        }
    }

    /// Store a new private magazine for this owner.
    pub fn insert_magazine(&mut self, owner_id: u64, post: PaperCollectionPost<Magazine>) -> (r:
        Result<u64, Error>)
        requires
            old(self).wf(),
            post.category_ids.wf(),
            crate::util::strings_unique(post.detail.abbr@),
            crate::util::strings_unique(post.detail.language@),
        ensures
            final(self).wf(),
            match r {
                Ok(id) => {
                    &&& old(self).clock < u64::MAX
                    &&& final(self).clock == old(self).clock + 1
                    &&& untouched_but_magazines(*old(self), *final(self))
                    &&& !old(self).magazines.has(id)
                    &&& final(self).magazines.has(id)
                    &&& final(self).magazines.get(id) == (Entity {
                        id,
                        data: Owned {
                            owner_id,
                            is_public: false,
                            content: PaperCollection::<Magazine>::posted_spec(post),
                        },
                        created_at: final(self).clock,
                        updated_at: final(self).clock,
                    })
                    &&& forall|x: u64|
                        final(self).magazines.has(x) == (old(self).magazines.has(x) || x == id)
                    &&& forall|x: u64|
                        x != id && old(self).magazines.has(x) ==> final(self).magazines.get(x)
                            == old(self).magazines.get(x)
                },
                Err(e) => {
                    &&& *final(self) == *old(self)
                    &&& e == Error::Store
                    &&& old(self).clock == u64::MAX
                },
            },
    {
        match self.tick() {
            None => Err(Error::Store),
            Some(now) => {
                let id = self.magazines.insert_one_owned(owner_id, post, now);
                proof {
                    assert forall|x: u64| #[trigger] self.magazines.has(x)
                        implies self.magazines.get(x).data.content.wf() by {
                        if x != id {
                            assert(old(self).magazines.has(x));
                            assert(self.magazines.get(x) == old(self).magazines.get(x));
                        }
                    }
                }
                Ok(id)
            },
        }
    }

    /// Store a new private category for this owner.
    pub fn insert_category(&mut self, owner_id: u64, post: PaperCollectionPost<Category>) -> (r:
        Result<u64, Error>)
        requires
            old(self).wf(),
            post.category_ids.wf(),
        ensures
            final(self).wf(),
            match r {
                Ok(id) => {
                    &&& old(self).clock < u64::MAX
                    &&& final(self).clock == old(self).clock + 1
                    &&& untouched_but_categories(*old(self), *final(self))
                    &&& !old(self).categories.has(id)
                    &&& final(self).categories.has(id)
                    &&& final(self).categories.get(id) == (Entity {
                        id,
                        data: Owned {
                            owner_id,
                            is_public: false,
                            content: PaperCollection::<Category>::posted_spec(post),
                        },
                        created_at: final(self).clock,
                        updated_at: final(self).clock,
                    })
                    &&& forall|x: u64|
                        final(self).categories.has(x) == (old(self).categories.has(x) || x == id)
                    &&& forall|x: u64|
                        x != id && old(self).categories.has(x) ==> final(self).categories.get(x)
                            == old(self).categories.get(x)
                },
                Err(e) => {
                    &&& *final(self) == *old(self)
                    &&& e == Error::Store
                    &&& old(self).clock == u64::MAX
                },
            },
    {
        match self.tick() {
            None => Err(Error::Store),
            Some(now) => {
                let id = self.categories.insert_one_owned(owner_id, post, now);
                proof {
                    assert forall|x: u64| #[trigger] self.categories.has(x)
                        implies self.categories.get(x).data.content.wf() by {
                        if x != id {
                            assert(old(self).categories.has(x));
                            assert(self.categories.get(x) == old(self).categories.get(x));
                        }
                    }
                }
                Ok(id)
            },
        }
    }

    /// Land a patch on the introduction of the thesis carrying `id`.
    pub fn set_thesis(&mut self, id: u64, patch: ThesisIntroductionPatch) -> (r: Result<(), Error>)
        requires
            old(self).wf(),
            patch.magazine_ids is Some ==> patch.magazine_ids->0.wf(),
            patch.language is Some ==> crate::util::strings_unique(patch.language->0@),
        ensures
            final(self).wf(),
            match r {
                Ok(_) => {
                    &&& old(self).theses.has(id)
                    &&& old(self).clock < u64::MAX
                    &&& final(self).clock == old(self).clock + 1
                    &&& untouched_but_theses(*old(self), *final(self))
                    &&& forall|x: u64| final(self).theses.has(x) == old(self).theses.has(x)
                    &&& final(self).theses.get(id) == (Entity {
                        id,
                        data: Owned {
                            owner_id: old(self).theses.get(id).data.owner_id,
                            is_public: old(self).theses.get(id).data.is_public,
                            content: old(self).theses.get(id).data.content.patched_spec(patch),
                        },
                        created_at: old(self).theses.get(id).created_at,
                        updated_at: final(self).clock,
                    })
                    &&& final(self).theses.get(id).updated_at
                        > old(self).theses.get(id).updated_at
                    &&& forall|x: u64|
                        x != id && old(self).theses.has(x) ==> final(self).theses.get(x)
                            == old(self).theses.get(x)
                },
                Err(e) => {
                    &&& *final(self) == *old(self)
                    &&& (e == Error::NotFound <==> !old(self).theses.has(id))
                    &&& (e == Error::Store <==> old(self).theses.has(id)
                        && old(self).clock == u64::MAX)
                    &&& (e == Error::NotFound || e == Error::Store)
                },
            },
    {
        match self.theses.find_index(id) {
            None => Err(Error::NotFound),
            Some(_) => {
                match self.tick() {
                    None => Err(Error::Store),
                    Some(now) => {
                        let _updated = self.theses.set_content(id, patch, now);
                        proof {
                            assert forall|x: u64| #[trigger] self.theses.has(x)
                                implies self.theses.get(x).data.content.wf() by {
                                if x != id {
                                    assert(self.theses.get(x) == old(self).theses.get(x));
                                }
                            }
                        }
                        Ok(())
                    },
                }
            },
        }
    }

    /// Land a patch on the magazine collection record carrying `id`.
    pub fn set_magazine(&mut self, id: u64, patch: crate::paper::PaperCollectionPatch<Magazine>)
        -> (r: Result<(), Error>)
        requires
            old(self).wf(),
            patch.category_ids is Some ==> patch.category_ids->0.wf(),
            patch.detail.abbr is Some ==> crate::util::strings_unique(patch.detail.abbr->0@),
            patch.detail.language is Some ==> crate::util::strings_unique(
                patch.detail.language->0@,
            ),
        ensures
            final(self).wf(),
            match r {
                Ok(_) => {
                    &&& old(self).magazines.has(id)
                    &&& old(self).clock < u64::MAX
                    &&& final(self).clock == old(self).clock + 1
                    &&& untouched_but_magazines(*old(self), *final(self))
                    &&& forall|x: u64| final(self).magazines.has(x) == old(self).magazines.has(x)
                    &&& final(self).magazines.get(id) == (Entity {
                        id,
                        data: Owned {
                            owner_id: old(self).magazines.get(id).data.owner_id,
                            is_public: old(self).magazines.get(id).data.is_public,
                            content: old(self).magazines.get(id).data.content.patched_spec(patch),
                        },
                        created_at: old(self).magazines.get(id).created_at,
                        updated_at: final(self).clock,
                    })
                    &&& final(self).magazines.get(id).updated_at
                        > old(self).magazines.get(id).updated_at
                    &&& forall|x: u64|
                        x != id && old(self).magazines.has(x) ==> final(self).magazines.get(x)
                            == old(self).magazines.get(x)
                },
                Err(e) => {
                    &&& *final(self) == *old(self)
                    &&& (e == Error::NotFound <==> !old(self).magazines.has(id))
                    &&& (e == Error::Store <==> old(self).magazines.has(id)
                        && old(self).clock == u64::MAX)
                    &&& (e == Error::NotFound || e == Error::Store)
                },
            },
    {
        match self.magazines.find_index(id) {
            None => Err(Error::NotFound),
            Some(_) => {
                match self.tick() {
                    None => Err(Error::Store),
                    Some(now) => {
                        let _updated = self.magazines.set_content(id, patch, now);
                        proof {
                            assert forall|x: u64| #[trigger] self.magazines.has(x)
                                implies self.magazines.get(x).data.content.wf() by {
                                if x != id {
                                    assert(self.magazines.get(x) == old(self).magazines.get(x));
                                }
                            }
                        }
                        Ok(())
                    },
                }
            },
        }
    }

    /// Land a patch on the category collection record carrying `id`.
    pub fn set_category(&mut self, id: u64, patch: crate::paper::PaperCollectionPatch<Category>)
        -> (r: Result<(), Error>)
        requires
            old(self).wf(),
            patch.category_ids is Some ==> patch.category_ids->0.wf(),
        ensures
            final(self).wf(),
            match r {
                Ok(_) => {
                    &&& old(self).categories.has(id)
                    &&& old(self).clock < u64::MAX
                    &&& final(self).clock == old(self).clock + 1
                    &&& untouched_but_categories(*old(self), *final(self))
                    &&& forall|x: u64|
                        final(self).categories.has(x) == old(self).categories.has(x)
                    &&& final(self).categories.get(id) == (Entity {
                        id,
                        data: Owned {
                            owner_id: old(self).categories.get(id).data.owner_id,
                            is_public: old(self).categories.get(id).data.is_public,
                            content: old(self).categories.get(id).data.content.patched_spec(
                                patch,
                            ),
                        },
                        created_at: old(self).categories.get(id).created_at,
                        updated_at: final(self).clock,
                    })
                    &&& final(self).categories.get(id).updated_at
                        > old(self).categories.get(id).updated_at
                    &&& forall|x: u64|
                        x != id && old(self).categories.has(x) ==> final(self).categories.get(x)
                            == old(self).categories.get(x)
                },
                Err(e) => {
                    &&& *final(self) == *old(self)
                    &&& (e == Error::NotFound <==> !old(self).categories.has(id))
                    &&& (e == Error::Store <==> old(self).categories.has(id)
                        && old(self).clock == u64::MAX)
                    &&& (e == Error::NotFound || e == Error::Store)
                },
            },
    {
        match self.categories.find_index(id) {
            None => Err(Error::NotFound),
            Some(_) => {
                match self.tick() {
                    None => Err(Error::Store),
                    Some(now) => {
                        let _updated = self.categories.set_content(id, patch, now);
                        proof {
                            assert forall|x: u64| #[trigger] self.categories.has(x)
                                implies self.categories.get(x).data.content.wf() by {
                                if x != id {
                                    assert(self.categories.get(x) == old(self).categories.get(x));
                                }
                            }
                        }
                        Ok(())
                    },
                }
            },
        }
    }

    /// Flip the visibility flag of the thesis carrying `id`; adjudication
    /// and a successful referee quorum use this to make a thesis public.
    pub fn set_thesis_visibility(&mut self, id: u64, is_public: bool) -> (r: Result<(), Error>)
        requires
            old(self).wf(),
        ensures
            final(self).wf(),
            match r {
                Ok(_) => {
                    &&& old(self).theses.has(id)
                    &&& old(self).clock < u64::MAX
                    &&& final(self).clock == old(self).clock + 1
                    &&& untouched_but_theses(*old(self), *final(self))
                    &&& forall|x: u64| final(self).theses.has(x) == old(self).theses.has(x)
                    &&& final(self).theses.get(id) == (Entity {
                        id,
                        data: Owned {
                            owner_id: old(self).theses.get(id).data.owner_id,
                            is_public,
                            content: old(self).theses.get(id).data.content,
                        },
                        created_at: old(self).theses.get(id).created_at,
                        updated_at: final(self).clock,
                    })
                    &&& final(self).theses.get(id).updated_at
                        > old(self).theses.get(id).updated_at
                    &&& forall|x: u64|
                        x != id && old(self).theses.has(x) ==> final(self).theses.get(x)
                            == old(self).theses.get(x)
                },
                Err(e) => {
                    &&& *final(self) == *old(self)
                    &&& (e == Error::NotFound <==> !old(self).theses.has(id))
                    &&& (e == Error::Store <==> old(self).theses.has(id)
                        && old(self).clock == u64::MAX)
                    &&& (e == Error::NotFound || e == Error::Store)
                },
            },
    {
        match self.theses.find_index(id) {
            None => Err(Error::NotFound),
            Some(_) => {
                match self.tick() {
                    None => Err(Error::Store),
                    Some(now) => {
                        let _updated = self.theses.set_visibility(id, is_public, now);
                        proof {
                            assert forall|x: u64| #[trigger] self.theses.has(x)
                                implies self.theses.get(x).data.content.wf() by {
                                if x != id {
                                    assert(self.theses.get(x) == old(self).theses.get(x));
                                }
                            }
                        }
                        Ok(())
                    },
                }
            },
        }
    }

    /// The windup of one thesis: first every review of each of its versions
    /// goes, then the versions themselves.  Deletes stamp nothing, so this
    /// step cannot fail, and running it again is a no-op.
    pub fn windup_thesis(&mut self, thesis_id: u64)
        requires
            old(self).wf(),
        ensures
            final(self).wf(),
            final(self).clock == old(self).clock,
            final(self).profiles == old(self).profiles,
            final(self).categories == old(self).categories,
            final(self).magazines == old(self).magazines,
            final(self).theses == old(self).theses,
            forall|v: u64| final(self).versions.has(v) == (old(self).versions.has(v)
                && old(self).versions.get(v).data.content.thesis_id != thesis_id),
            forall|v: u64| old(self).versions.has(v)
                && old(self).versions.get(v).data.content.thesis_id != thesis_id
                ==> final(self).versions.get(v) == old(self).versions.get(v),
            forall|x: u64| final(self).reviews.has(x) == (old(self).reviews.has(x)
                && !review_of_thesis(*old(self), x, thesis_id)),
            forall|x: u64| old(self).reviews.has(x) && !review_of_thesis(*old(self), x, thesis_id)
                ==> final(self).reviews.get(x) == old(self).reviews.get(x),
            final(self).versions.next_id == old(self).versions.next_id,
            final(self).reviews.next_id == old(self).reviews.next_id,
    {
        let vids = self.versions.ids_of_thesis(thesis_id);
        let mut k: usize = 0;
        while k < vids.len()
            invariant
                old(self).wf(),
                self.clock == old(self).clock,
                self.profiles == old(self).profiles,
                self.categories == old(self).categories,
                self.magazines == old(self).magazines,
                self.theses == old(self).theses,
                self.versions == old(self).versions,
                k <= vids@.len(),
                forall|j: int| 0 <= j < vids@.len() ==> old(self).versions.has(vids@[j])
                    && old(self).versions.get(vids@[j]).data.content.thesis_id == thesis_id,
                forall|i: int| 0 <= i < old(self).versions.len()
                    && old(self).versions.of_thesis(i, thesis_id) ==> vids@.contains(
                    old(self).versions.entities@[i].id,
                ),
                self.reviews.wf(),
                self.reviews.next_id == old(self).reviews.next_id,
                self.reviews.entities@.len() <= old(self).reviews.entities@.len(),
                forall|t: int| old(self).reviews.times_le(t) ==> self.reviews.times_le(t),
                forall|x: u64| self.reviews.has(x) == (old(self).reviews.has(x) && !(
                exists|j: int|
                    0 <= j < k && old(self).reviews.get(x).data.content.version_id
                        == vids@[j])),
                forall|x: u64| self.reviews.has(x) ==> self.reviews.get(x)
                    == old(self).reviews.get(x),
            decreases vids@.len() - k,
        {
            let ghost pre_step = self.reviews;
            let vid = vids[k];
            self.reviews.delete_of_version(vid);
            proof {
                assert forall|x: u64| self.reviews.has(x) == (old(self).reviews.has(x) && !(
                exists|j: int|
                    0 <= j < k + 1 && old(self).reviews.get(x).data.content.version_id
                        == vids@[j])) by {
                    if self.reviews.has(x) {
                        assert(pre_step.has(x));
                        assert(old(self).reviews.has(x));
                        assert(pre_step.get(x) == old(self).reviews.get(x));
                        assert(self.reviews.get(x) == pre_step.get(x));
                    }
                    if old(self).reviews.has(x) && !(exists|j: int|
                        0 <= j < k + 1 && old(self).reviews.get(x).data.content.version_id
                            == vids@[j]) {
                        assert(!(exists|j: int|
                            0 <= j < k && old(self).reviews.get(x).data.content.version_id
                                == vids@[j]));
                        assert(pre_step.has(x));
                        assert(pre_step.get(x) == old(self).reviews.get(x));
                        assert(pre_step.get(x).data.content.version_id != vids@[k as int]);
                    }
                }
            }
            k += 1;
        }
        proof {
            assert forall|x: u64| self.reviews.has(x) == (old(self).reviews.has(x)
                && !review_of_thesis(*old(self), x, thesis_id)) by {
                if old(self).reviews.has(x) {
                    let vid = old(self).reviews.get(x).data.content.version_id;
                    if exists|j: int| 0 <= j < vids@.len() && vid == vids@[j] {
                        let j = choose|j: int| 0 <= j < vids@.len() && vid == vids@[j];
                        assert(old(self).versions.has(vids@[j]));
                        assert(review_of_thesis(*old(self), x, thesis_id));
                    } else {
                        if review_of_thesis(*old(self), x, thesis_id) {
                            let i = old(self).versions.idx(vid);
                            old(self).versions.lemma_at(i);
                            assert(old(self).versions.of_thesis(i, thesis_id));
                            assert(vids@.contains(old(self).versions.entities@[i].id));
                            let j = vids@.index_of(vid);
                            assert(false);
                        }
                    }
                }
            }
        }
        let ghost mid = *self;
        self.versions.delete_of_thesis(thesis_id);
        proof {
            assert forall|v: u64| #[trigger] self.versions.has(v)
                implies self.versions.get(v).data.content.wf() by {
                assert(old(self).versions.has(v));
                assert(self.versions.get(v) == old(self).versions.get(v));
            }
        }
    }

    /// Delete one owned thesis: its windup first, the record itself last.
    /// The count of deleted thesis records comes back.
    pub fn delete_thesis_cascade(&mut self, id: u64) -> (r: u64)
        requires
            old(self).wf(),
        ensures
            final(self).wf(),
            final(self).clock == old(self).clock,
            final(self).profiles == old(self).profiles,
            final(self).categories == old(self).categories,
            final(self).magazines == old(self).magazines,
            r == if old(self).theses.has(id) {
                1int
            } else {
                0int
            },
            !final(self).theses.has(id),
            forall|x: u64| final(self).theses.has(x) == (old(self).theses.has(x) && x != id),
            forall|x: u64| x != id && old(self).theses.has(x) ==> final(self).theses.get(x)
                == old(self).theses.get(x),
            forall|v: u64| final(self).versions.has(v) == (old(self).versions.has(v)
                && old(self).versions.get(v).data.content.thesis_id != id),
            forall|v: u64| old(self).versions.has(v)
                && old(self).versions.get(v).data.content.thesis_id != id
                ==> final(self).versions.get(v) == old(self).versions.get(v),
            forall|x: u64| final(self).reviews.has(x) == (old(self).reviews.has(x)
                && !review_of_thesis(*old(self), x, id)),
            forall|x: u64| old(self).reviews.has(x) && !review_of_thesis(*old(self), x, id)
                ==> final(self).reviews.get(x) == old(self).reviews.get(x),
    {
        self.windup_thesis(id);
        let n = self.theses.delete_by_id(id);
        proof {
            assert forall|x: u64| #[trigger] self.theses.has(x)
                implies self.theses.get(x).data.content.wf() by {
                assert(old(self).theses.has(x));
                assert(self.theses.get(x) == old(self).theses.get(x));
            }
        }
        n
    }

    /// Delete every thesis of this owner: the cursor of matches is walked
    /// one record at a time, the windup of each runs before the bulk delete.
    /// Afterwards the owner has no thesis, no version of any of those theses
    /// survives, and no review of any of those versions survives.
    pub fn delete_theses_of_owner(&mut self, owner_id: u64) -> (r: u64)
        requires
            old(self).wf(),
        ensures
            final(self).wf(),
            final(self).clock == old(self).clock,
            final(self).profiles == old(self).profiles,
            final(self).categories == old(self).categories,
            final(self).magazines == old(self).magazines,
            forall|i: int| 0 <= i < final(self).theses.len()
                ==> final(self).theses.entities@[i].data.owner_id != owner_id,
            forall|x: u64| final(self).theses.has(x) == (old(self).theses.has(x)
                && old(self).theses.get(x).data.owner_id != owner_id),
            forall|x: u64| old(self).theses.has(x)
                && old(self).theses.get(x).data.owner_id != owner_id
                ==> final(self).theses.get(x) == old(self).theses.get(x),
            forall|v: u64| final(self).versions.has(v) == (old(self).versions.has(v)
                && !version_of_owner(*old(self), v, owner_id)),
            forall|v: u64| old(self).versions.has(v) && !version_of_owner(
                *old(self),
                v,
                owner_id,
            ) ==> final(self).versions.get(v) == old(self).versions.get(v),
            forall|x: u64| final(self).reviews.has(x) == (old(self).reviews.has(x)
                && !review_of_owner(*old(self), x, owner_id)),
            forall|x: u64| old(self).reviews.has(x) && !review_of_owner(
                *old(self),
                x,
                owner_id,
            ) ==> final(self).reviews.get(x) == old(self).reviews.get(x),
            r == old(self).theses.len() - final(self).theses.len(),
    {
        let tids = self.theses.ids_of_owner(owner_id);
        let mut k: usize = 0;
        while k < tids.len()
            invariant
                old(self).wf(),
                self.wf(),
                self.clock == old(self).clock,
                self.profiles == old(self).profiles,
                self.categories == old(self).categories,
                self.magazines == old(self).magazines,
                self.theses == old(self).theses,
                k <= tids@.len(),
                forall|j: int| 0 <= j < tids@.len() ==> old(self).theses.has(tids@[j])
                    && old(self).theses.get(tids@[j]).data.owner_id == owner_id,
                forall|i: int| 0 <= i < old(self).theses.len()
                    && old(self).theses.entities@[i].data.owner_id == owner_id
                    ==> tids@.contains(old(self).theses.entities@[i].id),
                forall|a: int, b: int| 0 <= a < b < tids@.len() ==> tids@[a] != tids@[b],
                self.versions.next_id == old(self).versions.next_id,
                self.reviews.next_id == old(self).reviews.next_id,
                forall|v: u64| self.versions.has(v) == (old(self).versions.has(v) && !(
                exists|j: int|
                    0 <= j < k && old(self).versions.get(v).data.content.thesis_id
                        == tids@[j])),
                forall|v: u64| self.versions.has(v) ==> self.versions.get(v)
                    == old(self).versions.get(v),
                forall|x: u64| self.reviews.has(x) == (old(self).reviews.has(x) && !(
                exists|j: int|
                    0 <= j < k && review_of_thesis(*old(self), x, tids@[j]))),
                forall|x: u64| self.reviews.has(x) ==> self.reviews.get(x)
                    == old(self).reviews.get(x),
            decreases tids@.len() - k,
        {
            let ghost mid = *self;
            let tid = tids[k];
            self.windup_thesis(tid);
            proof {
                assert forall|v: u64| self.versions.has(v) == (old(self).versions.has(v) && !(
                exists|j: int|
                    0 <= j < k + 1 && old(self).versions.get(v).data.content.thesis_id
                        == tids@[j])) by {
                    if self.versions.has(v) {
                        assert(mid.versions.has(v));
                        assert(old(self).versions.has(v));
                        assert(mid.versions.get(v) == old(self).versions.get(v));
                        assert(mid.versions.get(v).data.content.thesis_id != tid);
                    }
                    if old(self).versions.has(v) && !(exists|j: int|
                        0 <= j < k + 1 && old(self).versions.get(v).data.content.thesis_id
                            == tids@[j]) {
                        assert(!(exists|j: int|
                            0 <= j < k && old(self).versions.get(v).data.content.thesis_id
                                == tids@[j]));
                        assert(mid.versions.has(v));
                        assert(mid.versions.get(v) == old(self).versions.get(v));
                        assert(mid.versions.get(v).data.content.thesis_id != tids@[k as int]);
                        assert(self.versions.has(v));
                    }
                }
                assert forall|x: u64| self.reviews.has(x) == (old(self).reviews.has(x) && !(
                exists|j: int|
                    0 <= j < k + 1 && review_of_thesis(*old(self), x, tids@[j]))) by {
                    if self.reviews.has(x) {
                        assert(mid.reviews.has(x));
                        assert(old(self).reviews.has(x));
                        assert(!review_of_thesis(mid, x, tid));
                        if review_of_thesis(*old(self), x, tids@[k as int]) {
                            let vid = old(self).reviews.get(x).data.content.version_id;
                            assert(mid.reviews.get(x) == old(self).reviews.get(x));
                            assert(old(self).versions.has(vid));
                            assert(old(self).versions.get(vid).data.content.thesis_id == tid);
                            assert(forall|a: int, b: int|
                                0 <= a < b < tids@.len() ==> tids@[a] != tids@[b]);
                            assert(!(exists|j: int|
                                0 <= j < k && old(self).versions.get(vid).data.content.thesis_id
                                    == tids@[j])) by {
                                if exists|j: int|
                                    0 <= j < k
                                        && old(self).versions.get(vid).data.content.thesis_id
                                        == tids@[j] {
                                    let j = choose|j: int|
                                        0 <= j < k && old(
                                            self,
                                        ).versions.get(vid).data.content.thesis_id == tids@[j];
                                    assert(old(self).theses.has(tids@[j]));
                                    assert(old(self).theses.has(tids@[k as int]));
                                    if tids@[j] == tids@[k as int] {
                                        assert(false);
                                    }
                                    assert(false);
                                }
                            }
                            assert(mid.versions.has(vid));
                            assert(mid.versions.get(vid) == old(self).versions.get(vid));
                            assert(review_of_thesis(mid, x, tid));
                            assert(false);
                        }
                    }
                    if old(self).reviews.has(x) && !(exists|j: int|
                        0 <= j < k + 1 && review_of_thesis(*old(self), x, tids@[j])) {
                        assert(!(exists|j: int|
                            0 <= j < k && review_of_thesis(*old(self), x, tids@[j])));
                        assert(mid.reviews.has(x));
                        assert(mid.reviews.get(x) == old(self).reviews.get(x));
                        assert(!review_of_thesis(mid, x, tid)) by {
                            if review_of_thesis(mid, x, tid) {
                                let vid = mid.reviews.get(x).data.content.version_id;
                                assert(mid.versions.has(vid));
                                assert(old(self).versions.has(vid));
                                assert(mid.versions.get(vid) == old(self).versions.get(vid));
                                assert(review_of_thesis(*old(self), x, tids@[k as int]));
                                assert(false);
                            }
                        }
                        assert(self.reviews.has(x));
                    }
                }
            }
            k += 1;
        }
        let n = self.theses.delete_of_owner(owner_id);
        proof {
            assert forall|x: u64| #[trigger] self.theses.has(x)
                implies self.theses.get(x).data.content.wf() by {
                assert(old(self).theses.has(x));
                assert(self.theses.get(x) == old(self).theses.get(x));
            }
            assert forall|v: u64| self.versions.has(v) == (old(self).versions.has(v)
                && !version_of_owner(*old(self), v, owner_id)) by {
                if old(self).versions.has(v) {
                    let tid = old(self).versions.get(v).data.content.thesis_id;
                    if exists|j: int| 0 <= j < tids@.len() && tid == tids@[j] {
                        let j = choose|j: int| 0 <= j < tids@.len() && tid == tids@[j];
                        assert(old(self).theses.has(tids@[j]));
                        assert(version_of_owner(*old(self), v, owner_id));
                    } else {
                        if version_of_owner(*old(self), v, owner_id) {
                            let i = old(self).theses.idx(tid);
                            old(self).theses.lemma_at(i);
                            assert(tids@.contains(old(self).theses.entities@[i].id));
                            assert(false);
                        }
                    }
                }
            }
            assert forall|x: u64| self.reviews.has(x) == (old(self).reviews.has(x)
                && !review_of_owner(*old(self), x, owner_id)) by {
                if old(self).reviews.has(x) {
                    let vid = old(self).reviews.get(x).data.content.version_id;
                    if exists|j: int| 0 <= j < tids@.len() && review_of_thesis(
                        *old(self),
                        x,
                        tids@[j],
                    ) {
                        let j = choose|j: int|
                            0 <= j < tids@.len() && review_of_thesis(*old(self), x, tids@[j]);
                        assert(old(self).versions.has(vid));
                        assert(old(self).theses.has(tids@[j]));
                        assert(review_of_owner(*old(self), x, owner_id));
                    } else {
                        if review_of_owner(*old(self), x, owner_id) {
                            let tid = old(self).versions.get(vid).data.content.thesis_id;
                            let i = old(self).theses.idx(tid);
                            old(self).theses.lemma_at(i);
                            assert(tids@.contains(old(self).theses.entities@[i].id));
                            let j = tids@.index_of(tid);
                            assert(review_of_thesis(*old(self), x, tids@[j]));
                            assert(false);
                        }
                    }
                }
            }
        }
        n
    }

    /// The windup of one magazine: its id is pulled from the magazine set of
    /// every thesis that held it; those theses get a fresh `updated_at`.
    pub fn windup_magazine(&mut self, mid: u64) -> (r: Result<(), Error>)
        requires
            old(self).wf(),
        ensures
            final(self).wf(),
            match r {
                Ok(_) => {
                    &&& old(self).clock < u64::MAX
                    &&& final(self).clock == old(self).clock + 1
                    &&& untouched_but_theses(*old(self), *final(self))
                    &&& forall|x: u64| final(self).theses.has(x) == old(self).theses.has(x)
                    &&& forall|x: u64| #[trigger] old(self).theses.has(x) ==> {
                        let pre = old(self).theses.get(x);
                        let post = final(self).theses.get(x);
                        &&& post.id == pre.id
                        &&& post.created_at == pre.created_at
                        &&& post.data.owner_id == pre.data.owner_id
                        &&& post.data.is_public == pre.data.is_public
                        &&& post.data.content.downloads == pre.data.content.downloads
                        &&& post.data.content.intro.doi == pre.data.content.intro.doi
                        &&& post.data.content.intro.title == pre.data.content.intro.title
                        &&& post.data.content.intro.abstraction
                            == pre.data.content.intro.abstraction
                        &&& post.data.content.intro.keywords == pre.data.content.intro.keywords
                        &&& post.data.content.intro.author_ids
                            == pre.data.content.intro.author_ids
                        &&& post.data.content.intro.language == pre.data.content.intro.language
                        &&& !post.data.content.intro.magazine_ids.has(mid)
                        &&& forall|y: u64|
                            y != mid ==> post.data.content.intro.magazine_ids.has(y)
                                == pre.data.content.intro.magazine_ids.has(y)
                        &&& if pre.data.content.intro.magazine_ids.has(mid) {
                            post.updated_at == final(self).clock
                        } else {
                            post == pre
                        }
                    }
                },
                Err(e) => {
                    &&& *final(self) == *old(self)
                    &&& e == Error::Store
                    &&& old(self).clock == u64::MAX
                },
            },
    {
        match self.tick() {
            None => Err(Error::Store),
            Some(now) => {
                proof {
                    assert forall|i: int| 0 <= i < self.theses.len()
                        implies self.theses.entities@[i].data.content.wf() by {
                        self.theses.lemma_at(i);
                    }
                }
                let _counts = self.theses.pull_magazine(mid, now);
                proof {
                    assert forall|x: u64| #[trigger] old(self).theses.has(x) implies {
                        let pre = old(self).theses.get(x);
                        let post = self.theses.get(x);
                        &&& post.id == pre.id
                        &&& post.created_at == pre.created_at
                        &&& post.data.owner_id == pre.data.owner_id
                        &&& post.data.is_public == pre.data.is_public
                        &&& post.data.content.downloads == pre.data.content.downloads
                        &&& post.data.content.intro.doi == pre.data.content.intro.doi
                        &&& post.data.content.intro.title == pre.data.content.intro.title
                        &&& post.data.content.intro.abstraction
                            == pre.data.content.intro.abstraction
                        &&& post.data.content.intro.keywords == pre.data.content.intro.keywords
                        &&& post.data.content.intro.author_ids
                            == pre.data.content.intro.author_ids
                        &&& post.data.content.intro.language == pre.data.content.intro.language
                        &&& post.data.content.wf()
                        &&& !post.data.content.intro.magazine_ids.has(mid)
                        &&& forall|y: u64|
                            y != mid ==> post.data.content.intro.magazine_ids.has(y)
                                == pre.data.content.intro.magazine_ids.has(y)
                        &&& if pre.data.content.intro.magazine_ids.has(mid) {
                            post.updated_at == now
                        } else {
                            post == pre
                        }
                    } by {
                        let i = old(self).theses.idx(x);
                        old(self).theses.lemma_at(i);
                        assert(self.theses.entities@[i].id == x);
                        self.theses.lemma_at(i);
                    }
                    assert forall|x: u64| #[trigger] self.theses.has(x)
                        implies self.theses.get(x).data.content.wf() by {
                        assert(old(self).theses.has(x));
                    }
                }
                Ok(())
            },
        }
    }

    /// Delete one owned magazine: its windup first, the record itself last.
    pub fn delete_magazine_cascade(&mut self, id: u64) -> (r: Result<u64, Error>)
        requires
            old(self).wf(),
        ensures
            final(self).wf(),
            match r {
                Ok(n) => {
                    &&& old(self).clock < u64::MAX
                    &&& final(self).clock == old(self).clock + 1
                    &&& final(self).profiles == old(self).profiles
                    &&& final(self).categories == old(self).categories
                    &&& final(self).versions == old(self).versions
                    &&& final(self).reviews == old(self).reviews
                    &&& n == if old(self).magazines.has(id) {
                        1int
                    } else {
                        0int
                    }
                    &&& !final(self).magazines.has(id)
                    &&& forall|x: u64|
                        final(self).magazines.has(x) == (old(self).magazines.has(x) && x != id)
                    &&& forall|x: u64|
                        x != id && old(self).magazines.has(x) ==> final(self).magazines.get(x)
                            == old(self).magazines.get(x)
                    &&& forall|x: u64| final(self).theses.has(x) == old(self).theses.has(x)
                    &&& forall|x: u64| #[trigger] final(self).theses.has(x)
                        ==> !final(self).theses.get(x).data.content.intro.magazine_ids.has(id)
                },
                Err(e) => {
                    &&& *final(self) == *old(self)
                    &&& e == Error::Store
                    &&& old(self).clock == u64::MAX
                },
            },
    {
        match self.windup_magazine(id) {
            Err(e) => Err(e),
            Ok(_) => {
                let n = self.magazines.delete_by_id(id);
                proof {
                    assert forall|x: u64| #[trigger] self.magazines.has(x)
                        implies self.magazines.get(x).data.content.wf() by {
                        assert(old(self).magazines.has(x));
                    }
                }
                Ok(n)
            },
        }
    }

    /// The windup of one category: its id is pulled from the category set of
    /// every category and every magazine that held it, one collection at a
    /// time.  A store failure between the two steps leaves the first in
    /// place; the step is harmless to run again.
    pub fn windup_category(&mut self, cid: u64) -> (r: Result<(), Error>)
        requires
            old(self).wf(),
        ensures
            final(self).wf(),
            old(self).clock <= final(self).clock <= old(self).clock + 2,
            final(self).profiles == old(self).profiles,
            final(self).theses == old(self).theses,
            final(self).versions == old(self).versions,
            final(self).reviews == old(self).reviews,
            forall|x: u64| final(self).categories.has(x) == old(self).categories.has(x),
            forall|x: u64| final(self).magazines.has(x) == old(self).magazines.has(x),
            forall|x: u64| #[trigger] final(self).categories.has(x) ==> {
                let pre = old(self).categories.get(x);
                let post = final(self).categories.get(x);
                &&& post.id == pre.id
                &&& post.created_at == pre.created_at
                &&& post.data.owner_id == pre.data.owner_id
                &&& post.data.is_public == pre.data.is_public
                &&& post.data.content.name == pre.data.content.name
                &&& post.data.content.description == pre.data.content.description
                &&& post.data.content.detail == pre.data.content.detail
                &&& forall|y: u64| y != cid ==> post.data.content.category_ids.has(y)
                    == pre.data.content.category_ids.has(y)
            },
            forall|x: u64| #[trigger] final(self).magazines.has(x) ==> {
                let pre = old(self).magazines.get(x);
                let post = final(self).magazines.get(x);
                &&& post.id == pre.id
                &&& post.created_at == pre.created_at
                &&& post.data.owner_id == pre.data.owner_id
                &&& post.data.is_public == pre.data.is_public
                &&& post.data.content.name == pre.data.content.name
                &&& post.data.content.description == pre.data.content.description
                &&& post.data.content.detail == pre.data.content.detail
                &&& forall|y: u64| y != cid ==> post.data.content.category_ids.has(y)
                    == pre.data.content.category_ids.has(y)
            },
            match r {
                Ok(_) => {
                    &&& old(self).clock < u64::MAX
                    &&& final(self).clock >= old(self).clock
                    &&& forall|x: u64| #[trigger] final(self).categories.has(x)
                        ==> !final(self).categories.get(x).data.content.category_ids.has(cid)
                    &&& forall|x: u64| #[trigger] final(self).magazines.has(x)
                        ==> !final(self).magazines.get(x).data.content.category_ids.has(cid)
                },
                Err(e) => e == Error::Store && final(self).clock == u64::MAX,
            },
            old(self).clock == u64::MAX ==> r is Err,
    {
        let ghost pre0 = *self;
        match self.tick() {
            None => Err(Error::Store),
            Some(now) => {
                proof {
                    assert forall|i: int| 0 <= i < self.categories.len()
                        implies self.categories.entities@[i].data.content.wf() by {
                        self.categories.lemma_at(i);
                    }
                }
                let _counts = self.categories.pull_category(cid, now);
                let ghost pre1 = *self;
                proof {
                    assert forall|x: u64| #[trigger] self.categories.has(x) implies {
                        &&& self.categories.get(x).data.content.wf()
                        &&& !self.categories.get(x).data.content.category_ids.has(cid)
                        &&& category_pull_ok(pre0.categories.get(x), self.categories.get(x), cid)
                    } by {
                        let i = pre0.categories.idx(x);
                        pre0.categories.lemma_at(i);
                        assert(self.categories.entities@[i].id == x);
                        self.categories.lemma_at(i);
                    }
                    assert(col_ok(self.categories, self.clock));
                }
                match self.tick() {
                    None => {
                        proof {
                            assert(final(self).wf());
                        }
                        Err(Error::Store)
                    },
                    Some(now2) => {
                        proof {
                            assert forall|i: int| 0 <= i < self.magazines.len()
                                implies self.magazines.entities@[i].data.content.wf() by {
                                self.magazines.lemma_at(i);
                            }
                        }
                        let _counts = self.magazines.pull_category(cid, now2);
                        proof {
                            assert forall|x: u64| #[trigger] self.magazines.has(x) implies {
                                &&& self.magazines.get(x).data.content.wf()
                                &&& !self.magazines.get(x).data.content.category_ids.has(cid)
                                &&& category_pull_ok(
                                    pre0.magazines.get(x),
                                    self.magazines.get(x),
                                    cid,
                                )
                            } by {
                                let i = pre0.magazines.idx(x);
                                pre0.magazines.lemma_at(i);
                                assert(self.magazines.entities@[i].id == x);
                                self.magazines.lemma_at(i);
                            }
                        }
                        Ok(())
                    },
                }
            },
        }
    }

    /// Delete one owned category: its windup first, the record itself last.
    pub fn delete_category_cascade(&mut self, id: u64) -> (r: Result<u64, Error>)
        requires
            old(self).wf(),
        ensures
            final(self).wf(),
            old(self).clock <= final(self).clock <= old(self).clock + 2,
            final(self).profiles == old(self).profiles,
            final(self).theses == old(self).theses,
            final(self).versions == old(self).versions,
            final(self).reviews == old(self).reviews,
            match r {
                Ok(n) => {
                    &&& n == if old(self).categories.has(id) {
                        1int
                    } else {
                        0int
                    }
                    &&& !final(self).categories.has(id)
                    &&& forall|x: u64|
                        final(self).categories.has(x) == (old(self).categories.has(x) && x != id)
                    &&& forall|x: u64| final(self).magazines.has(x) == old(self).magazines.has(x)
                    &&& forall|x: u64| #[trigger] final(self).categories.has(x)
                        ==> !final(self).categories.get(x).data.content.category_ids.has(id)
                    &&& forall|x: u64| #[trigger] final(self).magazines.has(x)
                        ==> !final(self).magazines.get(x).data.content.category_ids.has(id)
                },
                Err(e) => {
                    &&& e == Error::Store
                    &&& final(self).clock == u64::MAX
                    &&& forall|x: u64|
                        final(self).categories.has(x) == old(self).categories.has(x)
                    &&& forall|x: u64| final(self).magazines.has(x) == old(self).magazines.has(x)
                },
            },
            old(self).clock == u64::MAX ==> r is Err,
    {
        match self.windup_category(id) {
            Err(e) => Err(e),
            Ok(_) => {
                let ghost mid = *self;
                let n = self.categories.delete_by_id(id);
                proof {
                    assert forall|x: u64| #[trigger] self.categories.has(x)
                        implies self.categories.get(x).data.content.wf() by {
                        assert(mid.categories.has(x));
                        assert(self.categories.get(x) == mid.categories.get(x));
                    }
                }
                Ok(n)
            },
        }
    }

    /// Delete every magazine of this owner, running each magazine's windup
    /// before the bulk delete.  A store failure stops further iteration and
    /// leaves the cascades already run in place.
    pub fn delete_magazines_of_owner(&mut self, owner_id: u64) -> (r: Result<u64, Error>)
        requires
            old(self).wf(),
        ensures
            final(self).wf(),
            final(self).clock >= old(self).clock,
            final(self).profiles == old(self).profiles,
            final(self).categories == old(self).categories,
            final(self).versions == old(self).versions,
            final(self).reviews == old(self).reviews,
            forall|x: u64| final(self).theses.has(x) == old(self).theses.has(x),
            forall|x: u64| #[trigger] final(self).theses.has(x) ==> final(self).theses.get(
                x,
            ).data.owner_id == old(self).theses.get(x).data.owner_id,
            match r {
                Ok(n) => {
                    &&& forall|i: int| 0 <= i < final(self).magazines.len()
                        ==> final(self).magazines.entities@[i].data.owner_id != owner_id
                    &&& forall|x: u64| final(self).magazines.has(x) == (old(self).magazines.has(x)
                        && old(self).magazines.get(x).data.owner_id != owner_id)
                    &&& forall|x: u64, m: u64|
                        #![trigger final(self).theses.get(x).data.content.intro.magazine_ids.has(m)]
                        final(self).theses.has(x) && old(self).magazines.has(m)
                            && old(self).magazines.get(m).data.owner_id == owner_id
                            ==> !final(self).theses.get(
                            x,
                        ).data.content.intro.magazine_ids.has(m)
                },
                Err(e) => {
                    &&& e == Error::Store
                    &&& final(self).clock == u64::MAX
                    &&& final(self).magazines == old(self).magazines
                },
            },
    {
        let mids = self.magazines.ids_of_owner(owner_id);
        let mut k: usize = 0;
        while k < mids.len()
            invariant
                old(self).wf(),
                self.wf(),
                self.clock >= old(self).clock,
                self.profiles == old(self).profiles,
                self.categories == old(self).categories,
                self.versions == old(self).versions,
                self.reviews == old(self).reviews,
                self.magazines == old(self).magazines,
                k <= mids@.len(),
                forall|j: int| 0 <= j < mids@.len() ==> old(self).magazines.has(mids@[j])
                    && old(self).magazines.get(mids@[j]).data.owner_id == owner_id,
                forall|i: int| 0 <= i < old(self).magazines.len()
                    && old(self).magazines.entities@[i].data.owner_id == owner_id
                    ==> mids@.contains(old(self).magazines.entities@[i].id),
                forall|x: u64| self.theses.has(x) == old(self).theses.has(x),
                forall|x: u64| #[trigger] self.theses.has(x) ==> self.theses.get(
                    x,
                ).data.owner_id == old(self).theses.get(x).data.owner_id,
                forall|x: u64, j: int|
                    #[trigger] self.theses.has(x) && 0 <= j < k ==> !self.theses.get(
                        x,
                    ).data.content.intro.magazine_ids.has(#[trigger] mids@[j]),
            decreases mids@.len() - k,
        {
            let ghost mid_db = *self;
            match self.windup_magazine(mids[k]) {
                Err(e) => {
                    return Err(e);
                },
                Ok(_) => {},
            }
            proof {
                assert forall|x: u64, j: int|
                    #[trigger] self.theses.has(x) && 0 <= j < k + 1
                    implies !self.theses.get(x).data.content.intro.magazine_ids.has(
                        #[trigger] mids@[j],
                    ) by {
                    assert(mid_db.theses.has(x));
                    if j < k {
                        assert(!mid_db.theses.get(x).data.content.intro.magazine_ids.has(
                            mids@[j],
                        ));
                        if mids@[j] != mids@[k as int] {
                            assert(self.theses.get(x).data.content.intro.magazine_ids.has(
                                mids@[j],
                            ) == mid_db.theses.get(x).data.content.intro.magazine_ids.has(
                                mids@[j],
                            ));
                        }
                    }
                }
            }
            k += 1;
        }
        let n = self.magazines.delete_of_owner(owner_id);
        proof {
            assert forall|x: u64| #[trigger] self.magazines.has(x)
                implies self.magazines.get(x).data.content.wf() by {
                assert(old(self).magazines.has(x));
                assert(self.magazines.get(x) == old(self).magazines.get(x));
            }
            assert forall|x: u64, m: u64|
                #![trigger self.theses.get(x).data.content.intro.magazine_ids.has(m)]
                self.theses.has(x) && old(self).magazines.has(m)
                    && old(self).magazines.get(m).data.owner_id == owner_id
                implies !self.theses.get(x).data.content.intro.magazine_ids.has(m) by {
                let i = old(self).magazines.idx(m);
                old(self).magazines.lemma_at(i);
                assert(mids@.contains(old(self).magazines.entities@[i].id));
                let j = mids@.index_of(m);
                assert(mids@[j] == m);
            }
        }
        Ok(n)
    }

    /// Delete every category of this owner, running each category's windup
    /// before the bulk delete.
    pub fn delete_categories_of_owner(&mut self, owner_id: u64) -> (r: Result<u64, Error>)
        requires
            old(self).wf(),
        ensures
            final(self).wf(),
            final(self).clock >= old(self).clock,
            final(self).profiles == old(self).profiles,
            final(self).theses == old(self).theses,
            final(self).versions == old(self).versions,
            final(self).reviews == old(self).reviews,
            forall|x: u64| final(self).magazines.has(x) == old(self).magazines.has(x),
            forall|x: u64| #[trigger] final(self).magazines.has(x) ==> final(self).magazines.get(
                x,
            ).data.owner_id == old(self).magazines.get(x).data.owner_id,
            match r {
                Ok(n) => {
                    &&& forall|i: int| 0 <= i < final(self).categories.len()
                        ==> final(self).categories.entities@[i].data.owner_id != owner_id
                    &&& forall|x: u64|
                        final(self).categories.has(x) == (old(self).categories.has(x)
                            && old(self).categories.get(x).data.owner_id != owner_id)
                    &&& forall|x: u64, c: u64|
                        #![trigger final(self).categories.get(x).data.content.category_ids.has(c)]
                        final(self).categories.has(x) && old(self).categories.has(c)
                            && old(self).categories.get(c).data.owner_id == owner_id
                            ==> !final(self).categories.get(
                            x,
                        ).data.content.category_ids.has(c)
                    &&& forall|x: u64, c: u64|
                        #![trigger final(self).magazines.get(x).data.content.category_ids.has(c)]
                        final(self).magazines.has(x) && old(self).categories.has(c)
                            && old(self).categories.get(c).data.owner_id == owner_id
                            ==> !final(self).magazines.get(
                            x,
                        ).data.content.category_ids.has(c)
                },
                Err(e) => {
                    &&& e == Error::Store
                    &&& final(self).clock == u64::MAX
                    &&& forall|x: u64|
                        final(self).categories.has(x) == old(self).categories.has(x)
                    &&& forall|x: u64| #[trigger] final(self).categories.has(x)
                        ==> final(self).categories.get(x).data.owner_id
                            == old(self).categories.get(x).data.owner_id
                },
            },
    {
        let cids = self.categories.ids_of_owner(owner_id);
        let mut k: usize = 0;
        while k < cids.len()
            invariant
                old(self).wf(),
                self.wf(),
                self.clock >= old(self).clock,
                self.profiles == old(self).profiles,
                self.theses == old(self).theses,
                self.versions == old(self).versions,
                self.reviews == old(self).reviews,
                k <= cids@.len(),
                forall|j: int| 0 <= j < cids@.len() ==> old(self).categories.has(cids@[j])
                    && old(self).categories.get(cids@[j]).data.owner_id == owner_id,
                forall|i: int| 0 <= i < old(self).categories.len()
                    && old(self).categories.entities@[i].data.owner_id == owner_id
                    ==> cids@.contains(old(self).categories.entities@[i].id),
                forall|x: u64| self.categories.has(x) == old(self).categories.has(x),
                forall|x: u64| self.magazines.has(x) == old(self).magazines.has(x),
                forall|x: u64| #[trigger] self.categories.has(x)
                    ==> self.categories.get(x).data.owner_id
                        == old(self).categories.get(x).data.owner_id,
                forall|x: u64| #[trigger] self.magazines.has(x)
                    ==> self.magazines.get(x).data.owner_id
                        == old(self).magazines.get(x).data.owner_id,
                forall|x: u64, j: int|
                    #[trigger] self.categories.has(x) && 0 <= j < k ==> !self.categories.get(
                        x,
                    ).data.content.category_ids.has(#[trigger] cids@[j]),
                forall|x: u64, j: int|
                    #[trigger] self.magazines.has(x) && 0 <= j < k ==> !self.magazines.get(
                        x,
                    ).data.content.category_ids.has(#[trigger] cids@[j]),
            decreases cids@.len() - k,
        {
            let ghost mid_db = *self;
            match self.windup_category(cids[k]) {
                Err(e) => {
                    return Err(e);
                },
                Ok(_) => {},
            }
            proof {
                assert forall|x: u64, j: int|
                    #[trigger] self.categories.has(x) && 0 <= j < k + 1
                    implies !self.categories.get(x).data.content.category_ids.has(
                        #[trigger] cids@[j],
                    ) by {
                    assert(mid_db.categories.has(x));
                    if j < k {
                        if cids@[j] != cids@[k as int] {
                            assert(self.categories.get(x).data.content.category_ids.has(
                                cids@[j],
                            ) == mid_db.categories.get(x).data.content.category_ids.has(
                                cids@[j],
                            ));
                        }
                    }
                }
                assert forall|x: u64, j: int|
                    #[trigger] self.magazines.has(x) && 0 <= j < k + 1
                    implies !self.magazines.get(x).data.content.category_ids.has(
                        #[trigger] cids@[j],
                    ) by {
                    assert(mid_db.magazines.has(x));
                    if j < k {
                        if cids@[j] != cids@[k as int] {
                            assert(self.magazines.get(x).data.content.category_ids.has(cids@[j])
                                == mid_db.magazines.get(x).data.content.category_ids.has(
                                cids@[j],
                            ));
                        }
                    }
                }
            }
            k += 1;
        }
        let ghost before_del = *self;
        let n = self.categories.delete_of_owner(owner_id);
        proof {
            assert forall|x: u64| #[trigger] self.categories.has(x)
                implies self.categories.get(x).data.content.wf() by {
                assert(before_del.categories.has(x));
                assert(self.categories.get(x) == before_del.categories.get(x));
            }
            assert forall|x: u64|
                self.categories.has(x) implies (old(self).categories.has(x)
                && old(self).categories.get(x).data.owner_id != owner_id) by {
                assert(before_del.categories.has(x));
                assert(before_del.categories.get(x).data.owner_id != owner_id);
            }
            assert forall|x: u64|
                (old(self).categories.has(x) && old(self).categories.get(x).data.owner_id
                    != owner_id) implies self.categories.has(x) by {
                assert(before_del.categories.has(x));
                assert(before_del.categories.get(x).data.owner_id
                    == old(self).categories.get(x).data.owner_id);
            }
            assert forall|x: u64, c: u64|
                #![trigger self.categories.get(x).data.content.category_ids.has(c)]
                self.categories.has(x) && old(self).categories.has(c)
                    && old(self).categories.get(c).data.owner_id == owner_id
                implies !self.categories.get(x).data.content.category_ids.has(c) by {
                let i = old(self).categories.idx(c);
                old(self).categories.lemma_at(i);
                assert(cids@.contains(old(self).categories.entities@[i].id));
                let j = cids@.index_of(c);
                assert(before_del.categories.has(x));
                assert(self.categories.get(x) == before_del.categories.get(x));
            }
            assert forall|x: u64, c: u64|
                #![trigger self.magazines.get(x).data.content.category_ids.has(c)]
                self.magazines.has(x) && old(self).categories.has(c)
                    && old(self).categories.get(c).data.owner_id == owner_id
                implies !self.magazines.get(x).data.content.category_ids.has(c) by {
                let i = old(self).categories.idx(c);
                old(self).categories.lemma_at(i);
                assert(cids@.contains(old(self).categories.entities@[i].id));
                let j = cids@.index_of(c);
            }
        }
        Ok(n)
    }

    /// Null the creator link of every version this creator made.
    pub fn remove_creator_of_versions(&mut self, creator_id: u64) -> (r: Result<(u64, u64), Error>)
        requires
            old(self).wf(),
        ensures
            final(self).wf(),
            match r {
                Ok(counts) => {
                    &&& old(self).clock < u64::MAX
                    &&& final(self).clock == old(self).clock + 1
                    &&& untouched_but_versions(*old(self), *final(self))
                    &&& forall|x: u64| final(self).versions.has(x) == old(self).versions.has(x)
                    &&& forall|x: u64| #[trigger] old(self).versions.has(x)
                        ==> final(self).versions.get(x) == crate::attached::creator_removed(
                        old(self).versions.get(x),
                        creator_id,
                        final(self).clock,
                    )
                    &&& forall|x: u64| #[trigger] final(self).versions.has(x)
                        ==> final(self).versions.get(x).data.creator_id != Some(creator_id)
                },
                Err(e) => {
                    &&& *final(self) == *old(self)
                    &&& e == Error::Store
                    &&& old(self).clock == u64::MAX
                },
            },
    {
        match self.tick() {
            None => Err(Error::Store),
            Some(now) => {
                let counts = self.versions.remove_creator_of_attached(creator_id, now);
                proof {
                    assert forall|x: u64| #[trigger] old(self).versions.has(x)
                        implies self.versions.get(x) == crate::attached::creator_removed(
                        old(self).versions.get(x),
                        creator_id,
                        now,
                    ) by {
                        let i = old(self).versions.idx(x);
                        old(self).versions.lemma_at(i);
                        assert(self.versions.entities@[i] == crate::attached::creator_removed(
                            old(self).versions.entities@[i],
                            creator_id,
                            now,
                        ));
                        assert(self.versions.entities@[i].id == x);
                        self.versions.lemma_at(i);
                    }
                    assert forall|x: u64| #[trigger] self.versions.has(x)
                        implies self.versions.get(x).data.content.wf()
                            && self.versions.get(x).data.creator_id != Some(creator_id) by {
                        assert(old(self).versions.has(x));
                    }
                }
                Ok(counts)
            },
        }
    }

    /// Null the creator link of every review this creator made.
    pub fn remove_creator_of_reviews(&mut self, creator_id: u64) -> (r: Result<(u64, u64), Error>)
        requires
            old(self).wf(),
        ensures
            final(self).wf(),
            match r {
                Ok(counts) => {
                    &&& old(self).clock < u64::MAX
                    &&& final(self).clock == old(self).clock + 1
                    &&& final(self).profiles == old(self).profiles
                    &&& final(self).categories == old(self).categories
                    &&& final(self).magazines == old(self).magazines
                    &&& final(self).theses == old(self).theses
                    &&& final(self).versions == old(self).versions
                    &&& forall|x: u64| final(self).reviews.has(x) == old(self).reviews.has(x)
                    &&& forall|x: u64| #[trigger] old(self).reviews.has(x)
                        ==> final(self).reviews.get(x) == crate::attached::creator_removed(
                        old(self).reviews.get(x),
                        creator_id,
                        final(self).clock,
                    )
                    &&& forall|x: u64| #[trigger] final(self).reviews.has(x)
                        ==> final(self).reviews.get(x).data.creator_id != Some(creator_id)
                },
                Err(e) => {
                    &&& *final(self) == *old(self)
                    &&& e == Error::Store
                    &&& old(self).clock == u64::MAX
                },
            },
    {
        match self.tick() {
            None => Err(Error::Store),
            Some(now) => {
                let counts = self.reviews.remove_creator_of_attached(creator_id, now);
                proof {
                    assert forall|x: u64| #[trigger] old(self).reviews.has(x)
                        implies self.reviews.get(x) == crate::attached::creator_removed(
                        old(self).reviews.get(x),
                        creator_id,
                        now,
                    ) by {
                        let i = old(self).reviews.idx(x);
                        old(self).reviews.lemma_at(i);
                        assert(self.reviews.entities@[i] == crate::attached::creator_removed(
                            old(self).reviews.entities@[i],
                            creator_id,
                            now,
                        ));
                        assert(self.reviews.entities@[i].id == x);
                        self.reviews.lemma_at(i);
                    }
                }
                Ok(counts)
            },
        }
    }

    /// Delete a profile and cascade: its theses (with their versions and
    /// reviews) go, its magazines and categories go with their reference
    /// pulls, and the creator link of every remaining version and review it
    /// made is nulled; the profile record itself goes last.  A store failure
    /// aborts the remaining steps without rolling back the finished ones.
    pub fn delete_profile_cascade(&mut self, id: u64) -> (r: Result<u64, Error>)
        requires
            old(self).wf(),
        ensures
            final(self).wf(),
            match r {
                Ok(n) => {
                    &&& n == 1
                    &&& old(self).profiles.has(id)
                    &&& !final(self).profiles.has(id)
                    &&& forall|x: u64|
                        final(self).profiles.has(x) == (old(self).profiles.has(x) && x != id)
                    &&& forall|x: u64|
                        x != id && old(self).profiles.has(x) ==> final(self).profiles.get(x)
                            == old(self).profiles.get(x)
                    &&& forall|i: int| 0 <= i < final(self).theses.len()
                        ==> final(self).theses.entities@[i].data.owner_id != id
                    &&& forall|i: int| 0 <= i < final(self).magazines.len()
                        ==> final(self).magazines.entities@[i].data.owner_id != id
                    &&& forall|i: int| 0 <= i < final(self).categories.len()
                        ==> final(self).categories.entities@[i].data.owner_id != id
                    &&& forall|v: u64| final(self).versions.has(v) == (old(self).versions.has(v)
                        && !version_of_owner(*old(self), v, id))
                    &&& forall|x: u64| final(self).reviews.has(x) == (old(self).reviews.has(x)
                        && !review_of_owner(*old(self), x, id))
                    &&& forall|v: u64| #[trigger] final(self).versions.has(v)
                        ==> final(self).versions.get(v).data.creator_id != Some(id)
                    &&& forall|x: u64| #[trigger] final(self).reviews.has(x)
                        ==> final(self).reviews.get(x).data.creator_id != Some(id)
                },
                Err(e) => {
                    &&& (e == Error::NotFound || e == Error::Store)
                    &&& (e == Error::NotFound <==> !old(self).profiles.has(id))
                    &&& e == Error::NotFound ==> *final(self) == *old(self)
                    &&& e == Error::Store ==> {
                        &&& old(self).profiles.has(id)
                        &&& final(self).clock == u64::MAX
                        &&& final(self).profiles == old(self).profiles
                        &&& forall|x: u64|
                            final(self).theses.has(x) == (old(self).theses.has(x)
                                && old(self).theses.get(x).data.owner_id != id)
                        &&& forall|v: u64|
                            final(self).versions.has(v) == (old(self).versions.has(v)
                                && !version_of_owner(*old(self), v, id))
                        &&& forall|x: u64|
                            final(self).reviews.has(x) == (old(self).reviews.has(x)
                                && !review_of_owner(*old(self), x, id))
                    }
                },
            },
            old(self).profiles.has(id) && old(self).clock == u64::MAX ==> r is Err && r->Err_0
                == Error::Store,
    {
        match self.profiles.find_index(id) {
            None => Err(Error::NotFound),
            Some(_) => {
                let ghost s0 = *self;
                self.delete_theses_of_owner(id);
                let ghost s1 = *self;
                match self.delete_magazines_of_owner(id) {
                    Err(e) => {
                        return Err(e);
                    },
                    Ok(_) => {},
                }
                let ghost s2 = *self;
                match self.delete_categories_of_owner(id) {
                    Err(e) => {
                        return Err(e);
                    },
                    Ok(_) => {},
                }
                let ghost s3 = *self;
                match self.remove_creator_of_reviews(id) {
                    Err(e) => {
                        return Err(e);
                    },
                    Ok(_) => {},
                }
                let ghost s4 = *self;
                match self.remove_creator_of_versions(id) {
                    Err(e) => {
                        return Err(e);
                    },
                    Ok(_) => {},
                }
                let ghost s5 = *self;
                let n = self.profiles.delete_by_id(id);
                proof {
                    assert(n == 1);
                    assert forall|i: int| 0 <= i < self.theses.len()
                        implies self.theses.entities@[i].data.owner_id != id by {
                        self.theses.lemma_at(i);
                        let x = self.theses.entities@[i].id;
                        assert(s2.theses.has(x));
                        assert(s1.theses.has(x));
                        s1.theses.lemma_at(s1.theses.idx(x));
                        assert(s1.theses.get(x).data.owner_id != id);
                        assert(s2.theses.get(x).data.owner_id != id);
                    }
                    assert forall|i: int| 0 <= i < self.magazines.len()
                        implies self.magazines.entities@[i].data.owner_id != id by {
                        self.magazines.lemma_at(i);
                        let x = self.magazines.entities@[i].id;
                        assert(s3.magazines.has(x));
                        assert(s2.magazines.has(x));
                        s2.magazines.lemma_at(s2.magazines.idx(x));
                        assert(s2.magazines.get(x).data.owner_id != id);
                        assert(s3.magazines.get(x).data.owner_id != id);
                    }
                    assert forall|i: int| 0 <= i < self.categories.len()
                        implies self.categories.entities@[i].data.owner_id != id by {
                        self.categories.lemma_at(i);
                        let x = self.categories.entities@[i].id;
                        assert(s3.categories.has(x));
                        s3.categories.lemma_at(s3.categories.idx(x));
                        assert(s3.categories.get(x).data.owner_id != id);
                    }
                    assert forall|i: int, j: int|
                        0 <= i < j < self.profiles.len()
                        implies self.profiles.entities@[i].data.email@
                            != self.profiles.entities@[j].data.email@ by {
                        self.profiles.lemma_at(i);
                        self.profiles.lemma_at(j);
                        let xi = self.profiles.entities@[i].id;
                        let xj = self.profiles.entities@[j].id;
                        assert(s5.profiles.has(xi) && s5.profiles.has(xj));
                        Self::lemma_emails_stay_distinct_del(s5.profiles, self.profiles, i, j);
                    }
                    assert forall|v: u64| self.versions.has(v) == (old(self).versions.has(v)
                        && !version_of_owner(*old(self), v, id)) by {
                        assert(self.versions.has(v) == s1.versions.has(v));
                        if s1.versions.has(v) {
                            assert(old(self).versions.has(v));
                        }
                    }
                    assert forall|v: u64| #[trigger] self.versions.has(v)
                        implies self.versions.get(v).data.creator_id != Some(id) by {
                        assert(s4.versions.has(v));
                        assert(s5.versions.get(v).data.creator_id != Some(id));
                    }
                    assert forall|x: u64| self.reviews.has(x) == (old(self).reviews.has(x)
                        && !review_of_owner(*old(self), x, id)) by {
                        assert(self.reviews.has(x) == s1.reviews.has(x));
                    }
                    assert forall|x: u64| #[trigger] self.reviews.has(x)
                        implies self.reviews.get(x).data.creator_id != Some(id) by {
                        assert(s3.reviews.has(x));
                        assert(s4.reviews.get(x).data.creator_id != Some(id));
                        assert(self.reviews.get(x) == s4.reviews.get(x)
                            || self.reviews.get(x) == s5.reviews.get(x));
                    }
                }
                Ok(n)
            },
        }
    }

    /// Like [`Self::lemma_emails_stay_distinct`], for a state reached by
    /// deleting records: every surviving record was there before, unchanged.
    proof fn lemma_emails_stay_distinct_del(
        pre: Collection<Profile>,
        post: Collection<Profile>,
        i: int,
        j: int,
    )
        requires
            pre.wf(),
            post.wf(),
            0 <= i < j < post.len(),
            forall|x: u64| post.has(x) ==> pre.has(x),
            forall|i2: int, j2: int|
                0 <= i2 < j2 < pre.len() ==> pre.entities@[i2].data.email@
                    != pre.entities@[j2].data.email@,
            forall|x: u64| post.has(x) ==> post.get(x) == pre.get(x),
        ensures
            post.entities@[i].data.email@ != post.entities@[j].data.email@,
    {
        post.lemma_at(i);
        post.lemma_at(j);
        let xi = post.entities@[i].id;
        let xj = post.entities@[j].id;
        assert(pre.has(xi) && pre.has(xj));
        let pi = pre.idx(xi);
        let pj = pre.idx(xj);
        pre.lemma_at(pi);
        pre.lemma_at(pj);
        if pi == pj {
            assert(xi == xj);
            assert(post.idx(xi) == i && post.idx(xj) == j);
        } else if pi < pj {
            assert(pre.entities@[pi].data.email@ != pre.entities@[pj].data.email@);
        } else {
            assert(pre.entities@[pj].data.email@ != pre.entities@[pi].data.email@);
        }
    }

    /// Emails stay pairwise distinct across an update that keeps ids, keeps
    /// every other record, and does not change the patched record's email.
    proof fn lemma_emails_stay_distinct(
        pre: Collection<Profile>,
        post: Collection<Profile>,
        i: int,
        j: int,
    )
        requires
            pre.wf(),
            post.wf(),
            0 <= i < j < post.len(),
            forall|x: u64| post.has(x) == pre.has(x),
            forall|i2: int, j2: int|
                0 <= i2 < j2 < pre.len() ==> pre.entities@[i2].data.email@
                    != pre.entities@[j2].data.email@,
            forall|x: u64| pre.has(x) ==> post.get(x).data.email@ == pre.get(x).data.email@,
        ensures
            post.entities@[i].data.email@ != post.entities@[j].data.email@,
    {
        post.lemma_at(i);
        post.lemma_at(j);
        let xi = post.entities@[i].id;
        let xj = post.entities@[j].id;
        assert(pre.has(xi) && pre.has(xj));
        let pi = pre.idx(xi);
        let pj = pre.idx(xj);
        pre.lemma_at(pi);
        pre.lemma_at(pj);
        assert(post.get(xi).data.email@ == pre.entities@[pi].data.email@);
        assert(post.get(xj).data.email@ == pre.entities@[pj].data.email@);
        if pi == pj {
            assert(xi == xj);
            assert(post.idx(xi) == i && post.idx(xj) == j);
        } else if pi < pj {
            assert(pre.entities@[pi].data.email@ != pre.entities@[pj].data.email@);
        } else {
            assert(pre.entities@[pj].data.email@ != pre.entities@[pi].data.email@);
        }
    }
}

/// What one pull of a category id leaves of a collection record: everything
/// but the category set and the update stamp is as it was, and the set lost
/// at most that one id.
pub open spec fn category_pull_ok<D>(
    pre: Entity<Owned<PaperCollection<D>>>,
    post: Entity<Owned<PaperCollection<D>>>,
    cid: u64,
) -> bool {
    &&& post.id == pre.id
    &&& post.created_at == pre.created_at
    &&& post.data.owner_id == pre.data.owner_id
    &&& post.data.is_public == pre.data.is_public
    &&& post.data.content.name == pre.data.content.name
    &&& post.data.content.description == pre.data.content.description
    &&& post.data.content.detail == pre.data.content.detail
    &&& forall|y: u64|
        y != cid ==> post.data.content.category_ids.has(y) == pre.data.content.category_ids.has(y)
}

/// The version belongs to a thesis of this owner.
pub open spec fn version_of_owner(db: Db, version_id: u64, owner_id: u64) -> bool {
    let tid = db.versions.get(version_id).data.content.thesis_id;
    db.theses.has(tid) && db.theses.get(tid).data.owner_id == owner_id
}

/// The review refers, through its version, to a version of a thesis of this
/// owner.
pub open spec fn review_of_owner(db: Db, review_id: u64, owner_id: u64) -> bool {
    let vid = db.reviews.get(review_id).data.content.version_id;
    db.versions.has(vid) && version_of_owner(db, vid, owner_id)
}

/// The review refers, through its version, to a version of this thesis.
pub open spec fn review_of_thesis(db: Db, review_id: u64, thesis_id: u64) -> bool {
    let vid = db.reviews.get(review_id).data.content.version_id;
    db.versions.has(vid) && db.versions.get(vid).data.content.thesis_id == thesis_id
}

/// Everything except the profile collection and the clock is as it was.
pub open spec fn untouched_but_profiles(pre: Db, post: Db) -> bool {
    &&& post.categories == pre.categories
    &&& post.magazines == pre.magazines
    &&& post.theses == pre.theses
    &&& post.versions == pre.versions
    &&& post.reviews == pre.reviews
}

/// Everything except the thesis collection and the clock is as it was.
pub open spec fn untouched_but_theses(pre: Db, post: Db) -> bool {
    &&& post.profiles == pre.profiles
    &&& post.categories == pre.categories
    &&& post.magazines == pre.magazines
    &&& post.versions == pre.versions
    &&& post.reviews == pre.reviews
}

/// Everything except the magazine collection and the clock is as it was.
pub open spec fn untouched_but_magazines(pre: Db, post: Db) -> bool {
    &&& post.profiles == pre.profiles
    &&& post.categories == pre.categories
    &&& post.theses == pre.theses
    &&& post.versions == pre.versions
    &&& post.reviews == pre.reviews
}

/// Everything except the category collection and the clock is as it was.
pub open spec fn untouched_but_categories(pre: Db, post: Db) -> bool {
    &&& post.profiles == pre.profiles
    &&& post.magazines == pre.magazines
    &&& post.theses == pre.theses
    &&& post.versions == pre.versions
    &&& post.reviews == pre.reviews
}

/// Everything except the version collection and the clock is as it was.
pub open spec fn untouched_but_versions(pre: Db, post: Db) -> bool {
    &&& post.profiles == pre.profiles
    &&& post.categories == pre.categories
    &&& post.magazines == pre.magazines
    &&& post.theses == pre.theses
    &&& post.reviews == pre.reviews
}

} // verus!
