//! A thesis: its submittable introduction and a download counter.

use vstd::prelude::*;

use crate::crud::{Patch, Patchable, Post, Postable};
use crate::idset::IdSet;
use crate::names::{plural_of, Countable, Data};
use crate::owned::Owned;
use crate::store::{Collection, Entity};
use crate::util::{dup_ids, dup_opt_string, dup_strings};

verus! {

pub struct ThesisIntroduction {
    pub magazine_ids: IdSet,
    pub doi: Option<String>,
    pub title: String,
    pub abstraction: String,
    pub keywords: Vec<String>,
    pub author_ids: Vec<u64>,
    pub language: Vec<String>,
}

pub struct Thesis {
    pub intro: ThesisIntroduction,
    pub downloads: i32,
}

/// The create-projection of an introduction: every submittable field.
pub struct ThesisIntroductionPost {
    pub magazine_ids: IdSet,
    pub doi: Option<String>,
    pub title: String,
    pub abstraction: String,
    pub keywords: Vec<String>,
    pub author_ids: Vec<u64>,
    pub language: Vec<String>,
}

impl Post for ThesisIntroductionPost {

}

impl Postable for ThesisIntroduction {
    type Post = ThesisIntroductionPost;

    open spec fn posted_spec(p: ThesisIntroductionPost) -> Self {
        ThesisIntroduction {
            magazine_ids: p.magazine_ids,
            doi: p.doi,
            title: p.title,
            abstraction: p.abstraction,
            keywords: p.keywords,
            author_ids: p.author_ids,
            language: p.language,
        }
    }

    fn from_post(p: ThesisIntroductionPost) -> Self {
        ThesisIntroduction {
            magazine_ids: p.magazine_ids,
            doi: p.doi,
            title: p.title,
            abstraction: p.abstraction,
            keywords: p.keywords,
            author_ids: p.author_ids,
            language: p.language,
        }
    }
}

/// The partial-update projection: an unset field leaves the value unchanged.
pub struct ThesisIntroductionPatch {
    pub magazine_ids: Option<IdSet>,
    pub doi: Option<Option<String>>,
    pub title: Option<String>,
    pub abstraction: Option<String>,
    pub keywords: Option<Vec<String>>,
    pub author_ids: Option<Vec<u64>>,
    pub language: Option<Vec<String>>,
}

impl Patch for ThesisIntroductionPatch {

}

impl ThesisIntroductionPatch {
    /// The patch that sets nothing.
    pub fn unset() -> (r: Self)
        ensures
            r.magazine_ids is None,
            r.doi is None,
            r.title is None,
            r.abstraction is None,
            r.keywords is None,
            r.author_ids is None,
            r.language is None,
    {
        ThesisIntroductionPatch {
            magazine_ids: None,
            doi: None,
            title: None,
            abstraction: None,
            keywords: None,
            author_ids: None,
            language: None,
        }
    }
}

impl Patchable for ThesisIntroduction {
    type Patch = ThesisIntroductionPatch;

    open spec fn patched_spec(self, p: ThesisIntroductionPatch) -> Self {
        ThesisIntroduction {
            magazine_ids: if p.magazine_ids is Some {
                p.magazine_ids->0
            } else {
                self.magazine_ids
            },
            doi: if p.doi is Some {
                p.doi->0
            } else {
                self.doi
            },
            title: if p.title is Some {
                p.title->0
            } else {
                self.title
            },
            abstraction: if p.abstraction is Some {
                p.abstraction->0
            } else {
                self.abstraction
            },
            keywords: if p.keywords is Some {
                p.keywords->0
            } else {
                self.keywords
            },
            author_ids: if p.author_ids is Some {
                p.author_ids->0
            } else {
                self.author_ids
            },
            language: if p.language is Some {
                p.language->0
            } else {
                self.language
            },
        }
    }

    fn apply_patch(self, p: ThesisIntroductionPatch) -> Self {
        let ThesisIntroduction {
            magazine_ids,
            doi,
            title,
            abstraction,
            keywords,
            author_ids,
            language,
        } = self;
        ThesisIntroduction {
            magazine_ids: match p.magazine_ids {
                Some(v) => v,
                None => magazine_ids,
            },
            doi: match p.doi {
                Some(v) => v,
                None => doi,
            },
            title: match p.title {
                Some(v) => v,
                None => title,
            },
            abstraction: match p.abstraction {
                Some(v) => v,
                None => abstraction,
            },
            keywords: match p.keywords {
                Some(v) => v,
                None => keywords,
            },
            author_ids: match p.author_ids {
                Some(v) => v,
                None => author_ids,
            },
            language: match p.language {
                Some(v) => v,
                None => language,
            },
        }
    }
}

impl Thesis {
    /// A submitted thesis: the posted introduction, nothing downloaded yet.
    pub open spec fn new_spec(p: ThesisIntroductionPost) -> Self {
        Thesis { intro: ThesisIntroduction::posted_spec(p), downloads: 0 }
    }

    pub fn new(p: ThesisIntroductionPost) -> (r: Self)
        ensures
            r == Self::new_spec(p),
    {
        Thesis { intro: ThesisIntroduction::from_post(p), downloads: 0 }
    }

    /// The thesis is well formed when its reference set is and its language
    /// set does not repeat.
    pub open spec fn wf(self) -> bool {
        &&& self.intro.magazine_ids.wf()
        &&& crate::util::strings_unique(self.intro.language@)
    }
}

impl Postable for Thesis {
    type Post = ThesisIntroductionPost;

    open spec fn posted_spec(p: ThesisIntroductionPost) -> Self {
        Thesis::new_spec(p)
    }

    fn from_post(p: ThesisIntroductionPost) -> Self {
        Thesis::new(p)
    }
}

impl Patchable for Thesis {
    type Patch = ThesisIntroductionPatch;

    open spec fn patched_spec(self, p: ThesisIntroductionPatch) -> Self {
        Thesis { intro: self.intro.patched_spec(p), downloads: self.downloads }
    }

    fn apply_patch(self, p: ThesisIntroductionPatch) -> Self {
        let Thesis { intro, downloads } = self;
        Thesis { intro: intro.apply_patch(p), downloads }
    }
}

/// How many records of the prefix hold this magazine reference.
pub open spec fn count_with_magazine(s: Seq<Entity<Owned<Thesis>>>, mid: u64) -> int
    decreases s.len(),
{
    if s.len() == 0 {
        0
    } else {
        count_with_magazine(s.drop_last(), mid) + if s.last().data.content.intro.magazine_ids.has(
            mid,
        ) {
            1int
        } else {
            0int
        }
    }
}

impl Collection<Owned<Thesis>> {
    /// Every record whose magazine set held `mid` loses that reference and
    /// gets a fresh `updated_at`; everything else about every record stays.
    pub fn pull_magazine(&mut self, mid: u64, now: u64) -> (r: (u64, u64))
        requires
            old(self).wf(),
            old(self).times_le(now - 1),
            old(self).entities@.len() <= u64::MAX,
            forall|i: int| 0 <= i < old(self).len()
                ==> old(self).entities@[i].data.content.wf(),
        ensures
            final(self).wf(),
            final(self).times_le(now as int),
            final(self).next_id == old(self).next_id,
            final(self).entities@.len() == old(self).entities@.len(),
            forall|x: u64| final(self).has(x) == old(self).has(x),
            r.0 == r.1,
            r.0 == count_with_magazine(old(self).entities@, mid),
            forall|k: int| #![trigger final(self).entities@[k]] 0 <= k < old(self).len() ==> {
                let pre = old(self).entities@[k];
                let post = final(self).entities@[k];
                &&& post.id == pre.id
                &&& post.created_at == pre.created_at
                &&& post.data.owner_id == pre.data.owner_id
                &&& post.data.is_public == pre.data.is_public
                &&& post.data.content.downloads == pre.data.content.downloads
                &&& post.data.content.intro.doi == pre.data.content.intro.doi
                &&& post.data.content.intro.title == pre.data.content.intro.title
                &&& post.data.content.intro.abstraction == pre.data.content.intro.abstraction
                &&& post.data.content.intro.keywords == pre.data.content.intro.keywords
                &&& post.data.content.intro.author_ids == pre.data.content.intro.author_ids
                &&& post.data.content.intro.language == pre.data.content.intro.language
                &&& post.data.content.wf()
                &&& !post.data.content.intro.magazine_ids.has(mid)
                &&& forall|y: u64| y != mid ==> post.data.content.intro.magazine_ids.has(y)
                    == pre.data.content.intro.magazine_ids.has(y)
                &&& if pre.data.content.intro.magazine_ids.has(mid) {
                    post.updated_at == now
                } else {
                    post == pre
                }
            },
    {
        let mut i: usize = 0;
        let mut matched: u64 = 0;
        while i < self.entities.len()
            invariant
                old(self).wf(),
                old(self).times_le(now - 1),
                old(self).entities@.len() <= u64::MAX,
                forall|k: int| 0 <= k < old(self).len()
                    ==> old(self).entities@[k].data.content.wf(),
                i <= self.entities@.len(),
                matched <= i,
                matched == count_with_magazine(old(self).entities@.subrange(0, i as int), mid),
                self.next_id == old(self).next_id,
                self.entities@.len() == old(self).entities@.len(),
                forall|k: int| i <= k < self.entities@.len()
                    ==> self.entities@[k] == old(self).entities@[k],
                forall|k: int| #![trigger self.entities@[k]] 0 <= k < i ==> {
                    let pre = old(self).entities@[k];
                    let post = self.entities@[k];
                    &&& post.id == pre.id
                    &&& post.created_at == pre.created_at
                    &&& post.data.owner_id == pre.data.owner_id
                    &&& post.data.is_public == pre.data.is_public
                    &&& post.data.content.downloads == pre.data.content.downloads
                    &&& post.data.content.intro.doi == pre.data.content.intro.doi
                    &&& post.data.content.intro.title == pre.data.content.intro.title
                    &&& post.data.content.intro.abstraction
                        == pre.data.content.intro.abstraction
                    &&& post.data.content.intro.keywords == pre.data.content.intro.keywords
                    &&& post.data.content.intro.author_ids == pre.data.content.intro.author_ids
                    &&& post.data.content.intro.language == pre.data.content.intro.language
                    &&& post.data.content.wf()
                    &&& !post.data.content.intro.magazine_ids.has(mid)
                    &&& forall|y: u64| y != mid ==> post.data.content.intro.magazine_ids.has(y)
                        == pre.data.content.intro.magazine_ids.has(y)
                    &&& if pre.data.content.intro.magazine_ids.has(mid) {
                        post.updated_at == now
                    } else {
                        post == pre
                    }
                },
            decreases self.entities@.len() - i,
        {
            let ghost step = old(self).entities@.subrange(0, i as int);
            let ghost step1 = old(self).entities@.subrange(0, i + 1);
            proof {
                assert(step1.drop_last() =~= step);
                assert(step1.last() == old(self).entities@[i as int]);
            }
            if self.entities[i].data.content.intro.magazine_ids.contains(mid) {
                let ghost cur = self.entities@;
                let e = self.entities.remove(i);
                let Entity { id, data, created_at, updated_at: _ } = e;
                let Owned { owner_id, is_public, content } = data;
                let Thesis { intro, downloads } = content;
                let ThesisIntroduction {
                    mut magazine_ids,
                    doi,
                    title,
                    abstraction,
                    keywords,
                    author_ids,
                    language,
                } = intro;
                magazine_ids.remove(mid);
                let e2 = Entity {
                    id,
                    data: Owned {
                        owner_id,
                        is_public,
                        content: Thesis {
                            intro: ThesisIntroduction {
                                magazine_ids,
                                doi,
                                title,
                                abstraction,
                                keywords,
                                author_ids,
                                language,
                            },
                            downloads,
                        },
                    },
                    created_at,
                    updated_at: now,
                };
                self.entities.insert(i, e2);
                matched = matched + 1;
                proof {
                    assert(self.entities@ =~= cur.update(i as int, e2));
                }
            }
            i += 1;
        }
        proof {
            assert(old(self).entities@.subrange(0, i as int) =~= old(self).entities@);
            assert(final(self).wf()) by {
                assert(forall|k: int|
                    0 <= k < self.entities@.len() ==> self.entities@[k].id
                        == old(self).entities@[k].id);
                assert(forall|k: int|
                    0 <= k < self.entities@.len()
                        ==> self.entities@[k].created_at <= self.entities@[k].updated_at);
            }
            assert(final(self).times_le(now as int)) by {
                assert(forall|k: int|
                    0 <= k < self.entities@.len() ==> self.entities@[k].created_at <= now
                        && self.entities@[k].updated_at <= now);
            }
            assert forall|x: u64| final(self).has(x) == old(self).has(x) by {
                if old(self).has(x) {
                    let k = old(self).idx(x);
                    assert(self.entities@[k].id == x);
                }
                if self.has(x) {
                    let k = self.idx(x);
                    assert(old(self).entities@[k].id == x);
                }
            }
        }
        (matched, matched)
    }

    /// Atomically count one more download of the thesis carrying `id`.
    pub fn inc_downloads(&mut self, id: u64, now: u64) -> (r: bool)
        requires
            old(self).wf(),
            old(self).times_le(now - 1),
            old(self).has(id) ==> old(self).get(id).data.content.downloads < i32::MAX,
        ensures
            final(self).wf(),
            final(self).times_le(now as int),
            final(self).next_id == old(self).next_id,
            r == old(self).has(id),
            final(self).entities@.len() == old(self).entities@.len(),
            !r ==> *final(self) == *old(self),
            forall|x: u64| final(self).has(x) == old(self).has(x),
            r ==> {
                let pre = old(self).get(id);
                let post = final(self).get(id);
                &&& post.id == id
                &&& post.created_at == pre.created_at
                &&& post.updated_at == now
                &&& pre.updated_at < now
                &&& post.data.owner_id == pre.data.owner_id
                &&& post.data.is_public == pre.data.is_public
                &&& post.data.content.intro == pre.data.content.intro
                &&& post.data.content.downloads == pre.data.content.downloads + 1
            },
            forall|x: u64| x != id && old(self).has(x) ==> final(self).get(x) == old(self).get(x),
    {
        match self.extract(id) {
            Some((i, e)) => {
                let ghost mid = *self;
                let ghost e0 = e;
                let Entity { id: eid, data, created_at, updated_at: _ } = e;
                let Owned { owner_id, is_public, content } = data;
                let Thesis { intro, downloads } = content;
                let e2 = Entity {
                    id: eid,
                    data: Owned {
                        owner_id,
                        is_public,
                        content: Thesis { intro, downloads: downloads + 1 },
                    },
                    created_at,
                    updated_at: now,
                };
                self.restore(i, e2);
                proof {
                    Collection::lemma_update_entity(*old(self), mid, *self, i as int, e0, e2, now);
                }
                true
            },
            None => false,
        }
    }
}

impl Countable for Thesis {
    open spec fn singular_spec() -> Seq<char> {
        "Thesis"@
    }

    open spec fn lower_spec() -> Seq<char> {
        "thesis"@
    }

    fn singular() -> &'static str {
        "Thesis"
    }

    fn lower_name() -> &'static str {
        "thesis"
    }
}

impl Data for Owned<Thesis> {
    open spec fn schema_name_spec() -> Seq<char> {
        "Thesis"@
    }

    open spec fn collection_name_spec() -> Seq<char> {
        plural_of("thesis"@)
    }

    fn schema_name() -> &'static str {
        "Thesis"
    }

    fn collection_name() -> (r: String) {
        Thesis::plural()
    }
}

} // verus!
