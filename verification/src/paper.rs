//! Paper collections: categories and magazines.
//!
//! A paper collection groups documents; it belongs to categories, and its
//! detail decides the kind: a bare category, or a magazine with its
//! publication data.

use vstd::prelude::*;

use crate::crud::{Patch, Patchable, Post, Postable};
use crate::idset::IdSet;
use crate::names::{plural_of, Countable, Data};
use crate::owned::Owned;
use crate::store::{Collection, Entity};

verus! {

/// What a detail type brings along: its companions, its names, and its own
/// well-formedness.
pub trait PaperCollectionDetail: Postable + Patchable + Countable {
    /// What must hold of a stored detail value.
    spec fn detail_wf(self) -> bool;
}

pub struct PaperCollection<D> {
    pub category_ids: IdSet,
    pub name: String,
    pub description: String,
    pub detail: D,
}

pub struct PaperCollectionPost<D: Postable> {
    pub category_ids: IdSet,
    pub name: String,
    pub description: String,
    pub detail: D::Post,
}

impl<D: Postable> Post for PaperCollectionPost<D> {

}

impl<D: PaperCollectionDetail> Postable for PaperCollection<D> {
    type Post = PaperCollectionPost<D>;

    open spec fn posted_spec(p: PaperCollectionPost<D>) -> Self {
        PaperCollection {
            category_ids: p.category_ids,
            name: p.name,
            description: p.description,
            detail: D::posted_spec(p.detail),
        }
    }

    fn from_post(p: PaperCollectionPost<D>) -> Self {
        PaperCollection {
            category_ids: p.category_ids,
            name: p.name,
            description: p.description,
            detail: D::from_post(p.detail),
        }
    }
}

pub struct PaperCollectionPatch<D: Patchable> {
    pub category_ids: Option<IdSet>,
    pub name: Option<String>,
    pub description: Option<String>,
    pub detail: D::Patch,
}

impl<D: Patchable> Patch for PaperCollectionPatch<D> {

}

impl<D: PaperCollectionDetail> Patchable for PaperCollection<D> {
    type Patch = PaperCollectionPatch<D>;

    open spec fn patched_spec(self, p: PaperCollectionPatch<D>) -> Self {
        PaperCollection {
            category_ids: if p.category_ids is Some {
                p.category_ids->0
            } else {
                self.category_ids
            },
            name: if p.name is Some {
                p.name->0
            } else {
                self.name
            },
            description: if p.description is Some {
                p.description->0
            } else {
                self.description
            },
            detail: self.detail.patched_spec(p.detail),
        }
    }

    fn apply_patch(self, p: PaperCollectionPatch<D>) -> Self {
        let PaperCollection { category_ids, name, description, detail } = self;
        PaperCollection {
            category_ids: match p.category_ids {
                Some(v) => v,
                None => category_ids,
            },
            name: match p.name {
                Some(v) => v,
                None => name,
            },
            description: match p.description {
                Some(v) => v,
                None => description,
            },
            detail: detail.apply_patch(p.detail),
        }
    }
}

impl<D: PaperCollectionDetail> PaperCollection<D> {
    /// The collection is well formed when its reference set and its detail
    /// are.
    pub open spec fn wf(self) -> bool {
        &&& self.category_ids.wf()
        &&& self.detail.detail_wf()
    }
}

/// How many records of the prefix hold this category reference.
pub open spec fn count_with_category<D>(
    s: Seq<Entity<Owned<PaperCollection<D>>>>,
    cid: u64,
) -> int
    decreases s.len(),
{
    if s.len() == 0 {
        0
    } else {
        count_with_category(s.drop_last(), cid) + if s.last().data.content.category_ids.has(cid) {
            1int
        } else {
            0int
        }
    }
}

impl<D: PaperCollectionDetail> Collection<Owned<PaperCollection<D>>> {
    /// Every record whose category set held `cid` loses that reference and
    /// gets a fresh `updated_at`; everything else about every record stays.
    pub fn pull_category(&mut self, cid: u64, now: u64) -> (r: (u64, u64))
        requires
            old(self).wf(),
            old(self).times_le(now - 1),
            old(self).entities@.len() <= u64::MAX,
            forall|i: int| 0 <= i < old(self).len()
                ==> old(self).entities@[i].data.content.wf(),
        ensures
            final(self).wf(),
            final(self).times_le(now as int),
            final(self).next_id == old(self).next_id,
            final(self).entities@.len() == old(self).entities@.len(),
            forall|x: u64| final(self).has(x) == old(self).has(x),
            r.0 == r.1,
            r.0 == count_with_category(old(self).entities@, cid),
            forall|k: int| #![trigger final(self).entities@[k]] 0 <= k < old(self).len() ==> {
                let pre = old(self).entities@[k];
                let post = final(self).entities@[k];
                &&& post.id == pre.id
                &&& post.created_at == pre.created_at
                &&& post.data.owner_id == pre.data.owner_id
                &&& post.data.is_public == pre.data.is_public
                &&& post.data.content.name == pre.data.content.name
                &&& post.data.content.description == pre.data.content.description
                &&& post.data.content.detail == pre.data.content.detail
                &&& post.data.content.wf()
                &&& !post.data.content.category_ids.has(cid)
                &&& forall|y: u64| y != cid ==> post.data.content.category_ids.has(y)
                    == pre.data.content.category_ids.has(y)
                &&& if pre.data.content.category_ids.has(cid) {
                    post.updated_at == now
                } else {
                    post == pre
                }
            },
    {
        let mut i: usize = 0;
        let mut matched: u64 = 0;
        while i < self.entities.len()
            invariant
                old(self).wf(),
                old(self).times_le(now - 1),
                old(self).entities@.len() <= u64::MAX,
                forall|k: int| 0 <= k < old(self).len()
                    ==> old(self).entities@[k].data.content.wf(),
                i <= self.entities@.len(),
                matched <= i,
                matched == count_with_category(old(self).entities@.subrange(0, i as int), cid),
                self.next_id == old(self).next_id,
                self.entities@.len() == old(self).entities@.len(),
                forall|k: int| i <= k < self.entities@.len()
                    ==> self.entities@[k] == old(self).entities@[k],
                forall|k: int| #![trigger self.entities@[k]] 0 <= k < i ==> {
                    let pre = old(self).entities@[k];
                    let post = self.entities@[k];
                    &&& post.id == pre.id
                    &&& post.created_at == pre.created_at
                    &&& post.data.owner_id == pre.data.owner_id
                    &&& post.data.is_public == pre.data.is_public
                    &&& post.data.content.name == pre.data.content.name
                    &&& post.data.content.description == pre.data.content.description
                    &&& post.data.content.detail == pre.data.content.detail
                    &&& post.data.content.wf()
                    &&& !post.data.content.category_ids.has(cid)
                    &&& forall|y: u64| y != cid ==> post.data.content.category_ids.has(y)
                        == pre.data.content.category_ids.has(y)
                    &&& if pre.data.content.category_ids.has(cid) {
                        post.updated_at == now
                    } else {
                        post == pre
                    }
                },
            decreases self.entities@.len() - i,
        {
            let ghost step = old(self).entities@.subrange(0, i as int);
            let ghost step1 = old(self).entities@.subrange(0, i + 1);
            proof {
                assert(step1.drop_last() =~= step);
                assert(step1.last() == old(self).entities@[i as int]);
            }
            if self.entities[i].data.content.category_ids.contains(cid) {
                let ghost cur = self.entities@;
                let e = self.entities.remove(i);
                let Entity { id, data, created_at, updated_at: _ } = e;
                let Owned { owner_id, is_public, content } = data;
                let PaperCollection { mut category_ids, name, description, detail } = content;
                category_ids.remove(cid);
                let e2 = Entity {
                    id,
                    data: Owned {
                        owner_id,
                        is_public,
                        content: PaperCollection { category_ids, name, description, detail },
                    },
                    created_at,
                    updated_at: now,
                };
                self.entities.insert(i, e2);
                matched = matched + 1;
                proof {
                    assert(self.entities@ =~= cur.update(i as int, e2));
                }
            }
            i += 1;
        }
        proof {
            assert(old(self).entities@.subrange(0, i as int) =~= old(self).entities@);
            assert(final(self).wf()) by {
                assert(forall|k: int|
                    0 <= k < self.entities@.len() ==> self.entities@[k].id
                        == old(self).entities@[k].id);
                assert(forall|k: int|
                    0 <= k < self.entities@.len()
                        ==> self.entities@[k].created_at <= self.entities@[k].updated_at);
            }
            assert(final(self).times_le(now as int)) by {
                assert(forall|k: int|
                    0 <= k < self.entities@.len() ==> self.entities@[k].created_at <= now
                        && self.entities@[k].updated_at <= now);
            }
            assert forall|x: u64| final(self).has(x) == old(self).has(x) by {
                if old(self).has(x) {
                    let k = old(self).idx(x);
                    assert(self.entities@[k].id == x);
                }
                if self.has(x) {
                    let k = self.idx(x);
                    assert(old(self).entities@[k].id == x);
                }
            }
        }
        (matched, matched)
    }
}

/// A bare grouping of collections; it carries no detail of its own.
pub struct Category {

}

pub struct CategoryPost {

}

impl Post for CategoryPost {

}

impl Postable for Category {
    type Post = CategoryPost;

    open spec fn posted_spec(p: CategoryPost) -> Self {
        Category {  }
    }

    fn from_post(p: CategoryPost) -> Self {
        Category {  }
    }
}

pub struct CategoryPatch {

}

impl Patch for CategoryPatch {

}

impl Patchable for Category {
    type Patch = CategoryPatch;

    open spec fn patched_spec(self, p: CategoryPatch) -> Self {
        self
    }

    fn apply_patch(self, p: CategoryPatch) -> Self {
        self
    }
}

impl Countable for Category {
    open spec fn singular_spec() -> Seq<char> {
        "Category"@
    }

    open spec fn lower_spec() -> Seq<char> {
        "category"@
    }

    fn singular() -> &'static str {
        "Category"
    }

    fn lower_name() -> &'static str {
        "category"
    }
}

impl PaperCollectionDetail for Category {
    /// A bare category carries nothing to constrain.
    open spec fn detail_wf(self) -> bool {
        true
    }
}

/// A magazine's publication data.  Links are carried as plain text.
pub struct Magazine {
    pub abbr: Vec<String>,
    pub language: Vec<String>,
    pub pages_min: i32,
    pub homepage: Option<String>,
    pub template_link: Option<String>,
    pub community_link: Option<String>,
    pub others: String,
}

pub struct MagazinePost {
    pub abbr: Vec<String>,
    pub language: Vec<String>,
    pub pages_min: i32,
    pub homepage: Option<String>,
    pub template_link: Option<String>,
    pub community_link: Option<String>,
    pub others: String,
}

impl Post for MagazinePost {

}

impl Postable for Magazine {
    type Post = MagazinePost;

    open spec fn posted_spec(p: MagazinePost) -> Self {
        Magazine {
            abbr: p.abbr,
            language: p.language,
            pages_min: p.pages_min,
            homepage: p.homepage,
            template_link: p.template_link,
            community_link: p.community_link,
            others: p.others,
        }
    }

    fn from_post(p: MagazinePost) -> Self {
        Magazine {
            abbr: p.abbr,
            language: p.language,
            pages_min: p.pages_min,
            homepage: p.homepage,
            template_link: p.template_link,
            community_link: p.community_link,
            others: p.others,
        }
    }
}

pub struct MagazinePatch {
    pub abbr: Option<Vec<String>>,
    pub language: Option<Vec<String>>,
    pub pages_min: Option<i32>,
    pub homepage: Option<Option<String>>,
    pub template_link: Option<Option<String>>,
    pub community_link: Option<Option<String>>,
    pub others: Option<String>,
}

impl Patch for MagazinePatch {

}

impl Patchable for Magazine {
    type Patch = MagazinePatch;

    open spec fn patched_spec(self, p: MagazinePatch) -> Self {
        Magazine {
            abbr: if p.abbr is Some {
                p.abbr->0
            } else {
                self.abbr
            },
            language: if p.language is Some {
                p.language->0
            } else {
                self.language
            },
            pages_min: if p.pages_min is Some {
                p.pages_min->0
            } else {
                self.pages_min
            },
            homepage: if p.homepage is Some {
                p.homepage->0
            } else {
                self.homepage
            },
            template_link: if p.template_link is Some {
                p.template_link->0
            } else {
                self.template_link
            },
            community_link: if p.community_link is Some {
                p.community_link->0
            } else {
                self.community_link
            },
            others: if p.others is Some {
                p.others->0
            } else {
                self.others
            },
        }
    }

    fn apply_patch(self, p: MagazinePatch) -> Self {
        let Magazine {
            abbr,
            language,
            pages_min,
            homepage,
            template_link,
            community_link,
            others,
        } = self;
        Magazine {
            abbr: match p.abbr {
                Some(v) => v,
                None => abbr,
            },
            language: match p.language {
                Some(v) => v,
                None => language,
            },
            pages_min: match p.pages_min {
                Some(v) => v,
                None => pages_min,
            },
            homepage: match p.homepage {
                Some(v) => v,
                None => homepage,
            },
            template_link: match p.template_link {
                Some(v) => v,
                None => template_link,
            },
            community_link: match p.community_link {
                Some(v) => v,
                None => community_link,
            },
            others: match p.others {
                Some(v) => v,
                None => others,
            },
        }
    }
}

impl Countable for Magazine {
    open spec fn singular_spec() -> Seq<char> {
        "Magazine"@
    }

    open spec fn lower_spec() -> Seq<char> {
        "magazine"@
    }

    fn singular() -> &'static str {
        "Magazine"
    }

    fn lower_name() -> &'static str {
        "magazine"
    }
}

impl PaperCollectionDetail for Magazine {
    /// Abbreviations and languages are sets: they do not repeat.
    open spec fn detail_wf(self) -> bool {
        &&& crate::util::strings_unique(self.abbr@)
        &&& crate::util::strings_unique(self.language@)
    }
}

impl Data for Owned<PaperCollection<Category>> {
    open spec fn schema_name_spec() -> Seq<char> {
        "Category"@
    }

    open spec fn collection_name_spec() -> Seq<char> {
        plural_of("category"@)
    }

    fn schema_name() -> &'static str {
        "Category"
    }

    fn collection_name() -> (r: String) {
        Category::plural()
    }
}

impl Data for Owned<PaperCollection<Magazine>> {
    open spec fn schema_name_spec() -> Seq<char> {
        "Magazine"@
    }

    open spec fn collection_name_spec() -> Seq<char> {
        plural_of("magazine"@)
    }

    fn schema_name() -> &'static str {
        "Magazine"
    }

    fn collection_name() -> (r: String) {
        Magazine::plural()
    }
}

} // verus!
