//! Read projections.
//!
//! Each domain type has a view companion holding exactly the fields marked
//! visible, under their declared wire renames (lower camel case), and
//! nothing else.  Views are for output only: nothing is ever stored from
//! them.  The `wire` functions lay a view out as a key/value document and
//! pin its exact keys, which is what "exactly the visible fields, under
//! their renames, and no others" means on the wire.

use vstd::prelude::*;

use crate::crud::{Render, Viewable};
use crate::idset::IdSet;
use crate::owned::Owned;
use crate::paper::{Category, Magazine, PaperCollection};
use crate::profile::{Bio, Notification, Profile};
use crate::review::Review;
use crate::store::Entity;
use crate::thesis::{Thesis, ThesisIntroduction, ThesisIntroductionPatch};
use crate::util::{dup_ids, dup_opt_string, dup_strings};
use crate::version::{ReviewPattern, Reviewing, Version, VersionState};
use crate::wire::{veq, Doc, Value};

verus! {

pub struct BioView {
    pub name: String,
    pub avatar_id: Option<u64>,
}

impl Render for BioView {
    type Object = Bio;
}

impl Viewable for Bio {
    type Rendered = BioView;
}

pub fn render_bio(x: &Bio) -> (v: BioView)
    ensures
        v.name == x.name,
        v.avatar_id == x.avatar_id,
{
    BioView { name: x.name.clone(), avatar_id: x.avatar_id }
}

impl BioView {
    /// The visible fields under their renames, and no others.
    pub fn wire(&self) -> (r: Doc)
        ensures
            r.wf(),
            r.keys() =~= seq!["name"@, "avatarId"@],
            veq(r.val("name"@), Value::Text(self.name)),
            self.avatar_id is Some ==> r.val("avatarId"@) == Value::Ref(self.avatar_id->0),
            self.avatar_id is None ==> r.val("avatarId"@) == Value::Null,
    {
        let mut fields: Vec<(String, Value)> = Vec::new();
        fields.push((String::from_str("name"), Value::Text(self.name.clone())));
        let av = match self.avatar_id {
            Some(a) => Value::Ref(a),
            None => Value::Null,
        };
        fields.push((String::from_str("avatarId"), av));
        let r = Doc { fields };
        proof {
            reveal_strlit("name");
            reveal_strlit("avatarId");
            assert(r.keys() =~= seq!["name"@, "avatarId"@]);
            assert(r.wf()) by {
                assert("name"@.len() != "avatarId"@.len());
            }
            Doc::lemma_key_at(r, 0);
            Doc::lemma_key_at(r, 1);
        }
        r
    }
}

pub struct NotificationView {
    pub email: bool,
    pub push: bool,
}

impl Render for NotificationView {
    type Object = Notification;
}

impl Viewable for Notification {
    type Rendered = NotificationView;
}

pub fn render_notification(x: &Notification) -> (v: NotificationView)
    ensures
        v.email == x.email,
        v.push == x.push,
{
    NotificationView { email: x.email, push: x.push }
}

pub struct ProfileView {
    pub email: String,
    pub notice: NotificationView,
    pub bio: BioView,
}

impl Render for ProfileView {
    type Object = Profile;
}

impl Viewable for Profile {
    type Rendered = ProfileView;
}

pub fn render_profile(x: &Profile) -> (v: ProfileView)
    ensures
        v.email == x.email,
        v.notice.email == x.notice.email,
        v.notice.push == x.notice.push,
        v.bio.name == x.bio.name,
        v.bio.avatar_id == x.bio.avatar_id,
{
    ProfileView {
        email: x.email.clone(),
        notice: render_notification(&x.notice),
        bio: render_bio(&x.bio),
    }
}

/// A profile in a visitor's view: only the bio.
pub struct PublicProfile {
    pub bio: BioView,
}

impl Render for PublicProfile {
    type Object = Profile;
}

pub fn render_public_profile(x: &Profile) -> (v: PublicProfile)
    ensures
        v.bio.name == x.bio.name,
        v.bio.avatar_id == x.bio.avatar_id,
{
    PublicProfile { bio: render_bio(&x.bio) }
}

pub struct ThesisIntroductionView {
    pub magazine_ids: IdSet,
    pub doi: Option<String>,
    pub title: String,
    pub abstraction: String,
    pub keywords: Vec<String>,
    pub author_ids: Vec<u64>,
    pub language: Vec<String>,
}

impl Render for ThesisIntroductionView {
    type Object = ThesisIntroduction;
}

impl Viewable for ThesisIntroduction {
    type Rendered = ThesisIntroductionView;
}

pub fn render_thesis_introduction(x: &ThesisIntroduction) -> (v: ThesisIntroductionView)
    ensures
        v.magazine_ids.elems() == x.magazine_ids.elems(),
        v.doi == x.doi,
        v.title == x.title,
        v.abstraction == x.abstraction,
        v.keywords@ == x.keywords@,
        v.author_ids@ == x.author_ids@,
        v.language@ == x.language@,
{
    ThesisIntroductionView {
        magazine_ids: x.magazine_ids.duplicate(),
        doi: dup_opt_string(&x.doi),
        title: x.title.clone(),
        abstraction: x.abstraction.clone(),
        keywords: dup_strings(&x.keywords),
        author_ids: dup_ids(&x.author_ids),
        language: dup_strings(&x.language),
    }
}

impl ThesisIntroductionView {
    /// The visible fields under their renames, and no others.
    #[verifier::rlimit(60)]
    pub fn wire(&self) -> (r: Doc)
        ensures
            r.wf(),
            r.keys() =~= seq![
                "magazineIds"@,
                "doi"@,
                "title"@,
                "abstraction"@,
                "keywords"@,
                "authorIds"@,
                "language"@,
            ],
            veq(r.val("magazineIds"@), Value::Refs(self.magazine_ids.ids)),
            self.doi is Some ==> veq(r.val("doi"@), Value::Text(self.doi->0)),
            self.doi is None ==> r.val("doi"@) == Value::Null,
            veq(r.val("title"@), Value::Text(self.title)),
            veq(r.val("abstraction"@), Value::Text(self.abstraction)),
            veq(r.val("keywords"@), Value::Texts(self.keywords)),
            veq(r.val("authorIds"@), Value::Refs(self.author_ids)),
            veq(r.val("language"@), Value::Texts(self.language)),
    {
        let mut fields: Vec<(String, Value)> = Vec::new();
        fields.push(
            (String::from_str("magazineIds"), Value::Refs(dup_ids(&self.magazine_ids.ids))),
        );
        let doi = match &self.doi {
            Some(d) => Value::Text(d.clone()),
            None => Value::Null,
        };
        fields.push((String::from_str("doi"), doi));
        fields.push((String::from_str("title"), Value::Text(self.title.clone())));
        fields.push((String::from_str("abstraction"), Value::Text(self.abstraction.clone())));
        fields.push((String::from_str("keywords"), Value::Texts(dup_strings(&self.keywords))));
        fields.push((String::from_str("authorIds"), Value::Refs(dup_ids(&self.author_ids))));
        fields.push((String::from_str("language"), Value::Texts(dup_strings(&self.language))));
        let r = Doc { fields };
        proof {
            reveal_strlit("magazineIds");
            reveal_strlit("doi");
            reveal_strlit("title");
            reveal_strlit("abstraction");
            reveal_strlit("keywords");
            reveal_strlit("authorIds");
            reveal_strlit("language");
            assert(r.keys() =~= seq![
                "magazineIds"@,
                "doi"@,
                "title"@,
                "abstraction"@,
                "keywords"@,
                "authorIds"@,
                "language"@,
            ]);
            assert(r.wf()) by {
                assert forall|i: int, j: int|
                    0 <= i < j < r.fields@.len()
                    implies r.fields@[i].0@ != r.fields@[j].0@ by {
                    assert(r.fields@[i].0@ == r.keys()[i]);
                    assert(r.fields@[j].0@ == r.keys()[j]);
                    assert("magazineIds"@.len() == 11 && "doi"@.len() == 3 && "title"@.len() == 5
                        && "abstraction"@.len() == 11 && "keywords"@.len() == 8
                        && "authorIds"@.len() == 9 && "language"@.len() == 8);
                    assert("magazineIds"@[0] == 'm' && "abstraction"@[0] == 'a');
                    assert("keywords"@[0] == 'k' && "language"@[0] == 'l');
                }
            }
            Doc::lemma_key_at(r, 0);
            Doc::lemma_key_at(r, 1);
            Doc::lemma_key_at(r, 2);
            Doc::lemma_key_at(r, 3);
            Doc::lemma_key_at(r, 4);
            Doc::lemma_key_at(r, 5);
            Doc::lemma_key_at(r, 6);
        }
        r
    }
}

impl ThesisIntroductionPatch {
    /// The patch on the wire: a field left unset is not serialized at all.
    #[verifier::rlimit(100)]
    pub fn wire(&self) -> (r: Doc)
        ensures
            r.wf(),
            r.has_key("magazineIds"@) <==> self.magazine_ids is Some,
            r.has_key("doi"@) <==> self.doi is Some,
            r.has_key("title"@) <==> self.title is Some,
            r.has_key("abstraction"@) <==> self.abstraction is Some,
            r.has_key("keywords"@) <==> self.keywords is Some,
            r.has_key("authorIds"@) <==> self.author_ids is Some,
            r.has_key("language"@) <==> self.language is Some,
            forall|q: Seq<char>|
                r.has_key(q) ==> q == "magazineIds"@ || q == "doi"@ || q == "title"@ || q
                    == "abstraction"@ || q == "keywords"@ || q == "authorIds"@ || q
                    == "language"@,
            self.title is Some ==> veq(r.val("title"@), Value::Text(self.title->0)),
    {
        let mut r = Doc::new();
        proof {
            reveal_strlit("magazineIds");
            reveal_strlit("doi");
            reveal_strlit("title");
            reveal_strlit("abstraction");
            reveal_strlit("keywords");
            reveal_strlit("authorIds");
            reveal_strlit("language");
            assert("magazineIds"@[0] == 'm' && "abstraction"@[0] == 'a');
            assert("keywords"@[0] == 'k' && "language"@[0] == 'l');
        }
        match &self.magazine_ids {
            Some(ms) => {
                r.put(String::from_str("magazineIds"), Value::Refs(dup_ids(&ms.ids)));
            },
            None => {},
        }
        proof {
            assert(r.has_key("magazineIds"@) <==> self.magazine_ids is Some);
            assert(forall|q: Seq<char>| r.has_key(q) ==> q == "magazineIds"@);
        }
        match &self.doi {
            Some(d) => {
                let v = match d {
                    Some(s) => Value::Text(s.clone()),
                    None => Value::Null,
                };
                r.put(String::from_str("doi"), v);
            },
            None => {},
        }
        proof {
            assert(r.has_key("magazineIds"@) <==> self.magazine_ids is Some);
            assert(r.has_key("doi"@) <==> self.doi is Some);
            assert(forall|q: Seq<char>| r.has_key(q) ==> q == "magazineIds"@ || q == "doi"@);
        }
        match &self.title {
            Some(t) => {
                r.put(String::from_str("title"), Value::Text(t.clone()));
            },
            None => {},
        }
        proof {
            assert(r.has_key("magazineIds"@) <==> self.magazine_ids is Some);
            assert(r.has_key("doi"@) <==> self.doi is Some);
            assert(r.has_key("title"@) <==> self.title is Some);
            assert(self.title is Some ==> veq(r.val("title"@), Value::Text(self.title->0)));
            assert(forall|q: Seq<char>|
                r.has_key(q) ==> q == "magazineIds"@ || q == "doi"@ || q == "title"@);
        }
        match &self.abstraction {
            Some(t) => {
                r.put(String::from_str("abstraction"), Value::Text(t.clone()));
            },
            None => {},
        }
        proof {
            assert(r.has_key("magazineIds"@) <==> self.magazine_ids is Some);
            assert(r.has_key("doi"@) <==> self.doi is Some);
            assert(r.has_key("title"@) <==> self.title is Some);
            assert(r.has_key("abstraction"@) <==> self.abstraction is Some);
            assert(self.title is Some ==> veq(r.val("title"@), Value::Text(self.title->0)));
            assert(forall|q: Seq<char>|
                r.has_key(q) ==> q == "magazineIds"@ || q == "doi"@ || q == "title"@ || q
                    == "abstraction"@);
        }
        match &self.keywords {
            Some(t) => {
                r.put(String::from_str("keywords"), Value::Texts(dup_strings(t)));
            },
            None => {},
        }
        proof {
            assert(r.has_key("magazineIds"@) <==> self.magazine_ids is Some);
            assert(r.has_key("doi"@) <==> self.doi is Some);
            assert(r.has_key("title"@) <==> self.title is Some);
            assert(r.has_key("abstraction"@) <==> self.abstraction is Some);
            assert(r.has_key("keywords"@) <==> self.keywords is Some);
            assert(self.title is Some ==> veq(r.val("title"@), Value::Text(self.title->0)));
            assert(forall|q: Seq<char>|
                r.has_key(q) ==> q == "magazineIds"@ || q == "doi"@ || q == "title"@ || q
                    == "abstraction"@ || q == "keywords"@);
        }
        match &self.author_ids {
            Some(t) => {
                r.put(String::from_str("authorIds"), Value::Refs(dup_ids(t)));
            },
            None => {},
        }
        proof {
            assert(r.has_key("magazineIds"@) <==> self.magazine_ids is Some);
            assert(r.has_key("doi"@) <==> self.doi is Some);
            assert(r.has_key("title"@) <==> self.title is Some);
            assert(r.has_key("abstraction"@) <==> self.abstraction is Some);
            assert(r.has_key("keywords"@) <==> self.keywords is Some);
            assert(r.has_key("authorIds"@) <==> self.author_ids is Some);
            assert(self.title is Some ==> veq(r.val("title"@), Value::Text(self.title->0)));
            assert(forall|q: Seq<char>|
                r.has_key(q) ==> q == "magazineIds"@ || q == "doi"@ || q == "title"@ || q
                    == "abstraction"@ || q == "keywords"@ || q == "authorIds"@);
        }
        match &self.language {
            Some(t) => {
                r.put(String::from_str("language"), Value::Texts(dup_strings(t)));
            },
            None => {},
        }
        proof {
            assert(r.has_key("language"@) <==> self.language is Some);
        }
        r
    }
}

pub struct ThesisView {
    pub intro: ThesisIntroductionView,
    pub downloads: i32,
}

impl Render for ThesisView {
    type Object = Thesis;
}

impl Viewable for Thesis {
    type Rendered = ThesisView;
}

pub fn render_thesis(x: &Thesis) -> (v: ThesisView)
    ensures
        v.intro.magazine_ids.elems() == x.intro.magazine_ids.elems(),
        v.intro.doi == x.intro.doi,
        v.intro.title == x.intro.title,
        v.intro.abstraction == x.intro.abstraction,
        v.intro.keywords@ == x.intro.keywords@,
        v.intro.author_ids@ == x.intro.author_ids@,
        v.intro.language@ == x.intro.language@,
        v.downloads == x.downloads,
{
    ThesisView { intro: render_thesis_introduction(&x.intro), downloads: x.downloads }
}

pub struct ReviewingView {
    pub remainder_ids: Vec<u64>,
    pub pattern: ReviewPattern,
}

pub enum VersionStateView {
    Uploaded,
    Reviewing(ReviewingView),
    Passed(bool),
    History,
}

impl Render for VersionStateView {
    type Object = VersionState;
}

impl Viewable for VersionState {
    type Rendered = VersionStateView;
}

pub fn render_version_state(x: &VersionState) -> (v: VersionStateView)
    ensures
        match (x, v) {
            (VersionState::Uploaded, VersionStateView::Uploaded) => true,
            (VersionState::Reviewing(a), VersionStateView::Reviewing(b)) => b.remainder_ids@
                == a.remainder_ids.elems() && b.pattern == a.pattern,
            (VersionState::Passed(a), VersionStateView::Passed(b)) => a == b,
            (VersionState::History, VersionStateView::History) => true,
            _ => false,
        },
{
    match x {
        VersionState::Uploaded => VersionStateView::Uploaded,
        VersionState::Reviewing(rv) => VersionStateView::Reviewing(
            ReviewingView { remainder_ids: dup_ids(&rv.remainder_ids.ids), pattern: rv.pattern },
        ),
        VersionState::Passed(b) => VersionStateView::Passed(*b),
        VersionState::History => VersionStateView::History,
    }
}

pub struct VersionView {
    pub thesis_id: u64,
    pub release_id: u64,
    pub source_ids: Vec<u64>,
    pub major_number: i32,
    pub minor_number: i32,
    pub state: VersionStateView,
    pub review_ids: Vec<u64>,
    pub downloads: i32,
}

impl Render for VersionView {
    type Object = Version;
}

impl Viewable for Version {
    type Rendered = VersionView;
}

pub fn render_version(x: &Version) -> (v: VersionView)
    ensures
        v.thesis_id == x.thesis_id,
        v.release_id == x.release_id,
        v.source_ids@ == x.source_ids@,
        v.major_number == x.major_number,
        v.minor_number == x.minor_number,
        v.review_ids@ == x.review_ids.elems(),
        v.downloads == x.downloads,
        match (x.state, v.state) {
            (VersionState::Uploaded, VersionStateView::Uploaded) => true,
            (VersionState::Reviewing(a), VersionStateView::Reviewing(b)) => b.remainder_ids@
                == a.remainder_ids.elems() && b.pattern == a.pattern,
            (VersionState::Passed(a), VersionStateView::Passed(b)) => a == b,
            (VersionState::History, VersionStateView::History) => true,
            _ => false,
        },
{
    VersionView {
        thesis_id: x.thesis_id,
        release_id: x.release_id,
        source_ids: dup_ids(&x.source_ids),
        major_number: x.major_number,
        minor_number: x.minor_number,
        state: render_version_state(&x.state),
        review_ids: dup_ids(&x.review_ids.ids),
        downloads: x.downloads,
    }
}

pub struct ReviewView {
    pub version_id: u64,
    pub criticism: String,
    pub judgement: bool,
}

impl Render for ReviewView {
    type Object = Review;
}

impl Viewable for Review {
    type Rendered = ReviewView;
}

pub fn render_review(x: &Review) -> (v: ReviewView)
    ensures
        v.version_id == x.version_id,
        v.criticism == x.criticism,
        v.judgement == x.judgement,
{
    ReviewView {
        version_id: x.version_id,
        criticism: x.criticism.clone(),
        judgement: x.judgement,
    }
}

pub struct MagazineView {
    pub abbr: Vec<String>,
    pub language: Vec<String>,
    pub pages_min: i32,
    pub homepage: Option<String>,
    pub template_link: Option<String>,
    pub community_link: Option<String>,
    pub others: String,
}

impl Render for MagazineView {
    type Object = Magazine;
}

impl Viewable for Magazine {
    type Rendered = MagazineView;
}

pub fn render_magazine(x: &Magazine) -> (v: MagazineView)
    ensures
        v.abbr@ == x.abbr@,
        v.language@ == x.language@,
        v.pages_min == x.pages_min,
        v.homepage == x.homepage,
        v.template_link == x.template_link,
        v.community_link == x.community_link,
        v.others == x.others,
{
    MagazineView {
        abbr: dup_strings(&x.abbr),
        language: dup_strings(&x.language),
        pages_min: x.pages_min,
        homepage: dup_opt_string(&x.homepage),
        template_link: dup_opt_string(&x.template_link),
        community_link: dup_opt_string(&x.community_link),
        others: x.others.clone(),
    }
}

pub struct CategoryView {

}

impl Render for CategoryView {
    type Object = Category;
}

impl Viewable for Category {
    type Rendered = CategoryView;
}

pub struct PaperCollectionView<DV> {
    pub category_ids: Vec<u64>,
    pub name: String,
    pub description: String,
    pub detail: DV,
}

impl<DV: Render> Render for PaperCollectionView<DV> {
    type Object = PaperCollection<DV::Object>;
}

/// An owned record in a reader's view: the owner, the visibility flag, and
/// the content's own view.
pub struct OwnedView<CV> {
    pub owner_id: u64,
    pub is_public: bool,
    pub content: CV,
}

impl<CV: Render> Render for OwnedView<CV> {
    type Object = Owned<CV::Object>;
}

/// An attached record in a reader's view.
pub struct AttachedView<CV> {
    pub creator_id: Option<u64>,
    pub content: CV,
}

impl<CV: Render> Render for AttachedView<CV> {
    type Object = crate::attached::Attached<CV::Object>;
}

/// A stored record in a reader's view: its id, the data's view, and the two
/// timestamps.
pub struct EntityView<DV> {
    pub id: u64,
    pub data: DV,
    pub create_time: u64,
    pub update_time: u64,
}

impl<DV: Render> Render for EntityView<DV> {
    type Object = Entity<DV::Object>;
}

impl<DV: Render> EntityView<DV> {
    /// Wrap a rendered payload with the record's identity and timestamps.
    pub fn of(e: &Entity<DV::Object>, data: DV) -> (r: Self)
        ensures
            r.id == e.id,
            r.data == data,
            r.create_time == e.created_at,
            r.update_time == e.updated_at,
    {
        EntityView { id: e.id, data, create_time: e.created_at, update_time: e.updated_at }
    }
}

} // verus!
