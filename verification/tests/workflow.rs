use prepublish::auth::AuthInfo;
use prepublish::db::Db;
use prepublish::errs::Error;
use prepublish::idset::IdSet;
use prepublish::paper::{CategoryPost, MagazinePost, PaperCollectionPost};
use prepublish::profile::BioPost;
use prepublish::review::Review;
use prepublish::thesis::ThesisIntroductionPost;
use prepublish::version::{ReviewPattern, Reviewing, VersionState};

fn user(id: u64) -> AuthInfo {
    AuthInfo { id, managing: false, publishing: false }
}

fn editor(id: u64) -> AuthInfo {
    AuthInfo { id, managing: false, publishing: true }
}

fn signup(db: &mut Db, email: &str) -> u64 {
    db.insert_profile(String::from(email), BioPost { name: String::from(email), avatar_id: None })
        .unwrap()
}

fn magazine_post() -> PaperCollectionPost<prepublish::paper::Magazine> {
    PaperCollectionPost {
        category_ids: IdSet::new(),
        name: String::from("a magazine"),
        description: String::from(""),
        detail: MagazinePost {
            abbr: vec![],
            language: vec![],
            pages_min: 4,
            homepage: None,
            template_link: None,
            community_link: None,
            others: String::from(""),
        },
    }
}

fn thesis_post(magazines: &[u64]) -> ThesisIntroductionPost {
    let mut ids = IdSet::new();
    for m in magazines {
        ids.insert(*m);
    }
    ThesisIntroductionPost {
        magazine_ids: ids,
        doi: None,
        title: String::from("a thesis"),
        abstraction: String::from("its abstract"),
        keywords: vec![],
        author_ids: vec![],
        language: vec![],
    }
}

fn review_entry(version_id: u64, judgement: bool) -> Review {
    Review { version_id, criticism: String::from("fine"), judgement }
}

fn version_state(db: &Db, vid: u64) -> &VersionState {
    &db.versions.lookup(vid).unwrap().data.content.state
}

#[test]
fn creating_a_thesis_with_a_nonexistent_magazine_is_a_bad_request() {
    let mut db = Db::new();
    let owner = signup(&mut db, "o@example.org");
    let r = db.insert_thesis_checked(&user(owner), thesis_post(&[99]));
    assert_eq!(r, Err(Error::BadRequest));
    assert_eq!(db.theses.entities.len(), 0);
    let mag = db.insert_magazine(owner, magazine_post()).unwrap();
    let id = db.insert_thesis_checked(&user(owner), thesis_post(&[mag])).unwrap();
    assert!(db.theses.lookup(id).is_some());
    assert!(!db.theses.lookup(id).unwrap().data.is_public);
}

#[test]
fn first_commit_yields_zero_one_and_the_second_zero_two() {
    let mut db = Db::new();
    let owner = signup(&mut db, "o@example.org");
    let thesis = db.insert_thesis_checked(&user(owner), thesis_post(&[])).unwrap();
    let v1 = db.commit(&user(owner), thesis, 100, vec![]).unwrap();
    let e1 = db.versions.lookup(v1).unwrap();
    assert_eq!(e1.data.content.major_number, 0);
    assert_eq!(e1.data.content.minor_number, 1);
    assert_eq!(e1.data.creator_id, Some(owner));
    let v2 = db.commit(&user(owner), thesis, 101, vec![]).unwrap();
    let e2 = db.versions.lookup(v2).unwrap();
    assert_eq!(e2.data.content.major_number, 0);
    assert_eq!(e2.data.content.minor_number, 2);
}

#[test]
fn commit_on_a_missing_thesis_is_not_found() {
    let mut db = Db::new();
    let owner = signup(&mut db, "o@example.org");
    assert_eq!(db.commit(&user(owner), 42, 100, vec![]), Err(Error::NotFound));
}

#[test]
fn commit_by_a_stranger_is_forbidden() {
    let mut db = Db::new();
    let owner = signup(&mut db, "o@example.org");
    let other = signup(&mut db, "x@example.org");
    let thesis = db.insert_thesis_checked(&user(owner), thesis_post(&[])).unwrap();
    assert_eq!(db.commit(&user(other), thesis, 100, vec![]), Err(Error::Forbidden));
}

#[test]
fn edit_requires_an_editor_and_known_referees() {
    let mut db = Db::new();
    let owner = signup(&mut db, "o@example.org");
    let thesis = db.insert_thesis_checked(&user(owner), thesis_post(&[])).unwrap();
    let v = db.commit(&user(owner), thesis, 100, vec![]).unwrap();
    let mut rs = IdSet::new();
    rs.insert(owner);
    let not_editor = db.edit(
        &user(owner),
        v,
        Reviewing { remainder_ids: rs, pattern: ReviewPattern::Reviewer },
    );
    assert_eq!(not_editor, Err(Error::Forbidden));
    let mut unknown = IdSet::new();
    unknown.insert(4040);
    let bad = db.edit(
        &editor(owner),
        v,
        Reviewing { remainder_ids: unknown, pattern: ReviewPattern::Reviewer },
    );
    assert_eq!(bad, Err(Error::BadRequest));
    assert!(matches!(version_state(&db, v), VersionState::Uploaded));
}

#[test]
fn adjudge_with_outstanding_editor_quorum_is_a_bad_request() {
    let mut db = Db::new();
    let boss = editor(signup(&mut db, "e@example.org"));
    let owner = signup(&mut db, "o@example.org");
    let thesis = db.insert_thesis_checked(&user(owner), thesis_post(&[])).unwrap();
    let v = db.commit(&user(owner), thesis, 100, vec![]).unwrap();
    let mut rs = IdSet::new();
    rs.insert(owner);
    let notices = db
        .edit(&boss, v, Reviewing { remainder_ids: rs, pattern: ReviewPattern::Editor })
        .unwrap();
    assert_eq!(notices, vec![owner]);
    let stamp = db.versions.lookup(v).unwrap().updated_at;
    let r = db.adjudge(&boss, v, true);
    assert_eq!(r, Err(Error::BadRequest));
    let e = db.versions.lookup(v).unwrap();
    assert_eq!(e.updated_at, stamp);
    match &e.data.content.state {
        VersionState::Reviewing(rv) => {
            assert_eq!(rv.pattern, ReviewPattern::Editor);
            assert!(rv.remainder_ids.contains(owner));
        },
        _ => panic!("the state must still be under review"),
    }
    assert!(!db.theses.lookup(thesis).unwrap().data.is_public);
}

#[test]
fn adjudging_an_uploaded_version_passes_it_and_publishes_the_thesis() {
    let mut db = Db::new();
    let boss = editor(signup(&mut db, "e@example.org"));
    let owner = signup(&mut db, "o@example.org");
    let thesis = db.insert_thesis_checked(&user(owner), thesis_post(&[])).unwrap();
    let v = db.commit(&user(owner), thesis, 100, vec![]).unwrap();
    db.adjudge(&boss, v, true).unwrap();
    assert!(matches!(version_state(&db, v), VersionState::Passed(true)));
    assert!(db.theses.lookup(thesis).unwrap().data.is_public);
}

#[test]
fn adjudging_false_does_not_publish() {
    let mut db = Db::new();
    let boss = editor(signup(&mut db, "e@example.org"));
    let owner = signup(&mut db, "o@example.org");
    let thesis = db.insert_thesis_checked(&user(owner), thesis_post(&[])).unwrap();
    let v = db.commit(&user(owner), thesis, 100, vec![]).unwrap();
    db.adjudge(&boss, v, false).unwrap();
    assert!(matches!(version_state(&db, v), VersionState::Passed(false)));
    assert!(!db.theses.lookup(thesis).unwrap().data.is_public);
}

#[test]
fn review_by_an_outsider_is_forbidden_and_stores_nothing() {
    let mut db = Db::new();
    let boss = editor(signup(&mut db, "e@example.org"));
    let owner = signup(&mut db, "o@example.org");
    let r1 = signup(&mut db, "r1@example.org");
    let thesis = db.insert_thesis_checked(&user(owner), thesis_post(&[])).unwrap();
    let v = db.commit(&user(owner), thesis, 100, vec![]).unwrap();
    let mut rs = IdSet::new();
    rs.insert(r1);
    db.edit(&boss, v, Reviewing { remainder_ids: rs, pattern: ReviewPattern::Reviewer })
        .unwrap();
    let before = db.reviews.entities.len();
    let r = db.review(&user(owner), v, review_entry(v, true));
    assert_eq!(r, Err(Error::Forbidden));
    assert_eq!(db.reviews.entities.len(), before);
    let again = db.review(&user(r1), v, review_entry(v, true)).unwrap();
    let r2 = db.review(&user(r1), v, review_entry(v, true));
    assert_eq!(r2, Err(Error::Forbidden));
    assert_eq!(db.reviews.entities.len(), before + 1);
    let _ = again;
}

#[test]
fn unanimous_referee_quorum_publishes_the_thesis() {
    let mut db = Db::new();
    let boss = editor(signup(&mut db, "e@example.org"));
    let owner = signup(&mut db, "o@example.org");
    let r1 = signup(&mut db, "r1@example.org");
    let r2 = signup(&mut db, "r2@example.org");
    let thesis = db.insert_thesis_checked(&user(owner), thesis_post(&[])).unwrap();
    let v = db.commit(&user(owner), thesis, 100, vec![]).unwrap();
    let e1 = db.versions.lookup(v).unwrap();
    assert_eq!(e1.data.content.major_number, 0);
    assert_eq!(e1.data.content.minor_number, 1);
    let mut rs = IdSet::new();
    rs.insert(r1);
    rs.insert(r2);
    db.edit(&boss, v, Reviewing { remainder_ids: rs, pattern: ReviewPattern::Reviewer })
        .unwrap();
    assert!(matches!(version_state(&db, v), VersionState::Reviewing(_)));
    let (rev1, count1) = db.review(&user(r1), v, review_entry(v, true)).unwrap();
    assert_eq!(count1, 1);
    assert!(!db.theses.lookup(thesis).unwrap().data.is_public);
    let (rev2, count2) = db.review(&user(r2), v, review_entry(v, true)).unwrap();
    assert_eq!(count2, 0);
    assert_ne!(rev1, rev2);
    assert!(db.theses.lookup(thesis).unwrap().data.is_public);
    let e = db.versions.lookup(v).unwrap();
    assert!(e.data.content.review_ids.contains(rev1));
    assert!(e.data.content.review_ids.contains(rev2));
}

#[test]
fn a_dissenting_review_blocks_publication() {
    let mut db = Db::new();
    let boss = editor(signup(&mut db, "e@example.org"));
    let owner = signup(&mut db, "o@example.org");
    let r1 = signup(&mut db, "r1@example.org");
    let r2 = signup(&mut db, "r2@example.org");
    let thesis = db.insert_thesis_checked(&user(owner), thesis_post(&[])).unwrap();
    let v = db.commit(&user(owner), thesis, 100, vec![]).unwrap();
    let mut rs = IdSet::new();
    rs.insert(r1);
    rs.insert(r2);
    db.edit(&boss, v, Reviewing { remainder_ids: rs, pattern: ReviewPattern::Reviewer })
        .unwrap();
    db.review(&user(r1), v, review_entry(v, false)).unwrap();
    db.review(&user(r2), v, review_entry(v, true)).unwrap();
    assert!(!db.theses.lookup(thesis).unwrap().data.is_public);
}

#[test]
fn three_records_deleting_the_owner_cascades_and_nulls_creators() {
    let mut db = Db::new();
    let owner = signup(&mut db, "o@example.org");
    let keeper = signup(&mut db, "k@example.org");
    let boss = editor(signup(&mut db, "e@example.org"));
    let own_thesis = db.insert_thesis_checked(&user(owner), thesis_post(&[])).unwrap();
    let mut kept_post = thesis_post(&[]);
    kept_post.author_ids = vec![owner];
    let kept_thesis = db.insert_thesis_checked(&user(keeper), kept_post).unwrap();
    let own_version = db.commit(&user(owner), own_thesis, 100, vec![]).unwrap();
    let kept_version = db.commit(&user(owner), kept_thesis, 101, vec![]).unwrap();
    let mut rs = IdSet::new();
    rs.insert(owner);
    db.edit(
        &boss,
        own_version,
        Reviewing { remainder_ids: rs, pattern: ReviewPattern::Reviewer },
    )
    .unwrap();
    let (own_review, _) = db.review(&user(owner), own_version, review_entry(own_version, true))
        .unwrap();
    let n = db.delete_profile_cascade(owner).unwrap();
    assert_eq!(n, 1);
    assert!(db.profiles.lookup(owner).is_none());
    assert!(db.theses.lookup(own_thesis).is_none());
    assert!(db.versions.lookup(own_version).is_none());
    assert!(db.reviews.lookup(own_review).is_none());
    assert!(db.theses.lookup(kept_thesis).is_some());
    let kv = db.versions.lookup(kept_version).unwrap();
    assert_eq!(kv.data.creator_id, None);
    for e in db.theses.entities.iter() {
        assert_ne!(e.data.owner_id, owner);
    }
}

#[test]
fn deleting_a_magazine_pulls_it_from_theses() {
    let mut db = Db::new();
    let owner = signup(&mut db, "o@example.org");
    let mag = db.insert_magazine(owner, magazine_post()).unwrap();
    let thesis = db.insert_thesis_checked(&user(owner), thesis_post(&[mag])).unwrap();
    assert!(db.theses.lookup(thesis).unwrap().data.content.intro.magazine_ids.contains(mag));
    let n = db.delete_magazine_cascade(mag).unwrap();
    assert_eq!(n, 1);
    assert!(db.magazines.lookup(mag).is_none());
    assert!(!db.theses.lookup(thesis).unwrap().data.content.intro.magazine_ids.contains(mag));
}

#[test]
fn collection_inserts_validate_their_categories() {
    let mut db = Db::new();
    let owner = signup(&mut db, "o@example.org");
    let mut bad = magazine_post();
    bad.category_ids.insert(404);
    assert_eq!(db.insert_magazine_checked(&user(owner), bad), Err(Error::BadRequest));
    assert_eq!(db.magazines.entities.len(), 0);
    let cat = db
        .insert_category_checked(
            &user(owner),
            PaperCollectionPost {
                category_ids: IdSet::new(),
                name: String::from("c"),
                description: String::from(""),
                detail: CategoryPost {},
            },
        )
        .unwrap();
    let mut good = magazine_post();
    good.category_ids.insert(cat);
    let mag = db.insert_magazine_checked(&user(owner), good).unwrap();
    let other = signup(&mut db, "x@example.org");
    let me = db.magazines.lookup(mag).unwrap();
    assert_eq!(me.data.owner_id, owner);
    assert!(prepublish::workflow::collection_authenticate(&user(owner), me));
    assert!(!prepublish::workflow::collection_authenticate(&user(other), me));
    let manager = AuthInfo { id: other, managing: true, publishing: false };
    assert!(prepublish::workflow::collection_authenticate(&manager, me));
}

#[test]
fn collection_patches_and_deletes_follow_ownership() {
    let mut db = Db::new();
    let owner = signup(&mut db, "o@example.org");
    let other = signup(&mut db, "x@example.org");
    let mag = db.insert_magazine(owner, magazine_post()).unwrap();
    let mut rename = prepublish::paper::PaperCollectionPatch {
        category_ids: None,
        name: Some(String::from("renamed")),
        description: None,
        detail: prepublish::paper::MagazinePatch {
            abbr: None,
            language: None,
            pages_min: None,
            homepage: None,
            template_link: None,
            community_link: None,
            others: None,
        },
    };
    let refused = db.set_magazine_checked(&user(other), mag, rename);
    assert_eq!(refused, Err(Error::Forbidden));
    rename = prepublish::paper::PaperCollectionPatch {
        category_ids: None,
        name: Some(String::from("renamed")),
        description: None,
        detail: prepublish::paper::MagazinePatch {
            abbr: None,
            language: None,
            pages_min: Some(8),
            homepage: None,
            template_link: None,
            community_link: None,
            others: None,
        },
    };
    db.set_magazine_checked(&user(owner), mag, rename).unwrap();
    let me = db.magazines.lookup(mag).unwrap();
    assert_eq!(me.data.content.name, "renamed");
    assert_eq!(me.data.content.detail.pages_min, 8);
    assert_eq!(db.delete_magazine_checked(&user(other), mag), Err(Error::Forbidden));
    assert_eq!(db.delete_magazine_checked(&user(owner), mag), Ok(1));
    assert!(db.magazines.lookup(mag).is_none());
}

#[test]
fn deleting_a_category_pulls_it_from_collections() {
    let mut db = Db::new();
    let owner = signup(&mut db, "o@example.org");
    let cat = db
        .insert_category(
            owner,
            PaperCollectionPost {
                category_ids: IdSet::new(),
                name: String::from("c"),
                description: String::from(""),
                detail: CategoryPost {},
            },
        )
        .unwrap();
    let mut in_cat = magazine_post();
    in_cat.category_ids.insert(cat);
    let mag = db.insert_magazine(owner, in_cat).unwrap();
    assert!(db.magazines.lookup(mag).unwrap().data.content.category_ids.contains(cat));
    db.delete_category_cascade(cat).unwrap();
    assert!(db.categories.lookup(cat).is_none());
    assert!(!db.magazines.lookup(mag).unwrap().data.content.category_ids.contains(cat));
}

#[test]
fn deleting_a_thesis_removes_its_versions_and_their_reviews() {
    let mut db = Db::new();
    let boss = editor(signup(&mut db, "e@example.org"));
    let owner = signup(&mut db, "o@example.org");
    let r1 = signup(&mut db, "r1@example.org");
    let thesis = db.insert_thesis_checked(&user(owner), thesis_post(&[])).unwrap();
    let v = db.commit(&user(owner), thesis, 100, vec![]).unwrap();
    let mut rs = IdSet::new();
    rs.insert(r1);
    db.edit(&boss, v, Reviewing { remainder_ids: rs, pattern: ReviewPattern::Reviewer })
        .unwrap();
    let (rev, _) = db.review(&user(r1), v, review_entry(v, true)).unwrap();
    assert_eq!(db.delete_thesis_checked(&user(owner), thesis), Err(prepublish::errs::Error::Forbidden));
    let n = db.delete_thesis_checked(&boss, thesis).unwrap();
    assert_eq!(n, 1);
    assert!(db.theses.lookup(thesis).is_none());
    assert!(db.versions.lookup(v).is_none());
    assert!(db.reviews.lookup(rev).is_none());
}

#[test]
fn pull_counts_the_records_that_held_the_reference() {
    let mut db = Db::new();
    let owner = signup(&mut db, "o@example.org");
    let mag = db.insert_magazine(owner, magazine_post()).unwrap();
    let with_mag = db.insert_thesis_checked(&user(owner), thesis_post(&[mag])).unwrap();
    let without = db.insert_thesis_checked(&user(owner), thesis_post(&[])).unwrap();
    let also_with = db.insert_thesis_checked(&user(owner), thesis_post(&[mag])).unwrap();
    let now = db.clock + 1;
    db.clock = now;
    let (matched, modified) = db.theses.pull_magazine(mag, now);
    assert_eq!(matched, 2);
    assert_eq!(modified, 2);
    let again = db.clock + 1;
    db.clock = again;
    let (rematched, _) = db.theses.pull_magazine(mag, again);
    assert_eq!(rematched, 0);
    assert!(db.theses.lookup(without).is_some());
    assert!(!db.theses.lookup(with_mag).unwrap().data.content.intro.magazine_ids.contains(mag));
    assert!(!db.theses.lookup(also_with).unwrap().data.content.intro.magazine_ids.contains(mag));
}

#[test]
fn cascade_steps_tolerate_re_execution() {
    let mut db = Db::new();
    let owner = signup(&mut db, "o@example.org");
    let mag = db.insert_magazine(owner, magazine_post()).unwrap();
    let thesis = db.insert_thesis_checked(&user(owner), thesis_post(&[mag])).unwrap();
    let v = db.commit(&user(owner), thesis, 100, vec![]).unwrap();
    assert_eq!(db.delete_magazine_cascade(mag), Ok(1));
    assert_eq!(db.delete_magazine_cascade(mag), Ok(0));
    assert!(!db.theses.lookup(thesis).unwrap().data.content.intro.magazine_ids.contains(mag));
    assert_eq!(db.delete_thesis_cascade(thesis), 1);
    assert_eq!(db.delete_thesis_cascade(thesis), 0);
    assert!(db.versions.lookup(v).is_none());
}

#[test]
fn downloading_a_release_counts_on_version_and_thesis() {
    let mut db = Db::new();
    let owner = signup(&mut db, "o@example.org");
    let thesis = db.insert_thesis_checked(&user(owner), thesis_post(&[])).unwrap();
    let v = db.commit(&user(owner), thesis, 100, vec![]).unwrap();
    let counted = db.version_downloaded(v).unwrap();
    assert!(counted);
    assert_eq!(db.versions.lookup(v).unwrap().data.content.downloads, 1);
    assert_eq!(db.theses.lookup(thesis).unwrap().data.content.downloads, 1);
}

#[test]
fn profiles_are_looked_up_by_their_unique_email() {
    let mut db = Db::new();
    let id = signup(&mut db, "a@example.org");
    let found = db.profile_by_email(&String::from("a@example.org")).unwrap();
    assert_eq!(found.id, id);
    assert!(db.profile_by_email(&String::from("b@example.org")).is_none());
}

#[test]
fn review_on_a_missing_version_is_not_found() {
    let mut db = Db::new();
    let r1 = signup(&mut db, "r1@example.org");
    assert_eq!(db.review(&user(r1), 77, review_entry(77, true)), Err(Error::NotFound));
}

#[test]
fn a_second_edit_of_the_same_version_is_a_bad_request() {
    let mut db = Db::new();
    let boss = editor(signup(&mut db, "e@example.org"));
    let owner = signup(&mut db, "o@example.org");
    let r1 = signup(&mut db, "r1@example.org");
    let thesis = db.insert_thesis_checked(&user(owner), thesis_post(&[])).unwrap();
    let v = db.commit(&user(owner), thesis, 100, vec![]).unwrap();
    let mut rs = IdSet::new();
    rs.insert(r1);
    db.edit(&boss, v, Reviewing { remainder_ids: rs, pattern: ReviewPattern::Editor })
        .unwrap();
    let mut rs2 = IdSet::new();
    rs2.insert(r1);
    let again = db.edit(
        &boss,
        v,
        Reviewing { remainder_ids: rs2, pattern: ReviewPattern::Editor },
    );
    assert_eq!(again, Err(Error::BadRequest));
}

#[test]
fn patching_a_thesis_with_a_missing_magazine_is_a_bad_request() {
    let mut db = Db::new();
    let owner = signup(&mut db, "o@example.org");
    let thesis = db.insert_thesis_checked(&user(owner), thesis_post(&[])).unwrap();
    let mut patch = prepublish::thesis::ThesisIntroductionPatch::unset();
    let mut wanted = IdSet::new();
    wanted.insert(123);
    patch.magazine_ids = Some(wanted);
    let r = db.set_thesis_checked(&user(owner), thesis, patch);
    assert_eq!(r, Err(Error::BadRequest));
    let mut rename = prepublish::thesis::ThesisIntroductionPatch::unset();
    rename.title = Some(String::from("renamed"));
    db.set_thesis_checked(&user(owner), thesis, rename).unwrap();
    assert_eq!(db.theses.lookup(thesis).unwrap().data.content.intro.title, "renamed");
}

#[test]
fn a_review_is_readable_by_its_writer_and_by_editors() {
    let mut db = Db::new();
    let boss = editor(signup(&mut db, "e@example.org"));
    let owner = signup(&mut db, "o@example.org");
    let r1 = signup(&mut db, "r1@example.org");
    let stranger = signup(&mut db, "s@example.org");
    let thesis = db.insert_thesis_checked(&user(owner), thesis_post(&[])).unwrap();
    let v = db.commit(&user(owner), thesis, 100, vec![]).unwrap();
    let mut rs = IdSet::new();
    rs.insert(r1);
    db.edit(&boss, v, Reviewing { remainder_ids: rs, pattern: ReviewPattern::Reviewer })
        .unwrap();
    let (rev, _) = db.review(&user(r1), v, review_entry(v, false)).unwrap();
    let re = db.reviews.lookup(rev).unwrap();
    assert!(prepublish::workflow::can_show_review(&db, &user(r1), re));
    assert!(prepublish::workflow::can_show_review(&db, &boss, re));
    assert!(!prepublish::workflow::can_show_review(&db, &user(stranger), re));
}

#[test]
fn show_handlers_enforce_visibility_and_project_the_record() {
    let mut db = Db::new();
    let owner = signup(&mut db, "o@example.org");
    let other = signup(&mut db, "x@example.org");
    let thesis = db.insert_thesis_checked(&user(owner), thesis_post(&[])).unwrap();
    let shown = db.show_thesis(&user(owner), thesis).unwrap();
    assert_eq!(shown.id, thesis);
    assert_eq!(shown.data.content.intro.title, "a thesis");
    assert!(!shown.data.is_public);
    assert!(matches!(db.show_thesis(&user(other), thesis), Err(Error::Forbidden)));
    assert!(matches!(db.show_thesis(&user(other), 999), Err(Error::NotFound)));
    let v = db.commit(&user(owner), thesis, 100, vec![7]).unwrap();
    let vv = db.show_version(&user(owner), v).unwrap();
    assert_eq!(vv.data.content.source_ids, vec![7]);
    assert_eq!(vv.data.creator_id, Some(owner));
    assert!(matches!(db.show_version(&user(other), v), Err(Error::Forbidden)));
}

#[test]
fn visibility_rules_follow_ownership_and_state() {
    let mut db = Db::new();
    let owner = signup(&mut db, "o@example.org");
    let other = signup(&mut db, "x@example.org");
    let thesis = db.insert_thesis_checked(&user(owner), thesis_post(&[])).unwrap();
    let te = db.theses.lookup(thesis).unwrap();
    assert!(prepublish::workflow::can_show_thesis(&user(owner), te));
    assert!(!prepublish::workflow::can_show_thesis(&user(other), te));
    assert!(prepublish::workflow::can_show_thesis(&editor(other), te));
    let v = db.commit(&user(owner), thesis, 100, vec![]).unwrap();
    let ve = db.versions.lookup(v).unwrap();
    assert!(prepublish::workflow::can_show_version(&db, &user(owner), ve));
    assert!(!prepublish::workflow::can_show_version(&db, &user(other), ve));
}
