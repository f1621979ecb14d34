use prepublish::crud::{Patchable, Postable};
use prepublish::examples;
use prepublish::idset::IdSet;
use prepublish::names::{Countable, Data};
use prepublish::owned::Owned;
use prepublish::paper::{Category, Magazine};
use prepublish::profile::Profile;
use prepublish::review::Review;
use prepublish::thesis::{Thesis, ThesisIntroduction, ThesisIntroductionPatch, ThesisIntroductionPost};
use prepublish::version::Version;
use prepublish::views::{render_thesis_introduction, render_thesis};
use prepublish::wire::Value;

fn sample_intro() -> ThesisIntroduction {
    let mut mags = IdSet::new();
    mags.insert(3);
    ThesisIntroduction {
        magazine_ids: mags,
        doi: Some(String::from("10.1145/3428204")),
        title: String::from("a title"),
        abstraction: String::from("an abstract"),
        keywords: vec![String::from("k1"), String::from("k2")],
        author_ids: vec![11, 12],
        language: vec![String::from("en_US")],
    }
}

fn unset_patch() -> ThesisIntroductionPatch {
    ThesisIntroductionPatch::unset()
}

#[test]
fn patch_sets_one_field_and_keeps_the_rest() {
    let t = sample_intro();
    let mut p = unset_patch();
    p.title = Some(String::from("new title"));
    let r = t.apply_patch(p);
    assert_eq!(r.title, "new title");
    assert_eq!(r.abstraction, "an abstract");
    assert_eq!(r.doi.as_deref(), Some("10.1145/3428204"));
    assert_eq!(r.keywords, vec![String::from("k1"), String::from("k2")]);
    assert_eq!(r.author_ids, vec![11, 12]);
    assert!(r.magazine_ids.contains(3));
}

#[test]
fn empty_patch_changes_nothing() {
    let t = sample_intro();
    let r = t.apply_patch(unset_patch());
    let s = sample_intro();
    assert_eq!(r.title, s.title);
    assert_eq!(r.abstraction, s.abstraction);
    assert_eq!(r.doi, s.doi);
    assert_eq!(r.keywords, s.keywords);
    assert_eq!(r.author_ids, s.author_ids);
    assert_eq!(r.language, s.language);
    assert_eq!(r.magazine_ids.ids, s.magazine_ids.ids);
}

#[test]
fn nested_patch_reaches_the_nested_content() {
    let t = Thesis::from_post(ThesisIntroductionPost {
        magazine_ids: IdSet::new(),
        doi: None,
        title: String::from("t"),
        abstraction: String::from("a"),
        keywords: vec![],
        author_ids: vec![],
        language: vec![],
    });
    let mut p = unset_patch();
    p.abstraction = Some(String::from("longer"));
    let r = t.apply_patch(p);
    assert_eq!(r.intro.abstraction, "longer");
    assert_eq!(r.intro.title, "t");
    assert_eq!(r.downloads, 0);
}

#[test]
fn post_conversion_is_total_and_starts_counters_at_zero() {
    let t = Thesis::from_post(ThesisIntroductionPost {
        magazine_ids: IdSet::new(),
        doi: None,
        title: String::from("t"),
        abstraction: String::from("a"),
        keywords: vec![],
        author_ids: vec![7],
        language: vec![],
    });
    assert_eq!(t.downloads, 0);
    assert_eq!(t.intro.author_ids, vec![7]);
}

#[test]
fn view_wire_has_exactly_the_visible_fields_under_their_renames() {
    let v = render_thesis_introduction(&sample_intro());
    let d = v.wire();
    let keys: Vec<&str> = d.fields.iter().map(|f| f.0.as_str()).collect();
    assert_eq!(
        keys,
        vec!["magazineIds", "doi", "title", "abstraction", "keywords", "authorIds", "language"]
    );
    match &d.fields[2].1 {
        Value::Text(t) => assert_eq!(t, "a title"),
        _ => panic!("title must be text"),
    }
    match &d.fields[0].1 {
        Value::Refs(ids) => assert_eq!(ids, &vec![3]),
        _ => panic!("magazineIds must be refs"),
    }
}

#[test]
fn view_keeps_the_viewed_values() {
    let t = Thesis { intro: sample_intro(), downloads: 4 };
    let v = render_thesis(&t);
    assert_eq!(v.downloads, 4);
    assert_eq!(v.intro.title, "a title");
    assert_eq!(v.intro.author_ids, vec![11, 12]);
}

#[test]
fn unset_patch_fields_are_not_serialized() {
    let mut p = unset_patch();
    p.title = Some(String::from("only this"));
    let d = p.wire();
    assert_eq!(d.fields.len(), 1);
    assert_eq!(d.fields[0].0, "title");
    let empty = unset_patch().wire();
    assert_eq!(empty.fields.len(), 0);
}

#[test]
fn plural_names_come_from_the_inflection_rules() {
    assert_eq!(Thesis::singular(), "Thesis");
    assert_eq!(Thesis::plural(), "theses");
    assert_ne!(Thesis::plural(), Thesis::lower_name());
    assert_eq!(Category::plural(), "categories");
    assert_eq!(Magazine::plural(), "magazines");
    assert_eq!(Version::plural(), "versions");
    assert_eq!(Review::plural(), "reviews");
    assert_eq!(Profile::plural(), "profiles");
}

#[test]
fn collection_names_are_the_plurals() {
    assert_eq!(<Owned<Thesis> as Data>::collection_name(), "theses");
    assert_eq!(<Owned<Thesis> as Data>::schema_name(), "Thesis");
    assert_eq!(<Profile as Data>::collection_name(), "profiles");
}

#[test]
fn example_values_are_the_documented_samples() {
    assert_eq!(examples::doi(), "10.1145/3428204");
    assert_eq!(examples::title(), "形状记忆聚氨酯的合成及其在织物中的应用");
    assert!(examples::abstraction().starts_with("（摘要是一篇具有独立性和完整性的短文"));
    assert!(examples::abstraction().ends_with("“详细中文摘要”。）"));
    assert_eq!(
        examples::keywords(),
        vec![
            "形状记忆".to_string(),
            "聚氨酯".to_string(),
            "织物".to_string(),
            "合成".to_string(),
            "应用".to_string()
        ]
    );
    assert_eq!(
        examples::language(),
        vec!["zh_CN".to_string(), "en_US".to_string()]
    );
    assert_eq!(examples::profile_name(), "納西妲");
}
