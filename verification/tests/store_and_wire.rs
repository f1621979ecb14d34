use prepublish::db::Db;
use prepublish::errs::Error;
use prepublish::idset::IdSet;
use prepublish::profile::{BioPatch, BioPost, NotificationPatch, ProfilePatch};
use prepublish::wire::{Doc, Update, Value};

fn bio(name: &str) -> BioPost {
    BioPost { name: String::from(name), avatar_id: None }
}

#[test]
fn insert_then_find_yields_identical_data() {
    let mut db = Db::new();
    let id = db.insert_profile(String::from("a@example.org"), bio("Ann")).unwrap();
    let e = db.profiles.lookup(id).unwrap();
    assert_eq!(e.id, id);
    assert_eq!(e.data.email, "a@example.org");
    assert_eq!(e.data.bio.name, "Ann");
    assert!(e.data.notice.email);
    assert!(!e.data.notice.push);
    assert_eq!(e.created_at, e.updated_at);
}

#[test]
fn updated_at_strictly_increases_on_update() {
    let mut db = Db::new();
    let id = db.insert_profile(String::from("a@example.org"), bio("Ann")).unwrap();
    let before = db.profiles.lookup(id).unwrap().updated_at;
    let created = db.profiles.lookup(id).unwrap().created_at;
    let patch = ProfilePatch {
        notice: NotificationPatch { email: None, push: Some(true) },
        bio: BioPatch { name: None, avatar_id: None },
    };
    db.set_profile(id, patch).unwrap();
    let e = db.profiles.lookup(id).unwrap();
    assert!(e.updated_at > before);
    assert_eq!(e.created_at, created);
    assert!(e.data.notice.push);
    let second = e.updated_at;
    let patch2 = ProfilePatch {
        notice: NotificationPatch { email: Some(false), push: None },
        bio: BioPatch { name: None, avatar_id: None },
    };
    db.set_profile(id, patch2).unwrap();
    assert!(db.profiles.lookup(id).unwrap().updated_at > second);
}

#[test]
fn duplicate_email_is_a_conflict() {
    let mut db = Db::new();
    db.insert_profile(String::from("a@example.org"), bio("Ann")).unwrap();
    let r = db.insert_profile(String::from("a@example.org"), bio("Another"));
    assert_eq!(r, Err(Error::Conflict));
    assert_eq!(db.profiles.entities.len(), 1);
}

#[test]
fn missing_profile_patch_is_not_found() {
    let mut db = Db::new();
    let patch = ProfilePatch {
        notice: NotificationPatch { email: None, push: None },
        bio: BioPatch { name: None, avatar_id: None },
    };
    assert_eq!(db.set_profile(7, patch), Err(Error::NotFound));
}

#[test]
fn ids_are_fresh_and_never_reused() {
    let mut db = Db::new();
    let a = db.insert_profile(String::from("a@example.org"), bio("Ann")).unwrap();
    let b = db.insert_profile(String::from("b@example.org"), bio("Ben")).unwrap();
    assert_ne!(a, b);
    db.profiles.delete_by_id(a);
    let c = db.insert_profile(String::from("c@example.org"), bio("Cy")).unwrap();
    assert_ne!(a, c);
    assert_ne!(b, c);
}

#[test]
fn idset_keeps_elements_unique_and_sorted() {
    let mut s = IdSet::new();
    s.insert(5);
    s.insert(2);
    s.insert(5);
    s.insert(9);
    assert_eq!(s.len(), 3);
    assert!(s.contains(2) && s.contains(5) && s.contains(9));
    assert_eq!(s.ids, vec![2, 5, 9]);
    s.remove(5);
    assert_eq!(s.ids, vec![2, 9]);
    assert!(!s.contains(5));
    let d = s.duplicate();
    assert_eq!(d.ids, s.ids);
}

#[test]
fn doc_last_write_wins() {
    let mut d = Doc::new();
    d.put(String::from("count"), Value::Num(1));
    d.put(String::from("count"), Value::Num(2));
    assert_eq!(d.len(), 1);
    match &d.fields[0].1 {
        Value::Num(n) => assert_eq!(*n, 2),
        _ => panic!("count must be a number"),
    }
}

#[test]
fn update_groups_are_independent_and_last_write_wins() {
    let mut u = Update::new();
    u.set_field(String::from("title"), Value::Text(String::from("one")));
    u.set_field(String::from("title"), Value::Text(String::from("two")));
    u.add_to_set_field(String::from("magazineIds"), Value::Ref(4));
    u.pull_field(String::from("magazineIds"), Value::Ref(9));
    u.push_field(String::from("sourceIds"), Value::Ref(1));
    u.pop_field(String::from("sourceIds"));
    u.inc_field(String::from("downloads"), 1);
    assert_eq!(u.set.len(), 1);
    match &u.set.fields[0].1 {
        Value::Text(t) => assert_eq!(t, "two"),
        _ => panic!("title must be text"),
    }
    assert_eq!(u.add_to_set.len(), 1);
    assert_eq!(u.pull.len(), 1);
    assert_eq!(u.push.len(), 1);
    assert_eq!(u.pop.len(), 1);
    assert_eq!(u.inc.len(), 1);
}

#[test]
fn finalizing_always_stamps_the_update_time() {
    let mut u = Update::new();
    u.inc_field(String::from("downloads"), 1);
    let groups = u.into_update_document();
    assert_eq!(groups.len(), 7);
    assert_eq!(groups[0].0, "$set");
    assert_eq!(groups[5].0, "$inc");
    assert_eq!(groups[6].0, "$updatedDate");
    assert_eq!(groups[6].1.fields[0].0, "updated_at");
    match groups[6].1.fields[0].1 {
        Value::Flag(b) => assert!(b),
        _ => panic!("the stamp must be a flag"),
    }
}

#[test]
fn store_error_only_when_the_clock_is_exhausted() {
    let mut db = Db::new();
    db.clock = u64::MAX;
    let r = db.insert_profile(String::from("a@example.org"), bio("Ann"));
    assert_eq!(r, Err(Error::Store));
    assert_eq!(db.profiles.entities.len(), 0);
}
