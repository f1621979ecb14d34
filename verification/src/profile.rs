//! A user profile: unique email, notification preferences, a short bio.
//!
//! The profile is the root of an ownership graph: deleting it cascades to
//! everything it owns and soft-disassociates everything it created.

use vstd::prelude::*;

use crate::crud::{Patch, Patchable, Post, Postable};
use crate::names::{plural_of, Countable, Data};
use crate::store::Collection;

verus! {

pub struct Bio {
    pub name: String,
    pub avatar_id: Option<u64>,
}

pub struct Notification {
    pub email: bool,
    pub push: bool,
}

impl Default for Notification {
    /// Fresh accounts get email notifications and no push notifications.
    fn default() -> (r: Self)
        ensures
            r.email == true,
            r.push == false,
    {
        Notification { email: true, push: false }
    }
}

pub struct Profile {
    pub email: String,
    pub notice: Notification,
    pub bio: Bio,
}

pub struct BioPost {
    pub name: String,
    pub avatar_id: Option<u64>,
}

impl Post for BioPost {

}

impl Postable for Bio {
    type Post = BioPost;

    open spec fn posted_spec(p: BioPost) -> Self {
        Bio { name: p.name, avatar_id: p.avatar_id }
    }

    fn from_post(p: BioPost) -> Self {
        Bio { name: p.name, avatar_id: p.avatar_id }
    }
}

pub struct BioPatch {
    pub name: Option<String>,
    pub avatar_id: Option<Option<u64>>,
}

impl Patch for BioPatch {

}

impl Patchable for Bio {
    type Patch = BioPatch;

    open spec fn patched_spec(self, p: BioPatch) -> Self {
        Bio {
            name: if p.name is Some {
                p.name->0
            } else {
                self.name
            },
            avatar_id: if p.avatar_id is Some {
                p.avatar_id->0
            } else {
                self.avatar_id
            },
        }
    }

    fn apply_patch(self, p: BioPatch) -> Self {
        let Bio { name, avatar_id } = self;
        Bio {
            name: match p.name {
                Some(v) => v,
                None => name,
            },
            avatar_id: match p.avatar_id {
                Some(v) => v,
                None => avatar_id,
            },
        }
    }
}

pub struct NotificationPatch {
    pub email: Option<bool>,
    pub push: Option<bool>,
}

impl Patch for NotificationPatch {

}

impl Patchable for Notification {
    type Patch = NotificationPatch;

    open spec fn patched_spec(self, p: NotificationPatch) -> Self {
        Notification {
            email: if p.email is Some {
                p.email->0
            } else {
                self.email
            },
            push: if p.push is Some {
                p.push->0
            } else {
                self.push
            },
        }
    }

    fn apply_patch(self, p: NotificationPatch) -> Self {
        let Notification { email, push } = self;
        Notification {
            email: match p.email {
                Some(v) => v,
                None => email,
            },
            push: match p.push {
                Some(v) => v,
                None => push,
            },
        }
    }
}

/// The profile patch nests the patches of its parts; the email is not
/// patchable.
pub struct ProfilePatch {
    pub notice: NotificationPatch,
    pub bio: BioPatch,
}

impl Patch for ProfilePatch {

}

impl Patchable for Profile {
    type Patch = ProfilePatch;

    open spec fn patched_spec(self, p: ProfilePatch) -> Self {
        Profile {
            email: self.email,
            notice: self.notice.patched_spec(p.notice),
            bio: self.bio.patched_spec(p.bio),
        }
    }

    fn apply_patch(self, p: ProfilePatch) -> Self {
        let Profile { email, notice, bio } = self;
        Profile { email, notice: notice.apply_patch(p.notice), bio: bio.apply_patch(p.bio) }
    }
}

impl Profile {
    /// A new profile: the given unique email, default notification
    /// preferences, the submitted bio.
    pub open spec fn new_spec(email: String, bio: BioPost) -> Self {
        Profile {
            email,
            notice: Notification { email: true, push: false },
            bio: Bio::posted_spec(bio),
        }
    }

    pub fn new(email: String, bio: BioPost) -> (r: Self)
        ensures
            r == Self::new_spec(email, bio),
    {
        Profile { email, notice: Notification::default(), bio: Bio::from_post(bio) }
    }

}

impl Collection<Profile> {
    /// A profile with this email is stored.
    pub open spec fn has_email(self, email: Seq<char>) -> bool {
        exists|i: int| 0 <= i < self.len() && self.entities@[i].data.email@ == email
    }

    /// Profiles are keyed by unique email; this finds the position of the
    /// one carrying `email`.
    pub fn find_by_email(&self, email: &String) -> (r: Option<usize>)
        requires
            self.wf(),
        ensures
            match r {
                Some(i) => i < self.entities@.len() && self.entities@[i as int].data.email@
                    == email@,
                None => !self.has_email(email@),
            },
    {
        let mut i: usize = 0;
        while i < self.entities.len()
            invariant
                self.wf(),
                i <= self.entities@.len(),
                forall|k: int| 0 <= k < i ==> self.entities@[k].data.email@ != email@,
            decreases self.entities@.len() - i,
        {
            if self.entities[i].data.email == *email {
                return Some(i);
            }
            i += 1;
        }
        None
    }
}

impl Countable for Profile {
    open spec fn singular_spec() -> Seq<char> {
        "Profile"@
    }

    open spec fn lower_spec() -> Seq<char> {
        "profile"@
    }

    fn singular() -> &'static str {
        "Profile"
    }

    fn lower_name() -> &'static str {
        "profile"
    }
}

impl Data for Profile {
    open spec fn schema_name_spec() -> Seq<char> {
        "Profile"@
    }

    open spec fn collection_name_spec() -> Seq<char> {
        plural_of("profile"@)
    }

    fn schema_name() -> &'static str {
        "Profile"
    }

    fn collection_name() -> (r: String) {
        Profile::plural()
    }
}

} // verus!
