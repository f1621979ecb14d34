//! Projection companions.
//!
//! Each domain struct derives up to three companion types from one
//! field-capability table: a Post (the submittable fields, conversion into
//! the domain type is total), a Patch (every patchable field made optional,
//! where an absent field means "leave unchanged"), and a view for output.
//! The traits here tie a domain type to its companions; the concrete
//! companion types and their conversions live with the domain types.

use vstd::prelude::*;

verus! {

/// A create-projection: only submittable fields, with defaults for the rest.
pub trait Post: Sized {

}

/// The Post companion of a domain type, and the total conversion back.
pub trait Postable: Sized {
    type Post: Post;

    /// The domain value a submission stands for.
    spec fn posted_spec(p: Self::Post) -> Self;

    fn from_post(p: Self::Post) -> (r: Self)
        ensures
            r == Self::posted_spec(p),
    ;
}

/// A partial-update projection: an unset field leaves the target unchanged.
pub trait Patch: Sized {

}

/// The Patch companion of a domain type, and how a patch lands on a value.
pub trait Patchable: Sized {
    type Patch: Patch;

    /// The value after the patch: set fields replace, unset fields keep.
    spec fn patched_spec(self, p: Self::Patch) -> Self;

    fn apply_patch(self, p: Self::Patch) -> (r: Self)
        ensures
            r == self.patched_spec(p),
    ;
}

/// A read-projection: only the fields marked visible, used for output.
pub trait Render: Sized {
    type Object;
}

/// The view companion of a domain type.
pub trait Viewable: Sized {
    type Rendered: Render<Object = Self>;
}

/// The Post of a content type that takes no submission fields.
pub struct BlankSubmitted;

impl Post for BlankSubmitted {

}

/// The Patch of a content type with nothing to patch.
#[derive(Clone, Copy)]
pub struct BlankPatch;

impl Patch for BlankPatch {

}

} // verus!
