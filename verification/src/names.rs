//! Schema and collection names.
//!
//! Every stored content type announces a singular schema name and a plural
//! collection name.  The plural is not spelled out by hand: it is derived
//! from the lower-case type name by the same English inflection rules the
//! rest of the stack uses, which keeps collection names and documentation in
//! step.

use vstd::prelude::*;

verus! {

/// What cruet's pluralizer returns for a word: a pure function of the
/// characters alone.
pub uninterp spec fn plural_of(s: Seq<char>) -> Seq<char>;

/// Relies on cruet::string::pluralize::to_plural: rule-based English
/// pluralization, deterministic in its argument.
#[verifier::external_body]
fn pluralize(s: &str) -> (r: String)
    ensures
        r@ == plural_of(s@),
{
    cruet::string::pluralize::to_plural(s)
}

/// A type with a singular name (for schemas) and a derived plural name (for
/// collections and routes).
pub trait Countable {
    spec fn singular_spec() -> Seq<char>;

    spec fn lower_spec() -> Seq<char>;

    /// The type's own name.
    fn singular() -> (r: &'static str)
        ensures
            r@ == Self::singular_spec(),
    ;

    /// The type's name in lower case.
    fn lower_name() -> (r: &'static str)
        ensures
            r@ == Self::lower_spec(),
    ;

    /// The plural of the lower-case name.
    fn plural() -> (r: String)
        ensures
            r@ == plural_of(Self::lower_spec()),
    {
        pluralize(Self::lower_name())
    }
}

/// A payload type the store can hold: it names its collection and schema.
pub trait Data: Sized {
    spec fn schema_name_spec() -> Seq<char>;

    spec fn collection_name_spec() -> Seq<char>;

    fn schema_name() -> (r: &'static str)
        ensures
            r@ == Self::schema_name_spec(),
    ;

    fn collection_name() -> (r: String)
        ensures
            r@ == Self::collection_name_spec(),
    ;
}

} // verus!
