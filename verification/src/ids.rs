//! Identifiers of records.

use uuid::Uuid;
use vstd::prelude::*;

verus! {

/// `uuid::Uuid`, a 128-bit identifier, carried as an opaque value.
#[verifier::external_type_specification]
#[verifier::external_body]
pub struct ExUuid(Uuid);

/// `Uuid` is `Copy`, with a derived `Clone`: a clone is the same identifier.
pub assume_specification[ <Uuid as Clone>::clone ](u: &Uuid) -> (r: Uuid)
    ensures
        r == *u,
;

/// The text of an identifier, as `Uuid`'s `Display` writes it.
pub uninterp spec fn uuid_text(id: Uuid) -> Seq<char>;

/// Writes the identifier through its `Display`; the result is named
/// [`uuid_text`].
#[verifier::external_body]
pub(crate) fn uuid_to_string(id: &Uuid) -> (r: String)
    ensures
        r@ == uuid_text(*id),
{
    id.to_string()
}

/// What reading `s` as an identifier gives: the identifier, or the text of
/// `uuid`'s parse error.
pub uninterp spec fn uuid_reading(s: Seq<char>) -> Result<Uuid, Seq<char>>;

/// Reads `s` through `Uuid::parse_str`; an error is written with its
/// `Display`. The result is named [`uuid_reading`].
#[verifier::external_body]
pub(crate) fn parse_uuid(s: &str) -> (r: Result<Uuid, String>)
    ensures
        match r {
            Ok(u) => uuid_reading(s@) == Ok::<Uuid, Seq<char>>(u),
            Err(e) => uuid_reading(s@) == Err::<Uuid, Seq<char>>(e@),
        },
{
    match Uuid::parse_str(s) {
        Ok(u) => Ok(u),
        Err(e) => Err(e.to_string()),
    }
}

} // verus!
