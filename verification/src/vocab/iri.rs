//! Identifiers: absolute IRIs kept as their text.

use vstd::prelude::*;

use crate::text::str_eq;

verus! {

/// The canonical Activity Streams JSON-LD context URL.
pub const ACTIVITYSTREAMS_CONTEXT: &'static str = "https://www.w3.org/ns/activitystreams";

/// The special collection addressing every actor (public posts).
pub const ACTIVITYSTREAMS_PUBLIC: &'static str = "https://www.w3.org/ns/activitystreams#Public";

/// Whether `text` is an IRI in the sense of RFC 3987, as `iri_string` judges
/// it.
pub uninterp spec fn iri_syntax_valid(text: Seq<char>) -> bool;

/// Calls `iri_string::types::IriStr::new`, which checks `text` against the
/// IRI grammar; the contract names that verdict and claims nothing else.
#[verifier::external_body]
fn check_iri_syntax(text: &str) -> (r: bool)
    ensures
        r == iri_syntax_valid(text@),
{
    iri_string::types::IriStr::new(text).is_ok()
}

/// An absolute ActivityPub/ActivityStreams identifier.
#[derive(Clone, Debug, PartialEq, Eq, Hash)]
pub struct Iri {
    text: String,
}

/// The reason a text was refused as an [`Iri`].
#[derive(Clone, Copy, Debug, PartialEq, Eq, Structural)]
pub enum InvalidIri {
    /// The text does not follow the IRI grammar.
    Syntax,
}

impl View for Iri {
    type V = Seq<char>;

    closed spec fn view(&self) -> Seq<char> {
        self.text@
    }
}

impl Iri {
    /// Parse and validate an IRI.
    pub fn parse(text: &str) -> (r: Result<Iri, InvalidIri>)
        ensures
            r is Ok <==> iri_syntax_valid(text@),
            r matches Ok(iri) ==> iri@ == text@,
            r matches Err(e) ==> e == InvalidIri::Syntax,
    {
        if check_iri_syntax(text) {
            Ok(Iri { text: String::from_str(text) })
        } else {
            Err(InvalidIri::Syntax)
        }
    }

    /// An IRI given by one of this crate's constants, all of which are
    /// absolute IRIs.
    pub(crate) fn from_constant(text: &'static str) -> (r: Iri)
        ensures
            r@ == text@,
    {
        Iri { text: String::from_str(text) }
    }

    /// The `@context` value the vocabulary puts on top-level objects.
    pub(crate) fn default_context() -> (r: Iri)
        ensures
            r@ == ACTIVITYSTREAMS_CONTEXT@,
    {
        Iri::from_constant(ACTIVITYSTREAMS_CONTEXT)
    }

    /// The text of the IRI.
    pub fn as_str(&self) -> (r: &str)
        ensures
            r@ == self@,
    {
        self.text.as_str()
    }

    /// Whether two IRIs are the same text.
    pub fn same_as(&self, other: &Iri) -> (r: bool)
        ensures
            r == (self@ == other@),
    {
        str_eq(self.text.as_str(), other.text.as_str())
    }

    /// A copy of this IRI.
    pub fn duplicate(&self) -> (r: Iri)
        ensures
            r == *self,
    {
        Iri { text: self.text.clone() }
    }
}

impl core::str::FromStr for Iri {
    type Err = InvalidIri;

    fn from_str(text: &str) -> (r: Result<Iri, InvalidIri>)
        ensures
            r is Ok <==> iri_syntax_valid(text@),
            r matches Ok(iri) ==> iri@ == text@,
            r matches Err(e) ==> e == InvalidIri::Syntax,
    {
        Iri::parse(text)
    }
}

} // verus!
