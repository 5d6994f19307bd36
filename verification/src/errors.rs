//! The error taxonomy. Every command application and finalize operation
//! returns a result; none of these conditions aborts the process.

use vstd::prelude::*;

verus! {

/// What can go wrong while building a schema.
#[derive(Clone, Copy, Debug, PartialEq, Eq, Structural)]
pub enum Error {
    /// An attribute with the same name is already present.
    DuplicateAttribute,
    /// A command referenced an attribute name not yet added.
    AttributeNotFound,
    /// An attribute type tag could not be parsed.
    UnknownAttributeType,
    /// A character-encoding code could not be parsed.
    InvalidEncoding,
    /// A conformance marker was neither mandatory nor optional.
    InvalidConformance,
    /// A language-bearing command lacked a usable language tag.
    MissingLanguageTag,
    /// An overlay of this kind is already present.
    DuplicateOverlay,
    /// A layout description could not be parsed.
    LayoutParseError,
}

/// One finding of the validator.
#[derive(Debug)]
pub enum ValidationError {
    /// A rule's finding, as a message for the caller.
    Custom(String),
}

impl ValidationError {
    /// The message carried by the finding.
    pub open spec fn spec_message(self) -> Seq<char> {
        match self {
            ValidationError::Custom(m) => m@,
        }
    }

    /// The message carried by the finding.
    pub fn message(&self) -> (r: &String)
        ensures
            r@ == self.spec_message(),
    {
        match self {
            ValidationError::Custom(m) => m,
        }
    }
}

} // verus!
