//! Error values returned by the parsing, resolution and composition stages.
//!
//! Every error is a value carrying a human-readable message; nothing here
//! aborts. The variants follow the stages that can detect a problem: malformed
//! schema text, an unknown feature name, a purpose-incompatible feature, two
//! mutually exclusive features, and a feature whose structural requirement on
//! the schema is unmet.

use vstd::prelude::*;

verus! {

/// An error produced by one of the pipeline stages.
#[derive(Debug, Clone)]
pub enum KaidoError {
    /// Malformed schema grammar: a bad field, identifier casing or type.
    ParseError(String),
    /// A free-text feature name that is not in the catalog.
    UnknownFeature(String),
    /// A resolved feature requires a different validator purpose.
    PurposeMismatch(String),
    /// Two resolved features are mutually exclusive.
    FeatureConflict(String),
    /// A feature's structural requirement on the schema is unmet.
    SchemaIncompatibility(String),
}

impl KaidoError {
    /// The error's message text.
    pub open spec fn spec_message(&self) -> Seq<char> {
        match self {
            KaidoError::ParseError(m) => m@,
            KaidoError::UnknownFeature(m) => m@,
            KaidoError::PurposeMismatch(m) => m@,
            KaidoError::FeatureConflict(m) => m@,
            KaidoError::SchemaIncompatibility(m) => m@,
        }
    }

    /// Returns the message carried by the error.
    pub fn message(&self) -> (r: &String)
        ensures
            r@ == self.spec_message(),
    {
        match self {
            KaidoError::ParseError(m) => m,
            KaidoError::UnknownFeature(m) => m,
            KaidoError::PurposeMismatch(m) => m,
            KaidoError::FeatureConflict(m) => m,
            KaidoError::SchemaIncompatibility(m) => m,
        }
    }
}

} // verus!
