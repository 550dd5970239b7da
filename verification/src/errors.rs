//! The failure taxonomy of the extraction pipeline.
//!
//! A required landmark that is absent, a field that cannot be decoded, and
//! the three nutrition sub-pipeline failures each get their own variant, so
//! a caller can decide per recipe whether to skip or abort. Failures inside
//! optional sub-extractions never surface here; those degrade the field to
//! unset instead.

use vstd::prelude::*;

verus! {

/// The mathematical shape of a failure, over character sequences.
pub enum RecipeErrV {
    LandmarkNotFound(Seq<char>),
    FieldDecodeError(Seq<char>),
    IngredientNameMissing { url: Seq<char>, item: Seq<char> },
    ScriptNotFound,
    PatternMismatch(Seq<char>),
    JsonDecodeError,
    IoError(Seq<char>),
}

/// Why one recipe's construction was aborted.
#[derive(Debug, Clone, PartialEq, Eq)]
pub enum RecipeError {
    /// A required structural element is absent; carries the landmark's name.
    LandmarkNotFound(String),
    /// A found element's text or attribute could not be parsed as the
    /// expected type; carries the offending text.
    FieldDecodeError(String),
    /// An ingredient list item has no bold or strong name element; carries
    /// the recipe URL and the raw item text.
    IngredientNameMissing { url: String, item: String },
    /// The nutrition document holds no script element.
    ScriptNotFound,
    /// The fixed variable-assignment pattern did not match the script body;
    /// carries the raw script text.
    PatternMismatch(String),
    /// The captured nutrition payload is not well-formed JSON.
    JsonDecodeError,
    /// A network fetch failed; the library never constructs this itself, it
    /// is the caller's opaque pass-through classification.
    IoError(String),
}

impl View for RecipeError {
    type V = RecipeErrV;

    open spec fn view(&self) -> RecipeErrV {
        match self {
            RecipeError::LandmarkNotFound(s) => RecipeErrV::LandmarkNotFound(s@),
            RecipeError::FieldDecodeError(s) => RecipeErrV::FieldDecodeError(s@),
            RecipeError::IngredientNameMissing { url, item } => RecipeErrV::IngredientNameMissing {
                url: url@,
                item: item@,
            },
            RecipeError::ScriptNotFound => RecipeErrV::ScriptNotFound,
            RecipeError::PatternMismatch(s) => RecipeErrV::PatternMismatch(s@),
            RecipeError::JsonDecodeError => RecipeErrV::JsonDecodeError,
            RecipeError::IoError(s) => RecipeErrV::IoError(s@),
        }
    }
}

} // verus!
