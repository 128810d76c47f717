//! The ways in which generation can be refused.

use vstd::prelude::*;
use vstd::string::*;

verus! {

/// A reason for which no builder is generated. Every one of them is found
/// before any part of the output exists.
#[derive(Clone, Copy, Debug, PartialEq, Eq, Structural)]
pub enum GenError {
    /// The declaration is not that of a record with fields.
    NotARecord,
    /// More than one directive names the builder and its methods.
    DuplicateNames,
    /// A naming directive that sets one name more than once.
    ConflictingNames,
    /// More than one directive names the builder type.
    DuplicateBuilderName,
    /// More than one directive renames the constructor and the finalizer.
    DuplicateRename,
    /// More than one prefix directive stands on one item.
    DuplicatePrefix,
    /// More than one directive configures validation.
    DuplicateValidator,
    /// A validation directive that names no validator.
    MissingValidator,
    /// A validator or an error type that is not a well-formed path. A text
    /// with a character outside ASCII is never taken for one.
    MalformedPath,
    /// An optional field whose type has no inner type to take a value of.
    MissingInnerType,
}

impl GenError {
    /// What `message` says of each error.
    pub open spec fn message_text(self) -> Seq<char> {
        match self {
            GenError::NotARecord => "Only structs supported."@,
            GenError::DuplicateNames => "Only one #[builder_name] attribute supported for struct."@,
            GenError::ConflictingNames => "Only one setting supported for each name of a naming attribute."@,
            GenError::DuplicateBuilderName => "Only one #[builder_name] attribute supported per item."@,
            GenError::DuplicateRename => "Only one #[builder_rename] attribute supported per item."@,
            GenError::DuplicatePrefix => "Only one #[builder_prefix] attribute supported per item."@,
            GenError::DuplicateValidator => "Only one #[builder_validate] attribute supported for struct."@,
            GenError::MissingValidator => "Validator function has to be provided for `builder_validate` attribute."@,
            GenError::MalformedPath => "Malformed path given to `builder_validate` attribute"@,
            GenError::MissingInnerType => "Tried to get inner type from non-Option."@,
        }
    }

    /// A sentence that describes the error to the author of the declaration.
    pub fn message(&self) -> (text: String)
        ensures
            text@ == self.message_text(),
    {
        match self {
            GenError::NotARecord => String::from_str("Only structs supported."),
            GenError::DuplicateNames => String::from_str(
                "Only one #[builder_name] attribute supported for struct.",
            ),
            GenError::ConflictingNames => String::from_str(
                "Only one setting supported for each name of a naming attribute.",
            ),
            GenError::DuplicateBuilderName => String::from_str(
                "Only one #[builder_name] attribute supported per item.",
            ),
            GenError::DuplicateRename => String::from_str(
                "Only one #[builder_rename] attribute supported per item.",
            ),
            GenError::DuplicatePrefix => String::from_str(
                "Only one #[builder_prefix] attribute supported per item.",
            ),
            GenError::DuplicateValidator => String::from_str(
                "Only one #[builder_validate] attribute supported for struct.",
            ),
            GenError::MissingValidator => String::from_str(
                "Validator function has to be provided for `builder_validate` attribute.",
            ),
            GenError::MalformedPath => String::from_str(
                "Malformed path given to `builder_validate` attribute",
            ),
            GenError::MissingInnerType => String::from_str(
                "Tried to get inner type from non-Option.",
            ),
        }
    }
}

} // verus!
