//! Error types used across the library.

use vstd::prelude::*;

use crate::text::concat;

verus! {

#[verifier::external_type_specification]
#[verifier::external_body]
pub struct ExIoError(std::io::Error);

/// Top-level error type for bmo operations.
#[derive(Debug)]
pub enum BmoError {
    NotFound(String),
    Validation(String),
    Conflict(String),
    Db(String),
    Io(std::io::Error),
}

/// Calls `std::io::Error`'s `to_string`. Nothing is stated of the text.
#[verifier::external_body]
fn io_error_text(e: &std::io::Error) -> String {
    e.to_string()
}

impl BmoError {
    /// The text shown for the error.
    pub fn message(&self) -> (r: String)
        ensures
            match self {
                BmoError::NotFound(s) => r@ == "not found: "@ + s@,
                BmoError::Validation(s) => r@ == "validation error: "@ + s@,
                BmoError::Conflict(s) => r@ == "conflict: "@ + s@,
                BmoError::Db(s) => r@ == "database error: "@ + s@,
                BmoError::Io(_) => r@.len() >= 10 && r@.take(10) == "io error: "@,
            },
    {
        match self {
            BmoError::NotFound(s) => concat("not found: ", s.as_str()),
            BmoError::Validation(s) => concat("validation error: ", s.as_str()),
            BmoError::Conflict(s) => concat("conflict: ", s.as_str()),
            BmoError::Db(s) => concat("database error: ", s.as_str()),
            BmoError::Io(e) => {
                let t = io_error_text(e);
                let r = concat("io error: ", t.as_str());
                proof {
                    reveal_strlit("io error: ");
                    assert(r@.take(10) =~= "io error: "@);
                }
                r
            },
        }
    }
}

/// An input text that is not one of the accepted forms.
#[derive(Debug)]
pub enum ParseError {
    UnknownStatus(String),
    UnknownPriority(String),
    UnknownKind(String),
    UnknownRelationKind(String),
    InvalidIssueId(String),
}

impl ParseError {
    /// The text shown for the error.
    pub open spec fn spec_message(&self) -> Seq<char> {
        match self {
            ParseError::UnknownStatus(s) => "unknown status: "@ + s@,
            ParseError::UnknownPriority(s) => "unknown priority: "@ + s@,
            ParseError::UnknownKind(s) => "unknown kind: "@ + s@,
            ParseError::UnknownRelationKind(s) => "unknown relation kind: "@ + s@,
            ParseError::InvalidIssueId(s) => "invalid issue ID: "@ + s@,
        }
    }

    pub fn message(&self) -> (r: String)
        ensures
            r@ == self.spec_message(),
    {
        match self {
            ParseError::UnknownStatus(s) => concat("unknown status: ", s.as_str()),
            ParseError::UnknownPriority(s) => concat("unknown priority: ", s.as_str()),
            ParseError::UnknownKind(s) => concat("unknown kind: ", s.as_str()),
            ParseError::UnknownRelationKind(s) => concat("unknown relation kind: ", s.as_str()),
            ParseError::InvalidIssueId(s) => concat("invalid issue ID: ", s.as_str()),
        }
    }
}

/// Machine-readable category for a bmo error, used to select a CLI exit code.
#[derive(Debug, Clone, Copy, PartialEq, Eq, Structural)]
pub enum ErrorCode {
    /// Uncategorized or internal error.
    General,
    /// The requested resource does not exist.
    NotFound,
    /// Input failed validation.
    Validation,
    /// The operation conflicts with existing data.
    Conflict,
}

impl ErrorCode {
    pub open spec fn spec_exit_code(self) -> i32 {
        match self {
            ErrorCode::General => 1,
            ErrorCode::NotFound => 2,
            ErrorCode::Validation => 3,
            ErrorCode::Conflict => 4,
        }
    }

    /// The process exit code for the category.
    pub fn exit_code(self) -> (r: i32)
        ensures
            r == self.spec_exit_code(),
    {
        match self {
            ErrorCode::General => 1,
            ErrorCode::NotFound => 2,
            ErrorCode::Validation => 3,
            ErrorCode::Conflict => 4,
        }
    }

    pub open spec fn spec_as_str(self) -> Seq<char> {
        match self {
            ErrorCode::General => "general"@,
            ErrorCode::NotFound => "not-found"@,
            ErrorCode::Validation => "validation"@,
            ErrorCode::Conflict => "conflict"@,
        }
    }

    /// The name of the category in JSON output.
    pub fn as_str(self) -> (r: &'static str)
        ensures
            r@ == self.spec_as_str(),
    {
        match self {
            ErrorCode::General => "general",
            ErrorCode::NotFound => "not-found",
            ErrorCode::Validation => "validation",
            ErrorCode::Conflict => "conflict",
        }
    }

    /// The category of an error.
    pub open spec fn spec_of(e: &BmoError) -> ErrorCode {
        match e {
            BmoError::NotFound(_) => ErrorCode::NotFound,
            BmoError::Validation(_) => ErrorCode::Validation,
            BmoError::Conflict(_) => ErrorCode::Conflict,
            BmoError::Db(_) => ErrorCode::General,
            BmoError::Io(_) => ErrorCode::General,
        }
    }

    pub fn of(e: &BmoError) -> (r: ErrorCode)
        ensures
            r == Self::spec_of(e),
    {
        match e {
            BmoError::NotFound(_) => ErrorCode::NotFound,
            BmoError::Validation(_) => ErrorCode::Validation,
            BmoError::Conflict(_) => ErrorCode::Conflict,
            BmoError::Db(_) => ErrorCode::General,
            BmoError::Io(_) => ErrorCode::General,
        }
    }
}

impl<'a> From<&'a BmoError> for ErrorCode {
    fn from(e: &'a BmoError) -> (r: ErrorCode) {
        ErrorCode::of(e)
    }
}

impl<'a> vstd::std_specs::convert::FromSpecImpl<&'a BmoError> for ErrorCode {
    open spec fn obeys_from_spec() -> bool {
        true
    }

    open spec fn from_spec(e: &'a BmoError) -> ErrorCode {
        ErrorCode::spec_of(e)
    }
}

/// Distinct categories exit with distinct codes, none of them 0.
pub proof fn lemma_exit_codes_distinct(a: ErrorCode, b: ErrorCode)
    ensures
        a.spec_exit_code() != 0,
        a != b ==> a.spec_exit_code() != b.spec_exit_code(),
{
}

} // verus!
