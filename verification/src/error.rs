//! The conditions under which a request fails, and the text sent for each.

use vstd::prelude::*;
use vstd::string::StringExecFns;

verus! {

/// What is wrong with the header of a multipart part.
#[derive(Clone, Copy, PartialEq, Eq, Structural, Debug)]
pub enum MultipartDefect {
    /// The part carries no content disposition.
    MissingDisposition,
    /// The content disposition names no field.
    MissingName,
}

/// Why a request was not served.
#[derive(Clone, Copy, PartialEq, Eq, Structural, Debug)]
pub enum ServiceError {
    /// The path parameter is not a token in any accepted notation.
    InvalidToken,
    /// No blob is stored under the token.
    NotFound,
    /// The file system refused to create, extend or remove a blob.
    StorageIo,
    /// The form lacks the identifier, the file name or the stored file.
    IncompleteForm,
    /// A part of the form has an unusable header.
    MalformedMultipart(MultipartDefect),
}

/// The text that describes `e` to the client.
pub open spec fn message_text(e: ServiceError) -> Seq<char> {
    match e {
        ServiceError::InvalidToken => "Invalid token."@,
        ServiceError::NotFound => "No such upload."@,
        ServiceError::StorageIo => "Storage failure."@,
        ServiceError::IncompleteForm => "Incomplete form."@,
        ServiceError::MalformedMultipart(MultipartDefect::MissingDisposition) =>
            "Malformed multipart/form-data header."@,
        ServiceError::MalformedMultipart(MultipartDefect::MissingName) =>
            "Missing multipart name."@,
    }
}

impl ServiceError {
    /// The text that describes this condition to the client.
    pub fn message(&self) -> (text: String)
        ensures
            text@ == message_text(*self),
    {
        match self {
            ServiceError::InvalidToken => String::from_str("Invalid token."),
            ServiceError::NotFound => String::from_str("No such upload."),
            ServiceError::StorageIo => String::from_str("Storage failure."),
            ServiceError::IncompleteForm => String::from_str("Incomplete form."),
            ServiceError::MalformedMultipart(MultipartDefect::MissingDisposition) => {
                String::from_str("Malformed multipart/form-data header.")
            },
            ServiceError::MalformedMultipart(MultipartDefect::MissingName) => String::from_str(
                "Missing multipart name.",
            ),
        }
    }
}

} // verus!
