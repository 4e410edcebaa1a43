//! Errors answered by the Nextcloud News compatible API, with their status and detail text.

use vstd::prelude::*;

use crate::text::{decimal, decimal_digits, format_i64, format_u64};

verus! {

/// An API failure: each variant fixes the HTTP status and the `detail` text of the response.
#[derive(Clone, Debug, PartialEq, Eq)]
pub enum ApiError {
    FeedAlreadyExists,
    /// The feed could not be fetched or parsed; carries the reason.
    FeedParse(String),
    /// The feed URL was refused by the request-forgery rules; carries the reason.
    Ssrf(String),
    FeedNotFound(i64),
    FolderNotFound,
    FolderNotFoundWithId(i64),
    FolderAlreadyExists,
    FolderNameInvalid,
    ItemNotFound,
    InvalidSelectionType,
    /// A bulk request named more `{feedId, guidHash}` pairs than accepted; carries the count.
    TooManyItems(u64),
    Internal,
}

/// The HTTP status code of an error.
pub open spec fn status_of(e: ApiError) -> u16 {
    match e {
        ApiError::FeedAlreadyExists => 409,
        ApiError::FeedParse(_) => 422,
        ApiError::Ssrf(_) => 400,
        ApiError::FeedNotFound(_) => 404,
        ApiError::FolderNotFound => 404,
        ApiError::FolderNotFoundWithId(_) => 422,
        ApiError::FolderAlreadyExists => 409,
        ApiError::FolderNameInvalid => 422,
        ApiError::ItemNotFound => 404,
        ApiError::InvalidSelectionType => 400,
        ApiError::TooManyItems(_) => 400,
        ApiError::Internal => 500,
    }
}

/// The `detail` text of an error.
pub open spec fn detail_of(e: ApiError) -> Seq<char> {
    match e {
        ApiError::FeedAlreadyExists => "Feed already exists"@,
        ApiError::FeedParse(m) => m@,
        ApiError::Ssrf(m) => m@,
        ApiError::FeedNotFound(id) => "Feed "@ + decimal(id as int) + " not found"@,
        ApiError::FolderNotFound => "Folder not found"@,
        ApiError::FolderNotFoundWithId(id) => "Folder with ID "@ + decimal(id as int)
            + " does not exist"@,
        ApiError::FolderAlreadyExists => "Folder already exists"@,
        ApiError::FolderNameInvalid => "Folder name is invalid"@,
        ApiError::ItemNotFound => "Item not found"@,
        ApiError::InvalidSelectionType => "Invalid item selection type"@,
        ApiError::TooManyItems(n) => "Too many items in request: "@ + decimal_digits(n as nat)
            + " (max 10000)"@,
        ApiError::Internal => "Internal server error"@,
    }
}

impl ApiError {
    /// The HTTP status code answered for this error.
    pub fn status(&self) -> (res: u16)
        ensures
            res == status_of(*self),
    {
        match self {
            ApiError::FeedAlreadyExists => 409,
            ApiError::FeedParse(_) => 422,
            ApiError::Ssrf(_) => 400,
            ApiError::FeedNotFound(_) => 404,
            ApiError::FolderNotFound => 404,
            ApiError::FolderNotFoundWithId(_) => 422,
            ApiError::FolderAlreadyExists => 409,
            ApiError::FolderNameInvalid => 422,
            ApiError::ItemNotFound => 404,
            ApiError::InvalidSelectionType => 400,
            ApiError::TooManyItems(_) => 400,
            ApiError::Internal => 500,
        }
    }

    /// The `detail` text answered for this error.
    pub fn detail(&self) -> (res: String)
        ensures
            res@ == detail_of(*self),
    {
        match self {
            ApiError::FeedAlreadyExists => String::from_str("Feed already exists"),
            ApiError::FeedParse(m) => m.clone(),
            ApiError::Ssrf(m) => m.clone(),
            ApiError::FeedNotFound(id) => {
                let mut r = String::from_str("Feed ");
                r.append(format_i64(*id).as_str());
                r.append(" not found");
                r
            },
            ApiError::FolderNotFound => String::from_str("Folder not found"),
            ApiError::FolderNotFoundWithId(id) => {
                let mut r = String::from_str("Folder with ID ");
                r.append(format_i64(*id).as_str());
                r.append(" does not exist");
                r
            },
            ApiError::FolderAlreadyExists => String::from_str("Folder already exists"),
            ApiError::FolderNameInvalid => String::from_str("Folder name is invalid"),
            ApiError::ItemNotFound => String::from_str("Item not found"),
            ApiError::InvalidSelectionType => String::from_str("Invalid item selection type"),
            ApiError::TooManyItems(n) => {
                let mut r = String::from_str("Too many items in request: ");
                r.append(format_u64(*n).as_str());
                r.append(" (max 10000)");
                r
            },
            ApiError::Internal => String::from_str("Internal server error"),
        }
    }
}

} // verus!
