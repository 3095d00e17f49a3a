//! Books, the listing query, its cursor, and the errors of the listing.
//!
//! Identifiers are UUIDs held as their 128-bit value; instants are
//! microseconds since the UNIX epoch (UTC); calendar dates are days counted
//! from 1 January of year 1 (day 1).
use vstd::prelude::*;

verus! {

/// Page size when the query gives none.
pub const DEFAULT_LIMIT: i64 = 10;

/// Largest page size a query may ask for.
pub const MAX_LIMIT: i64 = 100;

/// Request to delete an uploaded image.
#[derive(Debug, Clone, PartialEq, Eq)]
pub struct DeleteImageRequest {
    pub public_id: String,
}

/// A book as the listing reads it.
#[derive(Debug, Clone, PartialEq, Eq)]
pub struct BookSql {
    pub id: u128,
    pub title: String,
    pub author: String,
    pub synopsis: String,
    pub cover_url: Option<String>,
    pub cover_public_id: Option<String>,
    pub isbn: Option<String>,
    pub published_at: Option<i32>,
    pub created_at: i64,
}

/// The fields of a new book.
#[derive(Debug, Clone, PartialEq, Eq)]
pub struct BookRequest {
    pub title: String,
    pub author: String,
    pub synopsis: String,
    pub cover_url: Option<String>,
    pub cover_public_id: Option<String>,
    pub isbn: Option<String>,
    pub published_at: Option<i32>,
}

/// A stored book as returned after a write.
#[derive(Debug, Clone, PartialEq, Eq)]
pub struct BookResponse {
    pub id: u128,
    pub title: String,
    pub author: String,
    pub synopsis: String,
    pub cover_url: Option<String>,
    pub cover_public_id: Option<String>,
    pub isbn: Option<String>,
    pub published_at: Option<i32>,
    pub created_at: i64,
    pub updated_at: i64,
}

/// Query of the book listing.
#[derive(Debug, Clone, PartialEq, Eq)]
pub struct BooksQuery {
    pub search: Option<String>,
    /// Opaque base64 cursor taken from the previous page.
    pub cursor: Option<String>,
    pub limit: Option<i64>,
}

/// Position in the listing: the creation instant and id of the last book of
/// the previous page.
#[derive(Debug, Clone, PartialEq, Eq)]
pub struct DecodedCursor {
    pub created_at: i64,
    pub id: u128,
}

/// One page of a listing.
#[derive(Debug, Clone, PartialEq, Eq)]
pub struct PaginatedResponse<T> {
    pub data: Vec<T>,
    pub next_cursor: Option<String>,
    pub has_next_page: bool,
}

/// Why the listing failed: the database reported an error (its message), or
/// the cursor could not be read.
#[derive(Debug, Clone, PartialEq, Eq)]
pub enum ApiError {
    Database(String),
    InvalidCursor,
}

/// Changes to a stored book: fields left `None` keep their value.
#[derive(Debug, Clone, PartialEq, Eq)]
pub struct BookUpdate {
    pub id: u128,
    pub title: Option<String>,
    pub author: Option<String>,
    pub synopsis: Option<String>,
    pub cover_url: Option<String>,
    pub cover_public_id: Option<String>,
    pub isbn: Option<String>,
    pub published_at: Option<i32>,
}

} // verus!
