//! The book endpoints: planning and paging the listing, and the reply each
//! endpoint gives for what the database answered.
use vstd::prelude::*;

use crate::codec::micros_in_chrono_range;
use crate::cursor::{
    cursor_result, decode_cursor, decode_cursor_spec, encode_cursor, encode_cursor_spec,
    lemma_cursor_round_trip,
};
use crate::models::book::{
    ApiError, BookResponse, BookSql, BooksQuery, DecodedCursor, PaginatedResponse, DEFAULT_LIMIT,
    MAX_LIMIT,
};
use crate::reply::{error_reply, is_error, is_message, message_reply, Reply, ReplyBody};

verus! {

/// What the database reported when a statement failed: whether no row was
/// found where one was expected, and the error's text.
#[derive(Debug, Clone, PartialEq, Eq)]
pub struct DbError {
    pub row_not_found: bool,
    pub message: String,
}

/// The page size for a requested limit: 10 when none is given, otherwise
/// the request clamped to 1..=100.
pub open spec fn effective_limit(limit: Option<i64>) -> i64 {
    let l = match limit {
        Some(l) => l,
        None => DEFAULT_LIMIT,
    };
    if l < 1 {
        1
    } else if l > MAX_LIMIT {
        MAX_LIMIT
    } else {
        l
    }
}

/// The page size is the requested limit clamped to `1..=MAX_LIMIT`: a
/// limit within the range is kept as it is, one below it gives 1, one above
/// it gives `MAX_LIMIT`, and no limit gives `DEFAULT_LIMIT`.
pub proof fn lemma_limit_is_clamped(limit: Option<i64>)
    ensures
        limit is None ==> effective_limit(limit) == DEFAULT_LIMIT,
        forall|x: i64|
            limit == Some(x) && 1 <= x <= MAX_LIMIT ==> #[trigger] effective_limit(Some(x)) == x,
        forall|x: i64| limit == Some(x) && x < 1 ==> #[trigger] effective_limit(Some(x)) == 1,
        forall|x: i64|
            limit == Some(x) && x > MAX_LIMIT ==> #[trigger] effective_limit(Some(x)) == MAX_LIMIT,
        1 <= effective_limit(limit) <= MAX_LIMIT,
{
}

/// Page size for a requested limit.
pub fn sanitize_limit(limit: Option<i64>) -> (l: i64)
    ensures
        l == effective_limit(limit),
        1 <= l <= MAX_LIMIT,
        limit is None ==> l == DEFAULT_LIMIT,
        limit matches Some(x) ==> (1 <= x <= MAX_LIMIT ==> l == x),
        limit matches Some(x) ==> (x < 1 ==> l == 1),
        limit matches Some(x) ==> (x > MAX_LIMIT ==> l == MAX_LIMIT),
{
    let l = match limit {
        Some(l) => l,
        None => DEFAULT_LIMIT,
    };
    if l < 1 {
        1
    } else if l > MAX_LIMIT {
        MAX_LIMIT
    } else {
        l
    }
}

/// The search term of a query: an empty term counts as no search.
pub open spec fn effective_search(search: Option<String>) -> Option<String> {
    match search {
        Some(s) => if s@.len() > 0 {
            Some(s)
        } else {
            None
        },
        None => None,
    }
}

/// How the listing is to be read: optional full-text search, optional
/// position to continue after, the page size, and how many rows to fetch
/// (one more than a page, to learn whether another page follows).
#[derive(Debug, Clone, PartialEq, Eq)]
pub struct ListingPlan {
    pub search: Option<String>,
    pub cursor: Option<DecodedCursor>,
    pub limit: i64,
    pub fetch_limit: i64,
}

/// Plans the listing for a query. Fails with `InvalidCursor` exactly when
/// the query carries a cursor that does not decode.
pub fn plan_listing(query: &BooksQuery) -> (r: Result<ListingPlan, ApiError>)
    ensures
        r is Err <==> (query.cursor matches Some(c) && decode_cursor_spec(c@) is None),
        r matches Err(e) ==> e == ApiError::InvalidCursor,
        r matches Ok(plan) ==> {
            &&& plan.limit == effective_limit(query.limit)
            &&& plan.fetch_limit == plan.limit + 1
            &&& plan.search == effective_search(query.search)
            &&& match query.cursor {
                Some(c) => cursor_result(decode_cursor_spec(c@)) == Ok::<DecodedCursor, ApiError>(
                    plan.cursor.unwrap(),
                ) && plan.cursor is Some,
                None => plan.cursor is None,
            }
        },
{
    let limit = sanitize_limit(query.limit);
    let cursor = match &query.cursor {
        Some(c) => match decode_cursor(c.as_str()) {
            Ok(d) => Some(d),
            Err(e) => {
                return Err(e);
            },
        },
        None => None,
    };
    let search = match &query.search {
        Some(s) => if s.as_str().is_empty() {
            None
        } else {
            Some(s.clone())
        },
        None => None,
    };
    Ok(ListingPlan { search, cursor, limit, fetch_limit: limit + 1 })
}

/// Whether the fetched rows show that another page follows.
pub open spec fn page_has_next(rows: Seq<BookSql>, limit: int) -> bool {
    rows.len() > limit
}

/// The books of the page: the fetched rows, less the extra row that showed
/// another page follows.
pub open spec fn page_data(rows: Seq<BookSql>, limit: int) -> Seq<BookSql> {
    if page_has_next(rows, limit) {
        rows.drop_last()
    } else {
        rows
    }
}

/// The cursor of the next page: that of the page's last book, when another
/// page follows.
pub open spec fn page_cursor(rows: Seq<BookSql>, limit: int) -> Option<Seq<char>> {
    let data = page_data(rows, limit);
    if page_has_next(rows, limit) && data.len() > 0 {
        Some(encode_cursor_spec(data.last().created_at, data.last().id))
    } else {
        None
    }
}

/// Turns the fetched rows (at most `limit + 1`, newest first) into a page.
pub fn paginate(rows: Vec<BookSql>, limit: i64) -> (page: PaginatedResponse<BookSql>)
    requires
        0 <= limit,
    ensures
        page.has_next_page == page_has_next(rows@, limit as int),
        page.data@ == page_data(rows@, limit as int),
        page.next_cursor is Some <==> page_cursor(rows@, limit as int) is Some,
        page.next_cursor matches Some(c) ==> page_cursor(rows@, limit as int) == Some(c@),
{
    let has_next_page = rows.len() as u64 > limit as u64;
    let mut books = rows;
    if has_next_page {
        books.pop();
    }
    let next_cursor = if has_next_page && books.len() > 0 {
        let last = &books[books.len() - 1];
        Some(encode_cursor(last.created_at, last.id))
    } else {
        None
    };
    PaginatedResponse { data: books, next_cursor, has_next_page }
}

/// A full page holds `limit` books, a last page all the fetched rows; the
/// next cursor is given exactly when another page follows.
pub proof fn lemma_page_shape(rows: Seq<BookSql>, limit: int)
    requires
        1 <= limit,
        rows.len() <= limit + 1,
    ensures
        page_data(rows, limit).len() == if rows.len() > limit {
            limit
        } else {
            rows.len() as int
        },
        page_data(rows, limit).len() <= limit,
        page_cursor(rows, limit) is Some <==> page_has_next(rows, limit),
        forall|i: int|
            0 <= i < page_data(rows, limit).len() ==> #[trigger] page_data(rows, limit)[i]
                == rows[i],
{
}

/// When another page follows, its cursor reads back to the last book of
/// this page, so the next page continues right after it. The instant of a
/// stored book is that of a `DateTime<Utc>`, which chrono represents.
pub proof fn lemma_next_cursor_reads_back(rows: Seq<BookSql>, limit: int)
    requires
        1 <= limit,
        page_has_next(rows, limit),
        micros_in_chrono_range(page_data(rows, limit).last().created_at),
    ensures
        page_data(rows, limit).len() > 0,
        page_cursor(rows, limit) matches Some(c) && decode_cursor_spec(c) == Some(
            (page_data(rows, limit).last().created_at, page_data(rows, limit).last().id),
        ),
{
    let last = page_data(rows, limit).last();
    lemma_cursor_round_trip(last.created_at, last.id);
}

/// The position of a book in the listing: its creation instant and id.
pub open spec fn book_key(b: BookSql) -> (i64, u128) {
    (b.created_at, b.id)
}

/// Position `a` comes after position `b` in the listing, which is ordered
/// newest first: `(created_at, id) < (b.created_at, b.id)`, compared as the
/// database compares rows (instant first, then id; a UUID orders as its
/// 128-bit value).
pub open spec fn key_before(a: (i64, u128), b: (i64, u128)) -> bool {
    a.0 < b.0 || (a.0 == b.0 && a.1 < b.1)
}

/// The books in listing order: strictly newest first by position.
pub open spec fn sorted_desc(t: Seq<BookSql>) -> bool {
    forall|i: int, j: int|
        0 <= i < j < t.len() ==> key_before(book_key(#[trigger] t[j]), book_key(#[trigger] t[i]))
}

/// The books of `t` that come after position `p`, in order (what the
/// listing's `WHERE (created_at, id) < (p)` keeps).
pub open spec fn rows_after(t: Seq<BookSql>, p: (i64, u128)) -> Seq<BookSql>
    decreases t.len(),
{
    if t.len() == 0 {
        t
    } else if key_before(book_key(t[0]), p) {
        seq![t[0]] + rows_after(t.skip(1), p)
    } else {
        rows_after(t.skip(1), p)
    }
}

/// The books still to list: all of them on the first page, those after the
/// cursor's position on later ones.
pub open spec fn remaining_rows(t: Seq<BookSql>, pos: Option<(i64, u128)>) -> Seq<BookSql> {
    match pos {
        None => t,
        Some(p) => rows_after(t, p),
    }
}

/// When every book comes after `p`, none is dropped.
pub proof fn lemma_rows_after_all(t: Seq<BookSql>, p: (i64, u128))
    requires
        forall|i: int| 0 <= i < t.len() ==> key_before(book_key(#[trigger] t[i]), p),
    ensures
        rows_after(t, p) == t,
    decreases t.len(),
{
    if t.len() > 0 {
        assert(key_before(book_key(t[0]), p));
        assert forall|i: int| 0 <= i < t.skip(1).len() implies key_before(
            book_key(#[trigger] t.skip(1)[i]),
            p,
        ) by {
            assert(t.skip(1)[i] == t[i + 1]);
        }
        lemma_rows_after_all(t.skip(1), p);
        assert(seq![t[0]] + t.skip(1) =~= t);
    }
}

/// In listing order, the books after any position are a suffix.
pub proof fn lemma_rows_after_suffix(t: Seq<BookSql>, p: (i64, u128)) -> (j: int)
    requires
        sorted_desc(t),
    ensures
        0 <= j <= t.len(),
        rows_after(t, p) == t.skip(j),
    decreases t.len(),
{
    if t.len() == 0 {
        assert(t.skip(0) =~= t);
        0
    } else if key_before(book_key(t[0]), p) {
        assert forall|i: int| 0 <= i < t.len() implies key_before(book_key(#[trigger] t[i]), p) by {
            if i > 0 {
                assert(key_before(book_key(t[i]), book_key(t[0])));
            }
        }
        lemma_rows_after_all(t, p);
        assert(t.skip(0) =~= t);
        0
    } else {
        let r = t.skip(1);
        assert forall|a: int, b: int| 0 <= a < b < r.len() implies key_before(
            book_key(#[trigger] r[b]),
            book_key(#[trigger] r[a]),
        ) by {
            assert(r[a] == t[a + 1] && r[b] == t[b + 1]);
        }
        let j1 = lemma_rows_after_suffix(r, p);
        assert(r.skip(j1) =~= t.skip(j1 + 1));
        j1 + 1
    }
}

/// In listing order, the books after the `k`-th book are those that follow
/// it.
pub proof fn lemma_rows_after_book(t: Seq<BookSql>, k: int)
    requires
        sorted_desc(t),
        0 <= k < t.len(),
    ensures
        rows_after(t, book_key(t[k])) == t.skip(k + 1),
    decreases k,
{
    let p = book_key(t[k]);
    let r = t.skip(1);
    if k == 0 {
        assert forall|i: int| 0 <= i < r.len() implies key_before(book_key(#[trigger] r[i]), p) by {
            assert(r[i] == t[i + 1]);
        }
        lemma_rows_after_all(r, p);
    } else {
        assert(key_before(book_key(t[k]), book_key(t[0])));
        assert forall|a: int, b: int| 0 <= a < b < r.len() implies key_before(
            book_key(#[trigger] r[b]),
            book_key(#[trigger] r[a]),
        ) by {
            assert(r[a] == t[a + 1] && r[b] == t[b + 1]);
        }
        assert(r[k - 1] == t[k]);
        lemma_rows_after_book(r, k - 1);
        assert(r.skip(k) =~= t.skip(k + 1));
    }
}

/// The listing misses no book and shows none twice. Given the books in
/// listing order (all those matching the search), and a database that
/// answers each fetch with the first `limit + 1` books after the cursor's
/// position: the page shows the next `limit` books still to list (or all of
/// them, and then no page follows), and the next cursor's position leaves
/// exactly the books after those shown.
pub proof fn lemma_listing_continues(t: Seq<BookSql>, pos: Option<(i64, u128)>, limit: int)
    requires
        1 <= limit,
        sorted_desc(t),
        forall|i: int| 0 <= i < t.len() ==> micros_in_chrono_range(#[trigger] t[i].created_at),
    ensures
        ({
            let rest = remaining_rows(t, pos);
            let rows = if rest.len() > limit + 1 {
                rest.take(limit + 1)
            } else {
                rest
            };
            &&& page_has_next(rows, limit) <==> rest.len() > limit
            &&& page_data(rows, limit) == if rest.len() > limit {
                rest.take(limit)
            } else {
                rest
            }
            &&& page_has_next(rows, limit) ==> (page_cursor(rows, limit) matches Some(c)
                && decode_cursor_spec(c) matches Some(p) && rows_after(t, p) == rest.skip(limit))
        }),
{
    let j = match pos {
        None => 0,
        Some(p) => lemma_rows_after_suffix(t, p),
    };
    if pos is None {
        assert(t.skip(0) =~= t);
    }
    let rest = remaining_rows(t, pos);
    assert(rest == t.skip(j));
    let rows = if rest.len() > limit + 1 {
        rest.take(limit + 1)
    } else {
        rest
    };
    if rest.len() > limit {
        assert(rows.drop_last() =~= rest.take(limit));
        let last = rest[limit - 1];
        assert(last == t[j + limit - 1]);
        assert(page_data(rows, limit).last() == last);
        lemma_next_cursor_reads_back(rows, limit);
        lemma_rows_after_book(t, j + limit - 1);
        assert(t.skip(j + limit) =~= rest.skip(limit));
    }
}

/// What the database answers for one page: the first `limit + 1` books
/// still to list after the position.
pub open spec fn fetched_rows(t: Seq<BookSql>, pos: Option<(i64, u128)>, limit: int) -> Seq<
    BookSql,
> {
    let rest = remaining_rows(t, pos);
    if rest.len() > limit + 1 {
        rest.take(limit + 1)
    } else {
        rest
    }
}

/// The books a client sees when it lists from a position and follows each
/// next cursor, fetching at most `pages` pages: the books of this page,
/// then, while another page follows, those listed from its cursor.
pub open spec fn listing_books(
    t: Seq<BookSql>,
    pos: Option<(i64, u128)>,
    limit: int,
    pages: nat,
) -> Seq<BookSql>
    decreases pages,
{
    let rows = fetched_rows(t, pos, limit);
    let data = page_data(rows, limit);
    if pages <= 1 || !page_has_next(rows, limit) {
        data
    } else {
        match page_cursor(rows, limit) {
            Some(c) => match decode_cursor_spec(c) {
                Some(p) => data + listing_books(t, Some(p), limit, (pages - 1) as nat),
                None => data,
            },
            None => data,
        }
    }
}

/// Following the cursors from a position lists every book still to list,
/// each once and in order, and then stops: no gap and no repeat. Given the
/// books in listing order (all those matching the search) and a database
/// that answers each fetch with the first `limit + 1` books after the
/// position, as many pages as there are books (plus one) are enough.
pub proof fn lemma_listing_run(t: Seq<BookSql>, pos: Option<(i64, u128)>, limit: int, pages: nat)
    requires
        1 <= limit,
        sorted_desc(t),
        forall|i: int| 0 <= i < t.len() ==> micros_in_chrono_range(#[trigger] t[i].created_at),
        pages > remaining_rows(t, pos).len(),
    ensures
        listing_books(t, pos, limit, pages) == remaining_rows(t, pos),
    decreases remaining_rows(t, pos).len(),
{
    lemma_listing_continues(t, pos, limit);
    let rest = remaining_rows(t, pos);
    let rows = fetched_rows(t, pos, limit);
    if rest.len() > limit {
        let c = page_cursor(rows, limit)->0;
        let p = decode_cursor_spec(c)->0;
        assert(remaining_rows(t, Some(p)) == rest.skip(limit));
        lemma_listing_run(t, Some(p), limit, (pages - 1) as nat);
        assert(rest.take(limit) + rest.skip(limit) =~= rest);
    }
}

/// Listing from the first page shows the whole listing, each book once.
pub proof fn lemma_listing_covers_all(t: Seq<BookSql>, limit: int)
    requires
        1 <= limit,
        sorted_desc(t),
        forall|i: int| 0 <= i < t.len() ==> micros_in_chrono_range(#[trigger] t[i].created_at),
    ensures
        listing_books(t, None, limit, t.len() + 1) == t,
{
    lemma_listing_run(t, None, limit, t.len() + 1);
}

/// The reply to a failed listing: a bad cursor is the client's error (400),
/// a database failure the server's (500).
pub fn api_error_reply<T>(e: &ApiError) -> (r: Reply<T>)
    ensures
        e is InvalidCursor ==> r.status == 400 && is_error(r.body, "Invalid cursor"@),
        e is Database ==> r.status == 500 && is_error(r.body, "Internal server error"@),
{
    match e {
        ApiError::Database(_) => error_reply(500, "Internal server error"),
        ApiError::InvalidCursor => error_reply(400, "Invalid cursor"),
    }
}

/// The reply to a listing: the page (200), or the error's reply.
pub fn listing_reply(
    result: Result<PaginatedResponse<BookSql>, ApiError>,
) -> (r: Reply<PaginatedResponse<BookSql>>)
    ensures
        match result {
            Ok(page) => r == Reply { status: 200, body: ReplyBody::Json(page) },
            Err(ApiError::InvalidCursor) => r.status == 400 && is_error(r.body, "Invalid cursor"@),
            Err(ApiError::Database(_)) => r.status == 500 && is_error(
                r.body,
                "Internal server error"@,
            ),
        },
{
    match result {
        Ok(page) => Reply { status: 200, body: ReplyBody::Json(page) },
        Err(e) => api_error_reply(&e),
    }
}

/// The reply to creating a book: the stored book (201), or a failure (500).
pub fn create_book_reply(result: Result<BookResponse, DbError>) -> (r: Reply<BookResponse>)
    ensures
        match result {
            Ok(book) => r == Reply { status: 201, body: ReplyBody::Json(book) },
            Err(_) => r.status == 500 && is_message(r.body, "Failed to create book"@),
        },
{
    match result {
        Ok(book) => Reply { status: 201, body: ReplyBody::Json(book) },
        Err(_) => message_reply(500, "Failed to create book"),
    }
}

/// The reply to updating a book: the stored book (200), 404 when no book
/// has the id, or a failure with its text (500).
pub fn update_book_reply(result: Result<BookResponse, DbError>) -> (r: Reply<BookResponse>)
    ensures
        match result {
            Ok(book) => r == Reply { status: 200, body: ReplyBody::Json(book) },
            Err(e) => if e.row_not_found {
                r.status == 404 && is_message(r.body, "Book not found"@)
            } else {
                r.status == 500 && (r.body matches ReplyBody::MessageWithError { message, error }
                    && message@ == "Failed to update book"@ && error == e.message)
            },
        },
{
    match result {
        Ok(book) => Reply { status: 200, body: ReplyBody::Json(book) },
        Err(e) => if e.row_not_found {
            message_reply(404, "Book not found")
        } else {
            Reply {
                status: 500,
                body: ReplyBody::MessageWithError {
                    message: "Failed to update book".to_owned(),
                    error: e.message,
                },
            }
        },
    }
}

/// The reply to deleting a book, given how many rows the statement removed:
/// 404 when none, 200 otherwise, or a failure with its text (500).
pub fn delete_book_reply(result: Result<u64, DbError>) -> (r: Reply<()>)
    ensures
        match result {
            Ok(n) => if n == 0 {
                r.status == 404 && is_message(r.body, "Book not found"@)
            } else {
                r.status == 200 && is_message(r.body, "Book deleted successfully"@)
            },
            Err(e) => r.status == 500 && is_message(r.body, "Database error: "@ + e.message@),
        },
{
    match result {
        Ok(n) => if n == 0 {
            message_reply(404, "Book not found")
        } else {
            message_reply(200, "Book deleted successfully")
        },
        Err(e) => {
            let mut text = "Database error: ".to_owned();
            text.append(e.message.as_str());
            Reply { status: 500, body: ReplyBody::Message(text) }
        },
    }
}

/// The reply to reading one book: the book (200), 404 when no book has the
/// id, or a failure (500).
pub fn single_book_reply(result: Result<Option<BookSql>, DbError>) -> (r: Reply<BookSql>)
    ensures
        match result {
            Ok(Some(book)) => r == Reply { status: 200, body: ReplyBody::Json(book) },
            Ok(None) => r.status == 404 && is_message(r.body, "Book not found"@),
            Err(_) => r.status == 500 && is_message(r.body, "Database error"@),
        },
{
    match result {
        Ok(Some(book)) => Reply { status: 200, body: ReplyBody::Json(book) },
        Ok(None) => message_reply(404, "Book not found"),
        Err(_) => message_reply(500, "Database error"),
    }
}

} // verus!
