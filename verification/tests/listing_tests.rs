use parpress::books::{
    api_error_reply, listing_reply, paginate, plan_listing, sanitize_limit, ListingPlan,
};
use parpress::cursor::encode_cursor;
use parpress::models::book::{ApiError, BookSql, BooksQuery, DecodedCursor, PaginatedResponse};
use parpress::reply::{Reply, ReplyBody};

fn book(id: u128, created_at: i64) -> BookSql {
    BookSql {
        id,
        title: format!("Book {}", id),
        author: "Author".to_string(),
        synopsis: "Synopsis".to_string(),
        cover_url: None,
        cover_public_id: None,
        isbn: Some("978-3-16-148410-0".to_string()),
        published_at: Some(738000),
        created_at,
    }
}

#[test]
fn limit_is_clamped() {
    assert_eq!(sanitize_limit(None), 10);
    assert_eq!(sanitize_limit(Some(0)), 1);
    assert_eq!(sanitize_limit(Some(-5)), 1);
    assert_eq!(sanitize_limit(Some(1)), 1);
    assert_eq!(sanitize_limit(Some(42)), 42);
    assert_eq!(sanitize_limit(Some(100)), 100);
    assert_eq!(sanitize_limit(Some(500)), 100);
    assert_eq!(sanitize_limit(Some(i64::MAX)), 100);
}

#[test]
fn plan_first_page() {
    let q = BooksQuery { search: None, cursor: None, limit: None };
    assert_eq!(
        plan_listing(&q),
        Ok(ListingPlan { search: None, cursor: None, limit: 10, fetch_limit: 11 })
    );
}

#[test]
fn plan_empty_search_is_no_search() {
    let q = BooksQuery { search: Some(String::new()), cursor: None, limit: Some(5) };
    assert_eq!(
        plan_listing(&q),
        Ok(ListingPlan { search: None, cursor: None, limit: 5, fetch_limit: 6 })
    );
    let q = BooksQuery { search: Some("rust".to_string()), cursor: None, limit: Some(500) };
    assert_eq!(
        plan_listing(&q),
        Ok(ListingPlan { search: Some("rust".to_string()), cursor: None, limit: 100, fetch_limit: 101 })
    );
}

#[test]
fn plan_with_cursor() {
    let c = encode_cursor(1_700_000_000_000_000, 9);
    let q = BooksQuery { search: Some("x".to_string()), cursor: Some(c), limit: Some(3) };
    assert_eq!(
        plan_listing(&q),
        Ok(ListingPlan {
            search: Some("x".to_string()),
            cursor: Some(DecodedCursor { created_at: 1_700_000_000_000_000, id: 9 }),
            limit: 3,
            fetch_limit: 4,
        })
    );
}

#[test]
fn plan_with_invalid_cursor() {
    let q = BooksQuery { search: None, cursor: Some("not a cursor".to_string()), limit: None };
    assert_eq!(plan_listing(&q), Err(ApiError::InvalidCursor));
}

#[test]
fn paginate_full_page_with_more() {
    let rows = vec![book(3, 300), book(2, 200), book(1, 100)];
    let page = paginate(rows.clone(), 2);
    assert!(page.has_next_page);
    assert_eq!(page.data, rows[..2].to_vec());
    assert_eq!(page.next_cursor, Some(encode_cursor(200, 2)));
}

#[test]
fn paginate_last_page() {
    let rows = vec![book(2, 200), book(1, 100)];
    let page = paginate(rows.clone(), 2);
    assert_eq!(page, PaginatedResponse { data: rows, next_cursor: None, has_next_page: false });
    let page = paginate(Vec::new(), 10);
    assert_eq!(page, PaginatedResponse { data: Vec::new(), next_cursor: None, has_next_page: false });
}

#[test]
fn paginate_then_decode_gives_last_book() {
    let rows: Vec<BookSql> = (0..11).map(|i| book(100 - i as u128, 1_000_000 - i as i64)).collect();
    let page = paginate(rows, 10);
    assert_eq!(page.data.len(), 10);
    let last = page.data.last().unwrap().clone();
    let next = parpress::cursor::decode_cursor(page.next_cursor.as_deref().unwrap());
    assert_eq!(next, Ok(DecodedCursor { created_at: last.created_at, id: last.id }));
}

#[test]
fn listing_error_replies() {
    let r: Reply<()> = api_error_reply(&ApiError::InvalidCursor);
    assert_eq!(r, Reply { status: 400, body: ReplyBody::Error("Invalid cursor".to_string()) });
    let r: Reply<()> = api_error_reply(&ApiError::Database("connection reset".to_string()));
    assert_eq!(r, Reply { status: 500, body: ReplyBody::Error("Internal server error".to_string()) });
    let page = PaginatedResponse { data: vec![book(1, 1)], next_cursor: None, has_next_page: false };
    assert_eq!(
        listing_reply(Ok(page.clone())),
        Reply { status: 200, body: ReplyBody::Json(page) }
    );
    assert_eq!(listing_reply(Err(ApiError::InvalidCursor)).status, 400);
}

/// Pages through a table the way the database answers the listing: the
/// first `fetch_limit` books after the cursor, newest first.
#[test]
fn pages_cover_every_book_once() {
    let mut table: Vec<BookSql> = Vec::new();
    for i in 0..23u128 {
        // Some books share an instant; the id breaks the tie.
        table.push(book(1000 - i, 5_000_000 - (i as i64 / 3)));
    }
    table.sort_by(|a, b| (b.created_at, b.id).cmp(&(a.created_at, a.id)));
    for limit in [1i64, 2, 5, 10, 23, 100] {
        let mut seen: Vec<BookSql> = Vec::new();
        let mut cursor: Option<String> = None;
        loop {
            let q = BooksQuery { search: None, cursor: cursor.clone(), limit: Some(limit) };
            let plan = plan_listing(&q).unwrap();
            let rows: Vec<BookSql> = table
                .iter()
                .filter(|b| match &plan.cursor {
                    None => true,
                    Some(c) => (b.created_at, b.id) < (c.created_at, c.id),
                })
                .take(plan.fetch_limit as usize)
                .cloned()
                .collect();
            let page = paginate(rows, plan.limit);
            seen.extend(page.data.iter().cloned());
            if !page.has_next_page {
                break;
            }
            cursor = page.next_cursor;
        }
        assert_eq!(seen, table, "limit {}", limit);
    }
}
