use parpress::books::{create_book_reply, delete_book_reply, single_book_reply, update_book_reply, DbError};
use parpress::models::book::{BookResponse, BookSql};
use parpress::reply::{Reply, ReplyBody};

fn response() -> BookResponse {
    BookResponse {
        id: 1,
        title: "T".to_string(),
        author: "A".to_string(),
        synopsis: "S".to_string(),
        cover_url: Some("https://res.cloudinary.com/x.png".to_string()),
        cover_public_id: Some("x".to_string()),
        isbn: None,
        published_at: None,
        created_at: 10,
        updated_at: 20,
    }
}

fn failure(row_not_found: bool) -> DbError {
    DbError { row_not_found, message: "boom".to_string() }
}

#[test]
fn create_book_replies() {
    assert_eq!(create_book_reply(Ok(response())), Reply { status: 201, body: ReplyBody::Json(response()) });
    assert_eq!(
        create_book_reply(Err(failure(false))),
        Reply { status: 500, body: ReplyBody::Message("Failed to create book".to_string()) }
    );
}

#[test]
fn update_book_replies() {
    assert_eq!(update_book_reply(Ok(response())), Reply { status: 200, body: ReplyBody::Json(response()) });
    assert_eq!(
        update_book_reply(Err(failure(true))),
        Reply { status: 404, body: ReplyBody::Message("Book not found".to_string()) }
    );
    assert_eq!(
        update_book_reply(Err(failure(false))),
        Reply {
            status: 500,
            body: ReplyBody::MessageWithError {
                message: "Failed to update book".to_string(),
                error: "boom".to_string()
            }
        }
    );
}

#[test]
fn delete_book_replies() {
    assert_eq!(
        delete_book_reply(Ok(0)),
        Reply { status: 404, body: ReplyBody::Message("Book not found".to_string()) }
    );
    assert_eq!(
        delete_book_reply(Ok(1)),
        Reply { status: 200, body: ReplyBody::Message("Book deleted successfully".to_string()) }
    );
    assert_eq!(
        delete_book_reply(Err(failure(false))),
        Reply { status: 500, body: ReplyBody::Message("Database error: boom".to_string()) }
    );
}

#[test]
fn single_book_replies() {
    let b = BookSql {
        id: 2,
        title: "T".to_string(),
        author: "A".to_string(),
        synopsis: "S".to_string(),
        cover_url: None,
        cover_public_id: None,
        isbn: None,
        published_at: None,
        created_at: 5,
    };
    assert_eq!(single_book_reply(Ok(Some(b.clone()))), Reply { status: 200, body: ReplyBody::Json(b) });
    assert_eq!(
        single_book_reply(Ok(None)),
        Reply { status: 404, body: ReplyBody::Message("Book not found".to_string()) }
    );
    assert_eq!(
        single_book_reply(Err(failure(false))),
        Reply { status: 500, body: ReplyBody::Message("Database error".to_string()) }
    );
}
