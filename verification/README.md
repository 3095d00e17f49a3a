# parpress

Backend of a small book catalogue: books with cursor-paginated full-text
listing, image uploads signed for Cloudinary, and username/e-mail login with
Argon2 password hashes kept in a Redis-backed session.

The decisions the service makes are a library verified with Verus (`src/`);
the HTTP server, database, session store and outgoing requests are a thin
program around it (`app/`).

- `src/text.rs` — decimal text of integers, `i64` parsing, UTF-8 helpers.
- `src/codec.rs` — hex, URL-safe base64, UUID text, timestamps, status codes.
- `src/crypto.rs` — SHA-1 digests and Argon2 password hashing.
- `src/cursor.rs` — the listing cursor: encoding, decoding, and the proof
  that every cursor the service hands out reads back to its position.
- `src/books.rs` — planning and paging the listing; replies of the book
  endpoints.
- `src/cloudinary.rs` — upload signatures, signed image deletion, relayed
  replies.
- `src/user.rs` — credential checks, login and registration decisions, the
  session check in front of the API.
- `src/models/` — the records; `src/reply.rs` — status and body of a reply.
- `app/` — actix-web handlers, sqlx queries, session and Cloudinary I/O.
