//! Core logic of a small book-catalogue web service: cursor pagination,
//! Cloudinary request signing, credential checks and the replies that each
//! endpoint sends.
pub mod text;
pub mod codec;
pub mod crypto;
pub mod models;
pub mod cursor;
pub mod reply;
pub mod books;
pub mod cloudinary;
pub mod user;
