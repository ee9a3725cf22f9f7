//! Verified core of a client for a disposable-mailbox web service.
//!
//! The service is driven through its own browser-facing AJAX endpoint: a
//! session token is scraped from the landing page, and every later call
//! carries that token, browser-like headers, and a cache-busting timestamp.
//! This crate holds the whole client-side logic — deriving the mailbox alias,
//! scraping the token, building each request as plain data, and decoding each
//! response — with contracts; the surrounding network transport performs the
//! requests that these values describe.

pub mod client;
pub mod error;
pub mod json;
pub mod model;
pub mod text;
pub mod token;

pub use client::ApiRequest;
pub use client::Client;
pub use client::ClientBuilder;
pub use client::HttpMethod;
pub use error::Error;
pub use json::JsonValue;
pub use model::Attachment;
pub use model::EmailDetails;
pub use model::Message;
