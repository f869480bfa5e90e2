//! A read-it-later article manager.
//!
//! The library keeps the articles of a remote reading list in two local
//! buckets, unread and read. It picks unread articles at random, fetches the
//! remote unread list page by page, deletes read articles remotely in
//! chunks, and replaces the local library by what was fetched.
//!
//! The library decides and computes; it neither reads or writes a file nor
//! sends a request. What it asks of its user it hands out as values: the
//! requests to post, the pages to ask for, the library to persist.
//!
//! - [`inventory`]: a bucket of values by id.
//! - [`article`], [`library`]: articles, the two buckets and the picker.
//! - [`json`], [`remote`]: the answers of the remote service.
//! - [`fetcher`]: the paginated fetch, as a state machine.
//! - [`api`]: the requests for pages and for bulk actions.
//! - [`renewal`]: one whole renewal of the library, as a state machine.
//! - [`oauth`]: the steps of the authorization.
//! - [`text`]: helpers on strings.

pub mod api;
pub mod article;
pub mod fetcher;
pub mod inventory;
pub mod json;
pub mod library;
pub mod oauth;
pub mod remote;
pub mod renewal;
pub mod text;
