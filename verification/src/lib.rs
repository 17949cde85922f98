//! An embeddable, single-file issue-tracking store.
//!
//! A [`project::Project`] aggregates issues, their comment threads and a user
//! roster, and is persisted as one structured text document.  The document
//! codec lives in [`codec`], the persistence protocol in [`storage`], the
//! queries in [`search`], and the read-only renderers in
//! [`display_options`] and [`printer`].  The laws the engine obeys — id
//! monotonicity and idempotence of closing — are proved in [`laws`], and the
//! document round trip in [`codec`].

pub mod clock;
pub mod codec;
pub mod display_options;
pub mod issue;
pub mod laws;
pub mod printer;
pub mod project;
pub mod search;
pub mod storage;
pub mod text;
pub mod user;
