//! Rendered-template responses with entity tags, a bounded LRU cache of
//! rendered output, and hot-reloadable template registration.
//!
//! The crate is organised around five pieces:
//! - [`EntityTag`](etag::EntityTag): an HTTP-style validator computed from
//!   rendered bytes, with weak and strong comparison.
//! - [`EtagIfNoneMatch`](precond::EtagIfNoneMatch): the caller's precondition,
//!   parsed from an `If-None-Match`-style header value.
//! - [`RenderedCache`](cache::RenderedCache): a fixed-capacity store of
//!   rendered (content, tag) pairs with least-recently-used eviction.
//! - [`ReloadableTera`](reloadable::ReloadableTera): the template store, which
//!   re-parses a registered template when its backing file looks newer.
//! - [`TeraContextManager`](manager::TeraContextManager): the per-request
//!   engine that turns a render request plus a precondition into either a
//!   fresh body or a "not modified" signal.

pub mod backend;
pub mod cache;
pub mod error;
pub mod etag;
pub mod manager;
pub mod precond;
pub mod reloadable;
pub mod tera_response;

pub use backend::TemplateContext;
pub use cache::RenderedCache;
pub use error::ConfigError;
pub use error::TemplateError;
pub use etag::EntityTag;
pub use manager::TeraContextManager;
pub use precond::EtagIfNoneMatch;
pub use reloadable::ReloadableTera;
pub use tera_response::TeraResponse;
