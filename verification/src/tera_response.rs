//! The outcome of a render request: either a body with its entity tag, or
//! the bare "not modified" signal with no body at all.

use vstd::prelude::*;

use crate::etag::EntityTag;
use crate::precond::EtagIfNoneMatch;

verus! {

/// The body and validator of a response that carries one.
#[derive(Debug)]
pub enum TeraResponseInner {
    /// A freshly rendered body, owned by this response alone.
    NotCache {
        /// The rendered content.
        content: String,
        /// The validator computed for the content.
        etag: EntityTag,
    },
    /// A body taken from the rendered-output cache.
    Cache {
        /// The cached content.
        content: String,
        /// The validator stored beside the content.
        etag: EntityTag,
    },
}

/// An HTML response: a body with its entity tag, or the "not modified"
/// signal, which tells the host layer to answer without a body.
#[derive(Debug)]
pub struct TeraResponse {
    /// The body and validator, or nothing for "not modified".
    pub inner: Option<TeraResponseInner>,
}

impl TeraResponse {
    /// Whether this is the bare "not modified" signal.
    pub open spec fn is_not_modified(self) -> bool {
        self.inner is None
    }

    /// Whether the body was taken from the rendered-output cache.
    pub open spec fn is_from_cache(self) -> bool {
        match self.inner {
            Some(TeraResponseInner::Cache { content, etag }) => true,
            _ => false,
        }
    }

    /// The body carried, when one is.
    pub open spec fn spec_content(self) -> Seq<char> {
        match self.inner {
            Some(TeraResponseInner::NotCache { content, etag }) => content@,
            Some(TeraResponseInner::Cache { content, etag }) => content@,
            None => Seq::empty(),
        }
    }

    /// The validator carried, when a body is.
    pub open spec fn spec_etag(self) -> Option<EntityTag> {
        match self.inner {
            Some(TeraResponseInner::NotCache { content, etag }) => Some(etag),
            Some(TeraResponseInner::Cache { content, etag }) => Some(etag),
            None => None,
        }
    }

    /// Builds the response for freshly rendered content.
    pub fn build_not_cache(content: String, etag: &EntityTag) -> (r: TeraResponse)
        ensures
            !r.is_not_modified(),
            !r.is_from_cache(),
            r.spec_content() == content@,
            r.spec_etag() == Some(*etag),
    {
        TeraResponse { inner: Some(TeraResponseInner::NotCache { content, etag: etag.clone() }) }
    }

    /// Builds the response for content taken from the cache.
    pub fn build_cache(content: String, etag: &EntityTag) -> (r: TeraResponse)
        ensures
            !r.is_not_modified(),
            r.is_from_cache(),
            r.spec_content() == content@,
            r.spec_etag() == Some(*etag),
    {
        TeraResponse { inner: Some(TeraResponseInner::Cache { content, etag: etag.clone() }) }
    }

    /// The "not modified" signal.
    pub fn not_modified() -> (r: TeraResponse)
        ensures
            r.is_not_modified(),
    {
        TeraResponse { inner: None }
    }

    /// Takes the body and its tag out of the response; the "not modified"
    /// signal yields nothing.
    pub fn into_html_and_etag(self) -> (r: Option<(String, EntityTag)>)
        ensures
            match r {
                Some(p) => !self.is_not_modified() && p.0@ == self.spec_content() && Some(p.1)
                    == self.spec_etag(),
                None => self.is_not_modified(),
            },
    {
        match self.inner {
            Some(TeraResponseInner::NotCache { content, etag }) => Some((content, etag)),
            Some(TeraResponseInner::Cache { content, etag }) => Some((content, etag)),
            None => None,
        }
    }

    /// Weak comparison of the response's tag against the caller's
    /// precondition; the "not modified" signal matches nothing.
    pub fn weak_eq(&self, etag_if_none_match: &EtagIfNoneMatch) -> (r: bool)
        ensures
            r == (match self.spec_etag() {
                Some(t) => etag_if_none_match.spec_weak_match(t),
                None => false,
            }),
    {
        match &self.inner {
            Some(TeraResponseInner::NotCache { content, etag }) => etag_if_none_match.weak_eq(etag),
            Some(TeraResponseInner::Cache { content, etag }) => etag_if_none_match.weak_eq(etag),
            None => false,
        }
    }
}

} // verus!
