//! The per-request engine: renders a named view under a context, applies the
//! optional minification filter, computes the entity tag over exactly the
//! bytes that would be transmitted, and compares it against the caller's
//! precondition to decide between a full body and "not modified".
//!
//! The engine also fronts the rendered-output cache: a request may be served
//! from the cache under an opaque key, and a fresh rendering may be stored
//! there. The check-then-render-then-insert pattern is deliberately not
//! atomic across those steps: two concurrent misses for one key may both
//! render and both insert. The later insert wins whole — see
//! [`crate::cache::lemma_last_insert_wins`] — so either way the cache ends
//! with one self-consistent (content, tag) pair.

use vstd::prelude::*;
use vstd::utf8::encode_utf8;

use crate::backend;
use crate::backend::TemplateContext;
use crate::backend::minified_of;
use crate::cache::EntryModel;
use crate::cache::RenderedCache;
use crate::cache::contains_key_model;
use crate::cache::insert_model;
use crate::cache::lookup;
use crate::error::TemplateError;
use crate::etag::EntityTag;
use crate::etag::computed_tag;
use crate::precond::EtagIfNoneMatch;
use crate::precond::PrecondModel;
use crate::precond::precond_matches;
use crate::tera_response::TeraResponse;
use crate::reloadable::ReloadableTera;

verus! {

/// The tag value computed for content: the content hash of its bytes, as
/// transmitted.
pub open spec fn content_tag(s: Seq<char>) -> Seq<char> {
    computed_tag(encode_utf8(s))
}

/// The body that will be transmitted for rendered content: the content
/// itself, or its minified form when minification is requested — nothing at
/// all when the minifier rejects it.
pub open spec fn body_after_minify(minify: bool, html: Seq<char>) -> Option<Seq<char>> {
    if minify {
        minified_of(html)
    } else {
        Some(html)
    }
}

/// The conditional-response decision, as seen by the caller being served,
/// whether the body is fresh or shared from the cache: the body to transmit
/// exists, "not modified" comes exactly when the precondition weakly matches
/// the tag computed over that body, and otherwise the response carries that
/// body with that strong tag.
pub open spec fn served_ok(
    p: PrecondModel,
    minify: bool,
    html: Seq<char>,
    resp: TeraResponse,
) -> bool {
    body_after_minify(minify, html) matches Some(body) && {
        &&& resp.is_not_modified() == precond_matches(p, content_tag(body))
        &&& !resp.is_not_modified() ==> resp.spec_content() == body && (
        resp.spec_etag() matches Some(t) && !t.weak && t.tag@ == content_tag(body))
    }
}

/// The decision for freshly rendered content: as served, and a body that is
/// transmitted is owned by the response, not shared from the cache.
pub open spec fn decision_ok(
    p: PrecondModel,
    minify: bool,
    html: Seq<char>,
    resp: TeraResponse,
) -> bool {
    served_ok(p, minify, html, resp) && (!resp.is_not_modified() ==> !resp.is_from_cache())
}

/// The engine: the template store plus the rendered-output cache. The store
/// and the cache are mutated by distinct operations and never need to be
/// held together.
#[derive(Debug)]
pub struct TeraContextManager {
    /// The template store.
    pub tera: ReloadableTera,
    /// The rendered-output cache.
    pub cache_table: RenderedCache,
}

impl TeraContextManager {
    /// The engine invariant: both components are well-formed.
    pub open spec fn wf(self) -> bool {
        self.tera.wf() && self.cache_table.wf()
    }

    /// Creates an engine around a template store, with a rendered-output
    /// cache of the given fixed capacity.
    pub fn new(tera: ReloadableTera, cache_capacity: usize) -> (r: TeraContextManager)
        requires
            tera.wf(),
        ensures
            r.wf(),
            r.tera == tera,
            r.cache_table.capacity == cache_capacity,
            r.cache_table.model() == Seq::<EntryModel>::empty(),
    {
        TeraContextManager { tera, cache_table: RenderedCache::with_capacity(cache_capacity) }
    }

    /// The decision once content has been rendered: minify when asked,
    /// failing the whole request if the minifier refuses — unminified
    /// content is never served silently; compute the tag over exactly the
    /// bytes that would be transmitted; and emit "not modified" when the
    /// precondition weakly matches that tag, else the body with the tag.
    pub fn build_from_rendered(
        etag_if_none_match: &EtagIfNoneMatch,
        minify: bool,
        html: String,
    ) -> (r: Result<TeraResponse, TemplateError>)
        ensures
            r is Err <==> (minify && minified_of(html@) is None),
            r matches Err(e) ==> e matches TemplateError::Minify(m),
            r matches Ok(resp) ==> decision_ok(etag_if_none_match.model(), minify, html@, resp),
    {
        let body = if minify {
            match backend::minify_html(&html) {
                Ok(m) => m,
                Err(msg) => {
                    return Err(TemplateError::Minify(msg));
                },
            }
        } else {
            html
        };
        let etag = EntityTag::compute(body.as_str().as_bytes());
        if etag_if_none_match.weak_eq(&etag) {
            Ok(TeraResponse::not_modified())
        } else {
            Ok(TeraResponse::build_not_cache(body, &etag))
        }
    }

    /// Renders the named view and builds the conditional response for it,
    /// without touching the cache. What the engine renders is its own
    /// affair; whatever body came back, the decision taken on it is the
    /// exact one of [`Self::build_from_rendered`]. A missing template name
    /// is reported apart from an evaluation failure, and a render failure
    /// never produces a response.
    pub fn build(
        &self,
        etag_if_none_match: &EtagIfNoneMatch,
        minify: bool,
        name: &String,
        context: &TemplateContext,
    ) -> (r: Result<TeraResponse, TemplateError>)
        ensures
            r matches Err(TemplateError::NotFound(n)) ==> n@ == name@,
            r matches Ok(resp) ==> exists|html: Seq<char>|
                decision_ok(etag_if_none_match.model(), minify, html, resp),
    {
        match self.tera.render(name, context) {
            Ok(html) => {
                let ghost html_view = html@;
                match Self::build_from_rendered(etag_if_none_match, minify, html) {
                    Ok(resp) => {
                        proof {
                            assert(decision_ok(
                                etag_if_none_match.model(),
                                minify,
                                html_view,
                                resp,
                            ));
                        }
                        Ok(resp)
                    },
                    Err(e) => Err(e),
                }
            },
            Err(e) => Err(e),
        }
    }

    /// Renders the named view under the context, with no conditional logic
    /// and no caching.
    pub fn render(&self, name: &String, context: &TemplateContext) -> (r: Result<
        String,
        TemplateError,
    >)
        ensures
            r matches Err(TemplateError::NotFound(n)) ==> n@ == name@,
    {
        self.tera.render(name, context)
    }

    /// Serves from the cache under the key: "not modified" when the
    /// precondition weakly matches the cached tag, else the cached body with
    /// its tag; nothing at all when the key was never populated — the caller
    /// is expected to have rendered under that key at least once first. No
    /// cache mutation happens on a hit, and a read promotes no recency.
    pub fn build_from_cache(&self, etag_if_none_match: &EtagIfNoneMatch, key: &String) -> (r:
        Option<TeraResponse>)
        ensures
            match r {
                Some(resp) => contains_key_model(self.cache_table.model(), key@) && (lookup(
                    self.cache_table.model(),
                    key@,
                ) matches Some(e) && {
                    &&& resp.is_not_modified() == precond_matches(
                        etag_if_none_match.model(),
                        e.tag_value,
                    )
                    &&& !resp.is_not_modified() ==> resp.is_from_cache() && resp.spec_content()
                        == e.content && (resp.spec_etag() matches Some(t) && t.weak == e.tag_weak
                        && t.tag@ == e.tag_value)
                }),
                None => !contains_key_model(self.cache_table.model(), key@),
            },
    {
        match self.cache_table.get(key) {
            Some((content, tag)) => {
                if etag_if_none_match.weak_eq(&tag) {
                    Some(TeraResponse::not_modified())
                } else {
                    Some(TeraResponse::build_cache(content, &tag))
                }
            },
            None => None,
        }
    }

    /// Completes the cached-response flow after a miss: takes the freshly
    /// built response apart, stores its body and tag under the key — one
    /// cache mutation, and the only one a request ever makes — and returns
    /// an equivalent response to serve. The "not modified" signal stores
    /// nothing, and a failed render never reaches this point, so a failed
    /// request never populates the cache.
    pub fn cache_response(&mut self, key: &String, res: TeraResponse) -> (r: TeraResponse)
        requires
            old(self).wf(),
        ensures
            final(self).wf(),
            final(self).tera == old(self).tera,
            final(self).cache_table.capacity == old(self).cache_table.capacity,
            res.is_not_modified() ==> r.is_not_modified() && final(self).cache_table == old(
                self,
            ).cache_table,
            !res.is_not_modified() ==> {
                &&& final(self).cache_table.model() == insert_model(
                    old(self).cache_table.model(),
                    old(self).cache_table.capacity as nat,
                    (EntryModel {
                        key: key@,
                        content: res.spec_content(),
                        tag_weak: res.spec_etag().unwrap().weak,
                        tag_value: res.spec_etag().unwrap().tag@,
                    }),
                )
                &&& !r.is_not_modified()
                &&& r.spec_content() == res.spec_content()
                &&& r.spec_etag().unwrap().weak == res.spec_etag().unwrap().weak
                &&& r.spec_etag().unwrap().tag@ == res.spec_etag().unwrap().tag@
            },
    {
        match res.into_html_and_etag() {
            Some((content, etag)) => {
                let out = TeraResponse::build_cache(content.clone(), &etag);
                self.cache_table.insert(key.clone(), content, etag);
                out
            },
            None => TeraResponse::not_modified(),
        }
    }

    /// The whole request under a cache key, start to finish: serve from the
    /// cache when the key is populated — no mutation then; otherwise render
    /// the named view, decide between body and "not modified", and store a
    /// fresh body under the key — the one cache mutation a request ever
    /// makes. A render failure is returned as it is and never populates the
    /// cache.
    pub fn build_cached(
        &mut self,
        etag_if_none_match: &EtagIfNoneMatch,
        minify: bool,
        key: &String,
        name: &String,
        context: &TemplateContext,
    ) -> (r: Result<TeraResponse, TemplateError>)
        requires
            old(self).wf(),
        ensures
            final(self).wf(),
            final(self).tera == old(self).tera,
            final(self).cache_table.capacity == old(self).cache_table.capacity,
            r is Err ==> final(self).cache_table == old(self).cache_table,
            r matches Err(TemplateError::NotFound(n)) ==> n@ == name@,
            contains_key_model(old(self).cache_table.model(), key@) ==> (r is Ok
                && final(self).cache_table == old(self).cache_table),
            match r {
                Ok(resp) => {
                    if contains_key_model(old(self).cache_table.model(), key@) {
                        lookup(old(self).cache_table.model(), key@) matches Some(e) && {
                            &&& resp.is_not_modified() == precond_matches(
                                etag_if_none_match.model(),
                                e.tag_value,
                            )
                            &&& !resp.is_not_modified() ==> resp.spec_content() == e.content && (
                            resp.spec_etag() matches Some(t) && t.weak == e.tag_weak && t.tag@
                                == e.tag_value)
                        }
                    } else {
                        (exists|html: Seq<char>|
                            served_ok(etag_if_none_match.model(), minify, html, resp)) && {
                            &&& resp.is_not_modified() ==> final(self).cache_table == old(
                                self,
                            ).cache_table
                            &&& !resp.is_not_modified() ==> final(self).cache_table.model()
                                == insert_model(
                                old(self).cache_table.model(),
                                old(self).cache_table.capacity as nat,
                                (EntryModel {
                                    key: key@,
                                    content: resp.spec_content(),
                                    tag_weak: resp.spec_etag().unwrap().weak,
                                    tag_value: resp.spec_etag().unwrap().tag@,
                                }),
                            )
                        }
                    }
                },
                Err(e) => true,
            },
    {
        match self.build_from_cache(etag_if_none_match, key) {
            Some(resp) => Ok(resp),
            None => {
                match self.build(etag_if_none_match, minify, name, context) {
                    Ok(rendered) => {
                        let ghost p = etag_if_none_match.model();
                        let ghost html = choose|h: Seq<char>| decision_ok(p, minify, h, rendered);
                        let served = self.cache_response(key, rendered);
                        proof {
                            assert(served_ok(p, minify, html, served));
                        }
                        Ok(served)
                    },
                    Err(e) => Err(e),
                }
            },
        }
    }

    /// Empties the rendered-output cache.
    pub fn clear_cache(&mut self)
        ensures
            final(self).wf() == old(self).tera.wf(),
            final(self).tera == old(self).tera,
            final(self).cache_table.capacity == old(self).cache_table.capacity,
            final(self).cache_table.model() == Seq::<EntryModel>::empty(),
    {
        self.cache_table.clear();
    }

    /// Whether the cache holds the key.
    pub fn contains_key(&self, key: &String) -> (r: bool)
        ensures
            r == contains_key_model(self.cache_table.model(), key@),
    {
        self.cache_table.contains_key(key)
    }

    /// A copy of the cached (content, tag) pair under the key, if any.
    pub fn get(&self, key: &String) -> (r: Option<(String, EntityTag)>)
        ensures
            match r {
                Some(p) => contains_key_model(self.cache_table.model(), key@) && (lookup(
                    self.cache_table.model(),
                    key@,
                ) matches Some(e) && p.0@ == e.content && p.1.weak == e.tag_weak && p.1.tag@
                    == e.tag_value),
                None => !contains_key_model(self.cache_table.model(), key@),
            },
    {
        self.cache_table.get(key)
    }

    /// Stores a (content, tag) pair under the key, returning what the key
    /// held before, if anything.
    pub fn insert(&mut self, key: String, cache: (String, EntityTag)) -> (r: Option<
        (String, EntityTag),
    >)
        requires
            old(self).wf(),
        ensures
            final(self).wf(),
            final(self).tera == old(self).tera,
            final(self).cache_table.capacity == old(self).cache_table.capacity,
            final(self).cache_table.model() == insert_model(
                old(self).cache_table.model(),
                old(self).cache_table.capacity as nat,
                (EntryModel {
                    key: key@,
                    content: cache.0@,
                    tag_weak: cache.1.weak,
                    tag_value: cache.1.tag@,
                }),
            ),
            match r {
                Some(p) => old(self).cache_table.capacity > 0 && contains_key_model(
                    old(self).cache_table.model(),
                    key@,
                ) && (lookup(old(self).cache_table.model(), key@) matches Some(e) && p.0@
                    == e.content && p.1.weak == e.tag_weak && p.1.tag@ == e.tag_value),
                None => old(self).cache_table.capacity == 0 || !contains_key_model(
                    old(self).cache_table.model(),
                    key@,
                ),
            },
    {
        let (content, tag) = cache;
        self.cache_table.insert(key, content, tag)
    }
}

} // verus!
