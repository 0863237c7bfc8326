use rocket_include_tera::ConfigError;
use rocket_include_tera::EntityTag;
use rocket_include_tera::EtagIfNoneMatch;
use rocket_include_tera::ReloadableTera;
use rocket_include_tera::TemplateContext;
use rocket_include_tera::TemplateError;
use rocket_include_tera::TeraContextManager;

fn engine_with(name: &str, source: &str, capacity: usize) -> TeraContextManager {
    let mut store = ReloadableTera::new();
    store.register_template_source(String::from(name), source).unwrap();
    TeraContextManager::new(store, capacity)
}

#[test]
fn conditional_round_trip() {
    // Render "t1" with {"title": "Hi"}, note the tag; resubmitting with that
    // tag as the precondition yields "not modified"; with a bogus
    // precondition the same body and the same tag come back again.
    let cm = engine_with("t1", "{{title}}", 8);
    let mut ctx = TemplateContext::new();
    ctx.insert_str("title", "Hi");

    let first = cm
        .build(&EtagIfNoneMatch::default(), false, &String::from("t1"), &ctx)
        .unwrap();
    let (body, e1) = first.into_html_and_etag().unwrap();
    assert_eq!(body, "Hi");
    assert_eq!(e1.to_string(), "\"9275F07B5BB95BA\"");

    let seen = EtagIfNoneMatch::from_header_value(&format!("W/{}", e1.to_string()));
    let second = cm.build(&seen, false, &String::from("t1"), &ctx).unwrap();
    assert!(second.into_html_and_etag().is_none());

    let bogus = EtagIfNoneMatch::from_header_value("\"bogus\"");
    let third = cm.build(&bogus, false, &String::from("t1"), &ctx).unwrap();
    let (body3, e3) = third.into_html_and_etag().unwrap();
    assert_eq!(body3, "Hi");
    assert_eq!(e3.to_string(), e1.to_string());
}

#[test]
fn response_weak_eq_against_precondition() {
    let cm = engine_with("t", "hello", 8);
    let ctx = TemplateContext::new();
    let resp = cm
        .build(&EtagIfNoneMatch::default(), false, &String::from("t"), &ctx)
        .unwrap();
    let tag = EntityTag::compute(b"hello");
    let seen = EtagIfNoneMatch::from_header_value(&tag.to_string());
    assert!(resp.weak_eq(&seen));
    let other = EtagIfNoneMatch::from_header_value("\"nope\"");
    assert!(!resp.weak_eq(&other));
}

#[test]
fn render_not_found_is_distinct() {
    let cm = engine_with("t", "hello", 8);
    let ctx = TemplateContext::new();
    match cm.render(&String::from("absent"), &ctx) {
        Err(err) => {
            assert!(matches!(err, TemplateError::NotFound(ref name) if name == "absent"));
            assert_eq!(err.message(), "absent is not registered");
        },
        other => panic!("expected a missing-template failure, got {:?}", other),
    }
}

#[test]
fn render_evaluation_failure() {
    // The template parses, but the function does not exist at render time.
    let cm = engine_with("t", "{{ no_such_function() }}", 8);
    let ctx = TemplateContext::new();
    match cm.render(&String::from("t"), &ctx) {
        Err(TemplateError::Evaluation(_)) => {},
        other => panic!("expected an evaluation failure, got {:?}", other),
    }
}

#[test]
fn register_duplicate_name_fails() {
    let mut store = ReloadableTera::new();
    store.register_template_source(String::from("t"), "a").unwrap();
    match store.register_template_source(String::from("t"), "b") {
        Err(ConfigError::DuplicateTemplateName(name)) => assert_eq!(name, "t"),
        other => panic!("expected a duplicate-name failure, got {:?}", other),
    }
    // The first registration still stands.
    let cm = TeraContextManager::new(store, 0);
    let ctx = TemplateContext::new();
    assert_eq!(cm.render(&String::from("t"), &ctx).unwrap(), "a");
}

#[test]
fn register_parse_failure() {
    let mut store = ReloadableTera::new();
    match store.register_template_source(String::from("bad"), "{% if %}") {
        Err(err) => {
            assert!(matches!(err, ConfigError::Parse(_)));
            assert!(!err.message().is_empty());
        },
        other => panic!("expected a parse failure, got {:?}", other),
    }
    // A failed registration leaves no record behind.
    assert!(store.unregister_template_file(&String::from("bad")).is_none());
}

#[test]
fn minify_changes_the_body_and_the_tag_follows() {
    let html = String::from("<p>  Hi   there  </p>");
    let resp = TeraContextManager::build_from_rendered(&EtagIfNoneMatch::default(), true, html.clone())
        .unwrap();
    let (body, tag) = resp.into_html_and_etag().unwrap();
    // The minifier really ran: whitespace runs are gone.
    assert_ne!(body, html);
    assert!(body.contains("Hi"));
    // The tag is computed over the post-minification bytes, so it matches
    // exactly what is transmitted.
    let recomputed = EntityTag::compute(body.as_bytes());
    assert_eq!(tag.to_string(), recomputed.to_string());
}

#[test]
fn minify_failure_fails_the_request() {
    // The minifier refuses this style block; the request fails rather than
    // serving unminified content silently.
    let html = String::from("<style>\"}</style>");
    match TeraContextManager::build_from_rendered(&EtagIfNoneMatch::default(), true, html) {
        Err(TemplateError::Minify(_)) => {},
        other => panic!("expected a minification failure, got {:?}", other),
    }
}

#[test]
fn build_without_minify_serves_rendered_bytes() {
    let html = String::from("<p>Hi</p>");
    let resp =
        TeraContextManager::build_from_rendered(&EtagIfNoneMatch::default(), false, html.clone())
            .unwrap();
    let (body, tag) = resp.into_html_and_etag().unwrap();
    assert_eq!(body, html);
    assert_eq!(tag.to_string(), "\"BEA23A89E8FE3A19\"");
}

#[test]
fn cached_flow_hit_and_miss() {
    let mut cm = engine_with("t", "cached body", 8);
    let key = String::from("k");
    let none = EtagIfNoneMatch::default();
    let ctx = TemplateContext::new();

    // Never populated: a distinct "no cache" signal, not a failure.
    assert!(cm.build_from_cache(&none, &key).is_none());

    // Miss path: render, then store through the cached-response flow.
    let rendered = cm.build(&none, false, &String::from("t"), &ctx).unwrap();
    let served = cm.cache_response(&key, rendered);
    let (body, tag) = served.into_html_and_etag().unwrap();
    assert_eq!(body, "cached body");

    // Hit path: a fresh response comes straight from the cache.
    let hit = cm.build_from_cache(&none, &key).unwrap();
    let (body2, tag2) = hit.into_html_and_etag().unwrap();
    assert_eq!(body2, "cached body");
    assert_eq!(tag2.to_string(), tag.to_string());

    // Hit with a matching precondition: "not modified", and no mutation.
    let seen = EtagIfNoneMatch::from_header_value(&tag.to_string());
    let nm = cm.build_from_cache(&seen, &key).unwrap();
    assert!(nm.into_html_and_etag().is_none());
}

#[test]
fn stampede_both_requests_complete_consistently() {
    // Two interleaved cache-miss requests for one key: both check, both
    // render, both insert. Both complete, the later insert wins whole, and
    // the cache holds one self-consistent (content, tag) pair.
    let mut cm = engine_with("t", "stampeded body", 4);
    let key = String::from("k");
    let none = EtagIfNoneMatch::default();
    let ctx = TemplateContext::new();

    let miss_a = cm.build_from_cache(&none, &key);
    let miss_b = cm.build_from_cache(&none, &key);
    assert!(miss_a.is_none() && miss_b.is_none());

    let render_a = cm.build(&none, false, &String::from("t"), &ctx).unwrap();
    let render_b = cm.build(&none, false, &String::from("t"), &ctx).unwrap();

    let served_a = cm.cache_response(&key, render_a);
    let served_b = cm.cache_response(&key, render_b);
    assert!(served_a.into_html_and_etag().is_some());
    assert!(served_b.into_html_and_etag().is_some());

    let (content, tag) = cm.get(&key).unwrap();
    assert_eq!(content, "stampeded body");
    let recomputed = EntityTag::compute(content.as_bytes());
    assert_eq!(tag.to_string(), recomputed.to_string());
}

#[test]
fn build_cached_whole_flow() {
    let mut cm = engine_with("t", "whole flow body", 8);
    let key = String::from("k");
    let name = String::from("t");
    let none = EtagIfNoneMatch::default();
    let ctx = TemplateContext::new();

    // First request: a miss that renders and populates the cache.
    let first = cm.build_cached(&none, false, &key, &name, &ctx).unwrap();
    let (body, tag) = first.into_html_and_etag().unwrap();
    assert_eq!(body, "whole flow body");
    assert!(cm.contains_key(&key));

    // Second request with the seen tag: served from the cache, not modified.
    let seen = EtagIfNoneMatch::from_header_value(&tag.to_string());
    let second = cm.build_cached(&seen, false, &key, &name, &ctx).unwrap();
    assert!(second.into_html_and_etag().is_none());

    // Third request without a precondition: the cached body again.
    let third = cm.build_cached(&none, false, &key, &name, &ctx).unwrap();
    let (body3, tag3) = third.into_html_and_etag().unwrap();
    assert_eq!(body3, "whole flow body");
    assert_eq!(tag3.to_string(), tag.to_string());
}

#[test]
fn manager_cache_operations() {
    let mut cm = engine_with("t", "x", 2);
    let pair = (String::from("body"), EntityTag::compute(b"body"));
    assert!(cm.insert(String::from("k"), pair).is_none());
    assert!(cm.contains_key(&String::from("k")));
    let (content, _tag) = cm.get(&String::from("k")).unwrap();
    assert_eq!(content, "body");
    cm.clear_cache();
    assert!(!cm.contains_key(&String::from("k")));
}

#[test]
fn capacity_zero_engine_never_caches() {
    let mut cm = engine_with("t", "body", 0);
    let key = String::from("k");
    let pair = (String::from("body"), EntityTag::compute(b"body"));
    assert!(cm.insert(key.clone(), pair).is_none());
    assert!(!cm.contains_key(&key));
    assert!(cm.build_from_cache(&EtagIfNoneMatch::default(), &key).is_none());
}

#[test]
fn failed_render_does_not_populate_cache() {
    let mut cm = engine_with("t", "{{ no_such_function() }}", 8);
    let key = String::from("k");
    let none = EtagIfNoneMatch::default();
    let ctx = TemplateContext::new();
    assert!(cm.build_from_cache(&none, &key).is_none());
    let failed = cm.build(&none, false, &String::from("t"), &ctx);
    assert!(failed.is_err());
    // Nothing was stored for the key.
    assert!(!cm.contains_key(&key));
    assert!(cm.build_from_cache(&none, &key).is_none());
}

#[test]
fn context_values_reach_the_template() {
    let cm = engine_with("t", "{{s}}-{{n}}-{{b}}", 8);
    let mut ctx = TemplateContext::new();
    ctx.insert_str("s", "x");
    ctx.insert_i64("n", 7);
    ctx.insert_bool("b", true);
    assert_eq!(cm.render(&String::from("t"), &ctx).unwrap(), "x-7-true");
}
