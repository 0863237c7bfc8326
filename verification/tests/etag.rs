use rocket_include_tera::EntityTag;
use rocket_include_tera::EtagIfNoneMatch;

#[test]
fn compute_known_values() {
    // 64-bit content hash of the bytes, rendered as uppercase hexadecimal.
    let t = EntityTag::compute(b"hello world");
    assert!(!t.weak);
    assert_eq!(t.tag, "779A65E7023CD2E7");
    assert_eq!(t.to_string(), "\"779A65E7023CD2E7\"");

    let empty = EntityTag::compute(b"");
    assert_eq!(empty.tag, "CBF29CE484222325");

    let hi = EntityTag::compute(b"Hi");
    assert_eq!(hi.tag, "9275F07B5BB95BA");
}

#[test]
fn compute_deterministic() {
    // Two computations over the same bytes give byte-identical wire forms.
    let a = EntityTag::compute(b"some rendered page");
    let b = EntityTag::compute(b"some rendered page");
    assert_eq!(a.to_string(), b.to_string());
    assert!(a.weak_eq(&b));
    assert!(b.weak_eq(&a));
}

#[test]
fn compute_distinct_bytes_differ() {
    let a = EntityTag::compute(b"A");
    let b = EntityTag::compute(b"B");
    assert!(!a.weak_eq(&b));
    assert_ne!(a.to_string(), b.to_string());
}

#[test]
fn weak_and_strong_comparison() {
    let strong = EntityTag::new(false, String::from("v1")).unwrap();
    let weak = EntityTag::new(true, String::from("v1")).unwrap();
    let other = EntityTag::new(false, String::from("v2")).unwrap();

    // Weak equality ignores the flags; strong equality requires both strong.
    assert!(strong.weak_eq(&weak));
    assert!(weak.weak_eq(&strong));
    assert!(!strong.weak_eq(&other));
    assert!(strong.strong_eq(&strong));
    assert!(!strong.strong_eq(&weak));
    assert!(!weak.strong_eq(&weak));
}

#[test]
fn wire_forms() {
    let strong = EntityTag::new(false, String::from("abc")).unwrap();
    let weak = EntityTag::new(true, String::from("abc")).unwrap();
    assert_eq!(strong.to_string(), "\"abc\"");
    assert_eq!(weak.to_string(), "W/\"abc\"");
}

#[test]
fn new_refuses_quote() {
    assert!(EntityTag::new(false, String::from("a\"b")).is_none());
    assert!(EntityTag::new(false, String::from("ab")).is_some());
}

#[test]
fn parse_single_strong() {
    let p = EtagIfNoneMatch::from_header_value("\"abc\"");
    assert!(!p.wildcard);
    assert_eq!(p.etags.len(), 1);
    assert!(!p.etags[0].weak);
    assert_eq!(p.etags[0].tag, "abc");
}

#[test]
fn parse_single_weak() {
    let p = EtagIfNoneMatch::from_header_value("W/\"abc\"");
    assert_eq!(p.etags.len(), 1);
    assert!(p.etags[0].weak);
    assert_eq!(p.etags[0].tag, "abc");
}

#[test]
fn parse_wildcard() {
    let p = EtagIfNoneMatch::from_header_value("*");
    assert!(p.wildcard);
    assert_eq!(p.etags.len(), 0);
    // The wildcard matches every tag.
    let t = EntityTag::compute(b"anything");
    assert!(p.weak_eq(&t));
}

#[test]
fn parse_list_with_whitespace() {
    let p = EtagIfNoneMatch::from_header_value(" \"a\" , W/\"b\" ,, \"c\"");
    assert!(!p.wildcard);
    assert_eq!(p.etags.len(), 3);
    assert_eq!(p.etags[0].tag, "a");
    assert!(!p.etags[0].weak);
    assert_eq!(p.etags[1].tag, "b");
    assert!(p.etags[1].weak);
    assert_eq!(p.etags[2].tag, "c");
}

#[test]
fn parse_unquoted_candidate() {
    // Quotes are stripped only when both are present; a bare value stands.
    let p = EtagIfNoneMatch::from_header_value("abc");
    assert_eq!(p.etags.len(), 1);
    assert_eq!(p.etags[0].tag, "abc");
}

#[test]
fn parse_empty_header_matches_nothing() {
    let p = EtagIfNoneMatch::from_header_value("");
    assert!(!p.wildcard);
    assert_eq!(p.etags.len(), 0);
    let t = EntityTag::compute(b"x");
    assert!(!p.weak_eq(&t));
}

#[test]
fn precondition_matching_is_weak() {
    let t = EntityTag::compute(b"page");
    let wire = t.to_string();
    // The candidate parsed back from the wire form matches, strong or weak.
    let strong_form = EtagIfNoneMatch::from_header_value(&wire);
    assert!(strong_form.weak_eq(&t));
    let weak_form = EtagIfNoneMatch::from_header_value(&format!("W/{}", wire));
    assert!(weak_form.weak_eq(&t));
    let bogus = EtagIfNoneMatch::from_header_value("\"bogus\"");
    assert!(!bogus.weak_eq(&t));
}

#[test]
fn parse_weak_unquoted_candidate() {
    let p = EtagIfNoneMatch::from_header_value("W/xyz");
    assert_eq!(p.etags.len(), 1);
    assert!(p.etags[0].weak);
    assert_eq!(p.etags[0].tag, "xyz");
}

#[test]
fn parse_lone_quote_is_kept() {
    // Quotes are stripped only as a pair; a value with one quote on one side
    // is taken verbatim.
    let p = EtagIfNoneMatch::from_header_value("abc\"");
    assert_eq!(p.etags.len(), 1);
    assert_eq!(p.etags[0].tag, "abc\"");
}

#[test]
fn wildcard_among_candidates() {
    let p = EtagIfNoneMatch::from_header_value("\"a\", *");
    assert!(p.wildcard);
    assert_eq!(p.etags.len(), 1);
    assert!(p.weak_eq(&EntityTag::compute(b"whatever")));
}

#[test]
fn default_precondition_matches_nothing() {
    let p = EtagIfNoneMatch::default();
    assert!(!p.weak_eq(&EntityTag::compute(b"x")));
}
