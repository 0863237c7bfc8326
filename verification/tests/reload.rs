use std::io::Seek;
use std::io::SeekFrom;
use std::io::Write;

use rocket_include_tera::ReloadableTera;
use rocket_include_tera::TemplateContext;
use rocket_include_tera::TeraContextManager;

#[test]
fn stale_template_reload() {
    // Register a template from a file containing "A", render it, change the
    // file to "B" with a newer modification time, reload, and observe "B".
    let mut file = tempfile::NamedTempFile::new().unwrap();
    file.write_all(b"A").unwrap();
    file.flush().unwrap();
    let path = file.path().to_str().unwrap().to_string();

    let mut store = ReloadableTera::new();
    store
        .register_template_file(String::from("t2"), path, Some(1))
        .unwrap();
    let cm = TeraContextManager::new(store, 8);
    let ctx = TemplateContext::new();
    assert_eq!(cm.render(&String::from("t2"), &ctx).unwrap(), "A");

    let mut cm = cm;
    file.as_file_mut().set_len(0).unwrap();
    file.seek(SeekFrom::Start(0)).unwrap();
    file.write_all(b"B").unwrap();
    file.flush().unwrap();

    let reparsed = cm.tera.reload_if_needed(&vec![Some(2)]).unwrap();
    assert_eq!(reparsed, 1);
    assert_eq!(cm.render(&String::from("t2"), &ctx).unwrap(), "B");
}

#[test]
fn reload_is_idempotent() {
    // A second pass with the same probes, nothing having changed, re-parses
    // zero templates and succeeds.
    let mut file = tempfile::NamedTempFile::new().unwrap();
    file.write_all(b"body").unwrap();
    file.flush().unwrap();
    let path = file.path().to_str().unwrap().to_string();

    let mut store = ReloadableTera::new();
    store
        .register_template_file(String::from("t"), path, None)
        .unwrap();

    // The record holds no time, so the first pass re-parses.
    let first = store.reload_if_needed(&vec![Some(5)]).unwrap();
    assert_eq!(first, 1);
    let second = store.reload_if_needed(&vec![Some(5)]).unwrap();
    assert_eq!(second, 0);
}

#[test]
fn reload_skips_fresh_and_source_templates() {
    let mut file = tempfile::NamedTempFile::new().unwrap();
    file.write_all(b"file body").unwrap();
    file.flush().unwrap();
    let path = file.path().to_str().unwrap().to_string();

    let mut store = ReloadableTera::new();
    store.register_template_source(String::from("s"), "source body").unwrap();
    store
        .register_template_file(String::from("f"), path, Some(10))
        .unwrap();

    // An older probe is not stale; a source template never is.
    let reparsed = store.reload_if_needed(&vec![None, Some(10)]).unwrap();
    assert_eq!(reparsed, 0);
}

#[test]
fn failed_probe_means_stale_and_is_retried() {
    let mut file = tempfile::NamedTempFile::new().unwrap();
    file.write_all(b"x").unwrap();
    file.flush().unwrap();
    let path = file.path().to_str().unwrap().to_string();

    let mut store = ReloadableTera::new();
    store
        .register_template_file(String::from("t"), path, Some(3))
        .unwrap();

    // A failed probe counts as stale and leaves the time unrecorded...
    assert_eq!(store.reload_if_needed(&vec![None]).unwrap(), 1);
    // ...so the next pass, its probe back, re-parses once more.
    assert_eq!(store.reload_if_needed(&vec![Some(3)]).unwrap(), 1);
    assert_eq!(store.reload_if_needed(&vec![Some(3)]).unwrap(), 0);
}

#[test]
fn unregister_stops_tracking() {
    let mut store = ReloadableTera::new();
    store.register_template_source(String::from("t"), "body").unwrap();
    let rec = store.unregister_template_file(&String::from("t")).unwrap();
    assert_eq!(rec.name, "t");
    assert!(rec.path.is_none());
    assert!(store.unregister_template_file(&String::from("t")).is_none());
    // No record is left, so a reload pass has nothing to probe.
    assert_eq!(store.reload_if_needed(&vec![]).unwrap(), 0);
}
