//! Fragment store and template renderer behaviour on concrete values.

use jrenamer::errors::RenameError;
use jrenamer::fragments::FragmentStore;
use jrenamer::numeral::u64_string;
use jrenamer::template::render;

#[test]
fn set_then_get_returns_value() {
    let mut store = FragmentStore::new();
    store.set("artist".to_string(), "holst".to_string());
    assert_eq!(store.get(&"artist".to_string()), Some(&"holst".to_string()));
    assert_eq!(store.len(), 1);
}

#[test]
fn get_of_unwritten_key_is_none() {
    let store = FragmentStore::new();
    assert_eq!(store.get(&"anything".to_string()), None);
    assert!(!store.contains_key(&"anything".to_string()));
}

#[test]
fn last_write_wins() {
    let mut store = FragmentStore::new();
    store.set("k".to_string(), "v1".to_string());
    store.set("k".to_string(), "v2".to_string());
    assert_eq!(store.get(&"k".to_string()), Some(&"v2".to_string()));
    assert_eq!(store.len(), 1);
}

#[test]
fn overwrite_keeps_position_in_listing() {
    let mut store = FragmentStore::new();
    store.set("a".to_string(), "1".to_string());
    store.set("b".to_string(), "2".to_string());
    store.set("a".to_string(), "3".to_string());
    assert_eq!(store.listing(), "a=3\nb=2\n");
}

#[test]
fn listing_is_in_insertion_order() {
    let mut store = FragmentStore::new();
    store.set("z".to_string(), "last".to_string());
    store.set("a".to_string(), "first".to_string());
    assert_eq!(store.listing(), "z=last\na=first\n");
    assert_eq!(FragmentStore::new().listing(), "");
}

#[test]
fn decimal_rendering_is_exact() {
    assert_eq!(u64_string(0), "0");
    assert_eq!(u64_string(7), "7");
    assert_eq!(u64_string(42), "42");
    assert_eq!(u64_string(1000), "1000");
    assert_eq!(u64_string(u64::MAX), "18446744073709551615");
}

#[test]
fn render_substitutes_and_passes_literals() {
    let mut store = FragmentStore::new();
    store.set("filename".to_string(), "report".to_string());
    store.set("extension".to_string(), "txt".to_string());
    let rendered = render("{filename} copy.{extension}", &store).unwrap();
    assert_eq!(rendered, "report copy.txt");
}

#[test]
fn render_of_pure_literal_is_identity() {
    let store = FragmentStore::new();
    assert_eq!(render("no placeholders here", &store).unwrap(), "no placeholders here");
    assert_eq!(render("", &store).unwrap(), "");
}

#[test]
fn render_missing_key_names_it() {
    let mut store = FragmentStore::new();
    store.set("present".to_string(), "x".to_string());
    match render("{present}-{absent}", &store) {
        Err(RenameError::UnresolvedPlaceholder(key)) => assert_eq!(key, "absent"),
        other => panic!("expected an unresolved placeholder, got {:?}", other),
    }
}

#[test]
fn render_is_stable_across_calls() {
    let mut store = FragmentStore::new();
    store.set("n".to_string(), "7".to_string());
    let first = render("{n}{n}!", &store).unwrap();
    let second = render("{n}{n}!", &store).unwrap();
    assert_eq!(first, "77!");
    assert_eq!(first, second);
}

#[test]
fn render_unterminated_placeholder_reaches_end() {
    let mut store = FragmentStore::new();
    store.set("tail".to_string(), "END".to_string());
    assert_eq!(render("x{tail", &store).unwrap(), "xEND");
    match render("x{nope", &store) {
        Err(RenameError::UnresolvedPlaceholder(key)) => assert_eq!(key, "nope"),
        other => panic!("expected an unresolved placeholder, got {:?}", other),
    }
}

#[test]
fn render_stray_close_brace_is_literal() {
    let store = FragmentStore::new();
    assert_eq!(render("a}b", &store).unwrap(), "a}b");
}

#[test]
fn render_empty_placeholder_is_unresolved() {
    let store = FragmentStore::new();
    match render("{}", &store) {
        Err(RenameError::UnresolvedPlaceholder(key)) => assert_eq!(key, ""),
        other => panic!("expected an unresolved placeholder, got {:?}", other),
    }
}
