//! Script output parsing and merge order on concrete outputs.

use jrenamer::errors::RenameError;
use jrenamer::fragments::FragmentStore;
use jrenamer::script::{absorb_script_output, parse_script_output};

#[test]
fn parse_key_value_lines() {
    let fragments = parse_script_output("artist=holst\nyear=1916\n");
    assert_eq!(fragments.len(), 2);
    assert_eq!(fragments[0].key, "artist");
    assert_eq!(fragments[0].value, "holst");
    assert_eq!(fragments[1].key, "year");
    assert_eq!(fragments[1].value, "1916");
}

#[test]
fn parse_without_trailing_newline() {
    let fragments = parse_script_output("k=v");
    assert_eq!(fragments.len(), 1);
    assert_eq!(fragments[0].key, "k");
    assert_eq!(fragments[0].value, "v");
}

#[test]
fn parse_value_may_contain_equals() {
    let fragments = parse_script_output("formula=a=b+c\n");
    assert_eq!(fragments.len(), 1);
    assert_eq!(fragments[0].key, "formula");
    assert_eq!(fragments[0].value, "a=b+c");
}

#[test]
fn parse_ignores_malformed_lines() {
    let fragments = parse_script_output("no separator\n=empty key\nok=yes\n\n");
    assert_eq!(fragments.len(), 1);
    assert_eq!(fragments[0].key, "ok");
    assert_eq!(fragments[0].value, "yes");
}

#[test]
fn parse_empty_output_is_empty() {
    assert_eq!(parse_script_output("").len(), 0);
}

#[test]
fn absorb_writes_in_emission_order() {
    let mut store = FragmentStore::new();
    let script = "meta.sh".to_string();
    absorb_script_output(&mut store, &script, true, "k=first\nk=second\n").unwrap();
    assert_eq!(store.get(&"k".to_string()), Some(&"second".to_string()));
}

#[test]
fn failed_script_leaves_store_untouched() {
    let mut store = FragmentStore::new();
    store.set("kept".to_string(), "yes".to_string());
    let script = "broken.sh".to_string();
    let result = absorb_script_output(&mut store, &script, false, "k=v\n");
    assert_eq!(
        result,
        Err(RenameError::ScriptExecutionFailed("broken.sh".to_string()))
    );
    assert_eq!(store.len(), 1);
    assert_eq!(store.get(&"kept".to_string()), Some(&"yes".to_string()));
    assert_eq!(store.get(&"k".to_string()), None);
}

#[test]
fn script_order_is_exact() {
    let output_a = "k=from-a\n";
    let output_b = "k=from-b\n";
    let a = "a.sh".to_string();
    let b = "b.sh".to_string();

    let mut ab = FragmentStore::new();
    absorb_script_output(&mut ab, &a, true, output_a).unwrap();
    absorb_script_output(&mut ab, &b, true, output_b).unwrap();
    assert_eq!(ab.get(&"k".to_string()), Some(&"from-b".to_string()));

    let mut ba = FragmentStore::new();
    absorb_script_output(&mut ba, &b, true, output_b).unwrap();
    absorb_script_output(&mut ba, &a, true, output_a).unwrap();
    assert_eq!(ba.get(&"k".to_string()), Some(&"from-a".to_string()));
}

#[test]
fn later_script_sees_and_overrides_seeded_fragment() {
    let mut store = FragmentStore::new();
    store.set("filename".to_string(), "seeded".to_string());
    let script = "rewrite.sh".to_string();
    absorb_script_output(&mut store, &script, true, "filename=scripted\n").unwrap();
    assert_eq!(store.get(&"filename".to_string()), Some(&"scripted".to_string()));
}
