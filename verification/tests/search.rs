use nix_bindings::search::{pattern_status, search_status, SearchError, SearchResult};

#[test]
fn test_search_params_basic() {
    // Basic compilation test
}

#[test]
fn search_result_from_raw_fields() {
    let r = SearchResult::from_raw(
        &Some(b"legacyPackages.x86_64-linux.hello".to_vec()),
        &Some(b"hello".to_vec()),
        &Some(b"2.10".to_vec()),
        &Some(b"A program that produces a familiar, friendly greeting".to_vec()),
    );
    assert_eq!(r.attr_path, "legacyPackages.x86_64-linux.hello");
    assert_eq!(r.name, "hello");
    assert_eq!(r.version, "2.10");
    assert_eq!(r.description, "A program that produces a familiar, friendly greeting");
}

#[test]
fn search_result_null_fields_are_empty() {
    let r = SearchResult::from_raw(&Some(b"a.b".to_vec()), &None, &None, &None);
    assert_eq!(r.attr_path, "a.b");
    assert_eq!(r.name, "");
    assert_eq!(r.version, "");
    assert_eq!(r.description, "");
}

#[test]
fn search_result_invalid_utf8_is_replaced() {
    let r = SearchResult::from_raw(&Some(vec![b'a', 0xff, b'b']), &None, &None, &None);
    assert_eq!(r.attr_path, "a\u{FFFD}b");
}

#[test]
fn search_statuses() {
    assert_eq!(search_status(0), Ok(()));
    assert_eq!(search_status(1), Err(SearchError::Search));
    assert_eq!(pattern_status(0, "hello".to_string(), false), Ok(()));
    assert_eq!(
        pattern_status(-1, "hel(lo".to_string(), false),
        Err(SearchError::AddRegex("hel(lo".to_string()))
    );
    assert_eq!(
        pattern_status(-1, "unfree".to_string(), true),
        Err(SearchError::AddExclude("unfree".to_string()))
    );
}
