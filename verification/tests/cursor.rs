use nix_bindings::cursor::{attrs_count_from_raw, collect_names, status_value, CursorError};
use nix_bindings::text::decode_text_or_empty;

#[test]
fn test_attr_cursor_basic() {
    // Basic compilation test
}

#[test]
fn test_eval_cache_basic() {
    // Basic compilation test
}

#[test]
fn attrs_count_negative_is_an_error() {
    assert_eq!(attrs_count_from_raw(-1), Err(CursorError::AttrsCount));
    assert_eq!(attrs_count_from_raw(0), Ok(0));
    assert_eq!(attrs_count_from_raw(12), Ok(12));
}

#[test]
fn names_are_collected_in_index_order() {
    let all = ["a", "b", "c"];
    let names = collect_names(3, |i: usize| -> Result<String, CursorError> { Ok(all[i].to_string()) });
    assert_eq!(names, Ok(vec!["a".to_string(), "b".to_string(), "c".to_string()]));
    let none = collect_names(0, |_i: usize| -> Result<String, CursorError> { Err(CursorError::AttrName(0)) });
    assert_eq!(none, Ok(vec![]));
}

#[test]
fn names_stop_at_first_failure() {
    let r = collect_names(4, |i: usize| {
        if i == 2 {
            Err(CursorError::AttrName(i))
        } else {
            Ok(format!("n{}", i))
        }
    });
    assert_eq!(r, Err(CursorError::AttrName(2)));
}

#[test]
fn the_error_is_that_of_the_first_failing_read() {
    let r = collect_names(5, |i: usize| {
        if i == 1 || i == 3 {
            Err(CursorError::AttrName(i))
        } else {
            Ok(format!("n{}", i))
        }
    });
    assert_eq!(r, Err(CursorError::AttrName(1)));
}

#[test]
fn status_values() {
    assert_eq!(status_value(0, true, CursorError::IsDerivation), Ok(true));
    assert_eq!(status_value(1, true, CursorError::IsDerivation), Err(CursorError::IsDerivation));
    assert_eq!(status_value(-1, false, CursorError::GetBool), Err(CursorError::GetBool));
    assert_eq!(
        status_value(3, String::from("x"), CursorError::GetString),
        Err(CursorError::GetString)
    );
    assert_eq!(status_value(0, 5usize, CursorError::AttrName(5)), Ok(5));
}

#[test]
fn attr_name_bytes_are_decoded_lossily() {
    assert_eq!(decode_text_or_empty(&Some(b"hello".to_vec())), "hello");
    assert_eq!(decode_text_or_empty(&Some(vec![0xe2, 0x82])), "\u{FFFD}");
}
