use nix_bindings::repl::ReplExitStatus;
use nix_bindings::status::{allocated, require_structured_attrs, BuildEnvError};
use nix_bindings::text::decode_text;

#[test]
fn repl_exit_status_from_raw() {
    assert_eq!(ReplExitStatus::from_raw(0, 0), ReplExitStatus::QuitAll);
    assert_eq!(ReplExitStatus::from_raw(1, 0), ReplExitStatus::Continue);
    assert_eq!(ReplExitStatus::from_raw(7, 0), ReplExitStatus::Continue);
    assert_eq!(ReplExitStatus::from_raw(2, 2), ReplExitStatus::QuitAll);
}

#[test]
fn allocation_outcomes() {
    assert_eq!(allocated(Some(5u8), Some("ctx"), "fallback"), Ok(5));
    assert_eq!(allocated::<u8, &str>(None, Some("ctx"), "fallback"), Err("ctx"));
    assert_eq!(allocated::<u8, &str>(None, None, "fallback"), Err("fallback"));
}

#[test]
fn structured_attrs_required() {
    assert_eq!(require_structured_attrs(true), Ok(()));
    assert_eq!(require_structured_attrs(false), Err(BuildEnvError::NoStructuredAttrs));
}

#[test]
fn strict_decoding() {
    assert_eq!(decode_text(&Some("grüße".as_bytes().to_vec())), Some("grüße".to_string()));
    assert_eq!(decode_text(&Some(vec![0xed, 0xa0, 0x80])), None);
    assert_eq!(decode_text(&None), None);
}
