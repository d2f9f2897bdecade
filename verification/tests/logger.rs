use nix_bindings::logger::{
    after_eval_effect_callback, after_logger_callbacks, decode_eval_effect, decode_log,
    decode_result, decode_start, decode_string_values, reads_result_fields, reads_start_fields,
    installed_on_success, teardown_steps, ActivityLogger, ActivityLoggerBuilder, Installed,
    RawFields, RegisterAction, RegisterError, TeardownStep, NIX_OK,
};

#[test]
fn test_builder_creation() {
    let builder = ActivityLoggerBuilder::new()
        .on_start(|_id, _desc, _ty, _ftypes, _ints, _strs, _parent| {})
        .on_stop(|_id| {})
        .on_result(|_id, _ty, _ftypes, _ints, _strs| {})
        .on_log(|_level, _msg| {})
        .on_eval_effect(|_kind, _subject, _detail| {});

    assert!(builder.has_on_start());
    assert!(builder.has_on_stop());
    assert!(builder.has_on_result());
    assert!(builder.has_on_log());
    assert!(builder.has_on_eval_effect());
}

#[test]
fn builder_starts_empty() {
    let b = ActivityLoggerBuilder::new();
    assert!(!b.has_on_start());
    assert!(!b.has_on_stop());
    assert!(!b.has_on_result());
    assert!(!b.has_on_log());
    assert!(!b.has_on_eval_effect());
    let d = ActivityLoggerBuilder::default();
    assert!(!d.has_on_start() && !d.has_on_log());
    let c = ActivityLogger::builder();
    assert!(!c.has_on_stop() && !c.has_on_eval_effect());
}

#[test]
fn builder_setter_touches_only_its_slot() {
    let b = ActivityLoggerBuilder::new().on_log(|_level, _msg| {});
    assert!(b.has_on_log());
    assert!(!b.has_on_start());
    assert!(!b.has_on_stop());
    assert!(!b.has_on_result());
    assert!(!b.has_on_eval_effect());
    let b = b.on_stop(|_id| {});
    assert!(b.has_on_log() && b.has_on_stop());
    assert!(!b.has_on_result());
}

#[test]
fn logger_keeps_the_builders_callbacks() {
    let b = ActivityLoggerBuilder::new().on_stop(|id: u64| assert_eq!(id, 7));
    let logger = ActivityLogger::from_builder(b);
    let data = logger.data();
    assert!(data.on_start.is_none());
    assert!(data.on_log.is_none());
    let stop = data.on_stop.as_ref().unwrap();
    stop(7);
}

fn bytes(s: &str) -> Option<Vec<u8>> {
    Some(s.as_bytes().to_vec())
}

#[test]
fn start_event_with_fields() {
    let fields = RawFields {
        field_types: vec![1, 0],
        int_values: vec![0, 42],
        string_values: vec![bytes("/nix/store/x.drv"), None],
    };
    let e = decode_start(3, &bytes("building"), &bytes("build"), Some(fields), 1).unwrap();
    assert_eq!(e.activity_id, 3);
    assert_eq!(e.description, "building");
    assert_eq!(e.activity_type, "build");
    assert_eq!(e.field_types, vec![1, 0]);
    assert_eq!(e.int_values, vec![0, 42]);
    assert_eq!(e.string_values, vec![Some("/nix/store/x.drv".to_string()), None]);
    assert_eq!(e.parent, 1);
}

#[test]
fn start_event_without_fields() {
    let e = decode_start(3, &bytes("d"), &bytes("t"), None, 0).unwrap();
    assert!(e.field_types.is_empty() && e.int_values.is_empty() && e.string_values.is_empty());
}

#[test]
fn start_event_needs_description_and_type() {
    assert!(decode_start(1, &None, &bytes("t"), None, 0).is_none());
    assert!(decode_start(1, &bytes("d"), &None, None, 0).is_none());
    assert!(decode_start(1, &Some(vec![0xff, 0xfe]), &bytes("t"), None, 0).is_none());
}

#[test]
fn invalid_field_string_becomes_none() {
    let out = decode_string_values(&vec![Some(vec![0xc3, 0x28]), bytes("ok"), None]);
    assert_eq!(out, vec![None, Some("ok".to_string()), None]);
}

#[test]
fn start_fields_read_only_when_all_present() {
    assert!(reads_start_fields(2, true, true, true));
    assert!(!reads_start_fields(0, true, true, true));
    assert!(!reads_start_fields(2, true, false, true));
    assert!(reads_result_fields(true, true, true));
    assert!(!reads_result_fields(true, true, false));
}

#[test]
fn result_event_needs_type_and_fields() {
    let fields = RawFields { field_types: vec![0], int_values: vec![5], string_values: vec![None] };
    let e = decode_result(9, &bytes("progress"), Some(fields)).unwrap();
    assert_eq!(e.activity_id, 9);
    assert_eq!(e.result_type, "progress");
    assert_eq!(e.int_values, vec![5]);
    assert_eq!(e.string_values, vec![None]);
    assert!(decode_result(9, &bytes("progress"), None).is_none());
    let fields = RawFields { field_types: vec![], int_values: vec![], string_values: vec![] };
    assert!(decode_result(9, &None, Some(fields)).is_none());
}

#[test]
fn log_event_decoding() {
    let e = decode_log(3, &bytes("hello")).unwrap();
    assert_eq!(e.level, 3);
    assert_eq!(e.message, "hello");
    assert!(decode_log(3, &None).is_none());
    assert!(decode_log(3, &Some(vec![0x80])).is_none());
}

#[test]
fn eval_effect_decoding() {
    let e = decode_eval_effect(&bytes("file"), &bytes("/etc/x"), &None).unwrap();
    assert_eq!(e.kind, "file");
    assert_eq!(e.subject, "/etc/x");
    assert_eq!(e.detail, None);
    let e = decode_eval_effect(&bytes("env"), &bytes("HOME"), &bytes("/root")).unwrap();
    assert_eq!(e.detail, Some("/root".to_string()));
    assert!(decode_eval_effect(&None, &bytes("s"), &None).is_none());
    assert!(decode_eval_effect(&bytes("k"), &Some(vec![0xff]), &None).is_none());
}

#[test]
fn registration_steps() {
    assert_eq!(after_logger_callbacks(NIX_OK, false), RegisterAction::Succeed);
    assert_eq!(after_logger_callbacks(NIX_OK, true), RegisterAction::InstallEvalEffect);
    assert_eq!(
        after_logger_callbacks(-1, true),
        RegisterAction::Fail(RegisterError::LoggerCallbacks(-1))
    );
    assert_eq!(after_eval_effect_callback(NIX_OK), RegisterAction::Succeed);
    assert_eq!(
        after_eval_effect_callback(-4),
        RegisterAction::ClearThenFail(RegisterError::EvalEffectCallback(-4))
    );
}

#[test]
fn teardown_removes_what_registration_installed() {
    let with_effect = installed_on_success(true);
    assert_eq!(with_effect, Installed { logger_callbacks: true, eval_effect_callback: true });
    assert_eq!(
        teardown_steps(with_effect),
        vec![TeardownStep::ClearLoggerCallbacks, TeardownStep::ClearEvalEffectCallback]
    );
    let without_effect = installed_on_success(false);
    assert_eq!(without_effect, Installed { logger_callbacks: true, eval_effect_callback: false });
    assert_eq!(teardown_steps(without_effect), vec![TeardownStep::ClearLoggerCallbacks]);
    let nothing = Installed { logger_callbacks: false, eval_effect_callback: false };
    assert_eq!(teardown_steps(nothing), vec![]);
}
