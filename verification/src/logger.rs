//! Activity logger: the builder of callbacks, the data that a registered
//! logger keeps alive, the decoding of the raw events that the Nix C API
//! delivers, and the steps of registration.

use std::sync::Arc;
use vstd::prelude::*;

use crate::text::{decode_text, opt_bytes, opt_text, strict_text};
use vstd::utf8::{decode_utf8, encode_utf8, encode_utf8_decode_utf8, encode_utf8_valid_utf8, valid_utf8};

verus! {

/// The C API's status for a call that succeeded.
pub const NIX_OK: i32 = 0;

/// Stands in a callback slot of the builder that has not been given a
/// callback.
pub struct NoCallback;

/// Builder for setting up activity callbacks.
///
/// Each slot holds the callback for one kind of event, or nothing.
pub struct ActivityLoggerBuilder<S = NoCallback, T = NoCallback, R = NoCallback, L = NoCallback, E = NoCallback> {
    on_start: Option<S>,
    on_stop: Option<T>,
    on_result: Option<R>,
    on_log: Option<L>,
    on_eval_effect: Option<E>,
}

impl<S, T, R, L, E> ActivityLoggerBuilder<S, T, R, L, E> {
    /// The callback for activity start events.
    pub closed spec fn start_callback(&self) -> Option<S> {
        self.on_start
    }

    /// The callback for activity stop events.
    pub closed spec fn stop_callback(&self) -> Option<T> {
        self.on_stop
    }

    /// The callback for activity result events.
    pub closed spec fn result_callback(&self) -> Option<R> {
        self.on_result
    }

    /// The callback for log messages.
    pub closed spec fn log_callback(&self) -> Option<L> {
        self.on_log
    }

    /// The callback for evaluator dependency events.
    pub closed spec fn eval_effect_callback(&self) -> Option<E> {
        self.on_eval_effect
    }

    /// Set the callback for activity start events.
    pub fn on_start<F>(self, callback: F) -> (b: ActivityLoggerBuilder<F, T, R, L, E>)
        where F: Fn(u64, &str, &str, &[i32], &[i64], &[Option<&str>], u64) + Send + Sync + 'static,
        ensures
            b.start_callback() == Some(callback),
            b.stop_callback() == self.stop_callback(),
            b.result_callback() == self.result_callback(),
            b.log_callback() == self.log_callback(),
            b.eval_effect_callback() == self.eval_effect_callback(),
    {
        ActivityLoggerBuilder {
            on_start: Some(callback),
            on_stop: self.on_stop,
            on_result: self.on_result,
            on_log: self.on_log,
            on_eval_effect: self.on_eval_effect,
        }
    }

    /// Set the callback for activity stop events.
    pub fn on_stop<F>(self, callback: F) -> (b: ActivityLoggerBuilder<S, F, R, L, E>)
        where F: Fn(u64) + Send + Sync + 'static,
        ensures
            b.start_callback() == self.start_callback(),
            b.stop_callback() == Some(callback),
            b.result_callback() == self.result_callback(),
            b.log_callback() == self.log_callback(),
            b.eval_effect_callback() == self.eval_effect_callback(),
    {
        ActivityLoggerBuilder {
            on_start: self.on_start,
            on_stop: Some(callback),
            on_result: self.on_result,
            on_log: self.on_log,
            on_eval_effect: self.on_eval_effect,
        }
    }

    /// Set the callback for activity result/progress events.
    pub fn on_result<F>(self, callback: F) -> (b: ActivityLoggerBuilder<S, T, F, L, E>)
        where F: Fn(u64, &str, &[i32], &[i64], &[Option<&str>]) + Send + Sync + 'static,
        ensures
            b.start_callback() == self.start_callback(),
            b.stop_callback() == self.stop_callback(),
            b.result_callback() == Some(callback),
            b.log_callback() == self.log_callback(),
            b.eval_effect_callback() == self.eval_effect_callback(),
    {
        ActivityLoggerBuilder {
            on_start: self.on_start,
            on_stop: self.on_stop,
            on_result: Some(callback),
            on_log: self.on_log,
            on_eval_effect: self.on_eval_effect,
        }
    }

    /// Set the callback for log messages.
    pub fn on_log<F>(self, callback: F) -> (b: ActivityLoggerBuilder<S, T, R, F, E>)
        where F: Fn(i32, &str) + Send + Sync + 'static,
        ensures
            b.start_callback() == self.start_callback(),
            b.stop_callback() == self.stop_callback(),
            b.result_callback() == self.result_callback(),
            b.log_callback() == Some(callback),
            b.eval_effect_callback() == self.eval_effect_callback(),
    {
        ActivityLoggerBuilder {
            on_start: self.on_start,
            on_stop: self.on_stop,
            on_result: self.on_result,
            on_log: Some(callback),
            on_eval_effect: self.on_eval_effect,
        }
    }

    /// Set the callback for evaluator dependency events.
    pub fn on_eval_effect<F>(self, callback: F) -> (b: ActivityLoggerBuilder<S, T, R, L, F>)
        where F: Fn(&str, &str, Option<&str>) + Send + Sync + 'static,
        ensures
            b.start_callback() == self.start_callback(),
            b.stop_callback() == self.stop_callback(),
            b.result_callback() == self.result_callback(),
            b.log_callback() == self.log_callback(),
            b.eval_effect_callback() == Some(callback),
    {
        ActivityLoggerBuilder {
            on_start: self.on_start,
            on_stop: self.on_stop,
            on_result: self.on_result,
            on_log: self.on_log,
            on_eval_effect: Some(callback),
        }
    }

    /// Whether a callback for activity start events is set.
    pub fn has_on_start(&self) -> (r: bool)
        ensures r == self.start_callback() is Some,
    {
        self.on_start.is_some()
    }

    /// Whether a callback for activity stop events is set.
    pub fn has_on_stop(&self) -> (r: bool)
        ensures r == self.stop_callback() is Some,
    {
        self.on_stop.is_some()
    }

    /// Whether a callback for activity result events is set.
    pub fn has_on_result(&self) -> (r: bool)
        ensures r == self.result_callback() is Some,
    {
        self.on_result.is_some()
    }

    /// Whether a callback for log messages is set.
    pub fn has_on_log(&self) -> (r: bool)
        ensures r == self.log_callback() is Some,
    {
        self.on_log.is_some()
    }

    /// Whether a callback for evaluator dependency events is set.
    pub fn has_on_eval_effect(&self) -> (r: bool)
        ensures r == self.eval_effect_callback() is Some,
    {
        self.on_eval_effect.is_some()
    }
}

impl ActivityLoggerBuilder {
    /// Create a new logger builder, with no callback set.
    pub fn new() -> (b: Self)
        ensures
            b.start_callback() is None,
            b.stop_callback() is None,
            b.result_callback() is None,
            b.log_callback() is None,
            b.eval_effect_callback() is None,
    {
        ActivityLoggerBuilder {
            on_start: None,
            on_stop: None,
            on_result: None,
            on_log: None,
            on_eval_effect: None,
        }
    }
}

impl Default for ActivityLoggerBuilder {
    fn default() -> (b: Self)
        ensures
            b.start_callback() is None,
            b.stop_callback() is None,
            b.result_callback() is None,
            b.log_callback() is None,
            b.eval_effect_callback() is None,
    {
        Self::new()
    }
}

/// The callbacks that a registered logger hands to the C API.
pub struct LoggerCallbackData<S, T, R, L, E> {
    pub on_start: Option<S>,
    pub on_stop: Option<T>,
    pub on_result: Option<R>,
    pub on_log: Option<L>,
    pub on_eval_effect: Option<E>,
}

/// Active logger that holds the callback data alive.
///
/// It must be kept alive for as long as Nix may fire activity callbacks.
pub struct ActivityLogger<S = NoCallback, T = NoCallback, R = NoCallback, L = NoCallback, E = NoCallback> {
    data: Arc<LoggerCallbackData<S, T, R, L, E>>,
}

impl ActivityLogger {
    /// Create a new logger builder.
    pub fn builder() -> (b: ActivityLoggerBuilder)
        ensures
            b.start_callback() is None,
            b.stop_callback() is None,
            b.result_callback() is None,
            b.log_callback() is None,
            b.eval_effect_callback() is None,
    {
        ActivityLoggerBuilder::new()
    }
}

impl<S, T, R, L, E> ActivityLogger<S, T, R, L, E> {
    /// The callback data that this logger keeps alive.
    pub closed spec fn callbacks(&self) -> LoggerCallbackData<S, T, R, L, E> {
        *self.data
    }

    /// Moves the builder's callbacks into the data of a logger.
    pub fn from_builder(builder: ActivityLoggerBuilder<S, T, R, L, E>) -> (l: Self)
        ensures
            l.callbacks().on_start == builder.start_callback(),
            l.callbacks().on_stop == builder.stop_callback(),
            l.callbacks().on_result == builder.result_callback(),
            l.callbacks().on_log == builder.log_callback(),
            l.callbacks().on_eval_effect == builder.eval_effect_callback(),
    {
        let data = LoggerCallbackData {
            on_start: builder.on_start,
            on_stop: builder.on_stop,
            on_result: builder.on_result,
            on_log: builder.on_log,
            on_eval_effect: builder.on_eval_effect,
        };
        ActivityLogger { data: Arc::new(data) }
    }

    /// The shared callback data, whose address is handed to the C API.
    pub fn data(&self) -> (d: &Arc<LoggerCallbackData<S, T, R, L, E>>)
        ensures **d == self.callbacks(),
    {
        &self.data
    }
}

/// The typed fields of an event, as read from the C arrays.
pub struct RawFields {
    pub field_types: Vec<i32>,
    pub int_values: Vec<i64>,
    /// The string of each field, as bytes; `None` for a null pointer.
    pub string_values: Vec<Option<Vec<u8>>>,
}

/// An activity start event, ready for the callback.
pub struct StartEvent {
    pub activity_id: u64,
    pub description: String,
    pub activity_type: String,
    pub field_types: Vec<i32>,
    pub int_values: Vec<i64>,
    pub string_values: Vec<Option<String>>,
    pub parent: u64,
}

/// An activity result event, ready for the callback.
pub struct ResultEvent {
    pub activity_id: u64,
    pub result_type: String,
    pub field_types: Vec<i32>,
    pub int_values: Vec<i64>,
    pub string_values: Vec<Option<String>>,
}

/// A log message, ready for the callback.
pub struct LogEvent {
    pub level: i32,
    pub message: String,
}

/// An evaluator dependency event, ready for the callback.
pub struct EvalEffectEvent {
    pub kind: String,
    pub subject: String,
    pub detail: Option<String>,
}

/// `out` holds the strict decoding of each of the `raw` field strings.
pub open spec fn decodes_values(out: Seq<Option<String>>, raw: Seq<Option<Vec<u8>>>) -> bool {
    &&& out.len() == raw.len()
    &&& forall|i: int| 0 <= i < raw.len() ==> #[trigger] opt_text(out[i]) == strict_text(opt_bytes(raw[i]))
}

/// The event's fields are those read, or none where nothing was read.
pub open spec fn carries_fields(
    field_types: Seq<i32>,
    int_values: Seq<i64>,
    string_values: Seq<Option<String>>,
    fields: Option<RawFields>,
) -> bool {
    match fields {
        Some(f) => {
            &&& field_types == f.field_types@
            &&& int_values == f.int_values@
            &&& decodes_values(string_values, f.string_values@)
        },
        None => {
            &&& field_types.len() == 0
            &&& int_values.len() == 0
            &&& string_values.len() == 0
        },
    }
}

/// Decodes the string of each field: a null pointer or invalid UTF-8 gives
/// `None`.
pub fn decode_string_values(raw: &Vec<Option<Vec<u8>>>) -> (out: Vec<Option<String>>)
    ensures
        decodes_values(out@, raw@),
{
    let mut out: Vec<Option<String>> = Vec::new();
    let mut i: usize = 0;
    while i < raw.len()
        invariant
            i <= raw.len(),
            out@.len() == i,
            forall|j: int| 0 <= j < i ==> #[trigger] opt_text(out@[j]) == strict_text(opt_bytes(raw@[j])),
        decreases raw.len() - i,
    {
        let s = decode_text(&raw[i]);
        out.push(s);
        i = i + 1;
    }
    out
}

/// Each string field is handed on as the text its bytes encode: a field
/// whose bytes are valid UTF-8, the empty string among them, becomes that
/// text; a field is `None` only where its pointer was null or its bytes
/// are not UTF-8; and text that the C side encoded comes back unchanged.
pub proof fn lemma_decoded_fields_are_their_text(out: Seq<Option<String>>, raw: Seq<Option<Vec<u8>>>)
    requires
        decodes_values(out, raw),
    ensures
        out.len() == raw.len(),
        forall|i: int| 0 <= i < raw.len() && (#[trigger] raw[i]) is Some && valid_utf8(raw[i]->Some_0@)
            ==> out[i] is Some && out[i]->Some_0@ == decode_utf8(raw[i]->Some_0@),
        forall|i: int| 0 <= i < raw.len() && (#[trigger] raw[i]) is Some && raw[i]->Some_0@.len() == 0
            ==> out[i] is Some && out[i]->Some_0@.len() == 0,
        forall|i: int| 0 <= i < raw.len() ==> ((#[trigger] out[i]) is None <==> (raw[i] is None || !valid_utf8(raw[i]->Some_0@))),
        forall|i: int, chars: Seq<char>| #![trigger out[i], encode_utf8(chars)]
            0 <= i < raw.len() && raw[i] is Some && raw[i]->Some_0@ == encode_utf8(chars)
            ==> out[i] is Some && out[i]->Some_0@ == chars,
{
    assert forall|i: int| 0 <= i < raw.len() implies opt_text(#[trigger] out[i]) == strict_text(opt_bytes(raw[i])) by {}
    assert forall|i: int| 0 <= i < raw.len() && (#[trigger] raw[i]) is Some && raw[i]->Some_0@.len() == 0
        implies out[i] is Some && out[i]->Some_0@.len() == 0 by {
        assert(opt_text(out[i]) == strict_text(opt_bytes(raw[i])));
        assert(valid_utf8(raw[i]->Some_0@));
        assert(decode_utf8(raw[i]->Some_0@) == Seq::<char>::empty());
    }
    assert forall|i: int, chars: Seq<char>| #![trigger out[i], encode_utf8(chars)]
        0 <= i < raw.len() && raw[i] is Some && raw[i]->Some_0@ == encode_utf8(chars)
        implies out[i] is Some && out[i]->Some_0@ == chars by {
        assert(opt_text(out[i]) == strict_text(opt_bytes(raw[i])));
        encode_utf8_valid_utf8(chars);
        encode_utf8_decode_utf8(chars);
    }
}

/// Splits the fields that were read into the three arrays of an event.
fn event_fields(fields: Option<RawFields>) -> (r: (Vec<i32>, Vec<i64>, Vec<Option<String>>))
    ensures
        carries_fields(r.0@, r.1@, r.2@, fields),
{
    match fields {
        Some(f) => {
            let strings = decode_string_values(&f.string_values);
            (f.field_types, f.int_values, strings)
        },
        None => (Vec::new(), Vec::new(), Vec::new()),
    }
}

/// Whether the fields of a start event are read: only when there are
/// fields and all three arrays are present.
pub fn reads_start_fields(
    field_count: usize,
    field_types_present: bool,
    int_values_present: bool,
    string_values_present: bool,
) -> (r: bool)
    ensures
        r == (field_count > 0 && field_types_present && int_values_present && string_values_present),
{
    field_count > 0 && field_types_present && int_values_present && string_values_present
}

/// Whether the fields of a result event can be read: all three arrays
/// must be present.
pub fn reads_result_fields(
    field_types_present: bool,
    int_values_present: bool,
    string_values_present: bool,
) -> (r: bool)
    ensures
        r == (field_types_present && int_values_present && string_values_present),
{
    field_types_present && int_values_present && string_values_present
}

/// Decodes an activity start event. The callback runs only when the
/// description and the activity type are both present and valid UTF-8;
/// fields that were not read are passed as empty arrays.
pub fn decode_start(
    activity_id: u64,
    description: &Option<Vec<u8>>,
    activity_type: &Option<Vec<u8>>,
    fields: Option<RawFields>,
    parent: u64,
) -> (res: Option<StartEvent>)
    ensures
        res is Some <==> (strict_text(opt_bytes(*description)) is Some && strict_text(
            opt_bytes(*activity_type),
        ) is Some),
        res matches Some(e) ==> {
            &&& e.activity_id == activity_id
            &&& Some(e.description@) == strict_text(opt_bytes(*description))
            &&& Some(e.activity_type@) == strict_text(opt_bytes(*activity_type))
            &&& carries_fields(e.field_types@, e.int_values@, e.string_values@, fields)
            &&& e.parent == parent
        },
{
    let desc = decode_text(description);
    let ty = decode_text(activity_type);
    match (desc, ty) {
        (Some(d), Some(t)) => {
            let (field_types, int_values, string_values) = event_fields(fields);
            Some(
                StartEvent {
                    activity_id,
                    description: d,
                    activity_type: t,
                    field_types,
                    int_values,
                    string_values,
                    parent,
                },
            )
        },
        _ => None,
    }
}

/// Decodes an activity result event. The callback runs only when the
/// result type is present and valid UTF-8 and the fields were read.
pub fn decode_result(
    activity_id: u64,
    result_type: &Option<Vec<u8>>,
    fields: Option<RawFields>,
) -> (res: Option<ResultEvent>)
    ensures
        res is Some <==> (strict_text(opt_bytes(*result_type)) is Some && fields is Some),
        res matches Some(e) ==> {
            &&& e.activity_id == activity_id
            &&& Some(e.result_type@) == strict_text(opt_bytes(*result_type))
            &&& carries_fields(e.field_types@, e.int_values@, e.string_values@, fields)
        },
{
    if fields.is_none() {
        return None;
    }
    match decode_text(result_type) {
        Some(rt) => {
            let (field_types, int_values, string_values) = event_fields(fields);
            Some(ResultEvent { activity_id, result_type: rt, field_types, int_values, string_values })
        },
        None => None,
    }
}

/// Decodes a log message: the callback runs only for a present message in
/// valid UTF-8.
pub fn decode_log(level: i32, message: &Option<Vec<u8>>) -> (res: Option<LogEvent>)
    ensures
        res is Some <==> strict_text(opt_bytes(*message)) is Some,
        res matches Some(e) ==> e.level == level && Some(e.message@) == strict_text(
            opt_bytes(*message),
        ),
{
    match decode_text(message) {
        Some(m) => Some(LogEvent { level, message: m }),
        None => None,
    }
}

/// Decodes an evaluator dependency event: the kind and the subject must be
/// present and valid UTF-8; the detail is optional.
pub fn decode_eval_effect(
    kind: &Option<Vec<u8>>,
    subject: &Option<Vec<u8>>,
    detail: &Option<Vec<u8>>,
) -> (res: Option<EvalEffectEvent>)
    ensures
        res is Some <==> (strict_text(opt_bytes(*kind)) is Some && strict_text(opt_bytes(*subject)) is Some),
        res matches Some(e) ==> {
            &&& Some(e.kind@) == strict_text(opt_bytes(*kind))
            &&& Some(e.subject@) == strict_text(opt_bytes(*subject))
            &&& opt_text(e.detail) == strict_text(opt_bytes(*detail))
        },
{
    let k = match decode_text(kind) {
        Some(k) => k,
        None => return None,
    };
    let s = match decode_text(subject) {
        Some(s) => s,
        None => return None,
    };
    Some(EvalEffectEvent { kind: k, subject: s, detail: decode_text(detail) })
}

/// Why registering a logger failed, with the C API's error code.
#[derive(Debug, Clone, Copy, PartialEq, Eq, Structural)]
pub enum RegisterError {
    /// Installing the activity and log callbacks failed.
    LoggerCallbacks(i32),
    /// Installing the evaluator dependency callback failed.
    EvalEffectCallback(i32),
}

/// What registration does next, after a call into the C API.
#[derive(Debug, Clone, Copy, PartialEq, Eq, Structural)]
pub enum RegisterAction {
    /// Install the evaluator dependency callback.
    InstallEvalEffect,
    /// Registration is complete.
    Succeed,
    /// Registration failed; nothing is left installed.
    Fail(RegisterError),
    /// Registration failed after the logger callbacks were installed: clear
    /// them, then fail.
    ClearThenFail(RegisterError),
}

/// The step after installing the activity and log callbacks returned `err`.
pub open spec fn logger_step(err: i32, wants_eval_effect: bool) -> RegisterAction {
    if err != NIX_OK {
        RegisterAction::Fail(RegisterError::LoggerCallbacks(err))
    } else if wants_eval_effect {
        RegisterAction::InstallEvalEffect
    } else {
        RegisterAction::Succeed
    }
}

/// The step after installing the evaluator dependency callback returned
/// `err`.
pub open spec fn eval_effect_step(err: i32) -> RegisterAction {
    if err != NIX_OK {
        RegisterAction::ClearThenFail(RegisterError::EvalEffectCallback(err))
    } else {
        RegisterAction::Succeed
    }
}

/// The step after installing the activity and log callbacks returned `err`;
/// `wants_eval_effect` tells whether an evaluator dependency callback is set.
pub fn after_logger_callbacks(err: i32, wants_eval_effect: bool) -> (a: RegisterAction)
    ensures
        a == logger_step(err, wants_eval_effect),
{
    if err != NIX_OK {
        RegisterAction::Fail(RegisterError::LoggerCallbacks(err))
    } else if wants_eval_effect {
        RegisterAction::InstallEvalEffect
    } else {
        RegisterAction::Succeed
    }
}

/// The step after installing the evaluator dependency callback returned
/// `err`.
pub fn after_eval_effect_callback(err: i32) -> (a: RegisterAction)
    ensures
        a == eval_effect_step(err),
{
    if err != NIX_OK {
        RegisterAction::ClearThenFail(RegisterError::EvalEffectCallback(err))
    } else {
        RegisterAction::Succeed
    }
}

/// The callbacks that are installed with Nix.
#[derive(Debug, Clone, Copy, PartialEq, Eq, Structural)]
pub struct Installed {
    /// The activity and log callbacks.
    pub logger_callbacks: bool,
    /// The evaluator dependency callback.
    pub eval_effect_callback: bool,
}

/// Nothing installed.
pub open spec fn nothing_installed() -> Installed {
    Installed { logger_callbacks: false, eval_effect_callback: false }
}

/// Where registration ends when the two installing calls return
/// `logger_err` and (if it is made) `eval_effect_err`: the callbacks left
/// installed, and the result.
pub open spec fn registration_outcome(
    logger_err: i32,
    wants_eval_effect: bool,
    eval_effect_err: i32,
) -> (Installed, Result<(), RegisterError>) {
    match logger_step(logger_err, wants_eval_effect) {
        RegisterAction::InstallEvalEffect => match eval_effect_step(eval_effect_err) {
            RegisterAction::ClearThenFail(e) => (nothing_installed(), Err(e)),
            RegisterAction::Fail(e) => (
                Installed { logger_callbacks: true, eval_effect_callback: false },
                Err(e),
            ),
            _ => (Installed { logger_callbacks: true, eval_effect_callback: true }, Ok(())),
        },
        RegisterAction::Fail(e) => (nothing_installed(), Err(e)),
        RegisterAction::ClearThenFail(e) => (nothing_installed(), Err(e)),
        RegisterAction::Succeed => (Installed { logger_callbacks: true, eval_effect_callback: false }, Ok(())),
    }
}

/// The callbacks installed by a registration that succeeded; the
/// evaluator dependency callback is installed when one is set.
pub fn installed_on_success(wants_eval_effect: bool) -> (i: Installed)
    ensures
        i == registration_outcome(NIX_OK, wants_eval_effect, NIX_OK).0,
{
    Installed { logger_callbacks: true, eval_effect_callback: wants_eval_effect }
}

/// One call that removes installed callbacks from Nix.
#[derive(Debug, Clone, Copy, PartialEq, Eq, Structural)]
pub enum TeardownStep {
    /// Remove the activity and log callbacks.
    ClearLoggerCallbacks,
    /// Remove the evaluator dependency callback.
    ClearEvalEffectCallback,
}

/// The calls that remove the installed callbacks, in order.
pub open spec fn teardown_spec(installed: Installed) -> Seq<TeardownStep> {
    (if installed.logger_callbacks { seq![TeardownStep::ClearLoggerCallbacks] } else { Seq::empty() })
        + (if installed.eval_effect_callback { seq![TeardownStep::ClearEvalEffectCallback] } else { Seq::empty() })
}

/// What remains installed after the calls `steps`.
pub open spec fn after_teardown(installed: Installed, steps: Seq<TeardownStep>) -> Installed
    decreases steps.len(),
{
    if steps.len() == 0 {
        installed
    } else {
        let rest = after_teardown(installed, steps.drop_last());
        match steps.last() {
            TeardownStep::ClearLoggerCallbacks => Installed { logger_callbacks: false, ..rest },
            TeardownStep::ClearEvalEffectCallback => Installed { eval_effect_callback: false, ..rest },
        }
    }
}

/// The calls a registered logger makes when it is dropped, before the
/// callback data is freed: remove every callback that is installed.
pub fn teardown_steps(installed: Installed) -> (steps: Vec<TeardownStep>)
    ensures
        steps@ == teardown_spec(installed),
{
    let mut steps: Vec<TeardownStep> = Vec::new();
    if installed.logger_callbacks {
        steps.push(TeardownStep::ClearLoggerCallbacks);
    }
    if installed.eval_effect_callback {
        steps.push(TeardownStep::ClearEvalEffectCallback);
    }
    assert(steps@ =~= teardown_spec(installed));
    steps
}

/// Registration succeeds exactly when the logger callbacks were installed
/// and, if an evaluator dependency callback is set, that one too; a failed
/// registration leaves no callback installed, and its error names the call
/// that failed and its code.
pub proof fn lemma_registration_all_or_nothing(
    logger_err: i32,
    wants_eval_effect: bool,
    eval_effect_err: i32,
)
    ensures
        ({
            let (installed, result) = registration_outcome(logger_err, wants_eval_effect, eval_effect_err);
            &&& result is Ok <==> (logger_err == NIX_OK && (wants_eval_effect ==> eval_effect_err == NIX_OK))
            &&& result is Ok ==> installed == Installed { logger_callbacks: true, eval_effect_callback: wants_eval_effect }
            &&& result is Err ==> installed == nothing_installed()
            &&& logger_err != NIX_OK ==> result == Err::<(), RegisterError>(RegisterError::LoggerCallbacks(logger_err))
            &&& (logger_err == NIX_OK && wants_eval_effect && eval_effect_err != NIX_OK) ==> result == Err::<(), RegisterError>(
                RegisterError::EvalEffectCallback(eval_effect_err),
            )
        }),
{
}

/// Dropping a logger removes every callback that registration installed,
/// so Nix never calls into freed callback data.
pub proof fn lemma_teardown_removes_every_callback(installed: Installed)
    ensures
        after_teardown(installed, teardown_spec(installed)) == nothing_installed(),
{
    let steps = teardown_spec(installed);
    reveal_with_fuel(after_teardown, 3);
    if installed.logger_callbacks && installed.eval_effect_callback {
        assert(steps.drop_last() =~= seq![TeardownStep::ClearLoggerCallbacks]);
        assert(seq![TeardownStep::ClearLoggerCallbacks].drop_last() =~= Seq::<TeardownStep>::empty());
    } else if installed.logger_callbacks {
        assert(steps =~= seq![TeardownStep::ClearLoggerCallbacks]);
        assert(steps.drop_last() =~= Seq::<TeardownStep>::empty());
    } else if installed.eval_effect_callback {
        assert(steps =~= seq![TeardownStep::ClearEvalEffectCallback]);
        assert(steps.drop_last() =~= Seq::<TeardownStep>::empty());
    } else {
        assert(steps =~= Seq::<TeardownStep>::empty());
    }
}

} // verus!
