use schorl::error::{DetailValue, Details, Error, ErrorCode};
use schorl::id::{Id, IdGen, IdScheme, IdempotencyKey, TraceId};
use schorl::json::{escape_into, JsonFields, JsonValue};
use schorl::log::{Level, LogRecord, LogSink};
use schorl::retry::{Backoff, BackoffWait, RetryPolicy, MAX_RETRIES_LIMIT};
use schorl::scope::{
    check_v1_scope, Background, Deliverable, DisplayPresence, DisplayPurpose, Feature, Hmd,
    HostPlatform, V1Contract, V1_EXCLUDED_FEATURES, V1_INCLUDED_FEATURES,
};
use schorl::secret::{EnvSecretSource, Secret};
use schorl::testing::{trace_id, CapturingLogSink, FixedClock, RecordedWaits, SequentialIdGen};
use schorl::time::{Clock, SystemClock, UtcTimestamp};

fn trace() -> TraceId {
    TraceId::new(Id::new(IdScheme::Ulid, "trace-1").expect("valid text"))
}

fn keys_of(value: &JsonValue) -> Vec<String> {
    match value {
        JsonValue::Object(fields) => fields.iter().map(|(k, _)| k.clone()).collect(),
        _ => unreachable!("renders as an object"),
    }
}

// Errors.

#[test]
fn envelope_has_exactly_the_four_pinned_fields() {
    let err = Error::new(ErrorCode::HostRefused, "compositor said no", trace())
        .with_detail("protocol", "virtual_output");
    let keys = keys_of(&err.envelope().to_json());
    assert_eq!(keys, ["code", "message", "details", "trace_id"]);
}

#[test]
fn body_omits_trace_id_and_carries_only_three_fields() {
    let err = Error::new(ErrorCode::Internal, "boom", trace());
    let keys = keys_of(&err.envelope().to_body_json());
    assert_eq!(keys, ["code", "message", "details"]);
}

#[test]
fn display_shows_no_cause_chain() {
    let inner = "inner detail that must not leak";
    let err = Error::new(ErrorCode::Internal, "outer", trace()).caused_by(inner);
    let shown = err.to_text();
    assert_eq!(shown, "internal: outer");
    assert!(err.source().is_some(), "cause is still reachable in code");
}

#[test]
fn details_replace_on_duplicate_key() {
    let mut details = Details::new();
    details.insert("k", 1_i64);
    details.insert("k", 2_i64);
    assert_eq!(details.len(), 1);
    assert_eq!(
        details.iter().into_iter().next(),
        Some(("k", &DetailValue::Int(2)))
    );
}

#[test]
fn every_error_code_has_its_spelling() {
    let spelled: Vec<&str> = [
        ErrorCode::InvalidArgument,
        ErrorCode::Unsupported,
        ErrorCode::CapabilityUnavailable,
        ErrorCode::HostRefused,
        ErrorCode::ResourceReleaseFailed,
        ErrorCode::Internal,
    ]
    .iter()
    .map(|code| code.as_str())
    .collect();
    assert_eq!(
        spelled,
        [
            "invalid_argument",
            "unsupported",
            "capability_unavailable",
            "host_refused",
            "resource_release_failed",
            "internal"
        ]
    );
}

#[test]
fn an_envelope_renders_every_part_and_hides_the_cause() {
    let err = Error::new(ErrorCode::Unsupported, "no \"such\" thing", trace())
        .with_detail("name", "x")
        .with_detail("count", 3_i64)
        .with_detail("fatal", false)
        .with_detail("count", 4_i64)
        .caused_by("hidden");
    assert_eq!(
        err.envelope().to_json().render(),
        "{\"code\":\"unsupported\",\"message\":\"no \\\"such\\\" thing\",\"details\":{\"name\":\"x\",\"count\":4,\"fatal\":false},\"trace_id\":\"trace-1\"}"
    );
    assert_eq!(
        err.envelope().to_body_json().render(),
        "{\"code\":\"unsupported\",\"message\":\"no \\\"such\\\" thing\",\"details\":{\"name\":\"x\",\"count\":4,\"fatal\":false}}"
    );
    assert_eq!(err.source(), Some("hidden"));
    assert_eq!(err.details().len(), 3);
    assert_eq!(err.trace_id().as_str(), Some("trace-1"));
}

#[test]
fn fresh_details_are_empty_and_copies_stay_apart() {
    let mut details = Details::default();
    assert!(details.is_empty());
    let copy = details.clone();
    details.insert("k", "v".to_owned());
    assert!(!details.is_empty());
    assert!(copy.is_empty());
}

// Identifiers.

#[test]
fn rejects_empty_identifier_text() {
    let err = Id::new(IdScheme::Ulid, "").expect_err("empty text must be rejected");
    assert_eq!(err.code(), ErrorCode::InvalidArgument);
}

#[test]
fn keeps_scheme_with_the_identifier() {
    let id = Id::new(IdScheme::Uuidv7, "0199-fixture").expect("valid text");
    assert_eq!(id.scheme(), IdScheme::Uuidv7);
    assert_eq!(id.as_str(), "0199-fixture");
}

#[test]
fn unattributed_trace_id_has_no_text() {
    assert_eq!(TraceId::unattributed().as_str(), None);
}

#[test]
fn idempotency_key_exposes_its_text() {
    let key = IdempotencyKey::new(Id::new(IdScheme::Ulid, "key-1").expect("valid text"));
    assert_eq!(key.as_str(), "key-1");
}

#[test]
fn identifier_schemes_have_their_spellings() {
    assert_eq!(IdScheme::Uuidv7.as_str(), "uuidv7");
    assert_eq!(IdScheme::Ulid.as_str(), "ulid");
}

// JSON.

#[test]
fn renders_object_in_declared_key_order() {
    let value = JsonValue::Object(vec![
        ("b".to_owned(), JsonValue::Int(2)),
        ("a".to_owned(), JsonValue::text("x")),
    ]);
    assert_eq!(value.render(), r#"{"b":2,"a":"x"}"#);
}

#[test]
fn escapes_quotes_backslashes_newlines_and_control_characters() {
    let value = JsonValue::text("a\"b\\c\nd\u{1}");
    assert_eq!(value.render(), "\"a\\\"b\\\\c\\nd\\u0001\"");
}

#[test]
fn renders_scalars() {
    assert_eq!(JsonValue::Null.render(), "null");
    assert_eq!(JsonValue::Bool(true).render(), "true");
    assert_eq!(JsonValue::Int(-7).render(), "-7");
}

#[test]
fn renders_nested_values_and_the_ends_of_the_integers() {
    let value = JsonFields::new()
        .with("empty", JsonValue::Array(vec![]))
        .with(
            "ends",
            JsonValue::Array(vec![JsonValue::Int(i64::MIN), JsonValue::Int(i64::MAX)]),
        )
        .with("none", JsonFields::new().into_object())
        .into_object();
    assert_eq!(
        value.render(),
        "{\"empty\":[],\"ends\":[-9223372036854775808,9223372036854775807],\"none\":{}}"
    );
    let mut out = String::from("x");
    JsonValue::Bool(false).render_into(&mut out);
    assert_eq!(out, "xfalse");
}

#[test]
fn every_control_character_is_escaped_and_nothing_else() {
    let mut out = String::new();
    escape_into("\u{8}\u{c}\r\t\u{1f}\u{7f}é猫", &mut out);
    assert_eq!(out, "\"\\b\\f\\r\\t\\u001f\u{7f}é猫\"");
    for code in 0u32..0x20 {
        let text = char::from_u32(code).expect("a character").to_string();
        let rendered = JsonValue::text(&text).render();
        assert!(rendered.chars().all(|c| c as u32 >= 0x20), "code {code}");
    }
}

#[test]
fn different_texts_are_escaped_differently() {
    let texts = ["n", "\n", "\\n", "\u{1}", "\\u0001", "\"", "\\\"", "\\"];
    for a in texts {
        for b in texts {
            let same = JsonValue::text(a).render() == JsonValue::text(b).render();
            assert_eq!(same, a == b);
        }
    }
}

fn documents() -> Vec<JsonValue> {
    let one = |key: &str, value: JsonValue| JsonFields::new().with(key, value);
    vec![
        JsonValue::Null,
        JsonValue::text("null"),
        JsonValue::Int(1),
        JsonValue::Int(-1),
        JsonValue::text("1"),
        JsonValue::Array(vec![]),
        JsonFields::new().into_object(),
        JsonValue::Array(vec![JsonValue::Int(1), JsonValue::Int(2)]),
        JsonValue::Array(vec![JsonValue::Int(2), JsonValue::Int(1)]),
        JsonValue::Array(vec![JsonValue::Int(12)]),
        JsonValue::Array(vec![JsonValue::Array(vec![JsonValue::Int(12)])]),
        JsonValue::text("[12]"),
        one("a", JsonValue::Int(1)).into_object(),
        one("a", JsonValue::Int(1)).with("a", JsonValue::Int(1)).into_object(),
        one("a", JsonValue::Int(1)).with("b", JsonValue::Int(2)).into_object(),
        one("b", JsonValue::Int(2)).with("a", JsonValue::Int(1)).into_object(),
        one("a\":1,\"b", JsonValue::Int(2)).into_object(),
    ]
}

#[test]
fn different_documents_are_rendered_differently() {
    for (i, a) in documents().iter().enumerate() {
        for (j, b) in documents().iter().enumerate() {
            assert_eq!(a.render() == b.render(), i == j, "{}", a.render());
        }
    }
}

#[test]
fn a_repeated_key_is_kept_and_no_blank_is_added() {
    let value = JsonFields::new()
        .with("b c", JsonValue::text("x y"))
        .with("a", JsonValue::Array(vec![JsonValue::Null, JsonValue::Bool(true)]))
        .with("b c", JsonValue::Int(3))
        .into_object();
    assert_eq!(value.render(), r#"{"b c":"x y","a":[null,true],"b c":3}"#);
}

// Log records.

#[test]
fn line_has_exactly_the_four_pinned_fields_in_order() {
    let record = LogRecord::new(
        UtcTimestamp::from_millis_since_epoch(17),
        Level::Info,
        TraceId::new(Id::new(IdScheme::Ulid, "t").expect("valid text")),
        "hello",
    );
    assert_eq!(
        record.to_line(),
        "{\"ts\":17,\"level\":\"info\",\"trace_id\":\"t\",\"msg\":\"hello\"}"
    );
}

#[test]
fn unattributed_trace_id_renders_as_null() {
    let record = LogRecord::new(
        UtcTimestamp::from_millis_since_epoch(0),
        Level::Warn,
        TraceId::unattributed(),
        "no trace yet",
    );
    assert!(record.to_line().contains("\"trace_id\":null"));
}

#[test]
fn a_message_with_line_breaks_stays_on_one_line() {
    let record = LogRecord::new(
        UtcTimestamp::from_millis_since_epoch(-1),
        Level::Error,
        TraceId::unattributed(),
        "a\nb\r\nc",
    );
    assert_eq!(
        record.to_line(),
        "{\"ts\":-1,\"level\":\"error\",\"trace_id\":null,\"msg\":\"a\\nb\\r\\nc\"}"
    );
    assert_eq!(record.level(), Level::Error);
    assert_eq!(record.msg(), "a\nb\r\nc");
    assert_eq!(Level::Debug.as_str(), "debug");
}

// Retrying.

fn policy(max: u8) -> Result<RetryPolicy, Error> {
    RetryPolicy::new(
        max,
        Backoff::ExponentialJitter {
            base_millis: 100,
            cap_millis: 2_000,
        },
    )
}

#[test]
fn rejects_more_than_five_retries() {
    let err = policy(6).expect_err("6 is outside the pinned range");
    assert_eq!(err.code(), ErrorCode::InvalidArgument);
}

#[test]
fn accepts_the_whole_pinned_range() {
    for max in 0..=MAX_RETRIES_LIMIT {
        assert!(policy(max).is_ok(), "max={max} is inside 0..5");
    }
}

#[test]
fn the_ceiling_doubles_and_is_capped() {
    let p = policy(5).expect("valid policy");
    assert_eq!(p.delay_ceiling_millis(0), 100);
    assert_eq!(p.delay_ceiling_millis(1), 200);
    assert_eq!(p.delay_ceiling_millis(2), 400);
    assert_eq!(p.delay_ceiling_millis(3), 800);
    assert_eq!(p.delay_ceiling_millis(10), 2_000);
    assert_eq!(p.delay_ceiling_millis(u32::MAX), 2_000);
    let wide = RetryPolicy::new(
        0,
        Backoff::ExponentialJitter {
            base_millis: u64::MAX,
            cap_millis: u64::MAX,
        },
    )
    .expect("valid policy");
    assert_eq!(wide.delay_ceiling_millis(40), u64::MAX);
    assert_eq!(wide.max_retries(), 0);
}

#[test]
fn stops_retrying_at_the_limit() {
    let p = policy(2).expect("valid policy");
    assert!(p.should_retry(0));
    assert!(p.should_retry(1));
    assert!(!p.should_retry(2));
}

#[test]
fn waits_are_recorded_in_order() {
    let mut waits = RecordedWaits::new();
    waits.wait_up_to(3);
    waits.wait_up_to(1);
    assert_eq!(waits.ceilings_millis(), [3, 1]);
}

// Secrets.

#[test]
fn debug_and_display_redact_the_value() {
    let s = Secret::new("hunter2".to_owned());
    assert_eq!(s.debug_text(), "Secret(<redacted>)");
    assert_eq!(s.display_text(), "<redacted>");
    assert_eq!(s.expose(), "hunter2");
}

#[test]
fn missing_environment_secret_reports_the_name_only() {
    let err = EnvSecretSource
        .resolve("SCHORL_TEST_SECRET_THAT_DOES_NOT_EXIST", None)
        .err()
        .expect("unset variable must fail");
    assert_eq!(err.code(), ErrorCode::CapabilityUnavailable);
    assert!(err.details().iter().iter().any(|(k, _)| *k == "name"));
}

#[test]
fn a_found_secret_is_handed_on_unchanged() {
    let secret = EnvSecretSource
        .resolve("NAME", Some("value".to_owned()))
        .expect("found");
    assert_eq!(secret.clone().into_inner(), "value");
}

// Test doubles and time.

#[test]
fn fixed_clock_does_not_move() {
    let clock = FixedClock::at_millis(42);
    assert_eq!(clock.now_utc().millis_since_epoch(), 42);
    assert_eq!(clock.now_utc().millis_since_epoch(), 42);
}

#[test]
fn sequential_ids_differ_and_keep_the_scheme() {
    let mut ids = SequentialIdGen::new(IdScheme::Uuidv7, "test");
    let a = ids.next_id().expect("id");
    let b = ids.next_id().expect("id");
    assert_ne!(a.as_str(), b.as_str());
    assert_eq!(a.scheme(), IdScheme::Uuidv7);
    assert_eq!(ids.scheme(), IdScheme::Uuidv7);
}

#[test]
fn sequential_ids_are_numbered_with_eight_digits() {
    let mut ids = SequentialIdGen::new(IdScheme::Ulid, "w");
    assert_eq!(ids.next_id().expect("id").as_str(), "w-00000000");
    assert_eq!(ids.next_id().expect("id").as_str(), "w-00000001");
}

#[test]
fn capturing_sink_keeps_the_rendered_line() {
    let mut sink = CapturingLogSink::new();
    let record = LogRecord::new(
        FixedClock::at_millis(1).now_utc(),
        Level::Info,
        trace_id("t").expect("trace"),
        "hi",
    );
    sink.emit(&record).expect("capturing sink never fails");
    assert_eq!(sink.lines().len(), 1);
    assert!(sink.lines()[0].contains("\"msg\":\"hi\""));
}

#[test]
fn timestamp_round_trips_through_epoch_millis() {
    let t = UtcTimestamp::from_millis_since_epoch(1_700_000_000_123);
    assert_eq!(t.millis_since_epoch(), 1_700_000_000_123);
}

#[test]
fn the_earlier_timestamp_is_the_lesser_one() {
    let millis = [i64::MIN, -1, 0, 1, 1_700_000_000_123, i64::MAX];
    for m in millis {
        for n in millis {
            let a = UtcTimestamp::from_millis_since_epoch(m);
            let b = UtcTimestamp::from_millis_since_epoch(n);
            assert_eq!(a < b, m < n);
            assert_eq!(a.cmp(&b), m.cmp(&n));
            assert_eq!(a == b, m == n);
        }
    }
}

#[test]
fn system_clock_is_after_2020() {
    let t = SystemClock.now_utc();
    assert!(t.millis_since_epoch() > 1_577_836_800_000);
}

#[test]
fn distances_before_the_epoch_are_negative_and_saturate() {
    assert_eq!(UtcTimestamp::from_epoch_distance(Ok(12)).millis_since_epoch(), 12);
    assert_eq!(UtcTimestamp::from_epoch_distance(Err(12)).millis_since_epoch(), -12);
    assert_eq!(
        UtcTimestamp::from_epoch_distance(Ok(u128::MAX)).millis_since_epoch(),
        i64::MAX
    );
}

// The scope of the first version.

#[test]
fn v1_contract_matches_the_pins() {
    let c = V1Contract::v1();
    assert_eq!(c.host, HostPlatform::Linux);
    assert_eq!(c.deliverable, Deliverable::SelfBuiltVrWorkEnvironment);
    assert_eq!(c.hmd, Hmd::Quest3);
    assert_eq!(c.background, Background::Black);
    assert_eq!(c.display, DisplayPresence::Present);
    assert_eq!(c.purpose, DisplayPurpose::Work);
    assert_eq!(c.panel_count, 1);
}

#[test]
fn black_background_clears_to_opaque_black() {
    let (r, g, b, a) = Background::Black.clear_color_parts();
    assert_eq!(
        [f32::from(r), f32::from(g), f32::from(b), f32::from(a)],
        [0.0, 0.0, 0.0, 1.0]
    );
}

#[test]
fn excluded_and_included_features_partition_the_enum() {
    for feature in Feature::ALL {
        let excluded = V1_EXCLUDED_FEATURES.contains(&feature);
        let included = V1_INCLUDED_FEATURES.contains(&feature);
        assert!(
            excluded ^ included,
            "{} must be on exactly one side",
            feature.as_str()
        );
        assert_eq!(excluded, feature.excluded_from_v1());
    }
}

#[test]
fn every_excluded_feature_is_refused() {
    for feature in V1_EXCLUDED_FEATURES {
        let err = check_v1_scope(&[feature])
            .expect_err("an excluded feature must not pass the scope check");
        assert_eq!(err.code(), ErrorCode::Unsupported);
    }
}

#[test]
fn the_v1_feature_set_passes() {
    check_v1_scope(&V1_INCLUDED_FEATURES).expect("v1 features are in scope");
}

#[test]
fn the_first_excluded_feature_is_the_one_named() {
    let mut asked = V1_INCLUDED_FEATURES.to_vec();
    asked.push(V1_EXCLUDED_FEATURES[1]);
    asked.push(V1_EXCLUDED_FEATURES[0]);
    let err = check_v1_scope(&asked).expect_err("out of scope");
    let named = V1_EXCLUDED_FEATURES[1].as_str().to_owned();
    assert!(err
        .details()
        .iter()
        .iter()
        .any(|(_, v)| **v == DetailValue::Text(named.clone())));
    assert_eq!(V1Contract::default().panel_count, 1);
}
