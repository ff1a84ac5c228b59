use muninn_kernel::error::KernelError;
use muninn_kernel::frame::{make_error_data, ErrorCode, Frame, Status};
use muninn_kernel::stamp::{epoch_millis, now_millis, Draws, Stamp};
use muninn_kernel::value::{flatten, no_data, to_data, Data, Number, Value};
use serde::ser::SerializeStruct;
use serde::Serialize;

fn text<'a>(data: &'a Data, key: &str) -> Option<&'a str> {
    match data.get(key) {
        Some(Value::String(s)) => Some(s.as_str()),
        _ => None,
    }
}

fn flag(data: &Data, key: &str) -> Option<bool> {
    match data.get(key) {
        Some(Value::Bool(b)) => Some(*b),
        _ => None,
    }
}

fn number(data: &Data, key: &str) -> Option<u64> {
    match data.get(key) {
        Some(Value::Number(Number::PosInt(n))) => Some(*n),
        _ => None,
    }
}

fn from_json(value: serde_json::Value) -> Value {
    match value {
        serde_json::Value::Null => Value::Null,
        serde_json::Value::Bool(b) => Value::Bool(b),
        serde_json::Value::Number(n) => {
            if let Some(u) = n.as_u64() {
                Value::Number(Number::PosInt(u))
            } else if let Some(i) = n.as_i64() {
                Value::Number(Number::NegInt(i))
            } else {
                Value::Number(Number::Float(n.as_f64().unwrap().to_bits()))
            }
        }
        serde_json::Value::String(s) => Value::String(s),
        serde_json::Value::Array(items) => Value::Array(items.into_iter().map(from_json).collect()),
        serde_json::Value::Object(members) => {
            Value::Object(members.into_iter().map(|(k, v)| (k, from_json(v))).collect())
        }
    }
}

fn serialize<T: Serialize>(value: T) -> Result<Value, serde_json::Error> {
    serde_json::to_value(value).map(from_json)
}

fn room(key: &str, value: &str) -> Value {
    Value::Object(vec![(key.to_string(), Value::String(value.to_string()))])
}

struct FailingValue;

impl Serialize for FailingValue {
    fn serialize<S>(&self, _serializer: S) -> Result<S::Ok, S::Error>
    where
        S: serde::Serializer,
    {
        Err(serde::ser::Error::custom("boom"))
    }
}

#[test]
fn request_creates_frame_with_correct_status() {
    let f = Frame::request("vfs:read");
    assert_eq!(f.status, Status::Request);
    assert_eq!(f.call, "vfs:read");
    assert!(f.parent_id.is_none());
    assert!(f.from.is_none());
    assert!(f.data.is_empty());
}

#[test]
fn request_with_populates_data() {
    let mut data = Data::new();
    data.insert("path".into(), Value::String("/tmp/test".into()));
    let f = Frame::request_with("vfs:read", data);
    assert_eq!(text(&f.data, "path"), Some("/tmp/test"));
}

#[test]
fn item_response_correlates_to_request() {
    let req = Frame::request("vfs:read");
    let item = req.item(no_data());
    assert_eq!(item.parent_id, Some(req.id));
    assert_eq!(item.status, Status::Item);
    assert_eq!(item.call, "vfs:read");
}

#[test]
fn bulk_response_correlates_to_request() {
    let req = Frame::request("ems:list");
    let bulk = req.bulk(no_data());
    assert_eq!(bulk.parent_id, Some(req.id));
    assert_eq!(bulk.status, Status::Bulk);
}

#[test]
fn done_response_is_terminal() {
    let req = Frame::request("vfs:write");
    let done = req.done();
    assert_eq!(done.parent_id, Some(req.id));
    assert_eq!(done.status, Status::Done);
    assert!(done.data.is_empty());
    assert!(done.status.is_terminal());
}

#[test]
fn done_with_carries_data() {
    let req = Frame::request("ems:create");
    let mut data = Data::new();
    data.insert("id".into(), Value::String("abc".into()));
    let done = req.done_with(data);
    assert_eq!(text(&done.data, "id"), Some("abc"));
    assert!(done.status.is_terminal());
}

#[test]
fn error_response_has_structured_fields() {
    let req = Frame::request("vfs:read");
    let err = req.error("file not found");
    assert_eq!(err.status, Status::Error);
    assert_eq!(err.parent_id, Some(req.id));
    assert_eq!(text(&err.data, "code"), Some("E_INTERNAL"));
    assert_eq!(text(&err.data, "message"), Some("file not found"));
    assert_eq!(flag(&err.data, "retryable"), Some(false));
}

#[test]
fn error_from_uses_error_code_trait() {
    #[derive(Debug)]
    struct TestError;
    impl ErrorCode for TestError {
        fn error_code(&self) -> &'static str {
            "E_TEST"
        }
        fn message(&self) -> String {
            "test error".to_string()
        }
        fn retryable(&self) -> bool {
            true
        }
    }

    let req = Frame::request("test:op");
    let err = req.error_from(&TestError);
    assert_eq!(text(&err.data, "code"), Some("E_TEST"));
    assert_eq!(text(&err.data, "message"), Some("test error"));
    assert_eq!(flag(&err.data, "retryable"), Some(true));
}

#[test]
fn error_code_advises_no_retry_by_default() {
    struct Plain;
    impl ErrorCode for Plain {
        fn error_code(&self) -> &'static str {
            "E_PLAIN"
        }
        fn message(&self) -> String {
            String::new()
        }
    }
    assert!(!Plain.retryable());
    let err = Frame::request("test:op").error_from(&Plain);
    assert_eq!(flag(&err.data, "retryable"), Some(false));
}

#[test]
fn cancel_frame_is_terminal() {
    let req = Frame::request("ai:prompt");
    let cancel = req.cancel();
    assert_eq!(cancel.parent_id, Some(req.id));
    assert_eq!(cancel.status, Status::Cancel);
    assert!(cancel.status.is_terminal());
}

#[test]
fn prefix_extracts_namespace() {
    let f = Frame::request("vfs:read");
    assert_eq!(f.prefix(), "vfs");
}

#[test]
fn prefix_returns_full_syscall_when_no_colon() {
    let f = Frame::request("health");
    assert_eq!(f.prefix(), "health");
}

#[test]
fn verb_extracts_operation() {
    let f = Frame::request("vfs:read");
    assert_eq!(f.verb(), "read");
}

#[test]
fn verb_returns_empty_when_no_colon() {
    let f = Frame::request("health");
    assert_eq!(f.verb(), "");
}

#[test]
fn names_split_at_the_first_colon() {
    let f = Frame::request("a:b:c");
    assert_eq!(f.prefix(), "a");
    assert_eq!(f.verb(), "b:c");
    let f = Frame::request(":x");
    assert_eq!(f.prefix(), "");
    assert_eq!(f.verb(), "x");
    let f = Frame::request("größe:日本");
    assert_eq!(f.prefix(), "größe");
    assert_eq!(f.verb(), "日本");
    let f = Frame::request("");
    assert_eq!(f.prefix(), "");
    assert_eq!(f.verb(), "");
}

#[test]
fn with_from_sets_sender() {
    let f = Frame::request("test:op").with_from("user-42");
    assert_eq!(f.from.as_deref(), Some("user-42"));
}

#[test]
fn with_trace_sets_metadata() {
    let trace = room("room", "main");
    let f = Frame::request("test:op").with_trace(trace.clone());
    assert_eq!(f.trace, Some(trace));
}

#[test]
fn with_data_adds_key_value() {
    let f = Frame::request("test:op").with_data("key", Value::Bool(true));
    assert_eq!(flag(&f.data, "key"), Some(true));
}

#[test]
fn with_data_replaces_what_the_key_held() {
    let f = Frame::request("test:op")
        .with_data("key", Value::Bool(true))
        .with_data("key", Value::Null);
    assert_eq!(f.data.get("key"), Some(&Value::Null));
    assert_eq!(f.data.len(), 1);
}

#[test]
fn status_terminal_checks() {
    assert!(!Status::Request.is_terminal());
    assert!(!Status::Item.is_terminal());
    assert!(!Status::Bulk.is_terminal());
    assert!(Status::Done.is_terminal());
    assert!(Status::Error.is_terminal());
    assert!(Status::Cancel.is_terminal());
}

#[test]
fn each_frame_gets_unique_id() {
    let a = Frame::request("test:a");
    let b = Frame::request("test:b");
    assert_ne!(a.id, b.id);
}

#[test]
fn ids_are_random_uuids() {
    let a = Frame::request("test:a").id;
    assert_eq!((a >> 76) & 0xf, 4);
    assert_eq!((a >> 62) & 0x3, 2);
    assert_eq!(uuid::Uuid::from_u128(a).get_version_num(), 4);
}

#[test]
fn response_inherits_trace_from_request() {
    let trace = room("span_id", "abc");
    let req = Frame::request("test:op").with_trace(trace.clone());
    let item = req.item(no_data());
    assert_eq!(item.trace, Some(trace));
}

#[test]
fn trace_and_call_survive_a_chain_of_responses() {
    let trace = room("span_id", "abc");
    let req = Frame::request("test:op").with_trace(trace.clone());
    let item = req.item(no_data());
    let done = item.done();
    assert_eq!(done.parent_id, Some(item.id));
    assert_eq!(done.call, "test:op");
    assert_eq!(done.trace, Some(trace));
    assert!(done.from.is_none());
    assert_eq!(done.expires_in, 0);
}

#[test]
fn response_gets_own_unique_id() {
    let req = Frame::request("test:op");
    let a = req.item(no_data());
    let b = req.item(no_data());
    assert_ne!(a.id, b.id);
    assert_ne!(a.id, req.id);
}

#[test]
fn timestamp_is_positive() {
    let f = Frame::request("test:op");
    assert!(f.created_ms > 0);
}

#[test]
fn the_clock_counts_milliseconds_since_the_epoch() {
    // Between the years 2020 and 2200.
    let now = now_millis();
    assert!(now > 1_577_836_800_000);
    assert!(now < 7_258_118_400_000);
    assert!(Stamp::now().created_ms >= now);
}

#[test]
fn milliseconds_are_rounded_down_and_saturate() {
    assert_eq!(epoch_millis(None), 0);
    assert_eq!(epoch_millis(Some(999_999)), 0);
    assert_eq!(epoch_millis(Some(1_000_000)), 1);
    assert_eq!(epoch_millis(Some(1_999_999)), 1);
    assert_eq!(epoch_millis(Some(u128::MAX)), i64::MAX);
}

#[test]
fn with_field_serializes_primitives() {
    let f = Frame::request("test:op")
        .with_field("name", serialize("alice"))
        .unwrap()
        .with_field("count", serialize(42))
        .unwrap()
        .with_field("active", serialize(true))
        .unwrap();
    assert_eq!(text(&f.data, "name"), Some("alice"));
    assert_eq!(number(&f.data, "count"), Some(42));
    assert_eq!(flag(&f.data, "active"), Some(true));
}

#[test]
fn item_from_serializes_struct() {
    struct Entry {
        id: u32,
        label: String,
    }
    impl Serialize for Entry {
        fn serialize<S: serde::Serializer>(&self, serializer: S) -> Result<S::Ok, S::Error> {
            let mut s = serializer.serialize_struct("Entry", 2)?;
            s.serialize_field("id", &self.id)?;
            s.serialize_field("label", &self.label)?;
            s.end()
        }
    }

    let req = Frame::request("test:op");
    let item = req
        .item_from(serialize(Entry {
            id: 1,
            label: "hello".into(),
        }))
        .unwrap();
    assert_eq!(item.status, Status::Item);
    assert_eq!(item.parent_id, Some(req.id));
    assert_eq!(number(&item.data, "id"), Some(1));
    assert_eq!(text(&item.data, "label"), Some("hello"));
}

#[test]
fn item_from_wraps_non_object() {
    let req = Frame::request("test:op");
    let item = req.item_from(serialize(42)).unwrap();
    assert_eq!(number(&item.data, "value"), Some(42));
    assert_eq!(item.data.len(), 1);
}

struct Counted {
    key: &'static str,
    count: u32,
}

impl Serialize for Counted {
    fn serialize<S: serde::Serializer>(&self, serializer: S) -> Result<S::Ok, S::Error> {
        let mut s = serializer.serialize_struct("Counted", 1)?;
        s.serialize_field(self.key, &self.count)?;
        s.end()
    }
}

#[test]
fn done_from_serializes_struct() {
    let req = Frame::request("test:op");
    let done = req
        .done_from(serialize(Counted {
            key: "total",
            count: 5,
        }))
        .unwrap();
    assert_eq!(done.status, Status::Done);
    assert!(done.status.is_terminal());
    assert_eq!(number(&done.data, "total"), Some(5));
}

#[test]
fn bulk_from_serializes_struct() {
    let req = Frame::request("test:op");
    let bulk = req
        .bulk_from(serialize(Counted {
            key: "count",
            count: 10,
        }))
        .unwrap();
    assert_eq!(bulk.status, Status::Bulk);
    assert_eq!(number(&bulk.data, "count"), Some(10));
}

#[test]
fn with_field_returns_serialize_error() {
    let err = Frame::request("test:op")
        .with_field("bad", serialize(FailingValue))
        .unwrap_err();
    assert_eq!(err.to_string(), "boom");
}

#[test]
fn item_from_returns_serialize_error() {
    let req = Frame::request("test:op");
    let err = req.item_from(serialize(FailingValue)).unwrap_err();
    assert_eq!(err.to_string(), "boom");
    assert_eq!(
        req.bulk_from(serialize(FailingValue)).unwrap_err().to_string(),
        "boom"
    );
    assert_eq!(
        req.done_from(serialize(FailingValue)).unwrap_err().to_string(),
        "boom"
    );
}

#[test]
fn payload_of_an_object_is_its_members() {
    let object = Value::Object(vec![
        ("a".to_string(), Value::Bool(true)),
        ("b".to_string(), Value::Null),
        ("a".to_string(), Value::Bool(false)),
    ]);
    let data = flatten(object);
    assert_eq!(data.len(), 2);
    assert_eq!(data.get("a"), Some(&Value::Bool(false)));
    assert_eq!(data.get("b"), Some(&Value::Null));
    assert!(flatten(Value::Object(Vec::new())).is_empty());
    assert_eq!(flatten(Value::Null).get("value"), Some(&Value::Null));
    assert_eq!(to_data::<String>(Err("no".to_string())).unwrap_err(), "no");
}

#[test]
fn kernel_errors_hold_their_codes() {
    let all = [
        (KernelError::invalid_args("m"), "E_INVALID_ARGS", false),
        (KernelError::not_found("m"), "E_NOT_FOUND", false),
        (KernelError::forbidden("m"), "E_FORBIDDEN", false),
        (KernelError::timeout("m"), "E_TIMEOUT", true),
        (KernelError::internal("m"), "E_INTERNAL", false),
        (KernelError::no_route("m"), "E_NO_ROUTE", false),
    ];
    for (err, code, retryable) in all.iter() {
        assert_eq!(err.error_code(), *code);
        assert_eq!(err.message, "m");
        assert_eq!(err.retryable(), *retryable);
        assert_eq!(err.message(), format!("{code}: m"));
        assert_eq!(text(&err.to_data(), "code"), Some(*code));
        assert_eq!(text(&err.to_data(), "message"), Some("m"));
        assert_eq!(flag(&err.to_data(), "retryable"), Some(*retryable));
    }
    let err = KernelError::cancelled();
    assert_eq!(err.error_code(), "E_CANCELLED");
    assert!(!err.retryable());
}

#[test]
fn error_data_has_three_members() {
    let data = make_error_data("E_X", "why".to_string(), true);
    assert_eq!(data.len(), 3);
    assert_eq!(text(&data, "code"), Some("E_X"));
    assert_eq!(text(&data, "message"), Some("why"));
    assert_eq!(flag(&data, "retryable"), Some(true));
}

#[test]
fn stamps_are_drawn_one_by_one() {
    let mut draws = Draws::new();
    let req = Frame::request("test:op");
    let a = draws.stamp();
    let b = draws.stamp();
    let c = req.draw_response(&mut draws, Status::Done, no_data());
    assert_ne!(a.id, b.id);
    assert_ne!(b.id, c.id);
    assert_eq!(c.parent_id, Some(req.id));
    let e = req.draw_error_from(&mut draws, &KernelError::timeout("late"));
    assert_eq!(text(&e.data, "code"), Some("E_TIMEOUT"));
    assert_ne!(c.id, e.id);
}

#[test]
fn values_are_equal_as_json_values_are() {
    let pair = |x: (&str, Value), y: (&str, Value)| {
        Value::Object(vec![(x.0.to_string(), x.1), (y.0.to_string(), y.1)])
    };
    let one = || Value::Number(Number::PosInt(1));
    let ab = pair(("a", one()), ("b", Value::Null));
    let ba = pair(("b", Value::Null), ("a", one()));
    assert_eq!(ab, ba);
    assert_eq!(Value::Array(vec![ab.clone()]), Value::Array(vec![ba]));
    assert_ne!(ab, pair(("a", one()), ("b", one())));
    assert_ne!(ab, pair(("a", one()), ("c", Value::Null)));
    assert_ne!(ab, Value::Object(vec![("a".to_string(), one())]));
    assert_ne!(Value::Object(vec![("a".to_string(), one())]), ab);
    assert_eq!(
        pair(("a", Value::Null), ("a", one())),
        Value::Object(vec![("a".to_string(), one())])
    );
    let zero = Value::Number(Number::Float(0.0f64.to_bits()));
    let negative = Value::Number(Number::Float((-0.0f64).to_bits()));
    assert_eq!(zero, negative);
    assert_ne!(zero, Value::Number(Number::PosInt(0)));
    assert_ne!(zero, Value::Number(Number::Float(0.5f64.to_bits())));
    assert_eq!(serde_json::Value::from(0.0), serde_json::Value::from(-0.0));
    assert_ne!(serde_json::Value::from(0.0), serde_json::Value::from(0));
    assert_ne!(
        Value::Array(vec![one(), Value::Null]),
        Value::Array(vec![Value::Null, one()])
    );
    assert_ne!(Value::Array(vec![one()]), Value::Array(Vec::new()));
    assert_ne!(Value::String("1".to_string()), one());
    assert_ne!(Value::Bool(true), Value::Bool(false));
    assert_eq!(
        Value::Number(Number::NegInt(-3)),
        Value::Number(Number::NegInt(-3))
    );
}
