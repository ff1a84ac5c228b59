use muninn_kernel::error::PipeError;
use muninn_kernel::frame::{ErrorCode, Frame, Status};
use muninn_kernel::sender::{FrameSender, Outbox};
use muninn_kernel::value::{Data, Number, Value};
use serde::ser::SerializeStruct;
use serde::Serialize;
use std::future::Future;
use tokio::sync::mpsc;

fn run<F: Future>(future: F) -> F::Output {
    tokio::runtime::Builder::new_current_thread()
        .build()
        .unwrap()
        .block_on(future)
}

fn setup() -> (FrameSender, mpsc::Receiver<Frame>) {
    let (tx, rx) = mpsc::channel(64);
    (FrameSender::new(tx), rx)
}

/// Sends what is in an outbox.
async fn deliver(sender: &FrameSender, mut outbox: Outbox) -> Result<(), PipeError> {
    let mut all_sent = true;
    for frame in outbox.frames.drain(..) {
        if sender.tx().send(frame).await.is_err() {
            all_sent = false;
            break;
        }
    }
    outbox.conclude(all_sent)
}

fn text<'a>(data: &'a Data, key: &str) -> Option<&'a str> {
    match data.get(key) {
        Some(Value::String(s)) => Some(s.as_str()),
        _ => None,
    }
}

fn number(data: &Data, key: &str) -> Option<u64> {
    match data.get(key) {
        Some(Value::Number(Number::PosInt(n))) => Some(*n),
        _ => None,
    }
}

fn from_json(value: serde_json::Value) -> Value {
    match value {
        serde_json::Value::String(s) => Value::String(s),
        serde_json::Value::Number(n) => Value::Number(Number::PosInt(n.as_u64().unwrap())),
        serde_json::Value::Object(members) => {
            Value::Object(members.into_iter().map(|(k, v)| (k, from_json(v))).collect())
        }
        other => panic!("not used here: {other}"),
    }
}

fn serialize<T: Serialize>(value: &T) -> Result<Value, String> {
    match serde_json::to_value(value) {
        Ok(json) => Ok(from_json(json)),
        Err(err) => Err(err.to_string()),
    }
}

struct TestItem {
    name: String,
    count: u32,
}

impl Serialize for TestItem {
    fn serialize<S: serde::Serializer>(&self, serializer: S) -> Result<S::Ok, S::Error> {
        let mut s = serializer.serialize_struct("TestItem", 2)?;
        s.serialize_field("name", &self.name)?;
        s.serialize_field("count", &self.count)?;
        s.end()
    }
}

fn item(name: &str, count: u32) -> Result<Value, String> {
    serialize(&TestItem {
        name: name.into(),
        count,
    })
}

struct FailingItem;

impl Serialize for FailingItem {
    fn serialize<S>(&self, _serializer: S) -> Result<S::Ok, S::Error>
    where
        S: serde::Serializer,
    {
        Err(serde::ser::Error::custom("boom"))
    }
}

#[derive(Debug)]
struct TestError;

impl ErrorCode for TestError {
    fn error_code(&self) -> &'static str {
        "E_TEST"
    }
    fn message(&self) -> String {
        "something broke".to_string()
    }
}

#[test]
fn send_item_serializes_struct_to_data() {
    run(async {
        let (sender, mut rx) = setup();
        let req = Frame::request("test:op");

        deliver(&sender, sender.send_item(&req, item("foo", 3))).await.unwrap();
        let frame = rx.recv().await.unwrap();

        assert_eq!(frame.status, Status::Item);
        assert_eq!(frame.parent_id, Some(req.id));
        assert_eq!(text(&frame.data, "name"), Some("foo"));
        assert_eq!(number(&frame.data, "count"), Some(3));
    });
}

#[test]
fn send_passes_a_frame_as_it_is() {
    run(async {
        let (sender, mut rx) = setup();
        let req = Frame::request("test:op");
        let id = req.id;
        deliver(&sender.clone(), sender.send(req)).await.unwrap();
        assert_eq!(rx.recv().await.unwrap().id, id);
    });
}

#[test]
fn send_done_emits_terminal() {
    run(async {
        let (sender, mut rx) = setup();
        let req = Frame::request("test:op");

        deliver(&sender, sender.send_done(&req)).await.unwrap();
        let frame = rx.recv().await.unwrap();

        assert_eq!(frame.status, Status::Done);
        assert!(frame.data.is_empty());
    });
}

#[test]
fn send_error_emits_structured_error() {
    run(async {
        let (sender, mut rx) = setup();
        let req = Frame::request("test:op");

        deliver(&sender, sender.send_error(&req, "bad input")).await.unwrap();
        let frame = rx.recv().await.unwrap();

        assert_eq!(frame.status, Status::Error);
        assert_eq!(text(&frame.data, "message"), Some("bad input"));
    });
}

#[test]
fn send_error_from_uses_error_code() {
    run(async {
        let (sender, mut rx) = setup();
        let req = Frame::request("test:op");

        deliver(&sender, sender.send_error_from(&req, &TestError)).await.unwrap();
        let frame = rx.recv().await.unwrap();

        assert_eq!(frame.status, Status::Error);
        assert_eq!(text(&frame.data, "code"), Some("E_TEST"));
        assert_eq!(text(&frame.data, "message"), Some("something broke"));
    });
}

#[test]
fn finish_item_ok_sends_item_then_done() {
    run(async {
        let (sender, mut rx) = setup();
        let req = Frame::request("test:op");
        let result: Result<Result<Value, String>, TestError> = Ok(item("bar", 7));

        deliver(&sender, sender.finish_item(&req, result)).await.unwrap();

        let item = rx.recv().await.unwrap();
        assert_eq!(item.status, Status::Item);
        assert_eq!(text(&item.data, "name"), Some("bar"));

        let done = rx.recv().await.unwrap();
        assert_eq!(done.status, Status::Done);
    });
}

#[test]
fn finish_item_err_sends_error() {
    run(async {
        let (sender, mut rx) = setup();
        let req = Frame::request("test:op");
        let result: Result<Result<Value, String>, TestError> = Err(TestError);

        deliver(&sender, sender.finish_item(&req, result)).await.unwrap();

        let err = rx.recv().await.unwrap();
        assert_eq!(err.status, Status::Error);
        assert_eq!(text(&err.data, "code"), Some("E_TEST"));
    });
}

#[test]
fn finish_items_ok_sends_all_then_done() {
    run(async {
        let (sender, mut rx) = setup();
        let req = Frame::request("test:op");
        let items = vec![item("a", 1), item("b", 2), item("c", 3)];
        let result: Result<Vec<Result<Value, String>>, TestError> = Ok(items);

        deliver(&sender, sender.finish_items(&req, result)).await.unwrap();

        let mut ids = Vec::new();
        for expected in ["a", "b", "c"] {
            let frame = rx.recv().await.unwrap();
            assert_eq!(frame.status, Status::Item);
            assert_eq!(text(&frame.data, "name"), Some(expected));
            ids.push(frame.id);
        }

        let done = rx.recv().await.unwrap();
        assert_eq!(done.status, Status::Done);
        ids.push(done.id);
        ids.sort();
        ids.dedup();
        assert_eq!(ids.len(), 4);
    });
}

#[test]
fn finish_items_err_sends_error() {
    run(async {
        let (sender, mut rx) = setup();
        let req = Frame::request("test:op");
        let result: Result<Vec<Result<Value, String>>, TestError> = Err(TestError);

        deliver(&sender, sender.finish_items(&req, result)).await.unwrap();

        let err = rx.recv().await.unwrap();
        assert_eq!(err.status, Status::Error);
    });
}

#[test]
fn finish_items_stops_at_what_cannot_be_serialized() {
    run(async {
        let (sender, mut rx) = setup();
        let req = Frame::request("test:op");
        let items = vec![item("a", 1), serialize(&FailingItem), item("c", 3)];
        let result: Result<Vec<Result<Value, String>>, TestError> = Ok(items);

        let err = deliver(&sender, sender.finish_items(&req, result)).await.unwrap_err();
        assert_eq!(err.message(), "serialization failed: boom");
        assert_eq!(text(&rx.recv().await.unwrap().data, "name"), Some("a"));
        assert!(rx.try_recv().is_err());
    });
}

#[test]
fn finish_items_of_nothing_is_done() {
    let (sender, _rx) = setup();
    let req = Frame::request("test:op");
    let result: Result<Vec<Result<Value, String>>, TestError> = Ok(Vec::new());
    let outbox = sender.finish_items(&req, result);
    assert_eq!(outbox.frames.len(), 1);
    assert_eq!(outbox.frames[0].status, Status::Done);
}

#[test]
fn finish_ok_sends_done() {
    run(async {
        let (sender, mut rx) = setup();
        let req = Frame::request("test:op");
        let result: Result<(), TestError> = Ok(());

        deliver(&sender, sender.finish(&req, result)).await.unwrap();

        let done = rx.recv().await.unwrap();
        assert_eq!(done.status, Status::Done);
    });
}

#[test]
fn finish_err_sends_error() {
    run(async {
        let (sender, mut rx) = setup();
        let req = Frame::request("test:op");
        let result: Result<(), TestError> = Err(TestError);

        deliver(&sender, sender.finish(&req, result)).await.unwrap();

        let err = rx.recv().await.unwrap();
        assert_eq!(err.status, Status::Error);
    });
}

#[test]
fn to_data_wraps_non_object_under_value_key() {
    run(async {
        let (sender, mut rx) = setup();
        let req = Frame::request("test:op");

        deliver(&sender, sender.send_item(&req, serialize(&42u32))).await.unwrap();
        let frame = rx.recv().await.unwrap();

        assert_eq!(number(&frame.data, "value"), Some(42));
    });
}

#[test]
fn send_item_returns_serialize_error() {
    run(async {
        let (sender, mut rx) = setup();
        let req = Frame::request("test:op");

        let outbox = sender.send_item(&req, serialize(&FailingItem));
        let err = deliver(&sender, outbox).await.unwrap_err();
        assert_eq!(err.message(), "serialization failed: boom");
        assert!(rx.try_recv().is_err());
    });
}

#[test]
fn sending_to_a_closed_channel_fails() {
    run(async {
        let (sender, rx) = setup();
        drop(rx);
        let req = Frame::request("test:op");
        let err = deliver(&sender, sender.send_done(&req)).await.unwrap_err();
        assert!(matches!(err, PipeError::SendFailed));
    });
}

#[test]
fn report_sends_only_failures() {
    let (sender, _rx) = setup();
    let req = Frame::request("test:op");
    let silent = sender.report::<TestError>(&req, Ok(()));
    assert!(silent.frames.is_empty());
    assert!(silent.conclude(true).is_ok());
    let failed = sender.report(&req, Err(&TestError));
    assert_eq!(failed.frames.len(), 1);
    assert_eq!(failed.frames[0].status, Status::Error);
    assert_eq!(text(&failed.frames[0].data, "code"), Some("E_TEST"));
}
