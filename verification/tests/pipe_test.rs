use muninn_kernel::error::PipeError;
use muninn_kernel::frame::{Frame, Status};
use muninn_kernel::pipe::{
    pipe, pipe_default, CallStream, Caller, Collector, Dispatcher, PendingMap, PipeEnd, PipeState,
};
use muninn_kernel::sender::Outbox;
use muninn_kernel::value::no_data;
use std::future::Future;
use std::sync::{Arc, Mutex};
use tokio::sync::mpsc;

fn run<F: Future>(future: F) -> F::Output {
    tokio::runtime::Builder::new_current_thread()
        .build()
        .unwrap()
        .block_on(future)
}

async fn recv(end: &mut PipeEnd) -> Option<Frame> {
    match &mut end.state {
        PipeState::Direct(rx) => rx.recv().await,
        PipeState::Dispatched(rx) => rx.recv().await,
    }
}

/// Activates an end, with the dispatcher running in a task.
fn activate(end: &mut PipeEnd) -> (Caller, Arc<Mutex<PendingMap>>) {
    let pending = Arc::new(Mutex::new(PendingMap::new()));
    let (caller, dispatcher) = end.caller();
    let shared = Arc::clone(&pending);
    tokio::spawn(dispatch(dispatcher.unwrap(), shared));
    (caller, pending)
}

async fn dispatch(mut dispatcher: Dispatcher, pending: Arc<Mutex<PendingMap>>) {
    while let Some(frame) = dispatcher.raw_rx.recv().await {
        if !dispatcher.dispatch(&mut pending.lock().unwrap(), frame) {
            break;
        }
    }
    pending.lock().unwrap().clear();
}

async fn call(
    caller: &Caller,
    pending: &Arc<Mutex<PendingMap>>,
    request: Frame,
) -> Result<CallStream, PipeError> {
    let stream = caller.call(&mut pending.lock().unwrap(), &request);
    let sent = caller.tx.send(request).await.is_ok();
    caller.conclude(&mut pending.lock().unwrap(), stream, sent)
}

async fn deliver(tx: &mpsc::Sender<Frame>, mut outbox: Outbox) -> Result<(), PipeError> {
    let mut all_sent = true;
    for frame in outbox.frames.drain(..) {
        if tx.send(frame).await.is_err() {
            all_sent = false;
            break;
        }
    }
    outbox.conclude(all_sent)
}

async fn collect(mut stream: CallStream) -> Vec<Frame> {
    let mut collector = Collector::new();
    while collector.push(stream.rx.recv().await) {}
    collector.into_frames()
}

#[test]
fn pipe_send_and_recv() {
    run(async {
        let (end_a, mut end_b) = pipe(16);

        let frame = Frame::request("test:ping");
        let id = frame.id;

        end_a.sender().send(frame).await.unwrap();
        let received = recv(&mut end_b).await.unwrap();

        assert_eq!(received.id, id);
        assert_eq!(received.call, "test:ping");
    });
}

#[test]
fn pipe_bidirectional() {
    run(async {
        let (mut end_a, mut end_b) = pipe(16);

        let req = Frame::request("test:op");
        let req_id = req.id;
        end_a.sender().send(req).await.unwrap();

        let received = recv(&mut end_b).await.unwrap();
        let resp = received.done();
        end_b.sender().send(resp).await.unwrap();

        let response = recv(&mut end_a).await.unwrap();
        assert_eq!(response.parent_id, Some(req_id));
        assert_eq!(response.status, Status::Done);
    });
}

#[test]
fn caller_call_receives_correlated_responses() {
    run(async {
        let (mut end_a, mut end_b) = pipe(16);
        let (caller, pending) = activate(&mut end_a);

        let req = Frame::request("test:op");
        let req_id = req.id;

        let mut stream = call(&caller, &pending, req).await.unwrap();

        let received = recv(&mut end_b).await.unwrap();
        assert_eq!(received.id, req_id);

        let item = received.item(no_data());
        end_b.sender().send(item).await.unwrap();

        let done = received.done();
        end_b.sender().send(done).await.unwrap();

        let resp1 = stream.rx.recv().await.unwrap();
        assert_eq!(resp1.status, Status::Item);
        assert_eq!(resp1.parent_id, Some(req_id));

        let resp2 = stream.rx.recv().await.unwrap();
        assert_eq!(resp2.status, Status::Done);
        assert!(!pending.lock().unwrap().contains_key(req_id));
    });
}

#[test]
fn caller_call_collect_gathers_until_terminal() {
    run(async {
        let (mut end_a, mut end_b) = pipe(16);
        let (caller, pending) = activate(&mut end_a);

        let req = Frame::request("test:op");
        let stream = call(&caller, &pending, req).await.unwrap();

        let received = recv(&mut end_b).await.unwrap();
        end_b.sender().send(received.item(no_data())).await.unwrap();
        end_b.sender().send(received.item(no_data())).await.unwrap();
        end_b.sender().send(received.done()).await.unwrap();

        let frames = collect(stream).await;
        assert_eq!(frames.len(), 3);
        assert_eq!(frames[0].status, Status::Item);
        assert_eq!(frames[1].status, Status::Item);
        assert_eq!(frames[2].status, Status::Done);
    });
}

#[test]
fn collecting_stops_when_no_more_comes() {
    let req = Frame::request("test:op");
    let mut collector = Collector::new();
    assert!(collector.push(Some(req.item(no_data()))));
    assert!(!collector.push(None));
    assert_eq!(collector.into_frames().len(), 1);
}

#[test]
fn caller_multiple_concurrent_calls() {
    run(async {
        let (mut end_a, mut end_b) = pipe(16);
        let (caller, pending) = activate(&mut end_a);

        let req1 = Frame::request("test:first");
        let req2 = Frame::request("test:second");
        let id1 = req1.id;
        let id2 = req2.id;

        let mut stream1 = call(&caller, &pending, req1).await.unwrap();
        let mut stream2 = call(&caller.clone(), &pending, req2).await.unwrap();

        let r1 = recv(&mut end_b).await.unwrap();
        let r2 = recv(&mut end_b).await.unwrap();

        end_b.sender().send(r2.done()).await.unwrap();
        end_b.sender().send(r1.done()).await.unwrap();

        let resp2 = stream2.rx.recv().await.unwrap();
        assert_eq!(resp2.parent_id, Some(id2));

        let resp1 = stream1.rx.recv().await.unwrap();
        assert_eq!(resp1.parent_id, Some(id1));
    });
}

#[test]
fn caller_send_fire_and_forget() {
    run(async {
        let (mut end_a, mut end_b) = pipe(16);
        let (caller, _pending) = activate(&mut end_a);

        let frame = Frame::request("test:broadcast");
        deliver(&caller.tx, caller.send(frame)).await.unwrap();

        let received = recv(&mut end_b).await.unwrap();
        assert_eq!(received.call, "test:broadcast");
    });
}

#[test]
fn sending_to_a_pipe_without_another_end_fails() {
    run(async {
        let (mut end_a, end_b) = pipe(16);
        let (caller, pending) = activate(&mut end_a);
        drop(end_b);

        let sent = deliver(&caller.tx, caller.send(Frame::request("test:a"))).await;
        assert!(matches!(sent, Err(PipeError::SendFailed)));

        let req = Frame::request("test:b");
        let id = req.id;
        let called = call(&caller, &pending, req).await;
        assert!(matches!(called, Err(PipeError::SendFailed)));
        assert!(!pending.lock().unwrap().contains_key(id));
    });
}

#[test]
fn unmatched_frames_go_to_recv() {
    run(async {
        let (mut end_a, end_b) = pipe(16);
        let _caller = activate(&mut end_a);

        let frame = Frame::request("test:inbound");
        end_b.sender().send(frame).await.unwrap();

        let received = recv(&mut end_a).await.unwrap();
        assert_eq!(received.call, "test:inbound");
    });
}

#[test]
fn the_dispatcher_is_handed_out_once() {
    let (mut end_a, _end_b) = pipe(16);
    let (_, first) = end_a.caller();
    assert!(first.is_some());
    let (_, second) = end_a.caller();
    assert!(second.is_none());
}

#[test]
fn the_dispatcher_passes_frames_on() {
    let (mut end_a, _end_b) = pipe(16);
    let (caller, dispatcher) = end_a.caller();
    let mut dispatcher = dispatcher.unwrap();
    let mut pending = PendingMap::new();
    let req = Frame::request("test:op");
    let mut stream = caller.call(&mut pending, &req);

    assert!(dispatcher.dispatch(&mut pending, req.item(no_data())));
    assert_eq!(stream.rx.try_recv().unwrap().status, Status::Item);
    assert!(pending.contains_key(req.id));

    assert!(dispatcher.dispatch(&mut pending, req.done()));
    assert_eq!(stream.rx.try_recv().unwrap().status, Status::Done);
    assert!(!pending.contains_key(req.id));

    // A response that comes too late is a stranger.
    assert!(dispatcher.dispatch(&mut pending, req.item(no_data())));
    assert!(stream.rx.try_recv().is_err());
    match &mut end_a.state {
        PipeState::Dispatched(rx) => assert_eq!(rx.try_recv().unwrap().status, Status::Item),
        PipeState::Direct(_) => panic!("not dispatched"),
    }

    // A stream that is gone ends its call with the next response.
    let stream = caller.call(&mut pending, &req);
    drop(stream.rx);
    assert!(dispatcher.dispatch(&mut pending, req.item(no_data())));
    assert!(!pending.contains_key(req.id));

    // Without the end, there is nothing left to dispatch for.
    drop(end_a);
    assert!(!dispatcher.dispatch(&mut pending, Frame::request("test:x")));
}

#[test]
fn call_stream_drop_cleans_up_pending() {
    run(async {
        let (mut end_a, _end_b) = pipe(16);
        let (caller, pending) = activate(&mut end_a);

        let req = Frame::request("test:op");
        let id = req.id;
        let stream = call(&caller, &pending, req).await.unwrap();

        {
            let guard = pending.lock().unwrap();
            assert!(guard.contains_key(id));
        }

        stream.close(&mut pending.lock().unwrap());
        drop(stream);

        {
            let guard = pending.lock().unwrap();
            assert!(!guard.contains_key(id));
        }
    });
}

#[test]
fn pipe_default_works() {
    run(async {
        let (end_a, mut end_b) = pipe_default();

        let frame = Frame::request("test:default");
        end_a.sender().send(frame).await.unwrap();

        let received = recv(&mut end_b).await.unwrap();
        assert_eq!(received.call, "test:default");
        assert_eq!(end_a.tx.max_capacity(), 256);
        assert_eq!(end_b.tx.max_capacity(), 256);
    });
}
