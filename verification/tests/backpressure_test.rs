use muninn_kernel::backpressure::{
    BackpressureConfig, FlowState, Progress, SendOutcome, StreamController, Subscriber, Waited,
};
use muninn_kernel::channel::TrySend;
use muninn_kernel::frame::{Frame, Status};
use muninn_kernel::value::no_data;
use std::future::Future;
use std::sync::{Arc, Mutex};
use std::time::Duration;
use tokio::sync::mpsc;

fn run<F: Future>(future: F) -> F::Output {
    tokio::runtime::Builder::new_current_thread()
        .enable_time()
        .build()
        .unwrap()
        .block_on(future)
}

/// Sends a frame, and waits for room where that is called for.
async fn send(ctrl: &mut StreamController, frame: &Frame) -> SendOutcome {
    match ctrl.send(frame) {
        Progress::Finished(outcome) => outcome,
        Progress::MustWait => {
            let sending = ctrl.sender().send(frame.clone());
            let waited = match tokio::time::timeout(ctrl.config().stall_timeout, sending).await {
                Ok(Ok(())) => Waited::Sent,
                Ok(Err(_)) => Waited::Closed,
                Err(_) => Waited::TimedOut,
            };
            ctrl.after_wait(frame, waited)
        }
    }
}

fn small_config() -> BackpressureConfig {
    BackpressureConfig {
        high_watermark: 3,
        low_watermark: 1,
        stall_timeout: Duration::from_millis(100),
    }
}

#[test]
fn flowing_delivers_immediately() {
    run(async {
        let (tx, mut rx) = mpsc::channel(16);
        let mut ctrl = StreamController::new(tx, small_config());

        let req = Frame::request("test:op");
        let item = req.item(no_data());

        let outcome = send(&mut ctrl, &item).await;
        assert_eq!(outcome, SendOutcome::Delivered);

        let received = rx.recv().await.unwrap();
        assert_eq!(received.status, Status::Item);
        assert_eq!(received.id, item.id);
    });
}

#[test]
fn tracks_buffered_count() {
    run(async {
        let (tx, _rx) = mpsc::channel(16);
        let mut ctrl = StreamController::new(tx, small_config());

        let req = Frame::request("test:op");
        let stream_id = req.id;

        for _ in 0..3 {
            let item = req.item(no_data());
            send(&mut ctrl, &item).await;
        }

        assert_eq!(ctrl.buffered(stream_id), 3);
    });
}

#[test]
fn terminal_frame_cleans_up_stream() {
    run(async {
        let (tx, _rx) = mpsc::channel(16);
        let mut ctrl = StreamController::new(tx, small_config());

        let req = Frame::request("test:op");
        let stream_id = req.id;

        for _ in 0..2 {
            send(&mut ctrl, &req.item(no_data())).await;
        }
        assert_eq!(ctrl.buffered(stream_id), 2);

        let done = req.done();
        let outcome = send(&mut ctrl, &done).await;
        assert_eq!(outcome, SendOutcome::Delivered);
        assert_eq!(ctrl.buffered(stream_id), 0);
    });
}

#[test]
fn closed_channel_returns_closed() {
    run(async {
        let (tx, rx) = mpsc::channel(16);
        let mut ctrl = StreamController::new(tx, small_config());
        drop(rx);

        let req = Frame::request("test:op");
        let item = req.item(no_data());

        let outcome = send(&mut ctrl, &item).await;
        assert_eq!(outcome, SendOutcome::Closed);
        assert_eq!(ctrl.buffered(req.id), 0);
    });
}

#[test]
fn stall_timeout_returns_stalled() {
    run(async {
        let (tx, _rx) = mpsc::channel(1);
        let config = BackpressureConfig {
            high_watermark: 1,
            low_watermark: 0,
            stall_timeout: Duration::from_millis(50),
        };
        let mut ctrl = StreamController::new(tx, config);

        let req = Frame::request("test:op");

        let outcome = send(&mut ctrl, &req.item(no_data())).await;
        assert_eq!(outcome, SendOutcome::Delivered);

        let outcome = send(&mut ctrl, &req.item(no_data())).await;
        assert_eq!(outcome, SendOutcome::Stalled);
        assert_eq!(ctrl.buffered(req.id), 1);
    });
}

#[test]
fn full_channel_makes_even_a_flowing_stream_wait() {
    let (tx, _rx) = mpsc::channel(1);
    let mut ctrl = StreamController::new(tx, small_config());
    let req = Frame::request("test:op");
    assert!(matches!(
        ctrl.send(&req.item(no_data())),
        Progress::Finished(SendOutcome::Delivered)
    ));
    assert!(matches!(ctrl.send(&req.item(no_data())), Progress::MustWait));
    // Even a last frame waits, and its stream is forgotten though it stalls.
    let done = req.done();
    assert!(matches!(ctrl.send(&done), Progress::MustWait));
    assert_eq!(ctrl.after_wait(&done, Waited::TimedOut), SendOutcome::Stalled);
    assert_eq!(ctrl.buffered(req.id), 0);
}

#[test]
fn ack_stream_resets_count() {
    run(async {
        let (tx, _rx) = mpsc::channel(16);
        let mut ctrl = StreamController::new(tx, small_config());

        let req = Frame::request("test:op");
        let stream_id = req.id;

        for _ in 0..3 {
            send(&mut ctrl, &req.item(no_data())).await;
        }
        assert_eq!(ctrl.buffered(stream_id), 3);

        ctrl.ack_stream(stream_id);
        assert_eq!(ctrl.buffered(stream_id), 0);
    });
}

#[test]
fn frames_without_parent_id_always_deliver() {
    run(async {
        let (tx, _rx) = mpsc::channel(16);
        let mut ctrl = StreamController::new(tx, small_config());

        let req = Frame::request("test:op");
        let outcome = send(&mut ctrl, &req).await;
        assert_eq!(outcome, SendOutcome::Delivered);
    });
}

#[test]
fn high_watermark_triggers_backpressure() {
    run(async {
        let (tx, mut rx) = mpsc::channel(16);
        let config = BackpressureConfig {
            high_watermark: 2,
            low_watermark: 1,
            stall_timeout: Duration::from_millis(100),
        };
        let mut ctrl = StreamController::new(tx, config);

        let req = Frame::request("test:op");

        for _ in 0..2 {
            let outcome = send(&mut ctrl, &req.item(no_data())).await;
            assert_eq!(outcome, SendOutcome::Delivered);
        }
        assert_eq!(ctrl.buffered(req.id), 2);
        assert_eq!(ctrl.flow_state(&req.item(no_data())), FlowState::Paused);

        let outcome = send(&mut ctrl, &req.item(no_data())).await;
        assert_eq!(outcome, SendOutcome::Delivered);
        assert_eq!(ctrl.buffered(req.id), 3);

        for _ in 0..3 {
            rx.recv().await.unwrap();
        }
    });
}

#[test]
fn a_paused_stream_resumes_below_the_low_watermark() {
    let (tx, _rx) = mpsc::channel(16);
    let config = BackpressureConfig {
        high_watermark: 4,
        low_watermark: 2,
        stall_timeout: Duration::from_millis(100),
    };
    let mut ctrl = StreamController::new(tx, config);
    let req = Frame::request("test:op");
    for _ in 0..4 {
        ctrl.send(&req.item(no_data()));
    }
    let item = req.item(no_data());
    assert_eq!(ctrl.flow_state(&item), FlowState::Paused);
    ctrl.ack_frame(&item);
    ctrl.ack_frame(&item);
    // At the low watermark, the stream still waits.
    assert_eq!(ctrl.buffered(req.id), 2);
    assert_eq!(ctrl.flow_state(&item), FlowState::Paused);
    ctrl.ack_frame(&item);
    assert_eq!(ctrl.buffered(req.id), 1);
    assert_eq!(ctrl.flow_state(&item), FlowState::Flowing);
    // On the way up, it flows until the high watermark.
    ctrl.send(&item);
    ctrl.send(&item);
    assert_eq!(ctrl.buffered(req.id), 3);
    assert_eq!(ctrl.flow_state(&item), FlowState::Flowing);
    ctrl.send(&item);
    assert_eq!(ctrl.flow_state(&item), FlowState::Paused);
    // A last frame and a request flow, whatever the stream does.
    assert_eq!(ctrl.flow_state(&req.done()), FlowState::Flowing);
    assert_eq!(ctrl.flow_state(&req), FlowState::Flowing);
}

#[test]
fn a_stream_without_buffered_frames_flows_under_any_low_watermark() {
    let (tx, _rx) = mpsc::channel(16);
    let config = BackpressureConfig {
        high_watermark: 1,
        low_watermark: 0,
        stall_timeout: Duration::from_millis(100),
    };
    let mut ctrl = StreamController::new(tx, config);
    let req = Frame::request("test:op");
    let item = req.item(no_data());
    ctrl.send(&item);
    assert_eq!(ctrl.flow_state(&item), FlowState::Paused);
    ctrl.ack_frame(&item);
    assert_eq!(ctrl.buffered(req.id), 0);
    assert_eq!(ctrl.flow_state(&item), FlowState::Flowing);
    ctrl.ack_frame(&item);
    assert_eq!(ctrl.buffered(req.id), 0);
}

#[test]
fn a_delivered_frame_arrives_once_and_a_paused_one_not_yet() {
    let (tx, mut rx) = mpsc::channel(16);
    let mut ctrl = StreamController::new(tx, small_config());
    let req = Frame::request("test:op");
    for _ in 0..3 {
        let item = req.item(no_data());
        ctrl.send(&item);
        assert_eq!(rx.try_recv().unwrap().id, item.id);
        assert!(rx.try_recv().is_err());
    }
    assert!(matches!(ctrl.send(&req.item(no_data())), Progress::MustWait));
    assert!(rx.try_recv().is_err());
}

#[test]
fn what_counts_as_buffered_waits_in_the_channel() {
    let (tx, rx) = mpsc::channel(16);
    let mut ctrl = StreamController::new(tx, small_config());
    let mut subscriber = Subscriber::new(rx, 0);
    let req = Frame::request("test:op");
    ctrl.send(&req.item(no_data()));
    ctrl.send(&req.item(no_data()));
    ctrl.send(&req.done());
    ctrl.send(&req.item(no_data()));
    let mut waiting = 3;
    assert!(ctrl.buffered(req.id) <= waiting);
    while let Ok(frame) = subscriber.rx.try_recv() {
        if !frame.status.is_terminal() {
            waiting -= 1;
        }
        subscriber.recv(&mut ctrl, Some(frame));
        assert!(ctrl.buffered(req.id) <= waiting);
    }
    assert_eq!(ctrl.buffered(req.id), 0);
}

#[test]
fn multiple_streams_tracked_independently() {
    run(async {
        let (tx, _rx) = mpsc::channel(32);
        let mut ctrl = StreamController::new(tx, small_config());

        let req_a = Frame::request("test:a");
        let req_b = Frame::request("test:b");

        for _ in 0..2 {
            send(&mut ctrl, &req_a.item(no_data())).await;
        }
        send(&mut ctrl, &req_b.item(no_data())).await;

        assert_eq!(ctrl.buffered(req_a.id), 2);
        assert_eq!(ctrl.buffered(req_b.id), 1);

        send(&mut ctrl, &req_a.done()).await;
        assert_eq!(ctrl.buffered(req_a.id), 0);
        assert_eq!(ctrl.buffered(req_b.id), 1);
    });
}

#[test]
fn default_config_values() {
    let config = BackpressureConfig::default();
    assert_eq!(config.high_watermark, 1000);
    assert_eq!(config.low_watermark, 100);
    assert_eq!(config.stall_timeout, Duration::from_secs(5));
    let (tx, _rx) = mpsc::channel(1);
    let ctrl = StreamController::with_defaults(tx);
    assert_eq!(ctrl.config().high_watermark, 1000);
    assert_eq!(ctrl.config().low_watermark, 100);
    assert_eq!(ctrl.config().stall_timeout, Duration::from_secs(5));
}

#[test]
fn backpressure_test_clone_shares_state() {
    run(async {
        let (tx, _rx) = mpsc::channel(16);
        let ctrl = Arc::new(Mutex::new(StreamController::new(tx, small_config())));
        let ctrl2 = Arc::clone(&ctrl);

        let req = Frame::request("test:op");
        send(&mut ctrl.lock().unwrap(), &req.item(no_data())).await;

        assert_eq!(ctrl2.lock().unwrap().buffered(req.id), 1);
    });
}

#[test]
fn subscriber_acknowledges_what_it_takes() {
    let (tx, rx) = mpsc::channel(16);
    let mut ctrl = StreamController::new(tx, small_config());
    let mut subscriber = Subscriber::new(rx, 0);
    let req = Frame::request("test:op");
    ctrl.send(&req.item(no_data()));
    ctrl.send(&req.item(no_data()));
    assert_eq!(ctrl.buffered(req.id), 2);
    let received = subscriber.rx.try_recv().ok();
    let frame = subscriber.recv(&mut ctrl, received).unwrap();
    assert_eq!(frame.parent_id, Some(req.id));
    assert_eq!(ctrl.buffered(req.id), 1);
    assert!(subscriber.recv(&mut ctrl, None).is_none());
    assert_eq!(ctrl.buffered(req.id), 1);
}

#[test]
fn outcomes_of_trying_and_waiting() {
    let (tx, _rx) = mpsc::channel(16);
    let mut ctrl = StreamController::new(tx, small_config());
    let req = Frame::request("test:op");
    let item = req.item(no_data());
    assert!(matches!(
        ctrl.after_try(&item, TrySend::Sent),
        Progress::Finished(SendOutcome::Delivered)
    ));
    assert_eq!(ctrl.buffered(req.id), 1);
    assert!(matches!(ctrl.after_try(&item, TrySend::Full), Progress::MustWait));
    assert!(matches!(
        ctrl.after_try(&item, TrySend::Closed),
        Progress::Finished(SendOutcome::Closed)
    ));
    assert_eq!(ctrl.after_wait(&item, Waited::Closed), SendOutcome::Closed);
    assert_eq!(ctrl.after_wait(&item, Waited::TimedOut), SendOutcome::Stalled);
    assert_eq!(ctrl.buffered(req.id), 1);
    assert_eq!(ctrl.after_wait(&item, Waited::Sent), SendOutcome::Delivered);
    assert_eq!(ctrl.buffered(req.id), 2);
}
