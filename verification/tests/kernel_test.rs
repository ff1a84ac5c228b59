use muninn_kernel::backpressure::{BackpressureConfig, Progress, SendOutcome, Subscriber};
use muninn_kernel::frame::{Frame, Status};
use muninn_kernel::kernel::{Kernel, Startup};
use muninn_kernel::pipe::{PipeEnd, PipeState};
use muninn_kernel::router::{answer_management, Action, Router};
use muninn_kernel::sender::FrameSender;
use muninn_kernel::sigcall::SigcallRegistry;
use muninn_kernel::stamp::Draws;
use muninn_kernel::table::NameTable;
use muninn_kernel::tokens::{Step, TokenTable};
use muninn_kernel::value::{no_data, Data, Number, Value};
use std::time::Duration;
use tokio::sync::mpsc;
use tokio_util::sync::CancellationToken;

fn text<'a>(data: &'a Data, key: &str) -> Option<&'a str> {
    match data.get(key) {
        Some(Value::String(s)) => Some(s.as_str()),
        _ => None,
    }
}

fn try_recv(end: &mut PipeEnd) -> Option<Frame> {
    match &mut end.state {
        PipeState::Direct(rx) => rx.try_recv().ok(),
        PipeState::Dispatched(rx) => rx.try_recv().ok(),
    }
}

/// Takes the actions of the router.
fn perform(router: &mut Router, actions: Vec<Action>) {
    for action in actions {
        match action {
            Action::Deliver { subscriber, frame } => {
                let progress = router.controller(subscriber).send(&frame);
                assert!(matches!(progress, Progress::Finished(_)));
            }
            Action::Forward { to, frame } => to.try_send(frame).unwrap(),
        }
    }
}

/// Runs the bridges and the router until no frame is on its way.
fn settle(running: &mut Startup) {
    loop {
        for bridge in running.bridges.iter_mut() {
            while let Some(frame) = try_recv(bridge) {
                running.inbound_tx.try_send(frame).unwrap();
            }
        }
        match running.inbound_rx.try_recv() {
            Ok(frame) => {
                let actions = running.router.route(&frame);
                perform(&mut running.router, actions);
            }
            Err(_) => return,
        }
    }
}

/// What a subscriber receives next.
fn receive(running: &mut Startup, subscriber: &mut Subscriber) -> Option<Frame> {
    let received = subscriber.rx.try_recv().ok();
    let controller = running.router.controller(subscriber.index);
    subscriber.recv(controller, received)
}

/// Lets a subsystem handle what has arrived. The handler gets each request.
fn serve<F: Fn(&Frame, &FrameSender, CancellationToken)>(
    running: &mut Startup,
    end: &mut PipeEnd,
    hook: usize,
    handler: F,
) {
    let sender = FrameSender::new(end.sender());
    while let Some(frame) = try_recv(end) {
        if let Step::Dispatch(token) = running.router.token_table(hook).receive(&frame) {
            handler(&frame, &sender, token);
        }
    }
}

fn emit(sender: &FrameSender, frames: Vec<Frame>) {
    for frame in frames {
        sender.tx().try_send(frame).unwrap();
    }
}

#[test]
fn kernel_routes_request_to_registered_subsystem() {
    let mut kernel = Kernel::new();
    let mut sub_end = kernel.register("test");
    let mut rx = kernel.subscribe();
    let sender = kernel.sender();

    let mut running = kernel.start();

    let req = Frame::request("test:ping");
    let req_id = req.id;
    sender.try_send(req).unwrap();
    settle(&mut running);

    let received = try_recv(&mut sub_end).unwrap();
    assert_eq!(received.id, req_id);
    assert_eq!(received.call, "test:ping");

    sub_end.sender().try_send(received.done()).unwrap();
    settle(&mut running);

    let response = receive(&mut running, &mut rx).unwrap();
    assert_eq!(response.parent_id, Some(req_id));
    assert_eq!(response.status, Status::Done);
}

#[test]
fn kernel_returns_error_for_unknown_prefix() {
    let mut kernel = Kernel::new();
    let mut rx = kernel.subscribe();
    let sender = kernel.sender();

    let mut running = kernel.start();

    let req = Frame::request("unknown:op");
    sender.try_send(req).unwrap();
    settle(&mut running);

    let response = receive(&mut running, &mut rx).unwrap();
    assert_eq!(response.status, Status::Error);
    assert!(text(&response.data, "code").unwrap_or("").contains("NO_ROUTE"));
    assert_eq!(
        text(&response.data, "message"),
        Some("E_NO_ROUTE: no handler for syscall: unknown:op")
    );
    assert_eq!(response.data.get("retryable"), Some(&Value::Bool(false)));
}

#[test]
fn kernel_routes_streaming_responses() {
    let mut kernel = Kernel::new();
    let mut sub_end = kernel.register("data");
    let mut rx = kernel.subscribe();
    let sender = kernel.sender();

    let mut running = kernel.start();

    let req = Frame::request("data:list");
    let req_id = req.id;
    sender.try_send(req).unwrap();
    settle(&mut running);

    let received = try_recv(&mut sub_end).unwrap();

    for _ in 0..3 {
        sub_end.sender().try_send(received.item(no_data())).unwrap();
    }
    sub_end.sender().try_send(received.done()).unwrap();
    settle(&mut running);

    let mut items = 0;
    let mut done = false;
    for _ in 0..4 {
        let frame = receive(&mut running, &mut rx).unwrap();
        assert_eq!(frame.parent_id, Some(req_id));
        match frame.status {
            Status::Item => items += 1,
            Status::Done => done = true,
            _ => panic!("unexpected status: {:?}", frame.status),
        }
    }
    assert_eq!(items, 3);
    assert!(done);
}

#[test]
fn kernel_register_syscall_dispatches_via_trait() {
    let mut kernel = Kernel::new();
    let (mut end, hook) = kernel.register_syscall("echo");
    let mut rx = kernel.subscribe();
    let sender = kernel.sender();

    let mut running = kernel.start();

    let req = Frame::request("echo:hello");
    let req_id = req.id;
    sender.try_send(req).unwrap();
    settle(&mut running);
    serve(&mut running, &mut end, hook, |frame, tx, _cancel| {
        emit(tx, tx.send_done(frame).frames);
    });
    settle(&mut running);

    let response = receive(&mut running, &mut rx).unwrap();
    assert_eq!(response.parent_id, Some(req_id));
    assert_eq!(response.status, Status::Done);
}

#[test]
fn kernel_register_syscall_streams() {
    let mut kernel = Kernel::new();
    let (mut end, hook) = kernel.register_syscall("stream");
    let mut rx = kernel.subscribe();
    let sender = kernel.sender();

    let mut running = kernel.start();

    let req = Frame::request("stream:data");
    let req_id = req.id;
    sender.try_send(req).unwrap();
    settle(&mut running);
    serve(&mut running, &mut end, hook, |frame, tx, _cancel| {
        for i in 0..3u64 {
            let mut data = Data::new();
            data.insert("index".into(), Value::Number(Number::PosInt(i)));
            emit(tx, tx.send(frame.item(data)).frames);
        }
        emit(tx, tx.send_done(frame).frames);
    });
    settle(&mut running);

    let mut frames = Vec::new();
    loop {
        let frame = receive(&mut running, &mut rx).unwrap();
        assert_eq!(frame.parent_id, Some(req_id));
        let terminal = frame.status.is_terminal();
        frames.push(frame);
        if terminal {
            break;
        }
    }

    assert_eq!(frames.len(), 4);
}

#[test]
fn kernel_sigcall_routes_to_registered_handler() {
    let mut kernel = Kernel::new();
    let mut rx = kernel.subscribe();
    let sender = kernel.sender();

    let (handler_tx, mut handler_rx) = mpsc::channel::<Frame>(16);
    kernel
        .sigcalls()
        .register("custom:op", "plugin-1", handler_tx)
        .unwrap();

    let mut running = kernel.start();

    let req = Frame::request("custom:op");
    let req_id = req.id;
    sender.try_send(req).unwrap();
    settle(&mut running);

    let received = handler_rx.try_recv().unwrap();
    assert_eq!(received.id, req_id);

    sender.try_send(received.done()).unwrap();
    settle(&mut running);

    let response = receive(&mut running, &mut rx).unwrap();
    assert_eq!(response.parent_id, Some(req_id));
    assert_eq!(response.status, Status::Done);
}

#[test]
fn kernel_sigcall_list() {
    let mut kernel = Kernel::new();
    let mut rx = kernel.subscribe();
    let sender = kernel.sender();

    let (handler_tx, _handler_rx) = mpsc::channel::<Frame>(16);
    kernel
        .sigcalls()
        .register("custom:a", "owner-1", handler_tx.clone())
        .unwrap();
    kernel
        .sigcalls()
        .register("custom:b", "owner-2", handler_tx)
        .unwrap();

    let mut running = kernel.start();

    let req = Frame::request("sigcall:list");
    sender.try_send(req).unwrap();
    settle(&mut running);

    let mut items = Vec::new();
    loop {
        let frame = receive(&mut running, &mut rx).unwrap();
        let terminal = frame.status.is_terminal();
        if frame.status == Status::Item {
            items.push(frame);
        }
        if terminal {
            break;
        }
    }

    assert_eq!(items.len(), 2);
    let mut names: Vec<(String, String)> = items
        .iter()
        .map(|f| {
            (
                text(&f.data, "name").unwrap().to_string(),
                text(&f.data, "owner").unwrap().to_string(),
            )
        })
        .collect();
    names.sort();
    assert_eq!(names[0], ("custom:a".into(), "owner-1".into()));
    assert_eq!(names[1], ("custom:b".into(), "owner-2".into()));
    assert_ne!(items[0].id, items[1].id);
}

#[test]
fn kernel_cancel_cleans_up_routing_state() {
    let mut kernel = Kernel::new();
    let mut sub_end = kernel.register("slow");
    let mut rx = kernel.subscribe();
    let sender = kernel.sender();

    let mut running = kernel.start();

    let req = Frame::request("slow:work");
    let req_id = req.id;
    sender.try_send(req).unwrap();
    settle(&mut running);

    let received = try_recv(&mut sub_end).unwrap();

    let cancel = Frame::request("slow:work").cancel();
    let mut cancel_frame = cancel;
    cancel_frame.parent_id = Some(req_id);
    sender.try_send(cancel_frame).unwrap();
    settle(&mut running);

    let cancel_received = try_recv(&mut sub_end).unwrap();
    assert_eq!(cancel_received.status, Status::Cancel);

    // A response that comes after the cancellation reaches nobody.
    sub_end.sender().try_send(received.done()).unwrap();
    settle(&mut running);

    let req2 = Frame::request("slow:other");
    let req2_id = req2.id;
    sender.try_send(req2).unwrap();
    settle(&mut running);

    let received2 = try_recv(&mut sub_end).unwrap();
    sub_end.sender().try_send(received2.done()).unwrap();
    settle(&mut running);

    let response = receive(&mut running, &mut rx).unwrap();
    assert_eq!(response.parent_id, Some(req2_id));
}

#[test]
fn kernel_cancel_triggers_token_for_syscall_handler() {
    let mut kernel = Kernel::new();
    let (mut end, hook) = kernel.register_syscall("slow");
    let _rx = kernel.subscribe();
    let sender = kernel.sender();

    let mut running = kernel.start();

    let req = Frame::request("slow:work");
    let req_id = req.id;
    sender.try_send(req).unwrap();
    settle(&mut running);

    let frame = try_recv(&mut end).unwrap();
    let token = match running.router.token_table(hook).receive(&frame) {
        Step::Dispatch(token) => token,
        Step::Skip => panic!("not dispatched"),
    };
    assert!(!token.is_cancelled());

    let mut cancel_frame = Frame::request("slow:work");
    cancel_frame.status = Status::Cancel;
    cancel_frame.parent_id = Some(req_id);
    sender.try_send(cancel_frame).unwrap();
    settle(&mut running);

    // The token is triggered before the subsystem has read the cancel frame.
    assert!(token.is_cancelled());
    let cancel = try_recv(&mut end).unwrap();
    assert_eq!(cancel.status, Status::Cancel);
    assert!(matches!(
        running.router.token_table(hook).receive(&cancel),
        Step::Skip
    ));
    running.router.token_table(hook).finish(req_id);
    assert!(token.is_cancelled());
}

#[test]
fn a_cancel_frame_triggers_a_token_by_itself() {
    let mut table = TokenTable::new();
    let req = Frame::request("slow:work");
    let other = Frame::request("slow:work");
    let token = match table.receive(&req) {
        Step::Dispatch(token) => token,
        Step::Skip => panic!("not dispatched"),
    };
    let kept = table.begin(other.id);
    assert!(matches!(table.receive(&req.item(no_data())), Step::Skip));
    assert!(!token.is_cancelled());
    assert!(matches!(table.receive(&req.cancel()), Step::Skip));
    assert!(token.is_cancelled());
    assert!(!kept.is_cancelled());
    table.finish(other.id);
    table.cancel(other.id);
    assert!(!kept.is_cancelled());
}

#[test]
fn subsystems_come_before_handlers() {
    let mut kernel = Kernel::default();
    let mut end = kernel.register("custom");
    let (handler_tx, mut handler_rx) = mpsc::channel::<Frame>(16);
    kernel
        .sigcalls()
        .register("custom:op", "plugin", handler_tx)
        .unwrap();
    let sender = kernel.sender();
    let mut running = kernel.start();
    sender.try_send(Frame::request("custom:op")).unwrap();
    settle(&mut running);
    assert!(try_recv(&mut end).is_some());
    assert!(handler_rx.try_recv().is_err());
}

#[test]
fn management_goes_to_no_subsystem() {
    let mut kernel = Kernel::new();
    let mut end = kernel.register("sigcall");
    let mut rx = kernel.subscribe();
    let sender = kernel.sender();
    let mut running = kernel.start();
    for call in ["sigcall:register", "sigcall:unregister", "sigcall:frobnicate", "sigcall"] {
        sender.try_send(Frame::request(call)).unwrap();
    }
    settle(&mut running);
    assert!(try_recv(&mut end).is_none());
    let refused = "sigcall:register and sigcall:unregister must be called through the SigcallRegistry API directly";
    for expected in [
        refused,
        refused,
        "unknown sigcall operation: frobnicate",
        "unknown sigcall operation: ",
    ] {
        let response = receive(&mut running, &mut rx).unwrap();
        assert_eq!(response.status, Status::Error);
        assert_eq!(text(&response.data, "code"), Some("E_INTERNAL"));
        assert_eq!(text(&response.data, "message"), Some(expected));
    }
}

#[test]
fn listing_no_handlers_is_just_done() {
    let registry = SigcallRegistry::new();
    let req = Frame::request("sigcall:list");
    let mut draws = Draws::new();
    let answer = answer_management(&registry, &req, &mut draws);
    assert_eq!(answer.len(), 1);
    assert_eq!(answer[0].status, Status::Done);
    assert_eq!(answer[0].parent_id, Some(req.id));
}

#[test]
fn every_subscriber_gets_every_response() {
    let mut kernel = Kernel::with_backpressure(BackpressureConfig {
        high_watermark: 2,
        low_watermark: 1,
        stall_timeout: Duration::from_millis(10),
    });
    let end = kernel.register("a");
    let mut first = kernel.subscribe();
    let mut second = kernel.subscribe();
    assert_eq!((first.index, second.index), (0, 1));
    let sender = kernel.sender();
    let mut running = kernel.start();
    assert_eq!(running.router.subscribers(), 2);
    assert_eq!(running.router.controller(0).config().high_watermark, 2);
    let req = Frame::request("a:b");
    sender.try_send(req.clone()).unwrap();
    settle(&mut running);
    let item = req.item(no_data());
    end.sender().try_send(item.clone()).unwrap();
    settle(&mut running);
    assert_eq!(running.router.controller(0).buffered(req.id), 1);
    assert_eq!(receive(&mut running, &mut first).unwrap().id, item.id);
    assert_eq!(running.router.controller(0).buffered(req.id), 0);
    assert_eq!(running.router.controller(1).buffered(req.id), 1);
    assert_eq!(receive(&mut running, &mut second).unwrap().id, item.id);
    assert!(receive(&mut running, &mut first).is_none());
}

#[test]
fn responses_that_nobody_waits_for_are_dropped() {
    let mut kernel = Kernel::new();
    let end = kernel.register("a");
    let mut rx = kernel.subscribe();
    let sender = kernel.sender();
    let mut running = kernel.start();
    let stranger = Frame::request("a:b");
    end.sender().try_send(stranger.item(no_data())).unwrap();
    let req = Frame::request("a:b");
    sender.try_send(req.clone()).unwrap();
    settle(&mut running);
    end.sender().try_send(req.done()).unwrap();
    end.sender().try_send(req.item(no_data())).unwrap();
    let mut orphan = req.item(no_data());
    orphan.parent_id = None;
    end.sender().try_send(orphan).unwrap();
    settle(&mut running);
    assert_eq!(receive(&mut running, &mut rx).unwrap().status, Status::Done);
    assert!(receive(&mut running, &mut rx).is_none());
}

#[test]
fn cancelling_what_is_not_active_does_nothing() {
    let mut router = Router::new(
        NameTable::new(),
        NameTable::new(),
        Vec::new(),
        Vec::new(),
        SigcallRegistry::new(),
    );
    let req = Frame::request("a:b");
    assert!(router.route(&req.cancel()).is_empty());
    let mut cancel = req.cancel();
    cancel.parent_id = None;
    assert!(router.route(&cancel).is_empty());
}

#[test]
fn a_cancel_frame_is_lost_if_the_subsystem_has_no_room() {
    let mut routes = NameTable::new();
    let (tx, mut rx) = mpsc::channel(1);
    routes.insert("a".to_string(), tx);
    let mut router = Router::new(
        routes,
        NameTable::new(),
        Vec::new(),
        Vec::new(),
        SigcallRegistry::new(),
    );
    let req = Frame::request("a:b");
    let actions = router.route(&req);
    perform(&mut router, actions);
    assert!(router.route(&req.cancel()).is_empty());
    assert_eq!(rx.try_recv().unwrap().status, Status::Request);
    assert!(rx.try_recv().is_err());
}

#[test]
fn registering_a_prefix_again_replaces_its_subsystem() {
    let mut kernel = Kernel::new();
    let mut old = kernel.register("a");
    let mut new = kernel.register("a");
    let sender = kernel.sender();
    let mut running = kernel.start();
    assert_eq!(running.bridges.len(), 2);
    sender.try_send(Frame::request("a:b")).unwrap();
    settle(&mut running);
    assert!(try_recv(&mut old).is_none());
    assert!(try_recv(&mut new).is_some());
}

#[test]
fn delivery_outcomes_do_not_stop_the_router() {
    let mut kernel = Kernel::new();
    let rx = kernel.subscribe();
    let mut running = kernel.start();
    drop(rx);
    let actions = running.router.route(&Frame::request("nobody:here"));
    assert_eq!(actions.len(), 1);
    match &actions[0] {
        Action::Deliver { subscriber, frame } => {
            let progress = running.router.controller(*subscriber).send(frame);
            assert!(matches!(progress, Progress::Finished(SendOutcome::Closed)));
        }
        Action::Forward { .. } => panic!("forwarded"),
    }
}

#[test]
fn kernel_channels_hold_what_they_should() {
    let mut kernel = Kernel::new();
    assert_eq!(kernel.sender().max_capacity(), 256);
    let end = kernel.register("a");
    assert_eq!(end.tx.max_capacity(), 256);
    let (_end, hook) = kernel.register_syscall("b");
    assert_eq!(hook, 0);
    let token = kernel.token_table(hook).begin(7);
    kernel.token_table(hook).cancel(7);
    assert!(token.is_cancelled());
    let subscriber = kernel.subscribe();
    assert_eq!(subscriber.rx.max_capacity(), 256);
    let mut running = kernel.start();
    assert!(running.router.sigcalls().is_empty());
}

#[test]
fn requests_do_not_disturb_each_other() {
    let mut kernel = Kernel::new();
    let end = kernel.register("a");
    let mut rx = kernel.subscribe();
    let sender = kernel.sender();
    let mut running = kernel.start();
    let first = Frame::request("a:first");
    let second = Frame::request("a:second");
    sender.try_send(first.clone()).unwrap();
    sender.try_send(second.clone()).unwrap();
    settle(&mut running);
    end.sender().try_send(first.done()).unwrap();
    settle(&mut running);
    end.sender().try_send(second.item(no_data())).unwrap();
    end.sender().try_send(second.done()).unwrap();
    settle(&mut running);
    let received: Vec<_> = (0..3)
        .map(|_| receive(&mut running, &mut rx).unwrap())
        .map(|frame| (frame.parent_id.unwrap(), frame.status))
        .collect();
    assert_eq!(
        received,
        vec![
            (first.id, Status::Done),
            (second.id, Status::Item),
            (second.id, Status::Done),
        ]
    );
}

#[test]
fn handlers_serve_exact_calls_only() {
    let mut kernel = Kernel::new();
    let mut rx = kernel.subscribe();
    let (handler_tx, mut handler_rx) = mpsc::channel::<Frame>(16);
    kernel
        .sigcalls()
        .register("custom:op", "plugin", handler_tx)
        .unwrap();
    let sender = kernel.sender();
    let mut running = kernel.start();
    sender.try_send(Frame::request("custom:other")).unwrap();
    settle(&mut running);
    assert!(handler_rx.try_recv().is_err());
    assert_eq!(receive(&mut running, &mut rx).unwrap().status, Status::Error);
    // Handlers can come and go while the router runs.
    running.router.sigcalls().unregister_all("plugin");
    sender.try_send(Frame::request("custom:op")).unwrap();
    settle(&mut running);
    assert_eq!(receive(&mut running, &mut rx).unwrap().status, Status::Error);
}

#[test]
fn a_router_that_shut_down_lets_go_of_its_channels() {
    let mut kernel = Kernel::new();
    let mut end = kernel.register("a");
    let mut rx = kernel.subscribe();
    let (handler_tx, _handler_rx) = mpsc::channel::<Frame>(16);
    kernel.sigcalls().register("b:c", "plugin", handler_tx).unwrap();
    let running = kernel.start();
    let mut halted = running.router.shut_down();
    drop(running.bridges);
    assert_eq!(halted.subscribers(), 0);
    assert_eq!(halted.sigcalls().len(), 1);
    assert!(matches!(
        rx.rx.try_recv(),
        Err(mpsc::error::TryRecvError::Disconnected)
    ));
    match &mut end.state {
        PipeState::Direct(rx) => assert!(matches!(
            rx.try_recv(),
            Err(mpsc::error::TryRecvError::Disconnected)
        )),
        PipeState::Dispatched(_) => panic!("dispatched"),
    }
}
