//! Laws of flow control.
use crate::backpressure::BackpressureConfig;
use crate::backpressure::Flow;
use crate::backpressure::FlowState;
use crate::backpressure::Progress;
use crate::backpressure::SendOutcome;
use crate::backpressure::StreamController;
use crate::backpressure::Subscriber;
use crate::backpressure::Waited;
use crate::channel::Handing;
use crate::channel::TrySend;
use crate::frame::Frame;
use crate::frame::FrameId;
use crate::frame::Status;
use tokio::sync::mpsc;
use vstd::prelude::*;

verus! {

/// The default settings.
pub proof fn law_default_settings(config: BackpressureConfig)
    requires
        call_ensures(<BackpressureConfig as Default>::default, (), config),
    ensures
        config.high_watermark == 1000,
        config.low_watermark == 100,
        config.stall_timeout == crate::backpressure::seconds_span(5),
{
}

/// A new controller has the sender and the settings that it was made with, in all
/// of their fields, and nothing is buffered, paused or handed over.
pub proof fn law_new_controllers(
    tx: mpsc::Sender<Frame>,
    config: BackpressureConfig,
    controller: StreamController,
    plain: StreamController,
    stream: FrameId,
)
    requires
        call_ensures(StreamController::new, (tx, config), controller),
        call_ensures(StreamController::with_defaults, (tx,), plain),
    ensures
        controller.settings().high_watermark == config.high_watermark,
        controller.settings().low_watermark == config.low_watermark,
        controller.settings().stall_timeout == config.stall_timeout,
        controller@.high == config.high_watermark,
        controller@.low == config.low_watermark,
        plain.settings().high_watermark == 1000,
        plain.settings().low_watermark == 100,
        plain.settings().stall_timeout == crate::backpressure::seconds_span(5),
        plain@.high == 1000,
        plain@.low == 100,
        forall|c: StreamController| #![trigger c.record()]
            c == controller || c == plain ==> {
                &&& c.guarded() == tx
                &&& c.record() == Seq::<Handing>::empty()
                &&& !c@.counts.contains_key(stream)
                &&& !c@.paused.contains(stream)
            },
{
}

/// What a controller tells of itself.
pub proof fn law_controllers_tell_themselves(
    controller: StreamController,
    stream: FrameId,
    count: usize,
    tx: &mpsc::Sender<Frame>,
    config: BackpressureConfig,
)
    requires
        call_ensures(StreamController::buffered, (&controller, stream), count),
        call_ensures(StreamController::sender, (&controller,), tx),
        call_ensures(StreamController::config, (&controller,), config),
    ensures
        controller@.counts.contains_key(stream) ==> count == controller@.counts[stream],
        !controller@.counts.contains_key(stream) ==> count == 0,
        count == controller@.buffered(stream),
        *tx == controller.guarded(),
        config == controller.settings(),
{
}

/// No operation changes the sender or the settings of a controller.
pub proof fn law_setup_of_a_controller_stays(
    controller: &mut StreamController,
    frame: &Frame,
    stream: FrameId,
    progress: Progress,
    state: FlowState,
    tried: TrySend,
    waited: Waited,
    outcome: SendOutcome,
    subscriber: Subscriber,
    received: Option<Frame>,
    taken: Option<Frame>,
)
    requires
        ({
            ||| call_ensures(StreamController::send, (controller, frame), progress)
            ||| call_ensures(StreamController::flow_state, (controller, frame), state)
            ||| call_ensures(StreamController::after_try, (controller, frame, tried), progress)
            ||| call_ensures(StreamController::after_wait, (controller, frame, waited), outcome)
            ||| call_ensures(StreamController::ack_stream, (controller, stream), ())
            ||| call_ensures(StreamController::ack_frame, (controller, frame), ())
            ||| call_ensures(Subscriber::recv, (&subscriber, controller, received), taken)
        }),
    ensures
        final(controller).guarded() == old(controller).guarded(),
        final(controller).settings() == old(controller).settings(),
        final(controller)@.high == old(controller)@.high,
        final(controller)@.low == old(controller)@.low,
{
}

/// Only sending and reporting a wait hand frames over.
pub proof fn law_nothing_else_is_handed_over(
    controller: &mut StreamController,
    frame: &Frame,
    stream: FrameId,
    progress: Progress,
    state: FlowState,
    tried: TrySend,
    subscriber: Subscriber,
    received: Option<Frame>,
    taken: Option<Frame>,
)
    requires
        ({
            ||| call_ensures(StreamController::flow_state, (controller, frame), state)
            ||| call_ensures(StreamController::after_try, (controller, frame, tried), progress)
            ||| call_ensures(StreamController::ack_stream, (controller, stream), ())
            ||| call_ensures(StreamController::ack_frame, (controller, frame), ())
            ||| call_ensures(Subscriber::recv, (&subscriber, controller, received), taken)
        }),
    ensures
        final(controller).record() == old(controller).record(),
{
}

/// Which stream an operation is about: no other one is counted, forgotten, paused
/// or resumed by it.
pub proof fn law_other_streams_stay(
    controller: &mut StreamController,
    frame: &Frame,
    stream: FrameId,
    progress: Progress,
    state: FlowState,
    tried: TrySend,
    waited: Waited,
    outcome: SendOutcome,
    other: FrameId,
)
    requires
        frame.parent_id != Some(other),
        stream != other,
        ({
            ||| call_ensures(StreamController::send, (controller, frame), progress)
            ||| call_ensures(StreamController::flow_state, (controller, frame), state)
            ||| call_ensures(StreamController::after_try, (controller, frame, tried), progress)
            ||| call_ensures(StreamController::after_wait, (controller, frame, waited), outcome)
            ||| call_ensures(StreamController::ack_stream, (controller, stream), ())
            ||| call_ensures(StreamController::ack_frame, (controller, frame), ())
        }),
    ensures
        final(controller)@.counts.contains_key(other) == old(controller)@.counts.contains_key(
            other,
        ),
        old(controller)@.counts.contains_key(other) ==> final(controller)@.counts[other] == old(controller)@.counts[other],
        final(controller)@.paused.contains(other) == old(controller)@.paused.contains(other),
{
}

/// How a frame within a stream is handed over. A stream that flows is paused as
/// soon as as many frames are buffered as the high watermark says. A paused one is
/// resumed as soon as fewer are buffered than the low watermark says, or none.
pub proof fn law_pausing(
    controller: &mut StreamController,
    frame: &Frame,
    stream: FrameId,
    state: FlowState,
    count: usize,
    was_paused: bool,
)
    requires
        call_ensures(StreamController::flow_state, (controller, frame), state),
        call_ensures(StreamController::buffered, (&*old(controller), stream), count),
        frame.parent_id == Some(stream),
        frame.status != Status::Done,
        frame.status != Status::Error,
        frame.status != Status::Cancel,
        was_paused == old(controller)@.paused.contains(stream),
    ensures
        !was_paused ==> (state == FlowState::Paused <==> count >= old(controller)@.high),
        was_paused ==> (state == FlowState::Flowing <==> count < old(controller)@.low || count
            == 0),
        final(controller)@.paused.contains(stream) <==> state == FlowState::Paused,
        final(controller)@.counts == old(controller)@.counts,
{
}

/// A frame that ends its stream, or belongs to none, flows, and nothing changes.
pub proof fn law_other_frames_always_flow(
    controller: &mut StreamController,
    frame: &Frame,
    state: FlowState,
)
    requires
        call_ensures(StreamController::flow_state, (controller, frame), state),
        frame.parent_id is None || frame.status == Status::Done || frame.status == Status::Error
            || frame.status == Status::Cancel,
    ensures
        state == FlowState::Flowing,
        final(controller)@ == old(controller)@,
{
}

/// Sending a frame: if it has to wait for its stream, nothing is handed over. If
/// it flows, it is handed to the guarded sender once, and what comes back decides:
/// taken is delivered, no room is to wait, and closed is closed.
pub proof fn law_sending(
    controller: &mut StreamController,
    frame: &Frame,
    progress: Progress,
    twin: &mut StreamController,
    state: FlowState,
)
    requires
        call_ensures(StreamController::send, (controller, frame), progress),
        call_ensures(StreamController::flow_state, (twin, frame), state),
        old(twin)@ == old(controller)@,
    ensures
        state == FlowState::Paused ==> {
            &&& progress == Progress::MustWait
            &&& final(controller).record() == old(controller).record()
            &&& final(controller)@ == final(twin)@
        },
        state == FlowState::Flowing ==> exists|outcome: TrySend|
            {
                &&& #[trigger] crate::channel::tried(
                    old(controller).guarded(),
                    frame@,
                    outcome,
                )
                &&& final(controller).record() == old(controller).record().push(
                    Handing::Tried { tx: old(controller).guarded(), frame: frame@, outcome },
                )
                &&& outcome == TrySend::Sent ==> progress == Progress::Finished(
                    SendOutcome::Delivered,
                )
                &&& outcome == TrySend::Closed ==> progress == Progress::Finished(
                    SendOutcome::Closed,
                )
                &&& outcome == TrySend::Full ==> progress == Progress::MustWait && final(controller)@ == final(twin)@
            },
{
    if state == FlowState::Flowing {
        let outcome = choose|outcome: TrySend|
            {
                &&& #[trigger] crate::channel::tried(old(controller).guarded(), frame@, outcome)
                &&& final(controller).record() == old(controller).record()
                    + crate::backpressure::try_record(
                    old(controller).guarded(),
                    frame@,
                    outcome,
                )
                &&& progress == crate::backpressure::after_try_spec(outcome)
                &&& final(controller)@ == match progress {
                    Progress::Finished(sent) => old(controller)@.prepared(frame@).settled(
                        frame@,
                        sent,
                    ),
                    Progress::MustWait => old(controller)@.prepared(frame@),
                }
            };
        assert(crate::channel::tried(old(controller).guarded(), frame@, outcome));
        assert(final(controller).record() =~= old(controller).record().push(
            Handing::Tried { tx: old(controller).guarded(), frame: frame@, outcome },
        ));
    }
}

/// What waiting comes to, and that it is entered once.
pub proof fn law_waiting(
    controller: &mut StreamController,
    frame: &Frame,
    waited: Waited,
    outcome: SendOutcome,
)
    requires
        call_ensures(StreamController::after_wait, (controller, frame, waited), outcome),
    ensures
        waited == Waited::Sent ==> outcome == SendOutcome::Delivered,
        waited == Waited::Closed ==> outcome == SendOutcome::Closed,
        waited == Waited::TimedOut ==> outcome == SendOutcome::Stalled,
        final(controller).record() == old(controller).record().push(
            Handing::Waited {
                tx: old(controller).guarded(),
                frame: frame@,
                taken: waited == Waited::Sent,
            },
        ),
{
    assert(final(controller).record() =~= old(controller).record().push(
        Handing::Waited {
            tx: old(controller).guarded(),
            frame: frame@,
            taken: waited == Waited::Sent,
        },
    ));
}

/// What trying comes to.
pub proof fn law_trying(
    controller: &mut StreamController,
    frame: &Frame,
    tried: TrySend,
    progress: Progress,
)
    requires
        call_ensures(StreamController::after_try, (controller, frame, tried), progress),
    ensures
        tried == TrySend::Sent ==> progress == Progress::Finished(SendOutcome::Delivered),
        tried == TrySend::Closed ==> progress == Progress::Finished(SendOutcome::Closed),
        tried == TrySend::Full ==> progress == Progress::MustWait && final(controller)@ == old(controller)@,
{
}

/// Counting what is sent within a stream: a delivered frame counts one more, and
/// then pauses or resumes the stream as its new count asks. Any other frame counts
/// nothing.
pub proof fn law_counting_deliveries(
    controller: &mut StreamController,
    frame: &Frame,
    stream: FrameId,
    tried: TrySend,
    progress: Progress,
    waited: Waited,
    outcome: SendOutcome,
)
    requires
        frame.parent_id == Some(stream),
        frame.status != Status::Done,
        frame.status != Status::Error,
        frame.status != Status::Cancel,
        old(controller)@.buffered(stream) < usize::MAX,
        call_ensures(StreamController::after_try, (controller, frame, tried), progress)
            || call_ensures(StreamController::after_wait, (controller, frame, waited), outcome),
        call_ensures(StreamController::after_try, (controller, frame, tried), progress) ==> tried
            == TrySend::Sent || tried == TrySend::Closed,
    ensures
        ({
            let delivered = if call_ensures(
                StreamController::after_try,
                (controller, frame, tried),
                progress,
            ) {
                tried == TrySend::Sent
            } else {
                waited == Waited::Sent
            };
            let before = old(controller)@.buffered(stream);
            let after = final(controller)@.buffered(stream);
            &&& delivered ==> after == before + 1
            &&& !delivered ==> final(controller)@ == old(controller)@
            &&& delivered && !old(controller)@.paused.contains(stream) ==> (final(controller)@.paused.contains(stream) <==> after >= old(controller)@.high)
            &&& delivered && old(controller)@.paused.contains(stream) ==> (final(controller)@.paused.contains(stream) <==> after >= old(controller)@.low)
        }),
{
}

/// The end of a stream makes it forgotten, sent or taken, and whatever came of it;
/// and so does acknowledging it as a whole.
pub proof fn law_forgetting(
    controller: &mut StreamController,
    frame: &Frame,
    stream: FrameId,
    tried: TrySend,
    sent: SendOutcome,
    waited: Waited,
    outcome: SendOutcome,
)
    requires
        ({
            ||| call_ensures(StreamController::ack_stream, (controller, stream), ())
            ||| {
                &&& frame.parent_id == Some(stream)
                &&& frame.status == Status::Done || frame.status == Status::Error || frame.status
                    == Status::Cancel
                &&& {
                    ||| call_ensures(
                        StreamController::after_try,
                        (controller, frame, tried),
                        Progress::Finished(sent),
                    )
                    ||| call_ensures(
                        StreamController::after_wait,
                        (controller, frame, waited),
                        outcome,
                    )
                    ||| call_ensures(StreamController::ack_frame, (controller, frame), ())
                    ||| call_ensures(
                        StreamController::send,
                        (controller, frame),
                        Progress::Finished(sent),
                    )
                }
            }
        }),
    ensures
        !final(controller)@.counts.contains_key(stream),
        !final(controller)@.paused.contains(stream),
{
}

/// A frame that belongs to no stream changes nothing that is counted.
pub proof fn law_frames_without_stream(
    controller: &mut StreamController,
    frame: &Frame,
    progress: Progress,
    tried: TrySend,
    waited: Waited,
    outcome: SendOutcome,
)
    requires
        frame.parent_id is None,
        ({
            ||| call_ensures(StreamController::send, (controller, frame), progress)
            ||| call_ensures(StreamController::after_try, (controller, frame, tried), progress)
            ||| call_ensures(StreamController::after_wait, (controller, frame, waited), outcome)
            ||| call_ensures(StreamController::ack_frame, (controller, frame), ())
        }),
    ensures
        final(controller)@ == old(controller)@,
{
}

/// Sending a frame within a stream counts it exactly if it is delivered at once.
pub proof fn law_sending_counts(
    controller: &mut StreamController,
    frame: &Frame,
    stream: FrameId,
    progress: Progress,
)
    requires
        call_ensures(StreamController::send, (controller, frame), progress),
        frame.parent_id == Some(stream),
        frame.status != Status::Done,
        frame.status != Status::Error,
        frame.status != Status::Cancel,
        old(controller)@.buffered(stream) < usize::MAX,
    ensures
        progress == Progress::Finished(SendOutcome::Delivered) ==> final(controller)@.buffered(
            stream,
        ) == old(controller)@.buffered(stream) + 1,
        progress != Progress::Finished(SendOutcome::Delivered) ==> final(controller)@.counts == old(controller)@.counts,
        progress != Progress::Finished(SendOutcome::Stalled),
{
}

/// Taking a frame within a stream counts one less, down to none, and pauses or
/// resumes the stream as its new count asks. What is taken is handed out as it is.
pub proof fn law_taking(
    controller: &mut StreamController,
    subscriber: Subscriber,
    frame: Frame,
    stream: FrameId,
    taken: Option<Frame>,
)
    requires
        call_ensures(Subscriber::recv, (&subscriber, controller, Some(frame)), taken),
        frame.parent_id == Some(stream),
        frame.status != Status::Done,
        frame.status != Status::Error,
        frame.status != Status::Cancel,
    ensures
        taken == Some(frame),
        ({
            let before = old(controller)@.buffered(stream);
            let after = final(controller)@.buffered(stream);
            &&& before > 0 ==> after == before - 1
            &&& before == 0 ==> after == 0
            &&& old(controller)@.paused.contains(stream) ==> (final(controller)@.paused.contains(
                stream,
            ) <==> after >= old(controller)@.low && after > 0)
            &&& !old(controller)@.paused.contains(stream) ==> (final(controller)@.paused.contains(
                stream,
            ) <==> after >= old(controller)@.high)
        }),
{
}

/// A subscriber acknowledges each frame that it hands out just as the controller
/// does, and hands out nothing when nothing comes.
pub proof fn law_subscribers_acknowledge(
    controller: &mut StreamController,
    twin: &mut StreamController,
    idle: &mut StreamController,
    subscriber: Subscriber,
    frame: Frame,
    taken: Option<Frame>,
    nothing: Option<Frame>,
)
    requires
        call_ensures(Subscriber::recv, (&subscriber, controller, Some(frame)), taken),
        call_ensures(StreamController::ack_frame, (twin, &frame), ()),
        call_ensures(Subscriber::recv, (&subscriber, idle, None), nothing),
        old(twin)@ == old(controller)@,
    ensures
        taken == Some(frame),
        final(twin)@ == final(controller)@,
        nothing is None,
        final(idle)@ == old(idle)@,
{
}

/// One more frame can be counted unless its stream has reached the greatest count.
/// A frame that ends its stream or belongs to none is not counted.
pub proof fn law_when_frames_can_be_counted(flow: Flow, frame: &Frame)
    ensures
        flow.can_count(frame@) <==> frame.parent_id is None || frame.status == Status::Done
            || frame.status == Status::Error || frame.status == Status::Cancel
            || !flow.counts.contains_key(frame.parent_id->0)
            || flow.counts[frame.parent_id->0] < usize::MAX,
{
}

/// A subscriber has the receiver and the number that it was made with.
pub proof fn law_new_subscribers(
    rx: mpsc::Receiver<Frame>,
    index: usize,
    subscriber: Subscriber,
)
    requires
        call_ensures(Subscriber::new, (rx, index), subscriber),
    ensures
        subscriber.rx == rx,
        subscriber.index == index,
{
}

} // verus!
