//! Watermark-based backpressure for subscriber delivery.
//!
//! A [`StreamController`] guards the sender of a subscriber and keeps count, per
//! response stream, of the frames that were delivered and not yet consumed. A
//! stream is keyed by the request that it responds to. From the high watermark
//! on the stream is paused: frames are no longer handed over without waiting,
//! but the producer waits for room, at most for the stall timeout. It is
//! resumed when the count has dropped below the low watermark, or to nothing.
use crate::channel::Handing;
use crate::channel::Ledger;
use crate::channel::TrySend;
use crate::frame::Frame;
use crate::frame::FrameId;
use crate::frame::FrameView;
use std::collections::HashMap;
use std::collections::HashSet;
use std::time::Duration;
use tokio::sync::mpsc;
use vstd::prelude::*;

verus! {

broadcast use vstd::std_specs::hash::group_hash_axioms;

/// Default for the count of buffered frames at which a stream is paused.
const DEFAULT_HIGH_WATERMARK: usize = 1000;

/// Default for the count of buffered frames below which a stream is resumed.
const DEFAULT_LOW_WATERMARK: usize = 100;

/// Default for the seconds after which a consumer counts as stalled.
const DEFAULT_STALL_SECONDS: u64 = 5;

/// The span of time that lasts the given number of seconds.
pub uninterp spec fn seconds_span(seconds: u64) -> Duration;

/// `std::time::Duration::from_secs`. Claimed: the span is determined by the
/// number of seconds.
#[verifier::external_body]
fn span_of_seconds(seconds: u64) -> (span: Duration)
    ensures
        span == seconds_span(seconds),
{
    Duration::from_secs(seconds)
}

/// When to pause and resume a stream, and how long to wait.
#[derive(Clone, Copy, Debug)]
pub struct BackpressureConfig {
    /// A stream is paused when this many of its frames are buffered.
    pub high_watermark: usize,
    /// A paused stream is resumed when fewer than this many of its frames are
    /// buffered, and at the latest when none is.
    pub low_watermark: usize,
    /// How long to wait for room before the consumer counts as stalled.
    pub stall_timeout: Duration,
}

impl Default for BackpressureConfig {
    fn default() -> (config: Self)
        ensures
            config.high_watermark == 1000,
            config.low_watermark == 100,
            config.stall_timeout == seconds_span(5),
    {
        BackpressureConfig {
            high_watermark: DEFAULT_HIGH_WATERMARK,
            low_watermark: DEFAULT_LOW_WATERMARK,
            stall_timeout: span_of_seconds(DEFAULT_STALL_SECONDS),
        }
    }
}

/// How a frame is handed over.
#[derive(Clone, Copy, Debug, PartialEq, Eq, Structural)]
pub enum FlowState {
    /// Without waiting.
    Flowing,
    /// Waiting for room.
    Paused,
}

/// What sending a frame came to.
#[derive(Clone, Copy, Debug, PartialEq, Eq, Structural)]
pub enum SendOutcome {
    /// The frame was delivered.
    Delivered,
    /// The consumer did not make room in time: the stream should be cancelled.
    Stalled,
    /// The channel is closed: the subscriber is gone.
    Closed,
}

/// What waiting for room came to.
#[derive(Clone, Copy, Debug, PartialEq, Eq, Structural)]
pub enum Waited {
    /// The channel took the frame.
    Sent,
    /// The receiving half is gone.
    Closed,
    /// The stall timeout passed before there was room.
    TimedOut,
}

/// How far sending a frame has come.
#[derive(Clone, Copy, Debug, PartialEq, Eq, Structural)]
pub enum Progress {
    /// It is done.
    Finished(SendOutcome),
    /// The frame is to be sent waiting for room, for the stall timeout at most.
    MustWait,
}

// ---- Model ----

/// What a controller keeps of the streams.
#[verifier::ext_equal]
pub struct Flow {
    /// How many frames of a stream are buffered; zero if it has no entry.
    pub counts: Map<FrameId, usize>,
    /// The streams that are paused.
    pub paused: Set<FrameId>,
    pub high: usize,
    pub low: usize,
}

impl Flow {
    /// How many frames of a stream are buffered.
    pub open spec fn buffered(self, stream: FrameId) -> usize {
        if self.counts.contains_key(stream) {
            self.counts[stream]
        } else {
            0
        }
    }

    /// So little of a stream is buffered that it is resumed: less than the low
    /// watermark, or nothing.
    pub open spec fn drained(self, stream: FrameId) -> bool {
        self.buffered(stream) < self.low || self.buffered(stream) == 0
    }

    /// The stream paused or resumed, as its count and the watermarks ask.
    pub open spec fn adjusted(self, stream: FrameId) -> Flow {
        if self.paused.contains(stream) {
            if self.drained(stream) {
                Flow { paused: self.paused.remove(stream), ..self }
            } else {
                self
            }
        } else if self.buffered(stream) >= self.high {
            Flow { paused: self.paused.insert(stream), ..self }
        } else {
            self
        }
    }

    /// One more frame of the stream is buffered.
    pub open spec fn incremented(self, stream: FrameId) -> Flow {
        Flow {
            counts: self.counts.insert(stream, (self.buffered(stream) + 1) as usize),
            ..self
        }
    }

    /// One frame less of the stream is buffered; none is buffered of a stream
    /// without an entry.
    pub open spec fn decremented(self, stream: FrameId) -> Flow {
        if self.buffered(stream) <= 1 {
            Flow { counts: self.counts.remove(stream), ..self }
        } else {
            Flow {
                counts: self.counts.insert(stream, (self.buffered(stream) - 1) as usize),
                ..self
            }
        }
    }

    /// Nothing is buffered of the stream, and it flows.
    pub open spec fn forgotten(self, stream: FrameId) -> Flow {
        Flow {
            counts: self.counts.remove(stream),
            paused: self.paused.remove(stream),
            ..self
        }
    }

    /// What is known before `frame` is handed over: of a frame within a stream,
    /// the stream has been adjusted.
    pub open spec fn prepared(self, frame: FrameView) -> Flow {
        match frame.parent_id {
            Some(stream) if !frame.status.ends_stream() => self.adjusted(stream),
            _ => self,
        }
    }

    /// How `frame` is handed over: waiting if its stream is paused; a frame that
    /// ends its stream, or belongs to none, without waiting.
    pub open spec fn flow_state(self, frame: FrameView) -> FlowState {
        match frame.parent_id {
            Some(stream) if !frame.status.ends_stream() && self.adjusted(stream).paused.contains(
                stream,
            ) => FlowState::Paused,
            _ => FlowState::Flowing,
        }
    }

    /// What is known after sending `frame` came to `outcome`.
    ///
    /// A frame that ends its stream makes it forgotten, whatever the outcome. A
    /// delivered frame within a stream is counted.
    pub open spec fn settled(self, frame: FrameView, outcome: SendOutcome) -> Flow {
        match frame.parent_id {
            Some(stream) => if frame.status.ends_stream() {
                self.forgotten(stream)
            } else if outcome is Delivered {
                self.incremented(stream).adjusted(stream)
            } else {
                self
            },
            None => self,
        }
    }

    /// What is known after the consumer has taken `frame`.
    pub open spec fn acknowledged(self, frame: FrameView) -> Flow {
        match frame.parent_id {
            Some(stream) => if frame.status.ends_stream() {
                self.forgotten(stream)
            } else {
                self.decremented(stream).adjusted(stream)
            },
            None => self,
        }
    }

    /// One more frame of the stream that `frame` belongs to can be counted.
    pub open spec fn can_count(self, frame: FrameView) -> bool {
        frame.parent_id matches Some(stream) ==> frame.status.ends_stream() || self.buffered(stream)
            < usize::MAX
    }

    /// The watermarks make sense: the low one is not above the high one, and a
    /// stream without buffered frames is below that.
    pub open spec fn marks_in_order(self) -> bool {
        self.low <= self.high && 0 < self.high
    }

    /// No stream has an entry without a frame; and, where the watermarks make
    /// sense, no drained stream is paused and none flows at the high watermark.
    pub open spec fn consistent(self) -> bool {
        &&& forall|stream: FrameId| #[trigger]
            self.counts.contains_key(stream) ==> self.counts[stream] > 0
        &&& self.marks_in_order() ==> forall|stream: FrameId|
            #![trigger self.paused.contains(stream)]
            #![trigger self.buffered(stream)]
            if self.paused.contains(stream) {
                self.buffered(stream) >= self.low && self.buffered(stream) > 0
            } else {
                self.buffered(stream) < self.high
            }
    }
}

/// What trying to send without waiting means for the frame.
pub open spec fn after_try_spec(tried: TrySend) -> Progress {
    match tried {
        TrySend::Sent => Progress::Finished(SendOutcome::Delivered),
        TrySend::Full => Progress::MustWait,
        TrySend::Closed => Progress::Finished(SendOutcome::Closed),
    }
}

/// What waiting for room means for the frame.
pub open spec fn after_wait_spec(waited: Waited) -> SendOutcome {
    match waited {
        Waited::Sent => SendOutcome::Delivered,
        Waited::Closed => SendOutcome::Closed,
        Waited::TimedOut => SendOutcome::Stalled,
    }
}

/// What goes into the record when `frame` was handed to `tx` without waiting.
pub open spec fn try_record(
    tx: mpsc::Sender<Frame>,
    frame: FrameView,
    outcome: TrySend,
) -> Seq<Handing> {
    seq![Handing::Tried { tx, frame, outcome }]
}

/// What goes into the record when `frame` was sent to `tx` waiting for room.
pub open spec fn wait_record(
    tx: mpsc::Sender<Frame>,
    frame: FrameView,
    waited: Waited,
) -> Seq<Handing> {
    seq![Handing::Waited { tx, frame, taken: waited is Sent }]
}

// ---- Controller ----

/// Flow-controlled sender of a subscriber.
pub struct StreamController {
    tx: mpsc::Sender<Frame>,
    config: BackpressureConfig,
    counts: HashMap<FrameId, usize>,
    paused: HashSet<FrameId>,
    ledger: Ledger,
}

impl View for StreamController {
    type V = Flow;

    closed spec fn view(&self) -> Flow {
        Flow {
            counts: self.counts@,
            paused: self.paused@,
            high: self.config.high_watermark,
            low: self.config.low_watermark,
        }
    }
}

impl StreamController {
    /// The sender that the controller guards.
    pub closed spec fn guarded(self) -> mpsc::Sender<Frame> {
        self.tx
    }

    /// When the controller pauses and resumes, and how long it waits.
    pub closed spec fn settings(self) -> BackpressureConfig {
        self.config
    }

    /// The same sender under the same settings.
    pub open spec fn same_setup(self, other: StreamController) -> bool {
        &&& self.guarded() == other.guarded()
        &&& self.settings() == other.settings()
    }

    /// All frames that were handed to the guarded sender, in order, with what came
    /// of it.
    pub closed spec fn record(self) -> Seq<Handing> {
        self.ledger@
    }

    /// The same sender under the same settings, to which nothing was handed since.
    pub open spec fn silent_since(self, earlier: StreamController) -> bool {
        &&& self.same_setup(earlier)
        &&& self.record() == earlier.record()
    }

    /// A controller of `tx`, with nothing buffered.
    #[must_use]
    pub fn new(tx: mpsc::Sender<Frame>, config: BackpressureConfig) -> (controller: Self)
        ensures
            controller.guarded() == tx,
            controller.record() == Seq::<Handing>::empty(),
            controller.settings() == config,
            controller@ == (Flow {
                counts: Map::empty(),
                paused: Set::empty(),
                high: config.high_watermark,
                low: config.low_watermark,
            }),
            controller@.consistent(),
    {
        StreamController {
            tx,
            config,
            counts: HashMap::new(),
            paused: HashSet::new(),
            ledger: Ledger::new(),
        }
    }

    /// A controller of `tx` under the default settings.
    #[must_use]
    pub fn with_defaults(tx: mpsc::Sender<Frame>) -> (controller: Self)
        ensures
            controller.guarded() == tx,
            controller.record() == Seq::<Handing>::empty(),
            controller.settings().high_watermark == 1000,
            controller.settings().low_watermark == 100,
            controller.settings().stall_timeout == seconds_span(5),
            controller@ == (Flow {
                counts: Map::empty(),
                paused: Set::empty(),
                high: 1000,
                low: 100,
            }),
            controller@.consistent(),
    {
        StreamController::new(tx, BackpressureConfig::default())
    }

    // -- Sending --

    /// Sends a frame under flow control, as far as that takes no waiting.
    ///
    /// A frame within a paused stream must wait for room. Any other frame is
    /// handed over at once, and must wait only if the channel is full. Where
    /// sending must wait, [`StreamController::after_wait`] concludes it.
    pub fn send(&mut self, frame: &Frame) -> (progress: Progress)
        requires
            old(self)@.can_count(frame@),
        ensures
            final(self).same_setup(*old(self)),
            match old(self)@.flow_state(frame@) {
                FlowState::Paused => {
                    &&& progress == Progress::MustWait
                    &&& final(self)@ == old(self)@.prepared(frame@)
                    &&& final(self).record() == old(self).record()
                },
                FlowState::Flowing => exists|outcome: TrySend|
                    {
                        &&& #[trigger] crate::channel::tried(
                            old(self).guarded(),
                            frame@,
                            outcome,
                        )
                        &&& final(self).record() == old(self).record() + try_record(
                            old(self).guarded(),
                            frame@,
                            outcome,
                        )
                        &&& progress == after_try_spec(outcome)
                        &&& final(self)@ == match progress {
                            Progress::Finished(sent) => old(self)@.prepared(frame@).settled(
                                frame@,
                                sent,
                            ),
                            Progress::MustWait => old(self)@.prepared(frame@),
                        }
                    },
            },
            old(self)@.consistent() ==> final(self)@.consistent(),
    {
        match self.flow_state(frame) {
            FlowState::Paused => Progress::MustWait,
            FlowState::Flowing => {
                let outcome = self.ledger.try_send(&self.tx, frame.clone());
                assert(self.record() =~= old(self).record() + try_record(
                    old(self).guarded(),
                    frame@,
                    outcome,
                ));
                self.after_try(frame, outcome)
            },
        }
    }

    /// How `frame` is handed over. Pauses or resumes its stream first, if it
    /// belongs to one that it does not end.
    pub fn flow_state(&mut self, frame: &Frame) -> (state: FlowState)
        ensures
            state == old(self)@.flow_state(frame@),
            final(self)@ == old(self)@.prepared(frame@),
            final(self).silent_since(*old(self)),
            old(self)@.consistent() ==> final(self)@.consistent(),
    {
        match frame.parent_id {
            Some(stream) => {
                if frame.status.is_terminal() {
                    FlowState::Flowing
                } else {
                    self.update_flow_state(stream);
                    if self.paused.contains(&stream) {
                        FlowState::Paused
                    } else {
                        FlowState::Flowing
                    }
                }
            },
            None => FlowState::Flowing,
        }
    }

    /// Goes on after trying to send `frame` without waiting.
    pub fn after_try(&mut self, frame: &Frame, tried: TrySend) -> (progress: Progress)
        requires
            old(self)@.can_count(frame@),
        ensures
            progress == after_try_spec(tried),
            final(self)@ == match progress {
                Progress::Finished(outcome) => old(self)@.settled(frame@, outcome),
                Progress::MustWait => old(self)@,
            },
            final(self).silent_since(*old(self)),
            old(self)@.consistent() ==> final(self)@.consistent(),
    {
        match tried {
            TrySend::Sent => {
                self.settle(frame, SendOutcome::Delivered);
                Progress::Finished(SendOutcome::Delivered)
            },
            TrySend::Full => Progress::MustWait,
            TrySend::Closed => {
                self.settle(frame, SendOutcome::Closed);
                Progress::Finished(SendOutcome::Closed)
            },
        }
    }

    /// Concludes sending `frame` after it was sent waiting for room.
    pub fn after_wait(&mut self, frame: &Frame, waited: Waited) -> (outcome: SendOutcome)
        requires
            old(self)@.can_count(frame@),
        ensures
            outcome == after_wait_spec(waited),
            final(self)@ == old(self)@.settled(frame@, outcome),
            final(self).same_setup(*old(self)),
            final(self).record() == old(self).record() + wait_record(
                old(self).guarded(),
                frame@,
                waited,
            ),
            old(self)@.consistent() ==> final(self)@.consistent(),
    {
        let outcome = match waited {
            Waited::Sent => SendOutcome::Delivered,
            Waited::Closed => SendOutcome::Closed,
            Waited::TimedOut => SendOutcome::Stalled,
        };
        self.ledger.report_wait(&self.tx, frame, waited == Waited::Sent);
        assert(self.record() =~= old(self).record() + wait_record(
            old(self).guarded(),
            frame@,
            waited,
        ));
        self.settle(frame, outcome);
        outcome
    }

    /// Keeps count of what sending `frame` came to.
    fn settle(&mut self, frame: &Frame, outcome: SendOutcome)
        requires
            old(self)@.can_count(frame@),
        ensures
            final(self)@ == old(self)@.settled(frame@, outcome),
            final(self).silent_since(*old(self)),
            old(self)@.consistent() ==> final(self)@.consistent(),
    {
        if let Some(stream) = frame.parent_id {
            if frame.status.is_terminal() {
                self.ack_stream(stream);
            } else if outcome == SendOutcome::Delivered {
                self.increment(stream);
                self.update_flow_state(stream);
            }
        }
    }

    // -- Acknowledging --

    /// Forgets what is buffered of a stream, and lets it flow.
    pub fn ack_stream(&mut self, stream: FrameId)
        ensures
            final(self)@ == old(self)@.forgotten(stream),
            final(self).silent_since(*old(self)),
            old(self)@.consistent() ==> final(self)@.consistent(),
    {
        self.remove_stream(stream);
        self.resume_stream(stream);
    }

    /// Keeps count of a frame that the consumer has taken.
    pub fn ack_frame(&mut self, frame: &Frame)
        ensures
            final(self)@ == old(self)@.acknowledged(frame@),
            final(self).silent_since(*old(self)),
            old(self)@.consistent() ==> final(self)@.consistent(),
    {
        if let Some(stream) = frame.parent_id {
            if frame.status.is_terminal() {
                self.ack_stream(stream);
            } else {
                self.decrement(stream);
                self.update_flow_state(stream);
            }
        }
    }

    /// How many frames of a stream are buffered.
    #[must_use]
    pub fn buffered(&self, stream: FrameId) -> (count: usize)
        ensures
            count == self@.buffered(stream),
    {
        match self.counts.get(&stream) {
            Some(count) => *count,
            None => 0,
        }
    }

    /// The guarded sender.
    #[must_use]
    pub fn sender(&self) -> (tx: &mpsc::Sender<Frame>)
        ensures
            *tx == self.guarded(),
    {
        &self.tx
    }

    /// The settings.
    #[must_use]
    pub fn config(&self) -> (config: BackpressureConfig)
        ensures
            config == self.settings(),
    {
        self.config
    }

    // -- Keeping count --

    fn increment(&mut self, stream: FrameId)
        requires
            old(self)@.buffered(stream) < usize::MAX,
        ensures
            final(self)@ == old(self)@.incremented(stream),
            final(self).silent_since(*old(self)),
    {
        let count = self.buffered(stream);
        self.counts.insert(stream, count + 1);
    }

    fn decrement(&mut self, stream: FrameId)
        ensures
            final(self)@ == old(self)@.decremented(stream),
            final(self).silent_since(*old(self)),
    {
        let count = self.buffered(stream);
        if count <= 1 {
            self.remove_stream(stream);
        } else {
            self.counts.insert(stream, count - 1);
        }
    }

    fn remove_stream(&mut self, stream: FrameId)
        ensures
            final(self)@ == (Flow { counts: old(self)@.counts.remove(stream), ..old(self)@ }),
            final(self).silent_since(*old(self)),
    {
        self.counts.remove(&stream);
    }

    fn update_flow_state(&mut self, stream: FrameId)
        ensures
            final(self)@ == old(self)@.adjusted(stream),
            final(self).silent_since(*old(self)),
    {
        let count = self.buffered(stream);
        if self.paused.contains(&stream) {
            if count < self.config.low_watermark || count == 0 {
                self.resume_stream(stream);
            }
        } else if count >= self.config.high_watermark {
            self.paused.insert(stream);
        }
    }

    fn resume_stream(&mut self, stream: FrameId)
        ensures
            final(self)@ == (Flow { paused: old(self)@.paused.remove(stream), ..old(self)@ }),
            final(self).silent_since(*old(self)),
    {
        self.paused.remove(&stream);
    }
}

/// Receiving half of a subscription, which acknowledges the frames taken from it.
pub struct Subscriber {
    /// Where the frames arrive.
    pub rx: mpsc::Receiver<Frame>,
    /// Which of the subscribers this is.
    pub index: usize,
}

impl Subscriber {
    /// The subscriber with the given number, whose frames arrive at `rx`.
    #[must_use]
    pub fn new(rx: mpsc::Receiver<Frame>, index: usize) -> (subscriber: Self)
        ensures
            subscriber.rx == rx,
            subscriber.index == index,
    {
        Subscriber { rx, index }
    }

    /// Goes on after the subscriber has received a frame, or learnt that no more
    /// come: acknowledges the frame and hands it out.
    ///
    /// `controller` is the one that the frames of this subscriber come through.
    pub fn recv(&self, controller: &mut StreamController, received: Option<Frame>) -> (frame: Option<
        Frame,
    >)
        ensures
            frame == received,
            final(controller)@ == match received {
                Some(f) => old(controller)@.acknowledged(f@),
                None => old(controller)@,
            },
            final(controller).silent_since(*old(controller)),
            old(controller)@.consistent() ==> final(controller)@.consistent(),
    {
        match received {
            Some(frame) => {
                controller.ack_frame(&frame);
                Some(frame)
            },
            None => None,
        }
    }
}

// ---- Laws ----

/// A frame within a stream: it belongs to the stream and does not end it.
pub open spec fn within(frame: FrameView, stream: FrameId) -> bool {
    frame.parent_id == Some(stream) && !frame.status.ends_stream()
}

/// What is known after all of `frames` were delivered.
pub open spec fn all_delivered(flow: Flow, frames: Seq<FrameView>) -> Flow
    decreases frames.len(),
{
    if frames.len() == 0 {
        flow
    } else {
        all_delivered(flow, frames.drop_last()).prepared(frames.last()).settled(
            frames.last(),
            SendOutcome::Delivered,
        )
    }
}

/// Sending or taking a frame leaves every other stream as it is.
pub proof fn law_streams_independent(
    flow: Flow,
    frame: FrameView,
    outcome: SendOutcome,
    other: FrameId,
)
    requires
        frame.parent_id != Some(other),
    ensures
        ({
            let sent = flow.prepared(frame).settled(frame, outcome);
            &&& sent.buffered(other) == flow.buffered(other)
            &&& sent.paused.contains(other) == flow.paused.contains(other)
        }),
        ({
            let taken = flow.acknowledged(frame);
            &&& taken.buffered(other) == flow.buffered(other)
            &&& taken.paused.contains(other) == flow.paused.contains(other)
        }),
{
}

/// Delivering frames within a stream counts each of them.
pub proof fn law_deliveries_are_counted(flow: Flow, frames: Seq<FrameView>, stream: FrameId)
    requires
        forall|i: int| 0 <= i < frames.len() ==> within(#[trigger] frames[i], stream),
        flow.buffered(stream) + frames.len() <= usize::MAX,
    ensures
        all_delivered(flow, frames).buffered(stream) == flow.buffered(stream) + frames.len(),
    decreases frames.len(),
{
    if frames.len() > 0 {
        assert forall|i: int| 0 <= i < frames.drop_last().len() implies within(
            #[trigger] frames.drop_last()[i],
            stream,
        ) by {
            assert(within(frames[i], stream));
        }
        law_deliveries_are_counted(flow, frames.drop_last(), stream);
        assert(within(frames[frames.len() - 1], stream));
    }
}

/// Taking a delivered frame undoes the count of its delivery.
pub proof fn law_ack_undoes_delivery(flow: Flow, frame: FrameView, stream: FrameId)
    requires
        within(frame, stream),
        flow.consistent(),
        flow.buffered(stream) < usize::MAX,
    ensures
        flow.prepared(frame).settled(frame, SendOutcome::Delivered).acknowledged(frame).counts
            == flow.counts,
{
    let after = flow.prepared(frame).settled(frame, SendOutcome::Delivered).acknowledged(frame);
    assert(after.counts =~= flow.counts);
}

/// A frame that ends its stream makes it forgotten, whatever sending it came to.
pub proof fn law_terminal_frame_forgets(flow: Flow, frame: FrameView, outcome: SendOutcome)
    requires
        frame.parent_id is Some,
        frame.status.ends_stream(),
    ensures
        ({
            let stream = frame.parent_id->0;
            let after = flow.prepared(frame).settled(frame, outcome);
            &&& after.buffered(stream) == 0
            &&& !after.paused.contains(stream)
        }),
{
}

/// Only a delivered frame is counted: a frame within a stream that stalls or
/// finds the channel closed changes no count.
pub proof fn law_undelivered_is_not_counted(flow: Flow, frame: FrameView, outcome: SendOutcome)
    requires
        !frame.status.ends_stream(),
        !(outcome is Delivered),
    ensures
        flow.prepared(frame).settled(frame, outcome).counts == flow.counts,
{
}

/// A stream at the high watermark waits, one below the low watermark or without
/// buffered frames flows, and in between, the low watermark included, it goes on
/// as before.
pub proof fn law_watermarks(flow: Flow, frame: FrameView, stream: FrameId)
    requires
        within(frame, stream),
        flow.consistent(),
        flow.marks_in_order(),
    ensures
        flow.buffered(stream) >= flow.high ==> flow.flow_state(frame) is Paused,
        flow.buffered(stream) < flow.low ==> flow.flow_state(frame) is Flowing,
        flow.buffered(stream) == 0 ==> flow.flow_state(frame) is Flowing,
        flow.flow_state(frame) is Paused <==> flow.paused.contains(stream),
        flow.prepared(frame) == flow,
{
    assert(flow.paused.contains(stream) ==> !flow.drained(stream));
    assert(!flow.paused.contains(stream) ==> flow.buffered(stream) < flow.high);
}

/// Delivering a frame pauses its stream exactly when the count reaches the high
/// watermark or it was paused. Taking one resumes it exactly when the count has
/// dropped below the low watermark, or to nothing.
pub proof fn law_pause_and_resume(flow: Flow, frame: FrameView, stream: FrameId)
    requires
        within(frame, stream),
        flow.consistent(),
        flow.marks_in_order(),
        flow.buffered(stream) < usize::MAX,
    ensures
        ({
            let sent = flow.prepared(frame).settled(frame, SendOutcome::Delivered);
            sent.paused.contains(stream) <==> flow.paused.contains(stream) || flow.buffered(stream)
                + 1 >= flow.high
        }),
        ({
            let taken = flow.acknowledged(frame);
            taken.paused.contains(stream) <==> flow.paused.contains(stream) && !taken.drained(
                stream,
            )
        }),
{
    law_watermarks(flow, frame, stream);
}

/// A frame that belongs to no stream, or ends its own, is handed over without
/// waiting for a paused stream.
pub proof fn law_other_frames_flow(flow: Flow, frame: FrameView)
    requires
        frame.parent_id is None || frame.status.ends_stream(),
    ensures
        flow.flow_state(frame) is Flowing,
{
}

/// The frames of a record that a channel took.
pub open spec fn frames_taken(record: Seq<Handing>) -> Seq<FrameView>
    decreases record.len(),
{
    if record.len() == 0 {
        seq![]
    } else {
        let earlier = frames_taken(record.drop_last());
        match record.last() {
            Handing::Tried { tx, frame, outcome } => if outcome is Sent {
                earlier.push(frame)
            } else {
                earlier
            },
            Handing::Waited { tx, frame, taken } => if taken {
                earlier.push(frame)
            } else {
                earlier
            },
            _ => earlier,
        }
    }
}

/// What sending `frame` to its end adds to the record: it is handed over without
/// waiting if it flows, with the outcome `tried`, and then sent waiting, with the
/// outcome `waited`, if there was no room or it did not flow.
pub open spec fn sending_record(
    flow: Flow,
    tx: mpsc::Sender<Frame>,
    frame: FrameView,
    tried: TrySend,
    waited: Waited,
) -> Seq<Handing> {
    if flow.flow_state(frame) is Paused {
        wait_record(tx, frame, waited)
    } else if after_try_spec(tried) is MustWait {
        try_record(tx, frame, tried) + wait_record(tx, frame, waited)
    } else {
        try_record(tx, frame, tried)
    }
}

/// What sending `frame` to its end comes to.
pub open spec fn sending_outcome(
    flow: Flow,
    frame: FrameView,
    tried: TrySend,
    waited: Waited,
) -> SendOutcome {
    match after_try_spec(tried) {
        Progress::Finished(outcome) if flow.flow_state(frame) is Flowing => outcome,
        _ => after_wait_spec(waited),
    }
}

/// A delivered frame was taken by the channel exactly once and counted once. A
/// frame that stalled or found the channel closed was not taken, and not counted.
/// No other stream is touched in either case.
pub proof fn law_one_copy_per_delivery(
    flow: Flow,
    tx: mpsc::Sender<Frame>,
    frame: FrameView,
    stream: FrameId,
    tried: TrySend,
    waited: Waited,
    other: FrameId,
)
    requires
        within(frame, stream),
        flow.buffered(stream) < usize::MAX,
        other != stream,
    ensures
        ({
            let outcome = sending_outcome(flow, frame, tried, waited);
            let after = flow.prepared(frame).settled(frame, outcome);
            let taken = frames_taken(sending_record(flow, tx, frame, tried, waited));
            &&& outcome is Delivered ==> taken == seq![frame] && after.buffered(stream)
                == flow.buffered(stream) + 1
            &&& !(outcome is Delivered) ==> taken == Seq::<FrameView>::empty() && after.buffered(
                stream,
            ) == flow.buffered(stream)
            &&& after.buffered(other) == flow.buffered(other)
            &&& after.paused.contains(other) == flow.paused.contains(other)
        }),
{
    reveal_with_fuel(frames_taken, 3);
    let record = sending_record(flow, tx, frame, tried, waited);
    if record.len() == 2 {
        assert(record.drop_last() =~= try_record(tx, frame, tried));
    }
    assert(record.take(1).drop_last() =~= Seq::<Handing>::empty());
    assert(try_record(tx, frame, tried).drop_last() =~= Seq::<Handing>::empty());
    assert(wait_record(tx, frame, waited).drop_last() =~= Seq::<Handing>::empty());
    assert(Seq::<FrameView>::empty().push(frame) =~= seq![frame]);
}

/// What happens to a controller and the channel behind it.
pub enum Event {
    /// Sending a frame came to an outcome.
    Sent { frame: FrameView, outcome: SendOutcome },
    /// The consumer has taken the oldest frame from the channel.
    Received,
    /// A stream was acknowledged as a whole.
    Acknowledged { stream: FrameId },
}

/// What the controller keeps, and what waits in the channel, oldest first.
pub struct Subscription {
    pub flow: Flow,
    pub waiting: Seq<FrameView>,
}

impl Subscription {
    /// The event can happen: there is a frame to take, and one more can be counted.
    pub open spec fn allows(self, event: Event) -> bool {
        match event {
            Event::Sent { frame, outcome } => self.flow.can_count(frame),
            Event::Received => self.waiting.len() > 0,
            Event::Acknowledged { stream } => true,
        }
    }

    /// After the event.
    pub open spec fn after(self, event: Event) -> Subscription {
        match event {
            Event::Sent { frame, outcome } => Subscription {
                flow: self.flow.prepared(frame).settled(frame, outcome),
                waiting: if outcome is Delivered {
                    self.waiting.push(frame)
                } else {
                    self.waiting
                },
            },
            Event::Received => Subscription {
                flow: self.flow.acknowledged(self.waiting[0]),
                waiting: self.waiting.drop_first(),
            },
            Event::Acknowledged { stream } => Subscription {
                flow: self.flow.forgotten(stream),
                waiting: self.waiting,
            },
        }
    }
}

/// How many of `frames` are within a stream.
pub open spec fn count_within(frames: Seq<FrameView>, stream: FrameId) -> nat
    decreases frames.len(),
{
    if frames.len() == 0 {
        0
    } else {
        count_within(frames.drop_last(), stream) + if within(frames.last(), stream) {
            1nat
        } else {
            0nat
        }
    }
}

/// The first of some frames counts as the others do.
proof fn lemma_count_first(frames: Seq<FrameView>, stream: FrameId)
    requires
        frames.len() > 0,
    ensures
        count_within(frames, stream) == count_within(frames.drop_first(), stream) + if within(
            frames[0],
            stream,
        ) {
            1nat
        } else {
            0nat
        },
    decreases frames.len(),
{
    if frames.len() == 1 {
        assert(frames.drop_last() =~= frames.drop_first());
    } else {
        lemma_count_first(frames.drop_last(), stream);
        assert(frames.drop_last().drop_first() =~= frames.drop_first().drop_last());
        assert(frames.drop_first().last() == frames.last());
    }
}

/// All of `events` can happen, one after the other, from `start` on.
pub open spec fn all_allowed(start: Subscription, events: Seq<Event>) -> bool
    decreases events.len(),
{
    events.len() == 0 || (start.allows(events[0]) && all_allowed(
        start.after(events[0]),
        events.drop_first(),
    ))
}

/// After all of `events`, from `start` on.
pub open spec fn after_all(start: Subscription, events: Seq<Event>) -> Subscription
    decreases events.len(),
{
    if events.len() == 0 {
        start
    } else {
        after_all(start.after(events[0]), events.drop_first())
    }
}

/// Whatever is sent and received, in whatever order: of no stream more frames
/// count as buffered than wait in the channel. So nothing counts as buffered once
/// all is received.
pub proof fn law_buffered_frames_wait(start: Subscription, events: Seq<Event>, stream: FrameId)
    requires
        start.flow.buffered(stream) <= count_within(start.waiting, stream),
        all_allowed(start, events),
    ensures
        ({
            let end = after_all(start, events);
            &&& end.flow.buffered(stream) <= count_within(end.waiting, stream)
            &&& end.waiting.len() == 0 ==> end.flow.buffered(stream) == 0
        }),
    decreases events.len(),
{
    if events.len() > 0 {
        let next = start.after(events[0]);
        match events[0] {
            Event::Sent { frame, outcome } => {
                if outcome is Delivered {
                    assert(next.waiting.drop_last() =~= start.waiting);
                    assert(next.waiting.last() == frame);
                }
            },
            Event::Received => {
                lemma_count_first(start.waiting, stream);
            },
            Event::Acknowledged { stream: acknowledged } => {},
        }
        law_buffered_frames_wait(next, events.drop_first(), stream);
    }
}

} // verus!
