//! Pipes between a subsystem and the kernel.
//!
//! A pipe is two crossed channels: what the one end sends, the other receives.
//! An end works in one of two modes:
//!
//! - **Direct**, at first: it receives straight from its channel. This serves
//!   subsystems that only handle requests.
//! - **Dispatched**, from the first [`PipeEnd::caller`] on: a dispatcher takes
//!   the channel over. It hands a frame that responds to a pending call to the
//!   [`CallStream`] of that call, and every other frame to a default channel,
//!   from which the end receives now.
use crate::channel::Handing;
use crate::channel::Ledger;
use crate::error::PipeError;
use crate::frame::Frame;
use crate::frame::FrameId;
use crate::frame::FrameView;
use crate::sender::Outbox;
use crate::stamp::Draws;
use std::collections::HashMap;
use tokio::sync::mpsc;
use vstd::prelude::*;

verus! {

broadcast use vstd::std_specs::hash::group_hash_axioms;

/// Capacity of the channels of a pipe where none is given.
pub const DEFAULT_CAPACITY: usize = 256;

/// Where a pipe end receives from.
pub enum PipeState {
    /// From its channel.
    Direct(mpsc::Receiver<Frame>),
    /// From the dispatcher's default channel.
    Dispatched(mpsc::UnboundedReceiver<Frame>),
}

/// One end of a pipe.
///
/// It belongs to one subsystem alone: two tasks that shared it would race for
/// the frames that arrive.
pub struct PipeEnd {
    /// Sends to the other end.
    pub tx: mpsc::Sender<Frame>,
    /// Receives from the other end.
    pub state: PipeState,
}

/// The two ends are those of a pipe over two channels of the given capacity:
/// what one end sends with arrives where the other receives.
pub open spec fn crossed(a: PipeEnd, b: PipeEnd, capacity: usize) -> bool {
    &&& a.state is Direct
    &&& b.state is Direct
    &&& crate::channel::opened(capacity, b.tx, a.state->Direct_0)
    &&& crate::channel::opened(capacity, a.tx, b.state->Direct_0)
}

/// Makes a pipe whose channels have the given capacity.
#[must_use]
pub fn pipe(capacity: usize) -> (ends: (PipeEnd, PipeEnd))
    requires
        crate::channel::is_capacity(capacity),
    ensures
        crossed(ends.0, ends.1, capacity),
{
    let (a_tx, a_rx) = mpsc::channel(capacity);
    let (b_tx, b_rx) = mpsc::channel(capacity);
    assert(crate::channel::opened(capacity, a_tx, a_rx));
    assert(crate::channel::opened(capacity, b_tx, b_rx));
    let end_a = PipeEnd { tx: b_tx, state: PipeState::Direct(a_rx) };
    let end_b = PipeEnd { tx: a_tx, state: PipeState::Direct(b_rx) };
    (end_a, end_b)
}

/// Makes a pipe whose channels have the default capacity.
#[must_use]
pub fn pipe_default() -> (ends: (PipeEnd, PipeEnd))
    ensures
        crossed(ends.0, ends.1, 256),
{
    pipe(DEFAULT_CAPACITY)
}

impl PipeEnd {
    /// A sender to the other end.
    #[must_use]
    pub fn sender(&self) -> (tx: mpsc::Sender<Frame>)
        ensures
            tx == self.tx,
    {
        self.tx.clone()
    }

    /// Whether a dispatcher has taken the channel over.
    pub open spec fn is_dispatched(self) -> bool {
        self.state is Dispatched
    }

    /// A handle for calls through this pipe, and the dispatcher to run for it
    /// if this is the first.
    ///
    /// The dispatcher must run for as long as it yields; [`Dispatcher`] says how.
    pub fn caller(&mut self) -> (caller: (Caller, Option<Dispatcher>))
        ensures
            caller.0.tx == old(self).tx,
            final(self).tx == old(self).tx,
            final(self).is_dispatched(),
            handed_over(old(self).state, final(self).state, caller.1),
    {
        let dispatcher = self.ensure_dispatcher();
        (Caller { tx: self.tx.clone() }, dispatcher)
    }

    /// Goes from direct to dispatched mode, unless the end is there already.
    fn ensure_dispatcher(&mut self) -> (dispatcher: Option<Dispatcher>)
        ensures
            final(self).tx == old(self).tx,
            handed_over(old(self).state, final(self).state, dispatcher),
    {
        if let PipeState::Dispatched(_) = self.state {
            return None;
        }
        let (default_tx, default_rx) = mpsc::unbounded_channel();
        let mut state = PipeState::Dispatched(default_rx);
        std::mem::swap(&mut state, &mut self.state);
        match state {
            PipeState::Direct(raw_rx) => {
                assert(crate::channel::opened_unbounded(default_tx, default_rx));
                Some(Dispatcher { raw_rx, default_tx, ledger: Ledger::new() })
            },
            PipeState::Dispatched(_) => None,
        }
    }
}

/// How an end gets a dispatcher: once, when it is in direct mode. The
/// dispatcher takes over what the end received from, and the end receives from
/// then on what the dispatcher passes on. An end that has one stays as it is.
pub open spec fn handed_over(
    before: PipeState,
    after: PipeState,
    dispatcher: Option<Dispatcher>,
) -> bool {
    match before {
        PipeState::Direct(raw_rx) => {
            &&& dispatcher is Some
            &&& dispatcher->0.raw_rx == raw_rx
            &&& dispatcher->0.record() == Seq::<Handing>::empty()
            &&& after is Dispatched
            &&& crate::channel::opened_unbounded(dispatcher->0.default_tx, after->Dispatched_0)
        },
        PipeState::Dispatched(_) => dispatcher is None && after == before,
    }
}

// ---- Pending calls ----

/// The calls that wait for responses, with the senders to their streams.
///
/// A caller enters a call before it sends the request; the dispatcher takes it
/// out at the end of the responses, and the stream when it is closed.
pub struct PendingMap {
    streams: HashMap<FrameId, mpsc::UnboundedSender<Frame>>,
}

impl View for PendingMap {
    type V = Map<FrameId, mpsc::UnboundedSender<Frame>>;

    closed spec fn view(&self) -> Map<FrameId, mpsc::UnboundedSender<Frame>> {
        self.streams@
    }
}

impl PendingMap {
    /// No call is pending.
    #[must_use]
    pub fn new() -> (pending: Self)
        ensures
            pending@ == Map::<FrameId, mpsc::UnboundedSender<Frame>>::empty(),
    {
        PendingMap { streams: HashMap::new() }
    }

    /// Whether the call with the given request is pending.
    #[must_use]
    pub fn contains_key(&self, id: FrameId) -> (yes: bool)
        ensures
            yes == self@.contains_key(id),
    {
        self.streams.contains_key(&id)
    }

    /// Takes the call with the given request out.
    pub fn remove(&mut self, id: FrameId)
        ensures
            final(self)@ == old(self)@.remove(id),
    {
        self.streams.remove(&id);
    }

    /// Takes all calls out. Their streams end, since nothing can be sent to them
    /// any more.
    pub fn clear(&mut self)
        ensures
            final(self)@ == Map::<FrameId, mpsc::UnboundedSender<Frame>>::empty(),
    {
        self.streams.clear();
    }

    /// The sender to the stream of the call that `frame` responds to.
    fn target(&self, frame: &Frame) -> (tx: Option<mpsc::UnboundedSender<Frame>>)
        ensures
            tx == target_of(self@, frame@),
    {
        match frame.parent_id {
            Some(parent) => match self.streams.get(&parent) {
                Some(tx) => Some(tx.clone()),
                None => None,
            },
            None => None,
        }
    }

    /// Goes on after a response was handed to the stream of its call: takes the
    /// call out if the response was its last or the stream is gone.
    pub fn settle(&mut self, parent: FrameId, terminal: bool, taken: bool)
        ensures
            final(self)@ == (if terminal || !taken {
                old(self)@.remove(parent)
            } else {
                old(self)@
            }),
    {
        if terminal || !taken {
            self.remove(parent);
        }
    }
}

/// The stream of the pending call that `frame` responds to, if there is one.
pub open spec fn target_of(
    pending: Map<FrameId, mpsc::UnboundedSender<Frame>>,
    frame: FrameView,
) -> Option<mpsc::UnboundedSender<Frame>> {
    match frame.parent_id {
        Some(parent) if pending.contains_key(parent) => Some(pending[parent]),
        _ => None,
    }
}

/// The calls that are pending after `frame` was handed to where it belongs, and
/// was taken there or not.
pub open spec fn dispatched(
    pending: Map<FrameId, mpsc::UnboundedSender<Frame>>,
    frame: FrameView,
    taken: bool,
) -> Map<FrameId, mpsc::UnboundedSender<Frame>> {
    match target_of(pending, frame) {
        Some(_) => if frame.status.ends_stream() || !taken {
            pending.remove(frame.parent_id->0)
        } else {
            pending
        },
        None => pending,
    }
}

/// Routes the frames that arrive at a pipe end to the calls that wait for them.
///
/// It is to be fed each frame that arrives at `raw_rx`, until none comes any
/// more or it asks to stop. Then the pending calls are to be cleared.
pub struct Dispatcher {
    /// Where the frames arrive.
    pub raw_rx: mpsc::Receiver<Frame>,
    /// Where frames go that no pending call waits for.
    pub default_tx: mpsc::UnboundedSender<Frame>,
    /// Hands the frames over.
    pub ledger: Ledger,
}

/// Where `frame` goes: to the stream of the pending call that it responds to,
/// otherwise to the default channel.
pub open spec fn place_of(
    pending: Map<FrameId, mpsc::UnboundedSender<Frame>>,
    default_tx: mpsc::UnboundedSender<Frame>,
    frame: FrameView,
) -> mpsc::UnboundedSender<Frame> {
    match target_of(pending, frame) {
        Some(tx) => tx,
        None => default_tx,
    }
}

/// What goes into the record of a dispatcher when it passes `frame` on.
pub open spec fn dispatch_record(
    pending: Map<FrameId, mpsc::UnboundedSender<Frame>>,
    default_tx: mpsc::UnboundedSender<Frame>,
    frame: FrameView,
    taken: bool,
) -> Seq<Handing> {
    seq![Handing::Handed { stream: place_of(pending, default_tx, frame), frame, taken }]
}

impl Dispatcher {
    /// All frames that were passed on, in order, with where each went and whether
    /// it was taken there.
    pub open spec fn record(self) -> Seq<Handing> {
        self.ledger@
    }

    /// Passes a frame on. Says whether to go on.
    ///
    /// A response to a pending call goes to the stream of that call, any other
    /// frame to the default channel. The dispatcher stops when the default
    /// channel is gone: then the pipe end is, too.
    pub fn dispatch(&mut self, pending: &mut PendingMap, frame: Frame) -> (go_on: bool)
        ensures
            final(self).raw_rx == old(self).raw_rx,
            final(self).default_tx == old(self).default_tx,
            exists|taken: bool|
                {
                    &&& #[trigger] crate::channel::handed(
                        place_of(old(pending)@, old(self).default_tx, frame@),
                        frame@,
                        taken,
                    )
                    &&& final(self).record() == old(self).record() + dispatch_record(
                        old(pending)@,
                        old(self).default_tx,
                        frame@,
                        taken,
                    )
                    &&& final(pending)@ == dispatched(old(pending)@, frame@, taken)
                    &&& go_on == (taken || target_of(old(pending)@, frame@) is Some)
                },
    {
        let parent_id = frame.parent_id;
        let terminal = frame.status.is_terminal();
        let ghost before = pending@;
        let ghost sent = frame@;
        match pending.target(&frame) {
            Some(tx) => {
                let taken = self.ledger.send_unbounded(&tx, frame);
                if let Some(parent) = parent_id {
                    pending.settle(parent, terminal, taken);
                }
                assert(self.record() =~= old(self).record() + dispatch_record(
                    before,
                    self.default_tx,
                    sent,
                    taken,
                ));
                true
            },
            None => {
                let taken = self.ledger.send_unbounded(&self.default_tx, frame);
                assert(self.record() =~= old(self).record() + dispatch_record(
                    before,
                    self.default_tx,
                    sent,
                    taken,
                ));
                taken
            },
        }
    }
}

// ---- Calls ----

/// Handle for calls through a pipe.
pub struct Caller {
    /// Sends to the other end of the pipe.
    pub tx: mpsc::Sender<Frame>,
}

impl Clone for Caller {
    /// A handle for calls through the same pipe.
    fn clone(&self) -> (copy: Self)
        ensures
            copy == *self,
    {
        Caller { tx: self.tx.clone() }
    }
}

impl Caller {
    /// Enters a call for `request` and opens the stream of its responses.
    ///
    /// The request is to be sent only then, so that no response can come before
    /// its call is pending. [`Caller::conclude`] takes what sending it came to.
    pub fn call(&self, pending: &mut PendingMap, request: &Frame) -> (stream: CallStream)
        ensures
            stream.id == request@.id,
            final(pending)@.contains_key(request@.id),
            final(pending)@ == old(pending)@.insert(request@.id, final(pending)@[request@.id]),
            crate::channel::opened_unbounded(final(pending)@[request@.id], stream.rx),
    {
        let (stream_tx, stream_rx) = mpsc::unbounded_channel();
        assert(crate::channel::opened_unbounded(stream_tx, stream_rx));
        pending.streams.insert(request.id, stream_tx);
        CallStream { rx: stream_rx, id: request.id }
    }

    /// Goes on after the request of a call was sent, or could not be.
    ///
    /// A call whose request could not be sent is taken out again.
    pub fn conclude(&self, pending: &mut PendingMap, stream: CallStream, sent: bool) -> (result: Result<
        CallStream,
        PipeError,
    >)
        ensures
            if sent {
                &&& result == Ok::<CallStream, PipeError>(stream)
                &&& final(pending)@ == old(pending)@
            } else {
                &&& result == Err::<CallStream, PipeError>(PipeError::SendFailed)
                &&& final(pending)@ == old(pending)@.remove(stream.id)
            },
    {
        if sent {
            Ok(stream)
        } else {
            pending.remove(stream.id);
            Err(PipeError::SendFailed)
        }
    }

    /// Sends a frame without expecting a response.
    pub fn send(&self, frame: Frame) -> (outbox: Outbox)
        ensures
            outbox.frames@ == seq![frame],
            outbox.result == Ok::<(), PipeError>(()),
    {
        Outbox::single(frame, Draws::new())
    }
}

/// The responses to a single call.
pub struct CallStream {
    /// Where they arrive.
    pub rx: mpsc::UnboundedReceiver<Frame>,
    /// The request of the call.
    pub id: FrameId,
}

impl CallStream {
    /// Takes the call out, for when its stream is dropped. Otherwise a stream
    /// dropped halfway would leave the call pending for good.
    pub fn close(&self, pending: &mut PendingMap)
        ensures
            final(pending)@ == old(pending)@.remove(self.id),
    {
        pending.remove(self.id);
    }
}

/// The responses of a stream, up to the one that ends it.
pub struct Collector {
    frames: Vec<Frame>,
    finished: bool,
}

/// What frames hold.
pub open spec fn frames_view(frames: Seq<Frame>) -> Seq<FrameView> {
    Seq::new(frames.len(), |i: int| frames[i]@)
}

/// `frames` up to and with the first that ends a stream; all if none does.
pub open spec fn up_to_terminal(frames: Seq<FrameView>) -> Seq<FrameView>
    decreases frames.len(),
{
    if frames.len() == 0 {
        frames
    } else if frames[0].status.ends_stream() {
        seq![frames[0]]
    } else {
        seq![frames[0]] + up_to_terminal(frames.drop_first())
    }
}

/// None of `frames` ends a stream.
pub open spec fn open_ended(frames: Seq<FrameView>) -> bool {
    forall|i: int| 0 <= i < frames.len() ==> !(#[trigger] frames[i]).status.ends_stream()
}

/// The first frames that arrive, none of which ends the stream before the last,
/// are those up to the end of the stream if the last ends it or no more arrive.
pub proof fn law_collected_up_to_terminal(collected: Seq<FrameView>, rest: Seq<FrameView>)
    requires
        collected.len() > 0 ==> open_ended(collected.drop_last()),
        rest.len() == 0 || (collected.len() > 0 && collected.last().status.ends_stream()),
    ensures
        up_to_terminal(collected + rest) == collected,
    decreases collected.len(),
{
    let all = collected + rest;
    if collected.len() == 0 {
        assert(all =~= collected);
    } else {
        assert(all[0] == collected[0]);
        if collected.len() == 1 {
            assert(collected =~= seq![collected[0]]);
            if !collected[0].status.ends_stream() {
                reveal_with_fuel(up_to_terminal, 2);
                assert(all.drop_first() =~= Seq::<FrameView>::empty());
            }
        } else {
            assert(collected.drop_last()[0] == collected[0]);
            let tail = collected.drop_first();
            assert forall|i: int| 0 <= i < tail.drop_last().len() implies !(
            #[trigger] tail.drop_last()[i]).status.ends_stream() by {
                assert(collected.drop_last()[i + 1] == tail.drop_last()[i]);
            }
            assert(tail.last() == collected.last());
            law_collected_up_to_terminal(tail, rest);
            assert(all.drop_first() =~= tail + rest);
            assert(collected =~= seq![collected[0]] + tail);
        }
    }
}

impl Collector {
    /// What was collected.
    pub closed spec fn collected(self) -> Seq<Frame> {
        self.frames@
    }

    /// Whether the collection is complete.
    pub closed spec fn complete(self) -> bool {
        self.finished
    }

    /// Nothing is collected yet.
    #[must_use]
    pub fn new() -> (collector: Self)
        ensures
            collector.collected() == Seq::<Frame>::empty(),
            !collector.complete(),
            open_ended(frames_view(collector.collected())),
    {
        Collector { frames: Vec::new(), finished: false }
    }

    /// Takes the next response, or that there is none any more. Says whether to
    /// go on.
    pub fn push(&mut self, received: Option<Frame>) -> (go_on: bool)
        requires
            !old(self).complete(),
        ensures
            go_on == !final(self).complete(),
            go_on && open_ended(frames_view(old(self).collected())) ==> open_ended(
                frames_view(final(self).collected()),
            ),
            match received {
                Some(frame) => {
                    &&& final(self).collected() == old(self).collected().push(frame)
                    &&& final(self).complete() == frame@.status.ends_stream()
                },
                None => {
                    &&& final(self).collected() == old(self).collected()
                    &&& final(self).complete()
                },
            },
    {
        match received {
            Some(frame) => {
                self.finished = frame.status.is_terminal();
                self.frames.push(frame);
                assert(frames_view(self.frames@) =~= frames_view(old(self).frames@).push(frame@));
            },
            None => {
                self.finished = true;
            },
        }
        !self.finished
    }

    /// The collected responses.
    pub fn into_frames(self) -> (frames: Vec<Frame>)
        ensures
            frames@ == self.collected(),
    {
        self.frames
    }
}

// ---- Laws ----

/// What a pending call has entered gets the responses to its request, and only
/// these.
pub proof fn law_calls_get_their_responses(
    pending: Map<FrameId, mpsc::UnboundedSender<Frame>>,
    id: FrameId,
    tx: mpsc::UnboundedSender<Frame>,
    frame: FrameView,
)
    ensures
        frame.parent_id == Some(id) ==> target_of(pending.insert(id, tx), frame) == Some(tx),
        frame.parent_id != Some(id) ==> target_of(pending.insert(id, tx), frame) == target_of(
            pending,
            frame,
        ),
{
}

/// A frame that responds to no pending call reaches none, but goes to the default
/// channel.
pub proof fn law_strangers_reach_no_call(
    pending: Map<FrameId, mpsc::UnboundedSender<Frame>>,
    default_tx: mpsc::UnboundedSender<Frame>,
    frame: FrameView,
)
    requires
        frame.parent_id matches Some(parent) ==> !pending.contains_key(parent),
    ensures
        target_of(pending, frame) is None,
        place_of(pending, default_tx, frame) == default_tx,
{
}

/// A call ends with the response that ends its stream, and with any response if
/// nobody takes it any more. Until then it goes on.
pub proof fn law_calls_end(
    pending: Map<FrameId, mpsc::UnboundedSender<Frame>>,
    frame: FrameView,
    taken: bool,
)
    requires
        target_of(pending, frame) is Some,
    ensures
        dispatched(pending, frame, taken).contains_key(frame.parent_id->0) <==> taken
            && !frame.status.ends_stream(),
{
}

/// Passing a frame on leaves all calls alone but the one that it responds to.
pub proof fn law_other_calls_untouched(
    pending: Map<FrameId, mpsc::UnboundedSender<Frame>>,
    frame: FrameView,
    taken: bool,
    other: FrameId,
)
    requires
        frame.parent_id != Some(other),
    ensures
        dispatched(pending, frame, taken).contains_key(other) == pending.contains_key(other),
        pending.contains_key(other) ==> dispatched(pending, frame, taken)[other]
            == pending[other],
{
}

/// Closing a stream undoes the call that opened it, and so does a request that
/// could not be sent. Closing the stream of a call that has ended does nothing.
pub proof fn law_close_undoes_call(
    pending: Map<FrameId, mpsc::UnboundedSender<Frame>>,
    id: FrameId,
    tx: mpsc::UnboundedSender<Frame>,
)
    requires
        !pending.contains_key(id),
    ensures
        pending.insert(id, tx).remove(id) == pending,
        pending.remove(id) == pending,
{
    assert(pending.insert(id, tx).remove(id) =~= pending);
    assert(pending.remove(id) =~= pending);
}

/// The frames among `frames` that respond to the request `id`.
pub open spec fn responses_to(frames: Seq<FrameView>, id: FrameId) -> Seq<FrameView>
    decreases frames.len(),
{
    if frames.len() == 0 {
        frames
    } else if frames[0].parent_id == Some(id) {
        seq![frames[0]] + responses_to(frames.drop_first(), id)
    } else {
        responses_to(frames.drop_first(), id)
    }
}

/// Two views of the pending calls agree on the call `id`.
pub open spec fn agree_on(
    a: Map<FrameId, mpsc::UnboundedSender<Frame>>,
    b: Map<FrameId, mpsc::UnboundedSender<Frame>>,
    id: FrameId,
) -> bool {
    &&& a.contains_key(id) == b.contains_key(id)
    &&& a.contains_key(id) ==> a[id] == b[id]
}

/// `frames` were passed on one after the other, as far as the call `id` is
/// concerned: `pendings` are the pending calls when each of them came and at the
/// end. In between, other calls may have come and gone. The stream of the call
/// takes what it gets; others may not.
pub open spec fn is_passing(
    pendings: Seq<Map<FrameId, mpsc::UnboundedSender<Frame>>>,
    frames: Seq<FrameView>,
    taken: Seq<bool>,
    id: FrameId,
) -> bool {
    &&& pendings.len() == frames.len() + 1
    &&& taken.len() == frames.len()
    &&& forall|k: int|
        0 <= k < frames.len() ==> {
            &&& agree_on(
                dispatched(#[trigger] pendings[k], frames[k], taken[k]),
                pendings[k + 1],
                id,
            )
            &&& frames[k].parent_id == Some(id) ==> taken[k]
        }
}

/// The frames that reach the stream of the call `id` when `frames` come one after
/// the other.
pub open spec fn passed_to(
    pendings: Seq<Map<FrameId, mpsc::UnboundedSender<Frame>>>,
    frames: Seq<FrameView>,
    id: FrameId,
) -> Seq<FrameView>
    decreases frames.len(),
{
    if frames.len() == 0 {
        frames
    } else {
        let rest = passed_to(pendings.drop_first(), frames.drop_first(), id);
        if frames[0].parent_id == Some(id) && target_of(pendings[0], frames[0]) is Some {
            seq![frames[0]] + rest
        } else {
            rest
        }
    }
}

/// The stream of a pending call gets exactly the responses to its request, in
/// the order in which they arrive, up to the one that ends it, whatever becomes
/// of other calls meanwhile. A call that is not pending gets nothing.
pub proof fn law_stream_of_a_call(
    pendings: Seq<Map<FrameId, mpsc::UnboundedSender<Frame>>>,
    frames: Seq<FrameView>,
    taken: Seq<bool>,
    id: FrameId,
)
    requires
        is_passing(pendings, frames, taken, id),
    ensures
        passed_to(pendings, frames, id) == (if pendings[0].contains_key(id) {
            up_to_terminal(responses_to(frames, id))
        } else {
            seq![]
        }),
    decreases frames.len(),
{
    if frames.len() > 0 {
        let frame = frames[0];
        let later = pendings.drop_first();
        assert forall|k: int| 0 <= k < frames.drop_first().len() implies {
            &&& agree_on(
                dispatched(#[trigger] later[k], frames.drop_first()[k], taken.drop_first()[k]),
                later[k + 1],
                id,
            )
            &&& frames.drop_first()[k].parent_id == Some(id) ==> taken.drop_first()[k]
        } by {
            assert(later[k] == pendings[k + 1]);
        }
        assert(agree_on(dispatched(pendings[0], frames[0], taken[0]), pendings[1], id));
        law_stream_of_a_call(later, frames.drop_first(), taken.drop_first(), id);
        if pendings[0].contains_key(id) && frame.parent_id == Some(id) {
            let rest = responses_to(frames.drop_first(), id);
            let all = seq![frame] + rest;
            assert(all.drop_first() =~= rest);
            assert(all[0] == frame);
            assert(seq![frame] + Seq::<FrameView>::empty() =~= seq![frame]);
        }
    }
}

/// What a dispatcher adds to its record when `frames` come one after the other:
/// `pendings` are the pending calls when each of them comes.
pub open spec fn passing_record(
    pendings: Seq<Map<FrameId, mpsc::UnboundedSender<Frame>>>,
    default_tx: mpsc::UnboundedSender<Frame>,
    frames: Seq<FrameView>,
    taken: Seq<bool>,
) -> Seq<Handing>
    decreases frames.len(),
{
    if frames.len() == 0 {
        seq![]
    } else {
        dispatch_record(pendings[0], default_tx, frames[0], taken[0]) + passing_record(
            pendings.drop_first(),
            default_tx,
            frames.drop_first(),
            taken.drop_first(),
        )
    }
}

/// Every frame goes to exactly one place, unchanged, and the frames go out in the
/// order in which they came: to each place, too.
pub proof fn law_each_frame_goes_to_one_place(
    pendings: Seq<Map<FrameId, mpsc::UnboundedSender<Frame>>>,
    default_tx: mpsc::UnboundedSender<Frame>,
    frames: Seq<FrameView>,
    taken: Seq<bool>,
)
    requires
        pendings.len() >= frames.len(),
        taken.len() == frames.len(),
    ensures
        passing_record(pendings, default_tx, frames, taken).len() == frames.len(),
        forall|k: int|
            0 <= k < frames.len() ==> #[trigger] passing_record(
                pendings,
                default_tx,
                frames,
                taken,
            )[k] == (Handing::Handed {
                stream: place_of(pendings[k], default_tx, frames[k]),
                frame: frames[k],
                taken: taken[k],
            }),
    decreases frames.len(),
{
    if frames.len() > 0 {
        let rest = passing_record(
            pendings.drop_first(),
            default_tx,
            frames.drop_first(),
            taken.drop_first(),
        );
        law_each_frame_goes_to_one_place(
            pendings.drop_first(),
            default_tx,
            frames.drop_first(),
            taken.drop_first(),
        );
        let all = passing_record(pendings, default_tx, frames, taken);
        assert forall|k: int| 0 <= k < frames.len() implies #[trigger] all[k] == (
        Handing::Handed {
            stream: place_of(pendings[k], default_tx, frames[k]),
            frame: frames[k],
            taken: taken[k],
        }) by {
            if k > 0 {
                assert(all[k] == rest[k - 1]);
                assert(frames.drop_first()[k - 1] == frames[k]);
                assert(pendings.drop_first()[k - 1] == pendings[k]);
                assert(taken.drop_first()[k - 1] == taken[k]);
            }
        }
    }
}

/// An end gets a dispatcher once, however often one is asked for: the first time
/// it takes over the very receiver of the end, with all that waits there, and
/// after that nothing changes.
pub proof fn law_dispatcher_is_made_once(
    before: PipeState,
    first: PipeState,
    dispatcher: Option<Dispatcher>,
    second: PipeState,
    again: Option<Dispatcher>,
)
    requires
        handed_over(before, first, dispatcher),
        handed_over(first, second, again),
    ensures
        again is None,
        second == first,
        before is Direct ==> dispatcher is Some && dispatcher->0.raw_rx == before->Direct_0,
{
}

} // verus!
