//! Laws of pipes and of calls through them.
use crate::channel::Handing;
use crate::error::PipeError;
use crate::frame::Frame;
use crate::frame::FrameId;
use crate::frame::Status;
use crate::pipe::CallStream;
use crate::pipe::Caller;
use crate::pipe::Collector;
use crate::pipe::Dispatcher;
use crate::pipe::PendingMap;
use crate::pipe::PipeEnd;
use crate::pipe::PipeState;
use tokio::sync::mpsc;
use vstd::prelude::*;

verus! {

/// A pipe is made of two channels of the given capacity: what one end sends with
/// belongs to where the other receives. The default capacity is 256.
pub proof fn law_pipes(capacity: usize, ends: (PipeEnd, PipeEnd), plain: (PipeEnd, PipeEnd))
    requires
        call_ensures(crate::pipe::pipe, (capacity,), ends),
        call_ensures(crate::pipe::pipe_default, (), plain),
    ensures
        ends.0.state is Direct && ends.1.state is Direct,
        call_ensures(
            mpsc::channel::<Frame>,
            (capacity,),
            (ends.0.tx, ends.1.state->Direct_0),
        ),
        call_ensures(
            mpsc::channel::<Frame>,
            (capacity,),
            (ends.1.tx, ends.0.state->Direct_0),
        ),
        plain.0.state is Direct && plain.1.state is Direct,
        call_ensures(
            mpsc::channel::<Frame>,
            (256usize,),
            (plain.0.tx, plain.1.state->Direct_0),
        ),
        call_ensures(
            mpsc::channel::<Frame>,
            (256usize,),
            (plain.1.tx, plain.0.state->Direct_0),
        ),
{
}

/// The sender of an end, and that of a caller, send to the other end.
pub proof fn law_senders_of_ends(end: PipeEnd, tx: mpsc::Sender<Frame>, caller: Caller, copy: Caller)
    requires
        call_ensures(PipeEnd::sender, (&end,), tx),
        call_ensures(<Caller as Clone>::clone, (&caller,), copy),
    ensures
        tx == end.tx,
        copy.tx == caller.tx,
{
}

/// The first caller of an end comes with a dispatcher, which takes over the very
/// receiver of the end; the end then receives what the dispatcher passes on by
/// default. Later callers come without one, and change nothing.
pub proof fn law_callers(
    end: &mut PipeEnd,
    caller: Caller,
    dispatcher: Option<Dispatcher>,
)
    requires
        call_ensures(PipeEnd::caller, (end,), (caller, dispatcher)),
    ensures
        caller.tx == old(end).tx,
        final(end).tx == old(end).tx,
        final(end).state is Dispatched,
        old(end).state matches PipeState::Direct(raw_rx) ==> {
            &&& dispatcher is Some
            &&& dispatcher->0.raw_rx == raw_rx
            &&& call_ensures(
                mpsc::unbounded_channel::<Frame>,
                (),
                (dispatcher->0.default_tx, final(end).state->Dispatched_0),
            )
            &&& dispatcher->0.ledger@ == Seq::<Handing>::empty()
        },
        old(end).state is Dispatched ==> dispatcher is None && final(end).state == old(end).state,
{
}

/// The pending calls: none at first; and taking out takes out just what is named,
/// or all.
pub proof fn law_pending_calls(
    blank: PendingMap,
    pending: &mut PendingMap,
    all: &mut PendingMap,
    id: FrameId,
    asked: FrameId,
    yes: bool,
)
    requires
        call_ensures(PendingMap::new, (), blank),
        call_ensures(PendingMap::remove, (pending, id), ()),
        call_ensures(PendingMap::clear, (all,), ()),
        call_ensures(PendingMap::contains_key, (&*final(pending), asked), yes),
    ensures
        !blank@.contains_key(asked),
        !final(all)@.contains_key(asked),
        yes <==> asked != id && old(pending)@.contains_key(asked),
        yes ==> final(pending)@[asked] == old(pending)@[asked],
{
}

/// A call opens a new stream for its request, and no other call changes.
pub proof fn law_calling(
    caller: Caller,
    pending: &mut PendingMap,
    request: &Frame,
    stream: CallStream,
    other: FrameId,
)
    requires
        call_ensures(Caller::call, (&caller, pending, request), stream),
    ensures
        stream.id == request.id,
        final(pending)@.contains_key(request.id),
        call_ensures(
            mpsc::unbounded_channel::<Frame>,
            (),
            (final(pending)@[request.id], stream.rx),
        ),
        other != request.id ==> final(pending)@.contains_key(other) == old(pending)@.contains_key(
            other,
        ) && (old(pending)@.contains_key(other) ==> final(pending)@[other] == old(pending)@[other]),
{
}

/// A call whose request was sent goes on; one whose request was not is taken out.
/// A stream that is closed takes its call out, too. No other call changes.
pub proof fn law_concluding_calls(
    caller: Caller,
    pending: &mut PendingMap,
    stream: CallStream,
    sent: bool,
    result: Result<CallStream, PipeError>,
    closing: &mut PendingMap,
    other: FrameId,
)
    requires
        call_ensures(Caller::conclude, (&caller, pending, stream, sent), result),
        call_ensures(CallStream::close, (&stream, closing), ()),
    ensures
        sent ==> result == Ok::<CallStream, PipeError>(stream) && final(pending)@ == old(pending)@,
        !sent ==> result matches Err(PipeError::SendFailed),
        !sent ==> !final(pending)@.contains_key(stream.id),
        !final(closing)@.contains_key(stream.id),
        other != stream.id ==> {
            &&& final(pending)@.contains_key(other) == old(pending)@.contains_key(other)
            &&& old(pending)@.contains_key(other) ==> final(pending)@[other] == old(pending)@[other]
            &&& final(closing)@.contains_key(other) == old(closing)@.contains_key(other)
            &&& old(closing)@.contains_key(other) ==> final(closing)@[other] == old(closing)@[other]
        },
{
}

/// A response to a pending call goes to the stream of that call, once and nowhere
/// else. The call is taken out if the response ends it or nobody takes it, and
/// goes on otherwise. The dispatcher goes on in either case.
pub proof fn law_dispatching_responses(
    dispatcher: &mut Dispatcher,
    pending: &mut PendingMap,
    frame: Frame,
    go_on: bool,
    id: FrameId,
)
    requires
        call_ensures(Dispatcher::dispatch, (dispatcher, pending, frame), go_on),
        frame.parent_id == Some(id),
        old(pending)@.contains_key(id),
    ensures
        go_on,
        exists|taken: bool|
            {
                &&& #[trigger] crate::channel::handed(old(pending)@[id], frame@, taken)
                &&& final(dispatcher).ledger@ == old(dispatcher).ledger@.push(
                    Handing::Handed { stream: old(pending)@[id], frame: frame@, taken },
                )
                &&& final(pending)@.contains_key(id) <==> taken && frame.status != Status::Done
                    && frame.status != Status::Error && frame.status != Status::Cancel
                &&& final(pending)@.contains_key(id) ==> final(pending)@[id] == old(pending)@[id]
            },
        final(dispatcher).raw_rx == old(dispatcher).raw_rx,
        final(dispatcher).default_tx == old(dispatcher).default_tx,
{
    let place = crate::pipe::place_of(old(pending)@, old(dispatcher).default_tx, frame@);
    assert(place == old(pending)@[id]);
    let taken = choose|taken: bool|
        {
            &&& #[trigger] crate::channel::handed(place, frame@, taken)
            &&& final(dispatcher).record() == old(dispatcher).record()
                + crate::pipe::dispatch_record(
                old(pending)@,
                old(dispatcher).default_tx,
                frame@,
                taken,
            )
            &&& final(pending)@ == crate::pipe::dispatched(old(pending)@, frame@, taken)
            &&& go_on == (taken || crate::pipe::target_of(old(pending)@, frame@) is Some)
        };
    assert(crate::channel::handed(old(pending)@[id], frame@, taken));
    assert(final(dispatcher).ledger@ =~= old(dispatcher).ledger@.push(
        Handing::Handed { stream: old(pending)@[id], frame: frame@, taken },
    ));
}

/// Any other frame goes to the default channel, once and nowhere else. No call
/// changes. The dispatcher goes on exactly if the frame is taken there.
pub proof fn law_dispatching_other_frames(
    dispatcher: &mut Dispatcher,
    pending: &mut PendingMap,
    frame: Frame,
    go_on: bool,
)
    requires
        call_ensures(Dispatcher::dispatch, (dispatcher, pending, frame), go_on),
        frame.parent_id is None || !old(pending)@.contains_key(frame.parent_id->0),
    ensures
        crate::channel::handed(old(dispatcher).default_tx, frame@, go_on),
        final(dispatcher).ledger@ == old(dispatcher).ledger@.push(
            Handing::Handed {
                stream: old(dispatcher).default_tx,
                frame: frame@,
                taken: go_on,
            },
        ),
        final(pending)@ == old(pending)@,
{
    let place = crate::pipe::place_of(old(pending)@, old(dispatcher).default_tx, frame@);
    assert(place == old(dispatcher).default_tx);
    let taken = choose|taken: bool|
        {
            &&& #[trigger] crate::channel::handed(place, frame@, taken)
            &&& final(dispatcher).record() == old(dispatcher).record()
                + crate::pipe::dispatch_record(
                old(pending)@,
                old(dispatcher).default_tx,
                frame@,
                taken,
            )
            &&& final(pending)@ == crate::pipe::dispatched(old(pending)@, frame@, taken)
            &&& go_on == (taken || crate::pipe::target_of(old(pending)@, frame@) is Some)
        };
    assert(taken == go_on);
    assert(final(dispatcher).ledger@ =~= old(dispatcher).ledger@.push(
        Handing::Handed { stream: old(dispatcher).default_tx, frame: frame@, taken: go_on },
    ));
}

/// Passing a frame on leaves all calls alone but the one that it responds to.
pub proof fn law_dispatching_leaves_other_calls(
    dispatcher: &mut Dispatcher,
    pending: &mut PendingMap,
    frame: Frame,
    go_on: bool,
    other: FrameId,
)
    requires
        call_ensures(Dispatcher::dispatch, (dispatcher, pending, frame), go_on),
        frame.parent_id != Some(other),
    ensures
        final(pending)@.contains_key(other) == old(pending)@.contains_key(other),
        old(pending)@.contains_key(other) ==> final(pending)@[other] == old(pending)@[other],
{
}

/// What becomes of a call after a response was handed to its stream.
pub proof fn law_settling(pending: &mut PendingMap, parent: FrameId, terminal: bool, taken: bool)
    requires
        call_ensures(PendingMap::settle, (pending, parent, terminal, taken), ()),
    ensures
        !terminal && taken ==> final(pending)@ == old(pending)@,
        terminal || !taken ==> final(pending)@ == old(pending)@.remove(parent),
{
}

/// Responses are collected as they come, one by one, up to and with the first that
/// ends the stream, or until no more come.
pub proof fn law_collecting(
    collector: &mut Collector,
    blank: Collector,
    frame: Frame,
    go_on: bool,
    ending: &mut Collector,
    ended: bool,
    frames: Vec<Frame>,
)
    requires
        call_ensures(Collector::new, (), blank),
        call_ensures(Collector::push, (collector, Some(frame)), go_on),
        call_ensures(Collector::push, (ending, None), ended),
        call_ensures(Collector::into_frames, (*final(collector),), frames),
    ensures
        blank.collected().len() == 0,
        !blank.complete(),
        frames@ == old(collector).collected().push(frame),
        final(collector).collected() == frames@,
        go_on <==> frame.status != Status::Done && frame.status != Status::Error && frame.status
            != Status::Cancel,
        final(collector).complete() == !go_on,
        !ended,
        final(ending).collected() == old(ending).collected(),
{
}

/// A channel can have any capacity but none, up to an eighth of the greatest number.
pub proof fn law_capacities(capacity: usize)
    ensures
        crate::channel::is_capacity(capacity) <==> 0 < capacity && capacity <= usize::MAX / 8,
{
}

} // verus!
