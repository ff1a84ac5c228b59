//! The channels and cancellation tokens that carry frames and signals between
//! tasks, and the calls that need no waiting.
//!
//! What a channel does with a frame rests on the tasks at its two ends. So the
//! contracts here speak of the calls themselves: which frame was handed to which
//! sender, and what came back. Frames are handed over, and tokens triggered,
//! through a [`Ledger`] alone, which enters each such call once.
use crate::frame::Frame;
use crate::frame::FrameView;
use tokio::sync::mpsc;
use tokio_util::sync::CancellationToken;
use vstd::prelude::*;

verus! {

/// The sending half of a bounded channel.
#[verifier::external_type_specification]
#[verifier::external_body]
#[verifier::reject_recursive_types(T)]
pub struct ExSender<T>(tokio::sync::mpsc::Sender<T>);

/// The receiving half of a bounded channel.
#[verifier::external_type_specification]
#[verifier::external_body]
#[verifier::reject_recursive_types(T)]
pub struct ExReceiver<T>(tokio::sync::mpsc::Receiver<T>);

/// The sending half of an unbounded channel.
#[verifier::external_type_specification]
#[verifier::external_body]
#[verifier::reject_recursive_types(T)]
pub struct ExUnboundedSender<T>(tokio::sync::mpsc::UnboundedSender<T>);

/// The receiving half of an unbounded channel.
#[verifier::external_type_specification]
#[verifier::external_body]
#[verifier::reject_recursive_types(T)]
pub struct ExUnboundedReceiver<T>(tokio::sync::mpsc::UnboundedReceiver<T>);

/// A signal to a running task that it should stop.
#[verifier::external_type_specification]
#[verifier::external_body]
pub struct ExCancellationToken(tokio_util::sync::CancellationToken);

/// The capacities that a bounded channel can have.
pub open spec fn is_capacity(capacity: usize) -> bool {
    0 < capacity <= usize::MAX / 8
}

/// `tokio::sync::mpsc::channel`: a new bounded channel. It panics on other
/// capacities than these. Nothing is claimed of the two halves.
pub assume_specification<T>[ tokio::sync::mpsc::channel::<T> ](buffer: usize) -> (halves: (
    tokio::sync::mpsc::Sender<T>,
    tokio::sync::mpsc::Receiver<T>,
))
    requires
        is_capacity(buffer),
;

/// `tokio::sync::mpsc::unbounded_channel`: a new unbounded channel. Nothing is
/// claimed of the two halves.
pub assume_specification<T>[ tokio::sync::mpsc::unbounded_channel::<T> ]() -> (halves: (
    tokio::sync::mpsc::UnboundedSender<T>,
    tokio::sync::mpsc::UnboundedReceiver<T>,
))
;

/// `Sender::clone`: the clone feeds the same channel. Senders are told apart by
/// the channel that they feed alone, so it is claimed to be equal to its origin.
pub assume_specification<T>[ <tokio::sync::mpsc::Sender<T> as Clone>::clone ](
    sender: &tokio::sync::mpsc::Sender<T>,
) -> (copy: tokio::sync::mpsc::Sender<T>)
    ensures
        copy == *sender,
;

/// `UnboundedSender::clone`: the clone feeds the same channel, and is claimed to
/// be equal to its origin, as with bounded channels.
pub assume_specification<T>[ <tokio::sync::mpsc::UnboundedSender<T> as Clone>::clone ](
    sender: &tokio::sync::mpsc::UnboundedSender<T>,
) -> (copy: tokio::sync::mpsc::UnboundedSender<T>)
    ensures
        copy == *sender,
;

/// `CancellationToken::new`: a new token that has not been triggered. Nothing
/// is claimed of it.
pub assume_specification[ tokio_util::sync::CancellationToken::new ]() -> (token: tokio_util::sync::CancellationToken)
;

/// `CancellationToken::clone`: triggering the one triggers the other. Tokens are
/// told apart by nothing else, so the clone is claimed to be equal to its origin.
pub assume_specification[ <tokio_util::sync::CancellationToken as Clone>::clone ](
    token: &tokio_util::sync::CancellationToken,
) -> (copy: tokio_util::sync::CancellationToken)
    ensures
        copy == *token,
;

// ---- What calls were made ----
//
// Each of these says that a call was made with these arguments and that this
// came of it, and never how often. A ledger says how often.

/// `tx` and `rx` came from opening a bounded channel with the given capacity.
pub open spec fn opened(
    capacity: usize,
    tx: mpsc::Sender<Frame>,
    rx: mpsc::Receiver<Frame>,
) -> bool {
    call_ensures(mpsc::channel::<Frame>, (capacity,), (tx, rx))
}

/// `tx` and `rx` came from opening an unbounded channel.
pub open spec fn opened_unbounded(
    tx: mpsc::UnboundedSender<Frame>,
    rx: mpsc::UnboundedReceiver<Frame>,
) -> bool {
    call_ensures(mpsc::unbounded_channel::<Frame>, (), (tx, rx))
}

/// `token` was made as a new token.
pub open spec fn token_made(token: CancellationToken) -> bool {
    call_ensures(CancellationToken::new, (), token)
}

/// `token` was triggered, once or more often.
pub closed spec fn triggered(token: CancellationToken) -> bool {
    call_ensures(call_cancel, (&token,), ())
}

/// A frame that holds `frame` was handed to `tx` without waiting, once or more
/// often, and this was the outcome.
pub closed spec fn tried(tx: mpsc::Sender<Frame>, frame: FrameView, outcome: TrySend) -> bool {
    exists|sent: Frame|
        sent@ == frame && #[trigger] call_ensures(call_try_send, (&tx, sent), outcome)
}

/// A frame that holds `frame` was handed to `tx`, once or more often, which took
/// it or not.
pub closed spec fn handed(
    tx: mpsc::UnboundedSender<Frame>,
    frame: FrameView,
    taken: bool,
) -> bool {
    exists|sent: Frame|
        sent@ == frame && #[trigger] call_ensures(call_unbounded_send, (&tx, sent), taken)
}

/// What trying to send without waiting came to.
#[derive(Clone, Copy, Debug, PartialEq, Eq, Structural)]
pub enum TrySend {
    /// The channel took the frame.
    Sent,
    /// The channel has no room.
    Full,
    /// The receiving half is gone.
    Closed,
}

/// `Sender::try_send`. Whether the channel has room or is closed rests on the
/// task at its other end, so nothing is claimed of the outcome.
#[verifier::external_body]
fn call_try_send(tx: &mpsc::Sender<Frame>, frame: Frame) -> (outcome: TrySend) {
    match tx.try_send(frame) {
        Ok(()) => TrySend::Sent,
        Err(mpsc::error::TrySendError::Full(_)) => TrySend::Full,
        Err(mpsc::error::TrySendError::Closed(_)) => TrySend::Closed,
    }
}

/// `UnboundedSender::send`: whether the channel took the frame. It does not if
/// its receiving half is gone, which rests on another task, so nothing is
/// claimed of the outcome.
#[verifier::external_body]
fn call_unbounded_send(tx: &mpsc::UnboundedSender<Frame>, frame: Frame) -> (sent: bool) {
    tx.send(frame).is_ok()
}

/// `CancellationToken::cancel`: triggers the token, which wakes whoever waits
/// for it. It has no result to claim anything of.
#[verifier::external_body]
fn call_cancel(token: &CancellationToken) {
    token.cancel()
}

// ---- Keeping record of the calls ----

/// What was done with a frame or a token.
pub enum Handing {
    /// The frame was handed to a bounded channel without waiting.
    Tried { tx: mpsc::Sender<Frame>, frame: FrameView, outcome: TrySend },
    /// The frame was sent to a bounded channel waiting for room, as was reported.
    Waited { tx: mpsc::Sender<Frame>, frame: FrameView, taken: bool },
    /// The frame was handed to an unbounded channel.
    Handed { stream: mpsc::UnboundedSender<Frame>, frame: FrameView, taken: bool },
    /// The token was triggered.
    Triggered { token: CancellationToken },
}

/// Hands frames over and triggers tokens, and keeps record of it.
///
/// Whoever does so has a ledger, and does it through that ledger. So what is
/// added to its record is all that was handed over, in order. The record is of
/// this one ledger: it does not speak of calls through another.
pub struct Ledger {
    record: Ghost<Seq<Handing>>,
}

impl View for Ledger {
    type V = Seq<Handing>;

    closed spec fn view(&self) -> Seq<Handing> {
        self.record@
    }
}

impl Ledger {
    /// Nothing was handed over yet.
    #[must_use]
    pub fn new() -> (ledger: Self)
        ensures
            ledger@ == Seq::<Handing>::empty(),
    {
        Ledger { record: Ghost(Seq::empty()) }
    }

    /// Hands `frame` to `tx` if the channel has room.
    pub fn try_send(&mut self, tx: &mpsc::Sender<Frame>, frame: Frame) -> (outcome: TrySend)
        ensures
            tried(*tx, frame@, outcome),
            final(self)@ == old(self)@.push(Handing::Tried { tx: *tx, frame: frame@, outcome }),
    {
        let ghost sent = frame;
        let outcome = call_try_send(tx, frame);
        assert(call_ensures(call_try_send, (tx, sent), outcome));
        self.record = Ghost(
            self.record@.push(Handing::Tried { tx: *tx, frame: sent@, outcome }),
        );
        outcome
    }

    /// Enters what is reported of sending `frame` to `tx` waiting for room.
    pub fn report_wait(&mut self, tx: &mpsc::Sender<Frame>, frame: &Frame, taken: bool)
        ensures
            final(self)@ == old(self)@.push(Handing::Waited { tx: *tx, frame: frame@, taken }),
    {
        self.record = Ghost(self.record@.push(Handing::Waited { tx: *tx, frame: frame@, taken }));
    }

    /// Hands `frame` to `tx`. Says whether the channel took it.
    pub fn send_unbounded(&mut self, tx: &mpsc::UnboundedSender<Frame>, frame: Frame) -> (taken:
        bool)
        ensures
            handed(*tx, frame@, taken),
            final(self)@ == old(self)@.push(Handing::Handed { stream: *tx, frame: frame@, taken }),
    {
        let ghost sent = frame;
        let taken = call_unbounded_send(tx, frame);
        assert(call_ensures(call_unbounded_send, (tx, sent), taken));
        self.record = Ghost(self.record@.push(Handing::Handed { stream: *tx, frame: sent@, taken }));
        taken
    }

    /// Triggers `token`.
    pub fn cancel(&mut self, token: &CancellationToken)
        ensures
            triggered(*token),
            final(self)@ == old(self)@.push(Handing::Triggered { token: *token }),
    {
        call_cancel(token);
        assert(call_ensures(call_cancel, (token,), ()));
        self.record = Ghost(self.record@.push(Handing::Triggered { token: *token }));
    }
}

// ---- Laws ----

/// What the records say was done was done by a call, with what they name: the
/// frame went to the sender, the token was triggered, and this came back.
proof fn law_records_are_of_calls(
    tx: mpsc::Sender<Frame>,
    stream: mpsc::UnboundedSender<Frame>,
    token: CancellationToken,
    frame: FrameView,
    outcome: TrySend,
    taken: bool,
)
    ensures
        tried(tx, frame, outcome) ==> exists|sent: Frame|
            sent@ == frame && #[trigger] call_ensures(call_try_send, (&tx, sent), outcome),
        handed(stream, frame, taken) ==> exists|sent: Frame|
            sent@ == frame && #[trigger] call_ensures(call_unbounded_send, (&stream, sent), taken),
        triggered(token) ==> call_ensures(call_cancel, (&token,), ()),
{
}

/// A ledger enters each thing that is done through it once, and does it.
pub proof fn law_ledgers(
    ledger: &mut Ledger,
    blank: Ledger,
    tx: &mpsc::Sender<Frame>,
    stream: &mpsc::UnboundedSender<Frame>,
    token: &CancellationToken,
    frame: Frame,
    outcome: TrySend,
    taken: bool,
)
    ensures
        call_ensures(Ledger::new, (), blank) ==> blank@ == Seq::<Handing>::empty(),
        call_ensures(Ledger::try_send, (ledger, tx, frame), outcome) ==> tried(
            *tx,
            frame@,
            outcome,
        ) && final(ledger)@ == old(ledger)@.push(
            Handing::Tried { tx: *tx, frame: frame@, outcome },
        ),
        call_ensures(Ledger::report_wait, (ledger, tx, &frame, taken), ()) ==> final(ledger)@
            == old(ledger)@.push(Handing::Waited { tx: *tx, frame: frame@, taken }),
        call_ensures(Ledger::send_unbounded, (ledger, stream, frame), taken) ==> handed(
            *stream,
            frame@,
            taken,
        ) && final(ledger)@ == old(ledger)@.push(
            Handing::Handed { stream: *stream, frame: frame@, taken },
        ),
        call_ensures(Ledger::cancel, (ledger, token), ()) ==> triggered(*token) && final(ledger)@
            == old(ledger)@.push(Handing::Triggered { token: *token }),
{
}

} // verus!
