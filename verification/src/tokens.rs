//! The cancellation tokens of the requests that a subsystem works on.
use crate::channel::Handing;
use crate::channel::Ledger;
use crate::frame::Frame;
use crate::frame::FrameId;
use crate::frame::FrameView;
use crate::frame::Status;
use std::collections::HashMap;
use tokio_util::sync::CancellationToken;
use vstd::prelude::*;

verus! {

broadcast use vstd::std_specs::hash::group_hash_axioms;

/// The tokens of the requests that are being worked on.
///
/// A token is entered before its request is handed to the handler. It is taken
/// out when the handler is done, or triggered and taken out when the request is
/// cancelled. Requests can be cancelled by the router and by a cancel frame that
/// reaches the subsystem; whichever comes first finds the token.
pub struct TokenTable {
    tokens: HashMap<FrameId, CancellationToken>,
    ledger: Ledger,
}

/// What a token table holds and has done.
#[verifier::ext_equal]
pub struct Tokens {
    /// The tokens of the requests that are being worked on.
    pub live: Map<FrameId, CancellationToken>,
    /// The tokens that the table has triggered, in order.
    pub record: Seq<Handing>,
}

impl Tokens {
    /// No request is being worked on, and no token was triggered.
    pub open spec fn blank() -> Tokens {
        Tokens { live: Map::empty(), record: Seq::empty() }
    }

    /// After `token` was entered for a request. Nothing is triggered.
    pub open spec fn begun(self, request: FrameId, token: CancellationToken) -> Tokens {
        Tokens { live: self.live.insert(request, token), ..self }
    }

    /// After the token of a request was taken out. Nothing is triggered.
    pub open spec fn finished(self, request: FrameId) -> Tokens {
        Tokens { live: self.live.remove(request), ..self }
    }

    /// After a request was cancelled: its token is triggered and taken out, if it
    /// is being worked on. No other token is triggered.
    pub open spec fn cancelled(self, request: FrameId) -> Tokens {
        if self.live.contains_key(request) {
            Tokens {
                live: self.live.remove(request),
                record: self.record.push(Handing::Triggered { token: self.live[request] }),
            }
        } else {
            self
        }
    }

    /// After `frame` has arrived, if it brings no new token.
    pub open spec fn after_cancel(self, frame: FrameView) -> Tokens {
        match cancel_target(frame) {
            Some(target) => self.cancelled(target),
            None => self,
        }
    }
}

impl View for TokenTable {
    type V = Tokens;

    closed spec fn view(&self) -> Tokens {
        Tokens { live: self.tokens@, record: self.ledger@ }
    }
}

/// What a subsystem does about a frame that it has received.
pub enum Step {
    /// Hand the request to the handler with its token.
    Dispatch(CancellationToken),
    /// Nothing is left to do.
    Skip,
}

/// The request that `frame` asks to cancel.
pub open spec fn cancel_target(frame: FrameView) -> Option<FrameId> {
    if frame.status == Status::Cancel {
        frame.parent_id
    } else {
        None
    }
}

impl TokenTable {
    /// No request is being worked on.
    #[must_use]
    pub fn new() -> (table: Self)
        ensures
            table@ == Tokens::blank(),
    {
        TokenTable { tokens: HashMap::new(), ledger: Ledger::new() }
    }

    /// Makes a token for a request, and keeps it.
    pub fn begin(&mut self, request: FrameId) -> (token: CancellationToken)
        ensures
            crate::channel::token_made(token),
            final(self)@ == old(self)@.begun(request, token),
    {
        let token = CancellationToken::new();
        self.tokens.insert(request, token.clone());
        token
    }

    /// Triggers the token of a request and takes it out. Does nothing if the
    /// request is not being worked on.
    pub fn cancel(&mut self, request: FrameId)
        ensures
            final(self)@ == old(self)@.cancelled(request),
            old(self)@.live.contains_key(request) ==> crate::channel::triggered(
                old(self)@.live[request],
            ),
    {
        if let Some(token) = self.tokens.remove(&request) {
            self.ledger.cancel(&token);
        }
        assert(self@ =~= old(self)@.cancelled(request));
    }

    /// Takes the token of a request out, for when the handler is done with it.
    pub fn finish(&mut self, request: FrameId)
        ensures
            final(self)@ == old(self)@.finished(request),
    {
        self.tokens.remove(&request);
        assert(self@ =~= old(self)@.finished(request));
    }

    /// Decides what to do about a frame that reached the subsystem.
    ///
    /// A request gets a token and is to be dispatched. A cancel frame triggers
    /// the token of the request that it names. Other frames are passed over:
    /// responses to calls of the subsystem take another way.
    pub fn receive(&mut self, frame: &Frame) -> (step: Step)
        ensures
            match frame@.status {
                Status::Request => {
                    &&& step is Dispatch
                    &&& crate::channel::token_made(step->Dispatch_0)
                    &&& final(self)@ == old(self)@.begun(frame@.id, step->Dispatch_0)
                },
                _ => {
                    &&& step is Skip
                    &&& final(self)@ == old(self)@.after_cancel(frame@)
                    &&& cancel_target(frame@) matches Some(target)
                        ==> old(self)@.live.contains_key(target) ==> crate::channel::triggered(
                        old(self)@.live[target],
                    )
                },
            },
    {
        match frame.status {
            Status::Request => Step::Dispatch(self.begin(frame.id)),
            Status::Cancel => {
                if let Some(target) = frame.parent_id {
                    self.cancel(target);
                }
                Step::Skip
            },
            _ => Step::Skip,
        }
    }
}

/// Cancelling a request twice is as cancelling it once, and so is a handler that
/// finishes after its request was cancelled.
pub proof fn law_cancel_is_idempotent(tokens: Tokens, frame: FrameView)
    requires
        frame.status == Status::Cancel,
    ensures
        tokens.after_cancel(frame).after_cancel(frame) == tokens.after_cancel(frame),
        frame.parent_id matches Some(target) ==> tokens.after_cancel(frame).finished(target)
            == tokens.after_cancel(frame) && !tokens.after_cancel(frame).live.contains_key(target),
{
    match frame.parent_id {
        Some(target) => {
            assert(tokens.cancelled(target).finished(target) =~= tokens.cancelled(target));
        },
        None => {},
    }
}

/// A cancel frame touches no request but the one that it names, and triggers no
/// token but that of this request.
pub proof fn law_cancel_touches_one_request(tokens: Tokens, frame: FrameView, other: FrameId)
    requires
        cancel_target(frame) != Some(other),
    ensures
        tokens.after_cancel(frame).live.contains_key(other) == tokens.live.contains_key(other),
        tokens.live.contains_key(other) ==> tokens.after_cancel(frame).live[other]
            == tokens.live[other],
        tokens.after_cancel(frame).record == tokens.record || (frame.parent_id is Some
            && tokens.live.contains_key(frame.parent_id->0) && tokens.after_cancel(frame).record
            == tokens.record.push(
            Handing::Triggered { token: tokens.live[frame.parent_id->0] },
        )),
{
}

} // verus!
