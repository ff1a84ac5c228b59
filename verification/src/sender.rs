//! Common patterns of responding to a request.
use crate::error::PipeError;
use crate::frame::ErrorCode;
use crate::frame::Frame;
use crate::frame::Status;
use crate::stamp::Draws;
use crate::value::Value;
use tokio::sync::mpsc;
use vstd::prelude::*;

verus! {

/// Frames to send, and what that comes to.
///
/// The frames are to be sent one after the other until one cannot be sent.
/// [`Outbox::conclude`] says what it came to.
pub struct Outbox {
    /// What to send, in order.
    pub frames: Vec<Frame>,
    /// The result once all are sent.
    pub result: Result<(), PipeError>,
    /// The identifiers that were drawn for frames made here.
    pub draws: Draws,
}

impl Outbox {
    /// The frames were made here, each with an identifier that was drawn for it.
    pub open spec fn has_own_ids(self) -> bool {
        self.draws@ == crate::frame::frame_ids(crate::pipe::frames_view(self.frames@))
    }

    /// One frame to send, and nothing to fail besides.
    pub(crate) fn single(frame: Frame, draws: Draws) -> (outbox: Outbox)
        ensures
            outbox.frames@ == seq![frame],
            outbox.result == Ok::<(), PipeError>(()),
            outbox.draws == draws,
            draws@ == seq![frame@.id] ==> outbox.has_own_ids(),
    {
        let mut frames: Vec<Frame> = Vec::new();
        frames.push(frame);
        assert(frames@ =~= seq![frame]);
        assert(crate::frame::frame_ids(crate::pipe::frames_view(frames@)) =~= seq![frame@.id]);
        Outbox { frames, result: Ok(()), draws }
    }

    /// Nothing to send.
    fn nothing(result: Result<(), PipeError>) -> (outbox: Outbox)
        ensures
            outbox.frames@.len() == 0,
            outbox.result == result,
            outbox.has_own_ids(),
    {
        let outbox = Outbox { frames: Vec::new(), result, draws: Draws::new() };
        assert(outbox.draws@ =~= crate::frame::frame_ids(
            crate::pipe::frames_view(outbox.frames@),
        ));
        outbox
    }

    /// The result, once the frames were sent or one of them could not be.
    pub fn conclude(self, all_sent: bool) -> (result: Result<(), PipeError>)
        ensures
            result == (if all_sent {
                self.result
            } else {
                Err::<(), PipeError>(PipeError::SendFailed)
            }),
    {
        if all_sent {
            self.result
        } else {
            Err(PipeError::SendFailed)
        }
    }
}

/// How many values at the front could be serialized.
pub open spec fn serialized_prefix(items: Seq<Result<Value, String>>) -> int
    decreases items.len(),
{
    if items.len() == 0 {
        0
    } else if items[0] is Err {
        0
    } else {
        1 + serialized_prefix(items.drop_first())
    }
}

/// The outbox holds an item for each value at the front that could be
/// serialized, each with an identifier of its own. If these are all, the end of
/// the stream follows; otherwise the result is the reason why the next could not
/// be serialized.
pub open spec fn items_then_done(
    outbox: Outbox,
    request: crate::frame::FrameView,
    items: Seq<Result<Value, String>>,
) -> bool {
    let count = serialized_prefix(items);
    &&& outbox.has_own_ids()
    &&& forall|i: int|
        0 <= i < count ==> crate::frame::is_response(
            (#[trigger] outbox.frames@[i])@,
            request,
            Status::Item,
            crate::value::payload_of(items[i]->Ok_0@),
        )
    &&& if count == items.len() {
        &&& outbox.frames@.len() == count + 1
        &&& crate::frame::is_response(
            outbox.frames@[count]@,
            request,
            Status::Done,
            crate::value::empty_data(),
        )
        &&& outbox.result == Ok::<(), PipeError>(())
    } else {
        &&& outbox.frames@.len() == count
        &&& outbox.result == Err::<(), PipeError>(PipeError::Serialization(items[count]->Err_0))
    }
}

/// The front ends at the first value that could not be serialized.
pub(crate) proof fn lemma_serialized_prefix(items: Seq<Result<Value, String>>, count: int)
    requires
        0 <= count <= items.len(),
        forall|i: int| 0 <= i < count ==> (#[trigger] items[i]) is Ok,
        count < items.len() ==> items[count] is Err,
    ensures
        serialized_prefix(items) == count,
    decreases items.len(),
{
    if items.len() > 0 && count > 0 {
        assert(items[0] is Ok);
        let rest = items.drop_first();
        assert forall|i: int| 0 <= i < count - 1 implies (#[trigger] rest[i]) is Ok by {
            assert(items[i + 1] is Ok);
        }
        lemma_serialized_prefix(rest, count - 1);
    }
}

/// Sends responses through a channel.
pub struct FrameSender {
    tx: mpsc::Sender<Frame>,
}

impl Clone for FrameSender {
    /// A sender through the same channel.
    fn clone(&self) -> (copy: Self)
        ensures
            copy == *self,
    {
        FrameSender { tx: self.tx.clone() }
    }
}

impl FrameSender {
    /// Where the frames go.
    pub closed spec fn channel(self) -> mpsc::Sender<Frame> {
        self.tx
    }

    /// Sends through `tx`.
    #[must_use]
    pub fn new(tx: mpsc::Sender<Frame>) -> (sender: Self)
        ensures
            sender.channel() == tx,
    {
        FrameSender { tx }
    }

    /// Where the frames of an outbox are to be sent.
    #[must_use]
    pub fn tx(&self) -> (tx: &mpsc::Sender<Frame>)
        ensures
            *tx == self.channel(),
    {
        &self.tx
    }

    /// Sends a frame as it is.
    pub fn send(&self, frame: Frame) -> (outbox: Outbox)
        ensures
            outbox.frames@ == seq![frame],
            outbox.result == Ok::<(), PipeError>(()),
    {
        Outbox::single(frame, Draws::new())
    }

    /// Sends an item, of what serializing a value gave; nothing if that failed.
    pub fn send_item(&self, req: &Frame, serialized: Result<Value, String>) -> (outbox: Outbox)
        ensures
            outbox.has_own_ids(),
            match serialized {
                Ok(value) => {
                    &&& outbox.frames@.len() == 1
                    &&& crate::frame::is_response(
                        outbox.frames@[0]@,
                        req@,
                        Status::Item,
                        crate::value::payload_of(value@),
                    )
                    &&& outbox.result == Ok::<(), PipeError>(())
                },
                Err(reason) => {
                    &&& outbox.frames@.len() == 0
                    &&& outbox.result == Err::<(), PipeError>(PipeError::Serialization(reason))
                },
            },
    {
        match crate::value::to_data(serialized) {
            Ok(data) => {
                let mut draws = Draws::new();
                let frame = req.draw_response(&mut draws, Status::Item, data);
                assert(draws@ =~= seq![frame@.id]);
                Outbox::single(frame, draws)
            },
            Err(reason) => Outbox::nothing(Err(PipeError::Serialization(reason))),
        }
    }

    /// Sends the successful end of the responses.
    pub fn send_done(&self, req: &Frame) -> (outbox: Outbox)
        ensures
            outbox.has_own_ids(),
            outbox.frames@.len() == 1,
            crate::frame::is_response(
                outbox.frames@[0]@,
                req@,
                Status::Done,
                crate::value::empty_data(),
            ),
            outbox.result == Ok::<(), PipeError>(()),
    {
        let mut draws = Draws::new();
        let frame = req.draw_response(&mut draws, Status::Done, crate::value::no_data());
        assert(draws@ =~= seq![frame@.id]);
        Outbox::single(frame, draws)
    }

    /// Sends the failed end of the responses, with an internal error.
    pub fn send_error(&self, req: &Frame, message: &str) -> (outbox: Outbox)
        ensures
            outbox.has_own_ids(),
            outbox.frames@.len() == 1,
            crate::frame::is_response(
                outbox.frames@[0]@,
                req@,
                Status::Error,
                crate::frame::error_data("E_INTERNAL"@, message@, false),
            ),
            outbox.result == Ok::<(), PipeError>(()),
    {
        let mut draws = Draws::new();
        let data = crate::frame::make_error_data("E_INTERNAL", message.to_owned(), false);
        let frame = req.draw_response(&mut draws, Status::Error, data);
        assert(draws@ =~= seq![frame@.id]);
        Outbox::single(frame, draws)
    }

    /// Sends the failed end of the responses, made of an error.
    pub fn send_error_from<E: ErrorCode>(&self, req: &Frame, err: &E) -> (outbox: Outbox)
        ensures
            outbox.has_own_ids(),
            outbox.frames@.len() == 1,
            crate::frame::is_error_of(outbox.frames@[0]@, req@, err),
            outbox.result == Ok::<(), PipeError>(()),
    {
        Self::failure(req, err)
    }

    /// The failed end of the responses, made of an error.
    fn failure<E: ErrorCode + ?Sized>(req: &Frame, err: &E) -> (outbox: Outbox)
        ensures
            outbox.has_own_ids(),
            outbox.frames@.len() == 1,
            crate::frame::is_error_of(outbox.frames@[0]@, req@, err),
            outbox.result == Ok::<(), PipeError>(()),
    {
        let mut draws = Draws::new();
        let frame = req.draw_error_from(&mut draws, err);
        assert(draws@ =~= seq![frame@.id]);
        Outbox::single(frame, draws)
    }

    /// Sends an item and the end of the responses, or an error.
    pub fn finish_item<E: ErrorCode>(
        &self,
        req: &Frame,
        result: Result<Result<Value, String>, E>,
    ) -> (outbox: Outbox)
        ensures
            match result {
                Ok(serialized) => items_then_done(outbox, req@, seq![serialized]),
                Err(err) => {
                    &&& outbox.has_own_ids()
                    &&& outbox.frames@.len() == 1
                    &&& crate::frame::is_error_of(outbox.frames@[0]@, req@, &err)
                    &&& outbox.result == Ok::<(), PipeError>(())
                },
            },
    {
        match result {
            Ok(serialized) => {
                let mut items: Vec<Result<Value, String>> = Vec::new();
                items.push(serialized);
                assert(items@ =~= seq![serialized]);
                self.send_items_and_done(req, items)
            },
            Err(err) => self.send_error_from(req, &err),
        }
    }

    /// Sends items and the end of the responses, or an error.
    pub fn finish_items<E: ErrorCode>(
        &self,
        req: &Frame,
        result: Result<Vec<Result<Value, String>>, E>,
    ) -> (outbox: Outbox)
        ensures
            match result {
                Ok(items) => items_then_done(outbox, req@, items@),
                Err(err) => {
                    &&& outbox.has_own_ids()
                    &&& outbox.frames@.len() == 1
                    &&& crate::frame::is_error_of(outbox.frames@[0]@, req@, &err)
                    &&& outbox.result == Ok::<(), PipeError>(())
                },
            },
    {
        match result {
            Ok(items) => self.send_items_and_done(req, items),
            Err(err) => self.send_error_from(req, &err),
        }
    }

    /// Sends items and the end of the responses, as far as the items could be
    /// serialized.
    fn send_items_and_done(&self, req: &Frame, items: Vec<Result<Value, String>>) -> (outbox: Outbox)
        ensures
            items_then_done(outbox, req@, items@),
    {
        let mut frames: Vec<Frame> = Vec::new();
        let mut draws = Draws::new();
        let ghost all = items@;
        assert(draws@ =~= crate::frame::frame_ids(crate::pipe::frames_view(frames@)));
        for serialized in iter: items
            invariant
                iter.seq() == all,
                frames@.len() == iter.index(),
                draws@ == crate::frame::frame_ids(crate::pipe::frames_view(frames@)),
                forall|i: int| 0 <= i < iter.index() ==> (#[trigger] all[i]) is Ok,
                forall|i: int|
                    0 <= i < iter.index() ==> crate::frame::is_response(
                        (#[trigger] frames@[i])@,
                        req@,
                        Status::Item,
                        crate::value::payload_of(all[i]->Ok_0@),
                    ),
        {
            match crate::value::to_data(serialized) {
                Ok(data) => {
                    let frame = req.draw_response(&mut draws, Status::Item, data);
                    frames.push(frame);
                    assert(draws@ =~= crate::frame::frame_ids(crate::pipe::frames_view(frames@)));
                },
                Err(reason) => {
                    proof {
                        lemma_serialized_prefix(all, iter.index());
                    }
                    return Outbox {
                        frames,
                        result: Err(PipeError::Serialization(reason)),
                        draws,
                    };
                },
            }
        }
        proof {
            lemma_serialized_prefix(all, all.len() as int);
        }
        let done = req.draw_response(&mut draws, Status::Done, crate::value::no_data());
        frames.push(done);
        assert(draws@ =~= crate::frame::frame_ids(crate::pipe::frames_view(frames@)));
        Outbox { frames, result: Ok(()), draws }
    }

    /// Sends the successful end of the responses, or an error.
    pub fn finish<E: ErrorCode>(&self, req: &Frame, result: Result<(), E>) -> (outbox: Outbox)
        ensures
            outbox.has_own_ids(),
            outbox.frames@.len() == 1,
            outbox.result == Ok::<(), PipeError>(()),
            match result {
                Ok(_) => crate::frame::is_response(
                    outbox.frames@[0]@,
                    req@,
                    Status::Done,
                    crate::value::empty_data(),
                ),
                Err(err) => crate::frame::is_error_of(outbox.frames@[0]@, req@, &err),
            },
    {
        match result {
            Ok(()) => self.send_done(req),
            Err(err) => self.send_error_from(req, &err),
        }
    }

    /// Sends an error if a handler has failed; nothing if it has not, since then
    /// it has ended the responses itself.
    pub fn report<E: ErrorCode + ?Sized>(&self, req: &Frame, handled: Result<(), &E>) -> (outbox:
        Outbox)
        ensures
            outbox.has_own_ids(),
            outbox.result == Ok::<(), PipeError>(()),
            match handled {
                Ok(_) => outbox.frames@.len() == 0,
                Err(err) => {
                    &&& outbox.frames@.len() == 1
                    &&& crate::frame::is_error_of(outbox.frames@[0]@, req@, err)
                },
            },
    {
        match handled {
            Ok(()) => Outbox::nothing(Ok(())),
            Err(err) => Self::failure(req, err),
        }
    }
}

// ---- Laws ----

/// Items and the end are sent in full exactly if all could be serialized. Then
/// the one frame that ends the stream comes last. Otherwise no frame ends it. In
/// either case, all frames respond to the request.
pub proof fn law_items_end_once(
    outbox: Outbox,
    request: crate::frame::FrameView,
    items: Seq<Result<Value, String>>,
)
    requires
        items_then_done(outbox, request, items),
    ensures
        outbox.result is Ok <==> forall|i: int| 0 <= i < items.len() ==> (#[trigger] items[i]) is Ok,
        outbox.result is Ok ==> {
            &&& outbox.frames@.len() == items.len() + 1
            &&& outbox.frames@.last()@.status == Status::Done
            &&& crate::pipe::open_ended(crate::pipe::frames_view(outbox.frames@).drop_last())
        },
        outbox.result is Err ==> crate::pipe::open_ended(
            crate::pipe::frames_view(outbox.frames@),
        ),
        forall|i: int|
            0 <= i < outbox.frames@.len() ==> (#[trigger] outbox.frames@[i])@.parent_id == Some(
                request.id,
            ),
{
    lemma_serialized_prefix_splits(items);
    let count = serialized_prefix(items);
    assert forall|i: int| 0 <= i < count implies !(
    #[trigger] crate::pipe::frames_view(outbox.frames@)[i]).status.ends_stream() by {
        assert(crate::frame::is_response(
            outbox.frames@[i]@,
            request,
            Status::Item,
            crate::value::payload_of(items[i]->Ok_0@),
        ));
    }
}

/// What comes before the first value that could not be serialized.
proof fn lemma_serialized_prefix_splits(items: Seq<Result<Value, String>>)
    ensures
        0 <= serialized_prefix(items) <= items.len(),
        forall|i: int| 0 <= i < serialized_prefix(items) ==> (#[trigger] items[i]) is Ok,
        serialized_prefix(items) < items.len() ==> items[serialized_prefix(items)] is Err,
    decreases items.len(),
{
    if items.len() > 0 && items[0] is Ok {
        let rest = items.drop_first();
        lemma_serialized_prefix_splits(rest);
        assert forall|i: int| 0 <= i < serialized_prefix(items) implies (
        #[trigger] items[i]) is Ok by {
            if i > 0 {
                assert(rest[i - 1] is Ok);
            }
        }
    }
}

} // verus!
