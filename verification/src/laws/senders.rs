//! Laws of what is sent in response to a request.
use crate::error::PipeError;
use crate::frame::ErrorCode;
use crate::frame::Frame;
use crate::frame::Status;
use crate::sender::FrameSender;
use crate::sender::Outbox;
use crate::value::Data;
use crate::value::Json;
use crate::value::Value;
use tokio::sync::mpsc;
use vstd::prelude::*;

verus! {

/// A sender sends through the channel that it was made with, and so do its copies.
pub proof fn law_senders(
    tx: mpsc::Sender<Frame>,
    sender: FrameSender,
    copy: FrameSender,
    of_sender: &mpsc::Sender<Frame>,
    of_copy: &mpsc::Sender<Frame>,
)
    requires
        call_ensures(FrameSender::new, (tx,), sender),
        call_ensures(<FrameSender as Clone>::clone, (&sender,), copy),
        call_ensures(FrameSender::tx, (&sender,), of_sender),
        call_ensures(FrameSender::tx, (&copy,), of_copy),
    ensures
        *of_sender == tx,
        *of_copy == tx,
{
}

/// What sending comes to: that it failed if a frame could not be sent, and what
/// the outbox says otherwise.
pub proof fn law_concluding(outbox: Outbox, all_sent: bool, result: Result<(), PipeError>)
    requires
        call_ensures(Outbox::conclude, (outbox, all_sent), result),
    ensures
        all_sent ==> result == outbox.result,
        !all_sent ==> result matches Err(PipeError::SendFailed),
{
}

/// A frame is sent as it is.
pub proof fn law_sending_a_frame(
    sender: FrameSender,
    frame: Frame,
    outbox: Outbox,
    caller: crate::pipe::Caller,
)
    requires
        call_ensures(FrameSender::send, (&sender, frame), outbox) || call_ensures(
            crate::pipe::Caller::send,
            (&caller, frame),
            outbox,
        ),
    ensures
        outbox.frames@.len() == 1,
        outbox.frames@[0] == frame,
        outbox.result is Ok,
{
}

/// All that is sent in response to a request names it and its call, carries its
/// trace, comes from nobody, and has identifiers that were drawn one by one.
pub proof fn law_everything_sent_responds<E: ErrorCode, F: ErrorCode + ?Sized>(
    sender: FrameSender,
    request: &Frame,
    outbox: Outbox,
    serialized: Result<Value, String>,
    message: &str,
    err: &E,
    item: Result<Result<Value, String>, E>,
    items: Result<Vec<Result<Value, String>>, E>,
    result: Result<(), E>,
    handled: Result<(), &F>,
    k: int,
)
    requires
        ({
            ||| call_ensures(FrameSender::send_item, (&sender, request, serialized), outbox)
            ||| call_ensures(FrameSender::send_done, (&sender, request), outbox)
            ||| call_ensures(FrameSender::send_error, (&sender, request, message), outbox)
            ||| call_ensures(FrameSender::send_error_from::<E>, (&sender, request, err), outbox)
            ||| call_ensures(FrameSender::finish_item::<E>, (&sender, request, item), outbox)
            ||| call_ensures(FrameSender::finish_items::<E>, (&sender, request, items), outbox)
            ||| call_ensures(FrameSender::finish::<E>, (&sender, request, result), outbox)
            ||| call_ensures(FrameSender::report::<F>, (&sender, request, handled), outbox)
        }),
        0 <= k < outbox.frames@.len(),
    ensures
        outbox.frames@[k].parent_id == Some(request.id),
        outbox.frames@[k].call@ == request.call@,
        outbox.frames@[k].from is None,
        outbox.frames@[k].expires_in == 0,
        request.trace is None ==> outbox.frames@[k].trace is None,
        request.trace matches Some(trace) ==> outbox.frames@[k].trace is Some
            && outbox.frames@[k].trace->0@ == trace@,
        outbox.draws@.len() == outbox.frames@.len(),
        outbox.draws@[k] == outbox.frames@[k].id,
        crate::stamp::id_drawn(outbox.frames@[k].id),
        (outbox.frames@[k].id >> 76u32) & 0xf == 4,
{
    let frame = outbox.frames@[k];
    let ids = crate::frame::frame_ids(crate::pipe::frames_view(outbox.frames@));
    assert(outbox.draws@ == ids);
    assert(ids[k] == frame@.id);
    if call_ensures(FrameSender::finish_item::<E>, (&sender, request, item), outbox) && item is Ok {
        lemma_items_respond(outbox, request, seq![item->Ok_0], k);
    } else if call_ensures(FrameSender::finish_items::<E>, (&sender, request, items), outbox)
        && items is Ok {
        lemma_items_respond(outbox, request, items->Ok_0@, k);
    }
    assert(frame@.parent_id == Some(request@.id));
    assert(crate::frame::text_view(frame.from) == None::<Seq<char>>);
    assert(frame@.trace == request@.trace);
}

/// Each of several items, and the end behind them, is a new response.
proof fn lemma_items_respond(
    outbox: Outbox,
    request: &Frame,
    items: Seq<Result<Value, String>>,
    k: int,
)
    requires
        crate::sender::items_then_done(outbox, request@, items),
        0 <= k < outbox.frames@.len(),
    ensures
        exists|status: Status, data: Map<Seq<char>, Json>| #[trigger]
            crate::frame::is_response(outbox.frames@[k]@, request@, status, data),
{
    let count = crate::sender::serialized_prefix(items);
    if k < count {
        assert(crate::frame::is_response(
            outbox.frames@[k]@,
            request@,
            Status::Item,
            crate::value::payload_of(items[k]->Ok_0@),
        ));
    } else {
        assert(crate::frame::is_response(
            outbox.frames@[k]@,
            request@,
            Status::Done,
            crate::value::empty_data(),
        ));
    }
}

/// An item holds the payload that its value makes. Without a value nothing is sent,
/// and the reason is the result.
pub proof fn law_sending_an_item(
    sender: FrameSender,
    request: &Frame,
    serialized: Result<Value, String>,
    outbox: Outbox,
    flat: Data,
    name: Seq<char>,
)
    requires
        call_ensures(FrameSender::send_item, (&sender, request, serialized), outbox),
        serialized is Ok ==> call_ensures(crate::value::flatten, (serialized->Ok_0,), flat),
    ensures
        serialized is Ok ==> {
            &&& outbox.frames@.len() == 1
            &&& outbox.result is Ok
            &&& outbox.frames@[0].status == Status::Item
            &&& outbox.frames@[0].data@.contains_key(name) == flat@.contains_key(name)
            &&& flat@.contains_key(name) ==> outbox.frames@[0].data@[name]@ == flat@[name]@
        },
        serialized matches Err(reason) ==> {
            &&& outbox.frames@.len() == 0
            &&& outbox.result matches Err(PipeError::Serialization(told)) && told == reason
        },
{
    if serialized is Ok {
        lemma_same_payload(outbox.frames@[0].data, flat, name);
    }
}

/// Payloads that hold the same hold equal values under the same names.
proof fn lemma_same_payload(a: Data, b: Data, name: Seq<char>)
    requires
        crate::value::data_view(a@) == crate::value::data_view(b@),
    ensures
        a@.contains_key(name) == b@.contains_key(name),
        b@.contains_key(name) ==> a@[name]@ == b@[name]@,
{
    let x = crate::value::data_view(a@);
    let y = crate::value::data_view(b@);
    assert(x.contains_key(name) == a@.contains_key(name));
    assert(y.contains_key(name) == b@.contains_key(name));
    if b@.contains_key(name) {
        assert(x[name] == a@[name]@);
        assert(y[name] == b@[name]@);
    }
}

/// The end of the responses is sent as one frame without payload.
pub proof fn law_sending_the_end<E: ErrorCode>(
    sender: FrameSender,
    request: &Frame,
    outbox: Outbox,
    name: Seq<char>,
)
    requires
        call_ensures(FrameSender::send_done, (&sender, request), outbox) || call_ensures(
            FrameSender::finish::<E>,
            (&sender, request, Ok(())),
            outbox,
        ),
    ensures
        outbox.frames@.len() == 1,
        outbox.result is Ok,
        outbox.frames@[0].status == Status::Done,
        !outbox.frames@[0].data@.contains_key(name),
{
    assert(outbox.frames@[0]@.data.contains_key(name) == outbox.frames@[0].data@.contains_key(
        name,
    ));
}

/// An internal error is sent as one frame that holds its code and the message.
pub proof fn law_sending_an_error(
    sender: FrameSender,
    request: &Frame,
    message: &str,
    outbox: Outbox,
    name: Seq<char>,
)
    requires
        call_ensures(FrameSender::send_error, (&sender, request, message), outbox),
    ensures
        outbox.frames@.len() == 1,
        outbox.result is Ok,
        outbox.frames@[0].status == Status::Error,
        outbox.frames@[0].data@.contains_key(name) <==> name == "code"@ || name == "message"@
            || name == "retryable"@,
        outbox.frames@[0].data@["code"@]@ == Json::String("E_INTERNAL"@),
        outbox.frames@[0].data@["message"@]@ == Json::String(message@),
        outbox.frames@[0].data@["retryable"@]@ == Json::Bool(false),
{
    crate::laws::frames::lemma_error_entries(
        outbox.frames@[0].data,
        "E_INTERNAL"@,
        message@,
        false,
        name,
    );
}

/// A failure is sent as one frame that holds what the error tells of itself,
/// whichever way it was reported.
pub proof fn law_sending_a_failure<E: ErrorCode>(
    sender: FrameSender,
    request: &Frame,
    err: E,
    outbox: Outbox,
    name: Seq<char>,
)
    requires
        ({
            ||| call_ensures(FrameSender::send_error_from::<E>, (&sender, request, &err), outbox)
            ||| call_ensures(FrameSender::finish_item::<E>, (&sender, request, Err(err)), outbox)
            ||| call_ensures(FrameSender::finish_items::<E>, (&sender, request, Err(err)), outbox)
            ||| call_ensures(FrameSender::finish::<E>, (&sender, request, Err(err)), outbox)
            ||| call_ensures(FrameSender::report::<E>, (&sender, request, Err(&err)), outbox)
        }),
    ensures
        outbox.frames@.len() == 1,
        outbox.result is Ok,
        outbox.frames@[0].status == Status::Error,
        exists|code: &'static str, message: String, retryable: bool|
            {
                &&& #[trigger] call_ensures(E::error_code, (&err,), code)
                &&& #[trigger] call_ensures(E::message, (&err,), message)
                &&& #[trigger] call_ensures(E::retryable, (&err,), retryable)
                &&& outbox.frames@[0].data@["code"@]@ == Json::String(code@)
                &&& outbox.frames@[0].data@["message"@]@ == Json::String(message@)
                &&& outbox.frames@[0].data@["retryable"@]@ == Json::Bool(retryable)
            },
        outbox.frames@[0].data@.contains_key(name) <==> name == "code"@ || name == "message"@
            || name == "retryable"@,
{
    let response = outbox.frames@[0];
    assert(crate::frame::is_error_of(response@, request@, &err));
    let (code, message, retryable) = choose|code: &'static str, message: String, retryable: bool|
        {
            &&& call_ensures(E::error_code, (&err,), code)
            &&& call_ensures(E::message, (&err,), message)
            &&& call_ensures(E::retryable, (&err,), retryable)
            &&& #[trigger] crate::frame::is_response(
                response@,
                request@,
                Status::Error,
                crate::frame::error_data(code@, message@, retryable),
            )
        };
    crate::laws::frames::lemma_error_entries(response.data, code@, message@, retryable, name);
}

/// Of a handler that has not failed nothing is reported.
pub proof fn law_reporting_success<F: ErrorCode + ?Sized>(
    sender: FrameSender,
    request: &Frame,
    outbox: Outbox,
)
    requires
        call_ensures(FrameSender::report::<F>, (&sender, request, Ok(())), outbox),
    ensures
        outbox.frames@.len() == 0,
        outbox.result is Ok,
{
}

/// Items are sent one by one, each with the payload that its value makes, as far
/// as there are values. If there is one for each, the end follows and all is well.
/// Otherwise nothing follows, and the reason is the result.
pub proof fn law_sending_items<E: ErrorCode>(
    sender: FrameSender,
    request: &Frame,
    items: Vec<Result<Value, String>>,
    outbox: Outbox,
    count: int,
    k: int,
    flat: Data,
    name: Seq<char>,
)
    requires
        call_ensures(FrameSender::finish_items::<E>, (&sender, request, Ok(items)), outbox) || (
        items@.len() == 1 && call_ensures(
            FrameSender::finish_item::<E>,
            (&sender, request, Ok(items@[0])),
            outbox,
        )),
        0 <= count <= items@.len(),
        forall|i: int| 0 <= i < count ==> (#[trigger] items@[i]) is Ok,
        count < items@.len() ==> items@[count] is Err,
        0 <= k < count,
        call_ensures(crate::value::flatten, (items@[k]->Ok_0,), flat),
    ensures
        outbox.frames@[k].status == Status::Item,
        outbox.frames@[k].data@.contains_key(name) == flat@.contains_key(name),
        flat@.contains_key(name) ==> outbox.frames@[k].data@[name]@ == flat@[name]@,
        count < items@.len() ==> outbox.frames@.len() == count,
        count == items@.len() ==> outbox.frames@.len() == count + 1,
{
    crate::sender::lemma_serialized_prefix(items@, count);
    assert(items@.len() == 1 ==> items@ =~= seq![items@[0]]);
    assert(crate::sender::items_then_done(outbox, request@, items@));
    assert(crate::frame::is_response(
        outbox.frames@[k]@,
        request@,
        Status::Item,
        crate::value::payload_of(items@[k]->Ok_0@),
    ));
    lemma_same_payload(outbox.frames@[k].data, flat, name);
}

/// How items end, also where there are none.
pub proof fn law_ending_items<E: ErrorCode>(
    sender: FrameSender,
    request: &Frame,
    items: Vec<Result<Value, String>>,
    outbox: Outbox,
    count: int,
    name: Seq<char>,
)
    requires
        call_ensures(FrameSender::finish_items::<E>, (&sender, request, Ok(items)), outbox) || (
        items@.len() == 1 && call_ensures(
            FrameSender::finish_item::<E>,
            (&sender, request, Ok(items@[0])),
            outbox,
        )),
        0 <= count <= items@.len(),
        forall|i: int| 0 <= i < count ==> (#[trigger] items@[i]) is Ok,
        count < items@.len() ==> items@[count] is Err,
    ensures
        count < items@.len() ==> outbox.frames@.len() == count && (outbox.result matches Err(
            PipeError::Serialization(reason),
        ) && reason == items@[count]->Err_0),
        count == items@.len() ==> {
            &&& outbox.frames@.len() == count + 1
            &&& outbox.frames@[count].status == Status::Done
            &&& !outbox.frames@[count].data@.contains_key(name)
            &&& outbox.result is Ok
        },
{
    crate::sender::lemma_serialized_prefix(items@, count);
    assert(items@.len() == 1 ==> items@ =~= seq![items@[0]]);
    assert(crate::sender::items_then_done(outbox, request@, items@));
    if count == items@.len() {
        let done = outbox.frames@[count];
        assert(done@.data.contains_key(name) == done.data@.contains_key(name));
    }
}

} // verus!
