//! Laws of texts, stamps and frames.
use crate::frame::ErrorCode;
use crate::frame::Frame;
use crate::frame::Status;
use crate::stamp::Draws;
use crate::stamp::Stamp;
use crate::value::Data;
use crate::value::Json;
use crate::value::Value;
use vstd::prelude::*;

verus! {

// ---- Texts ----

/// The first separator of a text that holds the colon once it is past `a`.
pub(crate) proof fn lemma_split_at(a: Seq<char>, b: Seq<char>)
    requires
        !a.contains(':'),
    ensures
        crate::text::before_separator(a + seq![':'] + b) == a,
        crate::text::after_separator(a + seq![':'] + b) == b,
        crate::text::before_separator(a) == a,
        crate::text::after_separator(a) == Seq::<char>::empty(),
{
    let s = a + seq![':'] + b;
    crate::text::lemma_separator_split(a, b);
    assert(s[a.len() as int] == ':');
    assert(s.contains(':'));
    assert(s.take(a.len() as int) =~= a);
    assert(s.skip((a.len() + 1) as int) =~= b);
    assert(a.take(a.len() as int) =~= a);
}

/// Two texts are the same if they have the same characters, and a text is split at
/// its first colon.
pub proof fn law_texts(
    s: &str,
    t: &str,
    same: bool,
    split: Option<(&str, &str)>,
    a: Seq<char>,
    b: Seq<char>,
)
    requires
        call_ensures(crate::text::str_eq, (s, t), same),
        call_ensures(crate::text::split_once, (s,), split),
        !a.contains(':'),
    ensures
        same <==> s@ == t@,
        s@ == a + seq![':'] + b ==> split is Some && (split->0).0@ == a && (split->0).1@ == b,
        s@ == a ==> split is None,
{
    lemma_split_at(a, b);
    if s@ == a + seq![':'] + b {
        assert(s@[a.len() as int] == ':');
        assert(s@.contains(':'));
    }
}

/// The prefix of a call is what stands before its first colon and the verb what
/// stands behind it. A call without a colon is its own prefix, and has no verb.
pub proof fn law_prefix_and_verb(
    frame: &Frame,
    prefix: &str,
    verb: &str,
    a: Seq<char>,
    b: Seq<char>,
)
    requires
        call_ensures(Frame::prefix, (frame,), prefix),
        call_ensures(Frame::verb, (frame,), verb),
        !a.contains(':'),
    ensures
        frame.call@ == a + seq![':'] + b ==> prefix@ == a && verb@ == b,
        frame.call@ == a ==> prefix@ == a && verb@ == Seq::<char>::empty(),
{
    lemma_split_at(a, b);
}

// ---- Stamps ----

/// The milliseconds of a clock reading are the whole ones in it: 0 without a
/// reading, and the greatest number where they do not fit.
pub proof fn law_milliseconds(nanos: Option<u128>, millis: i64)
    requires
        call_ensures(crate::stamp::epoch_millis, (nanos,), millis),
    ensures
        nanos is None ==> millis == 0,
        nanos matches Some(n) ==> millis >= 0 && millis * 1_000_000 <= n && (n < (millis + 1)
            * 1_000_000 || millis == i64::MAX),
{
}

/// Every stamp has the bits of a random UUID, and a time that is not before the
/// epoch. A record of draws gets the identifier of each stamp made through it.
pub proof fn law_stamps(draws: &mut Draws, stamp: Stamp)
    requires
        call_ensures(Stamp::now, (), stamp) || call_ensures(Draws::stamp, (draws,), stamp),
    ensures
        (stamp.id >> 76u32) & 0xf == 4,
        (stamp.id >> 62u32) & 0x3 == 2,
        stamp.created_ms >= 0,
        crate::stamp::id_drawn(stamp.id),
        exists|nanos: Option<u128>| #[trigger]
            crate::stamp::clock_read(nanos) && stamp.created_ms == crate::stamp::epoch_millis_spec(
                nanos,
            ),
        call_ensures(Draws::stamp, (draws,), stamp) ==> final(draws)@ == old(draws)@.push(stamp.id),
{
}

// ---- Frames ----

/// The view of a frame holds all that the frame holds.
pub proof fn law_view_of_a_frame(frame: Frame, name: Seq<char>)
    ensures
        frame@.id == frame.id,
        frame@.parent_id == frame.parent_id,
        frame@.created_ms == frame.created_ms,
        frame@.expires_in == frame.expires_in,
        frame.from matches Some(from) ==> frame@.from == Some(from@),
        frame.from is None ==> frame@.from is None,
        frame@.call == frame.call@,
        frame@.status == frame.status,
        frame.trace matches Some(trace) ==> frame@.trace == Some(trace@),
        frame.trace is None ==> frame@.trace is None,
        frame@.data.contains_key(name) == frame.data@.contains_key(name),
        frame.data@.contains_key(name) ==> frame@.data[name] == frame.data@[name]@,
{
}

/// A copy of a frame holds what the frame holds.
pub proof fn law_copy_of_a_frame(frame: Frame, copy: Frame)
    requires
        call_ensures(<Frame as Clone>::clone, (&frame,), copy),
    ensures
        copy@ == frame@,
{
}

/// A stream ends with the frames that are done, failed or cancelled, and with no
/// others.
pub proof fn law_ends(status: Status, terminal: bool)
    requires
        call_ensures(Status::is_terminal, (status,), terminal),
    ensures
        terminal <==> status == Status::Done || status == Status::Error || status
            == Status::Cancel,
        terminal == status.ends_stream(),
{
}

/// A new request responds to nothing, comes from nobody, does not expire, has no
/// trace, and holds the call and the payload that it was made with.
pub proof fn law_new_requests(call: &str, data: Data, plain: Frame, loaded: Frame, name: Seq<char>)
    requires
        call_ensures(Frame::request, (call,), plain),
        call_ensures(Frame::request_with, (call, data), loaded),
    ensures
        forall|frame: Frame| #![trigger frame.call]
            frame == plain || frame == loaded ==> {
                &&& frame.parent_id is None
                &&& frame.from is None
                &&& frame.expires_in == 0
                &&& frame.trace is None
                &&& frame.call@ == call@
                &&& frame.status == Status::Request
                &&& (frame.id >> 76u32) & 0xf == 4
                &&& (frame.id >> 62u32) & 0x3 == 2
                &&& frame.created_ms >= 0
            },
        !plain.data@.contains_key(name),
        loaded.data@.contains_key(name) == data@.contains_key(name),
        data@.contains_key(name) ==> loaded.data@[name]@ == data@[name]@,
{
    assert(plain@.data.contains_key(name) == plain.data@.contains_key(name));
    assert(loaded@.data.contains_key(name) == loaded.data@.contains_key(name));
    let given = crate::value::data_view(data@);
    assert(given.contains_key(name) == data@.contains_key(name));
    if data@.contains_key(name) {
        assert(given[name] == data@[name]@);
        assert(loaded@.data[name] == loaded.data@[name]@);
    }
}

/// Every response, however it was made and whatever the request holds: it names
/// the request and its call and carries its trace; it comes from nobody, whoever
/// the request came from, and does not expire.
pub proof fn law_every_response<E, F: ErrorCode + ?Sized>(
    request: &Frame,
    response: Frame,
    data: Data,
    serialized: Result<Value, E>,
    message: &str,
    err: &F,
    stamp: Stamp,
    status: Status,
    draws: &mut Draws,
)
    requires
        ({
            ||| call_ensures(Frame::item, (request, data), response)
            ||| call_ensures(Frame::bulk, (request, data), response)
            ||| call_ensures(Frame::done, (request,), response)
            ||| call_ensures(Frame::done_with, (request, data), response)
            ||| call_ensures(Frame::cancel, (request,), response)
            ||| call_ensures(Frame::error, (request, message), response)
            ||| call_ensures(Frame::error_from::<F>, (request, err), response)
            ||| call_ensures(Frame::draw_error_from::<F>, (request, draws, err), response)
            ||| call_ensures(Frame::draw_response, (request, draws, status, data), response)
            ||| call_ensures(Frame::response_stamped, (request, stamp, status, data), response)
            ||| call_ensures(Frame::item_from::<E>, (request, serialized), Ok(response))
            ||| call_ensures(Frame::bulk_from::<E>, (request, serialized), Ok(response))
            ||| call_ensures(Frame::done_from::<E>, (request, serialized), Ok(response))
        }),
    ensures
        response.parent_id == Some(request.id),
        response.from is None,
        response.expires_in == 0,
        response.call@ == request.call@,
        request.trace is None ==> response.trace is None,
        request.trace matches Some(trace) ==> response.trace is Some && response.trace->0@
            == trace@,
{
    assert(crate::frame::text_view(response.from) == None::<Seq<char>>);
    assert(response@.trace == request@.trace);
}

/// The statuses of responses, and that each is a new frame.
pub proof fn law_statuses_of_responses<E, F: ErrorCode + ?Sized>(
    request: &Frame,
    response: Frame,
    data: Data,
    serialized: Result<Value, E>,
    message: &str,
    err: &F,
    stamp: Stamp,
    status: Status,
    draws: &mut Draws,
)
    ensures
        call_ensures(Frame::item, (request, data), response) ==> response.status == Status::Item,
        call_ensures(Frame::bulk, (request, data), response) ==> response.status == Status::Bulk,
        call_ensures(Frame::done, (request,), response) ==> response.status == Status::Done,
        call_ensures(Frame::done_with, (request, data), response) ==> response.status
            == Status::Done,
        call_ensures(Frame::cancel, (request,), response) ==> response.status == Status::Cancel,
        call_ensures(Frame::error, (request, message), response) ==> response.status
            == Status::Error,
        call_ensures(Frame::error_from::<F>, (request, err), response) ==> response.status
            == Status::Error,
        call_ensures(Frame::draw_error_from::<F>, (request, draws, err), response)
            ==> response.status == Status::Error && final(draws)@ == old(draws)@.push(response.id),
        call_ensures(Frame::draw_response, (request, draws, status, data), response)
            ==> response.status == status && final(draws)@ == old(draws)@.push(response.id)
            && crate::stamp::id_drawn(response.id),
        call_ensures(Frame::response_stamped, (request, stamp, status, data), response)
            ==> response.status == status && response.id == stamp.id && response.created_ms
            == stamp.created_ms,
        call_ensures(Frame::item_from::<E>, (request, serialized), Ok(response))
            ==> response.status == Status::Item,
        call_ensures(Frame::bulk_from::<E>, (request, serialized), Ok(response))
            ==> response.status == Status::Bulk,
        call_ensures(Frame::done_from::<E>, (request, serialized), Ok(response))
            ==> response.status == Status::Done,
{
}

/// Every new frame has an identifier that was drawn for it, with the bits of a
/// random UUID, and the time that the clock told.
pub proof fn law_new_frames_are_stamped<E, F: ErrorCode + ?Sized>(
    request: &Frame,
    frame: Frame,
    call: &str,
    data: Data,
    serialized: Result<Value, E>,
    message: &str,
    err: &F,
    status: Status,
    draws: &mut Draws,
)
    requires
        ({
            ||| call_ensures(Frame::request, (call,), frame)
            ||| call_ensures(Frame::request_with, (call, data), frame)
            ||| call_ensures(Frame::item, (request, data), frame)
            ||| call_ensures(Frame::bulk, (request, data), frame)
            ||| call_ensures(Frame::done, (request,), frame)
            ||| call_ensures(Frame::done_with, (request, data), frame)
            ||| call_ensures(Frame::cancel, (request,), frame)
            ||| call_ensures(Frame::error, (request, message), frame)
            ||| call_ensures(Frame::error_from::<F>, (request, err), frame)
            ||| call_ensures(Frame::draw_error_from::<F>, (request, draws, err), frame)
            ||| call_ensures(Frame::draw_response, (request, draws, status, data), frame)
            ||| call_ensures(Frame::item_from::<E>, (request, serialized), Ok(frame))
            ||| call_ensures(Frame::bulk_from::<E>, (request, serialized), Ok(frame))
            ||| call_ensures(Frame::done_from::<E>, (request, serialized), Ok(frame))
        }),
    ensures
        crate::stamp::id_drawn(frame.id),
        (frame.id >> 76u32) & 0xf == 4,
        (frame.id >> 62u32) & 0x3 == 2,
        exists|nanos: Option<u128>| #[trigger]
            crate::stamp::clock_read(nanos) && frame.created_ms == crate::stamp::epoch_millis_spec(
                nanos,
            ),
{
}

/// The payloads of responses: just what was given, and nothing where nothing was
/// given.
pub proof fn law_payloads_of_responses(
    request: &Frame,
    response: Frame,
    data: Data,
    stamp: Stamp,
    status: Status,
    draws: &mut Draws,
    name: Seq<char>,
)
    ensures
        call_ensures(Frame::done, (request,), response) || call_ensures(
            Frame::cancel,
            (request,),
            response,
        ) ==> !response.data@.contains_key(name),
        call_ensures(Frame::item, (request, data), response) || call_ensures(
            Frame::bulk,
            (request, data),
            response,
        ) || call_ensures(Frame::done_with, (request, data), response) || call_ensures(
            Frame::draw_response,
            (request, draws, status, data),
            response,
        ) || call_ensures(Frame::response_stamped, (request, stamp, status, data), response)
            ==> response.data@.contains_key(name) == data@.contains_key(name) && (
        data@.contains_key(name) ==> response.data@[name]@ == data@[name]@),
{
    assert(response@.data.contains_key(name) == response.data@.contains_key(name));
    let given = crate::value::data_view(data@);
    assert(given.contains_key(name) == data@.contains_key(name));
    if data@.contains_key(name) {
        assert(given[name] == data@[name]@);
    }
    if response.data@.contains_key(name) {
        assert(response@.data[name] == response.data@[name]@);
    }
}

/// The payload of a response that is made of what serializing gave is the one that
/// the value makes. Where serializing failed there is no response.
pub proof fn law_payloads_of_serialized_responses<E>(
    request: &Frame,
    serialized: Result<Value, E>,
    response: Result<Frame, E>,
    flat: Data,
    name: Seq<char>,
)
    requires
        ({
            ||| call_ensures(Frame::item_from::<E>, (request, serialized), response)
            ||| call_ensures(Frame::bulk_from::<E>, (request, serialized), response)
            ||| call_ensures(Frame::done_from::<E>, (request, serialized), response)
        }),
        serialized is Ok ==> call_ensures(crate::value::flatten, (serialized->Ok_0,), flat),
    ensures
        serialized matches Err(error) ==> response is Err && response->Err_0 == error,
        serialized is Ok ==> {
            &&& response is Ok
            &&& response->Ok_0.data@.contains_key(name) == flat@.contains_key(name)
            &&& flat@.contains_key(name) ==> response->Ok_0.data@[name]@ == flat@[name]@
        },
{
    if serialized is Ok {
        let frame = response->Ok_0;
        assert(frame@.data.contains_key(name) == frame.data@.contains_key(name));
        let made = crate::value::data_view(flat@);
        assert(made.contains_key(name) == flat@.contains_key(name));
        assert(made == frame@.data);
        if flat@.contains_key(name) {
            assert(made[name] == flat@[name]@);
            assert(frame@.data[name] == frame.data@[name]@);
        }
    }
}

/// The payload of an error: its code, its message and the advice to retry, and
/// nothing else.
pub proof fn law_payload_of_an_error(
    request: &Frame,
    message: &str,
    response: Frame,
    code: &str,
    text: String,
    retryable: bool,
    data: Data,
    name: Seq<char>,
)
    requires
        call_ensures(Frame::error, (request, message), response),
        call_ensures(crate::frame::make_error_data, (code, text, retryable), data),
    ensures
        data@.contains_key(name) <==> name == "code"@ || name == "message"@ || name
            == "retryable"@,
        data@["code"@]@ == Json::String(code@),
        data@["message"@]@ == Json::String(text@),
        data@["retryable"@]@ == Json::Bool(retryable),
        response.data@.contains_key(name) <==> name == "code"@ || name == "message"@ || name
            == "retryable"@,
        response.data@["code"@]@ == Json::String("E_INTERNAL"@),
        response.data@["message"@]@ == Json::String(message@),
        response.data@["retryable"@]@ == Json::Bool(false),
{
    lemma_error_entries(data, code@, text@, retryable, name);
    lemma_error_entries(response.data, "E_INTERNAL"@, message@, false, name);
}

/// The entries of an error payload.
pub(crate) proof fn lemma_error_entries(
    data: Data,
    code: Seq<char>,
    message: Seq<char>,
    retryable: bool,
    name: Seq<char>,
)
    requires
        crate::value::data_view(data@) == crate::frame::error_data(code, message, retryable),
    ensures
        data@.contains_key(name) <==> name == "code"@ || name == "message"@ || name
            == "retryable"@,
        data@["code"@]@ == Json::String(code),
        data@["message"@]@ == Json::String(message),
        data@["retryable"@]@ == Json::Bool(retryable),
{
    reveal_strlit("code");
    reveal_strlit("message");
    reveal_strlit("retryable");
    let view = crate::value::data_view(data@);
    assert("code"@.len() == 4 && "message"@.len() == 7 && "retryable"@.len() == 9);
    assert(view.contains_key(name) == data@.contains_key(name));
    assert(view.contains_key("code"@) && view.contains_key("message"@) && view.contains_key(
        "retryable"@,
    ));
    assert(view["code"@] == data@["code"@]@);
    assert(view["message"@] == data@["message"@]@);
    assert(view["retryable"@] == data@["retryable"@]@);
}

/// The payload of a response that is made of an error holds what the methods of
/// the error returned, and nothing else.
pub proof fn law_payload_of_a_reported_error<F: ErrorCode + ?Sized>(
    request: &Frame,
    err: &F,
    draws: &mut Draws,
    response: Frame,
    name: Seq<char>,
)
    requires
        call_ensures(Frame::error_from::<F>, (request, err), response) || call_ensures(
            Frame::draw_error_from::<F>,
            (request, draws, err),
            response,
        ),
    ensures
        exists|code: &'static str, message: String, retryable: bool|
            {
                &&& #[trigger] call_ensures(F::error_code, (err,), code)
                &&& #[trigger] call_ensures(F::message, (err,), message)
                &&& #[trigger] call_ensures(F::retryable, (err,), retryable)
                &&& response.data@["code"@]@ == Json::String(code@)
                &&& response.data@["message"@]@ == Json::String(message@)
                &&& response.data@["retryable"@]@ == Json::Bool(retryable)
            },
        response.data@.contains_key(name) <==> name == "code"@ || name == "message"@ || name
            == "retryable"@,
{
    let (code, message, retryable) = choose|code: &'static str, message: String, retryable: bool|
        {
            &&& call_ensures(F::error_code, (err,), code)
            &&& call_ensures(F::message, (err,), message)
            &&& call_ensures(F::retryable, (err,), retryable)
            &&& #[trigger] crate::frame::is_response(
                response@,
                request@,
                Status::Error,
                crate::frame::error_data(code@, message@, retryable),
            )
        };
    lemma_error_entries(response.data, code@, message@, retryable, name);
}

/// Each builder changes the one field that it is for.
pub proof fn law_builders<E>(
    frame: Frame,
    from: &str,
    trace: Value,
    key: &str,
    value: Value,
    serialized: Result<Value, E>,
    sent: Frame,
    traced: Frame,
    loaded: Frame,
    field: Result<Frame, E>,
    name: Seq<char>,
)
    requires
        call_ensures(Frame::with_from, (frame, from), sent),
        call_ensures(Frame::with_trace, (frame, trace), traced),
        call_ensures(Frame::with_data, (frame, key, value), loaded),
        call_ensures(Frame::with_field::<E>, (frame, key, serialized), field),
        serialized is Ok ==> serialized->Ok_0 == value,
    ensures
        sent.from is Some && sent.from->0@ == from@,
        sent@.trace == frame@.trace && sent@.data == frame@.data,
        traced.trace is Some && traced.trace->0@ == trace@,
        traced@.from == frame@.from && traced@.data == frame@.data,
        loaded@.from == frame@.from && loaded@.trace == frame@.trace,
        loaded.data@.contains_key(name) <==> name == key@ || frame.data@.contains_key(name),
        loaded.data@[key@]@ == value@,
        name != key@ && frame.data@.contains_key(name) ==> loaded.data@[name]@
            == frame.data@[name]@,
        forall|other: Frame| #![trigger other.call]
            other == sent || other == traced || other == loaded ==> {
                &&& other.id == frame.id
                &&& other.parent_id == frame.parent_id
                &&& other.created_ms == frame.created_ms
                &&& other.expires_in == frame.expires_in
                &&& other.call@ == frame.call@
                &&& other.status == frame.status
            },
        serialized is Ok ==> field is Ok && field->Ok_0@ == loaded@,
        serialized matches Err(error) ==> field is Err && field->Err_0 == error,
{
    assert(sent@.from == Some(from@));
    assert(traced@.trace == Some(trace@));
    assert(loaded@.data.contains_key(name) == loaded.data@.contains_key(name));
    assert(loaded@.data.contains_key(key@) == loaded.data@.contains_key(key@));
    assert(loaded@.data[key@] == loaded.data@[key@]@);
    assert(frame@.data.contains_key(name) == frame.data@.contains_key(name));
    if name != key@ && frame.data@.contains_key(name) {
        assert(loaded@.data[name] == loaded.data@[name]@);
        assert(frame@.data[name] == frame.data@[name]@);
    }
}

/// The current time is that of a clock reading, in whole milliseconds.
pub proof fn law_current_time(millis: i64)
    requires
        call_ensures(crate::stamp::now_millis, (), millis),
    ensures
        exists|nanos: Option<u128>|
            {
                &&& #[trigger] crate::stamp::clock_read(nanos)
                &&& nanos is None ==> millis == 0
                &&& nanos matches Some(n) ==> millis >= 0 && millis * 1_000_000 <= n && (n < (
                millis + 1) * 1_000_000 || millis == i64::MAX)
            },
{
}

/// A request and a response with a given stamp hold the stamp, and what they are
/// made of besides.
pub proof fn law_stamped_requests(
    stamp: Stamp,
    call: &str,
    data: Data,
    frame: Frame,
    name: Seq<char>,
)
    requires
        call_ensures(Frame::request_stamped, (stamp, call, data), frame),
    ensures
        frame.id == stamp.id,
        frame.created_ms == stamp.created_ms,
        frame.call@ == call@,
        frame.status == Status::Request,
        frame.parent_id is None,
        frame.from is None,
        frame.trace is None,
        frame.expires_in == 0,
        frame.data@.contains_key(name) == data@.contains_key(name),
        data@.contains_key(name) ==> frame.data@[name]@ == data@[name]@,
{
    assert(frame@.data.contains_key(name) == frame.data@.contains_key(name));
    let given = crate::value::data_view(data@);
    assert(given.contains_key(name) == data@.contains_key(name));
    if data@.contains_key(name) {
        assert(given[name] == data@[name]@);
        assert(frame@.data[name] == frame.data@[name]@);
    }
}

} // verus!
