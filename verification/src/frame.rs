//! Frames, the messages of all kernel communication.
//!
//! A response is correlated to its request by `parent_id`: every response
//! builder sets it to the request's `id`. The observability metadata in `trace`
//! is kept apart from the payload in `data`, and goes from a request to each of
//! its responses.
use crate::stamp::{Draws, Stamp};
use crate::value::{Data, Json, Value};
use vstd::prelude::*;

verus! {

/// An error of a subsystem that an error frame can be made of.
pub trait ErrorCode {
    /// Machine-readable code, such as `E_NOT_FOUND`.
    fn error_code(&self) -> &'static str;

    /// Text for people.
    fn message(&self) -> String;

    /// Whether the caller should try the operation again.
    fn retryable(&self) -> (retry: bool)
        default_ensures
            !retry,
    {
        false
    }
}

/// Lifecycle status of a frame.
#[derive(Clone, Copy, Debug, PartialEq, Eq, Structural)]
pub enum Status {
    /// Initiates a call.
    Request,
    /// Single streaming result, not terminal.
    Item,
    /// Batch of streaming results, not terminal.
    Bulk,
    /// Successful end of a response stream.
    Done,
    /// Failed end of a response stream.
    Error,
    /// Aborts a request in flight.
    Cancel,
}

impl Status {
    /// Whether the status ends a response stream.
    pub open spec fn ends_stream(self) -> bool {
        self is Done || self is Error || self is Cancel
    }

    /// Whether the status ends a response stream.
    #[must_use]
    pub fn is_terminal(self) -> (terminal: bool)
        ensures
            terminal == self.ends_stream(),
    {
        matches!(self, Status::Done | Status::Error | Status::Cancel)
    }
}

/// Identifies a frame: the 128 bits of a UUID.
pub type FrameId = u128;

/// A single message.
#[derive(Debug)]
pub struct Frame {
    /// Identifies this frame.
    pub id: FrameId,
    /// The request that this frame responds to.
    pub parent_id: Option<FrameId>,
    /// Milliseconds since the Unix epoch at which the frame was made.
    pub created_ms: i64,
    /// Milliseconds from `created_ms` on after which the frame counts as expired.
    /// Zero means that it does not expire.
    pub expires_in: i64,
    /// Who sent the frame.
    pub from: Option<String>,
    /// Namespaced name of the call, by which it is routed: `prefix:verb`.
    pub call: String,
    /// Lifecycle position.
    pub status: Status,
    /// Observability metadata.
    pub trace: Option<Value>,
    /// Payload.
    pub data: Data,
}

/// What a [`Frame`] holds.
#[verifier::ext_equal]
pub struct FrameView {
    pub id: FrameId,
    pub parent_id: Option<FrameId>,
    pub created_ms: i64,
    pub expires_in: i64,
    pub from: Option<Seq<char>>,
    pub call: Seq<char>,
    pub status: Status,
    pub trace: Option<Json>,
    pub data: Map<Seq<char>, Json>,
}

/// What an optional text holds.
pub open spec fn text_view(text: Option<String>) -> Option<Seq<char>> {
    match text {
        Some(s) => Some(s@),
        None => None,
    }
}

/// What an optional value holds.
pub open spec fn trace_view(trace: Option<Value>) -> Option<Json> {
    match trace {
        Some(v) => Some(v@),
        None => None,
    }
}

impl View for Frame {
    type V = FrameView;

    open spec fn view(&self) -> FrameView {
        FrameView {
            id: self.id,
            parent_id: self.parent_id,
            created_ms: self.created_ms,
            expires_in: self.expires_in,
            from: text_view(self.from),
            call: self.call@,
            status: self.status,
            trace: trace_view(self.trace),
            data: crate::value::data_view(self.data@),
        }
    }
}

impl Clone for Frame {
    /// A frame that holds the same.
    fn clone(&self) -> (copy: Self)
        ensures
            copy@ == self@,
    {
        let from = match &self.from {
            Some(s) => Some(s.clone()),
            None => None,
        };
        Frame {
            id: self.id,
            parent_id: self.parent_id,
            created_ms: self.created_ms,
            expires_in: self.expires_in,
            from,
            call: self.call.clone(),
            status: self.status,
            trace: copy_trace(&self.trace),
            data: self.data.clone(),
        }
    }
}

/// A trace that holds the same.
fn copy_trace(trace: &Option<Value>) -> (copy: Option<Value>)
    ensures
        trace_view(copy) == trace_view(*trace),
{
    match trace {
        Some(v) => Some(v.clone()),
        None => None,
    }
}

// ---- Building frames ----

impl FrameView {
    /// The part of the frame that chance and the clock decided.
    pub open spec fn stamp(self) -> Stamp {
        Stamp { id: self.id, created_ms: self.created_ms }
    }
}

/// The identifiers of frames.
pub open spec fn frame_ids(frames: Seq<FrameView>) -> Seq<FrameId> {
    frames.map_values(|frame: FrameView| frame.id)
}

/// A request for `call` with the payload `data`.
pub open spec fn request_view(
    stamp: Stamp,
    call: Seq<char>,
    data: Map<Seq<char>, Json>,
) -> FrameView {
    FrameView {
        id: stamp.id,
        parent_id: None,
        created_ms: stamp.created_ms,
        expires_in: 0,
        from: None,
        call,
        status: Status::Request,
        trace: None,
        data,
    }
}

/// A response to `request`: correlated to it, with its call and its trace, and
/// from nobody.
pub open spec fn response_view(
    request: FrameView,
    stamp: Stamp,
    status: Status,
    data: Map<Seq<char>, Json>,
) -> FrameView {
    FrameView {
        id: stamp.id,
        parent_id: Some(request.id),
        created_ms: stamp.created_ms,
        expires_in: 0,
        from: None,
        call: request.call,
        status,
        trace: request.trace,
        data,
    }
}

/// `frame` is a new request for `call` with the payload `data`.
pub open spec fn is_request(
    frame: FrameView,
    call: Seq<char>,
    data: Map<Seq<char>, Json>,
) -> bool {
    &&& frame.stamp().fresh()
    &&& frame == request_view(frame.stamp(), call, data)
}

/// `frame` is a new response to `request` with the payload `data`.
pub open spec fn is_response(
    frame: FrameView,
    request: FrameView,
    status: Status,
    data: Map<Seq<char>, Json>,
) -> bool {
    &&& frame.stamp().fresh()
    &&& frame == response_view(request, frame.stamp(), status, data)
}

/// The payload of an error frame.
pub open spec fn error_data(
    code: Seq<char>,
    message: Seq<char>,
    retryable: bool,
) -> Map<Seq<char>, Json> {
    map![
        "code"@ => Json::String(code),
        "message"@ => Json::String(message),
        "retryable"@ => Json::Bool(retryable),
    ]
}

/// `frame` is a new error response to `request` with what the methods of `err`
/// returned.
pub open spec fn is_error_of<E: ErrorCode + ?Sized>(
    frame: FrameView,
    request: FrameView,
    err: &E,
) -> bool {
    exists|code: &'static str, message: String, retryable: bool|
        {
            &&& call_ensures(E::error_code, (err,), code)
            &&& call_ensures(E::message, (err,), message)
            &&& call_ensures(E::retryable, (err,), retryable)
            &&& #[trigger] is_response(
                frame,
                request,
                Status::Error,
                error_data(code@, message@, retryable),
            )
        }
}

/// The payload of an error frame.
pub fn make_error_data(code: &str, message: String, retryable: bool) -> (data: Data)
    ensures
        crate::value::data_view(data@) == error_data(code@, message@, retryable),
{
    let mut data: Data = Data::new();
    data.insert("code".to_owned(), Value::String(code.to_owned()));
    data.insert("message".to_owned(), Value::String(message));
    data.insert("retryable".to_owned(), Value::Bool(retryable));
    assert(crate::value::data_view(data@) =~= error_data(code@, message@, retryable));
    data
}

impl Frame {
    // -- Constructors --

    /// A request with the given stamp.
    #[must_use]
    pub fn request_stamped(stamp: Stamp, call: &str, data: Data) -> (frame: Frame)
        ensures
            frame@ == request_view(stamp, call@, crate::value::data_view(data@)),
    {
        Frame {
            id: stamp.id,
            parent_id: None,
            created_ms: stamp.created_ms,
            expires_in: 0,
            from: None,
            call: call.to_owned(),
            status: Status::Request,
            trace: None,
            data,
        }
    }

    /// A new request without payload.
    #[must_use]
    pub fn request(call: &str) -> (frame: Frame)
        ensures
            is_request(frame@, call@, crate::value::empty_data()),
    {
        Frame::request_stamped(Stamp::now(), call, crate::value::no_data())
    }

    /// A new request with a payload.
    #[must_use]
    pub fn request_with(call: &str, data: Data) -> (frame: Frame)
        ensures
            is_request(frame@, call@, crate::value::data_view(data@)),
    {
        Frame::request_stamped(Stamp::now(), call, data)
    }

    // -- Response builders --

    /// A response to this request with the given stamp.
    #[must_use]
    pub fn response_stamped(&self, stamp: Stamp, status: Status, data: Data) -> (frame: Frame)
        ensures
            frame@ == response_view(self@, stamp, status, crate::value::data_view(data@)),
    {
        Frame {
            id: stamp.id,
            parent_id: Some(self.id),
            created_ms: stamp.created_ms,
            expires_in: 0,
            from: None,
            call: self.call.clone(),
            status,
            trace: copy_trace(&self.trace),
            data,
        }
    }

    /// A new response to this request.
    ///
    /// The trace goes along so that all frames of a conversation can be told
    /// apart by it. The response is from nobody: it is the subsystem's reply,
    /// not the caller's.
    fn response(&self, status: Status, data: Data) -> (frame: Frame)
        ensures
            is_response(frame@, self@, status, crate::value::data_view(data@)),
    {
        self.response_stamped(Stamp::now(), status, data)
    }

    /// A new response to this request, whose identifier is entered in `draws`.
    pub fn draw_response(&self, draws: &mut Draws, status: Status, data: Data) -> (frame: Frame)
        ensures
            is_response(frame@, self@, status, crate::value::data_view(data@)),
            final(draws)@ == old(draws)@.push(frame@.id),
    {
        let stamp = draws.stamp();
        self.response_stamped(stamp, status, data)
    }

    /// An item in response to this request.
    #[must_use]
    pub fn item(&self, data: Data) -> (frame: Frame)
        ensures
            is_response(frame@, self@, Status::Item, crate::value::data_view(data@)),
    {
        self.response(Status::Item, data)
    }

    /// An item in response to this request, of what serializing a value gave.
    ///
    /// The members of an object become the entries of the payload; any other
    /// value is put under the name `value`.
    pub fn item_from<E>(&self, serialized: Result<Value, E>) -> (frame: Result<Frame, E>)
        ensures
            match serialized {
                Ok(value) => frame is Ok && is_response(
                    frame->Ok_0@,
                    self@,
                    Status::Item,
                    crate::value::payload_of(value@),
                ),
                Err(error) => frame == Err::<Frame, E>(error),
            },
    {
        match crate::value::to_data(serialized) {
            Ok(data) => Ok(self.response(Status::Item, data)),
            Err(error) => Err(error),
        }
    }

    /// A batch in response to this request.
    #[must_use]
    pub fn bulk(&self, data: Data) -> (frame: Frame)
        ensures
            is_response(frame@, self@, Status::Bulk, crate::value::data_view(data@)),
    {
        self.response(Status::Bulk, data)
    }

    /// A batch in response to this request, of what serializing a value gave.
    pub fn bulk_from<E>(&self, serialized: Result<Value, E>) -> (frame: Result<Frame, E>)
        ensures
            match serialized {
                Ok(value) => frame is Ok && is_response(
                    frame->Ok_0@,
                    self@,
                    Status::Bulk,
                    crate::value::payload_of(value@),
                ),
                Err(error) => frame == Err::<Frame, E>(error),
            },
    {
        match crate::value::to_data(serialized) {
            Ok(data) => Ok(self.response(Status::Bulk, data)),
            Err(error) => Err(error),
        }
    }

    /// The successful end of the responses to this request.
    #[must_use]
    pub fn done(&self) -> (frame: Frame)
        ensures
            is_response(frame@, self@, Status::Done, crate::value::empty_data()),
    {
        self.response(Status::Done, crate::value::no_data())
    }

    /// The successful end of the responses to this request, with a payload.
    #[must_use]
    pub fn done_with(&self, data: Data) -> (frame: Frame)
        ensures
            is_response(frame@, self@, Status::Done, crate::value::data_view(data@)),
    {
        self.response(Status::Done, data)
    }

    /// The successful end of the responses to this request, of what serializing
    /// a value gave.
    pub fn done_from<E>(&self, serialized: Result<Value, E>) -> (frame: Result<Frame, E>)
        ensures
            match serialized {
                Ok(value) => frame is Ok && is_response(
                    frame->Ok_0@,
                    self@,
                    Status::Done,
                    crate::value::payload_of(value@),
                ),
                Err(error) => frame == Err::<Frame, E>(error),
            },
    {
        match crate::value::to_data(serialized) {
            Ok(data) => Ok(self.response(Status::Done, data)),
            Err(error) => Err(error),
        }
    }

    /// The failed end of the responses to this request, with an internal error.
    #[must_use]
    pub fn error(&self, message: &str) -> (frame: Frame)
        ensures
            is_response(
                frame@,
                self@,
                Status::Error,
                error_data("E_INTERNAL"@, message@, false),
            ),
    {
        self.response(Status::Error, make_error_data("E_INTERNAL", message.to_owned(), false))
    }

    /// The failed end of the responses to this request, made of an error.
    ///
    /// The payload holds what the error's own methods return.
    #[must_use]
    pub fn error_from<E: ErrorCode + ?Sized>(&self, err: &E) -> (frame: Frame)
        ensures
            is_error_of(frame@, self@, err),
    {
        let mut draws = Draws::new();
        self.draw_error_from(&mut draws, err)
    }

    /// The failed end of the responses to this request, made of an error, whose
    /// identifier is entered in `draws`.
    pub fn draw_error_from<E: ErrorCode + ?Sized>(&self, draws: &mut Draws, err: &E) -> (frame:
        Frame)
        ensures
            is_error_of(frame@, self@, err),
            final(draws)@ == old(draws)@.push(frame@.id),
    {
        let code = err.error_code();
        let message = err.message();
        let retryable = err.retryable();
        let ghost text = message;
        let data = make_error_data(code, message, retryable);
        let frame = self.draw_response(draws, Status::Error, data);
        assert(is_response(
            frame@,
            self@,
            Status::Error,
            error_data(code@, text@, retryable),
        ));
        frame
    }

    /// Aborts this request.
    #[must_use]
    pub fn cancel(&self) -> (frame: Frame)
        ensures
            is_response(frame@, self@, Status::Cancel, crate::value::empty_data()),
    {
        self.response(Status::Cancel, crate::value::no_data())
    }

    // -- Builders --

    /// This frame, from `from`.
    #[must_use]
    pub fn with_from(self, from: &str) -> (frame: Frame)
        ensures
            frame@ == (FrameView { from: Some(from@), ..self@ }),
    {
        let mut frame = self;
        frame.from = Some(from.to_owned());
        frame
    }

    /// This frame, with the given trace.
    #[must_use]
    pub fn with_trace(self, trace: Value) -> (frame: Frame)
        ensures
            frame@ == (FrameView { trace: Some(trace@), ..self@ }),
    {
        let mut frame = self;
        frame.trace = Some(trace);
        frame
    }

    /// This frame, with `value` under `key` in its payload.
    #[must_use]
    pub fn with_data(self, key: &str, value: Value) -> (frame: Frame)
        ensures
            frame@ == (FrameView { data: self@.data.insert(key@, value@), ..self@ }),
    {
        let mut frame = self;
        frame.data.insert(key.to_owned(), value);
        assert(frame@ =~= (FrameView { data: self@.data.insert(key@, value@), ..self@ }));
        frame
    }

    /// This frame, with what serializing a value gave under `key` in its payload.
    pub fn with_field<E>(self, key: &str, serialized: Result<Value, E>) -> (frame: Result<Frame, E>)
        ensures
            match serialized {
                Ok(value) => frame is Ok && frame->Ok_0@ == (FrameView {
                    data: self@.data.insert(key@, value@),
                    ..self@
                }),
                Err(error) => frame == Err::<Frame, E>(error),
            },
    {
        match serialized {
            Ok(value) => Ok(self.with_data(key, value)),
            Err(error) => Err(error),
        }
    }

    // -- Queries --

    /// The prefix of the call: `vfs` of `vfs:read`; all of a call without colon.
    #[must_use]
    pub fn prefix(&self) -> (prefix: &str)
        ensures
            prefix@ == crate::text::before_separator(self@.call),
    {
        match crate::text::split_once(self.call.as_str()) {
            Some((prefix, _)) => prefix,
            None => {
                proof {
                    crate::text::lemma_separator_index(self.call@);
                    assert(crate::text::before_separator(self.call@) =~= self.call@);
                }
                self.call.as_str()
            },
        }
    }

    /// The verb of the call: `read` of `vfs:read`; nothing of a call without colon.
    #[must_use]
    pub fn verb(&self) -> (verb: &str)
        ensures
            verb@ == crate::text::after_separator(self@.call),
    {
        match crate::text::split_once(self.call.as_str()) {
            Some((_, verb)) => verb,
            None => {
                proof {
                    reveal_strlit("");
                    assert(""@ =~= Seq::<char>::empty());
                }
                ""
            },
        }
    }
}

// ---- Laws ----

/// A call name is its prefix, the separator and its verb. Without a separator it
/// is all prefix.
pub proof fn law_name_is_prefix_and_verb(call: Seq<char>)
    ensures
        call == (if call.contains(crate::text::SEPARATOR) {
            crate::text::before_separator(call) + seq![crate::text::SEPARATOR]
                + crate::text::after_separator(call)
        } else {
            crate::text::before_separator(call) + crate::text::after_separator(call)
        }),
        !crate::text::before_separator(call).contains(crate::text::SEPARATOR),
{
    crate::text::lemma_separator_index(call);
    let i = crate::text::separator_index(call);
    if call.contains(crate::text::SEPARATOR) {
        assert(call =~= call.take(i) + seq![crate::text::SEPARATOR] + call.skip(i + 1));
    } else {
        assert(call =~= call.take(i) + Seq::<char>::empty());
    }
}

/// A response names the request and its call, carries its trace, and has a random
/// id. A response to a response carries on the trace and the call of
/// the first request.
pub proof fn law_responses_correlate(
    request: FrameView,
    response: FrameView,
    status: Status,
    data: Map<Seq<char>, Json>,
    second: FrameView,
    second_status: Status,
    second_data: Map<Seq<char>, Json>,
)
    requires
        is_response(response, request, status, data),
        is_response(second, response, second_status, second_data),
    ensures
        response.parent_id == Some(request.id),
        response.call == request.call,
        response.trace == request.trace,
        crate::stamp::is_random_uuid(response.id),
        second.parent_id == Some(response.id),
        second.call == request.call,
        second.trace == request.trace,
{
}

/// Of new frames, exactly those end a stream that are made to be done, failed or
/// cancelled. A new request does not.
pub proof fn law_ends_of_streams(
    request: FrameView,
    call: Seq<char>,
    response: FrameView,
    status: Status,
    data: Map<Seq<char>, Json>,
)
    requires
        is_request(request, call, data),
        is_response(response, request, status, data),
    ensures
        !request.status.ends_stream(),
        request.parent_id is None,
        response.status.ends_stream() <==> status == Status::Done || status == Status::Error
            || status == Status::Cancel,
{
}

} // verus!
