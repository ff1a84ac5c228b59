//! Errors of the kernel, of pipes and of the sigcall registry.
use crate::frame::ErrorCode;
use crate::value::Data;
use vstd::prelude::*;
use vstd::string::StringExecFns;

verus! {

/// An error with a code, a message and advice to retry.
#[derive(Debug)]
pub struct KernelError {
    pub code: &'static str,
    pub message: String,
    pub retryable: bool,
}

impl KernelError {
    /// The error holds the given code, message and advice.
    pub open spec fn holds(self, code: Seq<char>, message: Seq<char>, retryable: bool) -> bool {
        &&& self.code@ == code
        &&& self.message@ == message
        &&& self.retryable == retryable
    }

    /// The text of the error: its code, a colon and its message.
    pub open spec fn text(self) -> Seq<char> {
        self.code@ + ": "@ + self.message@
    }

    pub fn invalid_args(message: &str) -> (error: KernelError)
        ensures
            error.holds("E_INVALID_ARGS"@, message@, false),
    {
        KernelError { code: "E_INVALID_ARGS", message: message.to_owned(), retryable: false }
    }

    pub fn not_found(message: &str) -> (error: KernelError)
        ensures
            error.holds("E_NOT_FOUND"@, message@, false),
    {
        KernelError { code: "E_NOT_FOUND", message: message.to_owned(), retryable: false }
    }

    pub fn forbidden(message: &str) -> (error: KernelError)
        ensures
            error.holds("E_FORBIDDEN"@, message@, false),
    {
        KernelError { code: "E_FORBIDDEN", message: message.to_owned(), retryable: false }
    }

    #[must_use]
    pub fn cancelled() -> (error: KernelError)
        ensures
            error.holds("E_CANCELLED"@, "operation cancelled"@, false),
    {
        KernelError {
            code: "E_CANCELLED",
            message: "operation cancelled".to_owned(),
            retryable: false,
        }
    }

    /// The only error that the caller is advised to retry.
    pub fn timeout(message: &str) -> (error: KernelError)
        ensures
            error.holds("E_TIMEOUT"@, message@, true),
    {
        KernelError { code: "E_TIMEOUT", message: message.to_owned(), retryable: true }
    }

    pub fn internal(message: &str) -> (error: KernelError)
        ensures
            error.holds("E_INTERNAL"@, message@, false),
    {
        KernelError { code: "E_INTERNAL", message: message.to_owned(), retryable: false }
    }

    pub fn no_route(message: &str) -> (error: KernelError)
        ensures
            error.holds("E_NO_ROUTE"@, message@, false),
    {
        KernelError { code: "E_NO_ROUTE", message: message.to_owned(), retryable: false }
    }

    /// The error as a payload: its code, message and advice to retry.
    #[must_use]
    pub fn to_data(&self) -> (data: Data)
        ensures
            crate::value::data_view(data@) == crate::frame::error_data(
                self.code@,
                self.message@,
                self.retryable,
            ),
    {
        crate::frame::make_error_data(self.code, self.message.clone(), self.retryable)
    }
}

impl Clone for KernelError {
    /// An error that holds the same.
    fn clone(&self) -> (copy: Self)
        ensures
            copy == *self,
    {
        KernelError {
            code: self.code,
            message: self.message.clone(),
            retryable: self.retryable,
        }
    }
}

impl ErrorCode for KernelError {
    fn error_code(&self) -> (code: &'static str)
        ensures
            code@ == self.code@,
    {
        self.code
    }

    /// The text of the error: its code, a colon and its message.
    fn message(&self) -> (message: String)
        ensures
            message@ == self.text(),
    {
        let mut text = self.code.to_owned();
        text.append(": ");
        text.append(self.message.as_str());
        text
    }

    fn retryable(&self) -> (retry: bool)
        ensures
            retry == self.retryable,
    {
        self.retryable
    }
}

/// Errors of pipe operations.
#[derive(Debug)]
pub enum PipeError {
    /// The channel is closed.
    Closed,
    /// A frame could not be sent.
    SendFailed,
    /// A value could not be serialized, for the given reason.
    Serialization(String),
}

impl PipeError {
    /// The text of the error.
    pub open spec fn text(self) -> Seq<char> {
        match self {
            PipeError::Closed => "channel closed"@,
            PipeError::SendFailed => "send failed: channel full or closed"@,
            PipeError::Serialization(reason) => "serialization failed: "@ + reason@,
        }
    }

    /// The text of the error.
    pub fn message(&self) -> (message: String)
        ensures
            message@ == self.text(),
    {
        match self {
            PipeError::Closed => "channel closed".to_owned(),
            PipeError::SendFailed => "send failed: channel full or closed".to_owned(),
            PipeError::Serialization(reason) => {
                let mut text = "serialization failed: ".to_owned();
                text.append(reason.as_str());
                text
            },
        }
    }
}

/// Errors of sigcall registry operations.
#[derive(Debug)]
pub enum SigcallError {
    /// Another owner holds the name.
    AlreadyRegistered { name: String, owner: String },
    /// Nobody holds the name.
    NotRegistered { name: String },
    /// Not the caller but `owner` holds the name.
    NotOwner { name: String, owner: String, caller: String },
    /// The name is reserved for the kernel.
    Reserved { name: String },
}

/// What a [`SigcallError`] holds.
pub enum SigcallErrorView {
    AlreadyRegistered { name: Seq<char>, owner: Seq<char> },
    NotRegistered { name: Seq<char> },
    NotOwner { name: Seq<char>, owner: Seq<char>, caller: Seq<char> },
    Reserved { name: Seq<char> },
}

impl View for SigcallError {
    type V = SigcallErrorView;

    open spec fn view(&self) -> SigcallErrorView {
        match self {
            SigcallError::AlreadyRegistered { name, owner } => {
                SigcallErrorView::AlreadyRegistered { name: name@, owner: owner@ }
            },
            SigcallError::NotRegistered { name } => SigcallErrorView::NotRegistered { name: name@ },
            SigcallError::NotOwner { name, owner, caller } => {
                SigcallErrorView::NotOwner { name: name@, owner: owner@, caller: caller@ }
            },
            SigcallError::Reserved { name } => SigcallErrorView::Reserved { name: name@ },
        }
    }
}

/// A text in quotation marks, with what must not stand between them escaped.
pub uninterp spec fn quoted_text(text: Seq<char>) -> Seq<char>;

/// The `Debug` form of `str`, as `format!` gives it: the text in quotation
/// marks, with special characters escaped. Claimed: it is determined by the text.
#[verifier::external_body]
fn quote(text: &str) -> (quoted: String)
    ensures
        quoted@ == quoted_text(text@),
{
    format!("{:?}", text)
}

impl SigcallErrorView {
    /// The text of the error.
    pub open spec fn text(self) -> Seq<char> {
        match self {
            SigcallErrorView::AlreadyRegistered { name, owner } => "sigcall "@ + quoted_text(name)
                + " already registered by "@ + quoted_text(owner),
            SigcallErrorView::NotRegistered { name } => "sigcall "@ + quoted_text(name)
                + " not registered"@,
            SigcallErrorView::NotOwner { name, owner, caller } => "sigcall "@ + quoted_text(name)
                + " owned by "@ + quoted_text(owner) + ", not "@ + quoted_text(caller),
            SigcallErrorView::Reserved { name } => "cannot register reserved prefix: "@
                + quoted_text(name),
        }
    }
}

impl SigcallError {
    /// The text of the error.
    pub fn message(&self) -> (message: String)
        ensures
            message@ == self@.text(),
    {
        match self {
            SigcallError::AlreadyRegistered { name, owner } => {
                let mut text = "sigcall ".to_owned();
                text.append(quote(name.as_str()).as_str());
                text.append(" already registered by ");
                text.append(quote(owner.as_str()).as_str());
                text
            },
            SigcallError::NotRegistered { name } => {
                let mut text = "sigcall ".to_owned();
                text.append(quote(name.as_str()).as_str());
                text.append(" not registered");
                text
            },
            SigcallError::NotOwner { name, owner, caller } => {
                let mut text = "sigcall ".to_owned();
                text.append(quote(name.as_str()).as_str());
                text.append(" owned by ");
                text.append(quote(owner.as_str()).as_str());
                text.append(", not ");
                text.append(quote(caller.as_str()).as_str());
                text
            },
            SigcallError::Reserved { name } => {
                let mut text = "cannot register reserved prefix: ".to_owned();
                text.append(quote(name.as_str()).as_str());
                text
            },
        }
    }
}

} // verus!
