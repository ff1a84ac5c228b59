//! An in-memory microkernel that routes frames.
//!
//! Everything that passes through the kernel is a [`Frame`]: a request for a
//! named call, a response to one, or a cancellation. A request with the call
//! `prefix:verb` goes to the subsystem that serves the prefix, or to a handler
//! registered for the call. The responses come back as a stream that ends with
//! one last frame, and go to every subscriber under flow control.
//!
//! The functions here decide and keep count; they do not wait. Where the kernel
//! has to wait for a channel or a timer, the decision is split there: one
//! function says what to wait for, and another takes what came of it.
//!
//! - [`frame`]: frames and how they are made; [`value`]: their payload; [`stamp`]:
//!   their identifiers and times.
//! - [`error`]: errors and how they become frames.
//! - [`pipe`]: pipes between kernel and subsystems, and calls through them.
//! - [`sender`]: patterns of responding to a request.
//! - [`sigcall`]: the registry of handlers.
//! - [`backpressure`]: flow control of what goes to subscribers.
//! - [`tokens`]: the cancellation tokens of running requests.
//! - [`router`]: where each frame goes; [`kernel`]: what is registered.
//! - [`laws`]: what each operation does, said of its inputs and results alone.
//! - [`channel`]: the channels and tokens that all of it runs on.
pub mod backpressure;
pub mod channel;
pub mod error;
pub mod frame;
pub mod kernel;
pub mod laws;
pub mod pipe;
pub mod router;
pub mod sender;
pub mod sigcall;
pub mod stamp;
pub mod table;
pub mod text;
pub mod tokens;
pub mod value;

pub use backpressure::{BackpressureConfig, SendOutcome, StreamController, Subscriber};
pub use error::{KernelError, PipeError, SigcallError};
pub use frame::{ErrorCode, Frame, FrameId, Status};
pub use kernel::Kernel;
pub use pipe::{pipe, pipe_default, CallStream, Caller, PipeEnd};
pub use sender::FrameSender;
pub use sigcall::SigcallRegistry;
pub use value::{to_data, Data, Value};
