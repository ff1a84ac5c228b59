//! What each operation does, said of its inputs and results alone.
//!
//! The contracts of the operations speak of models: predicates and functions that
//! say in one word what several operations share. The laws here use none of
//! these. Each takes the inputs and the results of a call, and says in terms of
//! their fields how they relate.
pub mod flow;
pub mod frames;
pub mod kernels;
pub mod pipes;
pub mod registry;
pub mod routing;
pub mod senders;
pub mod values;
