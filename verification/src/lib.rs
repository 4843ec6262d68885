//! A relay of generated text: it authenticates a trigger against a set of shared
//! secrets, asks for one upstream call, and shapes the single reply that the
//! trigger's transport delivers.
//!
//! The library decides and computes; it performs no input or output. Whoever
//! drives it reads the trigger, makes the upstream call when told to, and
//! delivers the outcome.

pub mod credential;
pub mod laws;
pub mod message;
pub mod outcome;
pub mod relay;
pub mod responder;
pub mod response;
pub mod secrets;
pub mod trigger;
pub mod upstream;
