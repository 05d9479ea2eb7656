//! A listener socket seen as a lazy, never-ending sequence of accepted
//! connections.
//!
//! [`TokioIncoming`] owns the listener. Each pull of the sequence asks the
//! listener to accept once and hands what came back to [`next_item`], which
//! decides what the consumer gets. The `script` module states, over whole
//! runs of accept outcomes, what a consumer can rely on.

pub mod incoming;
pub mod pull;
pub mod script;

pub use incoming::TokioIncoming;
pub use pull::{next_item, Accepted, Pulled};
