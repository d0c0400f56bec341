//! Control core of a browser engine's script actor.
//!
//! The actor owns a tree of browsing contexts ("pages"), serializes all
//! mutation of that tree through a single message queue, and coordinates with
//! independent layout workers through a request/response protocol with strict
//! ordering and teardown guarantees.
//!
//! The script-execution environment, the HTML/CSS parsers, the layout workers
//! and the compositor are outside collaborators.  The library models the
//! actor's decisions as verified transition functions over plain values: each
//! step consumes messages (plus the collaborators' replies, handed in as
//! arguments) and produces an ordered trace of outbound [`messages::Action`]s
//! for the embedding loop to perform.

pub mod batch;
pub mod events;
pub mod messages;
pub mod page;
pub mod shutdown;
pub mod stacking;
pub mod task;
pub mod tree;
pub mod types;
