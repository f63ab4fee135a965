//! Message-correlation reactor for a capability-style message bus.
//!
//! Processes talk to each other only through opaque 256-bit interface
//! identifiers and a single multiplexed receive primitive.  This crate
//! provides, with machine-checked contracts:
//!
//! - the message data model and its binary wire format (`message`, `codec`);
//! - the registration protocol data model (`interface`);
//! - a reference implementation of the routing environment: the interface
//!   registry, the delivery queue, the live-request table and the
//!   multiplexed receive primitive (`system`);
//! - the emitter API and one-shot, cancellable response handles (`emit`);
//! - the reactor that demultiplexes the one receive primitive across many
//!   concurrent waiters (`reactor`);
//! - the guarantees that hold across calls, as proved lemmas (`laws`).
//!
//! The `search` module holds the one first-index lookup every table here
//! shares; `vulkan` holds the redirector for the graphics-protocol
//! interface.

pub mod codec;
pub mod emit;
pub mod interface;
pub mod laws;
pub mod message;
pub mod reactor;
pub mod search;
pub mod system;
pub mod vulkan;
