//! A redirector for the graphics-protocol interface: an interface handler
//! that forwards the messages arriving on that interface to another
//! provider of the protocol and sends the answers back.

use vstd::prelude::*;

verus! {

use crate::message::InterfaceMessage;

/// Handles the messages of the graphics-protocol interface by redirecting
/// them to another provider of the protocol.
pub struct VulkanRedirect {
    /// The interface whose messages this redirector handles.
    pub interface: [u8; 32],
}

impl VulkanRedirect {
    /// A redirector bound to the given interface.
    pub fn new(interface: [u8; 32]) -> (r: VulkanRedirect)
        ensures
            r.interface@ == interface@,
    {
        VulkanRedirect { interface }
    }

    /// Handles one message addressed to the redirected interface and
    /// produces the answer to send back, if any.  No provider is attached,
    /// so every message is declined: no answer is produced for any input.
    pub fn handle(&self, _message: &InterfaceMessage) -> (r: Option<Vec<u8>>)
        ensures
            r is None,
    {
        None
    }
}

} // verus!
