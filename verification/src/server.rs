//! The dispatch side of the server: the completion handle that correlates a
//! decoded request with its eventual response, and the pure decisions of the
//! per-connection read loop.
//!
//! The socket handling itself — accepting connections, blocking reads and
//! writes, and the worker pool — lives outside this crate; it hands byte
//! buffers in and takes byte buffers and messages back.

use vstd::prelude::*;
use crate::message::{be_u32_of, Message};
use crossbeam_utils::sync::WaitGroup;

verus! {

/// How many bytes the connection worker asks for in one read while it
/// collects a frame's body.
pub const BUF_SIZE: usize = 512;

/// crossbeam-utils' `WaitGroup`, used here as a one-shot latch: dropping
/// every reference to it releases whoever blocks on `wait`.
#[verifier::external_type_specification]
#[verifier::external_body]
pub struct ExWaitGroup(WaitGroup);

/// Relies on crossbeam-utils' `WaitGroup::clone`: another reference to the
/// same latch, which releases only once every reference is dropped.
pub assume_specification[ <WaitGroup as Clone>::clone ](wg: &WaitGroup) -> WaitGroup;

/// Relies on crossbeam-utils' `WaitGroup::new`: a fresh latch is a new
/// allocation, distinct from the live latch it replaces. Dropping the old
/// value releases every thread blocked in `wait` on a clone of it.
#[verifier::external_body]
fn replace_latch(w: &mut WaitGroup)
    ensures
        *final(w) != *old(w),
{
    *w = WaitGroup::new();
}

/// Correlates one decoded request with its eventual response: the request
/// message, a slot for the response (empty until the consumer finishes), and
/// the latch the connection worker blocks on.
#[derive(Clone, Debug)]
pub struct MessageHandler {
    pub message: Message,
    pub response: Option<Message>,
    pub wg: WaitGroup,
}

impl MessageHandler {
    /// Completes the request: stores the response and releases the latch by
    /// dropping this handle's reference to it in exchange for a fresh one. To
    /// be called once, by the consumer that took the handle.
    pub fn done(&mut self, response: Message)
        ensures
            final(self).message == old(self).message,
            final(self).response == Some(response),
            final(self).wg != old(self).wg,
    {
        self.response = Some(response);
        replace_latch(&mut self.wg);
    }
}

/// The connection worker's first step: the total frame size that a just-read
/// length field declares, and so how many bytes the whole frame occupies.
pub fn declared_frame_length(header: &[u8]) -> (n: u32)
    requires
        header@.len() >= 4,
    ensures
        n == be_u32_of(header@.subrange(0, 4)),
{
    crate::message::read_u32_be(header)
}

/// The connection worker's body step: how many bytes to ask for in the next
/// read when `remaining` bytes of the frame are still missing — a full buffer,
/// or exactly the rest for the final chunk.
pub fn read_chunk_size(remaining: usize) -> (n: usize)
    ensures
        remaining < BUF_SIZE ==> n == remaining,
        remaining >= BUF_SIZE ==> n == BUF_SIZE,
{
    if remaining < BUF_SIZE {
        remaining
    } else {
        BUF_SIZE
    }
}

} // verus!
