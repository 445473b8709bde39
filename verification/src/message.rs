//! The message that a reassembler builds and queues.

use crate::model::Frame;
use vstd::prelude::*;

verus! {

/// One message of the stream: the payload length decoded from its header, and
/// the payload bytes.
pub struct Message {
    /// Payload length that the header declared.
    pub len: u16,
    /// Payload bytes.
    pub payload: Vec<u8>,
}

impl View for Message {
    type V = Frame;

    open spec fn view(&self) -> Frame {
        Frame { declared_length: self.len as nat, payload: self.payload@ }
    }
}

impl Clone for Message {
    /// A second message with the same declared length and the same payload.
    fn clone(&self) -> (copy: Message)
        ensures
            copy@ == self@,
    {
        Message { len: self.len, payload: self.payload.clone() }
    }
}

impl Message {
    /// A message of which nothing is known yet: declared length zero, no
    /// payload.
    pub fn new() -> (message: Message)
        ensures
            message@ == Frame::fresh(),
    {
        Message { len: 0, payload: Vec::new() }
    }
}

} // verus!
