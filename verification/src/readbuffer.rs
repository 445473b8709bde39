//! The reassembler itself.

use crate::error::FrameError;
use crate::message::Message;
use crate::model::{Frame, StreamState, HEADER_LEN};
use vstd::prelude::*;

verus! {

/// Reassembles the messages of one stream from bytes pushed one at a time.
///
/// Its view is the [`StreamState`] that the contracts speak of. A buffer made
/// by [`ReadBuffer::new`] is well-formed, and stays so under `push`,
/// `push_chunk` and `drain_queue`: a caller who uses only these never has to
/// move a phase on. The methods `calc_payload_len`, `set_capacity` and `reset`
/// are the moves that `push` makes when a phase is full. Each does exactly
/// what its contract says and no more, so a caller who makes them by hand
/// answers for well-formedness.
pub struct ReadBuffer {
    /// Current message
    c_msg: Message,
    /// Current bytes remaining for next read
    c_remaining: u16,
    /// Current buffer
    c_buffer: Vec<u8>,
    /// Queue of messages completed and not yet drained
    queue: Vec<Message>,
}

impl View for ReadBuffer {
    type V = StreamState;

    closed spec fn view(&self) -> StreamState {
        StreamState {
            current: self.c_msg@,
            remaining: self.c_remaining as nat,
            buffer: self.c_buffer@,
            completed: self.queue@.map_values(|message: Message| message@),
        }
    }
}

impl Clone for ReadBuffer {
    /// A second reassembler in the same state.
    fn clone(&self) -> (copy: ReadBuffer)
        ensures
            copy@ == self@,
    {
        ReadBuffer {
            c_msg: self.c_msg.clone(),
            c_remaining: self.c_remaining,
            c_buffer: self.c_buffer.clone(),
            queue: self.queue.clone(),
        }
    }
}

impl ReadBuffer {
    /// Creates a new ReadBuffer, waiting for the first header byte.
    pub fn new() -> (buffer: ReadBuffer)
        ensures
            buffer@ == StreamState::initial(),
            buffer@.wf(),
    {
        ReadBuffer {
            c_msg: Message::new(),
            c_remaining: HEADER_LEN,
            c_buffer: Vec::<u8>::with_capacity(2),
            queue: Vec::<Message>::new(),
        }
    }

    /// Returns the number of bytes still needed to finish the current phase:
    /// the rest of the header, or the rest of the payload. A well-formed
    /// buffer always misses at least one byte.
    pub fn remaining(&self) -> (count: u16)
        ensures
            count == self@.remaining,
            self@.wf() ==> count >= 1,
    {
        self.c_remaining
    }

    /// Appends elem to the buffer of the current phase, which then misses one
    /// byte less.
    fn append(&mut self, elem: u8)
        requires
            old(self)@.remaining > 0,
        ensures
            final(self)@ == old(self)@.appended(elem),
    {
        self.c_buffer.push(elem);
        self.c_remaining -= 1;
    }

    /// Pushes elem, the next byte of the stream.
    ///
    /// The byte joins the current phase. When it is the last byte of a header,
    /// the header is decoded and the payload phase begins, or, for a declared
    /// length of zero, an empty message is queued at once. When it is the last
    /// byte of a payload, the message is queued with the gathered bytes as its
    /// payload, and the next header is awaited.
    ///
    /// The buffer must be well-formed; it is again afterwards, so that the
    /// next byte can always be pushed.
    pub fn push(&mut self, elem: u8)
        requires
            old(self)@.wf(),
        ensures
            final(self)@ == old(self)@.step(elem),
            final(self)@.wf(),
    {
        self.append(elem);
        if self.c_remaining == 0 {
            if self.c_msg.len == 0 {
                match self.calc_payload_len() {
                    Ok(()) => {
                        let len: u16 = self.c_msg.len;
                        if len == 0 {
                            self.reset();
                        } else {
                            self.set_capacity(len);
                        }
                    },
                    // Never taken: a finished header phase has gathered both
                    // header bytes.
                    Err(_) => {},
                }
            } else {
                self.reset();
            }
        }
        assert(self@ =~~= old(self)@.step(elem));
    }

    /// Pushes a chunk of the stream, byte by byte and in order. A chunk may
    /// end anywhere: in the middle of a header, of a payload, or after several
    /// messages.
    pub fn push_chunk(&mut self, chunk: &[u8])
        requires
            old(self)@.wf(),
        ensures
            final(self)@ == old(self)@.run(chunk@),
            final(self)@.wf(),
    {
        let ghost start: StreamState = self@;
        let mut i: usize = 0;
        while i < chunk.len()
            invariant
                i <= chunk.len(),
                self@ == start.run(chunk@.take(i as int)),
                self@.wf(),
            decreases chunk.len() - i,
        {
            assert(chunk@.take(i + 1).drop_last() == chunk@.take(i as int));
            self.push(chunk[i]);
            i += 1;
        }
        assert(chunk@.take(i as int) == chunk@);
    }

    /// Begins a phase of `size` bytes: the buffer is replaced by an empty one
    /// with room for `size` bytes, all of them still missing.
    pub fn set_capacity(&mut self, size: u16)
        ensures
            final(self)@ == old(self)@.resized(size as nat),
    {
        self.c_remaining = size;
        self.c_buffer = Vec::<u8>::with_capacity(size as usize);
    }

    /// Calculates the payload length from the first two bytes of the current
    /// buffer, high byte first, and stores it as the declared length of the
    /// current message. Fails, changing nothing, while the buffer holds fewer
    /// than two bytes.
    pub fn calc_payload_len(&mut self) -> (result: Result<(), FrameError>)
        ensures
            result is Ok <==> old(self)@.buffer.len() >= 2,
            result is Ok ==> final(self)@ == old(self)@.decoded(),
            result is Err ==> result == Err::<(), FrameError>(FrameError::MalformedHeader)
                && final(self)@ == old(self)@,
    {
        if self.c_buffer.len() < 2 {
            return Err(FrameError::MalformedHeader);
        }
        let hi: u8 = self.c_buffer[0];
        let lo: u8 = self.c_buffer[1];
        let mut len: u16 = 0u16;
        len = len | hi as u16;
        len = (len << 8) | lo as u16;
        assert(((0u16 | hi as u16) << 8) | lo as u16 == (hi as u16) * 256 + (lo as u16))
            by (bit_vector);
        self.c_msg.len = len;
        Ok(())
    }

    /// Returns the payload length declared by the header of the current
    /// message; zero until that header has been read in full.
    pub fn payload_len(&self) -> (len: u16)
        ensures
            len == self@.current.declared_length,
    {
        self.c_msg.len
    }

    /// Pushes the current message into the queue and resets to the default
    /// state: a fresh message whose header is awaited. In the payload phase
    /// the bytes of the current buffer become the payload of the queued
    /// message; in the header phase the message is queued as it stands.
    pub fn reset(&mut self)
        ensures
            final(self)@ == old(self)@.emit(old(self)@.finished_frame()),
    {
        if self.c_msg.len != 0 {
            core::mem::swap(&mut self.c_msg.payload, &mut self.c_buffer);
        }
        let mut finished: Message = Message::new();
        core::mem::swap(&mut self.c_msg, &mut finished);
        self.queue.push(finished);
        self.c_remaining = HEADER_LEN;
        self.c_buffer = Vec::<u8>::with_capacity(2);
    }

    /// Returns the number of completed messages waiting in the queue.
    pub fn queue_len(&self) -> (count: usize)
        ensures
            count == self@.completed.len(),
    {
        self.queue.len()
    }

    /// Drains the queue, returning the payload of each completed message,
    /// oldest first. The queue is empty afterwards; the message under
    /// construction is not touched.
    pub fn drain_queue(&mut self) -> (payloads: Vec<Vec<u8>>)
        ensures
            payloads.deep_view() == old(self)@.payloads(),
            final(self)@.completed.len() == 0,
            final(self)@ == old(self)@.drained(),
            old(self)@.wf() ==> final(self)@.wf(),
    {
        let mut queue: Vec<Message> = Vec::new();
        core::mem::swap(&mut self.queue, &mut queue);
        let ghost frames: Seq<Frame> = queue@.map_values(|message: Message| message@);
        let mut payloads: Vec<Vec<u8>> = Vec::with_capacity(queue.len());
        for message in iter: queue
            invariant
                iter.seq().map_values(|message: Message| message@) == frames,
                payloads.len() == iter.index(),
                forall|i: int|
                    0 <= i < payloads.len() ==> (#[trigger] payloads[i])@ == frames[i].payload,
        {
            payloads.push(message.payload);
        }
        assert(payloads.deep_view() =~~= old(self)@.payloads());
        payloads
    }
}

} // verus!
