//! The mathematical model of the reassembler: frames, the state of one
//! stream, and the transition that one byte causes.

use vstd::prelude::*;

verus! {

/// Number of bytes in a frame header.
pub const HEADER_LEN: u16 = 2;

/// Largest payload that the two-byte length field can announce.
pub const MAX_PAYLOAD_LEN: u16 = 0xffff;

/// A frame: the payload length that its header declared, and the payload
/// bytes gathered for it.
#[verifier::ext_equal]
pub struct Frame {
    pub declared_length: nat,
    pub payload: Seq<u8>,
}

impl Frame {
    /// The frame that stands before any header byte has been read.
    pub open spec fn fresh() -> Frame {
        Frame { declared_length: 0, payload: Seq::empty() }
    }

    /// The finished frame that carries `payload`.
    pub open spec fn of_payload(payload: Seq<u8>) -> Frame {
        Frame { declared_length: payload.len(), payload }
    }

    /// A frame is complete when it holds as many bytes as its header
    /// declared, a number that fits the two bytes of a header.
    pub open spec fn is_complete(self) -> bool {
        self.payload.len() == self.declared_length && self.declared_length <= MAX_PAYLOAD_LEN
    }
}

/// The number that two header bytes stand for, high byte first.
pub open spec fn be16(hi: u8, lo: u8) -> nat {
    (hi as nat) * 256 + (lo as nat)
}

/// The bytes of one frame on the wire: the length of `payload` as two bytes,
/// high byte first, then `payload` itself. Meaningful for payloads of at most
/// `MAX_PAYLOAD_LEN` bytes.
pub open spec fn encode_frame(payload: Seq<u8>) -> Seq<u8> {
    seq![(payload.len() / 256) as u8, (payload.len() % 256) as u8] + payload
}

/// The bytes of several frames back to back, in order.
pub open spec fn encode_frames(payloads: Seq<Seq<u8>>) -> Seq<u8>
    decreases payloads.len(),
{
    if payloads.len() == 0 {
        Seq::empty()
    } else {
        encode_frames(payloads.drop_last()) + encode_frame(payloads.last())
    }
}

/// The frames that a byte stream holds in full, in order: as long as a whole
/// frame stands at the front, it is taken off and the rest is read on. An
/// unfinished frame at the end yields nothing.
pub open spec fn parse_frames(bytes: Seq<u8>) -> Seq<Frame>
    decreases bytes.len(),
{
    if bytes.len() < 2 {
        Seq::empty()
    } else {
        let declared = be16(bytes[0], bytes[1]);
        if bytes.len() < 2 + declared {
            Seq::empty()
        } else {
            let end = (2 + declared) as int;
            seq![Frame::of_payload(bytes.subrange(2, end))] + parse_frames(bytes.skip(end))
        }
    }
}

/// Everything the reassembler knows about one stream.
#[verifier::ext_equal]
pub struct StreamState {
    /// The frame under construction.
    pub current: Frame,
    /// Bytes still missing in the current phase.
    pub remaining: nat,
    /// Bytes gathered in the current phase.
    pub buffer: Seq<u8>,
    /// Finished frames that wait to be drained, oldest first.
    pub completed: Seq<Frame>,
}

impl StreamState {
    /// The state of a new reassembler: waiting for the first header byte.
    pub open spec fn initial() -> StreamState {
        StreamState {
            current: Frame::fresh(),
            remaining: HEADER_LEN as nat,
            buffer: Seq::empty(),
            completed: Seq::empty(),
        }
    }

    /// The header is being read. A payload is only awaited for a nonzero
    /// declared length, so a length of zero marks the header phase.
    pub open spec fn in_header_phase(self) -> bool {
        self.current.declared_length == 0
    }

    /// How many bytes the current phase gathers in all.
    pub open spec fn phase_target(self) -> nat {
        if self.in_header_phase() {
            HEADER_LEN as nat
        } else {
            self.current.declared_length
        }
    }

    /// No byte of the next frame has been read yet.
    pub open spec fn at_frame_boundary(self) -> bool {
        self.in_header_phase() && self.buffer.len() == 0
    }

    /// The invariant of a reassembler that is fed through `step` alone: the
    /// current phase still misses at least one byte, what is gathered and what
    /// is missing add up to the phase's size, the frame under construction has
    /// no payload yet, and every queued frame is complete.
    pub open spec fn wf(self) -> bool {
        &&& self.current.payload.len() == 0
        &&& self.current.declared_length <= MAX_PAYLOAD_LEN
        &&& 0 < self.remaining
        &&& self.buffer.len() + self.remaining == self.phase_target()
        &&& forall|i: int|
            0 <= i < self.completed.len() ==> (#[trigger] self.completed[i]).is_complete()
    }

    /// One byte joins the buffer and is no longer missing; the phase is not
    /// moved on.
    pub open spec fn appended(self, byte: u8) -> StreamState {
        StreamState {
            remaining: (self.remaining - 1) as nat,
            buffer: self.buffer.push(byte),
            ..self
        }
    }

    /// A new phase of `size` bytes begins with an empty buffer.
    pub open spec fn resized(self, size: nat) -> StreamState {
        StreamState { remaining: size, buffer: Seq::empty(), ..self }
    }

    /// The first two bytes of the buffer, read as a header, become the
    /// declared length of the current frame.
    pub open spec fn decoded(self) -> StreamState {
        StreamState {
            current: Frame {
                declared_length: be16(self.buffer[0], self.buffer[1]),
                payload: self.current.payload,
            },
            ..self
        }
    }

    /// The frame that completion queues. In the payload phase it is the
    /// current frame with the gathered bytes as its payload; in the header
    /// phase, where there is no payload to gather, it is the current frame as
    /// it stands.
    pub open spec fn finished_frame(self) -> Frame {
        if self.in_header_phase() {
            self.current
        } else {
            Frame { declared_length: self.current.declared_length, payload: self.buffer }
        }
    }

    /// Completion: `frame` joins the queue and the next header is awaited.
    pub open spec fn emit(self, frame: Frame) -> StreamState {
        StreamState {
            current: Frame::fresh(),
            remaining: HEADER_LEN as nat,
            buffer: Seq::empty(),
            completed: self.completed.push(frame),
        }
    }

    /// The state after one more byte of the stream.
    ///
    /// The byte joins the buffer. If the phase still misses bytes, nothing
    /// else happens. A finished header is decoded: a length of zero completes
    /// an empty frame at once, any other length starts the payload phase. A
    /// finished payload completes the frame.
    pub open spec fn step(self, byte: u8) -> StreamState {
        let buffer = self.buffer.push(byte);
        if self.remaining > 1 {
            StreamState { remaining: (self.remaining - 1) as nat, buffer, ..self }
        } else if self.in_header_phase() {
            let declared = be16(buffer[0], buffer[1]);
            if declared == 0 {
                self.emit(Frame::fresh())
            } else {
                StreamState {
                    current: Frame { declared_length: declared, payload: Seq::empty() },
                    remaining: declared,
                    buffer: Seq::empty(),
                    completed: self.completed,
                }
            }
        } else {
            self.emit(Frame { declared_length: self.current.declared_length, payload: buffer })
        }
    }

    /// The state after the bytes of `bytes`, one at a time and in order.
    pub open spec fn run(self, bytes: Seq<u8>) -> StreamState
        decreases bytes.len(),
    {
        if bytes.len() == 0 {
            self
        } else {
            self.run(bytes.drop_last()).step(bytes.last())
        }
    }

    /// The state after the chunks of `chunks`, each fed whole and in order.
    pub open spec fn run_chunks(self, chunks: Seq<Seq<u8>>) -> StreamState
        decreases chunks.len(),
    {
        if chunks.len() == 0 {
            self
        } else {
            self.run_chunks(chunks.drop_last()).run(chunks.last())
        }
    }

    /// The state after the queue has been handed to the caller.
    pub open spec fn drained(self) -> StreamState {
        StreamState { completed: Seq::empty(), ..self }
    }

    /// The payloads of the queued frames, oldest first.
    pub open spec fn payloads(self) -> Seq<Seq<u8>> {
        self.completed.map_values(|frame: Frame| frame.payload)
    }
}

} // verus!
