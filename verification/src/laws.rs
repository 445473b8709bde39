//! What holds of the model however the stream is cut into pieces.

use crate::model::{
    be16, encode_frame, encode_frames, parse_frames, Frame, StreamState, MAX_PAYLOAD_LEN,
};
use vstd::prelude::*;

verus! {

/// One byte keeps a well-formed state well-formed.
pub proof fn lemma_step_preserves_wf(state: StreamState, byte: u8)
    requires
        state.wf(),
    ensures
        state.step(byte).wf(),
{
}

/// Any number of bytes keeps a well-formed state well-formed.
pub proof fn lemma_run_preserves_wf(state: StreamState, bytes: Seq<u8>)
    requires
        state.wf(),
    ensures
        state.run(bytes).wf(),
    decreases bytes.len(),
{
    if bytes.len() > 0 {
        lemma_run_preserves_wf(state, bytes.drop_last());
        lemma_step_preserves_wf(state.run(bytes.drop_last()), bytes.last());
    }
}

/// Feeding `first` and then `second` leaves the state that feeding their
/// concatenation leaves: where a stream is cut does not matter.
pub proof fn lemma_run_concat(state: StreamState, first: Seq<u8>, second: Seq<u8>)
    ensures
        state.run(first + second) == state.run(first).run(second),
    decreases second.len(),
{
    if second.len() > 0 {
        assert((first + second).drop_last() =~= first + second.drop_last());
        lemma_run_concat(state, first, second.drop_last());
    }
}

/// Chunking invariance: feeding a stream chunk by chunk, however it was cut
/// into chunks, leaves the state that feeding its bytes one at a time leaves.
pub proof fn lemma_chunking_invariance(state: StreamState, chunks: Seq<Seq<u8>>)
    ensures
        state.run_chunks(chunks) == state.run(chunks.flatten()),
    decreases chunks.len(),
{
    if chunks.len() > 0 {
        let front = chunks.drop_last();
        lemma_chunking_invariance(state, front);
        front.lemma_flatten_push(chunks.last());
        assert(front.push(chunks.last()) =~= chunks);
        lemma_run_concat(state, front.flatten(), chunks.last());
    }
}

/// While a phase misses more bytes than arrive, the bytes gather in the
/// buffer and nothing else changes.
pub proof fn lemma_run_within_phase(state: StreamState, bytes: Seq<u8>)
    requires
        bytes.len() < state.remaining,
    ensures
        state.run(bytes) == (StreamState {
            remaining: (state.remaining - bytes.len()) as nat,
            buffer: state.buffer + bytes,
            ..state
        }),
    decreases bytes.len(),
{
    if bytes.len() > 0 {
        lemma_run_within_phase(state, bytes.drop_last());
    }
}

/// The two header bytes of a payload of at most `MAX_PAYLOAD_LEN` bytes stand
/// for its length.
pub proof fn lemma_header_decodes(payload: Seq<u8>)
    requires
        payload.len() <= MAX_PAYLOAD_LEN,
    ensures
        encode_frame(payload).len() == payload.len() + 2,
        be16(encode_frame(payload)[0], encode_frame(payload)[1]) == payload.len(),
        encode_frame(payload).skip(2) == payload,
{
}

/// From a frame boundary, the two header bytes of `payload` either complete an
/// empty frame or open the payload phase for `payload.len()` bytes.
proof fn lemma_run_header(state: StreamState, payload: Seq<u8>)
    requires
        state.wf(),
        state.at_frame_boundary(),
        payload.len() <= MAX_PAYLOAD_LEN,
    ensures
        state.run(encode_frame(payload).take(1)).completed == state.completed,
        payload.len() == 0 ==> state.run(encode_frame(payload).take(2)) == state.emit(
            Frame::fresh(),
        ),
        payload.len() > 0 ==> state.run(encode_frame(payload).take(2)) == (StreamState {
            current: Frame { declared_length: payload.len(), payload: Seq::empty() },
            remaining: payload.len(),
            buffer: Seq::empty(),
            completed: state.completed,
        }),
{
    let encoded = encode_frame(payload);
    lemma_header_decodes(payload);
    lemma_run_within_phase(state, encoded.take(1));
    assert(encoded.take(2).drop_last() =~= encoded.take(1));
}

/// Round trip: from a frame boundary, the encoding of a payload of at most
/// `MAX_PAYLOAD_LEN` bytes completes exactly one frame, which carries that
/// payload, and leaves the reassembler at a frame boundary again.
pub proof fn lemma_round_trip(state: StreamState, payload: Seq<u8>)
    requires
        state.wf(),
        state.at_frame_boundary(),
        payload.len() <= MAX_PAYLOAD_LEN,
    ensures
        state.run(encode_frame(payload)) == state.emit(Frame::of_payload(payload)),
        state.run(encode_frame(payload)).wf(),
        state.run(encode_frame(payload)).at_frame_boundary(),
{
    let encoded = encode_frame(payload);
    lemma_header_decodes(payload);
    lemma_run_header(state, payload);
    if payload.len() == 0 {
        assert(encoded.take(2) =~= encoded);
        assert(Frame::of_payload(payload) =~= Frame::fresh());
    } else {
        let opened = state.run(encoded.take(2));
        assert(encoded.take(2) + payload =~= encoded);
        lemma_run_concat(state, encoded.take(2), payload);
        lemma_run_within_phase(opened, payload.drop_last());
        assert((opened.buffer + payload.drop_last()).push(payload.last()) =~= payload);
    }
}

/// No frame is completed early: from a frame boundary, no proper prefix of an
/// encoded frame adds anything to the queue.
pub proof fn lemma_no_early_completion(state: StreamState, payload: Seq<u8>, count: int)
    requires
        state.wf(),
        state.at_frame_boundary(),
        payload.len() <= MAX_PAYLOAD_LEN,
        0 <= count < encode_frame(payload).len(),
    ensures
        state.run(encode_frame(payload).take(count)).completed == state.completed,
{
    let encoded = encode_frame(payload);
    lemma_header_decodes(payload);
    lemma_run_header(state, payload);
    if count >= 2 {
        let opened = state.run(encoded.take(2));
        let part = payload.take(count - 2);
        assert(encoded.take(2) + part =~= encoded.take(count));
        lemma_run_concat(state, encoded.take(2), part);
        lemma_run_within_phase(opened, part);
    }
}

/// The finished frames that carry the payloads of `payloads`, in order.
pub open spec fn frames_of(payloads: Seq<Seq<u8>>) -> Seq<Frame> {
    payloads.map_values(|payload: Seq<u8>| Frame::of_payload(payload))
}

/// Several frames in one stream: from a frame boundary, the encodings of any
/// number of payloads back to back complete one frame for each payload, in
/// the order of encoding, and leave the reassembler at a frame boundary.
pub proof fn lemma_frames_in_order(state: StreamState, payloads: Seq<Seq<u8>>)
    requires
        state.wf(),
        state.at_frame_boundary(),
        forall|i: int| 0 <= i < payloads.len() ==> (#[trigger] payloads[i]).len() <= MAX_PAYLOAD_LEN,
    ensures
        state.run(encode_frames(payloads)) == (StreamState {
            completed: state.completed + frames_of(payloads),
            ..state
        }),
        state.run(encode_frames(payloads)).wf(),
        state.run(encode_frames(payloads)).at_frame_boundary(),
    decreases payloads.len(),
{
    if payloads.len() > 0 {
        let front = payloads.drop_last();
        lemma_frames_in_order(state, front);
        lemma_run_concat(state, encode_frames(front), encode_frame(payloads.last()));
        lemma_round_trip(state.run(encode_frames(front)), payloads.last());
    }
}

/// Two frames in one chunk: from a frame boundary, the encodings of two
/// payloads back to back complete two frames, the first payload's first.
pub proof fn lemma_two_frames(state: StreamState, first: Seq<u8>, second: Seq<u8>)
    requires
        state.wf(),
        state.at_frame_boundary(),
        first.len() <= MAX_PAYLOAD_LEN,
        second.len() <= MAX_PAYLOAD_LEN,
    ensures
        state.run(encode_frame(first) + encode_frame(second)) == state.emit(
            Frame::of_payload(first),
        ).emit(Frame::of_payload(second)),
{
    lemma_run_concat(state, encode_frame(first), encode_frame(second));
    lemma_round_trip(state, first);
    lemma_round_trip(state.run(encode_frame(first)), second);
}

/// Reassembly: from a frame boundary, any bytes whatever add to the queue
/// exactly the frames that those bytes hold in full, in their order on the
/// wire. Nothing is lost, nothing is made up, and an unfinished frame at the
/// end adds nothing yet.
pub proof fn lemma_run_parses(state: StreamState, bytes: Seq<u8>)
    requires
        state.wf(),
        state.at_frame_boundary(),
    ensures
        state.run(bytes).completed == state.completed + parse_frames(bytes),
    decreases bytes.len(),
{
    if bytes.len() < 2 {
        lemma_run_within_phase(state, bytes);
    } else {
        let declared = be16(bytes[0], bytes[1]);
        if bytes.len() < 2 + declared {
            let missing = (2 + declared - bytes.len()) as nat;
            let payload = bytes.skip(2) + Seq::new(missing, |i: int| 0u8);
            assert(encode_frame(payload).take(bytes.len() as int) =~= bytes);
            lemma_no_early_completion(state, payload, bytes.len() as int);
        } else {
            let end = (2 + declared) as int;
            let payload = bytes.subrange(2, end);
            let rest = bytes.skip(end);
            assert(encode_frame(payload) + rest =~= bytes);
            lemma_run_concat(state, encode_frame(payload), rest);
            lemma_round_trip(state, payload);
            lemma_run_parses(state.emit(Frame::of_payload(payload)), rest);
        }
    }
}

/// One byte does to a state what it does to the drained state, but for the
/// frames that were queued before, which stay in front.
pub proof fn lemma_step_after_drain(state: StreamState, byte: u8)
    ensures
        state.step(byte) == (StreamState {
            completed: state.completed + state.drained().step(byte).completed,
            ..state.drained().step(byte)
        }),
{
}

/// Interleaved drains: draining before more bytes arrive changes neither how
/// those bytes are parsed nor which frames they complete. What the undrained
/// reassembler holds afterwards is what was queued before, followed by what
/// the drained one holds; in everything else the two agree.
pub proof fn lemma_drain_then_run(state: StreamState, bytes: Seq<u8>)
    ensures
        state.run(bytes) == (StreamState {
            completed: state.completed + state.drained().run(bytes).completed,
            ..state.drained().run(bytes)
        }),
    decreases bytes.len(),
{
    if bytes.len() > 0 {
        let front = bytes.drop_last();
        lemma_drain_then_run(state, front);
        lemma_step_after_drain(state.run(front), bytes.last());
        lemma_step_after_drain(state.drained().run(front), bytes.last());
    }
}

/// A drain between two frames: from a frame boundary, the first frame joins
/// the queue; once the queue has been drained, the second frame is read as if
/// nothing had come before, and is then alone in the queue.
pub proof fn lemma_drain_between_frames(state: StreamState, first: Seq<u8>, second: Seq<u8>)
    requires
        state.wf(),
        state.at_frame_boundary(),
        first.len() <= MAX_PAYLOAD_LEN,
        second.len() <= MAX_PAYLOAD_LEN,
    ensures
        state.run(encode_frame(first)).completed == state.completed.push(Frame::of_payload(first)),
        state.run(encode_frame(first)).drained().run(encode_frame(second)).completed == seq![
            Frame::of_payload(second),
        ],
{
    lemma_round_trip(state, first);
    lemma_round_trip(state.run(encode_frame(first)).drained(), second);
}

} // verus!
