//! Cuts the bytes of one receive call into frames.
//!
//! Bytes are gathered one at a time. Whenever the gathered bytes begin with the
//! start marker and end with the end marker they are decoded: a frame is emitted on
//! success, and in either case gathering starts over. Nothing is ever re-scanned.

use vstd::prelude::*;
use crate::packet::{
    decode, encode, lemma_decode_encode, lemma_encode_decode, Frame, NiimbotPacket, END_MARKER,
    MAX_PAYLOAD, START_MARKER,
};

verus! {

/// Fewest gathered bytes that are tried as a frame.
pub const MIN_CANDIDATE: usize = 4;

/// The gathered bytes begin with the start marker and end with the end marker.
pub open spec fn is_candidate(gathered: Seq<u8>) -> bool {
    &&& gathered.len() >= MIN_CANDIDATE
    &&& gathered[0] == START_MARKER
    &&& gathered[1] == START_MARKER
    &&& gathered[gathered.len() - 2] == END_MARKER
    &&& gathered[gathered.len() - 1] == END_MARKER
}

/// The frames emitted while the bytes of `rest` are added to `gathered` one by one.
pub open spec fn scan(gathered: Seq<u8>, rest: Seq<u8>) -> Seq<Frame>
    decreases rest.len(),
{
    if rest.len() == 0 {
        Seq::empty()
    } else {
        let grown = gathered.push(rest[0]);
        let tail = rest.subrange(1, rest.len() as int);
        if is_candidate(grown) {
            match decode(grown) {
                Ok(frame) => seq![frame] + scan(Seq::empty(), tail),
                Err(_) => scan(Seq::empty(), tail),
            }
        } else {
            scan(grown, tail)
        }
    }
}

/// The frames that one received byte stream yields.
pub open spec fn frames_in(stream: Seq<u8>) -> Seq<Frame> {
    scan(Seq::empty(), stream)
}

/// The frames that a list of packets stands for.
pub open spec fn frames_of(packets: Seq<NiimbotPacket>) -> Seq<Frame> {
    packets.map_values(|packet: NiimbotPacket| packet@)
}

/// The end marker closes the byte string and no shorter prefix of it: gathering the
/// bytes one by one, the first decoding attempt is made on the whole string.
pub open spec fn marker_only_at_end(bytes: Seq<u8>) -> bool {
    forall|k: int| 0 <= k < bytes.len() ==> !is_candidate(#[trigger] bytes.subrange(0, k))
}

/// What one decoding attempt adds to the output.
pub open spec fn emitted_by(attempt: Seq<u8>) -> Seq<Frame> {
    match decode(attempt) {
        Ok(frame) => seq![frame],
        Err(_) => Seq::empty(),
    }
}

/// Bytes on the wire that a list of frames takes.
pub open spec fn wire_length(frames: Seq<Frame>) -> nat
    decreases frames.len(),
{
    if frames.len() == 0 {
        0
    } else {
        encode(frames.first()).len() + wire_length(frames.drop_first())
    }
}

proof fn lemma_scan_through(unit: Seq<u8>, gathered: int, rest: Seq<u8>)
    requires
        is_candidate(unit),
        marker_only_at_end(unit),
        0 <= gathered < unit.len(),
    ensures
        scan(unit.subrange(0, gathered), unit.subrange(gathered, unit.len() as int) + rest)
            == emitted_by(unit) + scan(Seq::empty(), rest),
    decreases unit.len() - gathered,
{
    let pending = unit.subrange(gathered, unit.len() as int) + rest;
    let grown = unit.subrange(0, gathered).push(pending[0]);
    let tail = pending.subrange(1, pending.len() as int);
    assert(grown =~= unit.subrange(0, gathered + 1));
    assert(tail =~= unit.subrange(gathered + 1, unit.len() as int) + rest);
    if gathered + 1 < unit.len() {
        lemma_scan_through(unit, gathered + 1, rest);
    } else {
        assert(grown =~= unit);
        assert(tail =~= rest);
        assert(Seq::<Frame>::empty() + scan(Seq::empty(), rest) =~= scan(Seq::empty(), rest));
    }
}

/// A frame whose end marker appears only at its end is emitted, and scanning goes
/// on behind it as if the stream began there.
pub proof fn lemma_frame_emitted(frame: Frame, rest: Seq<u8>)
    requires
        frame.payload.len() <= MAX_PAYLOAD,
        marker_only_at_end(encode(frame)),
    ensures
        frames_in(encode(frame) + rest) == seq![frame] + frames_in(rest),
{
    let wire = encode(frame);
    lemma_decode_encode(frame);
    lemma_scan_through(wire, 0, rest);
    assert(wire.subrange(0, 0) =~= Seq::<u8>::empty());
    assert(wire.subrange(0, wire.len() as int) =~= wire);
}

/// A stretch of bytes that carries both markers but does not decode, and holds no
/// earlier end marker, is dropped whole: the bytes behind it are scanned afresh.
pub proof fn lemma_corrupt_stretch_dropped(corrupt: Seq<u8>, rest: Seq<u8>)
    requires
        is_candidate(corrupt),
        marker_only_at_end(corrupt),
        decode(corrupt) is Err,
    ensures
        frames_in(corrupt + rest) == frames_in(rest),
{
    lemma_scan_through(corrupt, 0, rest);
    assert(corrupt.subrange(0, 0) =~= Seq::<u8>::empty());
    assert(corrupt.subrange(0, corrupt.len() as int) =~= corrupt);
    assert(Seq::<Frame>::empty() + frames_in(rest) =~= frames_in(rest));
}

/// One corrupted frame followed by one valid frame yields exactly the valid frame,
/// provided neither holds an end marker before its end.
pub proof fn lemma_corrupt_then_valid(corrupt: Seq<u8>, frame: Frame)
    requires
        is_candidate(corrupt),
        marker_only_at_end(corrupt),
        decode(corrupt) is Err,
        frame.payload.len() <= MAX_PAYLOAD,
        marker_only_at_end(encode(frame)),
    ensures
        frames_in(corrupt + encode(frame)) == seq![frame],
{
    lemma_corrupt_stretch_dropped(corrupt, encode(frame));
    lemma_frame_emitted(frame, Seq::empty());
    assert(encode(frame) + Seq::<u8>::empty() =~= encode(frame));
    assert(seq![frame] + frames_in(Seq::empty()) =~= seq![frame]);
}

proof fn lemma_scan_consumes(gathered: Seq<u8>, rest: Seq<u8>)
    ensures
        wire_length(scan(gathered, rest)) <= gathered.len() + rest.len(),
    decreases rest.len(),
{
    if rest.len() > 0 {
        let grown = gathered.push(rest[0]);
        let tail = rest.subrange(1, rest.len() as int);
        if is_candidate(grown) {
            lemma_scan_consumes(Seq::empty(), tail);
            match decode(grown) {
                Ok(frame) => {
                    lemma_encode_decode(grown);
                    let later = scan(Seq::empty(), tail);
                    assert((seq![frame] + later).drop_first() =~= later);
                    assert((seq![frame] + later).first() == frame);
                },
                Err(_) => {},
            }
        } else {
            lemma_scan_consumes(grown, tail);
        }
    }
}

/// Every emitted frame is paid for with bytes of its own: the wire forms of the
/// frames that a stream yields are together no longer than the stream.
pub proof fn lemma_frames_fit_stream(stream: Seq<u8>)
    ensures
        wire_length(frames_in(stream)) <= stream.len(),
{
    lemma_scan_consumes(Seq::empty(), stream);
}

/// Whether the wire form of a frame stands in the stream at a place.
pub open spec fn stands_at(stream: Seq<u8>, frame: Frame, at: int) -> bool {
    0 <= at && at + encode(frame).len() <= stream.len() && stream.subrange(
        at,
        at + encode(frame).len(),
    ) == encode(frame)
}

/// Whether the wire forms of the frames stand in the stream from `from` on, in
/// order and one behind the other.
pub open spec fn located(stream: Seq<u8>, frames: Seq<Frame>, from: int) -> bool
    decreases frames.len(),
{
    frames.len() == 0 || exists|at: int|
        from <= at && #[trigger] stands_at(stream, frames.first(), at) && located(
            stream,
            frames.drop_first(),
            at + encode(frames.first()).len(),
        )
}

proof fn lemma_located_from_earlier(stream: Seq<u8>, frames: Seq<Frame>, from: int, earlier: int)
    requires
        located(stream, frames, from),
        earlier <= from,
    ensures
        located(stream, frames, earlier),
{
    if frames.len() > 0 {
        let at = choose|at: int|
            from <= at && #[trigger] stands_at(stream, frames.first(), at) && located(
                stream,
                frames.drop_first(),
                at + encode(frames.first()).len(),
            );
        assert(earlier <= at && stands_at(stream, frames.first(), at));
    }
}

proof fn lemma_scan_located(stream: Seq<u8>, consumed: int, gathered: int)
    requires
        0 <= gathered <= consumed <= stream.len(),
    ensures
        located(
            stream,
            scan(
                stream.subrange(consumed - gathered, consumed),
                stream.subrange(consumed, stream.len() as int),
            ),
            consumed - gathered,
        ),
    decreases stream.len() - consumed,
{
    let held = stream.subrange(consumed - gathered, consumed);
    let rest = stream.subrange(consumed, stream.len() as int);
    if rest.len() > 0 {
        let grown = held.push(rest[0]);
        let tail = rest.subrange(1, rest.len() as int);
        assert(grown =~= stream.subrange(consumed - gathered, consumed + 1));
        assert(tail =~= stream.subrange(consumed + 1, stream.len() as int));
        assert(Seq::<u8>::empty() =~= stream.subrange(consumed + 1, consumed + 1));
        if is_candidate(grown) {
            lemma_scan_located(stream, consumed + 1, 0);
            let later = scan(Seq::empty(), tail);
            match decode(grown) {
                Ok(frame) => {
                    lemma_encode_decode(grown);
                    let found = seq![frame] + later;
                    assert(found.first() == frame);
                    assert(found.drop_first() =~= later);
                    assert(stands_at(stream, frame, consumed - gathered));
                },
                Err(_) => {
                    lemma_located_from_earlier(stream, later, consumed + 1, consumed - gathered);
                },
            }
        } else {
            lemma_scan_located(stream, consumed + 1, gathered + 1);
        }
    }
}

/// The frames that a stream yields stand in it as their wire forms, in the
/// order in which they are emitted and without overlap: every emitted frame was
/// sent, and no frame of the stream is emitted twice.
pub proof fn lemma_frames_located(stream: Seq<u8>)
    ensures
        located(stream, frames_in(stream), 0),
{
    lemma_scan_located(stream, 0, 0);
    assert(stream.subrange(0, 0) =~= Seq::<u8>::empty());
    assert(stream.subrange(0, stream.len() as int) =~= stream);
}

/// Whether the gathered bytes are tried as a frame.
fn candidate(gathered: &Vec<u8>) -> (yes: bool)
    ensures
        yes == is_candidate(gathered@),
{
    let n = gathered.len();
    n >= MIN_CANDIDATE && gathered[0] == START_MARKER && gathered[1] == START_MARKER && gathered[n
        - 2] == END_MARKER && gathered[n - 1] == END_MARKER
}

/// Splits the bytes returned by one receive call into the frames they hold, in
/// order; malformed stretches are dropped.
pub fn reassemble(stream: &[u8]) -> (packets: Vec<NiimbotPacket>)
    ensures
        frames_of(packets@) == frames_in(stream@),
{
    let mut packets: Vec<NiimbotPacket> = Vec::new();
    let mut gathered: Vec<u8> = Vec::new();
    let mut position: usize = 0;
    proof {
        assert(frames_of(packets@) =~= Seq::<Frame>::empty());
        assert(stream@.subrange(0, stream@.len() as int) =~= stream@);
    }
    while position < stream.len()
        invariant
            position <= stream.len(),
            frames_of(packets@) + scan(
                gathered@,
                stream@.subrange(position as int, stream@.len() as int),
            ) == frames_in(stream@),
        decreases stream.len() - position,
    {
        let ghost emitted = frames_of(packets@);
        let ghost rest = stream@.subrange(position as int, stream@.len() as int);
        gathered.push(stream[position]);
        position += 1;
        proof {
            assert(rest[0] == stream@[position - 1]);
            assert(rest.subrange(1, rest.len() as int) =~= stream@.subrange(
                position as int,
                stream@.len() as int,
            ));
        }
        if candidate(&gathered) {
            match NiimbotPacket::from_bytes(gathered.as_slice()) {
                Ok(packet) => {
                    let ghost frame = packet@;
                    packets.push(packet);
                    proof {
                        assert(frames_of(packets@) =~= emitted + seq![frame]);
                        let tail = scan(
                            Seq::empty(),
                            stream@.subrange(position as int, stream@.len() as int),
                        );
                        assert((emitted + seq![frame]) + tail =~= emitted + (seq![frame] + tail));
                    }
                },
                Err(_) => {},
            }
            gathered.clear();
            proof {
                assert(gathered@ =~= Seq::<u8>::empty());
            }
        }
    }
    proof {
        assert(frames_of(packets@) + Seq::<Frame>::empty() =~= frames_of(packets@));
    }
    packets
}

} // verus!
