//! One wire frame: `55 55 | command | len | payload | checksum | AA AA`.

use vstd::prelude::*;

verus! {

/// First and second byte of every frame.
pub const START_MARKER: u8 = 0x55;

/// Last two bytes of every frame.
pub const END_MARKER: u8 = 0xAA;

/// Largest payload one frame can carry.
pub const MAX_PAYLOAD: usize = 255;

/// Bytes a frame adds around its payload.
pub const FRAME_OVERHEAD: usize = 7;

/// Mathematical model of a frame.
pub struct Frame {
    pub command: u8,
    pub payload: Seq<u8>,
}

/// A protocol message: a command code and its payload.
#[derive(Debug)]
pub struct NiimbotPacket {
    pub packet_type: u8,
    pub data: Vec<u8>,
}

/// Why a byte string is not a frame.
#[derive(Debug, Clone, Copy, PartialEq, Eq, Structural)]
pub enum PacketError {
    /// The bytes are too few for a frame, or a marker is not in its place.
    InvalidBoundaries,
    /// The markers are in place, but the length byte or the checksum byte does
    /// not agree with what stands between them.
    InvalidChecksum,
}

impl View for NiimbotPacket {
    type V = Frame;

    open spec fn view(&self) -> Frame {
        Frame { command: self.packet_type, payload: self.data@ }
    }
}

/// XOR of all bytes of a sequence; zero for the empty sequence.
pub open spec fn xor_fold(bytes: Seq<u8>) -> u8
    decreases bytes.len(),
{
    if bytes.len() == 0 {
        0u8
    } else {
        xor_fold(bytes.drop_last()) ^ bytes.last()
    }
}

/// The checksum byte of a frame with this command and payload.
pub open spec fn frame_checksum(command: u8, payload: Seq<u8>) -> u8 {
    command ^ (payload.len() as u8) ^ xor_fold(payload)
}

/// The wire form of a frame.
pub open spec fn encode(frame: Frame) -> Seq<u8> {
    seq![START_MARKER, START_MARKER, frame.command, frame.payload.len() as u8] + frame.payload
        + seq![frame_checksum(frame.command, frame.payload), END_MARKER, END_MARKER]
}

/// The bytes are enough for a frame and both markers are in place.
pub open spec fn well_bounded(bytes: Seq<u8>) -> bool {
    &&& bytes.len() >= FRAME_OVERHEAD
    &&& bytes[0] == START_MARKER
    &&& bytes[1] == START_MARKER
    &&& bytes[bytes.len() - 2] == END_MARKER
    &&& bytes[bytes.len() - 1] == END_MARKER
}

/// The length byte accounts for every byte between the markers, and the checksum
/// byte is the checksum of command and payload.
pub open spec fn well_summed(bytes: Seq<u8>) -> bool {
    &&& bytes.len() == FRAME_OVERHEAD + bytes[3]
    &&& bytes[bytes.len() - 3] == frame_checksum(bytes[2], payload_of(bytes))
}

/// The bytes between the length byte and the checksum byte.
pub open spec fn payload_of(bytes: Seq<u8>) -> Seq<u8> {
    bytes.subrange(4, bytes.len() - 3)
}

/// What a byte string decodes to.
pub open spec fn decode(bytes: Seq<u8>) -> Result<Frame, PacketError> {
    if !well_bounded(bytes) {
        Err(PacketError::InvalidBoundaries)
    } else if !well_summed(bytes) {
        Err(PacketError::InvalidChecksum)
    } else {
        Ok(Frame { command: bytes[2], payload: payload_of(bytes) })
    }
}

/// Folding a prefix one byte further.
pub proof fn lemma_xor_fold_push(bytes: Seq<u8>, byte: u8)
    ensures
        xor_fold(bytes.push(byte)) == xor_fold(bytes) ^ byte,
{
    assert(bytes.push(byte).drop_last() =~= bytes);
}

/// XOR of the bytes of a slice.
pub fn xor_fold_bytes(bytes: &[u8]) -> (folded: u8)
    ensures
        folded == xor_fold(bytes@),
{
    let mut folded: u8 = 0;
    let mut i: usize = 0;
    while i < bytes.len()
        invariant
            i <= bytes.len(),
            folded == xor_fold(bytes@.subrange(0, i as int)),
        decreases bytes.len() - i,
    {
        proof {
            lemma_xor_fold_push(bytes@.subrange(0, i as int), bytes@[i as int]);
            assert(bytes@.subrange(0, i as int).push(bytes@[i as int]) =~= bytes@.subrange(
                0,
                i + 1,
            ));
        }
        folded = folded ^ bytes[i];
        i += 1;
    }
    proof {
        assert(bytes@.subrange(0, bytes.len() as int) =~= bytes@);
    }
    folded
}

/// Changing one byte of a sequence by XOR with `delta` changes its fold by `delta`.
pub proof fn lemma_xor_fold_update(bytes: Seq<u8>, index: int, delta: u8)
    requires
        0 <= index < bytes.len(),
    ensures
        xor_fold(bytes.update(index, bytes[index] ^ delta)) == xor_fold(bytes) ^ delta,
    decreases bytes.len(),
{
    let changed = bytes.update(index, bytes[index] ^ delta);
    let last = bytes.last();
    let rest = xor_fold(bytes.drop_last());
    if index == bytes.len() - 1 {
        assert(changed.drop_last() =~= bytes.drop_last());
        assert(rest ^ (last ^ delta) == (rest ^ last) ^ delta) by (bit_vector);
    } else {
        lemma_xor_fold_update(bytes.drop_last(), index, delta);
        assert(changed.drop_last() =~= bytes.drop_last().update(index, bytes[index] ^ delta));
        assert((rest ^ delta) ^ last == (rest ^ last) ^ delta) by (bit_vector);
    }
}

/// Decoding the wire form of a frame gives the frame back.
pub proof fn lemma_decode_encode(frame: Frame)
    requires
        frame.payload.len() <= MAX_PAYLOAD,
    ensures
        decode(encode(frame)) == Ok::<Frame, PacketError>(frame),
{
    let wire = encode(frame);
    assert(payload_of(wire) =~= frame.payload);
}

/// Only wire forms decode: a byte string that decodes to a frame is that frame's encoding.
pub proof fn lemma_encode_decode(bytes: Seq<u8>)
    requires
        decode(bytes) is Ok,
    ensures
        encode(decode(bytes)->Ok_0) == bytes,
        decode(bytes)->Ok_0.payload.len() <= MAX_PAYLOAD,
{
    let frame = decode(bytes)->Ok_0;
    assert(encode(frame) =~= bytes);
}

/// The position of a payload or checksum byte in the wire form of a frame.
pub open spec fn guarded_position(frame: Frame, index: int) -> bool {
    4 <= index <= 4 + frame.payload.len()
}

/// Flipping one bit of a payload byte or of the checksum byte of an encoded frame
/// makes decoding fail.
pub proof fn lemma_bit_flip_rejected(frame: Frame, index: int, bit: u8)
    requires
        frame.payload.len() <= MAX_PAYLOAD,
        guarded_position(frame, index),
        bit < 8,
    ensures
        decode(encode(frame).update(index, encode(frame)[index] ^ (1u8 << bit))) is Err,
{
    let wire = encode(frame);
    let delta: u8 = 1u8 << bit;
    let flipped = wire.update(index, wire[index] ^ delta);
    let n = frame.payload.len() as int;
    assert(delta != 0) by (bit_vector)
        requires
            delta == 1u8 << bit,
            bit < 8,
    ;
    assert(well_bounded(flipped));
    let stored = flipped[flipped.len() - 3];
    let head: u8 = frame.command ^ (frame.payload.len() as u8);
    if index == 4 + n {
        assert(payload_of(flipped) =~= frame.payload);
        let sum = frame_checksum(frame.command, frame.payload);
        assert(sum ^ delta != sum) by (bit_vector)
            requires
                delta != 0,
        ;
    } else {
        let at = index - 4;
        assert(payload_of(flipped) =~= frame.payload.update(at, frame.payload[at] ^ delta));
        lemma_xor_fold_update(frame.payload, at, delta);
        let fold = xor_fold(frame.payload);
        assert(head ^ (fold ^ delta) != head ^ fold) by (bit_vector)
            requires
                delta != 0,
        ;
    }
}

/// A copy of a byte vector.
pub fn copy_bytes(bytes: &Vec<u8>) -> (copy: Vec<u8>)
    ensures
        copy@ == bytes@,
{
    let copy = bytes.clone();
    proof {
        assert(copy@ =~= bytes@);
    }
    copy
}

impl Clone for NiimbotPacket {
    fn clone(&self) -> (copy: NiimbotPacket)
        ensures
            copy@ == self@,
    {
        NiimbotPacket { packet_type: self.packet_type, data: copy_bytes(&self.data) }
    }
}

impl PacketError {
    /// Human-readable description of the error.
    pub fn message(&self) -> (text: &'static str)
        ensures
            text@ == (match *self {
                PacketError::InvalidBoundaries => "Invalid packet boundaries"@,
                PacketError::InvalidChecksum => "Invalid checksum"@,
            }),
    {
        match self {
            PacketError::InvalidBoundaries => "Invalid packet boundaries",
            PacketError::InvalidChecksum => "Invalid checksum",
        }
    }
}

impl NiimbotPacket {
    /// A packet can be put on the wire when its payload fits the length byte.
    pub open spec fn encodable(&self) -> bool {
        self.data@.len() <= MAX_PAYLOAD
    }

    /// Builds a packet from a command code and its payload.
    pub fn new(packet_type: u8, data: Vec<u8>) -> (packet: NiimbotPacket)
        ensures
            packet.packet_type == packet_type,
            packet.data == data,
    {
        NiimbotPacket { packet_type, data }
    }

    /// The checksum byte this packet carries on the wire.
    pub fn checksum(&self) -> (sum: u8)
        requires
            self.encodable(),
        ensures
            sum == frame_checksum(self.packet_type, self.data@),
    {
        let len: u8 = self.data.len() as u8;
        self.packet_type ^ len ^ xor_fold_bytes(self.data.as_slice())
    }

    /// Encodes the packet into its wire form.
    pub fn to_bytes(&self) -> (bytes: Vec<u8>)
        requires
            self.encodable(),
        ensures
            bytes@ == encode(self@),
            bytes@.len() == self.data@.len() + FRAME_OVERHEAD,
    {
        let len: u8 = self.data.len() as u8;
        let mut bytes: Vec<u8> = Vec::with_capacity(self.data.len() + 7);
        bytes.push(START_MARKER);
        bytes.push(START_MARKER);
        bytes.push(self.packet_type);
        bytes.push(len);
        let mut i: usize = 0;
        while i < self.data.len()
            invariant
                i <= self.data.len(),
                bytes@ == seq![START_MARKER, START_MARKER, self.packet_type, len]
                    + self.data@.subrange(0, i as int),
            decreases self.data.len() - i,
        {
            bytes.push(self.data[i]);
            proof {
                assert(self.data@.subrange(0, i as int).push(self.data@[i as int])
                    =~= self.data@.subrange(0, i + 1));
                assert(bytes@ =~= seq![START_MARKER, START_MARKER, self.packet_type, len]
                    + self.data@.subrange(0, i + 1));
            }
            i += 1;
        }
        proof {
            assert(self.data@.subrange(0, self.data.len() as int) =~= self.data@);
        }
        bytes.push(self.checksum());
        bytes.push(END_MARKER);
        bytes.push(END_MARKER);
        proof {
            assert(bytes@ =~= encode(self@));
        }
        bytes
    }

    /// Decodes one wire frame.
    ///
    /// Fails with `InvalidBoundaries` when the input is shorter than seven bytes or
    /// a marker is wrong, and with `InvalidChecksum` when the markers are in place
    /// but the length byte does not match the total length or the checksum byte is
    /// wrong.
    pub fn from_bytes(bytes: &[u8]) -> (decoded: Result<NiimbotPacket, PacketError>)
        ensures
            decoded is Ok ==> decode(bytes@) == Ok::<Frame, PacketError>(decoded->Ok_0@),
            decoded is Err ==> decode(bytes@) == Err::<Frame, PacketError>(decoded->Err_0),
    {
        let total = bytes.len();
        if total < FRAME_OVERHEAD {
            return Err(PacketError::InvalidBoundaries);
        }
        if bytes[0] != START_MARKER || bytes[1] != START_MARKER || bytes[total - 2] != END_MARKER
            || bytes[total - 1] != END_MARKER {
            return Err(PacketError::InvalidBoundaries);
        }
        let packet_type = bytes[2];
        let len: usize = bytes[3] as usize;
        if total != len + FRAME_OVERHEAD {
            return Err(PacketError::InvalidChecksum);
        }
        let mut data: Vec<u8> = Vec::with_capacity(len);
        let mut i: usize = 0;
        while i < len
            invariant
                i <= len,
                total == len + FRAME_OVERHEAD,
                total == bytes@.len(),
                data@ == bytes@.subrange(4, 4 + i as int),
            decreases len - i,
        {
            data.push(bytes[4 + i]);
            proof {
                assert(data@ =~= bytes@.subrange(4, 4 + i as int + 1));
            }
            i += 1;
        }
        let packet = NiimbotPacket { packet_type, data };
        if bytes[4 + len] != packet.checksum() {
            return Err(PacketError::InvalidChecksum);
        }
        Ok(packet)
    }
}

} // verus!
