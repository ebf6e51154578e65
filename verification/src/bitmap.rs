//! Turns a canvas into the payloads of the bitmap-row frames.
//!
//! A row payload is `row index (u16 BE) | dark pixels left of the middle | dark
//! pixels from the middle on | repeat count (u16 BE, always 1) | packed bits`. The
//! bits are packed eight to a byte, the leftmost pixel in the highest bit, a set bit
//! for a dark pixel; pixels behind the last full byte are counted but not packed.

use vstd::prelude::*;
use vstd::arithmetic::power2::{lemma2_to64, lemma_pow2_unfold, pow2};
use crate::packet::{NiimbotPacket, MAX_PAYLOAD};
use crate::protocol::PRINT_BITMAP_ROW;

verus! {

/// A pixel prints when its lowest byte is below this value.
pub const DARK_THRESHOLD: u32 = 1;

/// Bytes of a row payload in front of the packed bits.
pub const ROW_HEADER: usize = 6;

/// Whether a pixel prints.
pub open spec fn is_dark(pixel: u32) -> bool {
    (pixel & 0xFF) < DARK_THRESHOLD
}

/// How many of the pixels print.
pub open spec fn dark_count(pixels: Seq<u32>) -> nat
    decreases pixels.len(),
{
    if pixels.len() == 0 {
        0
    } else {
        dark_count(pixels.drop_last()) + if is_dark(pixels.last()) {
            1nat
        } else {
            0nat
        }
    }
}

/// The number whose binary digits, most significant first, tell which pixels print.
pub open spec fn bits_value(pixels: Seq<u32>) -> nat
    decreases pixels.len(),
{
    if pixels.len() == 0 {
        0
    } else {
        2 * bits_value(pixels.drop_last()) + if is_dark(pixels.last()) {
            1nat
        } else {
            0nat
        }
    }
}

/// The byte that a group of eight pixels is packed into.
pub open spec fn packed_byte(group: Seq<u32>) -> u8 {
    (bits_value(group) % 256) as u8
}

/// The packed bits of a row: one byte for each full group of eight pixels.
pub open spec fn packed_bits(pixels: Seq<u32>) -> Seq<u8> {
    Seq::new((pixels.len() / 8) as nat, |k: int| packed_byte(pixels.subrange(8 * k, 8 * k + 8)))
}

/// The payload of the frame that carries row `row`.
pub open spec fn row_payload(pixels: Seq<u32>, row: int) -> Seq<u8> {
    let middle = pixels.len() / 2;
    seq![
        (row / 256 % 256) as u8,
        (row % 256) as u8,
        (dark_count(pixels.subrange(0, middle as int)) % 256) as u8,
        (dark_count(pixels.subrange(middle as int, pixels.len() as int)) % 256) as u8,
        0u8,
        1u8,
    ] + packed_bits(pixels)
}

/// Row `row` of an image that is `width` pixels wide.
pub open spec fn image_row(image: Seq<u32>, width: int, row: int) -> Seq<u32> {
    image.subrange(row * width, row * width + width)
}

/// The image holds `height` rows of `width` pixels.
pub open spec fn holds_rows(image: Seq<u32>, width: int, height: int) -> bool {
    0 <= width && 0 <= height && width * height <= image.len()
}

/// The payloads of the rows of an image, top row first.
pub open spec fn row_payloads(image: Seq<u32>, width: int, height: int) -> Seq<Seq<u8>> {
    Seq::new(height as nat, |row: int| row_payload(image_row(image, width, row), row))
}

/// The number that `n` pixels write is below two to the power of `n`.
pub proof fn lemma_bits_value_bound(pixels: Seq<u32>)
    ensures
        bits_value(pixels) < pow2(pixels.len()),
    decreases pixels.len(),
{
    if pixels.len() == 0 {
        lemma2_to64();
    } else {
        lemma_bits_value_bound(pixels.drop_last());
        lemma_pow2_unfold(pixels.len());
    }
}

/// A group of eight pixels is packed without loss: the byte is the number that
/// the group writes.
pub proof fn lemma_packed_byte_exact(group: Seq<u32>)
    requires
        group.len() == 8,
    ensures
        packed_byte(group) as nat == bits_value(group),
{
    lemma_bits_value_bound(group);
    lemma2_to64();
}

proof fn lemma_row_within(image: Seq<u32>, width: int, height: int, row: int)
    requires
        holds_rows(image, width, height),
        0 <= row < height,
    ensures
        0 <= row * width,
        row * width + width <= image.len(),
        row * width + width == (row + 1) * width,
{
    assert(row * width >= 0) by (nonlinear_arith)
        requires
            row >= 0,
            width >= 0,
    ;
    assert((row + 1) * width <= height * width) by (nonlinear_arith)
        requires
            row + 1 <= height,
            width >= 0,
    ;
    assert(row * width + width == (row + 1) * width) by (nonlinear_arith);
    assert(height * width == width * height) by (nonlinear_arith);
}

/// An encoded row is six bytes longer than its packed bits.
pub proof fn lemma_row_payload_len(image: Seq<u32>, width: int, height: int, row: int)
    requires
        holds_rows(image, width, height),
        0 <= row < height,
    ensures
        row_payloads(image, width, height)[row].len() == ROW_HEADER + width / 8,
{
    lemma_row_within(image, width, height, row);
}

/// Whether a pixel prints.
pub fn pixel_is_dark(pixel: u32) -> (dark: bool)
    ensures
        dark == is_dark(pixel),
{
    (pixel & 0xFF) < DARK_THRESHOLD
}

/// Counts the dark pixels of `pixels[from..to]`.
fn count_dark(pixels: &[u32], from: usize, to: usize) -> (count: usize)
    requires
        from <= to <= pixels.len(),
    ensures
        count == dark_count(pixels@.subrange(from as int, to as int)),
        count <= to - from,
{
    let mut count: usize = 0;
    let mut i: usize = from;
    proof {
        assert(pixels@.subrange(from as int, from as int) =~= Seq::<u32>::empty());
    }
    while i < to
        invariant
            from <= i <= to <= pixels.len(),
            count == dark_count(pixels@.subrange(from as int, i as int)),
            count <= i - from,
        decreases to - i,
    {
        proof {
            assert(pixels@.subrange(from as int, i + 1).drop_last() =~= pixels@.subrange(
                from as int,
                i as int,
            ));
        }
        if pixel_is_dark(pixels[i]) {
            count += 1;
        }
        i += 1;
    }
    count
}

/// Packs the eight pixels that start at `from` into one byte.
fn pack_byte(pixels: &[u32], from: usize) -> (byte: u8)
    requires
        from + 8 <= pixels.len(),
    ensures
        byte == packed_byte(pixels@.subrange(from as int, from + 8)),
{
    let mut value: u32 = 0;
    let mut j: usize = 0;
    proof {
        assert(pixels@.subrange(from as int, from as int) =~= Seq::<u32>::empty());
        lemma2_to64();
    }
    while j < 8
        invariant
            j <= 8,
            from + 8 <= pixels.len(),
            value == bits_value(pixels@.subrange(from as int, from + j)),
            value < pow2(j as nat),
            pow2(j as nat) <= 256,
        decreases 8 - j,
    {
        proof {
            assert(pixels@.subrange(from as int, from + j + 1).drop_last() =~= pixels@.subrange(
                from as int,
                from + j,
            ));
            lemma_pow2_unfold((j + 1) as nat);
            lemma2_to64();
        }
        let bit: u32 = if pixel_is_dark(pixels[from + j]) {
            1
        } else {
            0
        };
        value = 2 * value + bit;
        j += 1;
    }
    value as u8
}

/// Encodes the pixels `image[start..start + width]` as the payload of row `row`.
fn encode_row(image: &[u32], start: usize, width: usize, row: usize) -> (payload: Vec<u8>)
    requires
        start + width <= image.len(),
    ensures
        payload@ == row_payload(image@.subrange(start as int, start + width), row as int),
        payload@.len() == ROW_HEADER + width / 8,
{
    let ghost pixels = image@.subrange(start as int, start + width);
    let middle = width / 2;
    let left = count_dark(image, start, start + middle);
    let right = count_dark(image, start + middle, start + width);
    proof {
        assert(pixels.subrange(0, middle as int) =~= image@.subrange(
            start as int,
            start + middle,
        ));
        assert(pixels.subrange(middle as int, pixels.len() as int) =~= image@.subrange(
            start + middle,
            start + width,
        ));
    }
    let mut payload: Vec<u8> = Vec::with_capacity(ROW_HEADER + width / 8);
    payload.push((row / 256 % 256) as u8);
    payload.push((row % 256) as u8);
    payload.push((left % 256) as u8);
    payload.push((right % 256) as u8);
    payload.push(0);
    payload.push(1);
    let ghost header = payload@;
    let groups = width / 8;
    let mut k: usize = 0;
    while k < groups
        invariant
            k <= groups,
            groups == width / 8,
            start + width <= image.len(),
            pixels == image@.subrange(start as int, start + width),
            header.len() == ROW_HEADER,
            payload@.len() == ROW_HEADER + k,
            payload@.subrange(0, ROW_HEADER as int) == header,
            forall|g: int|
                0 <= g < k ==> #[trigger] payload@[ROW_HEADER + g] == packed_byte(
                    pixels.subrange(8 * g, 8 * g + 8),
                ),
        decreases groups - k,
    {
        let byte = pack_byte(image, start + 8 * k);
        proof {
            assert(pixels.subrange(8 * k, 8 * k + 8) =~= image@.subrange(
                start + 8 * k,
                start + 8 * k + 8,
            ));
        }
        let ghost before = payload@;
        payload.push(byte);
        proof {
            assert(payload@.subrange(0, ROW_HEADER as int) =~= before.subrange(
                0,
                ROW_HEADER as int,
            ));
            assert forall|g: int| 0 <= g < k + 1 implies #[trigger] payload@[ROW_HEADER + g]
                == packed_byte(pixels.subrange(8 * g, 8 * g + 8)) by {
                if g < k {
                    assert(payload@[ROW_HEADER + g] == before[ROW_HEADER + g]);
                }
            }
        }
        k += 1;
    }
    proof {
        assert(payload@.len() == (header + packed_bits(pixels)).len());
        assert forall|i: int| 0 <= i < payload@.len() implies payload@[i] == (header
            + packed_bits(pixels))[i] by {
            if i < ROW_HEADER {
                assert(payload@[i] == payload@.subrange(0, ROW_HEADER as int)[i]);
            } else {
                assert(payload@[ROW_HEADER + (i - ROW_HEADER)] == packed_byte(
                    pixels.subrange(8 * (i - ROW_HEADER), 8 * (i - ROW_HEADER) + 8),
                ));
            }
        }
        assert(payload@ =~= header + packed_bits(pixels));
    }
    payload
}

/// Encodes every row of the image, top row first.
///
/// The image holds its rows one after the other; only the first `width * height`
/// pixels are read.
pub fn prepare_image(image: &[u32], width: usize, height: usize) -> (rows: Vec<Vec<u8>>)
    requires
        holds_rows(image@, width as int, height as int),
    ensures
        rows.deep_view() == row_payloads(image@, width as int, height as int),
{
    let mut rows: Vec<Vec<u8>> = Vec::with_capacity(height);
    let mut y: usize = 0;
    while y < height
        invariant
            y <= height,
            holds_rows(image@, width as int, height as int),
            rows@.len() == y,
            forall|r: int|
                0 <= r < y ==> (#[trigger] rows@[r])@ == row_payload(
                    image_row(image@, width as int, r),
                    r,
                ),
        decreases height - y,
    {
        proof {
            lemma_row_within(image@, width as int, height as int, y as int);
            assert(image@.len() == image.len());
        }
        let payload = encode_row(image, y * width, width, y);
        rows.push(payload);
        y += 1;
    }
    proof {
        assert(rows.deep_view().len() == height);
        assert forall|r: int| 0 <= r < height implies #[trigger] rows.deep_view()[r]
            == row_payloads(image@, width as int, height as int)[r] by {
            assert(rows.deep_view()[r] == rows@[r].deep_view());
            assert(rows@[r].deep_view() =~= rows@[r]@);
        }
        assert(rows.deep_view() =~= row_payloads(image@, width as int, height as int));
    }
    rows
}

/// Whether the rows of an image this wide fit a frame.
pub open spec fn row_fits_frame(width: int) -> bool {
    ROW_HEADER + width / 8 <= MAX_PAYLOAD
}

/// The bitmap-row packets of an image, top row first.
pub fn naive_encoder(width: usize, height: usize, img: &[u32]) -> (packets: Vec<NiimbotPacket>)
    requires
        holds_rows(img@, width as int, height as int),
    ensures
        packets@.len() == height,
        forall|r: int|
            0 <= r < height ==> (#[trigger] packets@[r])@.command == PRINT_BITMAP_ROW
                && packets@[r]@.payload == row_payload(image_row(img@, width as int, r), r),
        row_fits_frame(width as int) ==> forall|r: int|
            0 <= r < height ==> (#[trigger] packets@[r]).encodable(),
{
    let mut packets: Vec<NiimbotPacket> = Vec::with_capacity(height);
    let mut y: usize = 0;
    while y < height
        invariant
            y <= height,
            holds_rows(img@, width as int, height as int),
            packets@.len() == y,
            forall|r: int|
                0 <= r < y ==> (#[trigger] packets@[r])@.command == PRINT_BITMAP_ROW
                    && packets@[r]@.payload == row_payload(image_row(img@, width as int, r), r)
                    && packets@[r]@.payload.len() == ROW_HEADER + width / 8,
        decreases height - y,
    {
        proof {
            lemma_row_within(img@, width as int, height as int, y as int);
            assert(img@.len() == img.len());
        }
        let payload = encode_row(img, y * width, width, y);
        packets.push(NiimbotPacket::new(PRINT_BITMAP_ROW, payload));
        y += 1;
    }
    packets
}

/// The byte that gathers the first `count` of the bits from place `8 * group` on:
/// each bit is shifted to its place, the first to the highest, and what a shift
/// pushes out of the byte is lost.
pub open spec fn gathered_byte(bits: Seq<u8>, group: int, count: int) -> u8
    decreases count,
{
    if count <= 0 {
        0u8
    } else {
        gathered_byte(bits, group, count - 1) | (bits[8 * group + count - 1] << ((8
            - count) as u8))
    }
}

/// How many bits of a list fall into a group of eight.
pub open spec fn group_size(len: int, group: int) -> int {
    if len - 8 * group >= 8 {
        8
    } else {
        len - 8 * group
    }
}

/// The bytes that a list of bits is packed into, eight to a byte, the last byte
/// filled up with zeros.
pub open spec fn packed_list(bits: Seq<u8>) -> Seq<u8> {
    Seq::new(
        ((bits.len() + 7) / 8) as nat,
        |group: int| gathered_byte(bits, group, group_size(bits.len() as int, group)),
    )
}

/// Packs a list of bits, each given as a byte of value zero or one, eight to a
/// byte and the first bit of each group highest.
pub fn pack_bits_to_bytes(bits: &[u8]) -> (bytes: Vec<u8>)
    ensures
        bytes@ == packed_list(bits@),
{
    let len = bits.len();
    let groups: usize = len / 8 + if len % 8 == 0 {
        0
    } else {
        1
    };
    let mut bytes: Vec<u8> = Vec::with_capacity(groups);
    let mut group: usize = 0;
    while group < groups
        invariant
            group <= groups,
            len == bits@.len(),
            groups == (len + 7) / 8,
            bytes@.len() == group,
            forall|g: int|
                0 <= g < group ==> #[trigger] bytes@[g] == gathered_byte(
                    bits@,
                    g,
                    group_size(len as int, g),
                ),
        decreases groups - group,
    {
        let count: usize = if len - 8 * group >= 8 {
            8
        } else {
            len - 8 * group
        };
        let mut byte: u8 = 0;
        let mut j: usize = 0;
        while j < count
            invariant
                j <= count <= 8,
                8 * group + count <= len,
                len == bits@.len(),
                byte == gathered_byte(bits@, group as int, j as int),
            decreases count - j,
        {
            let shift: u8 = (7 - j) as u8;
            byte = byte | (bits[8 * group + j] << shift);
            j += 1;
        }
        bytes.push(byte);
        group += 1;
    }
    proof {
        assert(bytes@ =~= packed_list(bits@));
    }
    bytes
}

} // verus!
