//! Draws a decoded icon on the canvas.
//!
//! Every pixel of the icon whose alpha value is at most 128 becomes a square of
//! ink, `size` canvas pixels wide and high. The square of the icon pixel at
//! `(x, y)` begins at column `x * size` and row `y * size`; of its pixels those are
//! drawn whose column is less than the width of the canvas and whose row is less
//! than its height. The whole drawing is then moved by `posx` pixels to the right
//! and `posy` rows down, and what falls behind the last pixel of the canvas is
//! left out.

use vstd::prelude::*;
use crate::canvas::{Canvas, INK};
use crate::webp::DecodedImage;

verus! {

/// Highest alpha value of an icon pixel that is drawn.
pub const ALPHA_LIMIT: u8 = 128;

/// Bytes of one pixel of an image with an alpha channel.
pub const PIXEL_BYTES: usize = 4;

/// Where and how large an icon is drawn.
#[derive(Debug, Clone, Copy, PartialEq, Eq, Structural)]
pub struct Stamp {
    /// Canvas pixels to one icon pixel, each way.
    pub size: u32,
    /// Columns the drawing is moved to the right.
    pub posx: u32,
    /// Rows the drawing is moved down.
    pub posy: u32,
    /// Width of the canvas.
    pub canvas_width: u32,
    /// Height of the canvas.
    pub canvas_height: u32,
}

/// Mathematical model of a decoded image with an alpha channel: four bytes for
/// each pixel, row by row, the alpha value last.
pub struct ImageModel {
    pub width: u32,
    pub height: u32,
    pub data: Seq<u8>,
}

/// The image holds all its pixels.
pub open spec fn image_complete(image: ImageModel) -> bool {
    image.data.len() == image.width * image.height * PIXEL_BYTES
}

/// The alpha value of a pixel of the image.
pub open spec fn alpha_at(image: ImageModel, x: int, y: int) -> u8 {
    image.data[(y * image.width + x) * PIXEL_BYTES + 3]
}

/// Whether the pixel of the image is drawn.
pub open spec fn is_drawn(image: ImageModel, x: int, y: int) -> bool {
    0 <= x < image.width && 0 <= y < image.height && alpha_at(image, x, y) <= ALPHA_LIMIT
}

/// The position on the canvas of one pixel of the square of an icon pixel.
pub open spec fn target(stamp: Stamp, x: int, y: int, sx: int, sy: int) -> int {
    (y * stamp.size + sy + stamp.posy) * stamp.canvas_width + x * stamp.size + sx + stamp.posx
}

/// Whether the pixel `(sx, sy)` of the square of an icon pixel is drawn at
/// `position`.
pub open spec fn square_hits(stamp: Stamp, x: int, y: int, sx: int, sy: int, position: int)
    -> bool {
    &&& 0 <= sx < stamp.size
    &&& 0 <= sy < stamp.size
    &&& x * stamp.size + sx < stamp.canvas_width
    &&& y * stamp.size + sy < stamp.canvas_height
    &&& position == target(stamp, x, y, sx, sy)
}

/// Whether the first `rows` rows of the square of an icon pixel cover a position.
pub open spec fn square_covers(stamp: Stamp, x: int, y: int, rows: int, position: int) -> bool {
    exists|sx: int, sy: int| sy < rows && #[trigger] square_hits(stamp, x, y, sx, sy, position)
}

/// Whether an icon pixel in front of `(x_end, y_end)`, row by row, covers a
/// position.
pub open spec fn covered_before(
    image: ImageModel,
    stamp: Stamp,
    x_end: int,
    y_end: int,
    position: int,
) -> bool {
    exists|x: int, y: int|
        (y < y_end || (y == y_end && x < x_end)) && is_drawn(image, x, y)
            && #[trigger] square_covers(stamp, x, y, stamp.size as int, position)
}

/// Whether the icon covers a position.
pub open spec fn covered(image: ImageModel, stamp: Stamp, position: int) -> bool {
    covered_before(image, stamp, 0, image.height as int, position)
}

/// The canvas with the icon drawn on it.
pub open spec fn stamped(canvas: Seq<u32>, image: ImageModel, stamp: Stamp) -> Seq<u32> {
    Seq::new(
        canvas.len(),
        |position: int|
            if covered(image, stamp, position) {
                INK
            } else {
                canvas[position]
            },
    )
}

/// Puts ink on `count` pixels in a row, the first at `start`.
fn ink_run(canvas: &mut Canvas, start: u128, count: u32)
    requires
        start + count <= u128::MAX,
    ensures
        final(canvas)@.len() == old(canvas)@.len(),
        forall|position: int|
            0 <= position < old(canvas)@.len() ==> #[trigger] final(canvas)@[position] == (
            if start <= position < start + count {
                INK
            } else {
                old(canvas)@[position]
            }),
        final(canvas).spec_width() == old(canvas).spec_width(),
        final(canvas).spec_height() == old(canvas).spec_height(),
{
    let len: usize = canvas.pixels().len();
    let mut k: u32 = 0;
    while k < count && start + (k as u128) < len as u128
        invariant
            k <= count,
            start + count <= u128::MAX,
            len == old(canvas)@.len(),
            canvas@.len() == old(canvas)@.len(),
            forall|position: int|
                0 <= position < old(canvas)@.len() ==> #[trigger] canvas@[position] == (if start
                    <= position < start + k {
                    INK
                } else {
                    old(canvas)@[position]
                }),
            canvas.spec_width() == old(canvas).spec_width(),
            canvas.spec_height() == old(canvas).spec_height(),
        decreases count - k,
    {
        canvas.ink((start + k as u128) as usize);
        k += 1;
    }
}

/// Draws the square of the icon pixel at `(x, y)`.
fn ink_square(canvas: &mut Canvas, stamp: &Stamp, x: u32, y: u32)
    ensures
        final(canvas)@.len() == old(canvas)@.len(),
        forall|position: int|
            0 <= position < old(canvas)@.len() ==> #[trigger] final(canvas)@[position] == (
            if square_covers(*stamp, x as int, y as int, stamp.size as int, position) {
                INK
            } else {
                old(canvas)@[position]
            }),
        final(canvas).spec_width() == old(canvas).spec_width(),
        final(canvas).spec_height() == old(canvas).spec_height(),
{
    proof {
        assert(x * stamp.size <= 0xFFFF_FFFF * 0xFFFF_FFFF) by (nonlinear_arith)
            requires
                0 <= x <= 0xFFFF_FFFF,
                0 <= stamp.size <= 0xFFFF_FFFF,
        ;
        assert(y * stamp.size <= 0xFFFF_FFFF * 0xFFFF_FFFF) by (nonlinear_arith)
            requires
                0 <= y <= 0xFFFF_FFFF,
                0 <= stamp.size <= 0xFFFF_FFFF,
        ;
    }
    let left: u64 = x as u64 * stamp.size as u64;
    let top: u64 = y as u64 * stamp.size as u64;
    let count: u32 = if left >= stamp.canvas_width as u64 {
        0
    } else if stamp.canvas_width as u64 - left < stamp.size as u64 {
        (stamp.canvas_width as u64 - left) as u32
    } else {
        stamp.size
    };
    let mut sy: u32 = 0;
    while sy < stamp.size && top + (sy as u64) < stamp.canvas_height as u64
        invariant
            sy <= stamp.size,
            left == x * stamp.size,
            top == y * stamp.size,
            top <= 0xFFFF_FFFF * 0xFFFF_FFFF,
            count <= stamp.size,
            left + count <= stamp.canvas_width || count == 0,
            count < stamp.size ==> left + count >= stamp.canvas_width,
            canvas@.len() == old(canvas)@.len(),
            forall|position: int|
                0 <= position < old(canvas)@.len() ==> #[trigger] canvas@[position] == (
                if square_covers(*stamp, x as int, y as int, sy as int, position) {
                    INK
                } else {
                    old(canvas)@[position]
                }),
            canvas.spec_width() == old(canvas).spec_width(),
            canvas.spec_height() == old(canvas).spec_height(),
        decreases stamp.size - sy,
    {
        let row: u128 = top as u128 + sy as u128 + stamp.posy as u128;
        proof {
            assert(row * stamp.canvas_width <= 0x3_0000_0000_0000_0000 * 0x1_0000_0000)
                by (nonlinear_arith)
                requires
                    0 <= row <= 0x3_0000_0000_0000_0000,
                    0 <= stamp.canvas_width <= 0x1_0000_0000,
            ;
        }
        let start: u128 = row * stamp.canvas_width as u128 + left as u128 + stamp.posx as u128;
        ink_run(canvas, start, count);
        proof {
            assert(start == target(*stamp, x as int, y as int, 0, sy as int));
            assert forall|position: int| 0 <= position < old(canvas)@.len() implies #[trigger]
                canvas@[position] == (if square_covers(
                *stamp,
                x as int,
                y as int,
                sy + 1,
                position,
            ) {
                INK
            } else {
                old(canvas)@[position]
            }) by {
                let in_run = start <= position < start + count;
                if in_run {
                    assert(square_hits(
                        *stamp,
                        x as int,
                        y as int,
                        position - start,
                        sy as int,
                        position,
                    ));
                }
                if square_covers(*stamp, x as int, y as int, sy + 1, position) {
                    let (wx, wy) = choose|wx: int, wy: int|
                        wy < sy + 1 && #[trigger] square_hits(
                            *stamp,
                            x as int,
                            y as int,
                            wx,
                            wy,
                            position,
                        );
                    if wy < sy {
                        assert(square_covers(*stamp, x as int, y as int, sy as int, position));
                    } else {
                        assert(position == start + wx);
                        assert(in_run);
                    }
                }
                if square_covers(*stamp, x as int, y as int, sy as int, position) {
                    let (wx, wy) = choose|wx: int, wy: int|
                        wy < sy && #[trigger] square_hits(
                            *stamp,
                            x as int,
                            y as int,
                            wx,
                            wy,
                            position,
                        );
                    assert(wy < sy + 1);
                }
            }
        }
        sy += 1;
    }
    proof {
        assert forall|position: int| 0 <= position < old(canvas)@.len() implies #[trigger]
            canvas@[position] == (if square_covers(
            *stamp,
            x as int,
            y as int,
            stamp.size as int,
            position,
        ) {
            INK
        } else {
            old(canvas)@[position]
        }) by {
            if square_covers(*stamp, x as int, y as int, stamp.size as int, position) {
                let (wx, wy) = choose|wx: int, wy: int|
                    wy < stamp.size && #[trigger] square_hits(
                        *stamp,
                        x as int,
                        y as int,
                        wx,
                        wy,
                        position,
                    );
                assert(wy < sy);
            }
            if square_covers(*stamp, x as int, y as int, sy as int, position) {
                let (wx, wy) = choose|wx: int, wy: int|
                    wy < sy && #[trigger] square_hits(
                        *stamp,
                        x as int,
                        y as int,
                        wx,
                        wy,
                        position,
                    );
                assert(wy < stamp.size);
            }
        }
    }
}

/// Why an icon was not drawn.
#[derive(Debug, Clone, Copy, PartialEq, Eq, Structural)]
pub enum RenderError {
    /// The bytes of the icon are no image.
    NotAnImage,
    /// The image has no alpha channel to tell which of its pixels to draw.
    NoAlpha,
    /// The image does not hold all the pixels that its measures ask for.
    Incomplete,
}

impl RenderError {
    /// Human-readable description of the error.
    pub fn message(&self) -> (text: &'static str)
        ensures
            text@ == (match *self {
                RenderError::NotAnImage => "Icon is not a WebP image"@,
                RenderError::NoAlpha => "Icon has no alpha channel"@,
                RenderError::Incomplete => "Icon does not hold all its pixels"@,
            }),
    {
        match self {
            RenderError::NotAnImage => "Icon is not a WebP image",
            RenderError::NoAlpha => "Icon has no alpha channel",
            RenderError::Incomplete => "Icon does not hold all its pixels",
        }
    }
}

/// The model of a decoded image that has an alpha channel, from its width,
/// height and pixels.
pub open spec fn model_of(parts: (u32, u32, bool, Seq<u8>)) -> ImageModel {
    ImageModel { width: parts.0, height: parts.1, data: parts.3 }
}

/// What drawing a decoded image gives: the canvas with the image drawn on it, or
/// the reason why the image cannot be drawn.
pub open spec fn drawing_of(canvas: Seq<u32>, parts: (u32, u32, bool, Seq<u8>), stamp: Stamp)
    -> Result<Seq<u32>, RenderError> {
    if !parts.2 {
        Err(RenderError::NoAlpha)
    } else if !image_complete(model_of(parts)) {
        Err(RenderError::Incomplete)
    } else {
        Ok(stamped(canvas, model_of(parts), stamp))
    }
}

proof fn lemma_cover_one_more(image: ImageModel, stamp: Stamp, x: int, y: int, position: int)
    requires
        0 <= x < image.width,
        0 <= y < image.height,
    ensures
        covered_before(image, stamp, x + 1, y, position) <==> covered_before(
            image,
            stamp,
            x,
            y,
            position,
        ) || (is_drawn(image, x, y) && square_covers(stamp, x, y, stamp.size as int, position)),
{
    if covered_before(image, stamp, x + 1, y, position) {
        let (wx, wy) = choose|wx: int, wy: int|
            (wy < y || (wy == y && wx < x + 1)) && is_drawn(image, wx, wy)
                && #[trigger] square_covers(stamp, wx, wy, stamp.size as int, position);
        if !(wy == y && wx == x) {
            assert(wy < y || (wy == y && wx < x));
            assert(covered_before(image, stamp, x, y, position));
        }
    }
    if covered_before(image, stamp, x, y, position) {
        let (wx, wy) = choose|wx: int, wy: int|
            (wy < y || (wy == y && wx < x)) && is_drawn(image, wx, wy)
                && #[trigger] square_covers(stamp, wx, wy, stamp.size as int, position);
        assert(wy < y || (wy == y && wx < x + 1));
    }
    if is_drawn(image, x, y) && square_covers(stamp, x, y, stamp.size as int, position) {
        assert(y < y || (y == y && x < x + 1));
    }
}

proof fn lemma_cover_next_row(image: ImageModel, stamp: Stamp, y: int, position: int)
    ensures
        covered_before(image, stamp, image.width as int, y, position) <==> covered_before(
            image,
            stamp,
            0,
            y + 1,
            position,
        ),
{
    if covered_before(image, stamp, image.width as int, y, position) {
        let (wx, wy) = choose|wx: int, wy: int|
            (wy < y || (wy == y && wx < image.width)) && is_drawn(image, wx, wy)
                && #[trigger] square_covers(stamp, wx, wy, stamp.size as int, position);
        assert(wy < y + 1 || (wy == y + 1 && wx < 0));
    }
    if covered_before(image, stamp, 0, y + 1, position) {
        let (wx, wy) = choose|wx: int, wy: int|
            (wy < y + 1 || (wy == y + 1 && wx < 0)) && is_drawn(image, wx, wy)
                && #[trigger] square_covers(stamp, wx, wy, stamp.size as int, position);
        assert(wy < y || (wy == y && wx < image.width));
    }
}

proof fn lemma_alpha_in_reach(image: ImageModel, x: int, y: int)
    requires
        image_complete(image),
        0 <= x < image.width,
        0 <= y < image.height,
    ensures
        0 <= (y * image.width + x) * PIXEL_BYTES + 3 < image.data.len(),
{
    assert(0 <= y * image.width + x < image.width * image.height) by (nonlinear_arith)
        requires
            0 <= x < image.width,
            0 <= y < image.height,
    ;
}

/// Draws an image on the canvas: every pixel with an alpha value of at most 128
/// as a square of ink. An image without an alpha channel, or one that does not
/// hold all its pixels, is not drawn and leaves the canvas as it is.
pub fn draw_image(canvas: &mut Canvas, image: &DecodedImage, stamp: &Stamp) -> (drawn: Result<
    (),
    RenderError,
>)
    ensures
        match drawing_of(old(canvas)@, image.parts(), *stamp) {
            Ok(pixels) => drawn is Ok && final(canvas)@ == pixels,
            Err(error) => drawn == Err::<(), RenderError>(error) && final(canvas)@ == old(
                canvas,
            )@,
        },
        final(canvas).spec_width() == old(canvas).spec_width(),
        final(canvas).spec_height() == old(canvas).spec_height(),
{
    if !image.has_alpha {
        return Err(RenderError::NoAlpha);
    }
    proof {
        assert(image.width * image.height * PIXEL_BYTES <= 0xFFFF_FFFF * 0xFFFF_FFFF * 4)
            by (nonlinear_arith)
            requires
                0 <= image.width <= 0xFFFF_FFFF,
                0 <= image.height <= 0xFFFF_FFFF,
                PIXEL_BYTES == 4,
        ;
    }
    let needed: u128 = image.width as u128 * image.height as u128 * PIXEL_BYTES as u128;
    if image.data.len() as u128 != needed {
        return Err(RenderError::Incomplete);
    }
    let ghost model = model_of(image.parts());
    let mut y: u32 = 0;
    while y < image.height
        invariant
            y <= image.height,
            model == model_of(image.parts()),
            image_complete(model),
            canvas@.len() == old(canvas)@.len(),
            forall|position: int|
                0 <= position < old(canvas)@.len() ==> #[trigger] canvas@[position] == (
                if covered_before(model, *stamp, 0, y as int, position) {
                    INK
                } else {
                    old(canvas)@[position]
                }),
            canvas.spec_width() == old(canvas).spec_width(),
            canvas.spec_height() == old(canvas).spec_height(),
        decreases image.height - y,
    {
        let mut x: u32 = 0;
        while x < image.width
            invariant
                x <= image.width,
                y < image.height,
                model == model_of(image.parts()),
                image_complete(model),
                canvas@.len() == old(canvas)@.len(),
                forall|position: int|
                    0 <= position < old(canvas)@.len() ==> #[trigger] canvas@[position] == (
                    if covered_before(model, *stamp, x as int, y as int, position) {
                        INK
                    } else {
                        old(canvas)@[position]
                    }),
                canvas.spec_width() == old(canvas).spec_width(),
                canvas.spec_height() == old(canvas).spec_height(),
            decreases image.width - x,
        {
            proof {
                lemma_alpha_in_reach(model, x as int, y as int);
                assert(y * image.width <= 0xFFFF_FFFF * 0xFFFF_FFFF) by (nonlinear_arith)
                    requires
                        0 <= y <= 0xFFFF_FFFF,
                        0 <= image.width <= 0xFFFF_FFFF,
                ;
            }
            let index: u128 = (y as u128 * image.width as u128 + x as u128) * PIXEL_BYTES as u128
                + 3;
            proof {
                assert(index == (y * model.width + x) * PIXEL_BYTES + 3);
                assert(index < image.data.len());
            }
            let alpha = image.data[index as usize];
            let ghost before = canvas@;
            proof {
                assert(index == (y * model.width + x) * PIXEL_BYTES + 3);
                assert(alpha == alpha_at(model, x as int, y as int));
                assert(is_drawn(model, x as int, y as int) == (alpha <= ALPHA_LIMIT));
            }
            if alpha <= ALPHA_LIMIT {
                ink_square(canvas, stamp, x, y);
            }
            proof {
                assert forall|position: int| 0 <= position < old(canvas)@.len() implies #[trigger]
                    canvas@[position] == (if covered_before(
                    model,
                    *stamp,
                    x + 1,
                    y as int,
                    position,
                ) {
                    INK
                } else {
                    old(canvas)@[position]
                }) by {
                    lemma_cover_one_more(model, *stamp, x as int, y as int, position);
                    if alpha <= ALPHA_LIMIT {
                        assert(canvas@[position] == (if square_covers(
                            *stamp,
                            x as int,
                            y as int,
                            stamp.size as int,
                            position,
                        ) {
                            INK
                        } else {
                            before[position]
                        }));
                    } else {
                        assert(canvas@[position] == before[position]);
                    }
                    assert(before[position] == (if covered_before(
                        model,
                        *stamp,
                        x as int,
                        y as int,
                        position,
                    ) {
                        INK
                    } else {
                        old(canvas)@[position]
                    }));
                }
            }
            x += 1;
        }
        proof {
            assert forall|position: int| 0 <= position < old(canvas)@.len() implies #[trigger]
                canvas@[position] == (if covered_before(model, *stamp, 0, y + 1, position) {
                INK
            } else {
                old(canvas)@[position]
            }) by {
                lemma_cover_next_row(model, *stamp, y as int, position);
            }
        }
        y += 1;
    }
    proof {
        assert(canvas@ =~= stamped(old(canvas)@, model, *stamp));
    }
    Ok(())
}

} // verus!
