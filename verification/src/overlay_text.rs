//! Text placement and pixel compositing for the dictation overlay.
//!
//! What is drawn where is decided here; turning glyphs into pixels is not.

use vstd::prelude::*;

use crate::pill_renderer::{
    MAIN_TOP, PILL_HEIGHT, Rgba, TOP_BAR_ACCESSORY_WIDTH, TOP_BAR_CONTENT_GAP, TOP_BAR_COUNT_WIDTH,
    TOP_BAR_HEIGHT, TOP_BAR_TEXT_INSET, TOP_BAR_WIDTH, TOP_BAR_X, TOP_BAR_Y, TopBarAlignment,
    TopBarContent, WIDTH, cell, cell_is_inside, cells_are_distinct, channel,
};
use crate::text::{
    chars_of, pieces, pieces_join_again, split_pieces, string_of, text_views,
};

verus! {

/// Font sizes in tenths of a logical pixel.
pub const MAIN_FONT: u32 = 140;

pub const TOP_BAR_FONT: u32 = 132;

/// The line break marker is one and a half times as large as the text.
pub const LINE_BREAK_FONT: u32 = 198;

pub const LINE_BREAK_MARKER: char = '\u{21b5}';

/// How strongly the status bar shows its text.
pub const TOP_BAR_OPACITY: u8 = 204;

#[derive(Clone, Copy, Debug, PartialEq, Eq, Structural)]
pub enum TextAlign {
    Left,
    Center,
    Right,
}

/// A rectangle in pixels.
#[derive(Clone, Copy, Debug, PartialEq, Eq, Structural)]
pub struct PixelRect {
    pub left: i32,
    pub top: i32,
    pub width: i32,
    pub height: i32,
}

/// How many pixels a number of tenths of a logical pixel takes.
#[derive(Clone, Copy, Debug, PartialEq, Eq, Structural)]
pub struct Scale {
    pub pixels: u32,
    pub tenths: u32,
}

/// `length` tenths in pixels, rounded to the nearest, halves up.
pub open spec fn scaled(length: int, scale: Scale) -> int {
    (2 * length * scale.pixels + scale.tenths) / (2 * scale.tenths as int)
}

/// Lengths and scales for which the result fits into 32 bits: ten thousand
/// logical pixels, at no more than a thousand pixels for a tenth.
pub open spec fn in_reach(length: int, scale: Scale) -> bool {
    0 <= length <= 100_000 && 0 < scale.tenths && scale.pixels <= 1000 * scale.tenths
}

/// Scale a logical length.
pub fn scale_length(length: i64, scale: Scale) -> (r: i32)
    requires
        in_reach(length as int, scale),
    ensures
        r == scaled(length as int, scale),
{
    assert(0 <= 2 * length * scale.pixels <= 2 * 100_000 * 0xffff_ffff) by (nonlinear_arith)
        requires
            0 <= length <= 100_000,
            0 <= scale.pixels <= 0xffff_ffff,
    ;
    let numerator: i64 = 2 * length * scale.pixels as i64 + scale.tenths as i64;
    let denominator: i64 = 2 * scale.tenths as i64;
    assert(0 <= numerator as int / denominator as int <= 100_000_001) by (nonlinear_arith)
        requires
            numerator == 2 * length * scale.pixels + scale.tenths,
            denominator == 2 * scale.tenths,
            0 <= length <= 100_000,
            0 < scale.tenths,
            0 <= scale.pixels <= 1000 * scale.tenths,
    ;
    (numerator / denominator) as i32
}

impl PixelRect {
    /// The rectangle that a logical one covers.
    pub open spec fn covering(x: int, y: int, width: int, height: int, scale: Scale) -> PixelRect {
        PixelRect {
            left: scaled(x, scale) as i32,
            top: scaled(y, scale) as i32,
            width: scaled(width, scale) as i32,
            height: scaled(height, scale) as i32,
        }
    }

    pub fn from_logical(x: i64, y: i64, width: i64, height: i64, scale: Scale) -> (r: Self)
        requires
            in_reach(x as int, scale),
            in_reach(y as int, scale),
            in_reach(width as int, scale),
            in_reach(height as int, scale),
        ensures
            r == PixelRect::covering(x as int, y as int, width as int, height as int, scale),
    {
        PixelRect {
            left: scale_length(x, scale),
            top: scale_length(y, scale),
            width: scale_length(width, scale),
            height: scale_length(height, scale),
        }
    }

    pub fn right(self) -> (r: i64)
        ensures
            r == self.left + self.width,
    {
        self.left as i64 + self.width as i64
    }

    /// Whether the pixel is inside.
    pub open spec fn holds(self, x: int, y: int) -> bool {
        self.left <= x < self.left + self.width && self.top <= y < self.top + self.height
    }

    pub fn contains(self, x: i64, y: i64) -> (r: bool)
        ensures
            r == self.holds(x as int, y as int),
    {
        x >= self.left as i64 && x < self.right() && y >= self.top as i64 && y < self.top as i64
            + self.height as i64
    }
}

/// A block of equally colored pixels of a glyph.
#[derive(Clone, Copy, Debug, PartialEq, Eq, Structural)]
pub struct RasterPixel {
    pub x: i32,
    pub y: i32,
    pub width: u32,
    pub height: u32,
    pub color: Rgba,
}

/// The area that some blocks cover.
#[derive(Clone, Copy, Debug, PartialEq, Eq, Structural)]
pub struct RasterBounds {
    pub left: i64,
    pub top: i64,
    pub right: i64,
    pub bottom: i64,
}

impl RasterBounds {
    /// The smallest area that covers the first `n` blocks.
    pub open spec fn over(pixels: Seq<RasterPixel>, n: int) -> RasterBounds
        decreases n,
    {
        let p = pixels[n - 1];
        let here = RasterBounds {
            left: p.x as i64,
            top: p.y as i64,
            right: (p.x + p.width) as i64,
            bottom: (p.y + p.height) as i64,
        };
        if n <= 1 {
            here
        } else {
            let rest = RasterBounds::over(pixels, n - 1);
            RasterBounds {
                left: if rest.left < here.left {
                    rest.left
                } else {
                    here.left
                },
                top: if rest.top < here.top {
                    rest.top
                } else {
                    here.top
                },
                right: if rest.right > here.right {
                    rest.right
                } else {
                    here.right
                },
                bottom: if rest.bottom > here.bottom {
                    rest.bottom
                } else {
                    here.bottom
                },
            }
        }
    }

    /// The area that all blocks cover; nothing covers nothing.
    pub fn for_pixels(pixels: &[RasterPixel]) -> (r: Option<Self>)
        ensures
            match r {
                Some(bounds) => pixels@.len() > 0 && bounds == RasterBounds::over(
                    pixels@,
                    pixels@.len() as int,
                ) && bounds.modest(),
                None => pixels@.len() == 0,
            },
    {
        if pixels.len() == 0 {
            return None;
        }
        let first: RasterPixel = pixels[0];
        let mut bounds = RasterBounds {
            left: first.x as i64,
            top: first.y as i64,
            right: first.x as i64 + first.width as i64,
            bottom: first.y as i64 + first.height as i64,
        };
        let mut i: usize = 1;
        while i < pixels.len()
            invariant
                1 <= i <= pixels@.len(),
                bounds == RasterBounds::over(pixels@, i as int),
                bounds.modest(),
            decreases pixels@.len() - i,
        {
            let p: RasterPixel = pixels[i];
            if (p.x as i64) < bounds.left {
                bounds.left = p.x as i64;
            }
            if (p.y as i64) < bounds.top {
                bounds.top = p.y as i64;
            }
            if p.x as i64 + p.width as i64 > bounds.right {
                bounds.right = p.x as i64 + p.width as i64;
            }
            if p.y as i64 + p.height as i64 > bounds.bottom {
                bounds.bottom = p.y as i64 + p.height as i64;
            }
            i += 1;
        }
        Some(bounds)
    }

    /// Far from the ends of the number range.
    pub open spec fn modest(self) -> bool {
        &&& i32::MIN <= self.left <= i32::MAX
        &&& i32::MIN <= self.top <= i32::MAX
        &&& i32::MIN <= self.right <= 0x2_0000_0000
        &&& i32::MIN <= self.bottom <= 0x2_0000_0000
    }

    pub fn width(&self) -> (r: i64)
        requires
            self.modest(),
        ensures
            r == self.right - self.left,
    {
        self.right - self.left
    }

    pub fn height(&self) -> (r: i64)
        requires
            self.modest(),
        ensures
            r == self.bottom - self.top,
    {
        self.bottom - self.top
    }
}

/// The bounds cover every block and touch one on each side.
pub proof fn bounds_are_tight(pixels: Seq<RasterPixel>, n: int)
    requires
        1 <= n <= pixels.len(),
    ensures
        ({
            let b = RasterBounds::over(pixels, n);
            &&& forall|i: int|
                0 <= i < n ==> b.left <= (#[trigger] pixels[i]).x && b.top <= pixels[i].y
                    && pixels[i].x + pixels[i].width <= b.right && pixels[i].y + pixels[i].height
                    <= b.bottom
            &&& exists|i: int| 0 <= i < n && (#[trigger] pixels[i]).x == b.left
            &&& exists|i: int| 0 <= i < n && (#[trigger] pixels[i]).y == b.top
            &&& exists|i: int| 0 <= i < n && (#[trigger] pixels[i]).x + pixels[i].width == b.right
            &&& exists|i: int| 0 <= i < n && (#[trigger] pixels[i]).y + pixels[i].height == b.bottom
        }),
    decreases n,
{
    let p = pixels[n - 1];
    if n > 1 {
        bounds_are_tight(pixels, n - 1);
    }
}

/// Half of `n`, rounded toward zero.
pub open spec fn half(n: int) -> int {
    if n >= 0 {
        n / 2
    } else {
        -((-n) / 2)
    }
}

fn halved(n: i64) -> (r: i64)
    requires
        n > i64::MIN,
    ensures
        r == half(n as int),
{
    if n >= 0 {
        n / 2
    } else {
        -((-n) / 2)
    }
}

/// Where the blocks start horizontally, so that their bounds are aligned in
/// the clip.
pub open spec fn origin_x(clip: PixelRect, bounds: RasterBounds, align: TextAlign) -> int {
    let width = bounds.right - bounds.left;
    match align {
        TextAlign::Left => clip.left - bounds.left,
        TextAlign::Center => clip.left + half(clip.width - width) - bounds.left,
        TextAlign::Right => clip.left + clip.width - width - bounds.left,
    }
}

/// Where the blocks start vertically, so that their bounds are centered.
pub open spec fn origin_y(clip: PixelRect, bounds: RasterBounds) -> int {
    clip.top + half(clip.height - (bounds.bottom - bounds.top)) - bounds.top
}

fn start_x(clip: PixelRect, bounds: &RasterBounds, align: TextAlign) -> (r: i64)
    requires
        bounds.modest(),
    ensures
        r == origin_x(clip, *bounds, align),
{
    match align {
        TextAlign::Left => clip.left as i64 - bounds.left,
        TextAlign::Center => clip.left as i64 + halved(clip.width as i64 - bounds.width())
            - bounds.left,
        TextAlign::Right => clip.right() - bounds.width() - bounds.left,
    }
}

fn start_y(clip: PixelRect, bounds: &RasterBounds) -> (r: i64)
    requires
        bounds.modest(),
    ensures
        r == origin_y(clip, *bounds),
{
    clip.top as i64 + halved(clip.height as i64 - bounds.height()) - bounds.top
}

/// The share of `alpha` that an opacity leaves.
pub open spec fn faded(alpha: u8, opacity: u8) -> u8 {
    (alpha as int * opacity as int / 255) as u8
}

/// One color channel of a source laid over a premultiplied one.
pub open spec fn over_channel(source: u8, alpha: u8, under: u8) -> u8 {
    capped(source as int * alpha as int / 255 + under as int * (255 - alpha) / 255)
}

/// The alpha channel of a source laid over another.
pub open spec fn over_alpha(alpha: u8, under: u8) -> u8 {
    capped(alpha + under as int * (255 - alpha) / 255)
}

pub open spec fn capped(n: int) -> u8 {
    (if n > 255 {
        255
    } else {
        n
    }) as u8
}

/// A canvas of premultiplied RGBA pixels after one pixel has been laid over
/// it. Pixels outside the canvas change nothing.
pub open spec fn composited(
    canvas: Seq<u8>,
    width: int,
    height: int,
    x: int,
    y: int,
    color: Rgba,
    opacity: u8,
) -> Seq<u8> {
    if !(0 <= x < width && 0 <= y < height) {
        canvas
    } else {
        let i = cell(width, x, y) * 4;
        let a = faded(color.a, opacity);
        canvas.update(i, over_channel(color.r, a, canvas[i])).update(
            i + 1,
            over_channel(color.g, a, canvas[i + 1]),
        ).update(i + 2, over_channel(color.b, a, canvas[i + 2])).update(
            i + 3,
            over_alpha(a, canvas[i + 3]),
        )
    }
}

fn blend(source: u8, alpha: u8, under: u8) -> (r: u8)
    ensures
        r == over_channel(source, alpha, under),
{
    assert(0 <= source * alpha <= 65025) by (nonlinear_arith)
        requires
            0 <= source <= 255,
            0 <= alpha <= 255,
    ;
    assert(0 <= under * (255 - alpha) <= 65025) by (nonlinear_arith)
        requires
            0 <= under <= 255,
            0 <= alpha <= 255,
    ;
    let sum: u32 = source as u32 * alpha as u32 / 255 + under as u32 * (255 - alpha as u32) / 255;
    if sum > 255 {
        255
    } else {
        sum as u8
    }
}

fn blend_alpha(alpha: u8, under: u8) -> (r: u8)
    ensures
        r == over_alpha(alpha, under),
{
    assert(0 <= under * (255 - alpha) <= 65025) by (nonlinear_arith)
        requires
            0 <= under <= 255,
            0 <= alpha <= 255,
    ;
    let sum: u32 = alpha as u32 + under as u32 * (255 - alpha as u32) / 255;
    if sum > 255 {
        255
    } else {
        sum as u8
    }
}

fn fade(alpha: u8, opacity: u8) -> (r: u8)
    ensures
        r == faded(alpha, opacity),
{
    assert(0 <= alpha * opacity <= 65025) by (nonlinear_arith)
        requires
            0 <= alpha <= 255,
            0 <= opacity <= 255,
    ;
    (alpha as u32 * opacity as u32 / 255) as u8
}

/// Lay one pixel over a canvas of premultiplied RGBA pixels.
pub fn composite_pixel(
    rgba: &mut Vec<u8>,
    width: u32,
    height: u32,
    x: i64,
    y: i64,
    color: Rgba,
    opacity: u8,
)
    requires
        width as int * height as int * 4 <= old(rgba)@.len(),
    ensures
        final(rgba)@.len() == old(rgba)@.len(),
        final(rgba)@ == composited(
            old(rgba)@,
            width as int,
            height as int,
            x as int,
            y as int,
            color,
            opacity,
        ),
{
    if x < 0 || y < 0 || x >= width as i64 || y >= height as i64 {
        return;
    }
    let len: usize = rgba.len();
    proof {
        cell_is_inside(width as int, height as int, x as int, y as int);
        assert(0 <= y * width) by (nonlinear_arith)
            requires
                0 <= y,
                0 <= width,
        ;
    }
    let index: usize = (y as usize * width as usize + x as usize) * 4;
    assert(index == cell(width as int, x as int, y as int) * 4);
    let alpha: u8 = fade(color.a, opacity);
    let r: u8 = blend(color.r, alpha, rgba[index]);
    let g: u8 = blend(color.g, alpha, rgba[index + 1]);
    let b: u8 = blend(color.b, alpha, rgba[index + 2]);
    let a: u8 = blend_alpha(alpha, rgba[index + 3]);
    rgba.set(index, r);
    rgba.set(index + 1, g);
    rgba.set(index + 2, b);
    rgba.set(index + 3, a);
}

/// Where and how blocks are laid over a canvas.
pub struct Blit {
    pub width: int,
    pub height: int,
    pub clip: PixelRect,
    pub x: int,
    pub y: int,
    pub opacity: u8,
}

impl Blit {
    /// After the pixel at an offset into block `p`, if the clip holds it.
    pub open spec fn dot(self, canvas: Seq<u8>, p: RasterPixel, dx: int, dy: int) -> Seq<u8> {
        let x = self.x + p.x + dx;
        let y = self.y + p.y + dy;
        if self.clip.holds(x, y) {
            composited(canvas, self.width, self.height, x, y, p.color, self.opacity)
        } else {
            canvas
        }
    }

    /// After the first `n` pixels of row `dy` of block `p`.
    pub open spec fn row(self, canvas: Seq<u8>, p: RasterPixel, dy: int, n: int) -> Seq<u8>
        decreases n,
    {
        if n <= 0 {
            canvas
        } else {
            self.dot(self.row(canvas, p, dy, n - 1), p, n - 1, dy)
        }
    }

    /// After the first `n` rows of block `p`.
    pub open spec fn block(self, canvas: Seq<u8>, p: RasterPixel, n: int) -> Seq<u8>
        decreases n,
    {
        if n <= 0 {
            canvas
        } else {
            self.row(self.block(canvas, p, n - 1), p, n - 1, p.width as int)
        }
    }

    /// After the first `n` blocks.
    pub open spec fn blocks(self, canvas: Seq<u8>, raster: Seq<RasterPixel>, n: int) -> Seq<u8>
        decreases n,
    {
        if n <= 0 {
            canvas
        } else {
            let p = raster[n - 1];
            self.block(self.blocks(canvas, raster, n - 1), p, p.height as int)
        }
    }
}

/// Blocks of a size that glyphs have.
pub open spec fn glyph_sized(raster: Seq<RasterPixel>) -> bool {
    forall|i: int|
        0 <= i < raster.len() ==> (#[trigger] raster[i]).width <= i32::MAX && raster[i].height
            <= i32::MAX
}

/// Lay blocks over a canvas at an origin, in order, inside the clip.
pub fn blit_at(
    rgba: &mut Vec<u8>,
    width: u32,
    height: u32,
    raster: &[RasterPixel],
    clip: PixelRect,
    origin_x: i64,
    origin_y: i64,
    opacity: u8,
)
    requires
        width as int * height as int * 4 <= old(rgba)@.len(),
        glyph_sized(raster@),
        -0x100_0000_0000 <= origin_x <= 0x100_0000_0000,
        -0x100_0000_0000 <= origin_y <= 0x100_0000_0000,
    ensures
        final(rgba)@.len() == old(rgba)@.len(),
        final(rgba)@ == (Blit {
            width: width as int,
            height: height as int,
            clip,
            x: origin_x as int,
            y: origin_y as int,
            opacity,
        }).blocks(old(rgba)@, raster@, raster@.len() as int),
{
    let ghost start = rgba@;
    let ghost b = Blit {
        width: width as int,
        height: height as int,
        clip,
        x: origin_x as int,
        y: origin_y as int,
        opacity,
    };
    let mut i: usize = 0;
    while i < raster.len()
        invariant
            i <= raster@.len(),
            width as int * height as int * 4 <= start.len(),
            glyph_sized(raster@),
            -0x100_0000_0000 <= origin_x <= 0x100_0000_0000,
            -0x100_0000_0000 <= origin_y <= 0x100_0000_0000,
            b == (Blit {
                width: width as int,
                height: height as int,
                clip,
                x: origin_x as int,
                y: origin_y as int,
                opacity,
            }),
            rgba@.len() == start.len(),
            rgba@ == b.blocks(start, raster@, i as int),
        decreases raster@.len() - i,
    {
        let p: RasterPixel = raster[i];
        let ghost base = rgba@;
        let mut dy: u32 = 0;
        while dy < p.height
            invariant
                dy <= p.height <= i32::MAX,
                p.width <= i32::MAX,
                width as int * height as int * 4 <= start.len(),
                -0x100_0000_0000 <= origin_x <= 0x100_0000_0000,
                -0x100_0000_0000 <= origin_y <= 0x100_0000_0000,
                b == (Blit {
                    width: width as int,
                    height: height as int,
                    clip,
                    x: origin_x as int,
                    y: origin_y as int,
                    opacity,
                }),
                rgba@.len() == start.len(),
                rgba@ == b.block(base, p, dy as int),
            decreases p.height - dy,
        {
            let ghost row_base = rgba@;
            let mut dx: u32 = 0;
            while dx < p.width
                invariant
                    dx <= p.width <= i32::MAX,
                    dy < p.height <= i32::MAX,
                    width as int * height as int * 4 <= start.len(),
                    -0x100_0000_0000 <= origin_x <= 0x100_0000_0000,
                    -0x100_0000_0000 <= origin_y <= 0x100_0000_0000,
                    b == (Blit {
                        width: width as int,
                        height: height as int,
                        clip,
                        x: origin_x as int,
                        y: origin_y as int,
                        opacity,
                    }),
                    rgba@.len() == start.len(),
                    rgba@ == b.row(row_base, p, dy as int, dx as int),
                decreases p.width - dx,
            {
                let x: i64 = origin_x + p.x as i64 + dx as i64;
                let y: i64 = origin_y + p.y as i64 + dy as i64;
                if clip.contains(x, y) {
                    composite_pixel(rgba, width, height, x, y, p.color, opacity);
                }
                dx += 1;
            }
            dy += 1;
        }
        i += 1;
    }
}

/// Blocks as they are laid over a canvas, aligned in the clip, with a given
/// vertical origin or centered.
pub open spec fn blitted(
    canvas: Seq<u8>,
    width: int,
    height: int,
    raster: Seq<RasterPixel>,
    clip: PixelRect,
    align: TextAlign,
    opacity: u8,
    vertical: Option<int>,
) -> Seq<u8> {
    if raster.len() == 0 {
        canvas
    } else {
        let bounds = RasterBounds::over(raster, raster.len() as int);
        (Blit {
            width,
            height,
            clip,
            x: origin_x(clip, bounds, align),
            y: match vertical {
                Some(y) => y,
                None => origin_y(clip, bounds),
            },
            opacity,
        }).blocks(canvas, raster, raster.len() as int)
    }
}

/// Lay blocks over a canvas, aligned horizontally and centered vertically by
/// what they cover.
pub fn blit(
    rgba: &mut Vec<u8>,
    width: u32,
    height: u32,
    raster: &[RasterPixel],
    clip: PixelRect,
    alignment: TextAlign,
    opacity: u8,
)
    requires
        width as int * height as int * 4 <= old(rgba)@.len(),
        glyph_sized(raster@),
    ensures
        final(rgba)@.len() == old(rgba)@.len(),
        final(rgba)@ == blitted(
            old(rgba)@,
            width as int,
            height as int,
            raster@,
            clip,
            alignment,
            opacity,
            None,
        ),
{
    if let Some(bounds) = RasterBounds::for_pixels(raster) {
        let x: i64 = start_x(clip, &bounds, alignment);
        let y: i64 = start_y(clip, &bounds);
        blit_at(rgba, width, height, raster, clip, x, y, opacity);
    }
}

/// Lay blocks over a canvas with the vertical origin pinned to the line box,
/// which unlike the covered area does not vary with the text: `line_offset`
/// from the top of the clip to the line box, and `baseline_dy` from there.
pub fn blit_pinned(
    rgba: &mut Vec<u8>,
    width: u32,
    height: u32,
    raster: &[RasterPixel],
    clip: PixelRect,
    alignment: TextAlign,
    opacity: u8,
    line_offset: i32,
    baseline_dy: i32,
)
    requires
        width as int * height as int * 4 <= old(rgba)@.len(),
        glyph_sized(raster@),
    ensures
        final(rgba)@.len() == old(rgba)@.len(),
        final(rgba)@ == blitted(
            old(rgba)@,
            width as int,
            height as int,
            raster@,
            clip,
            alignment,
            opacity,
            Some(clip.top + line_offset + baseline_dy),
        ),
{
    if let Some(bounds) = RasterBounds::for_pixels(raster) {
        let x: i64 = start_x(clip, &bounds, alignment);
        let y: i64 = clip.top as i64 + line_offset as i64 + baseline_dy as i64;
        blit_at(rgba, width, height, raster, clip, x, y, opacity);
    }
}

/// Two canvases agree on the pixel in column `u` of row `v`.
pub open spec fn same_pixel(a: Seq<u8>, b: Seq<u8>, width: int, u: int, v: int) -> bool {
    forall|c: int| 0 <= c < 4 ==> #[trigger] channel(a, cell(width, u, v), c) == channel(
        b,
        cell(width, u, v),
        c,
    )
}

proof fn composited_elsewhere(
    canvas: Seq<u8>,
    width: int,
    height: int,
    x: int,
    y: int,
    color: Rgba,
    opacity: u8,
    u: int,
    v: int,
)
    requires
        width * height * 4 <= canvas.len(),
        0 <= u < width,
        0 <= v < height,
        x != u || y != v,
    ensures
        composited(canvas, width, height, x, y, color, opacity).len() == canvas.len(),
        same_pixel(
            composited(canvas, width, height, x, y, color, opacity),
            canvas,
            width,
            u,
            v,
        ),
{
    cell_is_inside(width, height, u, v);
    if 0 <= x < width && 0 <= y < height {
        cell_is_inside(width, height, x, y);
        if cell(width, x, y) == cell(width, u, v) {
            cells_are_distinct(width, x, y, u, v);
        }
    }
}

impl Blit {
    proof fn row_stays_in_clip(
        self,
        canvas: Seq<u8>,
        p: RasterPixel,
        dy: int,
        n: int,
        u: int,
        v: int,
    )
        requires
            self.width * self.height * 4 <= canvas.len(),
            0 <= u < self.width,
            0 <= v < self.height,
            !self.clip.holds(u, v),
        ensures
            self.row(canvas, p, dy, n).len() == canvas.len(),
            same_pixel(self.row(canvas, p, dy, n), canvas, self.width, u, v),
        decreases n,
    {
        if n > 0 {
            self.row_stays_in_clip(canvas, p, dy, n - 1, u, v);
            let before = self.row(canvas, p, dy, n - 1);
            let x = self.x + p.x + n - 1;
            let y = self.y + p.y + dy;
            if self.clip.holds(x, y) {
                composited_elsewhere(
                    before,
                    self.width,
                    self.height,
                    x,
                    y,
                    p.color,
                    self.opacity,
                    u,
                    v,
                );
                same_pixel_through(
                    self.row(canvas, p, dy, n),
                    before,
                    canvas,
                    self.width,
                    u,
                    v,
                );
            }
        }
    }

    proof fn block_stays_in_clip(self, canvas: Seq<u8>, p: RasterPixel, n: int, u: int, v: int)
        requires
            self.width * self.height * 4 <= canvas.len(),
            0 <= u < self.width,
            0 <= v < self.height,
            !self.clip.holds(u, v),
        ensures
            self.block(canvas, p, n).len() == canvas.len(),
            same_pixel(self.block(canvas, p, n), canvas, self.width, u, v),
        decreases n,
    {
        if n > 0 {
            self.block_stays_in_clip(canvas, p, n - 1, u, v);
            let before = self.block(canvas, p, n - 1);
            self.row_stays_in_clip(before, p, n - 1, p.width as int, u, v);
            same_pixel_through(self.block(canvas, p, n), before, canvas, self.width, u, v);
        }
    }

    /// Nothing outside the clip changes.
    pub proof fn blocks_stay_in_clip(
        self,
        canvas: Seq<u8>,
        raster: Seq<RasterPixel>,
        n: int,
        u: int,
        v: int,
    )
        requires
            self.width * self.height * 4 <= canvas.len(),
            0 <= u < self.width,
            0 <= v < self.height,
            !self.clip.holds(u, v),
        ensures
            self.blocks(canvas, raster, n).len() == canvas.len(),
            same_pixel(self.blocks(canvas, raster, n), canvas, self.width, u, v),
        decreases n,
    {
        if n > 0 {
            self.blocks_stay_in_clip(canvas, raster, n - 1, u, v);
            let before = self.blocks(canvas, raster, n - 1);
            let p = raster[n - 1];
            self.block_stays_in_clip(before, p, p.height as int, u, v);
            same_pixel_through(self.blocks(canvas, raster, n), before, canvas, self.width, u, v);
        }
    }
}

proof fn same_pixel_through(a: Seq<u8>, b: Seq<u8>, c: Seq<u8>, width: int, u: int, v: int)
    requires
        same_pixel(a, b, width, u, v),
        same_pixel(b, c, width, u, v),
    ensures
        same_pixel(a, c, width, u, v),
{
    assert forall|k: int| 0 <= k < 4 implies #[trigger] channel(a, cell(width, u, v), k) == channel(
        c,
        cell(width, u, v),
        k,
    ) by {
        assert(channel(b, cell(width, u, v), k) == channel(c, cell(width, u, v), k));
    }
}

/// Compositing keeps premultiplied pixels premultiplied: no color channel
/// outgrows the alpha channel.
pub proof fn compositing_stays_premultiplied(source: u8, alpha: u8, under: u8, under_alpha: u8)
    requires
        under <= under_alpha,
    ensures
        over_channel(source, alpha, under) <= over_alpha(alpha, under_alpha),
{
    let s = source as int;
    let a = alpha as int;
    let u = under as int;
    let w = under_alpha as int;
    assert(s * a / 255 <= a) by (nonlinear_arith)
        requires
            0 <= s <= 255,
            0 <= a,
    ;
    assert(u * (255 - a) / 255 <= w * (255 - a) / 255) by (nonlinear_arith)
        requires
            0 <= u <= w,
            0 <= a <= 255,
    ;
    assert(0 <= s * a / 255) by (nonlinear_arith)
        requires
            0 <= s,
            0 <= a,
    ;
    assert(0 <= u * (255 - a) / 255) by (nonlinear_arith)
        requires
            0 <= u,
            0 <= a <= 255,
    ;
}

pub open spec fn white() -> Rgba {
    Rgba { r: 255, g: 255, b: 255, a: 255 }
}

/// The color of the line break marker.
pub open spec fn cyan() -> Rgba {
    Rgba { r: 0, g: 224, b: 255, a: 255 }
}

/// One run of text to draw.
#[derive(Debug, PartialEq)]
pub struct TextRun {
    pub text: String,
    /// Font size in tenths of a logical pixel.
    pub font: u32,
    pub clip: PixelRect,
    pub align: TextAlign,
    pub color: Rgba,
    pub opacity: u8,
    /// A typing preview, whose line break markers are spans of their own.
    pub preview: bool,
}

/// What a `TextRun` holds.
pub struct RunView {
    pub text: Seq<char>,
    pub font: u32,
    pub clip: PixelRect,
    pub align: TextAlign,
    pub color: Rgba,
    pub opacity: u8,
    pub preview: bool,
}

impl View for TextRun {
    type V = RunView;

    open spec fn view(&self) -> RunView {
        RunView {
            text: self.text@,
            font: self.font,
            clip: self.clip,
            align: self.align,
            color: self.color,
            opacity: self.opacity,
            preview: self.preview,
        }
    }
}

pub open spec fn run_views(runs: Seq<TextRun>) -> Seq<RunView> {
    runs.map_values(|r: TextRun| r@)
}

/// A run that has text and room, or nothing.
pub open spec fn shown(run: RunView) -> Seq<RunView> {
    if run.text.len() == 0 || run.clip.width <= 0 || run.clip.height <= 0 {
        Seq::empty()
    } else {
        seq![run]
    }
}

/// The text in the pill itself.
pub open spec fn main_run(text: Seq<char>, scale: Scale) -> RunView {
    RunView {
        text,
        font: MAIN_FONT,
        clip: PixelRect::covering(
            0,
            MAIN_TOP as int,
            WIDTH as int,
            PILL_HEIGHT as int,
            scale,
        ),
        align: TextAlign::Center,
        color: white(),
        opacity: 255,
        preview: false,
    }
}

/// The clip of the count at the left of the status bar.
pub open spec fn count_clip(scale: Scale) -> PixelRect {
    PixelRect::covering(
        TOP_BAR_X + TOP_BAR_TEXT_INSET,
        TOP_BAR_Y as int,
        TOP_BAR_COUNT_WIDTH as int,
        TOP_BAR_HEIGHT as int,
        scale,
    )
}

/// The clip of the status: the whole bar when centered, and the part right of
/// the count when trailing.
pub open spec fn content_clip(alignment: TopBarAlignment, scale: Scale) -> PixelRect {
    let left = TOP_BAR_X + TOP_BAR_TEXT_INSET;
    let right = TOP_BAR_X + TOP_BAR_WIDTH - TOP_BAR_TEXT_INSET;
    let trailing = left + TOP_BAR_COUNT_WIDTH + TOP_BAR_CONTENT_GAP;
    match alignment {
        TopBarAlignment::Center => PixelRect::covering(
            left,
            TOP_BAR_Y as int,
            right - left,
            TOP_BAR_HEIGHT as int,
            scale,
        ),
        TopBarAlignment::Trailing => PixelRect::covering(
            trailing,
            TOP_BAR_Y as int,
            right - trailing,
            TOP_BAR_HEIGHT as int,
            scale,
        ),
    }
}

/// The runs of the status bar: the count, the status or typing preview, and
/// the accessory at the right edge.
pub open spec fn bar_runs(
    count: Seq<char>,
    content: Seq<char>,
    alignment: TopBarAlignment,
    accessory: Option<Seq<char>>,
    scale: Scale,
) -> Seq<RunView> {
    let count_run = RunView {
        text: count,
        font: TOP_BAR_FONT,
        clip: count_clip(scale),
        align: TextAlign::Left,
        color: white(),
        opacity: TOP_BAR_OPACITY,
        preview: false,
    };
    let content_run = RunView {
        text: content,
        font: TOP_BAR_FONT,
        clip: content_clip(alignment, scale),
        align: match alignment {
            TopBarAlignment::Center => TextAlign::Center,
            TopBarAlignment::Trailing => TextAlign::Right,
        },
        color: white(),
        opacity: TOP_BAR_OPACITY,
        preview: alignment == TopBarAlignment::Trailing,
    };
    let accessory_runs = match accessory {
        Some(text) => shown(
            RunView {
                text,
                font: LINE_BREAK_FONT,
                clip: PixelRect::covering(
                    TOP_BAR_X + TOP_BAR_WIDTH - TOP_BAR_TEXT_INSET - TOP_BAR_ACCESSORY_WIDTH,
                    TOP_BAR_Y as int,
                    TOP_BAR_ACCESSORY_WIDTH as int,
                    TOP_BAR_HEIGHT as int,
                    scale,
                ),
                align: TextAlign::Center,
                color: cyan(),
                opacity: TOP_BAR_OPACITY,
                preview: false,
            },
        ),
        None => Seq::empty(),
    };
    shown(count_run) + shown(content_run) + accessory_runs
}

/// Everything written on a frame, in drawing order.
pub open spec fn frame_runs(
    main_text: Option<Seq<char>>,
    top_bar: Option<TopBarContent>,
    scale: Scale,
) -> Seq<RunView> {
    (match main_text {
        Some(text) => shown(main_run(text, scale)),
        None => Seq::empty(),
    }) + (match top_bar {
        Some(bar) => bar_runs(
            bar.count@,
            bar.content@,
            bar.alignment,
            match bar.accessory {
                Some(text) => Some(text@),
                None => None,
            },
            scale,
        ),
        None => Seq::empty(),
    })
}

fn add_run(runs: &mut Vec<TextRun>, run: TextRun)
    ensures
        run_views(final(runs)@) == run_views(old(runs)@) + shown(run@),
{
    if chars_of(&run.text).len() == 0 || run.clip.width <= 0 || run.clip.height <= 0 {
        assert(run_views(runs@) + shown(run@) =~= run_views(runs@));
        return;
    }
    let ghost before = runs@;
    runs.push(run);
    assert(run_views(runs@) =~= run_views(before) + seq![run@]);
}

/// Decide what is written on a frame, where and how.
pub fn draw(main_text: Option<&String>, top_bar: Option<&TopBarContent>, scale: Scale) -> (r: Vec<
    TextRun,
>)
    requires
        in_reach(WIDTH as int, scale),
    ensures
        run_views(r@) == frame_runs(
            match main_text {
                Some(text) => Some(text@),
                None => None,
            },
            match top_bar {
                Some(bar) => Some(*bar),
                None => None,
            },
            scale,
        ),
{
    let mut runs: Vec<TextRun> = Vec::new();
    assert(run_views(runs@) =~= Seq::empty());
    if let Some(text) = main_text {
        add_run(
            &mut runs,
            TextRun {
                text: text.clone(),
                font: MAIN_FONT,
                clip: PixelRect::from_logical(0, MAIN_TOP, WIDTH, PILL_HEIGHT, scale),
                align: TextAlign::Center,
                color: Rgba { r: 255, g: 255, b: 255, a: 255 },
                opacity: 255,
                preview: false,
            },
        );
    }
    let ghost main_runs = run_views(runs@);
    if let Some(bar) = top_bar {
        let left: i64 = TOP_BAR_X + TOP_BAR_TEXT_INSET;
        let right: i64 = TOP_BAR_X + TOP_BAR_WIDTH - TOP_BAR_TEXT_INSET;
        let trailing: i64 = left + TOP_BAR_COUNT_WIDTH + TOP_BAR_CONTENT_GAP;
        add_run(
            &mut runs,
            TextRun {
                text: bar.count.clone(),
                font: TOP_BAR_FONT,
                clip: PixelRect::from_logical(
                    left,
                    TOP_BAR_Y,
                    TOP_BAR_COUNT_WIDTH,
                    TOP_BAR_HEIGHT,
                    scale,
                ),
                align: TextAlign::Left,
                color: Rgba { r: 255, g: 255, b: 255, a: 255 },
                opacity: TOP_BAR_OPACITY,
                preview: false,
            },
        );
        let (clip, align, preview): (PixelRect, TextAlign, bool) = match bar.alignment {
            TopBarAlignment::Center => (
                PixelRect::from_logical(left, TOP_BAR_Y, right - left, TOP_BAR_HEIGHT, scale),
                TextAlign::Center,
                false,
            ),
            TopBarAlignment::Trailing => (
                PixelRect::from_logical(
                    trailing,
                    TOP_BAR_Y,
                    right - trailing,
                    TOP_BAR_HEIGHT,
                    scale,
                ),
                TextAlign::Right,
                true,
            ),
        };
        add_run(
            &mut runs,
            TextRun {
                text: bar.content.clone(),
                font: TOP_BAR_FONT,
                clip,
                align,
                color: Rgba { r: 255, g: 255, b: 255, a: 255 },
                opacity: TOP_BAR_OPACITY,
                preview,
            },
        );
        if let Some(accessory) = &bar.accessory {
            add_run(
                &mut runs,
                TextRun {
                    text: accessory.clone(),
                    font: LINE_BREAK_FONT,
                    clip: PixelRect::from_logical(
                        right - TOP_BAR_ACCESSORY_WIDTH,
                        TOP_BAR_Y,
                        TOP_BAR_ACCESSORY_WIDTH,
                        TOP_BAR_HEIGHT,
                        scale,
                    ),
                    align: TextAlign::Center,
                    color: Rgba { r: 0, g: 224, b: 255, a: 255 },
                    opacity: TOP_BAR_OPACITY,
                    preview: false,
                },
            );
        }
        assert(run_views(runs@) =~= main_runs + bar_runs(
            bar.count@,
            bar.content@,
            bar.alignment,
            match bar.accessory {
                Some(text) => Some(text@),
                None => None,
            },
            scale,
        ));
    } else {
        assert(main_runs + Seq::<RunView>::empty() =~= main_runs);
    }
    runs
}

/// The single word on a compact pill of the given size, in its middle.
pub open spec fn mini_run(text: Seq<char>, width: int, height: int, scale: Scale) -> RunView {
    RunView {
        text,
        font: MAIN_FONT,
        clip: PixelRect::covering(0, 0, width, height, scale),
        align: TextAlign::Center,
        color: white(),
        opacity: 255,
        preview: false,
    }
}

/// Decide what is written on a compact pill whose logical size is `width` by
/// `height` tenths. The word has the whole pill, and nothing stands beside it.
pub fn draw_mini_text(text: Option<&String>, width: i64, height: i64, scale: Scale) -> (r: Vec<
    TextRun,
>)
    requires
        in_reach(width as int, scale),
        in_reach(height as int, scale),
    ensures
        run_views(r@) == match text {
            Some(text) => shown(mini_run(text@, width as int, height as int, scale)),
            None => Seq::empty(),
        },
{
    let mut runs: Vec<TextRun> = Vec::new();
    assert(run_views(runs@) =~= Seq::empty());
    if let Some(text) = text {
        add_run(
            &mut runs,
            TextRun {
                text: text.clone(),
                font: MAIN_FONT,
                clip: PixelRect::from_logical(0, 0, width, height, scale),
                align: TextAlign::Center,
                color: Rgba { r: 255, g: 255, b: 255, a: 255 },
                opacity: 255,
                preview: false,
            },
        );
        assert(run_views(runs@) =~= shown(mini_run(text@, width as int, height as int, scale)));
    }
    runs
}

/// A trailing preview starts right of the count, so that the two never
/// overlap, at every scale of at least one pixel for a logical pixel.
pub proof fn preview_stays_right_of_the_count(scale: Scale)
    requires
        in_reach(WIDTH as int, scale),
        10 * scale.pixels >= scale.tenths,
    ensures
        count_clip(scale).left + count_clip(scale).width <= content_clip(
            TopBarAlignment::Trailing,
            scale,
        ).left,
{
    let p = scale.pixels as int;
    let t = scale.tenths as int;
    let a = scaled(640, scale);
    let b = scaled(960, scale);
    let c = scaled(1620, scale);
    assert(a * (2 * t) <= 1280 * p + t && b * (2 * t) <= 1920 * p + t && c * (2 * t) > 3240 * p + t
        - 2 * t && 0 <= a <= 100_000_001 && 0 <= b <= 100_000_001 && 0 <= c <= 100_000_001) by (
        nonlinear_arith)
        requires
            t > 0,
            0 <= p <= 1000 * t,
            a == (2 * 640 * p + t) / (2 * t),
            b == (2 * 960 * p + t) / (2 * t),
            c == (2 * 1620 * p + t) / (2 * t),
    ;
    assert(a + b <= c) by (nonlinear_arith)
        requires
            t > 0,
            10 * p >= t,
            a * (2 * t) <= 1280 * p + t,
            b * (2 * t) <= 1920 * p + t,
            c * (2 * t) > 3240 * p + t - 2 * t,
    ;
}

/// A piece of a typing preview: text, or a line break marker.
#[derive(Debug, PartialEq)]
pub struct Span {
    pub text: String,
    pub marker: bool,
}

/// What a `Span` holds.
pub struct SpanView {
    pub text: Seq<char>,
    pub marker: bool,
}

impl View for Span {
    type V = SpanView;

    open spec fn view(&self) -> SpanView {
        SpanView { text: self.text@, marker: self.marker }
    }
}

pub open spec fn span_views(spans: Seq<Span>) -> Seq<SpanView> {
    spans.map_values(|s: Span| s@)
}

/// A marker with a space on either side.
pub open spec fn padded_marker() -> Seq<SpanView> {
    seq![
        SpanView { text: seq![' '], marker: false },
        SpanView { text: seq![LINE_BREAK_MARKER], marker: true },
        SpanView { text: seq![' '], marker: false },
    ]
}

/// The parts of a preview with a padded marker between any two of them;
/// empty parts leave no span.
pub open spec fn spans_of(parts: Seq<Seq<char>>) -> Seq<SpanView>
    decreases parts.len(),
{
    if parts.len() == 0 {
        Seq::empty()
    } else {
        let before = spans_of(parts.drop_last());
        let joined = if parts.len() > 1 {
            before + padded_marker()
        } else {
            before
        };
        if parts.last().len() == 0 {
            joined
        } else {
            joined.push(SpanView { text: parts.last(), marker: false })
        }
    }
}

fn push_span(spans: &mut Vec<Span>, text: &[char], marker: bool)
    ensures
        span_views(final(spans)@) == span_views(old(spans)@).push(SpanView { text: text@, marker }),
{
    let ghost before = spans@;
    let span = Span { text: string_of(text), marker };
    spans.push(span);
    assert(span_views(spans@) =~= span_views(before).push(span@));
}

/// Split a preview into spans; each line break marker becomes a padded span
/// of its own.
pub fn line_break_spans(preview: &str) -> (r: Vec<Span>)
    ensures
        span_views(r@) == spans_of(pieces(preview@, LINE_BREAK_MARKER)),
{
    let parts: Vec<Vec<char>> = split_pieces(&chars_of(preview), LINE_BREAK_MARKER);
    let ghost views = pieces(preview@, LINE_BREAK_MARKER);
    let space: Vec<char> = vec![' '];
    let marker: Vec<char> = vec![LINE_BREAK_MARKER];
    assert(space@ =~= seq![' ']);
    assert(marker@ =~= seq![LINE_BREAK_MARKER]);
    let mut spans: Vec<Span> = Vec::new();
    let mut i: usize = 0;
    assert(span_views(spans@) =~= spans_of(views.take(0)));
    while i < parts.len()
        invariant
            i <= parts@.len(),
            views == text_views(parts@),
            space@ == seq![' '],
            marker@ == seq![LINE_BREAK_MARKER],
            span_views(spans@) == spans_of(views.take(i as int)),
        decreases parts@.len() - i,
    {
        let ghost next = views.take(i + 1);
        let ghost before = span_views(spans@);
        assert(next.drop_last() =~= views.take(i as int));
        assert(next.last() == parts@[i as int]@);
        if i > 0 {
            push_span(&mut spans, &space, false);
            push_span(&mut spans, &marker, true);
            push_span(&mut spans, &space, false);
            assert(span_views(spans@) =~= before + padded_marker());
        }
        if parts[i].len() > 0 {
            push_span(&mut spans, &parts[i], false);
        }
        i += 1;
    }
    assert(views.take(i as int) =~= views);
    spans
}

/// The text of spans, end to end.
pub open spec fn span_text(spans: Seq<SpanView>) -> Seq<char>
    decreases spans.len(),
{
    if spans.len() == 0 {
        Seq::empty()
    } else {
        span_text(spans.drop_last()) + spans.last().text
    }
}

/// A preview with a space on either side of each line break marker.
pub open spec fn padded(preview: Seq<char>) -> Seq<char>
    decreases preview.len(),
{
    if preview.len() == 0 {
        Seq::empty()
    } else {
        padded(preview.drop_last()) + (if preview.last() == LINE_BREAK_MARKER {
            seq![' ', LINE_BREAK_MARKER, ' ']
        } else {
            seq![preview.last()]
        })
    }
}

proof fn span_text_push(spans: Seq<SpanView>, span: SpanView)
    ensures
        span_text(spans.push(span)) == span_text(spans) + span.text,
{
    assert(spans.push(span).drop_last() =~= spans);
}

proof fn span_text_marker(spans: Seq<SpanView>)
    ensures
        span_text(spans + padded_marker()) == span_text(spans) + seq![' ', LINE_BREAK_MARKER, ' '],
{
    let m = padded_marker();
    span_text_push(spans, m[0]);
    span_text_push(spans.push(m[0]), m[1]);
    span_text_push(spans.push(m[0]).push(m[1]), m[2]);
    assert(spans + m =~= spans.push(m[0]).push(m[1]).push(m[2]));
    assert(span_text(spans + m) =~= span_text(spans) + seq![' ', LINE_BREAK_MARKER, ' ']);
}

/// The text of `spans_of` before its last part, which ends with that part.
spec fn text_before_last(parts: Seq<Seq<char>>) -> Seq<char> {
    let before = spans_of(parts.drop_last());
    span_text(
        if parts.len() > 1 {
            before + padded_marker()
        } else {
            before
        },
    )
}

proof fn spans_end_with_the_last_part(parts: Seq<Seq<char>>)
    requires
        parts.len() > 0,
    ensures
        span_text(spans_of(parts)) == text_before_last(parts) + parts.last(),
{
    let before = spans_of(parts.drop_last());
    let joined = if parts.len() > 1 {
        before + padded_marker()
    } else {
        before
    };
    if parts.last().len() == 0 {
        assert(span_text(joined) + parts.last() =~= span_text(joined));
    } else {
        span_text_push(joined, SpanView { text: parts.last(), marker: false });
    }
}

/// The spans show the preview in full, with nothing but the padding added.
pub proof fn spans_show_the_padded_preview(preview: Seq<char>)
    ensures
        pieces(preview, LINE_BREAK_MARKER).len() > 0,
        span_text(spans_of(pieces(preview, LINE_BREAK_MARKER))) == padded(preview),
    decreases preview.len(),
{
    let parts = pieces(preview, LINE_BREAK_MARKER);
    if preview.len() == 0 {
        spans_end_with_the_last_part(parts);
        assert(parts.drop_last() =~= Seq::empty());
        assert(span_text(spans_of(parts)) =~= padded(preview));
    } else {
        let rest = preview.drop_last();
        let before = pieces(rest, LINE_BREAK_MARKER);
        spans_show_the_padded_preview(rest);
        spans_end_with_the_last_part(before);
        spans_end_with_the_last_part(parts);
        if preview.last() == LINE_BREAK_MARKER {
            assert(parts.drop_last() =~= before);
            span_text_marker(spans_of(before));
            assert(span_text(spans_of(parts)) =~= padded(preview));
        } else {
            assert(parts.drop_last() =~= before.drop_last());
            assert(parts.last() =~= before.last().push(preview.last()));
            assert(span_text(spans_of(parts)) =~= padded(preview));
        }
    }
}

/// A length goes to the nearest whole pixel, halves up, and a longer one never
/// to fewer pixels.
pub proof fn lengths_are_nearest(length: int, other: int, scale: Scale)
    requires
        scale.tenths > 0,
        0 <= length <= other,
    ensures
        ({
            let pixels = scaled(length, scale);
            let error = 2 * pixels * scale.tenths - 2 * length * scale.pixels;
            &&& -(scale.tenths as int) < error <= scale.tenths
            &&& pixels <= scaled(other, scale)
            &&& 0 <= pixels
        }),
{
    let t = scale.tenths as int;
    let p = scale.pixels as int;
    let a = scaled(length, scale);
    let b = scaled(other, scale);
    assert(2 * length * p <= 2 * other * p && 0 <= 2 * length * p) by (nonlinear_arith)
        requires
            0 <= length <= other,
            0 <= p,
    ;
    assert(a * (2 * t) <= 2 * length * p + t < (a + 1) * (2 * t) && 0 <= a) by (nonlinear_arith)
        requires
            t > 0,
            0 <= 2 * length * p,
            a == (2 * length * p + t) / (2 * t),
    ;
    assert(a <= b) by (nonlinear_arith)
        requires
            t > 0,
            a == (2 * length * p + t) / (2 * t),
            b == (2 * other * p + t) / (2 * t),
            2 * length * p <= 2 * other * p,
    ;
    assert(2 * a * t == a * (2 * t) && (a + 1) * (2 * t) == 2 * a * t + 2 * t) by (nonlinear_arith);
}

/// Text stands where its alignment puts it: at the left edge, at the right
/// edge, or with the same room on either side, to the pixel, and it always has
/// the same room above and below.
pub proof fn text_stands_where_aligned(clip: PixelRect, bounds: RasterBounds)
    ensures
        ({
            let left = origin_x(clip, bounds, TextAlign::Left);
            let center = origin_x(clip, bounds, TextAlign::Center);
            let right = origin_x(clip, bounds, TextAlign::Right);
            let middle = origin_y(clip, bounds);
            let room_left = center + bounds.left - clip.left;
            let room_right = clip.left + clip.width - (center + bounds.right);
            let room_above = middle + bounds.top - clip.top;
            let room_below = clip.top + clip.height - (middle + bounds.bottom);
            &&& left + bounds.left == clip.left
            &&& right + bounds.right == clip.left + clip.width
            &&& -1 <= room_left - room_right <= 1
            &&& -1 <= room_above - room_below <= 1
        }),
{
}

/// A rectangle holds the pixels from its corner on, as many as it is wide and
/// tall.
pub proof fn rectangles_hold_their_pixels(rect: PixelRect, dx: int, dy: int)
    ensures
        rect.holds(rect.left + dx, rect.top + dy) <==> 0 <= dx < rect.width && 0 <= dy
            < rect.height,
{
}

/// A color without alpha leaves what is under it, a full one takes its place,
/// and full opacity leaves alpha as it is. Nothing laid over a pixel makes it
/// more transparent.
pub proof fn opaque_colors_cover(source: u8, alpha: u8, under: u8)
    ensures
        over_channel(source, 0, under) == under,
        over_channel(source, 255, under) == source,
        over_alpha(0, under) == under,
        over_alpha(255, under) == 255,
        over_alpha(alpha, under) >= alpha,
        over_alpha(alpha, under) >= under || alpha > 0,
        faded(alpha, 255) == alpha,
        faded(alpha, 0) == 0,
        faded(alpha, under) <= alpha,
{
    let s = source as int;
    let a = alpha as int;
    let u = under as int;
    assert(s * 0 == 0 && u * (255 - 0) / 255 == u && s * 255 / 255 == s && u * (255 - 255) == 0)
        by (nonlinear_arith);
    assert(a * 255 / 255 == a && a * 0 / 255 == 0) by (nonlinear_arith);
    assert(0 <= u * (255 - a) / 255 && 0 <= a * u / 255 <= a) by (nonlinear_arith)
        requires
            0 <= a <= 255,
            0 <= u <= 255,
    ;
}

/// A pixel that is laid over a canvas changes that pixel alone, each channel
/// by its own color, and an opaque one at full opacity takes its place.
pub proof fn pixels_are_laid_over(
    canvas: Seq<u8>,
    width: int,
    height: int,
    x: int,
    y: int,
    color: Rgba,
    opacity: u8,
)
    requires
        0 <= width,
        width * height * 4 <= canvas.len(),
    ensures
        ({
            let after = composited(canvas, width, height, x, y, color, opacity);
            let inside = 0 <= x < width && 0 <= y < height;
            let p = cell(width, x, y);
            &&& after.len() == canvas.len()
            &&& !inside ==> after == canvas
            &&& inside && color.a == 255 && opacity == 255 ==> {
                &&& channel(after, p, 0) == color.r
                &&& channel(after, p, 1) == color.g
                &&& channel(after, p, 2) == color.b
                &&& channel(after, p, 3) == 255
            }
            &&& inside && (color.a == 0 || opacity == 0) ==> after == canvas
            &&& forall|u: int, v: int|
                0 <= u < width && 0 <= v < height && (u != x || v != y) ==> #[trigger] same_pixel(
                    after,
                    canvas,
                    width,
                    u,
                    v,
                )
        }),
{
    let after = composited(canvas, width, height, x, y, color, opacity);
    assert forall|u: int, v: int|
        0 <= u < width && 0 <= v < height && (u != x || v != y) implies #[trigger] same_pixel(
        after,
        canvas,
        width,
        u,
        v,
    ) by {
        composited_elsewhere(canvas, width, height, x, y, color, opacity, u, v);
    }
    if 0 <= x < width && 0 <= y < height {
        cell_is_inside(width, height, x, y);
        let i = cell(width, x, y) * 4;
        opaque_colors_cover(color.a, color.a, opacity);
        opaque_colors_cover(color.r, 0, canvas[i]);
        opaque_colors_cover(color.g, 0, canvas[i + 1]);
        opaque_colors_cover(color.b, 0, canvas[i + 2]);
        opaque_colors_cover(color.a, 0, canvas[i + 3]);
        if color.a == 0 {
            assert(0 * opacity / 255 == 0) by (nonlinear_arith);
            assert(faded(color.a, opacity) == 0);
        }
        if color.a == 0 || opacity == 0 {
            assert(after =~= canvas);
        }
    }
}

impl Blit {
    /// Whether pixel (`u`, `v`) lies in block `p`.
    pub open spec fn covers(self, p: RasterPixel, u: int, v: int) -> bool {
        &&& self.x + p.x <= u < self.x + p.x + p.width
        &&& self.y + p.y <= v < self.y + p.y + p.height
    }

    /// An opaque block at full opacity shows in full: every pixel of it that
    /// the canvas and the clip hold gets its color, and no other pixel
    /// changes.
    pub proof fn opaque_blocks_show_in_full(self, canvas: Seq<u8>, p: RasterPixel, u: int, v: int)
        requires
            self.width * self.height * 4 <= canvas.len(),
            0 <= u < self.width,
            0 <= v < self.height,
            p.color.a == 255,
            self.opacity == 255,
        ensures
            ({
                let after = self.block(canvas, p, p.height as int);
                let at = cell(self.width, u, v);
                &&& after.len() == canvas.len()
                &&& self.covers(p, u, v) && self.clip.holds(u, v) ==> {
                    &&& channel(after, at, 0) == p.color.r
                    &&& channel(after, at, 1) == p.color.g
                    &&& channel(after, at, 2) == p.color.b
                    &&& channel(after, at, 3) == 255
                }
                &&& !self.covers(p, u, v) || !self.clip.holds(u, v) ==> same_pixel(
                    after,
                    canvas,
                    self.width,
                    u,
                    v,
                )
            }),
    {
        self.rows_show_in_full(canvas, p, p.height as int, u, v);
    }

    proof fn rows_show_in_full(self, canvas: Seq<u8>, p: RasterPixel, n: int, u: int, v: int)
        requires
            self.width * self.height * 4 <= canvas.len(),
            0 <= u < self.width,
            0 <= v < self.height,
            p.color.a == 255,
            self.opacity == 255,
        ensures
            ({
                let after = self.block(canvas, p, n);
                let dx = u - self.x - p.x;
                let dy = v - self.y - p.y;
                let painted = 0 <= dx < p.width && 0 <= dy < n && self.clip.holds(u, v);
                &&& after.len() == canvas.len()
                &&& painted ==> self.shows(after, p, u, v)
                &&& !painted ==> same_pixel(after, canvas, self.width, u, v)
            }),
        decreases n,
    {
        if n > 0 {
            self.rows_show_in_full(canvas, p, n - 1, u, v);
            let before = self.block(canvas, p, n - 1);
            let after = self.block(canvas, p, n);
            self.dots_show_in_full(before, p, n - 1, p.width as int, u, v);
            if v - self.y - p.y != n - 1 || !(0 <= u - self.x - p.x < p.width) || !self.clip.holds(
                u,
                v,
            ) {
                let dx = u - self.x - p.x;
                let dy = v - self.y - p.y;
                if 0 <= dx < p.width && 0 <= dy < n - 1 && self.clip.holds(u, v) {
                    self.shown_pixels_stay(after, before, p, u, v);
                } else {
                    same_pixel_through(after, before, canvas, self.width, u, v);
                }
            }
        }
    }

    /// The pixel has the color of block `p`.
    spec fn shows(self, canvas: Seq<u8>, p: RasterPixel, u: int, v: int) -> bool {
        let at = cell(self.width, u, v);
        &&& channel(canvas, at, 0) == p.color.r
        &&& channel(canvas, at, 1) == p.color.g
        &&& channel(canvas, at, 2) == p.color.b
        &&& channel(canvas, at, 3) == 255
    }

    proof fn shown_pixels_stay(
        self,
        after: Seq<u8>,
        before: Seq<u8>,
        p: RasterPixel,
        u: int,
        v: int,
    )
        requires
            self.shows(before, p, u, v),
            same_pixel(after, before, self.width, u, v),
        ensures
            self.shows(after, p, u, v),
    {
        let at = cell(self.width, u, v);
        assert(channel(after, at, 0) == channel(before, at, 0));
        assert(channel(after, at, 1) == channel(before, at, 1));
        assert(channel(after, at, 2) == channel(before, at, 2));
        assert(channel(after, at, 3) == channel(before, at, 3));
    }

    proof fn dots_show_in_full(
        self,
        canvas: Seq<u8>,
        p: RasterPixel,
        dy: int,
        n: int,
        u: int,
        v: int,
    )
        requires
            self.width * self.height * 4 <= canvas.len(),
            0 <= u < self.width,
            0 <= v < self.height,
            p.color.a == 255,
            self.opacity == 255,
        ensures
            ({
                let after = self.row(canvas, p, dy, n);
                let dx = u - self.x - p.x;
                let painted = 0 <= dx < n && v == self.y + p.y + dy && self.clip.holds(u, v);
                &&& after.len() == canvas.len()
                &&& painted ==> self.shows(after, p, u, v)
                &&& !painted ==> same_pixel(after, canvas, self.width, u, v)
            }),
        decreases n,
    {
        if n > 0 {
            self.dots_show_in_full(canvas, p, dy, n - 1, u, v);
            let before = self.row(canvas, p, dy, n - 1);
            let after = self.row(canvas, p, dy, n);
            let x = self.x + p.x + n - 1;
            let y = self.y + p.y + dy;
            let dx = u - self.x - p.x;
            if self.clip.holds(x, y) {
                pixels_are_laid_over(before, self.width, self.height, x, y, p.color, self.opacity);
                if x != u || y != v {
                    assert(same_pixel(after, before, self.width, u, v));
                    if 0 <= dx < n - 1 && v == y && self.clip.holds(u, v) {
                        self.shown_pixels_stay(after, before, p, u, v);
                    } else {
                        same_pixel_through(after, before, canvas, self.width, u, v);
                    }
                }
            }
        }
    }
}

/// The lengths that the status bar is made of keep some pixels at every scale
/// of at least one pixel for a logical pixel.
proof fn lengths_keep_pixels(length: int, scale: Scale)
    requires
        in_reach(WIDTH as int, scale),
        10 * scale.pixels >= scale.tenths,
        10 <= length <= 4280,
    ensures
        0 < scaled(length, scale) <= 100_000_001,
{
    let t = scale.tenths as int;
    let p = scale.pixels as int;
    let a = scaled(length, scale);
    assert(0 < a <= 100_000_001) by (nonlinear_arith)
        requires
            t > 0,
            10 * p >= t,
            p <= 1000 * t,
            10 <= length <= 4280,
            a == (2 * length * p + t) / (2 * t),
    ;
}

/// The status bar shows its count at the left, then its content, then its
/// accessory, each where it has text: the count and the content in white, the
/// accessory half as large again and in cyan. A centered content has the whole
/// bar and a trailing one is a preview at the right.
pub proof fn bars_write_what_they_hold(
    count: Seq<char>,
    content: Seq<char>,
    alignment: TopBarAlignment,
    accessory: Seq<char>,
    scale: Scale,
)
    requires
        in_reach(WIDTH as int, scale),
        10 * scale.pixels >= scale.tenths,
        count.len() > 0,
        content.len() > 0,
        accessory.len() > 0,
    ensures
        ({
            let plain = bar_runs(count, content, alignment, None, scale);
            let marked = bar_runs(count, content, alignment, Some(accessory), scale);
            let light = Rgba { r: 255, g: 255, b: 255, a: 255 };
            &&& plain.len() == 2
            &&& plain[0].text == count && plain[0].align is Left && !plain[0].preview
            &&& plain[1].text == content
            &&& plain[1].preview == (alignment is Trailing)
            &&& alignment is Trailing ==> plain[1].align is Right
            &&& alignment is Center ==> plain[1].align is Center
            &&& plain[0].color == light && plain[1].color == light
            &&& plain[0].font == 132 && plain[1].font == 132
            &&& plain[0].opacity == 204 && plain[1].opacity == 204
            &&& marked.len() == 3
            &&& marked[0] == plain[0] && marked[1] == plain[1]
            &&& marked[2].text == accessory
            &&& marked[2].color == (Rgba { r: 0, g: 224, b: 255, a: 255 })
            &&& 2 * marked[2].font == 3 * plain[1].font
            &&& marked[2].align is Center && !marked[2].preview
        }),
{
    lengths_keep_pixels(960, scale);
    lengths_keep_pixels(312, scale);
    lengths_keep_pixels(3000, scale);
    lengths_keep_pixels(2020, scale);
    lengths_keep_pixels(200, scale);
    let plain = bar_runs(count, content, alignment, None, scale);
    let marked = bar_runs(count, content, alignment, Some(accessory), scale);
    assert(plain.len() == 2);
    assert(marked.len() == 3);
}

/// A frame shows its main text in the middle of the pill and its bar behind
/// it, and neither where there is none.
pub proof fn frames_write_what_they_hold(text: Seq<char>, bar: TopBarContent, scale: Scale)
    requires
        in_reach(WIDTH as int, scale),
        10 * scale.pixels >= scale.tenths,
        text.len() > 0,
    ensures
        ({
            let alone = frame_runs(Some(text), None, scale);
            let both = frame_runs(Some(text), Some(bar), scale);
            let only_bar = frame_runs(None, Some(bar), scale);
            &&& frame_runs(None, None, scale).len() == 0
            &&& alone.len() == 1
            &&& alone[0].text == text && alone[0].align is Center && alone[0].font == 140
            &&& alone[0].opacity == 255 && !alone[0].preview
            &&& alone[0].color == (Rgba { r: 255, g: 255, b: 255, a: 255 })
            &&& alone[0].clip.left == 0 && alone[0].clip.width == scaled(4280, scale)
            &&& alone[0].clip.top == scaled(312, scale)
            &&& alone[0].clip.height == scaled(640, scale)
            &&& both == alone + only_bar
            &&& only_bar == bar_runs(
                bar.count@,
                bar.content@,
                bar.alignment,
                match bar.accessory {
                    Some(text) => Some(text@),
                    None => None,
                },
                scale,
            )
        }),
{
    lengths_keep_pixels(4280, scale);
    lengths_keep_pixels(640, scale);
    lengths_keep_pixels(312, scale);
    let alone = frame_runs(Some(text), None, scale);
    let only_bar = frame_runs(None, Some(bar), scale);
    zero_scales_to_zero(scale);
    assert(alone =~= seq![main_run(text, scale)]);
    assert(frame_runs(Some(text), Some(bar), scale) =~= alone + only_bar);
    assert(Seq::<RunView>::empty() + only_bar =~= only_bar);
}

proof fn zero_scales_to_zero(scale: Scale)
    requires
        scale.tenths > 0,
    ensures
        scaled(0, scale) == 0,
{
    let t = scale.tenths as int;
    let p = scale.pixels as int;
    assert((2 * 0 * p + t) / (2 * t) == 0) by (nonlinear_arith)
        requires
            t > 0,
    ;
}

/// The word of a compact pill has the whole pill, in the middle.
pub proof fn compact_pills_center_their_word(
    text: Seq<char>,
    width: int,
    height: int,
    scale: Scale,
)
    requires
        in_reach(width, scale),
        in_reach(height, scale),
    ensures
        ({
            let run = mini_run(text, width, height, scale);
            &&& run.text == text
            &&& run.align is Center
            &&& run.clip.left == 0 && run.clip.top == 0
            &&& run.clip.width == scaled(width, scale) as i32
            &&& run.clip.height == scaled(height, scale) as i32
            &&& run.font == 140 && run.opacity == 255 && !run.preview
        }),
        text.len() == 0 ==> shown(mini_run(text, width, height, scale)).len() == 0,
{
    zero_scales_to_zero(scale);
}

/// A centered status stands in the middle of the frame, and the parts of the
/// bar stay inside it: the count and a trailing preview share it with a gap of
/// two logical pixels.
pub proof fn bar_parts_share_the_bar(scale: Scale)
    requires
        in_reach(WIDTH as int, scale),
    ensures
        count_clip(scale) == PixelRect::covering(640, 0, 960, 312, scale),
        content_clip(TopBarAlignment::Center, scale) == PixelRect::covering(
            640,
            0,
            3000,
            312,
            scale,
        ),
        content_clip(TopBarAlignment::Trailing, scale) == PixelRect::covering(
            1620,
            0,
            2020,
            312,
            scale,
        ),
        640 + 3000 + 640 == WIDTH,
        1620 == 640 + 960 + 20,
        1620 + 2020 == 640 + 3000,
{
}

/// Exactly the line break markers of a preview are marked as such: a marked
/// span is one marker, and no other span holds one.
pub proof fn only_markers_are_marked(preview: Seq<char>, i: int)
    requires
        0 <= i < spans_of(pieces(preview, LINE_BREAK_MARKER)).len(),
    ensures
        ({
            let span = spans_of(pieces(preview, LINE_BREAK_MARKER))[i];
            &&& span.marker ==> span.text == seq!['\u{21b5}']
            &&& !span.marker ==> !span.text.contains('\u{21b5}')
            &&& span.text.len() > 0
        }),
{
    let parts = pieces(preview, LINE_BREAK_MARKER);
    assert forall|k: int| 0 <= k < parts.len() implies !(#[trigger] parts[k]).contains(
        LINE_BREAK_MARKER,
    ) by {
        pieces_join_again(preview, LINE_BREAK_MARKER, k);
    }
    spans_are_marked(parts, i);
}

proof fn spans_are_marked(parts: Seq<Seq<char>>, i: int)
    requires
        0 <= i < spans_of(parts).len(),
        forall|k: int| 0 <= k < parts.len() ==> !(#[trigger] parts[k]).contains(LINE_BREAK_MARKER),
    ensures
        ({
            let span = spans_of(parts)[i];
            &&& span.marker ==> span.text == seq![LINE_BREAK_MARKER]
            &&& !span.marker ==> !span.text.contains(LINE_BREAK_MARKER)
            &&& span.text.len() > 0
        }),
    decreases parts.len(),
{
    let rest = parts.drop_last();
    let before = spans_of(rest);
    assert forall|k: int| 0 <= k < rest.len() implies !(#[trigger] rest[k]).contains(
        LINE_BREAK_MARKER,
    ) by {
        assert(rest[k] == parts[k]);
    }
    if i < before.len() {
        spans_are_marked(rest, i);
        assert(spans_of(parts)[i] == before[i]);
    } else if parts.len() > 1 && i < before.len() + 3 {
        assert(spans_of(parts)[i] == padded_marker()[i - before.len()]);
        assert(!seq![' '].contains(LINE_BREAK_MARKER));
    } else {
        assert(spans_of(parts)[i].text == parts.last());
        assert(parts[parts.len() - 1] == parts.last());
    }
}

} // verus!
