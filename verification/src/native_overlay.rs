//! Presentation of pill frames in a layered window: sizes, pixel order and
//! visibility.

use vstd::prelude::*;

use crate::overlay_text::{Scale, in_reach, scale_length, scaled};
use crate::pill_renderer::{MAIN_TOP, PILL_HEIGHT, WIDTH};

verus! {

/// The size of a frame in pixels, and where the pill starts in it.
#[derive(Clone, Copy, Debug, PartialEq, Eq, Structural)]
pub struct FrameLayout {
    pub width: u32,
    pub main_top: u32,
    pub height: u32,
}

/// The larger of `n` and one.
pub open spec fn positive(n: int) -> int {
    if n < 1 {
        1
    } else {
        n
    }
}

/// Dots per inch that count: none reported means the standard ones.
pub open spec fn effective_dpi(dpi: u32) -> int {
    if dpi == 0 {
        96
    } else {
        dpi as int
    }
}

/// The frame of the dictation pill on a monitor: the width is scaled and
/// rounded first, and the heights follow the scale that the width then has.
pub open spec fn layout_at(dpi: u32) -> FrameLayout {
    let width = positive(
        scaled(WIDTH as int, Scale { pixels: effective_dpi(dpi) as u32, tenths: 960 }),
    );
    let scale = Scale { pixels: width as u32, tenths: WIDTH as u32 };
    let main_top = scaled(MAIN_TOP as int, scale);
    FrameLayout {
        width: width as u32,
        main_top: main_top as u32,
        height: (main_top + positive(scaled(PILL_HEIGHT as int, scale))) as u32,
    }
}

/// Lay out the frame of the dictation pill.
pub fn frame_layout(dpi: u32) -> (r: FrameLayout)
    requires
        dpi <= 96_000,
    ensures
        r == layout_at(dpi),
{
    let dots: u32 = if dpi == 0 {
        96
    } else {
        dpi
    };
    let by_dpi = Scale { pixels: dots, tenths: 960 };
    let w: i32 = scale_length(WIDTH, by_dpi);
    assert(0 <= scaled(WIDTH as int, by_dpi) <= 428_001) by (nonlinear_arith)
        requires
            by_dpi.tenths == 960,
            0 <= by_dpi.pixels <= 96_000,
            WIDTH == 4280,
            scaled(WIDTH as int, by_dpi) == (2 * WIDTH * by_dpi.pixels + by_dpi.tenths) / (2
                * by_dpi.tenths as int),
    ;
    let width: u32 = if w < 1 {
        1
    } else {
        w as u32
    };
    let scale = Scale { pixels: width, tenths: WIDTH as u32 };
    assert(in_reach(MAIN_TOP as int, scale));
    let top: i32 = scale_length(MAIN_TOP, scale);
    let tall: i32 = scale_length(PILL_HEIGHT, scale);
    assert(0 <= scaled(MAIN_TOP as int, scale) <= 64_000) by (nonlinear_arith)
        requires
            scale.tenths == 4280,
            1 <= scale.pixels <= 428_001,
            MAIN_TOP == 312,
            scaled(MAIN_TOP as int, scale) == (2 * MAIN_TOP * scale.pixels + scale.tenths) / (2
                * scale.tenths as int),
    ;
    assert(0 <= scaled(PILL_HEIGHT as int, scale) <= 128_000) by (nonlinear_arith)
        requires
            scale.tenths == 4280,
            1 <= scale.pixels <= 428_001,
            PILL_HEIGHT == 640,
            scaled(PILL_HEIGHT as int, scale) == (2 * PILL_HEIGHT * scale.pixels + scale.tenths)
                / (2 * scale.tenths as int),
    ;
    let main_top: u32 = top as u32;
    let main_height: u32 = if tall < 1 {
        1
    } else {
        tall as u32
    };
    FrameLayout { width, main_top, height: main_top + main_height }
}

impl FrameLayout {
    /// Where the window goes, so that the pill in it starts at a point.
    pub fn window_origin(&self, x: i32, y: i32) -> (r: (i32, i32))
        requires
            self.main_top <= i32::MAX,
            y - self.main_top >= i32::MIN,
        ensures
            r.0 == x,
            r.1 + self.main_top == y,
    {
        (x, y - self.main_top as i32)
    }
}

/// The size of a compact pill in pixels.
#[derive(Clone, Copy, Debug, PartialEq, Eq, Structural)]
pub struct MiniLayout {
    pub width: u32,
    pub height: u32,
}

/// A compact pill of a logical size in tenths, on a monitor: the width is
/// scaled and rounded first, and the height follows the scale that the width
/// then has.
pub open spec fn mini_layout_at(dpi: u32, width: int, height: int) -> MiniLayout {
    let pixels = positive(scaled(width, Scale { pixels: effective_dpi(dpi) as u32, tenths: 960 }));
    let scale = Scale { pixels: pixels as u32, tenths: width as u32 };
    MiniLayout { width: pixels as u32, height: positive(scaled(height, scale)) as u32 }
}

/// Lay out a compact pill.
pub fn mini_layout(dpi: u32, width: i64, height: i64) -> (r: MiniLayout)
    requires
        dpi <= 96_000,
        0 < width <= 100_000,
        0 <= height <= 100_000,
    ensures
        r == mini_layout_at(dpi, width as int, height as int),
        in_reach(width as int, Scale { pixels: r.width, tenths: width as u32 }),
        in_reach(height as int, Scale { pixels: r.width, tenths: width as u32 }),
        1 <= r.width <= i32::MAX,
        1 <= r.height <= i32::MAX,
{
    let dots: u32 = if dpi == 0 {
        96
    } else {
        dpi
    };
    let by_dpi = Scale { pixels: dots, tenths: 960 };
    let w: i32 = scale_length(width, by_dpi);
    assert(0 <= scaled(width as int, by_dpi) <= 100 * width + 1) by (nonlinear_arith)
        requires
            by_dpi.tenths == 960,
            0 <= by_dpi.pixels <= 96_000,
            0 < width <= 100_000,
            scaled(width as int, by_dpi) == (2 * width * by_dpi.pixels + by_dpi.tenths) / (2
                * by_dpi.tenths as int),
    ;
    let pixels: u32 = if w < 1 {
        1
    } else {
        w as u32
    };
    let scale = Scale { pixels, tenths: width as u32 };
    let h: i32 = scale_length(height, scale);
    MiniLayout {
        width: pixels,
        height: if h < 1 {
            1
        } else {
            h as u32
        },
    }
}

impl MiniLayout {
    /// Where the window goes, so that the pill in it ends at a point.
    pub fn window_origin(&self, x: i32, y: i32) -> (r: (i32, i32))
        requires
            self.height <= i32::MAX,
            y - self.height >= i32::MIN,
        ensures
            r.0 == x,
            r.1 + self.height == y,
    {
        (x, y - self.height as i32)
    }
}

/// Bytes of a frame with four bytes for each pixel, or `None` where 32 bits
/// do not hold the number.
pub fn byte_count(width: u32, height: u32) -> (r: Option<u32>)
    ensures
        match r {
            Some(n) => n == width * height * 4,
            None => width * height * 4 > u32::MAX,
        },
{
    assert(0 <= width * height <= 0xffff_ffff * 0xffff_ffff) by (nonlinear_arith)
        requires
            0 <= width <= 0xffff_ffff,
            0 <= height <= 0xffff_ffff,
    ;
    let pixels: u64 = width as u64 * height as u64;
    if pixels > 0x3fff_ffff {
        None
    } else {
        Some((pixels * 4) as u32)
    }
}

/// A frame whose size does not match its surface.
#[derive(Clone, Copy, Debug, PartialEq, Eq, Structural)]
pub struct FrameSizeError {
    pub bytes: usize,
    pub expected: usize,
}

/// Byte `i` of a picture with red and blue swapped in each pixel.
pub open spec fn swapped_index(i: int) -> int {
    if i % 4 == 0 {
        i + 2
    } else if i % 4 == 2 {
        i - 2
    } else {
        i
    }
}

/// A picture with red and blue swapped in each pixel.
pub open spec fn red_blue_swapped(pixels: Seq<u8>) -> Seq<u8> {
    Seq::new(pixels.len(), |i: int| pixels[swapped_index(i)])
}

/// Turn premultiplied RGBA into the BGRA order of a layered surface of the
/// given size.
pub fn copy_premultiplied_rgba(rgba: &[u8], width: u32, height: u32) -> (r: Result<
    Vec<u8>,
    FrameSizeError,
>)
    requires
        width * height * 4 <= u32::MAX,
    ensures
        match r {
            Ok(bgra) => rgba@.len() == width * height * 4 && bgra@ == red_blue_swapped(rgba@),
            Err(e) => {
                &&& rgba@.len() != width * height * 4
                &&& e.bytes == rgba@.len()
                &&& e.expected == width * height * 4
            },
        },
{
    let expected: usize = width as usize * height as usize * 4;
    if rgba.len() != expected {
        return Err(FrameSizeError { bytes: rgba.len(), expected });
    }
    let mut bgra: Vec<u8> = Vec::new();
    let mut i: usize = 0;
    while i < expected
        invariant
            i <= expected,
            i % 4 == 0,
            expected % 4 == 0,
            rgba@.len() == expected,
            bgra@ == red_blue_swapped(rgba@).take(i as int),
        decreases expected - i,
    {
        bgra.push(rgba[i + 2]);
        bgra.push(rgba[i + 1]);
        bgra.push(rgba[i]);
        bgra.push(rgba[i + 3]);
        i += 4;
        assert(bgra@ =~= red_blue_swapped(rgba@).take(i as int));
    }
    assert(red_blue_swapped(rgba@).take(i as int) =~= red_blue_swapped(rgba@));
    Ok(bgra)
}

/// Swapping red and blue twice changes nothing.
pub proof fn swapping_twice_changes_nothing(pixels: Seq<u8>)
    requires
        pixels.len() % 4 == 0,
    ensures
        red_blue_swapped(red_blue_swapped(pixels)) == pixels,
{
    let once = red_blue_swapped(pixels);
    assert forall|i: int| 0 <= i < pixels.len() implies #[trigger] red_blue_swapped(once)[i]
        == pixels[i] by {
        assert(0 <= swapped_index(i) < pixels.len());
        assert(swapped_index(swapped_index(i)) == i);
    }
    assert(red_blue_swapped(once) =~= pixels);
}

/// What is known of the layered window.
pub struct OverlayWindow {
    pub visible: bool,
    /// The size of the surface, once there is one.
    pub surface: Option<(u32, u32)>,
}

impl OverlayWindow {
    pub fn new() -> (r: Self)
        ensures
            !r.visible,
            r.surface is None,
    {
        OverlayWindow { visible: false, surface: None }
    }

    /// Stop showing the window; true when it has to be hidden now.
    pub fn conceal(&mut self) -> (r: bool)
        ensures
            r == old(self).visible,
            !final(self).visible,
            final(self).surface == old(self).surface,
    {
        let was: bool = self.visible;
        self.visible = false;
        was
    }

    /// Whether a frame of this size needs a new surface.
    pub fn needs_surface(&self, width: u32, height: u32) -> (r: bool)
        ensures
            r == (self.surface != Some((width, height))),
    {
        match self.surface {
            Some((w, h)) => w != width || h != height,
            None => true,
        }
    }

    pub fn surface_created(&mut self, width: u32, height: u32)
        ensures
            final(self).surface == Some((width, height)),
            final(self).visible == old(self).visible,
    {
        self.surface = Some((width, height));
    }

    /// A frame is on the surface; true when the window has to be shown now,
    /// also after something else hid it.
    pub fn presented(&mut self, actually_visible: bool) -> (r: bool)
        ensures
            r == (!old(self).visible || !actually_visible),
            final(self).visible,
            final(self).surface == old(self).surface,
    {
        let show: bool = !self.visible || !actually_visible;
        self.visible = true;
        show
    }
}

/// Messages the layered window answers itself: it lets the mouse through and
/// draws no background. `None` leaves a message to the system.
pub fn overlay_message(message: u32) -> (r: Option<isize>)
    ensures
        r == match message {
            0x0084u32 => Some(-1isize),
            0x0014u32 => Some(1isize),
            _ => None::<isize>,
        },
{
    if message == 0x0084 {
        Some(-1)
    } else if message == 0x0014 {
        Some(1)
    } else {
        None
    }
}

/// The surface wants blue, green, red and alpha: red and blue change places in
/// every pixel, green and alpha stay, and no pixel moves.
pub proof fn pixels_keep_their_place(pixels: Seq<u8>, p: int)
    requires
        0 <= p,
        p * 4 + 4 <= pixels.len(),
    ensures
        ({
            let bgra = red_blue_swapped(pixels);
            &&& bgra.len() == pixels.len()
            &&& bgra[p * 4] == pixels[p * 4 + 2]
            &&& bgra[p * 4 + 1] == pixels[p * 4 + 1]
            &&& bgra[p * 4 + 2] == pixels[p * 4]
            &&& bgra[p * 4 + 3] == pixels[p * 4 + 3]
        }),
{
}

/// A frame is as wide as its monitor's dots per inch ask for, to the nearest
/// pixel: 428 logical pixels of 96 to the inch. A monitor that reports no dots
/// counts as a standard one.
pub proof fn frames_follow_the_monitor(dpi: u32)
    requires
        1 <= dpi <= 96_000,
    ensures
        layout_at(0) == layout_at(96),
        ({
            let exact = 4280 * dpi;
            let pixels = layout_at(dpi).width as int;
            -480 <= pixels * 960 - exact <= 480
        }),
        effective_dpi(dpi) == dpi,
        effective_dpi(0) == 96,
{
    let by_dpi = Scale { pixels: dpi, tenths: 960 };
    let w = (8560 * dpi + 960) / 1920;
    assert(scaled(WIDTH as int, by_dpi) == w);
    assert(1 <= w <= 428_001);
}

/// The heights follow the width: the bar takes 31.2 and the pill 64 of every
/// 428 logical pixels, each to the nearest pixel, and the pill stands right
/// below the bar.
pub proof fn heights_follow_the_width(dpi: u32)
    requires
        10 <= dpi <= 96_000,
    ensures
        ({
            let frame = layout_at(dpi);
            let w = frame.width as int;
            let pill = frame.height - frame.main_top;
            &&& -2140 <= frame.main_top * 4280 - 312 * w <= 2140
            &&& -2140 <= pill * 4280 - 640 * w <= 2140
        }),
{
    let by_dpi = Scale { pixels: dpi, tenths: 960 };
    let w = (8560 * dpi + 960) / 1920;
    assert(scaled(WIDTH as int, by_dpi) == w);
    assert(45 <= w <= 428_001);
    let scale = Scale { pixels: w as u32, tenths: 4280 };
    assert(scaled(MAIN_TOP as int, scale) == (624 * w + 4280) / 8560);
    assert(scaled(PILL_HEIGHT as int, scale) == (1280 * w + 4280) / 8560);
}

/// A compact pill has the width that its monitor asks for, to the nearest
/// pixel and at least one.
pub proof fn compact_pills_follow_the_monitor(dpi: u32, width: int, height: int)
    requires
        1 <= dpi <= 96_000,
        0 < width <= 100_000,
        0 <= height <= 100_000,
    ensures
        mini_layout_at(0, width, height) == mini_layout_at(96, width, height),
        ({
            let pill = mini_layout_at(dpi, width, height);
            &&& pill.width >= 1
            &&& pill.width > 1 ==> -480 <= pill.width * 960 - width * dpi <= 480
        }),
{
    let n = width * dpi;
    assert(0 <= n <= 9_600_000_000) by (nonlinear_arith)
        requires
            n == width * dpi,
            0 < width <= 100_000,
            1 <= dpi <= 96_000,
    ;
    let by_dpi = Scale { pixels: dpi, tenths: 960 };
    assert(2 * width * dpi == 2 * n) by (nonlinear_arith)
        requires
            n == width * dpi,
    ;
    assert(scaled(width, by_dpi) == (2 * n + 960) / 1920);
}

} // verus!
