use ashe_worker::native_overlay::{
    FrameSizeError, OverlayWindow, byte_count, copy_premultiplied_rgba, frame_layout, mini_layout,
    overlay_message,
};
use ashe_worker::overlay_text::{
    PixelRect, RasterBounds, RasterPixel, Scale, TextAlign, blit, blit_pinned, composite_pixel,
    draw, draw_mini_text, line_break_spans, scale_length,
};
use ashe_worker::pill_renderer::{
    BORDER_WIDTH, BarPaint, HEIGHT, MAIN_TOP, PILL_EDGE_INSET, PILL_HEIGHT, PathStep, PillState,
    Rgba, TopBarAlignment, TopBarContent, WIDTH, average_pixel_pair, bar_slots, bars_area,
    capsule_path, connected_body_path, frame_plan, symmetrize_horizontal,
    symmetrize_vertical_region,
};

/// Lengths are in tenths of a logical pixel.
fn logical(tenths: i64) -> f32 {
    tenths as f32 / 10.0
}

const WHITE: Rgba = Rgba {
    r: 255,
    g: 255,
    b: 255,
    a: 255,
};

#[test]
fn main_pill_keeps_the_approved_geometry() {
    assert_eq!(logical(WIDTH), 428.0);
    assert_eq!(logical(PILL_HEIGHT), 64.0);
    assert_eq!(logical(BORDER_WIDTH), 2.0);
    assert_eq!(HEIGHT, MAIN_TOP + PILL_HEIGHT);
}

#[test]
fn bar_area_keeps_equal_margins_on_both_ends() {
    let area = |width: f32| {
        let (offset, width) = bars_area((width * 10.0) as i64);
        (logical(offset), logical(width))
    };
    assert_eq!(area(428.0), (12.0, 404.0));
    let (offset, width) = area(428.0);
    assert_eq!(428.0 - (offset + width), offset);
    assert_eq!(area(10.0), (12.0, 0.0));
}

#[test]
fn connected_body_builds_for_both_border_insets() {
    assert!(connected_body_path(PILL_EDGE_INSET as u32).is_some());
    assert!(connected_body_path((PILL_EDGE_INSET + BORDER_WIDTH) as u32).is_some());
}

#[test]
fn text_compositing_creates_premultiplied_alpha_on_transparency() {
    let mut rgba = vec![0_u8; 4];
    composite_pixel(&mut rgba, 1, 1, 0, 0, Rgba { a: 128, ..WHITE }, 128);
    assert_eq!(rgba, [64, 64, 64, 64]);
}

#[test]
fn text_compositing_obeys_the_clip_surface_bounds() {
    let mut rgba = vec![0_u8; 4];
    composite_pixel(&mut rgba, 1, 1, 1, 0, WHITE, 255);
    assert_eq!(rgba, [0, 0, 0, 0]);
}

#[test]
fn line_break_preview_pads_the_marker_and_marks_it_cyan() {
    let spans = line_break_spans("ab\u{21b5}cd");
    let texts: Vec<&str> = spans.iter().map(|span| span.text.as_str()).collect();
    assert_eq!(texts, ["ab", " ", "\u{21b5}", " ", "cd"]);
    assert!(!spans[0].marker);
    assert!(spans[2].marker);
}

#[test]
fn markers_at_the_ends_are_padded_too() {
    let show = |preview: &str| {
        line_break_spans(preview)
            .into_iter()
            .map(|span| span.text)
            .collect::<Vec<_>>()
            .concat()
    };
    assert_eq!(show("\u{21b5}"), " \u{21b5} ");
    assert_eq!(show("a\u{21b5}\u{21b5}"), "a \u{21b5}  \u{21b5} ");
    assert_eq!(show("plain"), "plain");
}

#[test]
fn opaque_text_replaces_what_is_below() {
    let mut rgba = vec![10, 20, 30, 255];
    composite_pixel(&mut rgba, 1, 1, 0, 0, Rgba { r: 1, g: 2, b: 3, a: 255 }, 255);
    assert_eq!(rgba, [1, 2, 3, 255]);
    composite_pixel(&mut rgba, 1, 1, 0, 0, WHITE, 0);
    assert_eq!(rgba, [1, 2, 3, 255]);
    composite_pixel(&mut rgba, 1, 1, -1, 0, WHITE, 255);
    assert_eq!(rgba, [1, 2, 3, 255]);
}

fn dot(x: i32, y: i32) -> RasterPixel {
    RasterPixel {
        x,
        y,
        width: 1,
        height: 1,
        color: WHITE,
    }
}

#[test]
fn bounds_cover_every_pixel() {
    let bounds = RasterBounds::for_pixels(&[dot(2, 3), dot(-1, 7), dot(4, 4)]).unwrap();
    assert_eq!((bounds.left, bounds.top), (-1, 3));
    assert_eq!((bounds.right, bounds.bottom), (5, 8));
    assert_eq!((bounds.width(), bounds.height()), (6, 5));
    assert!(RasterBounds::for_pixels(&[]).is_none());
}

#[test]
fn rectangles_hold_their_pixels() {
    let rect = PixelRect {
        left: 2,
        top: 3,
        width: 4,
        height: 5,
    };
    assert_eq!(rect.right(), 6);
    assert!(rect.contains(2, 3));
    assert!(rect.contains(5, 7));
    assert!(!rect.contains(6, 3));
    assert!(!rect.contains(2, 8));
    assert!(!rect.contains(1, 3));
}

fn lit(rgba: &[u8], width: usize) -> Vec<(usize, usize)> {
    rgba.chunks_exact(4)
        .enumerate()
        .filter(|(_, pixel)| pixel[3] != 0)
        .map(|(index, _)| (index % width, index / width))
        .collect()
}

#[test]
fn text_is_aligned_in_its_clip() {
    let clip = PixelRect {
        left: 2,
        top: 0,
        width: 6,
        height: 5,
    };
    for (alignment, x) in [
        (TextAlign::Left, 2),
        (TextAlign::Center, 4),
        (TextAlign::Right, 7),
    ] {
        let mut rgba = vec![0_u8; 10 * 5 * 4];
        blit(&mut rgba, 10, 5, &[dot(3, 9)], clip, alignment, 255);
        assert_eq!(lit(&rgba, 10), [(x, 2)]);
    }
}

#[test]
fn pinned_text_stays_on_its_line() {
    let clip = PixelRect {
        left: 0,
        top: 0,
        width: 10,
        height: 8,
    };
    let mut low = vec![0_u8; 10 * 8 * 4];
    blit_pinned(&mut low, 10, 8, &[dot(0, 4)], clip, TextAlign::Left, 255, 1, 0);
    let mut both = vec![0_u8; 10 * 8 * 4];
    blit_pinned(
        &mut both,
        10,
        8,
        &[dot(0, 4), dot(1, 1)],
        clip,
        TextAlign::Left,
        255,
        1,
        0,
    );
    for place in lit(&low, 10) {
        assert!(lit(&both, 10).contains(&place));
    }
    assert_eq!(lit(&both, 10).len(), 2);
}

#[test]
fn lengths_scale_to_whole_pixels() {
    let scale = Scale {
        pixels: 120,
        tenths: 960,
    };
    assert_eq!(scale_length(4280, scale), 535);
    assert_eq!(scale_length(0, scale), 0);
    let rect = PixelRect::from_logical(520, 0, 3240, 312, Scale { pixels: 96, tenths: 960 });
    assert_eq!((rect.left, rect.top), (52, 0));
    assert_eq!((rect.width, rect.height), (324, 31));
}

#[test]
fn frames_list_what_is_written_on_them() {
    let scale = Scale {
        pixels: 96,
        tenths: 960,
    };
    let bar = TopBarContent {
        count: "2 inserted".to_string(),
        content: "typed text".to_string(),
        alignment: TopBarAlignment::Trailing,
        accessory: Some("\u{21b5}".to_string()),
    };
    let runs = draw(None, Some(&bar), scale);
    let texts: Vec<&str> = runs.iter().map(|run| run.text.as_str()).collect();
    assert_eq!(texts, ["2 inserted", "typed text", "\u{21b5}"]);
    assert!(runs[1].preview);
    assert_eq!(runs[1].align, TextAlign::Right);
    assert!(runs[1].clip.left as i64 >= runs[0].clip.right());
    let text = "processing".to_string();
    let runs = draw(Some(&text), None, scale);
    assert_eq!(runs.len(), 1);
    assert_eq!(runs[0].align, TextAlign::Center);
    assert!(draw(None, None, scale).is_empty());
}

#[test]
fn frames_follow_the_monitor_scale() {
    let plain = frame_layout(96);
    assert_eq!((plain.width, plain.main_top, plain.height), (428, 31, 95));
    assert_eq!(frame_layout(0), plain);
    let large = frame_layout(192);
    assert_eq!((large.width, large.main_top, large.height), (856, 62, 190));
    assert_eq!(plain.window_origin(-5, 100), (-5, 69));
}

#[test]
fn surfaces_have_their_byte_count() {
    assert_eq!(byte_count(3, 5), Some(60));
    assert_eq!(byte_count(0, 5), Some(0));
    assert_eq!(byte_count(65_536, 16_384), None);
}

#[test]
fn surfaces_take_blue_first() {
    assert_eq!(
        copy_premultiplied_rgba(&[1, 2, 3, 4, 5, 6, 7, 8], 2, 1).unwrap(),
        [3, 2, 1, 4, 7, 6, 5, 8]
    );
    let once = copy_premultiplied_rgba(&[9, 8, 7, 6], 1, 1).unwrap();
    assert_eq!(copy_premultiplied_rgba(&once, 1, 1).unwrap(), [9, 8, 7, 6]);
    assert_eq!(
        copy_premultiplied_rgba(&[1, 2, 3, 4], 2, 1),
        Err(FrameSizeError {
            bytes: 4,
            expected: 8
        })
    );
}

#[test]
fn overlay_windows_are_shown_once() {
    let mut window = OverlayWindow::new();
    assert!(!window.conceal());
    assert!(window.needs_surface(4, 5));
    window.surface_created(4, 5);
    assert!(!window.needs_surface(4, 5));
    assert!(window.needs_surface(5, 4));
    assert!(window.presented(false));
    assert!(!window.presented(true));
    assert!(window.conceal());
    assert_eq!(overlay_message(0x0084), Some(-1));
    assert_eq!(overlay_message(0x0014), Some(1));
    assert_eq!(overlay_message(0x0001), None);
}

#[test]
fn borders_tell_the_states_apart() {
    assert_eq!(PillState::Listening.border(), Rgba { r: 0, g: 197, b: 224, a: 255 });
    assert_eq!(PillState::Working.border(), Rgba { r: 0, g: 101, b: 115, a: 255 });
    assert_eq!(PillState::Error.border(), Rgba { r: 217, g: 69, b: 61, a: 255 });
    assert_eq!(PillState::Idle.border(), Rgba { r: 6, g: 19, b: 25, a: 255 });
}

#[test]
fn body_outlines_are_closed() {
    let path = connected_body_path(10).unwrap();
    assert!(matches!(path[0], PathStep::MoveTo(..)));
    assert_eq!(path[path.len() - 1], PathStep::Close);
    assert!(connected_body_path(10_000).is_none());
    let capsule = capsule_path(0, 0, 200, 100).unwrap();
    assert_eq!(capsule[capsule.len() - 1], PathStep::Close);
    assert!(capsule_path(0, 0, 0, 100).is_none());
}

#[test]
fn bars_mirror_around_the_middle() {
    let slots = bar_slots(8, 8);
    assert_eq!(slots.len(), 8);
    for index in 0..4 {
        assert_eq!(slots[index].left_index, slots[7 - index].left_index);
        assert_ne!(slots[index].mirrored, slots[7 - index].mirrored);
    }
    let padded = bar_slots(2, 4);
    assert_eq!(padded[0].sources, None);
    assert_eq!(padded[1].sources, None);
    assert_eq!(padded[2].sources, Some((0, 0, 1)));
    assert_eq!(padded[3].sources, Some((0, 1, 1)));
    assert!(bar_slots(1, 0).is_empty());
}

#[test]
fn frame_plans_follow_the_state() {
    let plan = frame_plan(PillState::Listening, true, true);
    assert!(plan.connected);
    assert_eq!(plan.border, PillState::Listening.border());
    assert_eq!(plan.bars, Some(BarPaint::Live));
    assert!(!plan.even_out_vertically);
    assert_eq!(
        frame_plan(PillState::Error, true, false).bars,
        Some(BarPaint::Failed)
    );
    assert_eq!(frame_plan(PillState::Working, true, false).bars, None);
    let quiet = frame_plan(PillState::Idle, false, false);
    assert!(!quiet.connected);
    assert!(quiet.bars.is_none());
}

#[test]
fn averaging_makes_pixels_equal() {
    let mut pixels = vec![0, 10, 20, 30, 5, 11, 20, 255];
    average_pixel_pair(&mut pixels, 0, 1);
    assert_eq!(pixels, [3, 11, 20, 143, 3, 11, 20, 143]);
}

#[test]
fn evened_pictures_are_symmetric() {
    let picture: Vec<u8> = (0..5 * 4 * 4).map(|i| (i * 7 % 251) as u8).collect();
    let mut across = picture.clone();
    symmetrize_horizontal(&mut across, 5, 4);
    for y in 0..4 {
        for x in 0..5 {
            let (a, b) = ((y * 5 + x) * 4, (y * 5 + 4 - x) * 4);
            assert_eq!(across[a..a + 4], across[b..b + 4]);
        }
    }
    let mut down = picture.clone();
    symmetrize_vertical_region(&mut down, 5, 4, 1, 3);
    assert_eq!(down[..20], picture[..20]);
    for x in 0..5 {
        let (a, b) = ((5 + x) * 4, (15 + x) * 4);
        assert_eq!(down[a..a + 4], down[b..b + 4]);
    }
}

#[test]
fn compact_pills_end_at_their_anchor() {
    let plain = mini_layout(96, 1_400, 360);
    assert_eq!((plain.width, plain.height), (140, 36));
    assert_eq!(mini_layout(0, 1_400, 360), plain);
    assert_eq!(plain.window_origin(7, 100), (7, 64));
    let large = mini_layout(144, 1_400, 360);
    assert_eq!((large.width, large.height), (210, 54));
    let tiny = mini_layout(1, 10, 0);
    assert_eq!((tiny.width, tiny.height), (1, 1));
}

#[test]
fn compact_pills_show_one_word_in_the_middle() {
    let scale = Scale {
        pixels: 210,
        tenths: 1_400,
    };
    let word = "processing".to_string();
    let runs = draw_mini_text(Some(&word), 1_400, 360, scale);
    assert_eq!(runs.len(), 1);
    assert_eq!(runs[0].text, word);
    assert_eq!(runs[0].font, 140);
    assert_eq!(runs[0].align, TextAlign::Center);
    assert_eq!(
        runs[0].clip,
        PixelRect {
            left: 0,
            top: 0,
            width: 210,
            height: 54,
        }
    );
    assert_eq!(runs[0].opacity, 255);
    assert!(draw_mini_text(None, 1_400, 360, scale).is_empty());
    assert!(draw_mini_text(Some(&String::new()), 1_400, 360, scale).is_empty());
}
