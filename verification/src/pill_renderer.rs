//! Geometry and pixel arithmetic of the dictation pill.
//!
//! Lengths are in tenths of a logical pixel. Path coordinates are in
//! hundred-millionths of one, fine enough to hold the control points of the
//! curves exactly.

use vstd::prelude::*;

verus! {

pub const WIDTH: i64 = 4280;

pub const PILL_HEIGHT: i64 = 640;

pub const MAIN_TOP: i64 = 312;

pub const HEIGHT: i64 = MAIN_TOP + PILL_HEIGHT;

pub const TOP_BAR_X: i64 = 520;

pub const TOP_BAR_Y: i64 = 0;

pub const TOP_BAR_WIDTH: i64 = WIDTH - 2 * TOP_BAR_X;

pub const TOP_BAR_HEIGHT: i64 = 312;

pub const TOP_BAR_TEXT_INSET: i64 = 120;

pub const TOP_BAR_COUNT_WIDTH: i64 = 960;

pub const TOP_BAR_CONTENT_GAP: i64 = 20;

pub const TOP_BAR_ACCESSORY_WIDTH: i64 = 200;

pub const BORDER_WIDTH: i64 = 20;

pub const TOP_BAR_CORNER_RADIUS: i64 = 100;

pub const TOP_BAR_SHOULDER_RADIUS: i64 = 100;

/// Keeps the antialiased edge inside the bitmap.
pub const PILL_EDGE_INSET: i64 = 10;

/// Margin between the pill edge and the bar area, the same on both ends.
pub const BAR_MARGIN: i64 = 120;

pub const BAR_VERTICAL_INSET: i64 = 80;

pub const BAR_MIN_HEIGHT: i64 = 30;

/// Path units in a tenth of a logical pixel.
pub const UNITS_PER_TENTH: i64 = 10_000_000;

/// The control distance of a quarter circle of radius one tenth, in path
/// units: 0.5522848 of the radius.
pub const TANGENT_PER_TENTH: i64 = 5_522_848;

/// Visual lifecycle of the pill.
#[derive(Clone, Copy, Debug, PartialEq, Eq, Structural)]
pub enum PillState {
    /// Microphone hot. Bars follow the live input level.
    Listening,
    /// Transcribing or inserting.
    Working,
    /// The last operation failed.
    Error,
    /// Text actions and other quiet states.
    Idle,
}

#[derive(Clone, Copy, Debug, PartialEq, Eq, Structural)]
pub enum TopBarAlignment {
    Center,
    Trailing,
}

/// What the status bar above the pill shows.
#[derive(Debug, PartialEq)]
pub struct TopBarContent {
    pub count: String,
    pub content: String,
    pub alignment: TopBarAlignment,
    pub accessory: Option<String>,
}

/// A straight-alpha color.
#[derive(Clone, Copy, Debug, PartialEq, Eq, Structural)]
pub struct Rgba {
    pub r: u8,
    pub g: u8,
    pub b: u8,
    pub a: u8,
}

pub open spec fn background_color() -> Rgba {
    Rgba { r: 6, g: 19, b: 25, a: 255 }
}

/// The fill of the pill.
pub fn background() -> (r: Rgba)
    ensures
        r == background_color(),
{
    Rgba { r: 6, g: 19, b: 25, a: 255 }
}

impl PillState {
    pub open spec fn border_color(self) -> Rgba {
        match self {
            PillState::Listening => Rgba { r: 0, g: 197, b: 224, a: 255 },
            PillState::Working => Rgba { r: 0, g: 101, b: 115, a: 255 },
            PillState::Error => Rgba { r: 217, g: 69, b: 61, a: 255 },
            PillState::Idle => background_color(),
        }
    }

    /// The border color; a quiet pill has none.
    pub fn border(self) -> (r: Rgba)
        ensures
            r == self.border_color(),
    {
        match self {
            PillState::Listening => Rgba { r: 0, g: 197, b: 224, a: 255 },
            PillState::Working => Rgba { r: 0, g: 101, b: 115, a: 255 },
            PillState::Error => Rgba { r: 217, g: 69, b: 61, a: 255 },
            PillState::Idle => background(),
        }
    }
}

/// One step of an outline.
#[derive(Clone, Copy, Debug, PartialEq, Eq, Structural)]
pub enum PathStep {
    MoveTo(i64, i64),
    LineTo(i64, i64),
    /// Two control points and the end point.
    CubicTo(i64, i64, i64, i64, i64, i64),
    Close,
}

/// The lengths that shape the connected body at one inset, in tenths.
pub struct Body {
    pub left: int,
    pub right: int,
    pub top: int,
    pub bottom: int,
    pub radius: int,
    pub tab_left: int,
    pub tab_right: int,
    pub tab_top: int,
    pub tab_radius: int,
    pub shoulder: int,
}

/// The connected body at an inset. The concave shoulders grow as the corners
/// of the bar shrink, so that the border is equally wide everywhere.
pub open spec fn body_at(inset: int) -> Body {
    let border = if inset > PILL_EDGE_INSET {
        inset - PILL_EDGE_INSET
    } else {
        0
    };
    Body {
        left: inset,
        right: WIDTH - inset,
        top: MAIN_TOP + inset,
        bottom: HEIGHT - inset,
        radius: (HEIGHT - MAIN_TOP) / 2 - inset,
        tab_left: TOP_BAR_X + inset,
        tab_right: TOP_BAR_X + TOP_BAR_WIDTH - inset,
        tab_top: TOP_BAR_Y + inset,
        tab_radius: if TOP_BAR_CORNER_RADIUS - border > 10 {
            TOP_BAR_CORNER_RADIUS - border
        } else {
            10
        },
        shoulder: TOP_BAR_SHOULDER_RADIUS + border,
    }
}

impl Body {
    /// Whether the parts leave room for each other.
    pub open spec fn fits(self) -> bool {
        &&& self.radius > 0
        &&& self.tab_right > self.tab_left
        &&& self.top - self.shoulder > self.tab_top + self.tab_radius
        &&& self.tab_left - self.shoulder > self.left + self.radius
        &&& self.tab_right + self.shoulder < self.right - self.radius
    }

    /// The outline, clockwise from the left end of the main top edge.
    pub open spec fn outline(self) -> Seq<PathStep> {
        let b = self;
        seq![
            point(b.left + b.radius, b.top),
            line(b.tab_left - b.shoulder, b.top),
            curve(
                (b.tab_left - b.shoulder, b.top),
                (1, 0),
                b.shoulder,
                (b.tab_left, b.top - b.shoulder),
                (0, 1),
            ),
            line(b.tab_left, b.tab_top + b.tab_radius),
            curve(
                (b.tab_left, b.tab_top + b.tab_radius),
                (0, -1),
                b.tab_radius,
                (b.tab_left + b.tab_radius, b.tab_top),
                (-1, 0),
            ),
            line(b.tab_right - b.tab_radius, b.tab_top),
            curve(
                (b.tab_right - b.tab_radius, b.tab_top),
                (1, 0),
                b.tab_radius,
                (b.tab_right, b.tab_top + b.tab_radius),
                (0, -1),
            ),
            line(b.tab_right, b.top - b.shoulder),
            curve(
                (b.tab_right, b.top - b.shoulder),
                (0, 1),
                b.shoulder,
                (b.tab_right + b.shoulder, b.top),
                (-1, 0),
            ),
            line(b.right - b.radius, b.top),
            curve(
                (b.right - b.radius, b.top),
                (1, 0),
                b.radius,
                (b.right, b.top + b.radius),
                (0, -1),
            ),
            curve(
                (b.right, b.bottom - b.radius),
                (0, 1),
                b.radius,
                (b.right - b.radius, b.bottom),
                (1, 0),
            ),
            line(b.left + b.radius, b.bottom),
            curve(
                (b.left + b.radius, b.bottom),
                (-1, 0),
                b.radius,
                (b.left, b.bottom - b.radius),
                (0, 1),
            ),
            curve(
                (b.left, b.top + b.radius),
                (0, -1),
                b.radius,
                (b.left + b.radius, b.top),
                (-1, 0),
            ),
            PathStep::Close,
        ]
    }
}

pub open spec fn units(tenths: int) -> i64 {
    (tenths * UNITS_PER_TENTH) as i64
}

pub open spec fn point(x: int, y: int) -> PathStep {
    PathStep::MoveTo(units(x), units(y))
}

pub open spec fn line(x: int, y: int) -> PathStep {
    PathStep::LineTo(units(x), units(y))
}

/// A quarter circle of radius `radius` from `from` to `to`. Each control
/// point lies a tangent away from its end, in the direction given for it.
pub open spec fn curve(
    from: (int, int),
    leaving: (int, int),
    radius: int,
    to: (int, int),
    arriving: (int, int),
) -> PathStep {
    let t = radius * TANGENT_PER_TENTH;
    PathStep::CubicTo(
        (from.0 * UNITS_PER_TENTH + leaving.0 * t) as i64,
        (from.1 * UNITS_PER_TENTH + leaving.1 * t) as i64,
        (to.0 * UNITS_PER_TENTH + arriving.0 * t) as i64,
        (to.1 * UNITS_PER_TENTH + arriving.1 * t) as i64,
        units(to.0),
        units(to.1),
    )
}

fn quarter(
    from: (i64, i64),
    leaving: (i64, i64),
    radius: i64,
    to: (i64, i64),
    arriving: (i64, i64),
) -> (r: PathStep)
    requires
        -100_000 <= from.0 <= 100_000,
        -100_000 <= from.1 <= 100_000,
        -100_000 <= to.0 <= 100_000,
        -100_000 <= to.1 <= 100_000,
        0 <= radius <= 100_000,
        -1 <= leaving.0 <= 1,
        -1 <= leaving.1 <= 1,
        -1 <= arriving.0 <= 1,
        -1 <= arriving.1 <= 1,
    ensures
        r == curve(
            (from.0 as int, from.1 as int),
            (leaving.0 as int, leaving.1 as int),
            radius as int,
            (to.0 as int, to.1 as int),
            (arriving.0 as int, arriving.1 as int),
        ),
{
    let t: i64 = radius * TANGENT_PER_TENTH;
    assert(-t <= leaving.0 * t <= t) by (nonlinear_arith)
        requires
            -1 <= leaving.0 <= 1,
            t >= 0,
    ;
    assert(-t <= leaving.1 * t <= t) by (nonlinear_arith)
        requires
            -1 <= leaving.1 <= 1,
            t >= 0,
    ;
    assert(-t <= arriving.0 * t <= t) by (nonlinear_arith)
        requires
            -1 <= arriving.0 <= 1,
            t >= 0,
    ;
    assert(-t <= arriving.1 * t <= t) by (nonlinear_arith)
        requires
            -1 <= arriving.1 <= 1,
            t >= 0,
    ;
    PathStep::CubicTo(
        from.0 * UNITS_PER_TENTH + leaving.0 * t,
        from.1 * UNITS_PER_TENTH + leaving.1 * t,
        to.0 * UNITS_PER_TENTH + arriving.0 * t,
        to.1 * UNITS_PER_TENTH + arriving.1 * t,
        to.0 * UNITS_PER_TENTH,
        to.1 * UNITS_PER_TENTH,
    )
}

fn line_to(x: i64, y: i64) -> (r: PathStep)
    requires
        -100_000 <= x <= 100_000,
        -100_000 <= y <= 100_000,
    ensures
        r == line(x as int, y as int),
{
    PathStep::LineTo(x * UNITS_PER_TENTH, y * UNITS_PER_TENTH)
}

/// The outline that the raised bar and the main pill share, at an inset in
/// tenths. The bar has no bottom edge: concave shoulders turn its sides
/// straight into the main top edge, so that the two read as one body.
#[verifier::spinoff_prover]
#[verifier::rlimit(50)]
pub fn connected_body_path(inset: u32) -> (r: Option<Vec<PathStep>>)
    ensures
        match r {
            Some(path) => body_at(inset as int).fits() && path@ == body_at(inset as int).outline(),
            None => !body_at(inset as int).fits(),
        },
{
    if inset as i64 >= 320 {
        return None;
    }
    let inset: i64 = inset as i64;
    let ghost b = body_at(inset as int);
    let border: i64 = if inset > PILL_EDGE_INSET {
        inset - PILL_EDGE_INSET
    } else {
        0
    };
    let left: i64 = inset;
    let right: i64 = WIDTH - inset;
    let top: i64 = MAIN_TOP + inset;
    let bottom: i64 = HEIGHT - inset;
    let radius: i64 = (HEIGHT - MAIN_TOP) / 2 - inset;
    let tab_left: i64 = TOP_BAR_X + inset;
    let tab_right: i64 = TOP_BAR_X + TOP_BAR_WIDTH - inset;
    let tab_top: i64 = TOP_BAR_Y + inset;
    let tab_radius: i64 = if TOP_BAR_CORNER_RADIUS - border > 10 {
        TOP_BAR_CORNER_RADIUS - border
    } else {
        10
    };
    let shoulder: i64 = TOP_BAR_SHOULDER_RADIUS + border;
    if radius <= 0 || tab_right <= tab_left || top - shoulder <= tab_top + tab_radius || tab_left
        - shoulder <= left + radius || tab_right + shoulder >= right - radius {
        return None;
    }
    let mut path: Vec<PathStep> = Vec::new();
    path.push(
        PathStep::MoveTo((left + radius) * UNITS_PER_TENTH, top * UNITS_PER_TENTH),
    );
    path.push(line_to(tab_left - shoulder, top));
    path.push(
        quarter((tab_left - shoulder, top), (1, 0), shoulder, (tab_left, top - shoulder), (0, 1)),
    );
    path.push(line_to(tab_left, tab_top + tab_radius));
    path.push(
        quarter(
            (tab_left, tab_top + tab_radius),
            (0, -1),
            tab_radius,
            (tab_left + tab_radius, tab_top),
            (-1, 0),
        ),
    );
    path.push(line_to(tab_right - tab_radius, tab_top));
    path.push(
        quarter(
            (tab_right - tab_radius, tab_top),
            (1, 0),
            tab_radius,
            (tab_right, tab_top + tab_radius),
            (0, -1),
        ),
    );
    path.push(line_to(tab_right, top - shoulder));
    path.push(
        quarter(
            (tab_right, top - shoulder),
            (0, 1),
            shoulder,
            (tab_right + shoulder, top),
            (-1, 0),
        ),
    );
    path.push(line_to(right - radius, top));
    path.push(quarter((right - radius, top), (1, 0), radius, (right, top + radius), (0, -1)));
    path.push(
        quarter((right, bottom - radius), (0, 1), radius, (right - radius, bottom), (1, 0)),
    );
    path.push(line_to(left + radius, bottom));
    path.push(
        quarter((left + radius, bottom), (-1, 0), radius, (left, bottom - radius), (0, 1)),
    );
    path.push(quarter((left, top + radius), (0, -1), radius, (left + radius, top), (-1, 0)));
    path.push(PathStep::Close);
    assert(path@ =~= b.outline());
    Some(path)
}

/// The outline exists for the outer border and for the background inside it.
pub proof fn connected_body_builds_for_both_insets()
    ensures
        body_at(PILL_EDGE_INSET as int).fits(),
        body_at(PILL_EDGE_INSET + BORDER_WIDTH).fits(),
{
}

/// The end point of a step.
pub open spec fn end_of(step: PathStep) -> (i64, i64) {
    match step {
        PathStep::MoveTo(x, y) => (x, y),
        PathStep::LineTo(x, y) => (x, y),
        PathStep::CubicTo(_, _, _, _, x, y) => (x, y),
        PathStep::Close => (0, 0),
    }
}

/// The outline returns to its start, and its left half mirrors its right
/// half: the corner points of the bar and the main edge come in pairs around
/// the vertical axis.
pub proof fn connected_body_is_closed_and_symmetric(inset: nat)
    requires
        body_at(inset as int).fits(),
    ensures
        ({
            let path = body_at(inset as int).outline();
            let axis = units(WIDTH as int);
            &&& path.len() == 16
            &&& end_of(path[14]) == end_of(path[0])
            &&& forall|k: int|
                0 <= k <= 9 ==> {
                    &&& (#[trigger] end_of(path[k])).0 + end_of(path[9 - k]).0 == axis
                    &&& end_of(path[k]).1 == end_of(path[9 - k]).1
                }
            &&& end_of(path[10]).0 + end_of(path[13]).0 == axis
            &&& end_of(path[11]).0 + end_of(path[12]).0 == axis
        }),
{
    let b = body_at(inset as int);
    let path = b.outline();
    assert(0 < b.radius <= 320);
    assert forall|k: int| 0 <= k <= 9 implies {
        &&& (#[trigger] end_of(path[k])).0 + end_of(path[9 - k]).0 == units(WIDTH as int)
        &&& end_of(path[k]).1 == end_of(path[9 - k]).1
    } by {
        if k == 0 || k == 9 {
        } else if k == 1 || k == 8 {
        } else if k == 2 || k == 7 {
        } else if k == 3 || k == 6 {
        } else {
        }
    }
}

/// The border is equally wide along every straight edge, and the inner and
/// outer shoulders turn around the same centers.
pub proof fn border_is_uniform()
    ensures
        ({
            let outer = body_at(PILL_EDGE_INSET as int);
            let inner = body_at(PILL_EDGE_INSET + BORDER_WIDTH);
            &&& inner.left - outer.left == BORDER_WIDTH
            &&& outer.right - inner.right == BORDER_WIDTH
            &&& inner.top - outer.top == BORDER_WIDTH
            &&& outer.bottom - inner.bottom == BORDER_WIDTH
            &&& inner.tab_left - outer.tab_left == BORDER_WIDTH
            &&& outer.tab_right - inner.tab_right == BORDER_WIDTH
            &&& inner.tab_top - outer.tab_top == BORDER_WIDTH
            &&& inner.tab_left - inner.shoulder == outer.tab_left - outer.shoulder
            &&& inner.top - inner.shoulder == outer.top - outer.shoulder
            &&& inner.shoulder - outer.shoulder == BORDER_WIDTH
        }),
{
}

/// A closed capsule: two straight edges and two half circles, clockwise from
/// the left end of the top edge. All lengths are in path units.
pub open spec fn capsule_outline(x: int, y: int, width: int, height: int) -> Seq<PathStep> {
    let radius = if height / 2 < width / 2 {
        height / 2
    } else {
        width / 2
    };
    let t = radius * TANGENT_PER_TENTH / UNITS_PER_TENTH as int;
    let (left, right, top, bottom) = (x, x + width, y, y + height);
    seq![
        PathStep::MoveTo((left + radius) as i64, top as i64),
        PathStep::LineTo((right - radius) as i64, top as i64),
        PathStep::CubicTo(
            (right - radius + t) as i64,
            top as i64,
            right as i64,
            (top + radius - t) as i64,
            right as i64,
            (top + radius) as i64,
        ),
        PathStep::LineTo(right as i64, (bottom - radius) as i64),
        PathStep::CubicTo(
            right as i64,
            (bottom - radius + t) as i64,
            (right - radius + t) as i64,
            bottom as i64,
            (right - radius) as i64,
            bottom as i64,
        ),
        PathStep::LineTo((left + radius) as i64, bottom as i64),
        PathStep::CubicTo(
            (left + radius - t) as i64,
            bottom as i64,
            left as i64,
            (bottom - radius + t) as i64,
            left as i64,
            (bottom - radius) as i64,
        ),
        PathStep::LineTo(left as i64, (top + radius) as i64),
        PathStep::CubicTo(
            left as i64,
            (top + radius - t) as i64,
            (left + radius - t) as i64,
            top as i64,
            (left + radius) as i64,
            top as i64,
        ),
        PathStep::Close,
    ]
}

/// The largest coordinate a capsule takes: ten thousand logical pixels.
pub const CAPSULE_LIMIT: i64 = 1_000_000_000_000;

/// A single closed capsule, so that one fill owns all four edges. Nothing for
/// an empty area.
pub fn capsule_path(x: i64, y: i64, width: i64, height: i64) -> (r: Option<Vec<PathStep>>)
    requires
        -CAPSULE_LIMIT <= x <= CAPSULE_LIMIT,
        -CAPSULE_LIMIT <= y <= CAPSULE_LIMIT,
        width <= CAPSULE_LIMIT,
        height <= CAPSULE_LIMIT,
    ensures
        match r {
            Some(path) => width > 0 && height > 0 && path@ == capsule_outline(
                x as int,
                y as int,
                width as int,
                height as int,
            ),
            None => width <= 0 || height <= 0,
        },
{
    if width <= 0 || height <= 0 {
        return None;
    }
    let radius: i64 = if height / 2 < width / 2 {
        height / 2
    } else {
        width / 2
    };
    let t: i64 = radius * TANGENT_PER_TENTH / UNITS_PER_TENTH;
    let (left, right, top, bottom): (i64, i64, i64, i64) = (x, x + width, y, y + height);
    let mut path: Vec<PathStep> = Vec::new();
    path.push(PathStep::MoveTo(left + radius, top));
    path.push(PathStep::LineTo(right - radius, top));
    path.push(
        PathStep::CubicTo(right - radius + t, top, right, top + radius - t, right, top + radius),
    );
    path.push(PathStep::LineTo(right, bottom - radius));
    path.push(
        PathStep::CubicTo(
            right,
            bottom - radius + t,
            right - radius + t,
            bottom,
            right - radius,
            bottom,
        ),
    );
    path.push(PathStep::LineTo(left + radius, bottom));
    path.push(
        PathStep::CubicTo(
            left + radius - t,
            bottom,
            left,
            bottom - radius + t,
            left,
            bottom - radius,
        ),
    );
    path.push(PathStep::LineTo(left, top + radius));
    path.push(
        PathStep::CubicTo(left, top + radius - t, left + radius - t, top, left + radius, top),
    );
    path.push(PathStep::Close);
    assert(path@ =~= capsule_outline(x as int, y as int, width as int, height as int));
    Some(path)
}

/// Where the bars go in a pill of the given width, as offset and width in
/// tenths: one margin on either side.
pub fn bars_area(total_width: i64) -> (r: (i64, i64))
    requires
        total_width >= i64::MIN + 2 * BAR_MARGIN,
    ensures
        r.0 == BAR_MARGIN,
        r.1 == if total_width > 2 * BAR_MARGIN {
            total_width - 2 * BAR_MARGIN
        } else {
            0
        },
{
    let inner: i64 = total_width - 2 * BAR_MARGIN;
    (
        BAR_MARGIN,
        if inner > 0 {
            inner
        } else {
            0
        },
    )
}

/// One bar: the three values it averages, if it has any, and its place. A bar
/// in the right half stands where its mirror image in the left half would.
#[derive(Clone, Copy, Debug, PartialEq, Eq)]
pub struct BarSlot {
    pub sources: Option<(usize, usize, usize)>,
    pub left_index: usize,
    pub mirrored: bool,
}

pub open spec fn least(a: int, b: int) -> int {
    if a < b {
        a
    } else {
        b
    }
}

/// Slot `index` of `bar_count` for a history of `value_count` values: the
/// newest value stands at the right end, missing ones pad the left end, and
/// each bar averages its value with its neighbors inside the window.
pub open spec fn bar_slot(value_count: nat, bar_count: nat, index: int) -> BarSlot {
    let window = least(value_count as int, bar_count as int);
    let pad = bar_count - window;
    let start = value_count - window;
    let position = index - pad;
    let at = |offset: int| (start + least(offset, window - 1)) as usize;
    let mirror = bar_count - 1 - index;
    BarSlot {
        sources: if position < 0 || window == 0 {
            None
        } else {
            Some(
                (
                    at(
                        if position > 0 {
                            position - 1
                        } else {
                            0
                        },
                    ),
                    at(position),
                    at(position + 1),
                ),
            )
        },
        left_index: least(index, mirror) as usize,
        mirrored: index > mirror,
    }
}

/// The slots of `bar_count` bars over a history of `value_count` values.
pub fn bar_slots(value_count: usize, bar_count: usize) -> (r: Vec<BarSlot>)
    ensures
        r@.len() == bar_count,
        forall|i: int|
            0 <= i < bar_count ==> #[trigger] r@[i] == bar_slot(
                value_count as nat,
                bar_count as nat,
                i,
            ),
{
    let window: usize = if value_count < bar_count {
        value_count
    } else {
        bar_count
    };
    let pad: usize = bar_count - window;
    let start: usize = value_count - window;
    let mut out: Vec<BarSlot> = Vec::new();
    let mut index: usize = 0;
    while index < bar_count
        invariant
            index <= bar_count,
            window == least(value_count as int, bar_count as int),
            pad == bar_count - window,
            start == value_count - window,
            out@.len() == index,
            forall|i: int|
                0 <= i < index ==> #[trigger] out@[i] == bar_slot(
                    value_count as nat,
                    bar_count as nat,
                    i,
                ),
        decreases bar_count - index,
    {
        let sources: Option<(usize, usize, usize)> = if index < pad || window == 0 {
            None
        } else {
            let position: usize = index - pad;
            let before: usize = if position > 0 {
                position - 1
            } else {
                0
            };
            let after: usize = if position + 1 < window {
                position + 1
            } else {
                window - 1
            };
            Some((start + before, start + position, start + after))
        };
        let mirror: usize = bar_count - 1 - index;
        out.push(
            BarSlot {
                sources,
                left_index: if index < mirror {
                    index
                } else {
                    mirror
                },
                mirrored: index > mirror,
            },
        );
        index += 1;
    }
    out
}

/// Bars pair up around the middle: a bar and its mirror image share their
/// place in the left half, and every value a bar reads exists.
pub proof fn bars_are_mirrored(value_count: nat, bar_count: nat, index: int)
    requires
        0 <= index < bar_count <= usize::MAX,
        value_count <= usize::MAX,
    ensures
        bar_slot(value_count, bar_count, index).left_index == bar_slot(
            value_count,
            bar_count,
            bar_count - 1 - index,
        ).left_index,
        bar_slot(value_count, bar_count, index).sources matches Some((a, b, c)) ==> a <= b <= c
            < value_count,
        bar_slot(value_count, bar_count, index).sources is Some <==> index >= bar_count - least(
            value_count as int,
            bar_count as int,
        ) && value_count > 0,
{
}

/// How the bars of a frame are painted.
#[derive(Clone, Copy, Debug, PartialEq, Eq, Structural)]
pub enum BarPaint {
    /// Bars follow their values, in the listening color.
    Live,
    /// Bars follow their values, in the error color.
    Failed,
    /// Bars stay at the idle height.
    Quiet,
}

/// What a frame is made of.
#[derive(Clone, Copy, Debug, PartialEq, Eq, Structural)]
pub struct FramePlan {
    /// The bar and the pill as one body, rather than the pill alone.
    pub connected: bool,
    pub border: Rgba,
    pub fill: Rgba,
    pub bars: Option<BarPaint>,
    /// Mirror the pill top to bottom once it is painted.
    pub even_out_vertically: bool,
}

/// What a frame in `state` is made of. While working there is a status text
/// in place of the bars.
pub open spec fn plan_of(state: PillState, show_visualizer: bool, show_top_bar: bool) -> FramePlan {
    FramePlan {
        connected: show_top_bar,
        border: state.border_color(),
        fill: background_color(),
        bars: if !show_visualizer {
            None
        } else {
            match state {
                PillState::Working => None,
                PillState::Listening => Some(BarPaint::Live),
                PillState::Error => Some(BarPaint::Failed),
                PillState::Idle => Some(BarPaint::Quiet),
            }
        },
        even_out_vertically: !show_top_bar,
    }
}

/// Plan a frame.
pub fn frame_plan(state: PillState, show_visualizer: bool, show_top_bar: bool) -> (r: FramePlan)
    ensures
        r == plan_of(state, show_visualizer, show_top_bar),
{
    FramePlan {
        connected: show_top_bar,
        border: state.border(),
        fill: background(),
        bars: if !show_visualizer {
            None
        } else {
            match state {
                PillState::Working => None,
                PillState::Listening => Some(BarPaint::Live),
                PillState::Error => Some(BarPaint::Failed),
                PillState::Idle => Some(BarPaint::Quiet),
            }
        },
        even_out_vertically: !show_top_bar,
    }
}

/// Channel `c` of pixel `p`.
pub open spec fn channel(pixels: Seq<u8>, p: int, c: int) -> u8 {
    pixels[p * 4 + c]
}

/// The pixel in column `x` of row `y`.
pub open spec fn cell(width: int, x: int, y: int) -> int {
    y * width + x
}

/// The mean of two channels, rounded up.
pub open spec fn mean(a: u8, b: u8) -> u8 {
    ((a + b + 1) / 2) as u8
}

pub proof fn cell_is_inside(width: int, height: int, x: int, y: int)
    requires
        0 <= x < width,
        0 <= y < height,
    ensures
        0 <= cell(width, x, y) < width * height,
{
    assert(0 <= y * width + x < width * height) by (nonlinear_arith)
        requires
            0 <= x < width,
            0 <= y < height,
    ;
}

pub proof fn cells_are_distinct(width: int, x: int, y: int, u: int, v: int)
    requires
        0 <= x < width,
        0 <= u < width,
        cell(width, x, y) == cell(width, u, v),
    ensures
        x == u,
        y == v,
{
    assert(y == v) by (nonlinear_arith)
        requires
            0 <= x < width,
            0 <= u < width,
            y * width + x == v * width + u,
    ;
}

/// Replace both pixels by their mean.
pub fn average_pixel_pair(pixels: &mut Vec<u8>, first_pixel: usize, second_pixel: usize)
    requires
        first_pixel * 4 + 4 <= old(pixels)@.len(),
        second_pixel * 4 + 4 <= old(pixels)@.len(),
    ensures
        final(pixels)@.len() == old(pixels)@.len(),
        forall|p: int, c: int|
            0 <= p && 0 <= c < 4 && p * 4 + c < old(pixels)@.len() ==> #[trigger] channel(
                final(pixels)@,
                p,
                c,
            ) == if p == first_pixel || p == second_pixel {
                mean(
                    channel(old(pixels)@, first_pixel as int, c),
                    channel(old(pixels)@, second_pixel as int, c),
                )
            } else {
                channel(old(pixels)@, p, c)
            },
{
    let len: usize = pixels.len();
    let ghost start = pixels@;
    let first: usize = first_pixel * 4;
    let second: usize = second_pixel * 4;
    let mut k: usize = 0;
    while k < 4
        invariant
            k <= 4,
            first == first_pixel * 4,
            second == second_pixel * 4,
            first + 4 <= start.len(),
            second + 4 <= start.len(),
            pixels@.len() == start.len(),
            forall|p: int, c: int|
                0 <= p && 0 <= c < 4 && p * 4 + c < start.len() ==> #[trigger] channel(
                    pixels@,
                    p,
                    c,
                ) == if c < k && (p == first_pixel || p == second_pixel) {
                    mean(
                        channel(start, first_pixel as int, c),
                        channel(start, second_pixel as int, c),
                    )
                } else {
                    channel(start, p, c)
                },
        decreases 4 - k,
    {
        assert(channel(pixels@, first_pixel as int, k as int) == channel(
            start,
            first_pixel as int,
            k as int,
        ));
        assert(channel(pixels@, second_pixel as int, k as int) == channel(
            start,
            second_pixel as int,
            k as int,
        ));
        let sum: u16 = pixels[first + k] as u16 + pixels[second + k] as u16;
        let average: u8 = ((sum + 1) / 2) as u8;
        let ghost before = pixels@;
        pixels.set(first + k, average);
        pixels.set(second + k, average);
        assert forall|p: int, c: int|
            0 <= p && 0 <= c < 4 && p * 4 + c < start.len() implies #[trigger] channel(
            pixels@,
            p,
            c,
        ) == if c <= k && (p == first_pixel || p == second_pixel) {
            mean(channel(start, first_pixel as int, c), channel(start, second_pixel as int, c))
        } else {
            channel(start, p, c)
        } by {
            assert(channel(before, p, c) == before[p * 4 + c]);
        }
        k += 1;
    }
}

/// Each pixel of `after` is the mean of a pixel of `before` and its mirror
/// image in the row.
pub open spec fn columns_averaged(
    before: Seq<u8>,
    after: Seq<u8>,
    width: int,
    height: int,
) -> bool {
    &&& after.len() == before.len()
    &&& forall|x: int, y: int, c: int|
        0 <= x < width && 0 <= y < height && 0 <= c < 4 ==> #[trigger] channel(
            after,
            cell(width, x, y),
            c,
        ) == mean(
            channel(before, cell(width, x, y), c),
            channel(before, cell(width, width - 1 - x, y), c),
        )
}

/// Each pixel of `after` in the rows `from` to `to` is the mean of a pixel of
/// `before` and its mirror image in that range of rows. The other rows stay.
pub open spec fn rows_averaged(
    before: Seq<u8>,
    after: Seq<u8>,
    width: int,
    height: int,
    from: int,
    to: int,
) -> bool {
    &&& after.len() == before.len()
    &&& forall|x: int, y: int, c: int|
        0 <= x < width && 0 <= y < height && 0 <= c < 4 ==> #[trigger] channel(
            after,
            cell(width, x, y),
            c,
        ) == if from <= y < to {
            mean(
                channel(before, cell(width, x, y), c),
                channel(before, cell(width, x, from + to - 1 - y), c),
            )
        } else {
            channel(before, cell(width, x, y), c)
        }
}

/// The picture equals its mirror image left to right.
pub open spec fn mirrors_columns(pixels: Seq<u8>, width: int, height: int) -> bool {
    forall|x: int, y: int, c: int|
        0 <= x < width && 0 <= y < height && 0 <= c < 4 ==> #[trigger] channel(
            pixels,
            cell(width, x, y),
            c,
        ) == channel(pixels, cell(width, width - 1 - x, y), c)
}

/// The rows `from` to `to` equal their mirror image top to bottom.
pub open spec fn mirrors_rows(pixels: Seq<u8>, width: int, from: int, to: int) -> bool {
    forall|x: int, y: int, c: int|
        0 <= x < width && from <= y < to && 0 <= c < 4 ==> #[trigger] channel(
            pixels,
            cell(width, x, y),
            c,
        ) == channel(pixels, cell(width, x, from + to - 1 - y), c)
}

/// Mirror a picture left to right by averaging each pixel with its mirror
/// image.
pub fn symmetrize_horizontal(pixels: &mut Vec<u8>, width: usize, height: usize)
    requires
        old(pixels)@.len() == width * height * 4,
    ensures
        columns_averaged(old(pixels)@, final(pixels)@, width as int, height as int),
{
    let len: usize = pixels.len();
    let ghost start = pixels@;
    let ghost w = width as int;
    let mut row: usize = 0;
    while row < height
        invariant
            row <= height,
            w == width,
            start.len() == width * height * 4,
            start.len() <= usize::MAX,
            pixels@.len() == start.len(),
            forall|x: int, y: int, c: int|
                0 <= x < w && 0 <= y < height && 0 <= c < 4 ==> #[trigger] channel(
                    pixels@,
                    cell(w, x, y),
                    c,
                ) == if y < row {
                    mean(
                        channel(start, cell(w, x, y), c),
                        channel(start, cell(w, w - 1 - x, y), c),
                    )
                } else {
                    channel(start, cell(w, x, y), c)
                },
        decreases height - row,
    {
        let half: usize = width / 2;
        let mut column: usize = 0;
        while column < half
            invariant
                column <= half,
                half == width / 2,
                row < height,
                w == width,
                start.len() == width * height * 4,
                start.len() <= usize::MAX,
                pixels@.len() == start.len(),
                forall|x: int, y: int, c: int|
                    0 <= x < w && 0 <= y < height && 0 <= c < 4 ==> #[trigger] channel(
                        pixels@,
                        cell(w, x, y),
                        c,
                    ) == if y < row || (y == row && (x < column || x > w - 1 - column)) {
                        mean(
                            channel(start, cell(w, x, y), c),
                            channel(start, cell(w, w - 1 - x, y), c),
                        )
                    } else {
                        channel(start, cell(w, x, y), c)
                    },
            decreases half - column,
        {
            let ghost before = pixels@;
            let ghost (a, b) = (column as int, w - 1 - column);
            proof {
                cell_is_inside(w, height as int, a, row as int);
                cell_is_inside(w, height as int, b, row as int);
                assert(0 <= row * width <= width * height) by (nonlinear_arith)
                    requires
                        row < height,
                ;
            }
            let first: usize = row * width + column;
            let second: usize = row * width + (width - 1 - column);
            assert(first == cell(w, a, row as int));
            assert(second == cell(w, b, row as int));
            average_pixel_pair(pixels, first, second);
            assert forall|x: int, y: int, c: int|
                0 <= x < w && 0 <= y < height && 0 <= c < 4 implies #[trigger] channel(
                pixels@,
                cell(w, x, y),
                c,
            ) == if y < row || (y == row && (x <= column || x >= w - 1 - column)) {
                mean(channel(start, cell(w, x, y), c), channel(start, cell(w, w - 1 - x, y), c))
            } else {
                channel(start, cell(w, x, y), c)
            } by {
                cell_is_inside(w, height as int, x, y);
                assert(channel(before, cell(w, x, y), c) == channel(before, cell(w, x, y), c));
                assert(channel(before, cell(w, a, row as int), c) == channel(
                    start,
                    cell(w, a, row as int),
                    c,
                ));
                assert(channel(before, cell(w, b, row as int), c) == channel(
                    start,
                    cell(w, b, row as int),
                    c,
                ));
                if cell(w, x, y) == first {
                    cells_are_distinct(w, x, y, a, row as int);
                } else if cell(w, x, y) == second {
                    cells_are_distinct(w, x, y, b, row as int);
                } else if y == row && x == a {
                    assert(false);
                } else if y == row && x == b {
                    assert(false);
                }
            }
            column += 1;
        }
        row += 1;
    }
}

/// The end of a region of rows, cut off at the bottom of the picture.
pub open spec fn region_end(top: int, region_height: int, height: int) -> int {
    least(top + region_height, height)
}

/// Mirror a region of rows top to bottom by averaging each pixel with its
/// mirror image. The region ends at the bottom of the picture at the latest.
pub fn symmetrize_vertical_region(
    pixels: &mut Vec<u8>,
    width: usize,
    height: usize,
    top: usize,
    region_height: usize,
)
    requires
        old(pixels)@.len() == width * height * 4,
        top <= height,
    ensures
        rows_averaged(
            old(pixels)@,
            final(pixels)@,
            width as int,
            height as int,
            top as int,
            region_end(top as int, region_height as int, height as int),
        ),
{
    let len: usize = pixels.len();
    let ghost start = pixels@;
    let ghost w = width as int;
    let sum: usize = top.saturating_add(region_height);
    let end: usize = if sum < height {
        sum
    } else {
        height
    };
    let half: usize = (end - top) / 2;
    let ghost (lo, hi) = (top as int, end as int);
    let mut offset: usize = 0;
    while offset < half
        invariant
            offset <= half,
            half == (end - top) / 2,
            top <= end <= height,
            w == width,
            lo == top,
            hi == end,
            start.len() == width * height * 4,
            start.len() <= usize::MAX,
            pixels@.len() == start.len(),
            forall|x: int, y: int, c: int|
                0 <= x < w && 0 <= y < height && 0 <= c < 4 ==> #[trigger] channel(
                    pixels@,
                    cell(w, x, y),
                    c,
                ) == if lo <= y < lo + offset || hi - offset <= y < hi {
                    mean(
                        channel(start, cell(w, x, y), c),
                        channel(start, cell(w, x, lo + hi - 1 - y), c),
                    )
                } else {
                    channel(start, cell(w, x, y), c)
                },
        decreases half - offset,
    {
        let upper: usize = top + offset;
        let lower: usize = end - 1 - offset;
        let mut column: usize = 0;
        while column < width
            invariant
                column <= width,
                offset < half,
                half == (end - top) / 2,
                top <= end <= height,
                upper == top + offset,
                lower == end - 1 - offset,
                w == width,
                lo == top,
                hi == end,
                start.len() == width * height * 4,
                start.len() <= usize::MAX,
                pixels@.len() == start.len(),
                forall|x: int, y: int, c: int|
                    0 <= x < w && 0 <= y < height && 0 <= c < 4 ==> #[trigger] channel(
                        pixels@,
                        cell(w, x, y),
                        c,
                    ) == if lo <= y < lo + offset || hi - offset <= y < hi || ((y == upper || y
                        == lower) && x < column) {
                        mean(
                            channel(start, cell(w, x, y), c),
                            channel(start, cell(w, x, lo + hi - 1 - y), c),
                        )
                    } else {
                        channel(start, cell(w, x, y), c)
                    },
            decreases width - column,
        {
            let ghost before = pixels@;
            let ghost col = column as int;
            let ghost (a, b) = (upper as int, lower as int);
            proof {
                cell_is_inside(w, height as int, col, a);
                cell_is_inside(w, height as int, col, b);
                assert(0 <= upper * width <= width * height) by (nonlinear_arith)
                    requires
                        upper < height,
                ;
                assert(0 <= lower * width <= width * height) by (nonlinear_arith)
                    requires
                        lower < height,
                ;
            }
            let first: usize = upper * width + column;
            let second: usize = lower * width + column;
            assert(first == cell(w, col, a));
            assert(second == cell(w, col, b));
            average_pixel_pair(pixels, first, second);
            assert forall|x: int, y: int, c: int|
                0 <= x < w && 0 <= y < height && 0 <= c < 4 implies #[trigger] channel(
                pixels@,
                cell(w, x, y),
                c,
            ) == if lo <= y < lo + offset || hi - offset <= y < hi || ((y == upper || y == lower)
                && x <= column) {
                mean(
                    channel(start, cell(w, x, y), c),
                    channel(start, cell(w, x, lo + hi - 1 - y), c),
                )
            } else {
                channel(start, cell(w, x, y), c)
            } by {
                cell_is_inside(w, height as int, x, y);
                assert(channel(before, cell(w, x, y), c) == channel(before, cell(w, x, y), c));
                assert(channel(before, cell(w, col, a), c) == channel(start, cell(w, col, a), c));
                assert(channel(before, cell(w, col, b), c) == channel(start, cell(w, col, b), c));
                if cell(w, x, y) == first {
                    cells_are_distinct(w, x, y, col, a);
                } else if cell(w, x, y) == second {
                    cells_are_distinct(w, x, y, col, b);
                }
            }
            column += 1;
        }
        offset += 1;
    }
}

/// Averaging columns makes the picture its own mirror image left to right.
pub proof fn averaged_columns_mirror(before: Seq<u8>, after: Seq<u8>, width: int, height: int)
    requires
        columns_averaged(before, after, width, height),
    ensures
        mirrors_columns(after, width, height),
{
    assert forall|x: int, y: int, c: int|
        0 <= x < width && 0 <= y < height && 0 <= c < 4 implies #[trigger] channel(
        after,
        cell(width, x, y),
        c,
    ) == channel(after, cell(width, width - 1 - x, y), c) by {
        assert(channel(after, cell(width, width - 1 - x, y), c) == mean(
            channel(before, cell(width, width - 1 - x, y), c),
            channel(before, cell(width, x, y), c),
        ));
    }
}

/// Averaging rows makes the region its own mirror image top to bottom, and
/// leaves a picture that mirrors left to right doing so.
pub proof fn averaged_rows_mirror(
    before: Seq<u8>,
    after: Seq<u8>,
    width: int,
    height: int,
    from: int,
    to: int,
)
    requires
        0 <= from <= to <= height,
        rows_averaged(before, after, width, height, from, to),
    ensures
        mirrors_rows(after, width, from, to),
        mirrors_columns(before, width, height) ==> mirrors_columns(after, width, height),
{
    assert forall|x: int, y: int, c: int|
        0 <= x < width && from <= y < to && 0 <= c < 4 implies #[trigger] channel(
        after,
        cell(width, x, y),
        c,
    ) == channel(after, cell(width, x, from + to - 1 - y), c) by {
        assert(channel(after, cell(width, x, from + to - 1 - y), c) == mean(
            channel(before, cell(width, x, from + to - 1 - y), c),
            channel(before, cell(width, x, y), c),
        ));
    }
    if mirrors_columns(before, width, height) {
        assert forall|x: int, y: int, c: int|
            0 <= x < width && 0 <= y < height && 0 <= c < 4 implies #[trigger] channel(
            after,
            cell(width, x, y),
            c,
        ) == channel(after, cell(width, width - 1 - x, y), c) by {
            assert(channel(before, cell(width, x, y), c) == channel(
                before,
                cell(width, width - 1 - x, y),
                c,
            ));
            let z = from + to - 1 - y;
            if from <= y < to {
                assert(channel(before, cell(width, x, z), c) == channel(
                    before,
                    cell(width, width - 1 - x, z),
                    c,
                ));
            }
            assert(channel(after, cell(width, width - 1 - x, y), c) == channel(
                after,
                cell(width, width - 1 - x, y),
                c,
            ));
        }
    }
}

/// The states are told apart by the border, and a quiet pill has none: its
/// border is the background.
pub proof fn borders_tell_states_apart(a: PillState, b: PillState)
    ensures
        a.border_color() == b.border_color() ==> a == b,
        PillState::Idle.border_color() == background_color(),
        a.border_color().a == 255,
        background_color() == (Rgba { r: 6, g: 19, b: 25, a: 255 }),
        a is Listening ==> a.border_color() == (Rgba { r: 0, g: 197, b: 224, a: 255 }),
        a is Working ==> a.border_color() == (Rgba { r: 0, g: 101, b: 115, a: 255 }),
        a is Error ==> a.border_color() == (Rgba { r: 217, g: 69, b: 61, a: 255 }),
{
}

/// A frame has bars exactly where the visualizer is wanted and nothing is
/// being worked on; they are live while listening and stay quiet when idle.
/// Bar and pill are one body exactly where the status bar shows, and only the
/// pill alone is evened out top to bottom.
pub proof fn frames_show_their_state(
    state: PillState,
    show_visualizer: bool,
    show_top_bar: bool,
)
    ensures
        ({
            let plan = plan_of(state, show_visualizer, show_top_bar);
            &&& plan.bars is Some <==> show_visualizer && !(state is Working)
            &&& plan.bars == Some(BarPaint::Live) <==> show_visualizer && state is Listening
            &&& plan.bars == Some(BarPaint::Failed) <==> show_visualizer && state is Error
            &&& plan.bars == Some(BarPaint::Quiet) <==> show_visualizer && state is Idle
            &&& plan.connected == show_top_bar
            &&& plan.even_out_vertically == !plan.connected
            &&& plan.border == state.border_color()
            &&& plan.fill == background_color()
        }),
{
}

/// The newest value stands at the right end, each bar to the left stands for
/// the value before, and a bar averages its value with those on either side as
/// far as they are shown.
pub proof fn newest_values_stand_at_the_right(value_count: nat, bar_count: nat, index: int)
    requires
        0 <= index < bar_count <= usize::MAX,
        0 < value_count <= usize::MAX,
    ensures
        ({
            let slot = bar_slot(value_count, bar_count, index);
            let age = bar_count - 1 - index;
            &&& age < value_count ==> (slot.sources matches Some((before, here, after)) && {
                &&& here == value_count - 1 - age
                &&& age > 0 ==> after == here + 1
                &&& age == 0 ==> after == here
                &&& index > 0 && here > 0 ==> before == here - 1
                &&& index == 0 || here == 0 ==> before == here
            })
            &&& age >= value_count ==> slot.sources is None
            &&& slot.mirrored == (2 * index >= bar_count)
            &&& slot.left_index == if 2 * index >= bar_count {
                bar_count - 1 - index
            } else {
                index
            }
        }),
{
}

/// A mean lies between its channels, does not depend on their order, and is
/// theirs where they agree.
pub proof fn means_lie_between(a: u8, b: u8)
    ensures
        mean(a, b) == mean(b, a),
        a <= b ==> a <= mean(a, b) <= b,
        a == b ==> mean(a, b) == a,
        2 * mean(a, b) - 1 <= a + b <= 2 * mean(a, b),
{
}

/// A capsule is closed, stays in its area, touches all four edges, and is its
/// own mirror image left to right and top to bottom.
pub proof fn capsules_fill_their_area(x: int, y: int, width: int, height: int)
    requires
        -CAPSULE_LIMIT <= x <= CAPSULE_LIMIT,
        -CAPSULE_LIMIT <= y <= CAPSULE_LIMIT,
        0 < width <= CAPSULE_LIMIT,
        0 < height <= CAPSULE_LIMIT,
    ensures
        ({
            let path = capsule_outline(x, y, width, height);
            &&& path.len() == 10
            &&& path[0] is MoveTo && path[9] is Close
            &&& end_of(path[8]) == end_of(path[0])
            &&& forall|k: int|
                0 <= k < 9 ==> {
                    &&& x <= (#[trigger] end_of(path[k])).0 <= x + width
                    &&& y <= end_of(path[k]).1 <= y + height
                }
            &&& end_of(path[0]).1 == y && end_of(path[1]).1 == y
            &&& end_of(path[2]).0 == x + width && end_of(path[3]).0 == x + width
            &&& end_of(path[4]).1 == y + height && end_of(path[5]).1 == y + height
            &&& end_of(path[6]).0 == x && end_of(path[7]).0 == x
            &&& end_of(path[0]).0 + end_of(path[1]).0 == 2 * x + width
            &&& end_of(path[4]).0 + end_of(path[5]).0 == 2 * x + width
            &&& end_of(path[2]).1 + end_of(path[3]).1 == 2 * y + height
            &&& end_of(path[6]).1 + end_of(path[7]).1 == 2 * y + height
            &&& height <= width ==> end_of(path[3]).1 - end_of(path[2]).1 <= 1
        }),
{
    let path = capsule_outline(x, y, width, height);
    assert(path.len() == 10);
    assert forall|k: int| 0 <= k < 9 implies {
        &&& x <= (#[trigger] end_of(path[k])).0 <= x + width
        &&& y <= end_of(path[k]).1 <= y + height
    } by {
        if k == 0 {
        } else if k == 1 {
        } else if k == 2 {
        } else if k == 3 {
        } else if k == 4 {
        } else if k == 5 {
        } else if k == 6 {
        } else if k == 7 {
        }
    }
}

/// A region of rows ends where it is told to or at the bottom of the picture.
pub proof fn regions_end_in_the_picture(top: int, region_height: int, height: int)
    ensures
        region_end(top, region_height, height) <= height,
        region_end(top, region_height, height) <= top + region_height,
        region_end(top, region_height, height) == height || region_end(top, region_height, height)
            == top + region_height,
{
}

/// The body fills the frame up to its inset: 428 by 95.2 logical pixels, with
/// the bar 52 in from either side and 31.2 tall, and the ends of the pill are
/// half circles.
pub proof fn bodies_fill_the_frame(inset: int)
    ensures
        ({
            let b = body_at(inset);
            &&& b.left == inset && b.right == 4280 - inset
            &&& b.top == 312 + inset && b.bottom == 952 - inset
            &&& b.tab_left == 520 + inset && b.tab_right == 3760 - inset
            &&& b.tab_top == inset
            &&& 2 * b.radius == b.bottom - b.top
            &&& b.tab_left - b.left == b.right - b.tab_right
        }),
{
}

/// A quarter circle leaves and arrives along its tangents: each control point
/// lies 0.5522848 of the radius from its end, in the direction given for it.
pub proof fn curves_follow_their_tangents(
    from: (int, int),
    leaving: (int, int),
    radius: int,
    to: (int, int),
    arriving: (int, int),
)
    requires
        0 <= from.0 <= 5000,
        0 <= from.1 <= 5000,
        0 <= to.0 <= 5000,
        0 <= to.1 <= 5000,
        0 <= radius <= 5000,
        -1 <= leaving.0 <= 1,
        -1 <= leaving.1 <= 1,
        -1 <= arriving.0 <= 1,
        -1 <= arriving.1 <= 1,
    ensures
        curve(from, leaving, radius, to, arriving) matches PathStep::CubicTo(a, b, c, d, e, f) && {
            &&& a - from.0 * 10_000_000 == leaving.0 * (radius * 5_522_848)
            &&& b - from.1 * 10_000_000 == leaving.1 * (radius * 5_522_848)
            &&& c - to.0 * 10_000_000 == arriving.0 * (radius * 5_522_848)
            &&& d - to.1 * 10_000_000 == arriving.1 * (radius * 5_522_848)
            &&& e == to.0 * 10_000_000
            &&& f == to.1 * 10_000_000
        },
{
    let t = radius * 5_522_848;
    assert(-t <= leaving.0 * t <= t && -t <= leaving.1 * t <= t && -t <= arriving.0 * t <= t && -t
        <= arriving.1 * t <= t) by (nonlinear_arith)
        requires
            t >= 0,
            -1 <= leaving.0 <= 1,
            -1 <= leaving.1 <= 1,
            -1 <= arriving.0 <= 1,
            -1 <= arriving.1 <= 1,
    ;
}

} // verus!
