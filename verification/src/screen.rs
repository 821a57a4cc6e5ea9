//! What goes where on the round screen: layout, the volume bar's shapes, and
//! the rows that a change of volume touches.

use vstd::prelude::*;

verus! {

/// Icons are square; this is their side in pixels.
pub const ICON_SIZE: u32 = 64;

/// Bytes of a complete icon: two for each pixel.
pub const ICON_BYTES: usize = 8192;

pub const ICON_X: i32 = 148;

pub const ICON_Y: i32 = 60;

/// The statistics of the link, as the debug overlay shows them, stand in their
/// own band of rows.
pub const STATS_TOP: i32 = 248;

pub const STATS_HEIGHT: u32 = 22;

/// The app's name stands below the icon.
pub const NAME_X: i32 = 20;

pub const NAME_Y: i32 = 134;

pub const NAME_WIDTH: u32 = 320;

pub const NAME_HEIGHT: u32 = 40;

pub const NAME_BASELINE: i32 = 160;

/// Status labels stand in the centre band.
pub const LABEL_X: i32 = 30;

pub const LABEL_Y: i32 = 158;

pub const LABEL_WIDTH: u32 = 300;

pub const LABEL_HEIGHT: u32 = 90;

pub const LABEL_BASELINE: i32 = 210;

/// The horizontal centre of the screen.
pub const CENTRE: i32 = 180;

/// Baseline of the "NOT DETECTED" text.
pub const NOT_CONNECTED_BASELINE: i32 = 200;

/// Baseline of the statistics.
pub const STATS_BASELINE: i32 = 264;

/// Colours that the screen is drawn with.
#[derive(Debug, Clone, Copy, PartialEq, Eq, Structural)]
pub enum Colour {
    Black,
    DimGray,
    White,
}

/// How far an arc reaches, clockwise from the lower left.
#[derive(Debug, Clone, Copy, PartialEq, Eq, Structural)]
pub enum Sweep {
    /// The whole 270 degree track.
    Full,
    /// The part of the track that a volume (percent) fills.
    Volume(u8),
}

/// A place on the track's centre line.
#[derive(Debug, Clone, Copy, PartialEq, Eq, Structural)]
pub enum Place {
    /// Lower left end of the track.
    Start,
    /// Lower right end of the track.
    End,
    /// Where the part that a volume fills ends.
    Tip(u8),
}

/// One shape of the volume bar. The track's centre line is a circle of radius
/// 170 around (180, 180).
#[derive(Debug, Clone, Copy, PartialEq, Eq, Structural)]
pub enum Shape {
    /// A piece of the track, `stroke` pixels wide.
    Arc { sweep: Sweep, stroke: u32, colour: Colour },
    /// A filled circle around a place.
    Cap { place: Place, diameter: u32, colour: Colour },
}

/// Width of the visible bar.
pub const STROKE: u32 = 14;

/// Width that is wiped before the bar is drawn. It covers radii 154-186, which
/// brackets the bar's 163-177 and the caps at its ends.
pub const WIPE_STROKE: u32 = 32;

/// Centre of the cap at the track's start.
pub const CAP_START: (i32, i32) = (60, 300);

/// Centre of the cap at the track's end.
pub const CAP_END: (i32, i32) = (300, 300);

/// A track of one colour with a cap at each end.
pub open spec fn track(stroke: u32, colour: Colour) -> Seq<Shape> {
    seq![
        Shape::Arc { sweep: Sweep::Full, stroke, colour },
        Shape::Cap { place: Place::Start, diameter: stroke, colour },
        Shape::Cap { place: Place::End, diameter: stroke, colour },
    ]
}

/// The filled part of the bar: nothing at volume zero.
pub open spec fn filling(volume: u8) -> Seq<Shape> {
    if volume == 0 {
        Seq::empty()
    } else {
        seq![
            Shape::Arc { sweep: Sweep::Volume(volume), stroke: STROKE, colour: Colour::White },
            Shape::Cap { place: Place::Start, diameter: STROKE, colour: Colour::White },
            Shape::Cap { place: Place::Tip(volume), diameter: STROKE, colour: Colour::White },
        ]
    }
}

/// The shapes of the bar at the given volume.
pub open spec fn bar(volume: u8) -> Seq<Shape> {
    track(WIPE_STROKE, Colour::Black) + track(STROKE, Colour::DimGray) + filling(volume)
}

/// The shapes, in drawing order, of a circular bar on the outer edge that shows
/// `volume` (0-100).
///
/// A 270 degree track (lower-left, over the top, lower-right) is drawn in dim
/// gray; the filled portion grows clockwise from lower-left proportional to
/// volume. Filled circles at each cap give a rounded end-cap appearance. The
/// bar's footprint is wiped first so that nothing of the prior frame survives.
pub fn volume_bar(volume: u8) -> (shapes: Vec<Shape>)
    ensures
        shapes@ == bar(volume),
{
    let mut shapes: Vec<Shape> = vec![
        Shape::Arc { sweep: Sweep::Full, stroke: WIPE_STROKE, colour: Colour::Black },
        Shape::Cap { place: Place::Start, diameter: WIPE_STROKE, colour: Colour::Black },
        Shape::Cap { place: Place::End, diameter: WIPE_STROKE, colour: Colour::Black },
        Shape::Arc { sweep: Sweep::Full, stroke: STROKE, colour: Colour::DimGray },
        Shape::Cap { place: Place::Start, diameter: STROKE, colour: Colour::DimGray },
        Shape::Cap { place: Place::End, diameter: STROKE, colour: Colour::DimGray },
    ];
    if volume > 0 {
        shapes.push(
            Shape::Arc { sweep: Sweep::Volume(volume), stroke: STROKE, colour: Colour::White },
        );
        shapes.push(
            Shape::Cap { place: Place::Start, diameter: STROKE, colour: Colour::White },
        );
        shapes.push(
            Shape::Cap { place: Place::Tip(volume), diameter: STROKE, colour: Colour::White },
        );
    }
    assert(shapes@ =~= bar(volume));
    shapes
}

/// How far a cap reaches from its centre, with one pixel to spare.
pub const CAP_REACH: i32 = 8;

/// Rows of the arc's highest point and of its leftmost and rightmost points.
pub const TOP_ROW: i32 = 10;

pub const SIDE_ROW: i32 = 180;

/// The last row of the screen.
pub const LAST_ROW: i32 = 359;

/// Going from one volume to the other passes over the angle `deg` of the sweep.
pub open spec fn passes(prev: u8, new: u8, deg: int) -> bool {
    let lo = if prev < new { prev } else { new };
    let hi = if prev < new { new } else { prev };
    270 * lo <= 100 * deg <= 270 * hi
}

/// Row of the fill's end: its tip, or the track's start where nothing is filled.
pub open spec fn end_row(volume: u8, tip_row: int) -> int {
    if volume > 0 {
        tip_row
    } else {
        CAP_START.1 as int
    }
}

/// A row around which the bar may look different after the volume went from
/// `prev` to `new`.
pub open spec fn touched(prev: u8, prev_tip: int, new: u8, new_tip: int, row: int) -> bool {
    ||| row == end_row(prev, prev_tip)
    ||| row == end_row(new, new_tip)
    ||| row == TOP_ROW && passes(prev, new, 135)
    ||| row == SIDE_ROW && (passes(prev, new, 45) || passes(prev, new, 225))
}

/// The `(y0, y1)` row range of the screen that differs between the bar at
/// `prev` and the bar at `new`, where the fills' tips are at the rows
/// `prev_tip` and `new_tip`: the smallest that reaches `CAP_REACH` beyond each
/// row that the change touches.
pub fn volume_dirty_rows(prev: u8, prev_tip: i32, new: u8, new_tip: i32) -> (rows: (u16, u16))
    requires
        TOP_ROW <= prev_tip <= 350,
        TOP_ROW <= new_tip <= 350,
    ensures
        prev == new ==> rows == (0u16, 0u16),
        prev != new ==> {
            &&& forall|row: int| #[trigger]
                touched(prev, prev_tip as int, new, new_tip as int, row) ==> rows.0 + CAP_REACH
                    <= row <= rows.1 - CAP_REACH
            &&& touched(prev, prev_tip as int, new, new_tip as int, rows.0 + CAP_REACH)
            &&& touched(prev, prev_tip as int, new, new_tip as int, rows.1 - CAP_REACH)
            &&& rows.1 <= LAST_ROW
        },
{
    if prev == new {
        return (0, 0);
    }
    let prev_end: i32 = if prev > 0 {
        prev_tip
    } else {
        CAP_START.1
    };
    let new_end: i32 = if new > 0 {
        new_tip
    } else {
        CAP_START.1
    };
    let mut top: i32 = prev_end;
    let mut bottom: i32 = new_end;
    if new_end < prev_end {
        top = new_end;
        bottom = prev_end;
    }
    let lo: u32 = if prev < new {
        270 * prev as u32
    } else {
        270 * new as u32
    };
    let hi: u32 = if prev < new {
        270 * new as u32
    } else {
        270 * prev as u32
    };
    // Arc top: 135 degrees of the sweep.
    if lo <= 13_500 && hi >= 13_500 {
        top = TOP_ROW;
    }
    // Arc left and right mid-points: 45 and 225 degrees.
    if (lo <= 4_500 && hi >= 4_500) || (lo <= 22_500 && hi >= 22_500) {
        if top > SIDE_ROW {
            top = SIDE_ROW;
        }
        if bottom < SIDE_ROW {
            bottom = SIDE_ROW;
        }
    }
    let rows: (u16, u16) = ((top - CAP_REACH) as u16, (bottom + CAP_REACH) as u16);
    assert(touched(prev, prev_tip as int, new, new_tip as int, top as int));
    assert(touched(prev, prev_tip as int, new, new_tip as int, bottom as int));
    rows
}

/// The rows that a change of volume touches do not depend on its direction.
pub proof fn law_dirty_rows_symmetric(
    prev: u8,
    prev_tip: int,
    new: u8,
    new_tip: int,
    row: int,
)
    ensures
        touched(prev, prev_tip, new, new_tip, row) == touched(new, new_tip, prev, prev_tip, row),
{
}

/// The shape's colour.
pub open spec fn colour_of(shape: Shape) -> Colour {
    match shape {
        Shape::Arc { colour, .. } => colour,
        Shape::Cap { colour, .. } => colour,
    }
}

/// How wide the shape is across the track.
pub open spec fn width_of(shape: Shape) -> u32 {
    match shape {
        Shape::Arc { stroke, .. } => stroke,
        Shape::Cap { diameter, .. } => diameter,
    }
}

/// The angle that a sweep covers, in hundredths of a degree.
pub open spec fn angle_of(sweep: Sweep) -> int {
    match sweep {
        Sweep::Full => 27000,
        Sweep::Volume(v) => 270 * v,
    }
}

/// The shape is an arc of the filled part.
pub open spec fn is_fill(shape: Shape) -> bool {
    shape is Arc && colour_of(shape) == Colour::White
}

/// The bar shows the volume: there is one white arc, none at zero, and it covers
/// as much of the track's 270 degrees as the volume is of 100. So a louder
/// volume has a longer arc.
pub proof fn law_bar_shows_volume(v: u8, w: u8, i: int, j: int)
    requires
        0 <= i < bar(v).len(),
        0 <= j < bar(w).len(),
    ensures
        v > 0 ==> exists|k: int| 0 <= k < bar(v).len() && is_fill(#[trigger] bar(v)[k]),
        is_fill(bar(v)[i]) ==> v > 0 && 100 * angle_of(bar(v)[i]->sweep) == 27000 * v,
        is_fill(bar(v)[i]) && v == w && is_fill(bar(w)[j]) ==> i == j,
        is_fill(bar(v)[i]) && is_fill(bar(w)[j]) && v < w ==> angle_of(bar(v)[i]->sweep)
            < angle_of(bar(w)[j]->sweep),
{
    if v > 0 {
        assert(is_fill(bar(v)[6]));
    }
}

/// The filled part has round ends where it starts and where it ends, and nowhere
/// else; at zero nothing is white.
pub proof fn law_fill_has_round_ends(v: u8, i: int)
    requires
        0 <= i < bar(v).len(),
    ensures
        colour_of(bar(v)[i]) == Colour::White ==> v > 0,
        colour_of(bar(v)[i]) == Colour::White && bar(v)[i] is Cap ==> bar(v)[i]->place
            == Place::Start || bar(v)[i]->place == Place::Tip(v),
        v > 0 ==> bar(v).contains(
            Shape::Cap { place: Place::Start, diameter: 14, colour: Colour::White },
        ),
        v > 0 ==> bar(v).contains(
            Shape::Cap { place: Place::Tip(v), diameter: 14, colour: Colour::White },
        ),
{
    if v > 0 {
        assert(bar(v)[7] == Shape::Cap {
            place: Place::Start,
            diameter: 14,
            colour: Colour::White,
        });
        assert(bar(v)[8] == Shape::Cap {
            place: Place::Tip(v),
            diameter: 14,
            colour: Colour::White,
        });
    }
}

/// Whatever the volume, the whole track is wiped before it is drawn, and drawn
/// before it is filled: wiping comes first and is wider than all that follows,
/// the gray track comes before what is white, and both have the full sweep with
/// a cap at either end.
pub proof fn law_bar_is_wiped_first(v: u8, i: int, j: int)
    requires
        0 <= i < bar(v).len(),
        0 <= j < bar(v).len(),
    ensures
        colour_of(bar(v)[i]) == Colour::Black && colour_of(bar(v)[j]) != Colour::Black ==> i < j
            && width_of(bar(v)[i]) > width_of(bar(v)[j]),
        colour_of(bar(v)[i]) == Colour::DimGray && colour_of(bar(v)[j]) == Colour::White ==> i < j
            && width_of(bar(v)[i]) == width_of(bar(v)[j]),
        colour_of(bar(v)[i]) != Colour::White ==> match bar(v)[i] {
            Shape::Arc { sweep, .. } => angle_of(sweep) == 27000,
            Shape::Cap { place, .. } => place == Place::Start || place == Place::End,
        },
        has_track(bar(v), Colour::Black, 32),
        has_track(bar(v), Colour::DimGray, 14),
{
    let s = bar(v);
    assert(s[0] == Shape::Arc { sweep: Sweep::Full, stroke: 32, colour: Colour::Black });
    assert(s[1] == Shape::Cap { place: Place::Start, diameter: 32, colour: Colour::Black });
    assert(s[2] == Shape::Cap { place: Place::End, diameter: 32, colour: Colour::Black });
    assert(s[3] == Shape::Arc { sweep: Sweep::Full, stroke: 14, colour: Colour::DimGray });
    assert(s[4] == Shape::Cap { place: Place::Start, diameter: 14, colour: Colour::DimGray });
    assert(s[5] == Shape::Cap { place: Place::End, diameter: 14, colour: Colour::DimGray });
}

/// The shapes have the whole track, and both of its ends, in a colour.
pub open spec fn has_track(shapes: Seq<Shape>, colour: Colour, width: u32) -> bool {
    &&& shapes.contains(Shape::Arc { sweep: Sweep::Full, stroke: width, colour })
    &&& shapes.contains(Shape::Cap { place: Place::Start, diameter: width, colour })
    &&& shapes.contains(Shape::Cap { place: Place::End, diameter: width, colour })
}

/// The rows that a change of volume touches: those of both ends of the fill, the
/// top of the arc where the change goes over half the volume, and the middle of
/// the screen where it goes over a sixth or five sixths of it. An empty fill
/// ends at the track's start.
pub proof fn law_rows_of_a_change(low: u8, low_tip: int, high: u8, high_tip: int, row: int)
    requires
        low < high,
    ensures
        touched(low, low_tip, high, high_tip, high_tip),
        low > 0 ==> touched(low, low_tip, high, high_tip, low_tip),
        low == 0 ==> touched(low, low_tip, high, high_tip, 300),
        low <= 50 <= high ==> touched(low, low_tip, high, high_tip, 10),
        6 * low <= 100 <= 6 * high || 6 * low <= 500 <= 6 * high ==> touched(
            low,
            low_tip,
            high,
            high_tip,
            180,
        ),
        touched(low, low_tip, high, high_tip, row) ==> {
            ||| row == high_tip
            ||| row == low_tip && low > 0
            ||| row == 300 && low == 0
            ||| row == 10 && low <= 50 <= high
            ||| row == 180 && (6 * low <= 100 <= 6 * high || 6 * low <= 500 <= 6 * high)
        },
{
}

} // verus!
