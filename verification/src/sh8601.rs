//! Framebuffer of the 360x360 AMOLED display and the transfers that bring it to
//! the controller.
//!
//! Pixels are RGB565, two bytes each, high byte first, row by row.

use vstd::prelude::*;

use crate::board::{DISPLAY_HEIGHT, DISPLAY_WIDTH};

verus! {

/// QSPI opcode for register/command writes (single-wire data).
pub const CMD_WRITE: u16 = 0x02;

/// QSPI opcode for pixel/color writes (quad-wire data).
pub const CMD_WRITE_COLOR: u16 = 0x32;

// MIPI DCS commands.
pub const COLMOD: u8 = 0x3A;

pub const CASET: u8 = 0x2A;

pub const RASET: u8 = 0x2B;

pub const RAMWR: u8 = 0x2C;

/// COLMOD value for RGB565 (16-bit color).
pub const COLMOD_RGB565: u8 = 0x55;

/// Pixels in a row, and rows.
pub const SIDE: usize = 360;

/// Framebuffer size in bytes: 360 x 360 x 2 (RGB565).
pub const FB_SIZE: usize = 259_200;

/// Bytes per display row (width x 2 for RGB565).
pub const ROW_BYTES: usize = 720;

/// Max bytes per QSPI write: must fit inside the DMA TX buffer.
pub const CHUNK_SIZE: usize = 30_000;

/// Whole rows per chunk (rounded down so each chunk ends on a row boundary).
pub const ROWS_PER_CHUNK: u16 = 41;

/// The framebuffer. Drawing writes to it; [`Sh8601::flush`] says how it gets to
/// the display.
pub struct Sh8601 {
    framebuffer: Vec<u8>,
}

/// A number of two bytes, high byte first.
pub open spec fn big_endian(hi: u8, lo: u8) -> u16 {
    (hi * 256 + lo) as u16
}

/// The pixels of a framebuffer, row by row.
pub open spec fn picture_of(bytes: Seq<u8>) -> Seq<u16> {
    Seq::new((SIDE * SIDE) as nat, |i: int| big_endian(bytes[2 * i], bytes[2 * i + 1]))
}

/// The coordinates are on the screen.
pub open spec fn on_screen(x: int, y: int) -> bool {
    0 <= x < SIDE && 0 <= y < SIDE
}

/// The pixel at the given coordinates.
pub open spec fn pixel(picture: Seq<u16>, x: int, y: int) -> u16 {
    picture[y * SIDE + x]
}

impl View for Sh8601 {
    /// The pixels, row by row.
    type V = Seq<u16>;

    closed spec fn view(&self) -> Seq<u16> {
        picture_of(self.framebuffer@)
    }
}

/// A part of the screen.
#[derive(Debug, Clone, Copy, PartialEq, Eq, Structural)]
pub struct Area {
    pub x: i32,
    pub y: i32,
    pub width: u32,
    pub height: u32,
}

impl Area {
    /// The sides and the far edges are numbers that coordinates can reach.
    pub open spec fn wf(self) -> bool {
        &&& self.width <= i32::MAX
        &&& self.height <= i32::MAX
        &&& self.x + self.width <= i32::MAX
        &&& self.y + self.height <= i32::MAX
    }

    /// The area has the pixel at the given coordinates.
    pub open spec fn has(self, x: int, y: int) -> bool {
        self.x <= x < self.x + self.width && self.y <= y < self.y + self.height
    }
}

pub open spec fn least(a: int, b: int) -> int {
    if a < b {
        a
    } else {
        b
    }
}

pub open spec fn greatest(a: int, b: int) -> int {
    if a > b {
        a
    } else {
        b
    }
}

/// What two areas have in common; of no size where that is nothing.
pub open spec fn common(a: Area, b: Area) -> (int, int, int, int) {
    let (left, right) = (greatest(a.x as int, b.x as int), least(a.x + a.width, b.x + b.width));
    let (top, bottom) = (greatest(a.y as int, b.y as int), least(a.y + a.height, b.y + b.height));
    if left < right && top < bottom {
        (left, top, right - left, bottom - top)
    } else {
        (0, 0, 0, 0)
    }
}

/// `Rectangle::intersection` of the `embedded-graphics-core` crate: the common
/// part of two rectangles, and a rectangle of no size where there is none. It
/// adds sizes to corners, so these have to be within the range of coordinates.
#[verifier::external_body]
fn intersection(a: Area, b: Area) -> (c: Area)
    requires
        a.wf(),
        b.wf(),
        b.x >= 0,
        b.y >= 0,
    ensures
        if common(a, b).2 > 0 {
            (c.x as int, c.y as int, c.width as int, c.height as int) == common(a, b)
        } else {
            c.width == 0 || c.height == 0
        },
{
    let first = embedded_graphics_core::primitives::Rectangle::new(
        embedded_graphics_core::geometry::Point::new(a.x, a.y),
        embedded_graphics_core::geometry::Size::new(a.width, a.height),
    );
    let second = embedded_graphics_core::primitives::Rectangle::new(
        embedded_graphics_core::geometry::Point::new(b.x, b.y),
        embedded_graphics_core::geometry::Size::new(b.width, b.height),
    );
    let c = first.intersection(&second);
    Area { x: c.top_left.x, y: c.top_left.y, width: c.size.width, height: c.size.height }
}

/// The screen as an area.
pub open spec fn screen() -> Area {
    Area { x: 0, y: 0, width: 360, height: 360 }
}

/// How far a fill of an area has come.
pub struct Fill {
    x0: usize,
    y0: usize,
    width: usize,
    height: usize,
    col: usize,
    row: usize,
}

/// What a [`Fill`] is at: the on-screen part of the area, and the place in it of
/// the next colour.
pub struct FillModel {
    pub x0: int,
    pub y0: int,
    pub width: int,
    pub height: int,
    pub col: int,
    pub row: int,
}

impl View for Fill {
    type V = FillModel;

    closed spec fn view(&self) -> FillModel {
        FillModel {
            x0: self.x0 as int,
            y0: self.y0 as int,
            width: self.width as int,
            height: self.height as int,
            col: self.col as int,
            row: self.row as int,
        }
    }
}

/// The start of filling an area.
pub open spec fn fill_of(area: Area) -> FillModel {
    let (x0, y0, width, height) = common(area, screen());
    FillModel { x0, y0, width, height, col: 0, row: 0 }
}

impl FillModel {
    /// Every pixel has been filled.
    pub open spec fn full(self) -> bool {
        self.row >= self.height
    }

    /// After one more colour.
    pub open spec fn advanced(self) -> FillModel {
        if self.col + 1 >= self.width {
            FillModel { col: 0, row: self.row + 1, ..self }
        } else {
            FillModel { col: self.col + 1, ..self }
        }
    }

    /// The pixel is in the on-screen part of the area.
    pub open spec fn has(self, x: int, y: int) -> bool {
        self.x0 <= x < self.x0 + self.width && self.y0 <= y < self.y0 + self.height
    }

    /// How many pixels of the area come before the given one, row by row.
    pub open spec fn index(self, x: int, y: int) -> int {
        (y - self.y0) * self.width + (x - self.x0)
    }

    /// The pixel comes before the place of the next colour.
    spec fn passed(self, x: int, y: int) -> bool {
        y - self.y0 < self.row || (y - self.y0 == self.row && x - self.x0 < self.col)
    }
}

/// The pixels of the area have the colours, as far as those go, and every other
/// pixel is as it was.
pub open spec fn filled(
    before: Seq<u16>,
    after: Seq<u16>,
    area: FillModel,
    colors: Seq<u16>,
) -> bool {
    forall|x: int, y: int|
        on_screen(x, y) ==> #[trigger] pixel(after, x, y) == if area.has(x, y) && area.index(x, y)
            < colors.len() {
            colors[area.index(x, y)]
        } else {
            pixel(before, x, y)
        }
}

proof fn lemma_passed(f: FillModel, x: int, y: int)
    requires
        f.has(x, y),
        0 <= f.col < f.width,
    ensures
        f.passed(x, y) <==> f.index(x, y) < f.row * f.width + f.col,
        f.index(x, y) >= 0,
        y - f.y0 == f.row && x - f.x0 == f.col ==> f.index(x, y) == f.row * f.width + f.col,
{
    let r = y - f.y0;
    let c = x - f.x0;
    let w = f.width;
    if r < f.row {
        assert(r * w + w <= f.row * w) by (nonlinear_arith)
            requires
                r + 1 <= f.row,
                w > 0,
        ;
    } else if r > f.row {
        assert(f.row * w + w <= r * w) by (nonlinear_arith)
            requires
                f.row + 1 <= r,
                w > 0,
        ;
    }
    assert(r * w >= 0) by (nonlinear_arith)
        requires
            r >= 0,
            w > 0,
    ;
}

impl Fill {
    /// The area is on the screen, and so is the next pixel, if there is one.
    pub closed spec fn wf(&self) -> bool {
        &&& self.x0 + self.width <= SIDE
        &&& self.y0 + self.height <= SIDE
        &&& self.row <= self.height
        &&& self.width > 0 ==> self.col < self.width
        &&& self.width == 0 ==> self.height == 0
    }

    /// The start of filling the on-screen part of `area`.
    pub fn new(area: Area) -> (f: Self)
        requires
            area.wf(),
        ensures
            f.wf(),
            f@ == fill_of(area),
    {
        let c = intersection(area, Area { x: 0, y: 0, width: 360, height: 360 });
        if c.width == 0 || c.height == 0 {
            Fill { x0: 0, y0: 0, width: 0, height: 0, col: 0, row: 0 }
        } else {
            Fill {
                x0: c.x as usize,
                y0: c.y as usize,
                width: c.width as usize,
                height: c.height as usize,
                col: 0,
                row: 0,
            }
        }
    }
}

impl Sh8601 {
    /// The framebuffer has its size.
    pub closed spec fn wf(&self) -> bool {
        self.framebuffer@.len() == FB_SIZE
    }

    /// A black framebuffer.
    pub fn new() -> (s: Self)
        ensures
            s.wf(),
            s@ == Seq::new((SIDE * SIDE) as nat, |i: int| 0u16),
    {
        let s = Sh8601 { framebuffer: vec![0u8; FB_SIZE] };
        assert(s@ =~= Seq::new((SIDE * SIDE) as nat, |i: int| 0u16));
        s
    }

    fn put(&mut self, x: usize, y: usize, color: u16)
        requires
            old(self).wf(),
            x < SIDE,
            y < SIDE,
        ensures
            final(self).wf(),
            final(self)@ == old(self)@.update(y * SIDE + x, color),
    {
        let at: usize = y * ROW_BYTES + x * 2;
        let hi: u8 = (color >> 8) as u8;
        let lo: u8 = (color & 0xFF) as u8;
        assert(((color >> 8) as u8) * 256 + ((color & 0xFF) as u8) == color) by (bit_vector);
        self.framebuffer.set(at, hi);
        self.framebuffer.set(at + 1, lo);
        assert(self@ =~= old(self)@.update(y * SIDE + x, color));
    }

    /// Paint one pixel. Outside the screen there is nothing to paint.
    pub fn draw_pixel(&mut self, x: i32, y: i32, color: u16)
        requires
            old(self).wf(),
        ensures
            final(self).wf(),
            final(self)@ == (if on_screen(x as int, y as int) {
                old(self)@.update(y * SIDE + x, color)
            } else {
                old(self)@
            }),
    {
        if x >= 0 && y >= 0 && x < 360 && y < 360 {
            self.put(x as usize, y as usize, color);
        }
    }

    /// Paint the whole screen.
    pub fn clear(&mut self, color: u16)
        requires
            old(self).wf(),
        ensures
            final(self).wf(),
            final(self)@ == Seq::new((SIDE * SIDE) as nat, |i: int| color),
    {
        let hi: u8 = (color >> 8) as u8;
        let lo: u8 = (color & 0xFF) as u8;
        assert(((color >> 8) as u8) * 256 + ((color & 0xFF) as u8) == color) by (bit_vector);
        let mut i: usize = 0;
        while i < SIDE * SIDE
            invariant
                i <= SIDE * SIDE,
                self.framebuffer@.len() == FB_SIZE,
                hi * 256 + lo == color,
                forall|k: int| 0 <= k < i ==> #[trigger] picture_of(self.framebuffer@)[k] == color,
            decreases SIDE * SIDE - i,
        {
            let ghost before = self.framebuffer@;
            self.framebuffer.set(2 * i, hi);
            self.framebuffer.set(2 * i + 1, lo);
            assert forall|k: int| 0 <= k < i + 1 implies #[trigger] picture_of(
                self.framebuffer@,
            )[k] == color by {
                if k < i {
                    assert(picture_of(before)[k] == color);
                }
            }
            i = i + 1;
        }
        assert(self@ =~= Seq::new((SIDE * SIDE) as nat, |i: int| color));
    }

    /// Give the next pixel of a fill its colour. False, with nothing painted,
    /// where every pixel has been filled.
    pub fn fill_next(&mut self, fill: &mut Fill, color: u16) -> (more: bool)
        requires
            old(self).wf(),
            old(fill).wf(),
        ensures
            final(self).wf(),
            final(fill).wf(),
            more == !old(fill)@.full(),
            more ==> {
                let (x, y) = (old(fill)@.x0 + old(fill)@.col, old(fill)@.y0 + old(fill)@.row);
                &&& on_screen(x, y)
                &&& final(self)@ == old(self)@.update(y * SIDE + x, color)
                &&& final(fill)@ == old(fill)@.advanced()
            },
            !more ==> *final(self) == *old(self) && *final(fill) == *old(fill),
    {
        if fill.row >= fill.height {
            return false;
        }
        let x: usize = fill.x0 + fill.col;
        let y: usize = fill.y0 + fill.row;
        self.put(x, y, color);
        fill.col = fill.col + 1;
        if fill.col >= fill.width {
            fill.col = 0;
            fill.row = fill.row + 1;
        }
        true
    }

    /// Fill the on-screen part of `area` with `colors`, row by row, until either
    /// comes to its end.
    pub fn fill_contiguous(&mut self, area: Area, colors: &[u16])
        requires
            old(self).wf(),
            area.wf(),
        ensures
            final(self).wf(),
            filled(old(self)@, final(self)@, fill_of(area), colors@),
    {
        let mut fill = Fill::new(area);
        let ghost start = fill@;
        let mut n: usize = 0;
        proof {
            assert(0 * start.width == 0) by (nonlinear_arith);
        }
        while n < colors.len()
            invariant
                n <= colors@.len(),
                self.wf(),
                old(self).wf(),
                fill.wf(),
                start == fill_of(area),
                fill@ == (FillModel { col: fill@.col, row: fill@.row, ..start }),
                start.height > 0 ==> start.width > 0 && 0 <= fill@.col < start.width,
                n == fill@.row * start.width + fill@.col,
                fill@.row >= 0,
                forall|x: int, y: int|
                    on_screen(x, y) ==> #[trigger] pixel(self@, x, y) == if start.has(x, y)
                        && fill@.passed(x, y) {
                        colors@[start.index(x, y)]
                    } else {
                        pixel(old(self)@, x, y)
                    },
            decreases colors@.len() - n,
        {
            let ghost before = self@;
            let ghost place = fill@;
            if !self.fill_next(&mut fill, colors[n]) {
                proof {
                    lemma_all_filled(old(self)@, self@, start, fill@, colors@);
                }
                return ;
            }
            proof {
                let (px, py) = (place.x0 + place.col, place.y0 + place.row);
                assert forall|x: int, y: int| on_screen(x, y) implies #[trigger] pixel(self@, x, y)
                    == if start.has(x, y) && fill@.passed(x, y) {
                    colors@[start.index(x, y)]
                } else {
                    pixel(old(self)@, x, y)
                } by {
                    assert(pixel(before, x, y) == if start.has(x, y) && place.passed(x, y) {
                        colors@[start.index(x, y)]
                    } else {
                        pixel(old(self)@, x, y)
                    });
                    if x == px && y == py {
                        lemma_passed(place, x, y);
                        assert(self@[y * SIDE + x] == colors@[n as int]);
                    } else {
                        assert(self@[y * SIDE + x] == before[y * SIDE + x]);
                    }
                }
                assert((place.row + 1) * start.width == place.row * start.width + start.width)
                    by (nonlinear_arith);
            }
            n = n + 1;
        }
        proof {
            lemma_all_filled(old(self)@, self@, start, fill@, colors@);
        }
    }
}

/// Once the colours or the area are at their end, the area is filled.
proof fn lemma_all_filled(
    before: Seq<u16>,
    after: Seq<u16>,
    start: FillModel,
    now: FillModel,
    colors: Seq<u16>,
)
    requires
        now == (FillModel { col: now.col, row: now.row, ..start }),
        start.height > 0 ==> start.width > 0 && 0 <= now.col < start.width,
        now.row >= 0,
        now.row * start.width + now.col <= colors.len(),
        now.full() || now.row * start.width + now.col == colors.len(),
        forall|x: int, y: int|
            on_screen(x, y) ==> #[trigger] pixel(after, x, y) == if start.has(x, y) && now.passed(
                x,
                y,
            ) {
                colors[start.index(x, y)]
            } else {
                pixel(before, x, y)
            },
    ensures
        filled(before, after, start, colors),
{
    assert forall|x: int, y: int| on_screen(x, y) implies #[trigger] pixel(after, x, y)
        == if start.has(x, y) && start.index(x, y) < colors.len() {
        colors[start.index(x, y)]
    } else {
        pixel(before, x, y)
    } by {
        if start.has(x, y) {
            lemma_passed(now, x, y);
        }
    }
}

/// The largest radius whose square is a number that coordinates can reach.
pub const MAX_RADIUS: i32 = 46_340;

pub open spec fn abs(n: int) -> int {
    if n < 0 {
        -n
    } else {
        n
    }
}

/// The radii of a ring can be squared.
pub open spec fn radii_wf(inner_r: i32, outer_r: i32) -> bool {
    outer_r <= MAX_RADIUS && -MAX_RADIUS <= inner_r <= MAX_RADIUS
}

/// The pixel at distance `(dx, dy)` from the centre is in the ring
/// [inner_r, outer_r].
pub open spec fn in_ring(inner_r: i32, outer_r: i32, dx: int, dy: int) -> bool {
    outer_r >= 0 && inner_r * inner_r <= dx * dx + dy * dy <= outer_r * outer_r
}

/// Where a pixel is in a ring, its distances from the centre are within the
/// outer radius.
proof fn lemma_in_ring(inner_r: i32, outer_r: i32, dx: int, dy: int)
    requires
        in_ring(inner_r, outer_r, dx, dy),
    ensures
        abs(dx) <= outer_r,
        abs(dy) <= outer_r,
{
    lemma_beyond(outer_r as int, dx, dy);
    lemma_beyond(outer_r as int, dy, dx);
}

/// A square, with another, exceeds that of a smaller number.
proof fn lemma_beyond(r: int, a: int, b: int)
    requires
        0 <= r,
    ensures
        abs(a) > r ==> a * a + b * b > r * r,
{
    if abs(a) > r {
        assert(a * a > r * r) by (nonlinear_arith)
            requires
                0 <= r,
                a > r || -a > r,
        ;
        assert(b * b >= 0) by (nonlinear_arith);
    }
}

/// The pixel at distance `(dx, dy)` from the centre is in the ring.
fn ring_covers(inner_r: i32, outer_r: i32, dx: i64, dy: i64) -> (r: bool)
    requires
        radii_wf(inner_r, outer_r),
    ensures
        r == in_ring(inner_r, outer_r, dx as int, dy as int),
{
    let outer: i64 = outer_r as i64;
    let inner: i64 = inner_r as i64;
    if outer < 0 {
        return false;
    }
    proof {
        lemma_beyond(outer as int, dx as int, dy as int);
        lemma_beyond(outer as int, dy as int, dx as int);
    }
    if dx > outer || dx < -outer || dy > outer || dy < -outer {
        return false;
    }
    assert(0 <= dx * dx <= 0x8000_0000) by (nonlinear_arith)
        requires
            -46_340 <= dx <= 46_340,
    ;
    assert(0 <= dy * dy <= 0x8000_0000) by (nonlinear_arith)
        requires
            -46_340 <= dy <= 46_340,
    ;
    assert(0 <= outer * outer <= 0x8000_0000) by (nonlinear_arith)
        requires
            0 <= outer <= 46_340,
    ;
    assert(0 <= inner * inner <= 0x8000_0000) by (nonlinear_arith)
        requires
            -46_340 <= inner <= 46_340,
    ;
    let d2: i64 = dx * dx + dy * dy;
    inner * inner <= d2 && d2 <= outer * outer
}

/// The pixel at `(x, y)` has the colour where the ring covers it and `keep`
/// says so, and else is as it was.
pub open spec fn ring_pixel<F: Fn(i32, i32) -> bool>(
    before: Seq<u16>,
    after: Seq<u16>,
    center: (i32, i32),
    radii: (i32, i32),
    color: u16,
    keep: F,
    x: int,
    y: int,
) -> bool {
    let (dx, dy) = (x - center.0, y - center.1);
    if in_ring(radii.0, radii.1, dx, dy) {
        exists|b: bool| #[trigger]
            call_ensures(keep, (dx as i32, dy as i32), b) && pixel(after, x, y) == if b {
                color
            } else {
                pixel(before, x, y)
            }
    } else {
        pixel(after, x, y) == pixel(before, x, y)
    }
}

/// The pixel is after the start of the fill arc, at 135 degrees.
pub open spec fn after_start(dx: int, dy: int) -> bool {
    dx + dy <= 0
}

/// The pixel is outside the wedge around 6 o'clock that a 270 degree arc leaves
/// open.
pub open spec fn outside_wedge(dx: int, dy: int) -> bool {
    dy <= abs(dx)
}

impl Sh8601 {
    /// Paint the pixels of a ring that `keep` selects, by their distance from
    /// the centre.
    fn paint_ring<F: Fn(i32, i32) -> bool>(
        &mut self,
        cx: i32,
        cy: i32,
        inner_r: i32,
        outer_r: i32,
        color: u16,
        keep: F,
    )
        requires
            old(self).wf(),
            radii_wf(inner_r, outer_r),
            forall|dx: i32, dy: i32| #[trigger] call_requires(keep, (dx, dy)),
        ensures
            final(self).wf(),
            forall|x: int, y: int|
                on_screen(x, y) ==> #[trigger] ring_pixel(
                    old(self)@,
                    final(self)@,
                    (cx, cy),
                    (inner_r, outer_r),
                    color,
                    keep,
                    x,
                    y,
                ),
    {
        let ghost before = self@;
        let mut y: usize = 0;
        while y < SIDE
            invariant
                y <= SIDE,
                self.wf(),
                before == old(self)@,
                radii_wf(inner_r, outer_r),
                forall|dx: i32, dy: i32| #[trigger] call_requires(keep, (dx, dy)),
                forall|px: int, py: int|
                    on_screen(px, py) && py < y ==> #[trigger] ring_pixel(
                        before,
                        self@,
                        (cx, cy),
                        (inner_r, outer_r),
                        color,
                        keep,
                        px,
                        py,
                    ),
                forall|px: int, py: int|
                    on_screen(px, py) && py >= y ==> #[trigger] pixel(self@, px, py) == pixel(
                        before,
                        px,
                        py,
                    ),
            decreases SIDE - y,
        {
            let dy: i64 = y as i64 - cy as i64;
            let ghost row_before = self@;
            let mut x: usize = 0;
            while x < SIDE
                invariant
                    x <= SIDE,
                    y < SIDE,
                    self.wf(),
                    dy == y - cy,
                    radii_wf(inner_r, outer_r),
                    forall|dx: i32, dy: i32| #[trigger] call_requires(keep, (dx, dy)),
                    forall|px: int, py: int|
                        on_screen(px, py) && (py != y || px >= x) ==> #[trigger] pixel(
                            self@,
                            px,
                            py,
                        ) == pixel(row_before, px, py),
                    forall|px: int|
                        0 <= px < x ==> #[trigger] ring_pixel(
                            row_before,
                            self@,
                            (cx, cy),
                            (inner_r, outer_r),
                            color,
                            keep,
                            px,
                            y as int,
                        ),
                decreases SIDE - x,
            {
                let ghost now = self@;
                let dx: i64 = x as i64 - cx as i64;
                if ring_covers(inner_r, outer_r, dx, dy) {
                    proof {
                        lemma_in_ring(inner_r, outer_r, dx as int, dy as int);
                    }
                    let b = keep(dx as i32, dy as i32);
                    if b {
                        self.put(x, y, color);
                    }
                    assert(ring_pixel(
                        row_before,
                        self@,
                        (cx, cy),
                        (inner_r, outer_r),
                        color,
                        keep,
                        x as int,
                        y as int,
                    )) by {
                        assert(pixel(now, x as int, y as int) == pixel(
                            row_before,
                            x as int,
                            y as int,
                        ));
                        assert(call_ensures(keep, (dx as i32, dy as i32), b));
                    }
                }
                proof {
                    assert forall|px: int, py: int|
                        on_screen(px, py) && (py != y || px != x) implies #[trigger] pixel(
                        self@,
                        px,
                        py,
                    ) == pixel(now, px, py) by {
                        assert(py * SIDE + px != y * SIDE + x);
                    }
                    assert forall|px: int| 0 <= px < x implies #[trigger] ring_pixel(
                        row_before,
                        self@,
                        (cx, cy),
                        (inner_r, outer_r),
                        color,
                        keep,
                        px,
                        y as int,
                    ) by {
                        assert(ring_pixel(
                            row_before,
                            now,
                            (cx, cy),
                            (inner_r, outer_r),
                            color,
                            keep,
                            px,
                            y as int,
                        ));
                        assert(pixel(self@, px, y as int) == pixel(now, px, y as int));
                    }
                    assert forall|px: int, py: int|
                        on_screen(px, py) && (py != y || px >= x + 1) implies #[trigger] pixel(
                        self@,
                        px,
                        py,
                    ) == pixel(row_before, px, py) by {
                        assert(pixel(now, px, py) == pixel(row_before, px, py));
                    }
                }
                x = x + 1;
            }
            proof {
                assert forall|px: int, py: int| on_screen(px, py) && py < y + 1 implies
                    #[trigger] ring_pixel(
                    before,
                    self@,
                    (cx, cy),
                    (inner_r, outer_r),
                    color,
                    keep,
                    px,
                    py,
                ) by {
                    if py < y {
                        assert(ring_pixel(
                            before,
                            row_before,
                            (cx, cy),
                            (inner_r, outer_r),
                            color,
                            keep,
                            px,
                            py,
                        ));
                        assert(pixel(self@, px, py) == pixel(row_before, px, py));
                    } else {
                        assert(ring_pixel(
                            row_before,
                            self@,
                            (cx, cy),
                            (inner_r, outer_r),
                            color,
                            keep,
                            px,
                            y as int,
                        ));
                        assert(pixel(row_before, px, py) == pixel(before, px, py));
                    }
                }
                assert forall|px: int, py: int| on_screen(px, py) && py >= y + 1 implies
                    #[trigger] pixel(self@, px, py) == pixel(before, px, py) by {
                    assert(pixel(self@, px, py) == pixel(row_before, px, py));
                    assert(pixel(row_before, px, py) == pixel(before, px, py));
                }
            }
            y = y + 1;
        }
    }
}

/// The row of a ring at distance `dy` from the centre does not end, nor does its
/// left half, left of the screen.
pub open spec fn row_reaches_screen(cx: i32, inner_r: i32, outer_r: i32, dy: int) -> bool {
    &&& cx >= 0 || cx * cx + dy * dy <= outer_r * outer_r
    &&& dy * dy < inner_r * inner_r ==> cx >= 0 && (cx + 1) * (cx + 1) + dy * dy > inner_r * inner_r
}

/// No row of the ring that is on the screen ends, or has its left half end, left
/// of the screen.
pub open spec fn reaches_screen(cx: i32, cy: i32, inner_r: i32, outer_r: i32) -> bool {
    forall|dy: int|
        -outer_r <= dy <= outer_r && 0 <= cy + dy < SIDE ==> #[trigger] row_reaches_screen(
            cx,
            inner_r,
            outer_r,
            dy,
        )
}

/// The pixel is in the part of the ring that a fill arc covers, given that it is
/// before the arc's end, or not. For sweeps up to 180 degrees it has to be
/// between start and end; beyond that, on one side of either.
pub open spec fn in_arc(dx: int, dy: int, before_end: bool, beyond_half: bool) -> bool {
    if beyond_half {
        after_start(dx, dy) || before_end
    } else {
        after_start(dx, dy) && before_end
    }
}

/// The pixel at `(x, y)` has the colour where the ring and the arc cover it, and
/// else is as it was. Whether it is before the arc's end is what `before_end`
/// says of its distance from the centre.
pub open spec fn arc_pixel<F: Fn(i32, i32) -> bool>(
    before: Seq<u16>,
    after: Seq<u16>,
    center: (i32, i32),
    radii: (i32, i32),
    color: u16,
    before_end: &F,
    beyond_half: bool,
    x: int,
    y: int,
) -> bool {
    let (dx, dy) = (x - center.0, y - center.1);
    if in_ring(radii.0, radii.1, dx, dy) {
        exists|e: bool| #[trigger]
            call_ensures(before_end, (dx as i32, dy as i32), e) && pixel(after, x, y) == if in_arc(
                dx,
                dy,
                e,
                beyond_half,
            ) {
                color
            } else {
                pixel(before, x, y)
            }
    } else {
        pixel(after, x, y) == pixel(before, x, y)
    }
}

impl Sh8601 {
    /// Fill the full 360 degree annular ring [inner_r, outer_r] at center
    /// (cx, cy).
    ///
    /// No angular check: the cap circles at the arc tips (which straddle the
    /// angular boundaries) are fully cleared along with the rest of the band.
    pub fn fill_ring(
        &mut self,
        cx: i32,
        cy: i32,
        inner_r: i32,
        outer_r: i32,
        color: u16,
    )
        requires
            old(self).wf(),
            radii_wf(inner_r, outer_r),
            reaches_screen(cx, cy, inner_r, outer_r),
        ensures
            final(self).wf(),
            forall|x: int, y: int|
                on_screen(x, y) ==> #[trigger] pixel(final(self)@, x, y) == if in_ring(
                    inner_r,
                    outer_r,
                    x - cx,
                    y - cy,
                ) {
                    color
                } else {
                    pixel(old(self)@, x, y)
                },
    {
        let keep = |dx: i32, dy: i32| -> (b: bool)
            ensures
                b,
            { true };
        self.paint_ring(cx, cy, inner_r, outer_r, color, keep);
        proof {
            assert forall|x: int, y: int| on_screen(x, y) implies #[trigger] pixel(self@, x, y)
                == if in_ring(inner_r, outer_r, x - cx, y - cy) {
                color
            } else {
                pixel(old(self)@, x, y)
            } by {
                assert(ring_pixel(
                    old(self)@,
                    self@,
                    (cx, cy),
                    (inner_r, outer_r),
                    color,
                    keep,
                    x,
                    y,
                ));
            }
        }
    }

    /// Fill the 270 degree arc ring (start=135, gap at bottom between 45 and
    /// 135 degrees).
    ///
    /// The excluded wedge around 6 o'clock is where `dy > |dx|`: an exact
    /// integer check, no trigonometry.
    pub fn fill_ring_270(
        &mut self,
        cx: i32,
        cy: i32,
        inner_r: i32,
        outer_r: i32,
        color: u16,
    )
        requires
            old(self).wf(),
            radii_wf(inner_r, outer_r),
        ensures
            final(self).wf(),
            forall|x: int, y: int|
                on_screen(x, y) ==> #[trigger] pixel(final(self)@, x, y) == if in_ring(
                    inner_r,
                    outer_r,
                    x - cx,
                    y - cy,
                ) && outside_wedge(x - cx, y - cy) {
                    color
                } else {
                    pixel(old(self)@, x, y)
                },
    {
        let keep = |dx: i32, dy: i32| -> (b: bool)
            ensures
                b == outside_wedge(dx as int, dy as int),
            { dy <= dx || dy as i64 <= -(dx as i64) };
        self.paint_ring(cx, cy, inner_r, outer_r, color, keep);
        proof {
            assert forall|x: int, y: int| on_screen(x, y) implies #[trigger] pixel(self@, x, y)
                == if in_ring(inner_r, outer_r, x - cx, y - cy) && outside_wedge(
                x - cx,
                y - cy,
            ) {
                color
            } else {
                pixel(old(self)@, x, y)
            } by {
                if in_ring(inner_r, outer_r, x - cx, y - cy) {
                    lemma_in_ring(inner_r, outer_r, x - cx, y - cy);
                }
                assert(ring_pixel(
                    old(self)@,
                    self@,
                    (cx, cy),
                    (inner_r, outer_r),
                    color,
                    keep,
                    x,
                    y,
                ));
            }
        }
    }

    /// Fill a partial arc of the ring [inner_r, outer_r], from 135 degrees on.
    ///
    /// Used for the white volume-fill portion. Two half-plane tests decide, the
    /// second of which, against the end's direction, is `before_end`, a test of
    /// the distance from the centre. `beyond_half` says that the arc sweeps more
    /// than 180 degrees: then passing one test is enough, which handles the case
    /// where the arc wraps past the half-plane boundary.
    pub fn fill_ring_arc<F: Fn(i32, i32) -> bool>(
        &mut self,
        cx: i32,
        cy: i32,
        inner_r: i32,
        outer_r: i32,
        before_end: &F,
        beyond_half: bool,
        color: u16,
    )
        requires
            old(self).wf(),
            radii_wf(inner_r, outer_r),
            forall|dx: i32, dy: i32| #[trigger] call_requires(before_end, (dx, dy)),
        ensures
            final(self).wf(),
            forall|x: int, y: int|
                on_screen(x, y) ==> #[trigger] arc_pixel(
                    old(self)@,
                    final(self)@,
                    (cx, cy),
                    (inner_r, outer_r),
                    color,
                    before_end,
                    beyond_half,
                    x,
                    y,
                ),
    {
        let keep = |dx: i32, dy: i32| -> (b: bool)
            requires
                call_requires(before_end, (dx, dy)),
            ensures
                exists|e: bool| #[trigger]
                    call_ensures(before_end, (dx, dy), e) && b == in_arc(
                        dx as int,
                        dy as int,
                        e,
                        beyond_half,
                    ),
            {
                let started = dx as i64 + dy as i64 <= 0;
                let e = before_end(dx, dy);
                if beyond_half {
                    started || e
                } else {
                    started && e
                }
            };
        self.paint_ring(cx, cy, inner_r, outer_r, color, keep);
        proof {
            assert forall|x: int, y: int| on_screen(x, y) implies #[trigger] arc_pixel(
                old(self)@,
                self@,
                (cx, cy),
                (inner_r, outer_r),
                color,
                before_end,
                beyond_half,
                x,
                y,
            ) by {
                if in_ring(inner_r, outer_r, x - cx, y - cy) {
                    lemma_in_ring(inner_r, outer_r, x - cx, y - cy);
                }
                assert(ring_pixel(
                    old(self)@,
                    self@,
                    (cx, cy),
                    (inner_r, outer_r),
                    color,
                    keep,
                    x,
                    y,
                ));
            }
        }
    }
}

/// At the full sweep the fill covers the track: an arc of 270 degrees, whose end
/// is the diagonal below the centre's right, is the 270 degree ring, but perhaps
/// for the pixels on that diagonal.
pub proof fn law_full_sweep_is_track<F: Fn(i32, i32) -> bool>(
    before: Seq<u16>,
    arc: Seq<u16>,
    track: Seq<u16>,
    center: (i32, i32),
    radii: (i32, i32),
    color: u16,
    before_end: &F,
    x: int,
    y: int,
)
    requires
        forall|dx: i32, dy: i32, e: bool| #[trigger]
            call_ensures(before_end, (dx, dy), e) && dx != dy ==> e == (dx >= dy),
        arc_pixel(before, arc, center, radii, color, before_end, true, x, y),
        pixel(track, x, y) == if in_ring(radii.0, radii.1, x - center.0, y - center.1)
            && outside_wedge(x - center.0, y - center.1) {
            color
        } else {
            pixel(before, x, y)
        },
        x - center.0 != y - center.1,
    ensures
        pixel(arc, x, y) == pixel(track, x, y),
{
    let (dx, dy) = (x - center.0, y - center.1);
    if in_ring(radii.0, radii.1, dx, dy) {
        lemma_in_ring(radii.0, radii.1, dx, dy);
    }
}

/// A step of bringing the framebuffer to the display.
#[derive(Debug, Clone, Copy, PartialEq, Eq, Structural)]
pub enum Transfer {
    /// Set the drawing window (column and row address range, ends included).
    Window { x0: u16, y0: u16, x1: u16, y1: u16 },
    /// Write the pixels of some rows, in quad mode.
    Rows { row: u16, rows: u16 },
}

/// The transfers of the rows `y0..=y1`, in chunks of whole rows, each with a
/// window of its own.
pub open spec fn chunks(y0: int, y1: int) -> Seq<Transfer>
    decreases y1 - y0 + 1,
{
    if y0 > y1 {
        Seq::empty()
    } else {
        let rows = least(ROWS_PER_CHUNK as int, y1 + 1 - y0);
        seq![
            Transfer::Window {
                x0: 0,
                y0: y0 as u16,
                x1: (DISPLAY_WIDTH - 1) as u16,
                y1: (y0 + rows - 1) as u16,
            },
            Transfer::Rows { row: y0 as u16, rows: rows as u16 },
        ] + chunks(y0 + rows, y1)
    }
}

impl Sh8601 {
    /// How the whole framebuffer gets to the display: a full-screen window, then
    /// the framebuffer in chunks. Per-chunk windows are used for reliability.
    pub fn flush(&self) -> (transfers: Vec<Transfer>)
        ensures
            transfers@ == seq![
                Transfer::Window {
                    x0: 0,
                    y0: 0,
                    x1: (DISPLAY_WIDTH - 1) as u16,
                    y1: (DISPLAY_HEIGHT - 1) as u16,
                },
            ] + chunks(0, DISPLAY_HEIGHT - 1),
    {
        let mut transfers: Vec<Transfer> = Vec::new();
        transfers.push(
            Transfer::Window { x0: 0, y0: 0, x1: DISPLAY_WIDTH - 1, y1: DISPLAY_HEIGHT - 1 },
        );
        let mut rows = self.flush_rows(0, DISPLAY_HEIGHT - 1);
        transfers.append(&mut rows);
        transfers
    }

    /// How a horizontal band of rows gets to the display.
    ///
    /// As [`Sh8601::flush`] but limited to rows `y0..=y1`, reducing the amount
    /// of data sent over QSPI when only a small region changed.
    pub fn flush_rows(&self, y0: u16, y1: u16) -> (transfers: Vec<Transfer>)
        ensures
            transfers@ == chunks(y0 as int, least(y1 as int, DISPLAY_HEIGHT - 1)),
    {
        let last: u16 = if y1 < DISPLAY_HEIGHT - 1 {
            y1
        } else {
            DISPLAY_HEIGHT - 1
        };
        let mut transfers: Vec<Transfer> = Vec::new();
        let mut row: u16 = y0;
        while row <= last
            invariant
                last < DISPLAY_HEIGHT,
                transfers@ + chunks(row as int, last as int) == chunks(y0 as int, last as int),
            decreases last + 1 - row,
        {
            let left: u16 = last + 1 - row;
            let rows: u16 = if ROWS_PER_CHUNK < left {
                ROWS_PER_CHUNK
            } else {
                left
            };
            let ghost rest = chunks(row + rows, last as int);
            let ghost so_far = transfers@;
            transfers.push(
                Transfer::Window { x0: 0, y0: row, x1: DISPLAY_WIDTH - 1, y1: row + rows - 1 },
            );
            transfers.push(Transfer::Rows { row, rows });
            assert(transfers@ + rest =~= so_far + chunks(row as int, last as int));
            row = row + rows;
        }
        assert(transfers@ =~= chunks(y0 as int, last as int));
        transfers
    }

    /// The bytes of some rows.
    pub fn row_bytes(&self, row: u16, rows: u16) -> (bytes: &[u8])
        requires
            self.wf(),
            row + rows <= DISPLAY_HEIGHT,
        ensures
            bytes@.len() == rows * ROW_BYTES,
            forall|i: int|
                0 <= i < rows * SIDE ==> big_endian(
                    #[trigger] bytes@[2 * i],
                    bytes@[2 * i + 1],
                ) == self@[row * SIDE + i],
    {
        let from: usize = row as usize * ROW_BYTES;
        let to: usize = from + rows as usize * ROW_BYTES;
        let bytes = vstd::slice::slice_subrange(self.framebuffer.as_slice(), from, to);
        assert forall|i: int| 0 <= i < rows * SIDE implies big_endian(
            #[trigger] bytes@[2 * i],
            bytes@[2 * i + 1],
        ) == self@[row * SIDE + i] by {
            assert(bytes@[2 * i] == self.framebuffer@[2 * (row * SIDE + i)]);
            assert(bytes@[2 * i + 1] == self.framebuffer@[2 * (row * SIDE + i) + 1]);
        }
        bytes
    }

    /// The parameters of the column and row address commands that set a window.
    pub fn window(x0: u16, y0: u16, x1: u16, y1: u16) -> (r: ([u8; 4], [u8; 4]))
        ensures
            big_endian(r.0@[0], r.0@[1]) == x0,
            big_endian(r.0@[2], r.0@[3]) == x1,
            big_endian(r.1@[0], r.1@[1]) == y0,
            big_endian(r.1@[2], r.1@[3]) == y1,
    {
        proof {
            lemma_bytes(x0);
            lemma_bytes(x1);
            lemma_bytes(y0);
            lemma_bytes(y1);
        }
        (
            [(x0 >> 8) as u8, (x0 & 0xFF) as u8, (x1 >> 8) as u8, (x1 & 0xFF) as u8],
            [(y0 >> 8) as u8, (y0 & 0xFF) as u8, (y1 >> 8) as u8, (y1 & 0xFF) as u8],
        )
    }

    /// The 24-bit address that goes with a register.
    pub fn register_address(reg: u8) -> (address: u32)
        ensures
            address == reg * 256,
    {
        assert((reg as u32) << 8 == reg * 256) by (bit_vector);
        (reg as u32) << 8
    }
}

proof fn lemma_bytes(n: u16)
    ensures
        big_endian((n >> 8) as u8, (n & 0xFF) as u8) == n,
{
    assert(((n >> 8) as u8) * 256 + ((n & 0xFF) as u8) == n) by (bit_vector);
}

/// The transfer brings the row to the display.
pub open spec fn brings(t: Transfer, row: int) -> bool {
    t matches Transfer::Rows { row: first, rows } && first <= row < first + rows
}

/// A flush of a band brings every row of it to the display, each in exactly one
/// transfer, and no other row. Each transfer fits into one write and follows
/// the window that it fills.
pub proof fn law_band_is_tiled(y0: int, y1: int, row: int)
    requires
        0 <= y0,
        y1 < DISPLAY_HEIGHT,
    ensures
        y0 <= row <= y1 ==> exists|i: int|
            0 <= i < chunks(y0, y1).len() && #[trigger] brings(chunks(y0, y1)[i], row),
        !(y0 <= row <= y1) ==> forall|i: int|
            0 <= i < chunks(y0, y1).len() ==> !#[trigger] brings(chunks(y0, y1)[i], row),
        forall|i: int, j: int|
            0 <= i < chunks(y0, y1).len() && 0 <= j < chunks(y0, y1).len() && #[trigger] brings(
                chunks(y0, y1)[i],
                row,
            ) && #[trigger] brings(chunks(y0, y1)[j], row) ==> i == j,
        forall|i: int|
            0 <= i < chunks(y0, y1).len() && chunks(y0, y1)[i] is Rows ==> {
                let t = #[trigger] chunks(y0, y1)[i];
                &&& t->rows * ROW_BYTES <= CHUNK_SIZE
                &&& i > 0
                &&& chunks(y0, y1)[i - 1] == (Transfer::Window {
                    x0: 0,
                    y0: t->row,
                    x1: (DISPLAY_WIDTH - 1) as u16,
                    y1: (t->row + t->rows - 1) as u16,
                })
            },
    decreases y1 - y0 + 1,
{
    if y0 <= y1 {
        let rows = least(ROWS_PER_CHUNK as int, y1 + 1 - y0);
        let all = chunks(y0, y1);
        let rest = chunks(y0 + rows, y1);
        law_band_is_tiled(y0 + rows, y1, row);
        assert(forall|i: int| 2 <= i < all.len() ==> all[i] == rest[i - 2]);
        assert(forall|i: int| 0 <= i < rest.len() ==> rest[i] == all[i + 2]);
        if y0 <= row < y0 + rows {
            assert(brings(all[1], row));
        } else if y0 + rows <= row <= y1 {
            let i = choose|i: int| 0 <= i < rest.len() && #[trigger] brings(rest[i], row);
            assert(brings(all[i + 2], row));
        }
        assert forall|i: int, j: int|
            0 <= i < all.len() && 0 <= j < all.len() && #[trigger] brings(all[i], row)
                && #[trigger] brings(all[j], row) implies i == j by {
            if i >= 2 {
                assert(brings(rest[i - 2], row));
            }
            if j >= 2 {
                assert(brings(rest[j - 2], row));
            }
        }
        assert forall|i: int| 0 <= i < all.len() && all[i] is Rows implies {
            let t = #[trigger] all[i];
            &&& t->rows * ROW_BYTES <= CHUNK_SIZE
            &&& i > 0
            &&& all[i - 1] == (Transfer::Window {
                x0: 0,
                y0: t->row,
                x1: (DISPLAY_WIDTH - 1) as u16,
                y1: (t->row + t->rows - 1) as u16,
            })
        } by {
            if i >= 2 {
                assert(rest[i - 2] is Rows);
                assert(all[i - 1] == rest[i - 3]);
            }
        }
    }
}

/// What two areas have in common are the pixels that both have.
pub proof fn law_common_is_in_both(a: Area, b: Area, x: int, y: int)
    ensures
        ({
            let (left, top, width, height) = common(a, b);
            (left <= x < left + width && top <= y < top + height) <==> (a.has(x, y) && b.has(x, y))
        }),
{
}

/// Colours fill an area row by row: the first goes to its upper left corner, and
/// each next one to the right of the one before, or to the start of the next row.
pub proof fn law_fill_order(f: FillModel, x: int, y: int)
    ensures
        f.index(f.x0, f.y0) == 0,
        f.index(x + 1, y) == f.index(x, y) + 1,
        f.index(f.x0, y + 1) == f.index(f.x0 + f.width - 1, y) + 1,
        f.has(x, y) <==> f.x0 <= x < f.x0 + f.width && f.y0 <= y < f.y0 + f.height,
        0 <= f.col < f.width ==> f.advanced().row * f.width + f.advanced().col == f.row * f.width
            + f.col + 1,
{
    assert((y + 1 - f.y0) * f.width == (y - f.y0) * f.width + f.width) by (nonlinear_arith);
    assert((f.row + 1) * f.width == f.row * f.width + f.width) by (nonlinear_arith);
}

/// A fill starts at the upper left of what the area and the screen share.
pub proof fn law_fill_is_clipped(area: Area, x: int, y: int)
    ensures
        fill_of(area).has(x, y) <==> area.has(x, y) && 0 <= x < 360 && 0 <= y < 360,
        fill_of(area).col == 0,
        fill_of(area).row == 0,
{
    law_common_is_in_both(area, screen(), x, y);
}

/// A 270 degree ring leaves open what lies more below the centre than beside it,
/// and has a mirror axis from top to bottom.
pub proof fn law_wedge_is_below(dx: int, dy: int)
    ensures
        outside_wedge(dx, dy) <==> !(dy > dx && dy > -dx),
        outside_wedge(-dx, dy) == outside_wedge(dx, dy),
        dy <= 0 ==> outside_wedge(dx, dy),
        dy > 0 ==> !outside_wedge(0, dy),
{
}

/// An arc begins at the diagonal below the centre's left and goes clockwise: up
/// to half a turn it has what is past the start and not past the end, and beyond
/// that what is either. Moving the end on only adds pixels.
pub proof fn law_arc_grows(dx: int, dy: int, near: bool, far: bool)
    ensures
        after_start(dx, dy) <==> dx <= -dy,
        in_arc(dx, dy, near, false) <==> dx + dy <= 0 && near,
        in_arc(dx, dy, near, true) <==> dx + dy <= 0 || near,
        near ==> far ==> in_arc(dx, dy, near, false) ==> in_arc(dx, dy, far, false),
        in_arc(dx, dy, near, false) ==> in_arc(dx, dy, far, true),
{
}

/// A ring has the pixels that are at least as far from the centre as the inner
/// radius and at most as far as the outer one; it looks the same from all sides,
/// and two rings that share a circle meet there.
pub proof fn law_ring_is_round(inner_r: i32, outer_r: i32, dx: int, dy: int)
    requires
        0 <= inner_r,
        0 <= outer_r,
    ensures
        in_ring(inner_r, outer_r, dx, dy) == in_ring(inner_r, outer_r, -dx, dy),
        in_ring(inner_r, outer_r, dx, dy) == in_ring(inner_r, outer_r, dy, dx),
        in_ring(inner_r, outer_r, dx, 0) <==> inner_r <= abs(dx) <= outer_r,
        in_ring(0, outer_r, dx, dy) <==> dx * dx + dy * dy <= outer_r * outer_r,
        in_ring(inner_r, outer_r, dx, dy) ==> in_ring(0, outer_r, dx, dy),
        in_ring(inner_r, outer_r, dx, dy) <==> in_ring(0, outer_r, dx, dy) && dx * dx + dy * dy
            >= inner_r * inner_r,
{
    assert((-dx) * (-dx) == dx * dx) by (nonlinear_arith);
    assert(dx * dx >= 0 && dy * dy >= 0) by (nonlinear_arith);
    assert(inner_r * inner_r >= 0) by (nonlinear_arith);
    assert(inner_r <= abs(dx) <==> inner_r * inner_r <= dx * dx) by (nonlinear_arith)
        requires
            inner_r >= 0,
            abs(dx) == dx && dx >= 0 || abs(dx) == -dx && dx < 0,
    ;
    assert(abs(dx) <= outer_r <==> dx * dx <= outer_r * outer_r) by (nonlinear_arith)
        requires
            outer_r >= 0,
            abs(dx) == dx && dx >= 0 || abs(dx) == -dx && dx < 0,
    ;
}

/// Every piece of rows that is transferred has a window of exactly these rows,
/// over the full width, just before it, and fits into one transfer.
pub proof fn law_windows_fit(y0: int, y1: int, k: int)
    requires
        0 <= y0,
        y1 < 360,
        0 <= k,
        2 * k < chunks(y0, y1).len(),
    ensures
        2 * k + 1 < chunks(y0, y1).len(),
        match (chunks(y0, y1)[2 * k], chunks(y0, y1)[2 * k + 1]) {
            (
                Transfer::Window { x0, y0: top, x1, y1: bottom },
                Transfer::Rows { row, rows },
            ) => {
                &&& x0 == 0
                &&& x1 == 359
                &&& top == row
                &&& bottom == row + rows - 1
                &&& rows > 0
                &&& rows * 720 <= 30000
                &&& y0 <= row
                &&& bottom <= y1
            },
            _ => false,
        },
    decreases y1 - y0 + 1,
{
    if y0 <= y1 {
        let rows = least(ROWS_PER_CHUNK as int, y1 + 1 - y0);
        let rest = chunks(y0 + rows, y1);
        if k > 0 {
            law_windows_fit(y0 + rows, y1, k - 1);
            assert(chunks(y0, y1)[2 * k] == rest[2 * (k - 1)]);
            assert(chunks(y0, y1)[2 * k + 1] == rest[2 * (k - 1) + 1]);
        } else {
            lemma_even(y0 + rows, y1);
        }
    }
}

/// Windows and pieces of rows come in pairs.
proof fn lemma_even(y0: int, y1: int)
    ensures
        chunks(y0, y1).len() % 2 == 0,
    decreases y1 - y0 + 1,
{
    if y0 <= y1 {
        lemma_even(y0 + least(ROWS_PER_CHUNK as int, y1 + 1 - y0), y1);
    }
}

} // verus!
