//! Working out where a window belongs on the screen it is on.
//!
//! Everything here is integer arithmetic over an [`Area`] and a [`Rect`] in
//! physical pixels. The module that knows what a state is builds the candidate
//! [`Slot`]s and hands them over, which keeps the placement maths testable
//! without a display.

use vstd::prelude::*;

verus! {

/// A place on the monitor's work area to hold a window against.
///
/// Nine slots: the four corners, the middle of each of the four edges, and the
/// centre.
#[derive(Clone, Copy, Debug, PartialEq, Eq, Hash, Structural)]
pub enum Anchor {
    TopLeft,
    Top,
    TopRight,
    Left,
    Center,
    Right,
    BottomLeft,
    Bottom,
    BottomRight,
}

/// Where a window sits on one axis.
#[derive(Clone, Copy, Debug, PartialEq, Eq, Structural)]
pub enum Align {
    Start,
    Center,
    End,
}

/// Every slot, in reading order.
pub const ALL_ANCHORS: [Anchor; 9] = [
    Anchor::TopLeft,
    Anchor::Top,
    Anchor::TopRight,
    Anchor::Left,
    Anchor::Center,
    Anchor::Right,
    Anchor::BottomLeft,
    Anchor::Bottom,
    Anchor::BottomRight,
];

/// The four corners: what `snapTo` defaults to.
pub const CORNERS: [Anchor; 4] = [
    Anchor::TopLeft,
    Anchor::TopRight,
    Anchor::BottomLeft,
    Anchor::BottomRight,
];

/// The four corners, as a sequence.
pub open spec fn corner_seq() -> Seq<Anchor> {
    seq![Anchor::TopLeft, Anchor::TopRight, Anchor::BottomLeft, Anchor::BottomRight]
}

/// The nine slots in reading order, as a sequence.
pub open spec fn all_anchor_seq() -> Seq<Anchor> {
    seq![
        Anchor::TopLeft,
        Anchor::Top,
        Anchor::TopRight,
        Anchor::Left,
        Anchor::Center,
        Anchor::Right,
        Anchor::BottomLeft,
        Anchor::Bottom,
        Anchor::BottomRight,
    ]
}

/// The corners, as a fresh list.
pub fn corners() -> (v: Vec<Anchor>)
    ensures
        v@ == corner_seq(),
{
    let v = vec![Anchor::TopLeft, Anchor::TopRight, Anchor::BottomLeft, Anchor::BottomRight];
    assert(v@ =~= corner_seq());
    v
}

/// Every slot in reading order, as a fresh list.
pub fn all_anchors() -> (v: Vec<Anchor>)
    ensures
        v@ == all_anchor_seq(),
{
    let v = vec![
        Anchor::TopLeft,
        Anchor::Top,
        Anchor::TopRight,
        Anchor::Left,
        Anchor::Center,
        Anchor::Right,
        Anchor::BottomLeft,
        Anchor::Bottom,
        Anchor::BottomRight,
    ];
    assert(v@ =~= all_anchor_seq());
    v
}

impl Anchor {
    /// The alignment of this slot across the screen.
    pub open spec fn horizontal(self) -> Align {
        match self {
            Anchor::TopLeft | Anchor::Left | Anchor::BottomLeft => Align::Start,
            Anchor::Top | Anchor::Center | Anchor::Bottom => Align::Center,
            Anchor::TopRight | Anchor::Right | Anchor::BottomRight => Align::End,
        }
    }

    /// The alignment of this slot down the screen.
    pub open spec fn vertical(self) -> Align {
        match self {
            Anchor::TopLeft | Anchor::Top | Anchor::TopRight => Align::Start,
            Anchor::Left | Anchor::Center | Anchor::Right => Align::Center,
            Anchor::BottomLeft | Anchor::Bottom | Anchor::BottomRight => Align::End,
        }
    }

    /// Docked to exactly one edge and centred along it.
    pub open spec fn spec_is_side(self) -> bool {
        self == Anchor::Top || self == Anchor::Right || self == Anchor::Bottom || self
            == Anchor::Left
    }

    /// Runs up and down the screen.
    pub open spec fn spec_runs_vertically(self) -> bool {
        self == Anchor::Left || self == Anchor::Right
    }

    /// Alignment on the horizontal and vertical axes, in that order.
    pub fn aligns(self) -> (r: (Align, Align))
        ensures
            r == (self.horizontal(), self.vertical()),
    {
        match self {
            Anchor::TopLeft => (Align::Start, Align::Start),
            Anchor::Top => (Align::Center, Align::Start),
            Anchor::TopRight => (Align::End, Align::Start),
            Anchor::Left => (Align::Start, Align::Center),
            Anchor::Center => (Align::Center, Align::Center),
            Anchor::Right => (Align::End, Align::Center),
            Anchor::BottomLeft => (Align::Start, Align::End),
            Anchor::Bottom => (Align::Center, Align::End),
            Anchor::BottomRight => (Align::End, Align::End),
        }
    }

    /// Whether this slot is docked to one edge and centred along it.
    ///
    /// True for the four edge middles and nothing else. A corner touches two
    /// edges, so "the edge it is docked to" has no answer there, and the centre
    /// touches none.
    pub fn is_side(self) -> (r: bool)
        ensures
            r == self.spec_is_side(),
    {
        match self {
            Anchor::Top | Anchor::Right | Anchor::Bottom | Anchor::Left => true,
            _ => false,
        }
    }

    /// Whether a window in this slot runs up and down the screen.
    pub fn runs_vertically(self) -> (r: bool)
        ensures
            r == self.spec_runs_vertically(),
    {
        match self {
            Anchor::Left | Anchor::Right => true,
            _ => false,
        }
    }
}

/// Each slot is one cell of the three-by-three grid of alignments: no two
/// slots share a pair, and every pair is some slot.
pub proof fn lemma_anchors_are_the_alignment_grid(a: Anchor, b: Anchor, h: Align, v: Align)
    ensures
        (a.horizontal() == b.horizontal() && a.vertical() == b.vertical()) ==> a == b,
        exists|c: Anchor| c.horizontal() == h && c.vertical() == v,
{
    let c = match (h, v) {
        (Align::Start, Align::Start) => Anchor::TopLeft,
        (Align::Center, Align::Start) => Anchor::Top,
        (Align::End, Align::Start) => Anchor::TopRight,
        (Align::Start, Align::Center) => Anchor::Left,
        (Align::Center, Align::Center) => Anchor::Center,
        (Align::End, Align::Center) => Anchor::Right,
        (Align::Start, Align::End) => Anchor::BottomLeft,
        (Align::Center, Align::End) => Anchor::Bottom,
        (Align::End, Align::End) => Anchor::BottomRight,
    };
    assert(c.horizontal() == h && c.vertical() == v);
}

/// A side slot is centred on exactly one axis, a corner on neither, the centre
/// on both; and a slot runs vertically exactly when it is a side slot centred
/// down the screen.
pub proof fn lemma_sides_corners_and_centre(a: Anchor)
    ensures
        a.spec_is_side() <==> ((a.horizontal() == Align::Center) != (a.vertical()
            == Align::Center)),
        corner_seq().contains(a) <==> (a.horizontal() != Align::Center && a.vertical()
            != Align::Center),
        a == Anchor::Center <==> (a.horizontal() == Align::Center && a.vertical()
            == Align::Center),
        a.spec_runs_vertically() <==> (a.spec_is_side() && a.vertical() == Align::Center),
{
    if a.horizontal() != Align::Center && a.vertical() != Align::Center {
        let i = match a {
            Anchor::TopLeft => 0int,
            Anchor::TopRight => 1,
            Anchor::BottomLeft => 2,
            _ => 3,
        };
        assert(corner_seq()[i] == a);
    }
}

/// The reading order: row by row from the top, left to right within a row.
pub proof fn lemma_all_anchors_in_reading_order(row: int, col: int)
    requires
        0 <= row < 3,
        0 <= col < 3,
    ensures
        all_anchor_seq().len() == 9,
        all_anchor_seq()[3 * row + col].vertical() == align_at(row),
        all_anchor_seq()[3 * row + col].horizontal() == align_at(col),
{
}

/// The alignment of the `i`-th row or column, counting from the start.
pub open spec fn align_at(i: int) -> Align {
    if i == 0 {
        Align::Start
    } else if i == 1 {
        Align::Center
    } else {
        Align::End
    }
}

/// A position in physical pixels.
#[derive(Clone, Copy, Debug, PartialEq, Eq, Structural)]
pub struct PhysicalPosition {
    pub x: i32,
    pub y: i32,
}

impl PhysicalPosition {
    pub fn new(x: i32, y: i32) -> (p: Self)
        ensures
            p.x == x,
            p.y == y,
    {
        PhysicalPosition { x, y }
    }
}

/// A size in physical pixels.
#[derive(Clone, Copy, Debug, PartialEq, Eq, Structural)]
pub struct PhysicalSize {
    pub width: u32,
    pub height: u32,
}

impl PhysicalSize {
    pub fn new(width: u32, height: u32) -> (s: Self)
        ensures
            s.width == width,
            s.height == height,
    {
        PhysicalSize { width, height }
    }
}

/// A monitor's work area: the screen minus the taskbar.
#[derive(Clone, Copy, Debug, PartialEq, Eq, Structural)]
pub struct Area {
    pub position: PhysicalPosition,
    pub size: PhysicalSize,
}

/// Where a window is and how big it is, as one value.
#[derive(Clone, Copy, Debug, PartialEq, Eq, Structural)]
pub struct Rect {
    pub position: PhysicalPosition,
    pub size: PhysicalSize,
}

/// The rectangle a window would occupy if it snapped to one anchor.
#[derive(Clone, Copy, Debug, PartialEq, Eq, Structural)]
pub struct Slot {
    pub anchor: Anchor,
    pub rect: Rect,
}

/// Whether a mathematical integer is representable as an `i32`.
pub open spec fn in_i32(v: int) -> bool {
    i32::MIN <= v <= i32::MAX
}

/// A pixel length read as the signed number the arithmetic works in: the same
/// bits reinterpreted, as a cast from `u32` to `i32` does.
pub open spec fn signed(v: u32) -> int {
    (v as i32) as int
}

/// Halving as integer division by two does it: rounding towards zero.
pub open spec fn half(v: int) -> int {
    if v >= 0 {
        v / 2
    } else {
        -((-v) / 2)
    }
}

/// Where a window of `window` pixels starts on an axis of `length` pixels
/// beginning at `start`, held with `align` and a gap of `margin` from the edge
/// it is held against. No gap applies on a centred axis.
pub open spec fn place(start: int, length: int, window: int, align: Align, margin: int) -> int {
    match align {
        Align::Start => start + margin,
        Align::Center => start + half(length - window),
        Align::End => start + length - window - margin,
    }
}

/// Every intermediate value in working out [`place`] fits in an `i32`.
pub open spec fn place_fits(
    start: int,
    length: int,
    window: int,
    align: Align,
    margin: int,
) -> bool {
    match align {
        Align::Start => in_i32(start + margin),
        Align::Center => in_i32(length - window) && in_i32(start + half(length - window)),
        Align::End => in_i32(start + length) && in_i32(start + length - window) && in_i32(
            start + length - window - margin,
        ),
    }
}

/// Where a window of `size` sits when held against `anchor` in `area`.
pub open spec fn spec_anchor_position(
    area: Area,
    size: PhysicalSize,
    anchor: Anchor,
    margin: i32,
) -> PhysicalPosition {
    PhysicalPosition {
        x: place(
            area.position.x as int,
            signed(area.size.width),
            signed(size.width),
            anchor.horizontal(),
            margin as int,
        ) as i32,
        y: place(
            area.position.y as int,
            signed(area.size.height),
            signed(size.height),
            anchor.vertical(),
            margin as int,
        ) as i32,
    }
}

/// Working out [`spec_anchor_position`] overflows nowhere.
pub open spec fn anchor_fits(area: Area, size: PhysicalSize, anchor: Anchor, margin: i32) -> bool {
    &&& place_fits(
        area.position.x as int,
        signed(area.size.width),
        signed(size.width),
        anchor.horizontal(),
        margin as int,
    )
    &&& place_fits(
        area.position.y as int,
        signed(area.size.height),
        signed(size.height),
        anchor.vertical(),
        margin as int,
    )
}

/// Every slot can be worked out without overflowing on any monitor whose work
/// area starts within 2^30 pixels of the origin, either side of it, and whose
/// sizes and margin stay within 2^28 pixels: a monitor left of or above the
/// primary one, at negative coordinates, included.
pub proof fn lemma_every_real_monitor_fits(
    area: Area,
    size: PhysicalSize,
    anchor: Anchor,
    margin: i32,
)
    requires
        -0x4000_0000 <= area.position.x <= 0x4000_0000,
        -0x4000_0000 <= area.position.y <= 0x4000_0000,
        area.size.width <= 0x1000_0000,
        area.size.height <= 0x1000_0000,
        size.width <= 0x1000_0000,
        size.height <= 0x1000_0000,
        -0x1000_0000 <= margin <= 0x1000_0000,
    ensures
        anchor_fits(area, size, anchor, margin),
{
    lemma_signed_small(area.size.width);
    lemma_signed_small(area.size.height);
    lemma_signed_small(size.width);
    lemma_signed_small(size.height);
    lemma_small_axis_fits(
        area.position.x as int,
        signed(area.size.width),
        signed(size.width),
        anchor.horizontal(),
        margin as int,
    );
    lemma_small_axis_fits(
        area.position.y as int,
        signed(area.size.height),
        signed(size.height),
        anchor.vertical(),
        margin as int,
    );
}

proof fn lemma_small_axis_fits(start: int, length: int, window: int, align: Align, margin: int)
    requires
        -0x4000_0000 <= start <= 0x4000_0000,
        0 <= length <= 0x1000_0000,
        0 <= window <= 0x1000_0000,
        -0x1000_0000 <= margin <= 0x1000_0000,
    ensures
        place_fits(start, length, window, align, margin),
{
    lemma_half_bounds(length - window);
}

proof fn lemma_signed_small(v: u32)
    requires
        v <= 0x2000_0000,
    ensures
        signed(v) == v,
{
}

/// The rectangle a window of `size` occupies when held against `anchor`.
pub open spec fn anchored_rect(area: Area, size: PhysicalSize, anchor: Anchor, margin: i32) -> Rect {
    Rect { position: spec_anchor_position(area, size, anchor, margin), size }
}

proof fn lemma_half_bounds(v: int)
    ensures
        v >= 0 ==> 0 <= half(v) <= v,
        v < 0 ==> v <= half(v) <= 0,
        v >= 0 ==> 2 * half(v) <= v <= 2 * half(v) + 1,
{
}

fn halve(v: i32) -> (r: i32)
    ensures
        r == half(v as int),
{
    v / 2
}

/// One axis of [`anchor_position`].
pub fn place_axis(
    area_start: i32,
    area_length: i32,
    window_length: i32,
    align: Align,
    edge_margin: i32,
) -> (r: i32)
    requires
        place_fits(
            area_start as int,
            area_length as int,
            window_length as int,
            align,
            edge_margin as int,
        ),
    ensures
        r as int == place(
            area_start as int,
            area_length as int,
            window_length as int,
            align,
            edge_margin as int,
        ),
{
    match align {
        Align::Start => area_start + edge_margin,
        Align::Center => area_start + halve(area_length - window_length),
        Align::End => area_start + area_length - window_length - edge_margin,
    }
}

/// Where a window of `size` sits when held against `anchor`.
///
/// `edge_margin` is a gap from the edges the window is held against. It is not
/// applied to a centred axis: there is no edge there to be away from.
pub fn anchor_position(
    area: &Area,
    size: PhysicalSize,
    anchor: Anchor,
    edge_margin: i32,
) -> (p: PhysicalPosition)
    requires
        anchor_fits(*area, size, anchor, edge_margin),
    ensures
        p == spec_anchor_position(*area, size, anchor, edge_margin),
        p.x as int == place(
            area.position.x as int,
            signed(area.size.width),
            signed(size.width),
            anchor.horizontal(),
            edge_margin as int,
        ),
        p.y as int == place(
            area.position.y as int,
            signed(area.size.height),
            signed(size.height),
            anchor.vertical(),
            edge_margin as int,
        ),
        anchor.horizontal() == Align::Center ==> p.x == area.position.x + half(
            signed(area.size.width) - signed(size.width),
        ),
        anchor.vertical() == Align::Center ==> p.y == area.position.y + half(
            signed(area.size.height) - signed(size.height),
        ),
{
    let (horizontal, vertical) = anchor.aligns();
    PhysicalPosition::new(
        place_axis(
            area.position.x,
            area.size.width as i32,
            size.width as i32,
            horizontal,
            edge_margin,
        ),
        place_axis(
            area.position.y,
            area.size.height as i32,
            size.height as i32,
            vertical,
            edge_margin,
        ),
    )
}

/// Whether [`place_fits`] holds, worked out without overflowing.
fn place_fits_exec(start: i32, length: i32, window: i32, align: Align, margin: i32) -> (b: bool)
    ensures
        b == place_fits(start as int, length as int, window as int, align, margin as int),
{
    let s = start as i64;
    let l = length as i64;
    let w = window as i64;
    let m = margin as i64;
    let lo = i32::MIN as i64;
    let hi = i32::MAX as i64;
    match align {
        Align::Start => lo <= s + m && s + m <= hi,
        Align::Center => {
            let d = l - w;
            if !(lo <= d && d <= hi) {
                false
            } else {
                let h = halve(d as i32) as i64;
                lo <= s + h && s + h <= hi
            }
        },
        Align::End => {
            let a = s + l;
            let b = a - w;
            let c = b - m;
            lo <= a && a <= hi && lo <= b && b <= hi && lo <= c && c <= hi
        },
    }
}

/// Whether [`anchor_position`] can be worked out for these arguments without
/// overflowing.
pub fn anchor_fits_exec(area: &Area, size: PhysicalSize, anchor: Anchor, edge_margin: i32) -> (b:
    bool)
    ensures
        b == anchor_fits(*area, size, anchor, edge_margin),
{
    let (horizontal, vertical) = anchor.aligns();
    place_fits_exec(
        area.position.x,
        area.size.width as i32,
        size.width as i32,
        horizontal,
        edge_margin,
    ) && place_fits_exec(
        area.position.y,
        area.size.height as i32,
        size.height as i32,
        vertical,
        edge_margin,
    )
}

/// The centre of a rectangle, with each half-length rounded towards zero.
pub open spec fn spec_centre(r: Rect) -> PhysicalPosition {
    PhysicalPosition {
        x: (r.position.x + half(signed(r.size.width))) as i32,
        y: (r.position.y + half(signed(r.size.height))) as i32,
    }
}

/// Working out the centre of `r` overflows nowhere.
pub open spec fn centre_fits(r: Rect) -> bool {
    in_i32(r.position.x + half(signed(r.size.width))) && in_i32(
        r.position.y + half(signed(r.size.height)),
    )
}

impl Rect {
    pub fn new(position: PhysicalPosition, size: PhysicalSize) -> (r: Self)
        ensures
            r.position == position,
            r.size == size,
    {
        Rect { position, size }
    }

    /// The point half way across and half way down.
    pub fn centre(&self) -> (c: PhysicalPosition)
        requires
            centre_fits(*self),
        ensures
            c == spec_centre(*self),
            c.x == self.position.x + half(signed(self.size.width)),
            c.y == self.position.y + half(signed(self.size.height)),
    {
        PhysicalPosition::new(
            self.position.x + halve(self.size.width as i32),
            self.position.y + halve(self.size.height as i32),
        )
    }
}

/// Whether [`Rect::centre`] can be worked out without overflowing.
pub fn centre_fits_exec(r: &Rect) -> (b: bool)
    ensures
        b == centre_fits(*r),
{
    let x = r.position.x as i64 + halve(r.size.width as i32) as i64;
    let y = r.position.y as i64 + halve(r.size.height as i32) as i64;
    i32::MIN as i64 <= x && x <= i32::MAX as i64 && i32::MIN as i64 <= y && y <= i32::MAX as i64
}

/// The squared distance between two points.
pub open spec fn distance_sq(a: PhysicalPosition, b: PhysicalPosition) -> int {
    (a.x - b.x) * (a.x - b.x) + (a.y - b.y) * (a.y - b.y)
}

/// Measuring the squared distance as [`nearest`] does overflows nowhere: the
/// differences fit an `i32` and the sum of squares fits an `i64`.
pub open spec fn distance_fits(a: PhysicalPosition, b: PhysicalPosition) -> bool {
    in_i32(a.x - b.x) && in_i32(a.y - b.y) && distance_sq(a, b) <= i64::MAX
}

proof fn lemma_square_of_i32(d: int)
    requires
        in_i32(d),
    ensures
        0 <= d * d <= 0x4000_0000_0000_0000,
{
    assert(0 <= d * d <= 0x4000_0000_0000_0000) by (nonlinear_arith)
        requires
            -0x8000_0000 <= d <= 0x7fff_ffff,
    ;
}

fn distance_key(a: PhysicalPosition, b: PhysicalPosition) -> (k: i64)
    requires
        distance_fits(a, b),
    ensures
        k == distance_sq(a, b),
{
    let dx = (a.x - b.x) as i64;
    let dy = (a.y - b.y) as i64;
    proof {
        lemma_square_of_i32(dx as int);
        lemma_square_of_i32(dy as int);
    }
    dx * dx + dy * dy
}

/// Whether [`distance_fits`] holds, worked out without overflowing.
pub fn distance_fits_exec(a: PhysicalPosition, b: PhysicalPosition) -> (r: bool)
    ensures
        r == distance_fits(a, b),
{
    let dx = a.x as i64 - b.x as i64;
    let dy = a.y as i64 - b.y as i64;
    if !(i32::MIN as i64 <= dx && dx <= i32::MAX as i64 && i32::MIN as i64 <= dy && dy
        <= i32::MAX as i64) {
        return false;
    }
    proof {
        lemma_square_of_i32(dx as int);
        lemma_square_of_i32(dy as int);
    }
    let sx = dx * dx;
    let sy = dy * dy;
    sx <= i64::MAX - sy
}

/// How far the centre of a slot's landing rectangle is from `centre`, squared.
pub open spec fn slot_key(s: Slot, centre: PhysicalPosition) -> int {
    distance_sq(spec_centre(s.rect), centre)
}

/// Every slot's centre, and its distance from `centre`, can be measured
/// without overflowing.
pub open spec fn nearest_fits(centre: PhysicalPosition, slots: Seq<Slot>) -> bool {
    forall|i: int|
        0 <= i < slots.len() ==> centre_fits(#[trigger] slots[i].rect) && distance_fits(
            spec_centre(slots[i].rect),
            centre,
        )
}

/// Slot `i` is centred nearest `centre`, and no earlier slot is as near.
pub open spec fn is_first_nearest(slots: Seq<Slot>, centre: PhysicalPosition, i: int) -> bool {
    &&& 0 <= i < slots.len()
    &&& forall|j: int| 0 <= j < slots.len() ==> slot_key(slots[i], centre) <= slot_key(#[trigger] slots[j], centre)
    &&& forall|j: int| 0 <= j < i ==> slot_key(slots[i], centre) < slot_key(#[trigger] slots[j], centre)
}

/// At most one slot is the first nearest.
pub proof fn lemma_first_nearest_is_unique(slots: Seq<Slot>, centre: PhysicalPosition, i: int, k: int)
    requires
        is_first_nearest(slots, centre, i),
        is_first_nearest(slots, centre, k),
    ensures
        i == k,
{
    if i < k {
        assert(slot_key(slots[k], centre) < slot_key(slots[i], centre));
    } else if k < i {
        assert(slot_key(slots[i], centre) < slot_key(slots[k], centre));
    }
}

/// A slot centred strictly nearer than every other is the one picked, wherever
/// it stands in the list; of slots tied for nearest, the earliest is picked
/// and a later one never is.
pub proof fn lemma_ties_go_to_the_earlier_slot(
    slots: Seq<Slot>,
    centre: PhysicalPosition,
    a: int,
    b: int,
)
    requires
        0 <= a < slots.len(),
    ensures
        (forall|j: int|
            0 <= j < slots.len() && j != a ==> slot_key(slots[a], centre) < slot_key(
                #[trigger] slots[j],
                centre,
            )) ==> is_first_nearest(slots, centre, a),
        (a < b < slots.len() && slot_key(slots[a], centre) == slot_key(slots[b], centre))
            ==> !is_first_nearest(slots, centre, b),
{
}

/// Whether [`nearest_fits`] holds, worked out without overflowing.
pub fn nearest_fits_exec(centre: PhysicalPosition, slots: &[Slot]) -> (b: bool)
    ensures
        b == nearest_fits(centre, slots@),
{
    let mut i: usize = 0;
    while i < slots.len()
        invariant
            0 <= i <= slots@.len(),
            forall|j: int|
                0 <= j < i ==> centre_fits(#[trigger] slots@[j].rect) && distance_fits(
                    spec_centre(slots@[j].rect),
                    centre,
                ),
        decreases slots@.len() - i,
    {
        let rect = slots[i].rect;
        if !centre_fits_exec(&rect) {
            return false;
        }
        if !distance_fits_exec(rect.centre(), centre) {
            return false;
        }
        i += 1;
    }
    true
}

/// The slot whose landing rectangle is centred nearest `centre`.
///
/// Centres are compared rather than nearest edges, so every slot stays
/// winnable without any thresholds. Ties go to whichever slot comes first in
/// `slots`.
pub fn nearest(centre: PhysicalPosition, slots: &[Slot]) -> (found: Option<Slot>)
    requires
        nearest_fits(centre, slots@),
    ensures
        found is None <==> slots@.len() == 0,
        found matches Some(s) ==> exists|i: int|
            is_first_nearest(slots@, centre, i) && s == #[trigger] slots@[i],
{
    if slots.len() == 0 {
        return None;
    }
    assert(centre_fits(slots@[0].rect));
    let mut best: usize = 0;
    let mut best_key: i64 = distance_key(slots[0].rect.centre(), centre);
    let mut i: usize = 1;
    while i < slots.len()
        invariant
            1 <= i <= slots@.len(),
            best < i,
            nearest_fits(centre, slots@),
            best_key == slot_key(slots@[best as int], centre),
            forall|j: int| 0 <= j < i ==> best_key <= slot_key(#[trigger] slots@[j], centre),
            forall|j: int| 0 <= j < best ==> best_key < slot_key(#[trigger] slots@[j], centre),
        decreases slots@.len() - i,
    {
        assert(centre_fits(slots@[i as int].rect));
        let key = distance_key(slots[i].rect.centre(), centre);
        if key < best_key {
            best = i;
            best_key = key;
        }
        i += 1;
    }
    let s = slots[best];
    assert(is_first_nearest(slots@, centre, best as int));
    Some(s)
}

/// Comparing centres keeps every slot winnable: a window dropped with its
/// centre on a slot's centre picks that slot, whenever no other slot shares
/// that centre.
pub proof fn lemma_every_slot_is_winnable(slots: Seq<Slot>, i: int)
    requires
        0 <= i < slots.len(),
        forall|j: int|
            0 <= j < slots.len() && j != i ==> spec_centre(#[trigger] slots[j].rect) != spec_centre(
                slots[i].rect,
            ),
    ensures
        is_first_nearest(slots, spec_centre(slots[i].rect), i),
{
    let c = spec_centre(slots[i].rect);
    assert(slot_key(slots[i], c) == 0);
    assert forall|j: int| 0 <= j < slots.len() implies slot_key(slots[i], c) <= slot_key(
        #[trigger] slots[j],
        c,
    ) by {
        let p = spec_centre(slots[j].rect);
        assert((p.x - c.x) * (p.x - c.x) >= 0) by (nonlinear_arith);
        assert((p.y - c.y) * (p.y - c.y) >= 0) by (nonlinear_arith);
    }
    assert forall|j: int| 0 <= j < i implies slot_key(slots[i], c) < slot_key(
        #[trigger] slots[j],
        c,
    ) by {
        let p = spec_centre(slots[j].rect);
        let dx = p.x - c.x;
        let dy = p.y - c.y;
        assert(dx != 0 || dy != 0);
        assert(dx * dx >= 0) by (nonlinear_arith);
        assert(dy * dy >= 0) by (nonlinear_arith);
        assert(dx != 0 ==> dx * dx > 0) by (nonlinear_arith);
        assert(dy != 0 ==> dy * dy > 0) by (nonlinear_arith);
    }
}

/// Whether `r` lies wholly inside `area`.
pub open spec fn inside(r: Rect, area: Area) -> bool {
    &&& area.position.x <= r.position.x
    &&& area.position.y <= r.position.y
    &&& r.position.x + r.size.width <= area.position.x + area.size.width
    &&& r.position.y + r.size.height <= area.position.y + area.size.height
}

/// A window that fits with a margin to spare on each side lands wholly inside
/// the work area whichever slot it is held against, and is held exactly the
/// margin away from each edge it is held against.
pub proof fn lemma_anchored_window_stays_inside(
    area: Area,
    size: PhysicalSize,
    anchor: Anchor,
    margin: i32,
)
    requires
        anchor_fits(area, size, anchor, margin),
        margin >= 0,
        area.size.width <= i32::MAX,
        area.size.height <= i32::MAX,
        size.width + 2 * margin <= area.size.width,
        size.height + 2 * margin <= area.size.height,
    ensures
        inside(anchored_rect(area, size, anchor, margin), area),
        anchor.horizontal() == Align::Start ==> spec_anchor_position(area, size, anchor, margin).x
            - area.position.x == margin,
        anchor.horizontal() == Align::End ==> (area.position.x + area.size.width) - (
        spec_anchor_position(area, size, anchor, margin).x + size.width) == margin,
        anchor.vertical() == Align::Start ==> spec_anchor_position(area, size, anchor, margin).y
            - area.position.y == margin,
        anchor.vertical() == Align::End ==> (area.position.y + area.size.height) - (
        spec_anchor_position(area, size, anchor, margin).y + size.height) == margin,
{
    lemma_half_bounds(area.size.width - size.width);
    lemma_half_bounds(area.size.height - size.height);
    assert(signed(area.size.width) == area.size.width);
    assert(signed(area.size.height) == area.size.height);
    assert(signed(size.width) == size.width);
    assert(signed(size.height) == size.height);
}

/// A centred axis takes no margin, so the margin does not move it.
pub proof fn lemma_centred_axis_ignores_margin(
    area: Area,
    size: PhysicalSize,
    anchor: Anchor,
    m1: i32,
    m2: i32,
)
    ensures
        anchor.horizontal() == Align::Center ==> spec_anchor_position(area, size, anchor, m1).x
            == spec_anchor_position(area, size, anchor, m2).x,
        anchor.vertical() == Align::Center ==> spec_anchor_position(area, size, anchor, m1).y
            == spec_anchor_position(area, size, anchor, m2).y,
{
}

/// A window stretched to the length of an edge less one margin per end, and
/// centred along it, clears both ends of that edge by exactly the margin.
pub proof fn lemma_full_stretch_clears_both_ends(length: u32, start: i32, margin: i32)
    requires
        length <= i32::MAX,
        margin >= 0,
        length - 2 * margin >= 1,
    ensures
        place(start as int, length as int, length - 2 * margin, Align::Center, margin as int)
            == start + margin,
        place(start as int, length as int, length - 2 * margin, Align::Center, margin as int) + (
        length - 2 * margin) == start + length - margin,
{
    assert(half(2 * margin) == margin);
}

/// One step of moving a window.
#[derive(Clone, Copy, Debug, PartialEq, Eq, Structural)]
pub enum MoveStep {
    /// Resize about the window's own top-left corner.
    Resize(PhysicalSize),
    /// Move without resizing.
    Reposition(PhysicalPosition),
}

/// Where a window is after one step.
pub open spec fn after_step(r: Rect, step: MoveStep) -> Rect {
    match step {
        MoveStep::Resize(size) => Rect { position: r.position, size },
        MoveStep::Reposition(position) => Rect { position, size: r.size },
    }
}

/// The rectangle the window occupies after each step in turn.
pub open spec fn trail(r: Rect, steps: Seq<MoveStep>) -> Seq<Rect>
    decreases steps.len(),
{
    if steps.len() == 0 {
        seq![]
    } else {
        let next = after_step(r, steps[0]);
        seq![next] + trail(next, steps.drop_first())
    }
}

/// The smaller of the two sizes on each axis.
pub open spec fn waypoint(a: PhysicalSize, b: PhysicalSize) -> PhysicalSize {
    PhysicalSize {
        width: if a.width <= b.width { a.width } else { b.width },
        height: if a.height <= b.height { a.height } else { b.height },
    }
}

/// Shrink to the per-axis minimum of the two sizes, move, then grow; a step
/// that would change nothing is left out.
pub open spec fn spec_move_steps(from: PhysicalSize, target: Rect) -> Seq<MoveStep> {
    let w = waypoint(from, target.size);
    let shrink: Seq<MoveStep> = if w != from {
        seq![MoveStep::Resize(w)]
    } else {
        seq![]
    };
    let grow: Seq<MoveStep> = if target.size != w {
        seq![MoveStep::Resize(target.size)]
    } else {
        seq![]
    };
    shrink + seq![MoveStep::Reposition(target.position)] + grow
}

/// The steps that move and resize a window of size `from` into `target`
/// without it ever occupying a rectangle outside the work area.
pub fn move_steps(from: PhysicalSize, target: Rect) -> (steps: Vec<MoveStep>)
    ensures
        steps@ == spec_move_steps(from, target),
{
    let w = PhysicalSize::new(
        if from.width <= target.size.width {
            from.width
        } else {
            target.size.width
        },
        if from.height <= target.size.height {
            from.height
        } else {
            target.size.height
        },
    );
    let mut steps: Vec<MoveStep> = Vec::new();
    if w != from {
        steps.push(MoveStep::Resize(w));
    }
    steps.push(MoveStep::Reposition(target.position));
    if target.size != w {
        steps.push(MoveStep::Resize(target.size));
    }
    assert(steps@ =~= spec_move_steps(from, target));
    steps
}

/// Moving a window that is inside the work area into a target that is inside
/// it never leaves the work area on the way, and ends exactly on the target.
pub proof fn lemma_move_never_leaves_the_work_area(area: Area, current: Rect, target: Rect)
    requires
        inside(current, area),
        inside(target, area),
    ensures
        ({
            let path = trail(current, spec_move_steps(current.size, target));
            &&& path.len() >= 1
            &&& path.last() == target
            &&& forall|k: int| 0 <= k < path.len() ==> inside(#[trigger] path[k], area)
        }),
        current.size == target.size ==> spec_move_steps(current.size, target).len() == 1,
{
    let w = waypoint(current.size, target.size);
    let steps = spec_move_steps(current.size, target);
    let r1 = Rect { position: current.position, size: w };
    let r2 = Rect { position: target.position, size: w };
    if w != current.size {
        if target.size != w {
            assert(steps =~= seq![
                MoveStep::Resize(w),
                MoveStep::Reposition(target.position),
                MoveStep::Resize(target.size),
            ]);
            assert(trail(current, steps) =~= seq![r1, r2, target]) by {
                reveal_with_fuel(trail, 4);
                assert(steps.drop_first() =~= seq![
                    MoveStep::Reposition(target.position),
                    MoveStep::Resize(target.size),
                ]);
                assert(steps.drop_first().drop_first() =~= seq![MoveStep::Resize(target.size)]);
                assert(steps.drop_first().drop_first().drop_first() =~= Seq::<MoveStep>::empty());
            }
        } else {
            assert(steps =~= seq![MoveStep::Resize(w), MoveStep::Reposition(target.position)]);
            assert(trail(current, steps) =~= seq![r1, r2]) by {
                reveal_with_fuel(trail, 3);
                assert(steps.drop_first() =~= seq![MoveStep::Reposition(target.position)]);
                assert(steps.drop_first().drop_first() =~= Seq::<MoveStep>::empty());
            }
        }
    } else {
        if target.size != w {
            assert(steps =~= seq![
                MoveStep::Reposition(target.position),
                MoveStep::Resize(target.size),
            ]);
            assert(trail(current, steps) =~= seq![r2, target]) by {
                reveal_with_fuel(trail, 3);
                assert(steps.drop_first() =~= seq![MoveStep::Resize(target.size)]);
                assert(steps.drop_first().drop_first() =~= Seq::<MoveStep>::empty());
            }
        } else {
            assert(steps =~= seq![MoveStep::Reposition(target.position)]);
            assert(trail(current, steps) =~= seq![r2]) by {
                reveal_with_fuel(trail, 2);
                assert(steps.drop_first() =~= Seq::<MoveStep>::empty());
            }
        }
    }
}

} // verus!
