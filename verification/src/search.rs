use vstd::prelude::*;

use crate::colors::{any_target_matches, matches_any, Color, ColorTarget};
use crate::geometry::{Point, Region};
use crate::screen::{Screen, ScreenView};

verus! {

/// Number of `u32` values.
pub open spec fn coordinate_count() -> int {
    0x1_0000_0000
}

/// One axis of a scan: `len` coordinates from `start`, going up (`start`,
/// `start + 1`, ...) or down (`start`, `start - 1`, ...), wrapping around the
/// `u32` values.
#[derive(Clone, Copy, Debug, PartialEq, Eq, Structural)]
pub struct Axis {
    pub start: u32,
    pub len: u64,
    pub descending: bool,
}

impl Axis {
    /// Position of coordinate `v` in the axis' order (0 for `start`).
    #[verifier::opaque]
    pub open spec fn rank(self, v: int) -> int {
        if self.descending {
            (self.start - v) % coordinate_count()
        } else {
            (v - self.start) % coordinate_count()
        }
    }

    /// `v` is one of the axis' coordinates.
    pub open spec fn contains(self, v: int) -> bool {
        0 <= v < coordinate_count() && 0 <= self.rank(v) < self.len
    }

    /// The `i`-th coordinate of the axis.
    #[verifier::opaque]
    pub open spec fn at(self, i: int) -> int {
        if self.descending {
            (self.start - i) % coordinate_count()
        } else {
            (self.start + i) % coordinate_count()
        }
    }

    /// The axis visits no coordinate twice.
    pub open spec fn representable(self) -> bool {
        self.len <= coordinate_count()
    }

    /// All the axis' coordinates are below `bound`, without wrapping around.
    pub open spec fn below(self, bound: int) -> bool {
        self.len == 0 || (if self.descending {
            self.start < bound && self.len <= self.start + 1
        } else {
            self.start + self.len <= bound
        })
    }

    fn coordinate(self, i: u64) -> (v: u32)
        requires
            self.representable(),
            i < self.len,
        ensures
            v == self.at(i as int),
            self.rank(v as int) == i,
    {
        proof {
            lemma_rank_of_at(self, i as int);
            reveal(Axis::at);
        }
        if self.descending {
            ((self.start as u64 + 0x1_0000_0000 - i) % 0x1_0000_0000) as u32
        } else {
            ((self.start as u64 + i) % 0x1_0000_0000) as u32
        }
    }
}

proof fn lemma_mod_small(d: int)
    requires
        -coordinate_count() < d < 2 * coordinate_count(),
    ensures
        d % coordinate_count() == (if d < 0 {
            d + coordinate_count()
        } else if d < coordinate_count() {
            d
        } else {
            d - coordinate_count()
        }),
{
    let m = coordinate_count();
    if d < 0 {
        vstd::arithmetic::div_mod::lemma_mod_add_multiples_vanish(d, m);
        vstd::arithmetic::div_mod::lemma_small_mod((d + m) as nat, m as nat);
    } else if d < m {
        vstd::arithmetic::div_mod::lemma_small_mod(d as nat, m as nat);
    } else {
        vstd::arithmetic::div_mod::lemma_mod_sub_multiples_vanish(d, m);
        vstd::arithmetic::div_mod::lemma_small_mod((d - m) as nat, m as nat);
    }
}

/// The `i`-th coordinate of an axis is a `u32` of rank `i`.
pub proof fn lemma_rank_of_at(a: Axis, i: int)
    requires
        0 <= i < coordinate_count(),
    ensures
        0 <= a.at(i) < coordinate_count(),
        a.rank(a.at(i)) == i,
{
    reveal(Axis::rank);
    reveal(Axis::at);
    let m = coordinate_count();
    if a.descending {
        lemma_mod_small(a.start - i);
        lemma_mod_small(a.start - a.at(i));
    } else {
        lemma_mod_small(a.start + i);
        lemma_mod_small(a.at(i) - a.start);
    }
}

/// Two coordinates of the same rank are the same.
pub proof fn lemma_rank_injective(a: Axis, v: int, w: int)
    requires
        0 <= v < coordinate_count(),
        0 <= w < coordinate_count(),
        a.rank(v) == a.rank(w),
    ensures
        v == w,
{
    reveal(Axis::rank);
    reveal(Axis::at);
    if a.descending {
        lemma_mod_small(a.start - v);
        lemma_mod_small(a.start - w);
    } else {
        lemma_mod_small(v - a.start);
        lemma_mod_small(w - a.start);
    }
}

/// A coordinate of an axis that lies below `bound` is below `bound`.
pub proof fn lemma_below_bounds(a: Axis, v: int, bound: int)
    requires
        a.below(bound),
        a.contains(v),
    ensures
        v < bound,
{
    reveal(Axis::rank);
    if a.descending {
        lemma_mod_small(a.start - v);
    } else {
        lemma_mod_small(v - a.start);
    }
}

/// The ranks of an axis lie in `0..2^32`.
pub proof fn lemma_rank_range(a: Axis, v: int)
    requires
        0 <= v < coordinate_count(),
    ensures
        0 <= a.rank(v) < coordinate_count(),
{
    reveal(Axis::rank);
    reveal(Axis::at);
    if a.descending {
        lemma_mod_small(a.start - v);
    } else {
        lemma_mod_small(v - a.start);
    }
}

/// The pixels visited by a scan, and their order: the outer axis is walked
/// once, and for each of its coordinates the whole inner axis. The outer axis
/// holds x coordinates when `columns_first`, y coordinates otherwise.
#[derive(Clone, Copy, Debug, PartialEq, Eq, Structural)]
pub struct ScanArea {
    pub outer: Axis,
    pub inner: Axis,
    pub columns_first: bool,
}

impl ScanArea {
    pub open spec fn x_axis(self) -> Axis {
        if self.columns_first {
            self.outer
        } else {
            self.inner
        }
    }

    pub open spec fn y_axis(self) -> Axis {
        if self.columns_first {
            self.inner
        } else {
            self.outer
        }
    }

    /// Pixel `(x, y)` is visited by the scan.
    pub open spec fn contains(self, x: int, y: int) -> bool {
        self.x_axis().contains(x) && self.y_axis().contains(y)
    }

    pub open spec fn outer_rank(self, x: int, y: int) -> int {
        if self.columns_first {
            self.outer.rank(x)
        } else {
            self.outer.rank(y)
        }
    }

    pub open spec fn inner_rank(self, x: int, y: int) -> int {
        if self.columns_first {
            self.inner.rank(y)
        } else {
            self.inner.rank(x)
        }
    }

    /// The scan visits `(x1, y1)` before `(x2, y2)`.
    pub open spec fn precedes(self, x1: int, y1: int, x2: int, y2: int) -> bool {
        ||| self.outer_rank(x1, y1) < self.outer_rank(x2, y2)
        ||| self.outer_rank(x1, y1) == self.outer_rank(x2, y2) && self.inner_rank(x1, y1)
            < self.inner_rank(x2, y2)
    }

    pub open spec fn representable(self) -> bool {
        self.outer.representable() && self.inner.representable()
    }

    /// Every visited pixel is on a screen of the given size.
    pub open spec fn within(self, width: int, height: int) -> bool {
        self.x_axis().below(width) && self.y_axis().below(height)
    }
}

/// Some target matches the colour of pixel `(x, y)`.
pub open spec fn hit(screen: ScreenView, targets: Seq<ColorTarget>, x: int, y: int) -> bool {
    any_target_matches(targets, screen.pixel(x, y))
}

/// `p` is the first pixel of the scan that some target matches.
pub open spec fn is_first_match(
    screen: ScreenView,
    targets: Seq<ColorTarget>,
    area: ScanArea,
    p: Point,
) -> bool {
    &&& area.contains(p.x as int, p.y as int)
    &&& screen.contains(p.x as int, p.y as int)
    &&& hit(screen, targets, p.x as int, p.y as int)
    &&& forall|x: int, y: int|
        area.contains(x, y) && area.precedes(x, y, p.x as int, p.y as int) ==> !#[trigger] hit(
            screen,
            targets,
            x,
            y,
        )
}

/// No pixel of the scan is matched by any target.
pub open spec fn has_no_match(screen: ScreenView, targets: Seq<ColorTarget>, area: ScanArea) -> bool {
    forall|x: int, y: int| area.contains(x, y) ==> !#[trigger] hit(screen, targets, x, y)
}

/// What a scan returns: the first matching pixel, or `None` when there is none.
pub open spec fn scan_result(
    screen: ScreenView,
    targets: Seq<ColorTarget>,
    area: ScanArea,
    res: Option<Point>,
) -> bool {
    match res {
        Some(p) => is_first_match(screen, targets, area, p),
        None => has_no_match(screen, targets, area),
    }
}

/// The scan does not leave the screen before it finds a match: every visited
/// pixel off the screen comes after a matching pixel on it.
pub open spec fn stays_on_screen(
    screen: ScreenView,
    targets: Seq<ColorTarget>,
    area: ScanArea,
) -> bool {
    forall|x: int, y: int|
        #![trigger area.contains(x, y)]
        area.contains(x, y) && !screen.contains(x, y) ==> exists|x2: int, y2: int|
            #![trigger hit(screen, targets, x2, y2)]
            area.contains(x2, y2) && screen.contains(x2, y2) && area.precedes(x2, y2, x, y) && hit(
                screen,
                targets,
                x2,
                y2,
            )
}

/// A scan that lies within the screen never leaves it.
pub proof fn lemma_within_stays_on_screen(
    screen: ScreenView,
    targets: Seq<ColorTarget>,
    area: ScanArea,
)
    requires
        area.representable(),
        area.within(screen.width as int, screen.height as int),
    ensures
        stays_on_screen(screen, targets, area),
{
    assert forall|x: int, y: int| #[trigger] area.contains(x, y) implies screen.contains(x, y) by {
        lemma_below_bounds(area.x_axis(), x, screen.width as int);
        lemma_below_bounds(area.y_axis(), y, screen.height as int);
    }
}

/// Two pixels of a scan are the same, or one comes before the other.
pub proof fn lemma_precedes_total(area: ScanArea, x1: int, y1: int, x2: int, y2: int)
    requires
        area.contains(x1, y1),
        area.contains(x2, y2),
    ensures
        (x1 == x2 && y1 == y2) || area.precedes(x1, y1, x2, y2) || area.precedes(x2, y2, x1, y1),
{
    if area.outer_rank(x1, y1) == area.outer_rank(x2, y2) && area.inner_rank(x1, y1)
        == area.inner_rank(x2, y2) {
        if area.columns_first {
            lemma_rank_injective(area.outer, x1, x2);
            lemma_rank_injective(area.inner, y1, y2);
        } else {
            lemma_rank_injective(area.outer, y1, y2);
            lemma_rank_injective(area.inner, x1, x2);
        }
    }
}

/// A scan has one result: the first match, or none.
pub proof fn lemma_scan_result_unique(
    screen: ScreenView,
    targets: Seq<ColorTarget>,
    area: ScanArea,
    r1: Option<Point>,
    r2: Option<Point>,
)
    requires
        scan_result(screen, targets, area, r1),
        scan_result(screen, targets, area, r2),
    ensures
        r1 == r2,
{
    match (r1, r2) {
        (Some(p), Some(q)) => {
            lemma_precedes_total(area, p.x as int, p.y as int, q.x as int, q.y as int);
            assert(hit(screen, targets, p.x as int, p.y as int));
            assert(hit(screen, targets, q.x as int, q.y as int));
        },
        (Some(p), None) => {
            assert(hit(screen, targets, p.x as int, p.y as int));
        },
        (None, Some(q)) => {
            assert(hit(screen, targets, q.x as int, q.y as int));
        },
        (None, None) => {},
    }
}

/// Adding colour targets can only bring the first match earlier: a match for
/// the fewer targets means one for the more, at the same pixel or before it;
/// and no match for the more targets means none for the fewer.
pub proof fn lemma_more_targets_no_later(
    screen: ScreenView,
    targets: Seq<ColorTarget>,
    more: Seq<ColorTarget>,
    area: ScanArea,
    r1: Option<Point>,
    r2: Option<Point>,
)
    requires
        scan_result(screen, targets, area, r1),
        scan_result(screen, targets + more, area, r2),
    ensures
        r1 matches Some(p) ==> (r2 matches Some(q) && (q == p || area.precedes(
            q.x as int,
            q.y as int,
            p.x as int,
            p.y as int,
        ))),
        r2 is None ==> r1 is None,
{
    let all = targets + more;
    assert forall|c: Color| any_target_matches(targets, c) implies any_target_matches(all, c) by {
        let k = choose|k: int| 0 <= k < targets.len() && #[trigger] targets[k].matches_spec(c);
        assert(all[k] == targets[k]);
    }
    if let Some(p) = r1 {
        assert(hit(screen, targets, p.x as int, p.y as int));
        assert(hit(screen, all, p.x as int, p.y as int));
        if let Some(q) = r2 {
            lemma_precedes_total(area, p.x as int, p.y as int, q.x as int, q.y as int);
        }
    }
}

/// Without targets nothing matches.
pub proof fn lemma_no_targets_no_match(screen: ScreenView, area: ScanArea, r: Option<Point>)
    requires
        scan_result(screen, Seq::<ColorTarget>::empty(), area, r),
    ensures
        r is None,
{
}

/// The order of the colour targets does not change the result: the same
/// targets in any order give the same first match.
pub proof fn lemma_target_order_irrelevant(
    screen: ScreenView,
    targets1: Seq<ColorTarget>,
    targets2: Seq<ColorTarget>,
    area: ScanArea,
    r1: Option<Point>,
    r2: Option<Point>,
)
    requires
        targets1.to_multiset() == targets2.to_multiset(),
        scan_result(screen, targets1, area, r1),
        scan_result(screen, targets2, area, r2),
    ensures
        r1 == r2,
{
    broadcast use vstd::seq_lib::group_to_multiset_ensures;

    assert forall|c: Color| any_target_matches(targets1, c) == any_target_matches(targets2, c) by {
        if any_target_matches(targets1, c) {
            let k = choose|k: int| 0 <= k < targets1.len() && #[trigger] targets1[k].matches_spec(c);
            assert(targets1.contains(targets1[k]));
            assert(targets2.to_multiset().count(targets1[k]) > 0);
            assert(targets2.contains(targets1[k]));
        }
        if any_target_matches(targets2, c) {
            let k = choose|k: int| 0 <= k < targets2.len() && #[trigger] targets2[k].matches_spec(c);
            assert(targets2.contains(targets2[k]));
            assert(targets1.to_multiset().count(targets2[k]) > 0);
            assert(targets1.contains(targets2[k]));
        }
    }
    assert forall|x: int, y: int| hit(screen, targets1, x, y) == hit(screen, targets2, x, y) by {
        assert(any_target_matches(targets1, screen.pixel(x, y)) == any_target_matches(
            targets2,
            screen.pixel(x, y),
        ));
    }
    assert(scan_result(screen, targets1, area, r2));
    lemma_scan_result_unique(screen, targets1, area, r1, r2);
}

impl ScanArea {
    /// Whether every pixel of the scan lies on a screen of `width` by `height`
    /// without wrapping around.
    pub fn fits(&self, width: u32, height: u32) -> (f: bool)
        ensures
            f == self.within(width as int, height as int),
    {
        let xa = if self.columns_first {
            self.outer
        } else {
            self.inner
        };
        let ya = if self.columns_first {
            self.inner
        } else {
            self.outer
        };
        axis_below(xa, width) && axis_below(ya, height)
    }
}

fn axis_below(a: Axis, bound: u32) -> (b: bool)
    ensures
        b == a.below(bound as int),
{
    if a.len == 0 {
        true
    } else if a.descending {
        a.start < bound && a.len <= a.start as u64 + 1
    } else {
        a.len <= bound as u64 && a.start as u64 <= bound as u64 - a.len
    }
}

/// Visits the pixels of `area` in its order and returns the first one that some
/// target matches.
pub fn scan(screen: &Screen, targets: &[ColorTarget], area: ScanArea) -> (res: Option<Point>)
    requires
        area.representable(),
        stays_on_screen(screen@, targets@, area),
    ensures
        scan_result(screen@, targets@, area, res),
{
    let mut i: u64 = 0;
    while i < area.outer.len
        invariant
            i <= area.outer.len,
            area.representable(),
            stays_on_screen(screen@, targets@, area),
            forall|x: int, y: int|
                area.contains(x, y) && area.outer_rank(x, y) < i ==> !#[trigger] hit(
                    screen@,
                    targets@,
                    x,
                    y,
                ),
        decreases area.outer.len - i,
    {
        let oc = area.outer.coordinate(i);
        let mut j: u64 = 0;
        while j < area.inner.len
            invariant
                i < area.outer.len,
                j <= area.inner.len,
                oc == area.outer.at(i as int),
                area.outer.rank(oc as int) == i,
                area.representable(),
                stays_on_screen(screen@, targets@, area),
                forall|x: int, y: int|
                    area.contains(x, y) && area.outer_rank(x, y) < i ==> !#[trigger] hit(
                        screen@,
                        targets@,
                        x,
                        y,
                    ),
                forall|x: int, y: int|
                    area.contains(x, y) && area.outer_rank(x, y) == i && area.inner_rank(x, y) < j
                        ==> !#[trigger] hit(screen@, targets@, x, y),
            decreases area.inner.len - j,
        {
            let ic = area.inner.coordinate(j);
            let x: u32 = if area.columns_first {
                oc
            } else {
                ic
            };
            let y: u32 = if area.columns_first {
                ic
            } else {
                oc
            };
            assert(area.contains(x as int, y as int));
            assert(area.outer_rank(x as int, y as int) == i);
            assert(area.inner_rank(x as int, y as int) == j);
            proof {
                if !screen@.contains(x as int, y as int) {
                    let (x2, y2) = choose|x2: int, y2: int|
                        area.contains(x2, y2) && screen@.contains(x2, y2) && area.precedes(
                            x2,
                            y2,
                            x as int,
                            y as int,
                        ) && hit(screen@, targets@, x2, y2);
                    assert(hit(screen@, targets@, x2, y2));
                    assert(false);
                }
            }
            let c: Color = screen.pixel(x, y);
            if matches_any(targets, c) {
                let p = Point { x, y };
                assert(is_first_match(screen@, targets@, area, p));
                return Some(p);
            }
            assert forall|x2: int, y2: int|
                area.contains(x2, y2) && area.outer_rank(x2, y2) == i && area.inner_rank(x2, y2)
                    == j implies !#[trigger] hit(screen@, targets@, x2, y2) by {
                if area.columns_first {
                    lemma_rank_injective(area.outer, x2, x as int);
                    lemma_rank_injective(area.inner, y2, y as int);
                } else {
                    lemma_rank_injective(area.outer, y2, y as int);
                    lemma_rank_injective(area.inner, x2, x as int);
                }
            }
            j += 1;
        }
        i += 1;
    }
    None
}

/// The pure white of the shake bubble, up to one step on each channel.
pub open spec fn shake_target_spec() -> ColorTarget {
    ColorTarget { color: Color { r: 0xff, g: 0xff, b: 0xff }, variation: 1 }
}

/// The colour target of the shake bubble.
pub fn shake_target() -> (t: ColorTarget)
    ensures
        t == shake_target_spec(),
{
    ColorTarget { color: Color { r: 0xff, g: 0xff, b: 0xff }, variation: 1 }
}

/// `v` read as an `i32` (two's complement).
pub open spec fn as_i32(v: u32) -> int {
    if v <= i32::MAX {
        v as int
    } else {
        v - coordinate_count()
    }
}

/// The range `a..=b` of `i32` values, both ends read from `u32` as `i32`, with
/// its values read back as `u32`; walked down when `descending`. Empty when the
/// `i32` ends are out of order.
pub open spec fn i32_range_axis(a: u32, b: u32, descending: bool) -> Axis {
    Axis {
        start: if descending {
            b
        } else {
            a
        },
        len: if as_i32(a) <= as_i32(b) {
            (as_i32(b) - as_i32(a) + 1) as u64
        } else {
            0
        },
        descending,
    }
}

fn i32_range_axis_exec(a: u32, b: u32, descending: bool) -> (axis: Axis)
    ensures
        axis == i32_range_axis(a, b, descending),
        axis.representable(),
{
    let sa: i64 = if a <= 0x7fff_ffff {
        a as i64
    } else {
        a as i64 - 0x1_0000_0000
    };
    let sb: i64 = if b <= 0x7fff_ffff {
        b as i64
    } else {
        b as i64 - 0x1_0000_0000
    };
    let len: u64 = if sa <= sb {
        (sb - sa + 1) as u64
    } else {
        0
    };
    Axis {
        start: if descending {
            b
        } else {
            a
        },
        len,
        descending,
    }
}

/// The axis `a..=b`, up or down; empty when `a > b`.
pub open spec fn closed_axis(a: u32, b: u32, descending: bool) -> Axis {
    Axis {
        start: if descending {
            b
        } else {
            a
        },
        len: if a <= b {
            (b - a + 1) as u64
        } else {
            0
        },
        descending,
    }
}

fn closed_axis_exec(a: u32, b: u32, descending: bool) -> (axis: Axis)
    ensures
        axis == closed_axis(a, b, descending),
        axis.representable(),
{
    let len: u64 = if a <= b {
        (b - a) as u64 + 1
    } else {
        0
    };
    Axis {
        start: if descending {
            b
        } else {
            a
        },
        len,
        descending,
    }
}

impl Region {
    /// Pixel `(x, y)` lies in the region, corners included.
    pub open spec fn covers(self, x: int, y: int) -> bool {
        self.point1.x <= x <= self.point2.x && self.point1.y <= y <= self.point2.y
    }
}

/// The near-pure white of the shake bubble: every channel at least 254.
pub open spec fn is_shake_white(c: Color) -> bool {
    c.r >= 254 && c.g >= 254 && c.b >= 254
}

/// The shake target matches exactly the near-pure whites.
pub proof fn lemma_shake_target_is_white(c: Color)
    ensures
        any_target_matches(seq![shake_target_spec()], c) == is_shake_white(c),
{
    let ts = seq![shake_target_spec()];
    if is_shake_white(c) {
        assert(ts[0].matches_spec(c));
    }
}

/// The axis `a..=b` holds exactly the values between its ends, ranked by their
/// distance from its first end.
pub proof fn lemma_closed_axis(a: u32, b: u32, descending: bool, v: int)
    requires
        0 <= v < coordinate_count(),
    ensures
        closed_axis(a, b, descending).contains(v) <==> a <= v <= b,
        a <= v <= b ==> closed_axis(a, b, descending).rank(v) == (if descending {
            b - v
        } else {
            v - a
        }),
{
    reveal(Axis::rank);
    if descending {
        lemma_mod_small(b - v);
    } else {
        lemma_mod_small(v - a);
    }
}

/// What the middle-row search answers, in the region's coordinates.
pub open spec fn mid_row_answer(
    region: Region,
    screen: ScreenView,
    targets: Seq<ColorTarget>,
    res: Option<Point>,
) -> bool {
    &&& res matches Some(p) ==> {
        &&& p.y == (region.point1.y + region.point2.y) / 2
        &&& region.point1.x <= p.x <= region.point2.x
        &&& screen.contains(p.x as int, p.y as int)
        &&& any_target_matches(targets, screen.pixel(p.x as int, p.y as int))
        &&& forall|x: int|
            region.point1.x <= x < p.x ==> !any_target_matches(
                targets,
                #[trigger] screen.pixel(x, p.y as int),
            )
    }
    &&& res is None ==> forall|x: int|
        region.point1.x <= x <= region.point2.x ==> !any_target_matches(
            targets,
            #[trigger] screen.pixel(x, (region.point1.y + region.point2.y) / 2),
        )
}

/// The middle-row search looks only at the row halfway between the corners'
/// rows (rounded down), from the first corner's column rightwards to the
/// second's: a result is a matching pixel of that row with no matching pixel
/// left of it, and no result means no pixel of that row matches.
pub proof fn lemma_mid_row_result(
    region: Region,
    screen: ScreenView,
    targets: Seq<ColorTarget>,
    res: Option<Point>,
)
    requires
        scan_result(screen, targets, region.mid_row_area(), res),
    ensures
        mid_row_answer(region, screen, targets, res),

{
    let area = region.mid_row_area();
    let y = (region.point1.y + region.point2.y) / 2;
    let yu = y as u32;
    assert(yu == y);
    match res {
        Some(p) => {
            lemma_closed_axis(region.point1.x, region.point2.x, false, p.x as int);
            lemma_closed_axis(yu, yu, false, p.y as int);
            assert forall|x: int| region.point1.x <= x < p.x implies !any_target_matches(
                targets,
                #[trigger] screen.pixel(x, p.y as int),
            ) by {
                lemma_closed_axis(region.point1.x, region.point2.x, false, x);
                lemma_closed_axis(yu, yu, false, p.y as int);
                assert(area.contains(x, p.y as int));
                assert(area.precedes(x, p.y as int, p.x as int, p.y as int));
                assert(!hit(screen, targets, x, p.y as int));
            }
        },
        None => {
            assert forall|x: int| region.point1.x <= x <= region.point2.x implies !any_target_matches(
                targets,
                #[trigger] screen.pixel(x, y),
            ) by {
                lemma_closed_axis(region.point1.x, region.point2.x, false, x);
                lemma_closed_axis(yu, yu, false, y);
                assert(area.contains(x, y));
                assert(!hit(screen, targets, x, y));
            }
        },
    }
}

/// What the left-half search answers, in the region's coordinates.
pub open spec fn left_half_answer(
    region: Region,
    screen: ScreenView,
    targets: Seq<ColorTarget>,
    res: Option<Point>,
) -> bool {
    &&& res matches Some(p) ==> {
        &&& region.point1.x <= p.x <= region.point1.x + (region.point2.x - region.point1.x) / 2
        &&& region.point1.y <= p.y <= region.point2.y
        &&& screen.contains(p.x as int, p.y as int)
        &&& any_target_matches(targets, screen.pixel(p.x as int, p.y as int))
        &&& forall|x: int, y: int|
            region.point1.x <= x <= region.point1.x + (region.point2.x - region.point1.x) / 2
                && region.point1.y <= y <= region.point2.y && (x < p.x || (x == p.x && y
                < p.y)) ==> !any_target_matches(targets, #[trigger] screen.pixel(x, y))
    }
    &&& res is None ==> forall|x: int, y: int|
        region.point1.x <= x <= region.point1.x + (region.point2.x - region.point1.x) / 2
            && region.point1.y <= y <= region.point2.y ==> !any_target_matches(
            targets,
            #[trigger] screen.pixel(x, y),
        )
}

/// The left-half search looks at the region's first `half_width + 1` columns,
/// each from the top: a result is a matching pixel there with no matching pixel
/// in a column left of it nor above it in its column; no result means no match
/// there.
pub proof fn lemma_left_half_result(
    region: Region,
    screen: ScreenView,
    targets: Seq<ColorTarget>,
    res: Option<Point>,
)
    requires
        region.wf(),
        scan_result(screen, targets, region.left_half_area(), res),
    ensures
        left_half_answer(region, screen, targets, res),

{
    let area = region.left_half_area();
    let xe = (region.point1.x + region.half_width()) as u32;
    match res {
        Some(p) => {
            lemma_closed_axis(region.point1.x, xe, false, p.x as int);
            lemma_closed_axis(region.point1.y, region.point2.y, false, p.y as int);
            assert forall|x: int, y: int|
                region.point1.x <= x <= region.point1.x + (region.point2.x - region.point1.x) / 2
                    && region.point1.y <= y <= region.point2.y && (x < p.x || (x == p.x && y
                    < p.y)) implies !any_target_matches(targets, #[trigger] screen.pixel(x, y)) by {
                lemma_closed_axis(region.point1.x, xe, false, x);
                lemma_closed_axis(region.point1.y, region.point2.y, false, y);
                assert(area.contains(x, y));
                assert(area.precedes(x, y, p.x as int, p.y as int));
                assert(!hit(screen, targets, x, y));
            }
        },
        None => {
            assert forall|x: int, y: int|
                region.point1.x <= x <= region.point1.x + (region.point2.x - region.point1.x) / 2
                    && region.point1.y <= y <= region.point2.y implies !any_target_matches(
                targets,
                #[trigger] screen.pixel(x, y),
            ) by {
                lemma_closed_axis(region.point1.x, xe, false, x);
                lemma_closed_axis(region.point1.y, region.point2.y, false, y);
                assert(area.contains(x, y));
                assert(!hit(screen, targets, x, y));
            }
        },
    }
}

/// What the right-half search answers, in the region's coordinates.
pub open spec fn right_half_answer(
    region: Region,
    screen: ScreenView,
    targets: Seq<ColorTarget>,
    res: Option<Point>,
) -> bool {
    &&& res matches Some(p) ==> {
        &&& region.point2.x - (region.point2.x - region.point1.x) / 2 <= p.x <= region.point2.x
        &&& region.point1.y <= p.y <= region.point2.y
        &&& screen.contains(p.x as int, p.y as int)
        &&& any_target_matches(targets, screen.pixel(p.x as int, p.y as int))
        &&& forall|x: int, y: int|
            region.point2.x - (region.point2.x - region.point1.x) / 2 <= x <= region.point2.x
                && region.point1.y <= y <= region.point2.y && (x > p.x || (x == p.x && y
                < p.y)) ==> !any_target_matches(targets, #[trigger] screen.pixel(x, y))
    }
    &&& res is None ==> forall|x: int, y: int|
        region.point2.x - (region.point2.x - region.point1.x) / 2 <= x <= region.point2.x
            && region.point1.y <= y <= region.point2.y ==> !any_target_matches(
            targets,
            #[trigger] screen.pixel(x, y),
        )
}

/// The right-half search looks at the region's last `half_width + 1` columns,
/// from the rightmost, each from the top: a result is a matching pixel there
/// with no matching pixel in a column right of it nor above it in its column;
/// no result means no match there.
pub proof fn lemma_right_half_result(
    region: Region,
    screen: ScreenView,
    targets: Seq<ColorTarget>,
    res: Option<Point>,
)
    requires
        region.wf(),
        scan_result(screen, targets, region.right_half_area(), res),
    ensures
        right_half_answer(region, screen, targets, res),

{
    let area = region.right_half_area();
    let xs = (region.point2.x - region.half_width()) as u32;
    match res {
        Some(p) => {
            lemma_closed_axis(xs, region.point2.x, true, p.x as int);
            lemma_closed_axis(region.point1.y, region.point2.y, false, p.y as int);
            assert forall|x: int, y: int|
                region.point2.x - (region.point2.x - region.point1.x) / 2 <= x <= region.point2.x
                    && region.point1.y <= y <= region.point2.y && (x > p.x || (x == p.x && y
                    < p.y)) implies !any_target_matches(targets, #[trigger] screen.pixel(x, y)) by {
                lemma_closed_axis(xs, region.point2.x, true, x);
                lemma_closed_axis(region.point1.y, region.point2.y, false, y);
                assert(area.contains(x, y));
                assert(area.precedes(x, y, p.x as int, p.y as int));
                assert(!hit(screen, targets, x, y));
            }
        },
        None => {
            assert forall|x: int, y: int|
                region.point2.x - (region.point2.x - region.point1.x) / 2 <= x <= region.point2.x
                    && region.point1.y <= y <= region.point2.y implies !any_target_matches(
                targets,
                #[trigger] screen.pixel(x, y),
            ) by {
                lemma_closed_axis(xs, region.point2.x, true, x);
                lemma_closed_axis(region.point1.y, region.point2.y, false, y);
                assert(area.contains(x, y));
                assert(!hit(screen, targets, x, y));
            }
        },
    }
}

/// What the shake search answers, in the region's coordinates.
pub open spec fn shake_answer(
    region: Region,
    screen: ScreenView,
    res: Option<Point>,
) -> bool {
    &&& res matches Some(p) ==> {
        &&& region.covers(p.x as int, p.y as int)
        &&& screen.contains(p.x as int, p.y as int)
        &&& is_shake_white(screen.pixel(p.x as int, p.y as int))
        &&& forall|x: int, y: int|
            region.covers(x, y) && (y > p.y || (y == p.y && x < p.x)) ==> !is_shake_white(
                #[trigger] screen.pixel(x, y),
            )
    }
    &&& res is None ==> forall|x: int, y: int|
        region.covers(x, y) ==> !is_shake_white(#[trigger] screen.pixel(x, y))
}

/// With corners up to `i32::MAX`, the shake search looks at the region's rows
/// from the bottom, each row from the left: a result is a near-white pixel of
/// the region with no near-white pixel of the region in a row below it nor left
/// of it in its row; no result means no near-white pixel in the region (which
/// is empty when the corners are out of order).
pub proof fn lemma_shake_scan_order(region: Region, screen: ScreenView, res: Option<Point>)
    requires
        region.point1.x <= i32::MAX,
        region.point2.x <= i32::MAX,
        region.point1.y <= i32::MAX,
        region.point2.y <= i32::MAX,
        scan_result(screen, seq![shake_target_spec()], region.shake_area(), res),
    ensures
        shake_answer(region, screen, res),

{
    let area = region.shake_area();
    let ts = seq![shake_target_spec()];
    assert(i32_range_axis(region.point1.y, region.point2.y, true) == closed_axis(
        region.point1.y,
        region.point2.y,
        true,
    ));
    assert(i32_range_axis(region.point1.x, region.point2.x, false) == closed_axis(
        region.point1.x,
        region.point2.x,
        false,
    ));
    match res {
        Some(p) => {
            lemma_closed_axis(region.point1.x, region.point2.x, false, p.x as int);
            lemma_closed_axis(region.point1.y, region.point2.y, true, p.y as int);
            lemma_shake_target_is_white(screen.pixel(p.x as int, p.y as int));
            assert forall|x: int, y: int|
                region.covers(x, y) && (y > p.y || (y == p.y && x < p.x)) implies !is_shake_white(
                #[trigger] screen.pixel(x, y),
            ) by {
                lemma_closed_axis(region.point1.x, region.point2.x, false, x);
                lemma_closed_axis(region.point1.y, region.point2.y, true, y);
                assert(area.contains(x, y));
                assert(area.precedes(x, y, p.x as int, p.y as int));
                assert(!hit(screen, ts, x, y));
                lemma_shake_target_is_white(screen.pixel(x, y));
            }
        },
        None => {
            assert forall|x: int, y: int| region.covers(x, y) implies !is_shake_white(
                #[trigger] screen.pixel(x, y),
            ) by {
                lemma_closed_axis(region.point1.x, region.point2.x, false, x);
                lemma_closed_axis(region.point1.y, region.point2.y, true, y);
                assert(area.contains(x, y));
                assert(!hit(screen, ts, x, y));
                lemma_shake_target_is_white(screen.pixel(x, y));
            }
        },
    }
}

impl Region {
    /// The middle row of the region (the mean of the corners' rows, rounded
    /// down), from the first corner's column rightwards to the second's; empty
    /// when the second corner is left of the first.
    pub open spec fn mid_row_area(self) -> ScanArea {
        let y = ((self.point1.y + self.point2.y) / 2) as u32;
        ScanArea {
            outer: closed_axis(self.point1.x, self.point2.x, false),
            inner: closed_axis(y, y, false),
            columns_first: true,
        }
    }

    /// Half the width of the region, rounded down.
    pub open spec fn half_width(self) -> u32 {
        ((self.point2.x - self.point1.x) / 2) as u32
    }

    /// The left half of the region (its first `half_width + 1` columns), column
    /// by column from the left, each column from the top.
    pub open spec fn left_half_area(self) -> ScanArea {
        ScanArea {
            outer: closed_axis(self.point1.x, (self.point1.x + self.half_width()) as u32, false),
            inner: closed_axis(self.point1.y, self.point2.y, false),
            columns_first: true,
        }
    }

    /// The right half of the region (its last `half_width + 1` columns), column
    /// by column from the right, each column from the top.
    pub open spec fn right_half_area(self) -> ScanArea {
        ScanArea {
            outer: closed_axis((self.point2.x - self.half_width()) as u32, self.point2.x, true),
            inner: closed_axis(self.point1.y, self.point2.y, false),
            columns_first: true,
        }
    }

    /// The whole region, row by row from the second corner's row up to the
    /// first's, each row from the first corner's column to the second's. The
    /// bounds are read as `i32` (see [`i32_range_axis`]): corners out of order
    /// give no pixel.
    pub open spec fn shake_area(self) -> ScanArea {
        ScanArea {
            outer: i32_range_axis(self.point1.y, self.point2.y, true),
            inner: i32_range_axis(self.point1.x, self.point2.x, false),
            columns_first: false,
        }
    }

    /// The scan of [`Region::search_shake_bubble`].
    pub fn shake_area_exec(&self) -> (area: ScanArea)
        ensures
            area == self.shake_area(),
            area.representable(),
    {
        ScanArea {
            outer: i32_range_axis_exec(self.point1.y, self.point2.y, true),
            inner: i32_range_axis_exec(self.point1.x, self.point2.x, false),
            columns_first: false,
        }
    }

    fn mid_row_area_exec(&self) -> (area: ScanArea)
        ensures
            area == self.mid_row_area(),
            area.representable(),
    {
        let y = ((self.point1.y as u64 + self.point2.y as u64) / 2) as u32;
        ScanArea {
            outer: closed_axis_exec(self.point1.x, self.point2.x, false),
            inner: closed_axis_exec(y, y, false),
            columns_first: true,
        }
    }

    /// Searches the middle row of the region, left to right, for a pixel that
    /// some target matches.
    pub fn search_color_mid_ltr(&self, screen: &Screen, targets: &[ColorTarget]) -> (res: Option<
        Point,
    >)
        requires
            stays_on_screen(screen@, targets@, self.mid_row_area()),
        ensures
            scan_result(screen@, targets@, self.mid_row_area(), res),
            mid_row_answer(*self, screen@, targets@, res),
    {
        let area = self.mid_row_area_exec();
        let res = scan(screen, targets, area);
        proof {
            lemma_mid_row_result(*self, screen@, targets@, res);
        }
        res
    }

    /// Searches the left half of the region, column by column from the left, for
    /// a pixel that some target matches.
    pub fn search_color_left_half(&self, screen: &Screen, targets: &[ColorTarget]) -> (res:
        Option<Point>)
        requires
            self.wf(),
            stays_on_screen(screen@, targets@, self.left_half_area()),
        ensures
            scan_result(screen@, targets@, self.left_half_area(), res),
            left_half_answer(*self, screen@, targets@, res),
    {
        let half_width = self.get_size().width / 2;
        let area = ScanArea {
            outer: closed_axis_exec(self.point1.x, self.point1.x + half_width, false),
            inner: closed_axis_exec(self.point1.y, self.point2.y, false),
            columns_first: true,
        };
        let res = scan(screen, targets, area);
        proof {
            lemma_left_half_result(*self, screen@, targets@, res);
        }
        res
    }

    /// Searches the right half of the region, column by column from the right,
    /// for a pixel that some target matches.
    pub fn search_color_right_half(&self, screen: &Screen, targets: &[ColorTarget]) -> (res:
        Option<Point>)
        requires
            self.wf(),
            stays_on_screen(screen@, targets@, self.right_half_area()),
        ensures
            scan_result(screen@, targets@, self.right_half_area(), res),
            right_half_answer(*self, screen@, targets@, res),
    {
        let half_width = self.get_size().width / 2;
        let area = ScanArea {
            outer: closed_axis_exec(self.point2.x - half_width, self.point2.x, true),
            inner: closed_axis_exec(self.point1.y, self.point2.y, false),
            columns_first: true,
        };
        let res = scan(screen, targets, area);
        proof {
            lemma_right_half_result(*self, screen@, targets@, res);
        }
        res
    }

    /// Searches the region for the white of the shake bubble, row by row from the
    /// bottom, each row from the left; gives the bubble's pixel.
    pub fn search_shake_bubble(&self, screen: &Screen) -> (res: Option<Point>)
        requires
            stays_on_screen(screen@, seq![shake_target_spec()], self.shake_area()),
        ensures
            scan_result(screen@, seq![shake_target_spec()], self.shake_area(), res),
            self.point1.x <= i32::MAX && self.point2.x <= i32::MAX && self.point1.y <= i32::MAX
                && self.point2.y <= i32::MAX ==> shake_answer(*self, screen@, res),
    {
        let targets: Vec<ColorTarget> = vec![shake_target()];
        assert(targets@ =~= seq![shake_target_spec()]);
        let res = scan(screen, targets.as_slice(), self.shake_area_exec());
        proof {
            if self.point1.x <= i32::MAX && self.point2.x <= i32::MAX && self.point1.y <= i32::MAX
                && self.point2.y <= i32::MAX {
                lemma_shake_scan_order(*self, screen@, res);
            }
        }
        res
    }
}

/// Where to click for a shake bubble found at `bubble`: 20 pixels right of it
/// and 10 pixels up.
pub fn shake_click_point(bubble: Point) -> (p: Point)
    requires
        bubble.x + 20 <= u32::MAX,
        bubble.y >= 10,
    ensures
        p.x == bubble.x + 20,
        p.y == bubble.y - 10,
{
    Point { x: bubble.x + 20, y: bubble.y - 10 }
}

} // verus!
