//! Which pixels a circle and a dashed line are made of.
//!
//! Nothing here draws: each function hands out the points or segments that
//! a canvas is then asked to set.

use vstd::prelude::*;
use crate::coordinate::PixelCoordinate2D;

verus! {

/// The largest radius the midpoint rule is worked out for.
pub const MAX_RADIUS: u32 = 500_000_000;

/// Where the midpoint rule stands: a point of the topmost eighth of a circle
/// around the origin, and the rule's running measure of how far the point
/// has strayed from the true circle.
pub struct Arc {
    pub x: int,
    pub y: int,
    pub d: int,
}

/// The rule's start on a circle of the given radius: its topmost point.
pub open spec fn arc_start(radius: int) -> Arc {
    Arc { x: 0, y: radius, d: 3 - 2 * radius }
}

/// One move of the rule: a pixel to the right, and a pixel down once the
/// point has strayed outside.
pub open spec fn arc_next(a: Arc) -> Arc {
    if a.d < 0 {
        Arc { x: a.x + 1, y: a.y, d: a.d + 4 * a.x + 6 }
    } else {
        Arc { x: a.x + 1, y: a.y - 1, d: a.d + 4 * (a.x - a.y) + 10 }
    }
}

/// The point `(dx, dy)` away from `center`.
pub open spec fn away(center: PixelCoordinate2D, dx: int, dy: int) -> PixelCoordinate2D {
    PixelCoordinate2D { x: (center.x + dx) as i32, y: (center.y + dy) as i32 }
}

/// The eight mirror images of one point of the topmost eighth.
pub open spec fn octants(center: PixelCoordinate2D, a: Arc) -> Seq<PixelCoordinate2D> {
    seq![
        away(center, a.x, a.y),
        away(center, a.x, -a.y),
        away(center, -a.x, a.y),
        away(center, -a.x, -a.y),
        away(center, a.y, a.x),
        away(center, a.y, -a.x),
        away(center, -a.y, a.x),
        away(center, -a.y, -a.x),
    ]
}

/// The points that the rule visits from `a` on, until it has passed the
/// diagonal: eight for every move.
pub open spec fn circle_from(center: PixelCoordinate2D, a: Arc) -> Seq<PixelCoordinate2D>
    decreases a.y - a.x + 2,
{
    if a.x > a.y {
        Seq::empty()
    } else {
        octants(center, a) + circle_from(center, arc_next(a))
    }
}

/// Whether a circle of the given radius around `center` stays on the pixel
/// grid.
pub open spec fn circle_fits(center: PixelCoordinate2D, radius: u32) -> bool {
    &&& radius <= MAX_RADIUS
    &&& i32::MIN <= center.x - radius
    &&& center.x + radius <= i32::MAX
    &&& i32::MIN <= center.y - radius
    &&& center.y + radius <= i32::MAX
}

/// The pixels of a circle around `center`, by the midpoint rule. A circle
/// of radius zero is its centre, eight times.
pub fn circle_points(center: PixelCoordinate2D, radius: u32) -> (points: Vec<PixelCoordinate2D>)
    requires
        circle_fits(center, radius),
    ensures
        points@ == circle_from(center, arc_start(radius as int)),
{
    let mut points: Vec<PixelCoordinate2D> = Vec::new();
    let r: i32 = radius as i32;
    let mut x: i32 = 0;
    let mut y: i32 = r;
    let mut d: i32 = 3 - 2 * r;
    assert(points@ + circle_from(center, Arc { x: x as int, y: y as int, d: d as int })
        =~= circle_from(center, arc_start(radius as int)));
    while x <= y
        invariant
            circle_fits(center, radius),
            r == radius,
            0 <= x <= y + 2,
            -1 <= y <= r,
            -4 * r <= d,
            x <= y ==> d <= 4 * x + 6,
            points@ + circle_from(center, Arc { x: x as int, y: y as int, d: d as int })
                == circle_from(center, arc_start(radius as int)),
        decreases y - x + 2,
    {
        let ghost here = Arc { x: x as int, y: y as int, d: d as int };
        let ghost before = points@;
        points.push(PixelCoordinate2D::new(center.x + x, center.y + y));
        points.push(PixelCoordinate2D::new(center.x + x, center.y - y));
        points.push(PixelCoordinate2D::new(center.x - x, center.y + y));
        points.push(PixelCoordinate2D::new(center.x - x, center.y - y));
        points.push(PixelCoordinate2D::new(center.x + y, center.y + x));
        points.push(PixelCoordinate2D::new(center.x + y, center.y - x));
        points.push(PixelCoordinate2D::new(center.x - y, center.y + x));
        points.push(PixelCoordinate2D::new(center.x - y, center.y - x));
        assert(points@ =~= before + octants(center, here));
        if d < 0 {
            d = d + (4 * x + 6);
        } else {
            d = d + (4 * (x - y) + 10);
            y = y - 1;
        }
        x = x + 1;
        assert(before + (octants(center, here) + circle_from(center, arc_next(here))) =~= (before
            + octants(center, here)) + circle_from(center, arc_next(here)));
    }
    assert(points@ + Seq::<PixelCoordinate2D>::empty() =~= points@);
    points
}

/// The pixels of a circle around `center`, or nothing where the circle
/// would leave the pixel grid or its radius exceeds [`MAX_RADIUS`].
pub fn try_circle_points(center: PixelCoordinate2D, radius: u32) -> (r: Option<
    Vec<PixelCoordinate2D>,
>)
    ensures
        match r {
            Some(points) => circle_fits(center, radius) && points@ == circle_from(
                center,
                arc_start(radius as int),
            ),
            None => !circle_fits(center, radius),
        },
{
    let reach: i64 = radius as i64;
    let x: i64 = center.x as i64;
    let y: i64 = center.y as i64;
    if radius <= MAX_RADIUS && x - reach >= i32::MIN as i64 && x + reach <= i32::MAX as i64 && y
        - reach >= i32::MIN as i64 && y + reach <= i32::MAX as i64 {
        Some(circle_points(center, radius))
    } else {
        None
    }
}

/// Whether a dashed line from `from` towards `to` runs along the horizontal
/// axis: it does where the two points lie further apart across than down.
pub open spec fn runs_across(from: PixelCoordinate2D, to: PixelCoordinate2D) -> bool {
    vstd::math::abs(to.x - from.x) > vstd::math::abs(to.y - from.y)
}

/// The length over which dashes are laid: the larger of the two distances
/// between the points, across and down.
pub open spec fn span(from: PixelCoordinate2D, to: PixelCoordinate2D) -> int {
    if runs_across(from, to) {
        vstd::math::abs(to.x - from.x) as int
    } else {
        vstd::math::abs(to.y - from.y) as int
    }
}

/// The point `along` pixels from `from`, to the right where the line runs
/// across, else downwards.
pub open spec fn along_axis(from: PixelCoordinate2D, across: bool, along: int) -> PixelCoordinate2D {
    if across {
        away(from, along, 0)
    } else {
        away(from, 0, along)
    }
}

/// The dashes of a line: as many as whole periods of blank and dash fit
/// into the span, each after its blank.
pub open spec fn dashes(
    from: PixelCoordinate2D,
    to: PixelCoordinate2D,
    blank_step: u32,
    dash_step: u32,
) -> Seq<(PixelCoordinate2D, PixelCoordinate2D)> {
    let period = blank_step + dash_step;
    let across = runs_across(from, to);
    Seq::new(
        (span(from, to) / period) as nat,
        |k: int|
            (
                along_axis(from, across, k * period + blank_step),
                along_axis(from, across, (k + 1) * period),
            ),
    )
}

/// Whether the dashes of a line stay on the pixel grid.
pub open spec fn dashes_fit(from: PixelCoordinate2D, to: PixelCoordinate2D) -> bool {
    if runs_across(from, to) {
        from.x + span(from, to) <= i32::MAX
    } else {
        from.y + span(from, to) <= i32::MAX
    }
}

/// The dashes of a line that starts at `from`, with a blank of `blank_step`
/// pixels before each dash of `dash_step` pixels.
///
/// The line runs along one axis only: to the right where `to` lies further
/// from `from` across than down, else downwards. It is as long as whole
/// periods fit into the larger of the two distances.
pub fn dashed_line(
    from: PixelCoordinate2D,
    to: PixelCoordinate2D,
    blank_step: u32,
    dash_step: u32,
) -> (segments: Vec<(PixelCoordinate2D, PixelCoordinate2D)>)
    requires
        blank_step + dash_step > 0,
        dashes_fit(from, to),
    ensures
        segments@ == dashes(from, to, blank_step, dash_step),
{
    let dx: i64 = to.x as i64 - from.x as i64;
    let dy: i64 = to.y as i64 - from.y as i64;
    let wide: i64 = if dx < 0 { -dx } else { dx };
    let tall: i64 = if dy < 0 { -dy } else { dy };
    let across = wide > tall;
    let length: i64 = if across { wide } else { tall };
    let period: i64 = blank_step as i64 + dash_step as i64;
    let count: i64 = length / period;
    let origin: i64 = if across { from.x as i64 } else { from.y as i64 };
    let mut segments: Vec<(PixelCoordinate2D, PixelCoordinate2D)> = Vec::new();
    let mut k: i64 = 0;
    assert(across == runs_across(from, to));
    assert(length == span(from, to));
    assert(count * period <= length) by (nonlinear_arith)
        requires
            count == length / period,
            period > 0,
            length >= 0,
    ;
    while k < count
        invariant
            0 <= k <= count,
            period == blank_step + dash_step,
            period > 0,
            0 <= length <= u32::MAX,
            count == length / period,
            count * period <= length,
            across == runs_across(from, to),
            length == span(from, to),
            origin == (if across { from.x } else { from.y }),
            origin + length <= i32::MAX,
            segments@.len() == k,
            forall|m: int|
                0 <= m < k ==> segments@[m] == dashes(from, to, blank_step, dash_step)[m],
        decreases count - k,
    {
        assert(0 <= k * period && (k + 1) * period <= count * period && (k + 1) * period == k
            * period + period) by (nonlinear_arith)
            requires
                0 <= k < count,
                period > 0,
        ;
        let start: i64 = origin + k * period + blank_step as i64;
        let end: i64 = origin + (k + 1) * period;
        let segment = if across {
            (
                PixelCoordinate2D::new(start as i32, from.y),
                PixelCoordinate2D::new(end as i32, from.y),
            )
        } else {
            (
                PixelCoordinate2D::new(from.x, start as i32),
                PixelCoordinate2D::new(from.x, end as i32),
            )
        };
        segments.push(segment);
        k = k + 1;
    }
    assert(segments@ =~= dashes(from, to, blank_step, dash_step));
    segments
}

/// The dashes of a line, or nothing where blank and dash together have no
/// length or a dash would leave the pixel grid.
pub fn try_dashed_line(
    from: PixelCoordinate2D,
    to: PixelCoordinate2D,
    blank_step: u32,
    dash_step: u32,
) -> (r: Option<Vec<(PixelCoordinate2D, PixelCoordinate2D)>>)
    ensures
        match r {
            Some(segments) => {
                &&& blank_step + dash_step > 0
                &&& dashes_fit(from, to)
                &&& segments@ == dashes(from, to, blank_step, dash_step)
            },
            None => blank_step + dash_step == 0 || !dashes_fit(from, to),
        },
{
    let dx: i64 = to.x as i64 - from.x as i64;
    let dy: i64 = to.y as i64 - from.y as i64;
    let wide: i64 = if dx < 0 { -dx } else { dx };
    let tall: i64 = if dy < 0 { -dy } else { dy };
    let end: i64 = if wide > tall { from.x as i64 + wide } else { from.y as i64 + tall };
    if (blank_step > 0 || dash_step > 0) && end <= i32::MAX as i64 {
        Some(dashed_line(from, to, blank_step, dash_step))
    } else {
        None
    }
}

} // verus!
