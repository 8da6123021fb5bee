//! What a graphics layer covers.

use crate::formula::{at_least, difference, either, sum, Expr, Formula, Model, Test};
use crate::geometry::{
    expanded, grown_extent, largest, lemma_padding, matrix_row, projected_corner, smallest,
    unprojectable, Projected, Rect, Transform, LARGEST, LOWEST,
};
use crate::number_laws::law_constants;
use crate::single::{Single, ONE};
use std::sync::Arc;
use vstd::prelude::*;

verus! {

/// A point of the plane.
pub struct Point {
    /// To the right.
    pub x: real,
    /// Down.
    pub y: real,
}

/// Corner `i` of a rectangle, clockwise from the top left.
pub open spec fn corner(m: Model, rect: Rect, i: int) -> Point {
    Point {
        x: if i == 1 || i == 2 {
            rect.x.value(m) + rect.w.value(m)
        } else {
            rect.x.value(m)
        },
        y: if i == 2 || i == 3 {
            rect.y.value(m) + rect.h.value(m)
        } else {
            rect.y.value(m)
        },
    }
}

/// The distance of a point under a transform: the last row of its matrix.
pub open spec fn distance(m: Model, t: Transform, p: Point) -> real {
    (m.entry)(t, 6) * p.x + (m.entry)(t, 7) * p.y + (m.entry)(t, 8)
}

/// Where a transform takes a point: the first two rows of its matrix over the
/// last.
pub open spec fn image(m: Model, t: Transform, p: Point) -> Point {
    Point {
        x: ((m.entry)(t, 0) * p.x + (m.entry)(t, 1) * p.y + (m.entry)(t, 2)) / distance(m, t, p),
        y: ((m.entry)(t, 3) * p.x + (m.entry)(t, 4) * p.y + (m.entry)(t, 5)) / distance(m, t, p),
    }
}

/// Whether a distance is too close to zero to divide by it: closer than the
/// number nearest to a millionth that a single holds.
pub open spec fn too_close(d: real) -> bool {
    let bound = (Single { bits: 0x3586_37bd }).value();
    0real - bound < d < bound
}

proof fn lemma_projected(m: Model, t: Arc<Transform>, x: Expr, y: Expr)
    ensures
        ({
            let p = Projected::spec_of(t, x, y);
            let at = Point { x: x.value(m), y: y.value(m) };
            &&& p.w.value(m) == distance(m, *t, at)
            &&& p.x.value(m) == image(m, *t, at).x
            &&& p.y.value(m) == image(m, *t, at).y
            &&& p.spec_unusable().holds(m) == too_close(distance(m, *t, at))
        }),
{
    let p = Projected::spec_of(t, x, y);
    lemma_matrix_row(m, t, 0, x, y);
    lemma_matrix_row(m, t, 3, x, y);
    lemma_matrix_row(m, t, 6, x, y);
    assert(p.spec_unusable().holds(m) == too_close(p.w.value(m))) by {
        reveal_with_fuel(Test::holds, 4);
    }
}

proof fn lemma_matrix_row(m: Model, t: Arc<Transform>, row: u8, x: Expr, y: Expr)
    requires
        row <= 6,
    ensures
        matrix_row(&t, row, &x, &y).value(m) == (m.entry)(*t, row as int) * x.value(m) + (m.entry)(
            *t,
            row + 1,
        ) * y.value(m) + (m.entry)(*t, row + 2),
{
    reveal_with_fuel(Formula::value, 4);
}

proof fn lemma_corner(m: Model, rect: Rect, t: Arc<Transform>, i: int)
    requires
        0 <= i < 4,
    ensures
        ({
            let p = projected_corner(rect, t, i);
            let at = corner(m, rect, i);
            &&& p.x.value(m) == image(m, *t, at).x
            &&& p.y.value(m) == image(m, *t, at).y
            &&& p.spec_unusable().holds(m) == too_close(distance(m, *t, at))
        }),
{
    let right = sum(&rect.x, &rect.w);
    let bottom = sum(&rect.y, &rect.h);
    lemma_projected(m, t, rect.x, rect.y);
    lemma_projected(m, t, right, rect.y);
    lemma_projected(m, t, right, bottom);
    lemma_projected(m, t, rect.x, bottom);
}

/// Whether `low` and `extent` span four numbers tightly: none of them is
/// outside, one of them is at the start, and one is at the end, unless the span
/// is held to one pixel.
pub open spec fn spans_tightly(
    low: real,
    extent: real,
    a: real,
    b: real,
    c: real,
    d: real,
) -> bool {
    let high = low + extent;
    &&& low <= a <= high && low <= b <= high && low <= c <= high && low <= d <= high
    &&& low == a || low == b || low == c || low == d
    &&& extent >= 1real
    &&& extent == 1real || high == a || high == b || high == c || high == d
}

/// Whether a number is one that a single can hold in size.
pub open spec fn in_range(a: real) -> bool {
    (Single { bits: 0xff7f_ffff }).value() <= a <= (Single { bits: 0x7f7f_ffff }).value()
}

proof fn lemma_tight(m: Model, a: Expr, b: Expr, c: Expr, d: Expr, pad: Expr)
    requires
        in_range(a.value(m)),
        in_range(b.value(m)),
        in_range(c.value(m)),
        in_range(d.value(m)),
    ensures
        ({
            let low = smallest(LARGEST, &a, &b, &c, &d);
            let high = largest(LOWEST, &a, &b, &c, &d);
            let start = difference(&low, &pad).value(m) + pad.value(m);
            let extent = grown_extent(&low, &high, &pad).value(m) - pad.value(m) - pad.value(m);
            spans_tightly(start, extent, a.value(m), b.value(m), c.value(m), d.value(m))
        }),
{
    law_constants();
    let low = smallest(LARGEST, &a, &b, &c, &d);
    let high = largest(LOWEST, &a, &b, &c, &d);
    let (l, h, p) = (low.value(m), high.value(m), pad.value(m));
    assert(l <= a.value(m) && l <= b.value(m) && l <= c.value(m) && l <= d.value(m) && (l
        == a.value(m) || l == b.value(m) || l == c.value(m) || l == d.value(m))) by {
        reveal_with_fuel(Formula::value, 6);
    }
    assert(h >= a.value(m) && h >= b.value(m) && h >= c.value(m) && h >= d.value(m) && (h
        == a.value(m) || h == b.value(m) || h == c.value(m) || h == d.value(m))) by {
        reveal_with_fuel(Formula::value, 6);
    }
    let inner = difference(&high, &low);
    assert(inner.value(m) == h - l);
    assert(at_least(&inner, ONE).value(m) == if h - l < 1real {
        1real
    } else {
        h - l
    }) by {
        reveal_with_fuel(Formula::value, 2);
    }
    lemma_padding(m, pad);
    assert(grown_extent(&low, &high, &pad).value(m) == at_least(&inner, ONE).value(m) + (p + p));
    assert(difference(&low, &pad).value(m) == l - p);
}

/// Without a transform a layer is the rectangle, grown by the bleed on all four
/// sides.
pub proof fn law_untransformed_layer(m: Model, rect: Rect, pad: Expr)
    ensures
        ({
            let r = expanded(rect, None, pad);
            let p = pad.value(m);
            &&& r.x.value(m) == rect.x.value(m) - p
            &&& r.y.value(m) == rect.y.value(m) - p
            &&& r.w.value(m) == rect.w.value(m) + p + p
            &&& r.h.value(m) == rect.h.value(m) + p + p
        }),
{
    lemma_padding(m, pad);
}

/// With a transform a layer is the bounding box of the four corners where the
/// transform takes them, at least a pixel each way, grown by the bleed on all
/// four sides; but the grown rectangle itself where a corner is too close to the
/// viewer.
pub proof fn law_transformed_layer(m: Model, rect: Rect, t: Arc<Transform>, pad: Expr)
    ensures
        ({
            let r = expanded(rect, Some(t), pad);
            let p = pad.value(m);
            let (c0, c1, c2, c3) = (
                corner(m, rect, 0),
                corner(m, rect, 1),
                corner(m, rect, 2),
                corner(m, rect, 3),
            );
            let (i0, i1, i2, i3) = (
                image(m, *t, c0),
                image(m, *t, c1),
                image(m, *t, c2),
                image(m, *t, c3),
            );
            if too_close(distance(m, *t, c0)) || too_close(distance(m, *t, c1)) || too_close(
                distance(m, *t, c2),
            ) || too_close(distance(m, *t, c3)) {
                &&& r.x.value(m) == rect.x.value(m) - p
                &&& r.y.value(m) == rect.y.value(m) - p
                &&& r.w.value(m) == rect.w.value(m) + p + p
                &&& r.h.value(m) == rect.h.value(m) + p + p
            } else {
                &&& in_range(i0.x) && in_range(i1.x) && in_range(i2.x) && in_range(i3.x)
                    ==> spans_tightly(
                    r.x.value(m) + p,
                    r.w.value(m) - p - p,
                    i0.x,
                    i1.x,
                    i2.x,
                    i3.x,
                )
                &&& in_range(i0.y) && in_range(i1.y) && in_range(i2.y) && in_range(i3.y)
                    ==> spans_tightly(
                    r.y.value(m) + p,
                    r.h.value(m) - p - p,
                    i0.y,
                    i1.y,
                    i2.y,
                    i3.y,
                )
            }
        }),
{
    lemma_corner(m, rect, t, 0);
    lemma_corner(m, rect, t, 1);
    lemma_corner(m, rect, t, 2);
    lemma_corner(m, rect, t, 3);
    let (p0, p1, p2, p3) = (
        projected_corner(rect, t, 0),
        projected_corner(rect, t, 1),
        projected_corner(rect, t, 2),
        projected_corner(rect, t, 3),
    );
    let (a, b, c, d) = (
        p0.spec_unusable(),
        p1.spec_unusable(),
        p2.spec_unusable(),
        p3.spec_unusable(),
    );
    assert(either(&a, &b).holds(m) == (a.holds(m) || b.holds(m)));
    assert(either(&either(&a, &b), &c).holds(m) == (a.holds(m) || b.holds(m) || c.holds(m)));
    assert(unprojectable(rect, t).holds(m) == (a.holds(m) || b.holds(m) || c.holds(m) || d.holds(
        m,
    )));
    law_untransformed_layer(m, rect, pad);
    if in_range(p0.x.value(m)) && in_range(p1.x.value(m)) && in_range(p2.x.value(m)) && in_range(
        p3.x.value(m),
    ) {
        lemma_tight(m, p0.x, p1.x, p2.x, p3.x, pad);
    }
    if in_range(p0.y.value(m)) && in_range(p1.y.value(m)) && in_range(p2.y.value(m)) && in_range(
        p3.y.value(m),
    ) {
        lemma_tight(m, p0.y, p1.y, p2.y, p3.y, pad);
    }
}

/// What a test comes to where `leaf` says what each of its plain conditions comes
/// to.
pub open spec fn decided(test: Test, leaf: spec_fn(Test) -> bool) -> bool
    decreases test,
{
    match test {
        Test::Either(s, t) => decided(*s, leaf) || decided(*t, leaf),
        _ => leaf(test),
    }
}

proof fn lemma_either_decided(s: Arc<Test>, t: Arc<Test>, leaf: spec_fn(Test) -> bool)
    ensures
        decided(*either(&s, &t), leaf) == (decided(*s, leaf) || decided(*t, leaf)),
{
}

proof fn lemma_unusable_decided(p: Projected, leaf: spec_fn(Test) -> bool)
    ensures
        decided(*p.spec_unusable(), leaf) == (leaf(Test::NotFinite(p.w)) || leaf(
            Test::Within(p.w, Single { bits: 0x3586_37bd }),
        ) || leaf(Test::NotFinite(p.x)) || leaf(Test::NotFinite(p.y))),
{
    reveal_with_fuel(decided, 4);
}

/// A layer falls back to the grown rectangle exactly where some corner has a
/// distance or a place that is not a finite number, or a distance that is too
/// close to zero, whatever numbers the machine takes those for.
pub proof fn law_fallback_is_decided_corner_by_corner(
    rect: Rect,
    t: Arc<Transform>,
    leaf: spec_fn(Test) -> bool,
)
    ensures
        decided(*unprojectable(rect, t), leaf) <==> exists|i: int|
            0 <= i < 4 && {
                let p = #[trigger] projected_corner(rect, t, i);
                ||| leaf(Test::NotFinite(p.w))
                ||| leaf(Test::Within(p.w, Single { bits: 0x3586_37bd }))
                ||| leaf(Test::NotFinite(p.x))
                ||| leaf(Test::NotFinite(p.y))
            },
{
    let (p0, p1, p2, p3) = (
        projected_corner(rect, t, 0),
        projected_corner(rect, t, 1),
        projected_corner(rect, t, 2),
        projected_corner(rect, t, 3),
    );
    lemma_unusable_decided(p0, leaf);
    lemma_unusable_decided(p1, leaf);
    lemma_unusable_decided(p2, leaf);
    lemma_unusable_decided(p3, leaf);
    let (a, b, c, d) = (
        p0.spec_unusable(),
        p1.spec_unusable(),
        p2.spec_unusable(),
        p3.spec_unusable(),
    );
    lemma_either_decided(a, b, leaf);
    lemma_either_decided(either(&a, &b), c, leaf);
    lemma_either_decided(either(&either(&a, &b), &c), d, leaf);
}

} // verus!
