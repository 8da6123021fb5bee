//! How the transform of a run moves its points, in exact arithmetic.

use crate::formula::{constant, negated, number, product, quotient, sum, Expr, Formula, Model};
use crate::geometry::{
    degrees, lemma_cancels, lemma_distributes, lemma_regroups, lemma_rotation_about_pivot,
    rotation_rows, turned_back, turned_on, Rect, Transform, Turn, LIBASS_FOCAL_PX,
};
use crate::number_laws::{law_constants, lemma_undivided};
use crate::run::{
    flat_pivot, percent, run_transform, shear_or_zero, tilt_pivot, Rotation, RunStyle, HUNDRED,
};
use crate::single::{Single, ONE, ZERO};
use std::sync::Arc;
use vstd::prelude::*;

verus! {

/// The number nearest to pi that a single holds.
pub open spec fn nearest_pi() -> real {
    (Single { bits: 0x4049_0fdb }).value()
}

/// An angle in degrees, in radians.
pub open spec fn radians(angle: Single) -> real {
    angle.value() * nearest_pi() / 180real
}

/// `k` of one and `l` of another number, times a third.
proof fn lemma_combination(k: real, x: real, l: real, y: real, c: real)
    ensures
        (k * x + l * y) * c == k * (x * c) + l * (y * c),
{
    lemma_regroups(k * x + l * y, c, c);
    lemma_distributes(c, k * x, l * y);
    lemma_regroups(c, k * x, c);
    lemma_regroups(c, l * y, c);
    lemma_regroups(k, x, c);
    lemma_regroups(l, y, c);
}

/// Two such combinations, added and subtracted.
proof fn lemma_combined(k: real, a: real, b: real, l: real, c: real, d: real)
    ensures
        (k * a + l * c) + (k * b + l * d) == k * (a + b) + l * (c + d),
        (k * a + l * c) - (k * b + l * d) == k * (a - b) + l * (c - d),
{
    lemma_distributes(k, a, b);
    lemma_distributes(l, c, d);
    lemma_distributes(k, a - b, b);
    lemma_distributes(l, c - d, d);
}

/// The values of a turned direction: about the viewing axis, then about the
/// horizontal axis, then about the vertical axis.
proof fn lemma_column_values(
    m: Model,
    frx: Single,
    fry: Single,
    frz: Single,
    x: Expr,
    y: Expr,
)
    ensures
        ({
            let turn = Turn::spec_of(number(frx), number(fry), number(frz));
            let column = turn.spec_column(x, y);
            let (sx, cx) = ((m.sine)(radians(frx)), (m.cosine)(radians(frx)));
            let (sy, cy) = ((m.sine)(radians(fry)), (m.cosine)(radians(fry)));
            let (sz, cz) = ((m.sine)(radians(frz)), (m.cosine)(radians(frz)));
            let (x1, y1) = (x.value(m), y.value(m));
            let (x2, y2) = (x1 * cz + y1 * sz, y1 * cz - x1 * sz);
            let z3 = 0real - y2 * sx;
            &&& column.x.value(m) == x2 * cy - z3 * sy
            &&& column.y.value(m) == y2 * cx
            &&& column.z.value(m) == x2 * sy + z3 * cy
        }),
{
    law_constants();
    let turn = Turn::spec_of(number(frx), number(fry), number(frz));
    lemma_radians(m, frx);
    lemma_radians(m, fry);
    lemma_radians(m, frz);
    let (sx, sz) = ((m.sine)(radians(frx)), (m.sine)(radians(frz)));
    assert(turn.sx.value(m) == 0real - sx && turn.sz.value(m) == 0real - sz) by {
        reveal_with_fuel(Formula::value, 2);
    }
    assert(turn.cx.value(m) == (m.cosine)(radians(frx)));
    assert(turn.cy.value(m) == (m.cosine)(radians(fry)));
    assert(turn.cz.value(m) == (m.cosine)(radians(frz)));
    assert(turn.sy.value(m) == (m.sine)(radians(fry)));
    let (x1, y1) = (x.value(m), y.value(m));
    let x2 = turned_back(&x, &turn.cz, &y, &turn.sz);
    let y2 = turned_on(&x, &turn.sz, &y, &turn.cz);
    let z3 = product(&y2, &turn.sx);
    lemma_negative(y1, sz);
    lemma_negative(x1, sz);
    assert(x2.value(m) == x1 * turn.cz.value(m) + y1 * sz) by {
        reveal_with_fuel(Formula::value, 2);
    }
    assert(y2.value(m) == y1 * turn.cz.value(m) - x1 * sz) by {
        reveal_with_fuel(Formula::value, 2);
    }
    lemma_negative(y2.value(m), sx);
    assert(z3.value(m) == 0real - y2.value(m) * sx);
    let column = turn.spec_column(x, y);
    assert(column.x.value(m) == x2.value(m) * turn.cy.value(m) - z3.value(m) * turn.sy.value(
        m,
    )) by {
        reveal_with_fuel(Formula::value, 2);
    }
    assert(column.z.value(m) == x2.value(m) * turn.sy.value(m) + z3.value(m) * turn.cy.value(
        m,
    )) by {
        reveal_with_fuel(Formula::value, 2);
    }
    assert(column.y.value(m) == y2.value(m) * turn.cx.value(m));
}

proof fn lemma_negative(a: real, b: real)
    by (nonlinear_arith)
    ensures
        a * (0real - b) == 0real - a * b,
{
}

proof fn lemma_radians(m: Model, angle: Single)
    ensures
        degrees(&number(angle)).value(m) == radians(angle),
{
    law_constants();
    reveal_with_fuel(Formula::value, 3);
}

/// What turning does to `k` of one direction and `l` of another is `k` of what
/// it does to the one and `l` of what it does to the other.
proof fn lemma_turning_is_linear(
    k: real,
    xa: real,
    ya: real,
    l: real,
    xd: real,
    yd: real,
    sx: real,
    cx: real,
    sy: real,
    cy: real,
    sz: real,
    cz: real,
)
    ensures
        ({
            let (x1, y1) = (k * xa + l * xd, k * ya + l * yd);
            let (x2, y2) = (x1 * cz + y1 * sz, y1 * cz - x1 * sz);
            let z3 = 0real - y2 * sx;
            let (x2a, y2a) = (xa * cz + ya * sz, ya * cz - xa * sz);
            let z3a = 0real - y2a * sx;
            let (x2d, y2d) = (xd * cz + yd * sz, yd * cz - xd * sz);
            let z3d = 0real - y2d * sx;
            &&& x2 * cy - z3 * sy == k * (x2a * cy - z3a * sy) + l * (x2d * cy - z3d * sy)
            &&& y2 * cx == k * (y2a * cx) + l * (y2d * cx)
            &&& x2 * sy + z3 * cy == k * (x2a * sy + z3a * cy) + l * (x2d * sy + z3d * cy)
        }),
{
    let (x1, y1) = (k * xa + l * xd, k * ya + l * yd);
    let (x2, y2) = (x1 * cz + y1 * sz, y1 * cz - x1 * sz);
    let z3 = 0real - y2 * sx;
    let (x2a, y2a) = (xa * cz + ya * sz, ya * cz - xa * sz);
    let z3a = 0real - y2a * sx;
    let (x2d, y2d) = (xd * cz + yd * sz, yd * cz - xd * sz);
    let z3d = 0real - y2d * sx;
    assert(x2 == k * x2a + l * x2d) by {
        lemma_combination(k, xa, l, xd, cz);
        lemma_combination(k, ya, l, yd, sz);
        lemma_combined(k, xa * cz, ya * sz, l, xd * cz, yd * sz);
    }
    assert(y2 == k * y2a + l * y2d) by {
        lemma_combination(k, ya, l, yd, cz);
        lemma_combination(k, xa, l, xd, sz);
        lemma_combined(k, ya * cz, xa * sz, l, yd * cz, xd * sz);
    }
    assert(z3 == k * z3a + l * z3d) by {
        lemma_combination(k, y2a, l, y2d, sx);
        lemma_combined(k, 0real, y2a * sx, l, 0real, y2d * sx);
        lemma_nothing(k);
        lemma_nothing(l);
    }
    lemma_combination(k, y2a, l, y2d, cx);
    lemma_combination(k, x2a, l, x2d, cy);
    lemma_combination(k, z3a, l, z3d, sy);
    lemma_combined(k, x2a * cy, z3a * sy, l, x2d * cy, z3d * sy);
    lemma_combination(k, x2a, l, x2d, sy);
    lemma_combination(k, z3a, l, z3d, cy);
    lemma_combined(k, x2a * sy, z3a * cy, l, x2d * sy, z3d * cy);
}

proof fn lemma_nothing(k: real)
    by (nonlinear_arith)
    ensures
        k * 0real == 0real,
        k * 1real == k,
{
}

/// A sum of multiples, divided.
proof fn lemma_divided(k: real, a: real, l: real, b: real, focal: real)
    requires
        focal > 0real,
    ensures
        (k * a + l * b) / focal == k * (a / focal) + l * (b / focal),
{
    let (s, p, q) = ((k * a + l * b) / focal, a / focal, b / focal);
    lemma_undivided(k * a + l * b, focal);
    lemma_undivided(a, focal);
    lemma_undivided(b, focal);
    lemma_combination(k, p, l, q, focal);
    lemma_cancels(s, k * p + l * q, focal);
}

/// The centre that a run is turned about: the given one, or the middle of the
/// run.
pub open spec fn centre(m: Model, origin: Option<(Single, Single)>, rect: Rect) -> (real, real) {
    match origin {
        Some(o) => (o.0.value(), o.1.value()),
        None => (
            rect.x.value(m) + rect.w.value(m) / 2real,
            rect.y.value(m) + rect.h.value(m) / 2real,
        ),
    }
}

/// Where the rotation of a text plane by three angles about its own axes takes
/// the direction `(x, y)`: to the right, down, and away from the viewer. The
/// plane is turned about the viewing axis by `z`, then about the horizontal axis
/// by `x`, then about the vertical axis by `y`.
pub open spec fn turned(m: Model, r: Rotation, x: real, y: real) -> (real, real, real) {
    let (sx, cx) = ((m.sine)(radians(r.x)), (m.cosine)(radians(r.x)));
    let (sy, cy) = ((m.sine)(radians(r.y)), (m.cosine)(radians(r.y)));
    let (sz, cz) = ((m.sine)(radians(r.z)), (m.cosine)(radians(r.z)));
    let (x2, y2) = (x * cz + y * sz, y * cz - x * sz);
    let z3 = 0real - y2 * sx;
    (x2 * cy - z3 * sy, y2 * cx, x2 * sy + z3 * cy)
}

/// The rows of a rotation move the point that is `u` to the right of the pivot
/// and `v` below it as a viewer sees it who is 312.5 pixels away: it is scaled,
/// then sheared, then turned about the three axes, and then divided by its
/// distance.
pub proof fn law_rotation_is_seen_in_perspective(
    m: Model,
    r: Rotation,
    shear: (Expr, Expr),
    fscx: Expr,
    px: Expr,
    py: Expr,
    u: real,
    v: real,
)
    ensures
        ({
            let rows = rotation_rows(
                number(r.x),
                number(r.y),
                number(r.z),
                shear.0,
                shear.1,
                fscx,
                px,
                py,
            );
            let (x, y) = (px.value(m), py.value(m));
            let wide = fscx.value(m) * u;
            let to = turned(
                m,
                r,
                wide + shear.0.value(m) * v,
                shear.1.value(m) * wide + v,
            );
            let distance = 1real + to.2 / (625real / 2real);
            &&& rows.0.applied(m, x + u, y + v) == x * distance + to.0
            &&& rows.1.applied(m, x + u, y + v) == y * distance + to.1
            &&& rows.2.applied(m, x + u, y + v) == distance
        }),
{
    law_constants();
    let (frx, fry, frz) = (number(r.x), number(r.y), number(r.z));
    lemma_rotation_about_pivot(m, frx, fry, frz, shear.0, shear.1, fscx, px, py, u, v);
    let one = constant(ONE);
    assert(one.value(m) == 1real);
    lemma_column_values(m, r.x, r.y, r.z, one, shear.1);
    lemma_column_values(m, r.x, r.y, r.z, shear.0, one);
    let turn = Turn::spec_of(frx, fry, frz);
    let (along, down) = (turn.spec_column(one, shear.1), turn.spec_column(shear.0, one));
    let (ax, ay, az) = (along.x.value(m), along.y.value(m), along.z.value(m));
    let (dx, dy, dz) = (down.x.value(m), down.y.value(m), down.z.value(m));
    let (f, k) = (fscx.value(m), fscx.value(m) * u);
    let (fax, fay) = (shear.0.value(m), shear.1.value(m));
    lemma_turning_is_linear(
        k,
        1real,
        fay,
        v,
        fax,
        1real,
        (m.sine)(radians(r.x)),
        (m.cosine)(radians(r.x)),
        (m.sine)(radians(r.y)),
        (m.cosine)(radians(r.y)),
        (m.sine)(radians(r.z)),
        (m.cosine)(radians(r.z)),
    );
    lemma_nothing(k);
    lemma_nothing(v);
    lemma_regroups(v, fax, v);
    lemma_regroups(k, fay, k);
    let to = turned(m, r, k + fax * v, fay * k + v);
    assert(to == (k * ax + v * dx, k * ay + v * dy, k * az + v * dz));
    let focal = 625real / 2real;
    assert(constant(LIBASS_FOCAL_PX).value(m) == focal);
    lemma_divided(k, az, v, dz, focal);
    let (zx, zy) = ((az * f) / focal, dz / focal);
    assert(zx * u == k * (az / focal)) by {
        lemma_divided(f, az, 0real, az, focal);
        lemma_regroups(f, az, f);
        lemma_zero(az);
        lemma_zero(az / focal);
        lemma_regroups(f, az / focal, u);
        lemma_regroups(f, u, az / focal);
        lemma_regroups(az / focal, u, f);
        lemma_regroups(f, (az / focal) * u, u);
        lemma_regroups(f, u * (az / focal), u);
    }
    let depth = to.2 / focal;
    assert(depth == zx * u + zy * v) by {
        lemma_regroups(v, zy, v);
    }
    lemma_seen(px.value(m), ax, dx, f, u, v, zx, zy, k, depth);
    lemma_seen(py.value(m), ay, dy, f, u, v, zx, zy, k, depth);
}

proof fn lemma_zero(a: real)
    by (nonlinear_arith)
    ensures
        0real * a == 0real,
{
}

proof fn lemma_seen(
    p: real,
    a: real,
    d: real,
    f: real,
    u: real,
    v: real,
    zx: real,
    zy: real,
    k: real,
    depth: real,
)
    requires
        k == f * u,
        depth == zx * u + zy * v,
    ensures
        p + (a * f + p * zx) * u + (d + p * zy) * v == p * (1real + depth) + (k * a + v * d),
{
    lemma_combination(f, a, p, zx, u);
    lemma_regroups(f, a, f);
    lemma_regroups(f, a, u);
    lemma_regroups(a, u, f);
    lemma_regroups(f, u, a);
    lemma_regroups(p, zx, u);
    lemma_combination(1real, d, p, zy, v);
    lemma_nothing(d);
    lemma_regroups(1real, d, d);
    lemma_nothing(d * v);
    lemma_regroups(1real, d * v, d);
    lemma_regroups(d, v, v);
    lemma_distributes(p, 1real, depth);
    lemma_nothing(p);
    lemma_distributes(p, zx * u, zy * v);
}

/// The shear of a style, by value.
pub open spec fn sheared(m: Model, style: RunStyle) -> (real, real) {
    match style.shear {
        Some(s) => (s.0.value(m), s.1.value(m)),
        None => (0real, 0real),
    }
}

/// The horizontal factor of a style.
pub open spec fn stretched(style: RunStyle) -> real {
    match style.scale {
        Some(p) => p.value() / 100real,
        None => 1real,
    }
}

/// A run that is rotated about the horizontal or the vertical axis is seen in
/// perspective. The point that is `u` to the right of its centre and `v` below
/// is stretched, sheared, turned by `x` about the horizontal axis, by `y` about
/// the vertical axis and by `z` about the viewing axis, and then divided by its
/// distance from the viewer; the centre stays where it is.
pub proof fn law_tilted_run_is_seen_in_perspective(
    m: Model,
    style: RunStyle,
    r: Rotation,
    rect: Rect,
    u: real,
    v: real,
)
    requires
        style.rotation == Some(r),
        r.x.rank() != 0 || r.y.rank() != 0,
    ensures
        ({
            let (x, y) = centre(m, r.origin, rect);
            let (fax, fay) = sheared(m, style);
            let wide = stretched(style) * u;
            let to = turned(m, r, wide + fax * v, fay * wide + v);
            let distance = 1real + to.2 / (625real / 2real);
            match run_transform(style, rect) {
                Some(t) => match *t {
                    Transform::Projective { row_x, row_y, row_w } => {
                        &&& row_x.applied(m, x + u, y + v) == x * distance + to.0
                        &&& row_y.applied(m, x + u, y + v) == y * distance + to.1
                        &&& row_w.applied(m, x + u, y + v) == distance
                    },
                    _ => false,
                },
                None => false,
            }
        }),
{
    law_constants();
    let fscx = match style.scale {
        Some(p) => product(&percent(p), &constant(HUNDRED)),
        None => constant(HUNDRED),
    };
    let factor = quotient(&fscx, &constant(HUNDRED));
    assert(factor.value(m) == stretched(style)) by {
        reveal_with_fuel(Formula::value, 4);
        if let Some(p) = style.scale {
            lemma_undivided(p.value(), 100real);
        }
    }
    let pivot = tilt_pivot(r.origin, rect);
    assert(pivot.0.value(m) == centre(m, r.origin, rect).0 && pivot.1.value(m) == centre(
        m,
        r.origin,
        rect,
    ).1) by {
        reveal_with_fuel(Formula::value, 3);
    }
    let shear = shear_or_zero(style.shear);
    assert(shear.0.value(m) == sheared(m, style).0 && shear.1.value(m) == sheared(m, style).1);
    law_rotation_is_seen_in_perspective(m, r, shear, factor, pivot.0, pivot.1, u, v);
}

/// A run that is rotated about the horizontal axis alone is equally far away from
/// left to right, and recedes upwards by the sine of the angle. One that is
/// rotated about the vertical axis alone is equally far away from top to bottom,
/// and recedes to the right by the sine of the angle.
pub proof fn law_tilt_about_one_axis(m: Model, style: RunStyle, r: Rotation, rect: Rect)
    requires
        style.rotation == Some(r),
        style.shear is None,
        style.scale is None,
        r.z.value() == 0real,
        (m.sine)(0real) == 0real,
        (m.cosine)(0real) == 1real,
    ensures
        r.x.rank() != 0 && r.y.value() == 0real ==> match run_transform(style, rect) {
            Some(t) => match *t {
                Transform::Projective { row_w, .. } => {
                    &&& row_w.a.value(m) == 0real
                    &&& row_w.b.value(m) == (0real - (m.sine)(radians(r.x))) / (625real / 2real)
                },
                _ => false,
            },
            None => false,
        },
        r.y.rank() != 0 && r.x.value() == 0real ==> match run_transform(style, rect) {
            Some(t) => match *t {
                Transform::Projective { row_w, .. } => {
                    &&& row_w.a.value(m) == (m.sine)(radians(r.y)) / (625real / 2real)
                    &&& row_w.b.value(m) == 0real
                },
                _ => false,
            },
            None => false,
        },
{
    let pi = nearest_pi();
    assert(0real * pi / 180real == 0real) by {
        lemma_zero(pi);
    }
    if r.x.rank() != 0 || r.y.rank() != 0 {
        law_tilted_run_is_seen_in_perspective(m, style, r, rect, 0real, 0real);
        law_tilted_run_is_seen_in_perspective(m, style, r, rect, 1real, 0real);
        law_tilted_run_is_seen_in_perspective(m, style, r, rect, 0real, 1real);
        let (x, y) = centre(m, r.origin, rect);
        if let Some(t) = run_transform(style, rect) {
            if let Transform::Projective { row_w, .. } = *t {
                let (a, b) = (row_w.a.value(m), row_w.b.value(m));
                lemma_distributes(a, x, 1real);
                lemma_distributes(b, y, 1real);
                lemma_nothing(a);
                lemma_nothing(b);
                lemma_nothing(stretched(style));
                lemma_zero(0real);
                lemma_zero(1real);
                lemma_no_direction(m, r);
                assert(a == turned(m, r, 1real, 0real).2 / (625real / 2real));
                assert(b == turned(m, r, 0real, 1real).2 / (625real / 2real));
                lemma_one_axis(m, r);
            }
        }
    }
}

proof fn lemma_one_axis(m: Model, r: Rotation)
    requires
        (m.sine)(radians(r.z)) == 0real,
        (m.cosine)(radians(r.z)) == 1real,
    ensures
        (m.sine)(radians(r.y)) == 0real && (m.cosine)(radians(r.y)) == 1real ==> turned(
            m,
            r,
            1real,
            0real,
        ).2 == 0real && turned(m, r, 0real, 1real).2 == 0real - (m.sine)(radians(r.x)),
        (m.sine)(radians(r.x)) == 0real ==> turned(m, r, 1real, 0real).2 == (m.sine)(radians(r.y))
            && turned(m, r, 0real, 1real).2 == 0real,
{
    let (sx, sy, cy) = ((m.sine)(radians(r.x)), (m.sine)(radians(r.y)), (m.cosine)(radians(r.y)));
    lemma_zero(sx);
    lemma_zero(sy);
    lemma_zero(cy);
    lemma_zero(0real);
    lemma_zero(1real);
    lemma_nothing(1real);
    lemma_regroups(1real, sx, 1real);
    lemma_regroups(1real, sy, 1real);
    lemma_nothing(sx);
    lemma_nothing(sy);
    lemma_nothing(0real - sx);
}

proof fn lemma_no_direction(m: Model, r: Rotation)
    ensures
        turned(m, r, 0real, 0real) == (0real, 0real, 0real),
{
    lemma_zero((m.sine)(radians(r.x)));
    lemma_zero((m.cosine)(radians(r.x)));
    lemma_zero((m.sine)(radians(r.y)));
    lemma_zero((m.cosine)(radians(r.y)));
    lemma_zero((m.sine)(radians(r.z)));
    lemma_zero((m.cosine)(radians(r.z)));
}

/// A run that is stretched, sheared or turned in its plane, and not tilted, is
/// stretched to the right and never down, sheared by all of its shears, and
/// turned against the clock by its angle, about the given centre or its own.
pub proof fn law_flat_run_keeps_its_plane(m: Model, style: RunStyle, rect: Rect)
    requires
        style.rotation matches Some(r) ==> r.x.rank() == 0 && r.y.rank() == 0,
        style.rotation is Some || style.scale is Some || style.shear is Some,
        rect.w.value(m) >= 1real,
        rect.h.value(m) >= 1real,
    ensures
        ({
            let (angle, origin) = match style.rotation {
                Some(r) => (r.z.value(), r.origin),
                None => (0real, None),
            };
            let (x, y) = centre(m, origin, rect);
            match run_transform(style, rect) {
                Some(t) => match *t {
                    Transform::Parts {
                        scale_x,
                        scale_y,
                        rotate,
                        shear_x,
                        shear_y,
                        origin_x,
                        origin_y,
                    } => {
                        &&& scale_x.value(m) == stretched(style)
                        &&& scale_y.value(m) == 1real
                        &&& rotate.value(m) == 0real - angle * m.degree
                        &&& shear_x.value(m) == sheared(m, style).0
                        &&& shear_y.value(m) == sheared(m, style).1
                        &&& rect.x.value(m) + rect.w.value(m) * origin_x.value(m) == x
                        &&& rect.y.value(m) + rect.h.value(m) * origin_y.value(m) == y
                    },
                    _ => false,
                },
                None => false,
            }
        }),
{
    law_constants();
    let origin = match style.rotation {
        Some(r) => r.origin,
        None => None,
    };
    let angle = match style.rotation {
        Some(r) => number(r.z),
        None => constant(ZERO),
    };
    let pivot = flat_pivot(origin, rect);
    let turn = negated(&Arc::new(Formula::Radians(angle)));
    assert(turn.value(m) == 0real - angle.value(m) * m.degree) by {
        reveal_with_fuel(Formula::value, 2);
    }
    if let Some(p) = style.scale {
        assert(percent(p).value(m) == p.value() / 100real) by {
            reveal_with_fuel(Formula::value, 2);
        }
    }
    lemma_flat_pivot(m, origin, rect);
    let shear = shear_or_zero(style.shear);
    assert(shear.0.value(m) == sheared(m, style).0 && shear.1.value(m) == sheared(m, style).1);
}

proof fn lemma_flat_pivot(m: Model, origin: Option<(Single, Single)>, rect: Rect)
    requires
        rect.w.value(m) >= 1real,
        rect.h.value(m) >= 1real,
    ensures
        ({
            let pivot = flat_pivot(origin, rect);
            let (x, y) = centre(m, origin, rect);
            &&& rect.x.value(m) + rect.w.value(m) * pivot.0.value(m) == x
            &&& rect.y.value(m) + rect.h.value(m) * pivot.1.value(m) == y
        }),
{
    law_constants();
    let (w, h) = (rect.w.value(m), rect.h.value(m));
    let pivot = flat_pivot(origin, rect);
    match origin {
        Some(o) => {
            let (dx, dy) = (o.0.value() - rect.x.value(m), o.1.value() - rect.y.value(m));
            assert(pivot.0.value(m) == dx / w && pivot.1.value(m) == dy / h) by {
                reveal_with_fuel(Formula::value, 3);
            }
            lemma_undivided(dx, w);
            lemma_undivided(dy, h);
            lemma_regroups(w, dx / w, w);
            lemma_regroups(h, dy / h, h);
        },
        None => {
            assert(pivot.0.value(m) == 1real / 2real && pivot.1.value(m) == 1real / 2real);
            assert(w * (1real / 2real) == w / 2real && h * (1real / 2real) == h / 2real)
                by (nonlinear_arith);
        },
    }
}

} // verus!
