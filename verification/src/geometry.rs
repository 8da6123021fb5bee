//! Rectangles and transforms of a scene, and the measures derived from them.

use crate::formula::{
    at_least, choice, constant, cosine, difference, either, larger, matrix_entry, negated,
    not_finite, product, quotient, sine, smaller, sum, Expr, Formula, Model, Test,
};
use crate::single::{law_positive_is_above_zero, lemma_one_and_two, Single, ONE, TWO};
use std::sync::Arc;
use vstd::prelude::*;

verus! {

/// Bit pattern of `180.0`.
pub const HALF_TURN: u32 = 0x4334_0000;

/// Bit pattern of pi.
pub const PI: u32 = 0x4049_0fdb;

/// Bit pattern of `1e-6`: homogeneous coordinates closer to zero than this are
/// not divided by.
pub const SMALLEST_DEPTH: u32 = 0x3586_37bd;

/// Bit pattern of the largest finite number.
pub const LARGEST: u32 = 0x7f7f_ffff;

/// Bit pattern of the lowest finite number.
pub const LOWEST: u32 = 0xff7f_ffff;

/// Bit pattern of `312.5`: the perspective focal length in screen pixels.
///
/// libass rotates with a distance of 20000 outline units, and an outline unit
/// is 1/64 of a pixel whatever the font size or the resolution.
pub const LIBASS_FOCAL_PX: u32 = 0x439c_4000;

/// An axis-aligned rectangle in physical pixels.
#[derive(Debug)]
pub struct Rect {
    /// Left edge.
    pub x: Expr,
    /// Top edge.
    pub y: Expr,
    /// Width.
    pub w: Expr,
    /// Height.
    pub h: Expr,
}

impl Rect {
    /// Another handle on the same rectangle.
    pub fn share(&self) -> (r: Rect)
        ensures
            r == *self,
    {
        Rect { x: self.x.clone(), y: self.y.clone(), w: self.w.clone(), h: self.h.clone() }
    }
}

/// One row `(a, b, c)` of a homogeneous matrix: it maps a point to
/// `a * x + b * y + c`.
#[derive(Debug)]
pub struct Row {
    /// Factor of the horizontal coordinate.
    pub a: Expr,
    /// Factor of the vertical coordinate.
    pub b: Expr,
    /// Constant part.
    pub c: Expr,
}

impl Row {
    /// The row applied to a point, in exact arithmetic.
    pub open spec fn applied(self, m: Model, x: real, y: real) -> real {
        self.a.value(m) * x + self.b.value(m) * y + self.c.value(m)
    }
}

/// A transform that a scene pushes around a subtree.
#[derive(Debug)]
pub enum Transform {
    /// A shift.
    Translation {
        /// Horizontal shift.
        x: Expr,
        /// Vertical shift.
        y: Expr,
    },
    /// Scale, then shear, then rotation about a pivot that is given as a
    /// fraction of the target rectangle. No shift and no perspective.
    Parts {
        /// Horizontal scale factor.
        scale_x: Expr,
        /// Vertical scale factor.
        scale_y: Expr,
        /// Rotation in radians.
        rotate: Expr,
        /// Horizontal shear factor.
        shear_x: Expr,
        /// Vertical shear factor.
        shear_y: Expr,
        /// Horizontal pivot.
        origin_x: Expr,
        /// Vertical pivot.
        origin_y: Expr,
    },
    /// A projective map given by its three homogeneous rows.
    Projective {
        /// Row of the horizontal coordinate.
        row_x: Row,
        /// Row of the vertical coordinate.
        row_y: Row,
        /// Row that both are divided by.
        row_w: Row,
    },
}

/// Sines and cosines of a rotation about the three axes, in the signs that
/// libass uses: the sines of the first and the last axis are negated.
pub struct Turn {
    /// Negated sine about the horizontal axis.
    pub sx: Expr,
    /// Cosine about the horizontal axis.
    pub cx: Expr,
    /// Sine about the vertical axis.
    pub sy: Expr,
    /// Cosine about the vertical axis.
    pub cy: Expr,
    /// Negated sine about the viewing axis.
    pub sz: Expr,
    /// Cosine about the viewing axis.
    pub cz: Expr,
}

/// Where a direction of the text plane ends up after a rotation.
pub struct Column {
    /// Horizontal part.
    pub x: Expr,
    /// Vertical part.
    pub y: Expr,
    /// Depth.
    pub z: Expr,
}

/// An angle in degrees as radians: times pi, then divided by a half turn.
#[verifier::allow_in_spec]
pub fn degrees(angle: &Expr) -> Expr
    returns
        quotient(&product(angle, &constant(PI)), &constant(HALF_TURN)),
{
    quotient(&product(angle, &constant(PI)), &constant(HALF_TURN))
}

/// `a * c - b * s`.
#[verifier::allow_in_spec]
pub fn turned_back(a: &Expr, c: &Expr, b: &Expr, s: &Expr) -> Expr
    returns
        difference(&product(a, c), &product(b, s)),
{
    difference(&product(a, c), &product(b, s))
}

/// `a * s + b * c`.
#[verifier::allow_in_spec]
pub fn turned_on(a: &Expr, s: &Expr, b: &Expr, c: &Expr) -> Expr
    returns
        sum(&product(a, s), &product(b, c)),
{
    sum(&product(a, s), &product(b, c))
}

impl Turn {
    /// The turn for three angles in degrees.
    pub open spec fn spec_of(frx: Expr, fry: Expr, frz: Expr) -> Turn {
        Turn {
            sx: negated(&sine(&degrees(&frx))),
            cx: cosine(&degrees(&frx)),
            sy: sine(&degrees(&fry)),
            cy: cosine(&degrees(&fry)),
            sz: negated(&sine(&degrees(&frz))),
            cz: cosine(&degrees(&frz)),
        }
    }

    fn of(frx: &Expr, fry: &Expr, frz: &Expr) -> (turn: Turn)
        ensures
            turn == Turn::spec_of(*frx, *fry, *frz),
    {
        let x = degrees(frx);
        let y = degrees(fry);
        let z = degrees(frz);
        Turn {
            sx: negated(&sine(&x)),
            cx: cosine(&x),
            sy: sine(&y),
            cy: cosine(&y),
            sz: negated(&sine(&z)),
            cz: cosine(&z),
        }
    }

    /// The direction `(x, y)` of the text plane, turned about the viewing axis
    /// first, then about the horizontal axis, then about the vertical one.
    pub open spec fn spec_column(self, x: Expr, y: Expr) -> Column {
        let x2 = turned_back(&x, &self.cz, &y, &self.sz);
        let y2 = turned_on(&x, &self.sz, &y, &self.cz);
        let z3 = product(&y2, &self.sx);
        Column {
            x: turned_back(&x2, &self.cy, &z3, &self.sy),
            y: product(&y2, &self.cx),
            z: turned_on(&x2, &self.sy, &z3, &self.cy),
        }
    }

    fn column(&self, x: &Expr, y: &Expr) -> (column: Column)
        ensures
            column == self.spec_column(*x, *y),
    {
        let x2 = turned_back(x, &self.cz, y, &self.sz);
        let y2 = turned_on(x, &self.sz, y, &self.cz);
        let z3 = product(&y2, &self.sx);
        Column {
            x: turned_back(&x2, &self.cy, &z3, &self.sy),
            y: product(&y2, &self.cx),
            z: turned_on(&x2, &self.sy, &z3, &self.cy),
        }
    }
}

/// The row with factors `a` and `b` that maps the pivot `(px, py)` to `p`.
#[verifier::allow_in_spec]
pub fn row_through(p: &Expr, a: &Expr, b: &Expr, px: &Expr, py: &Expr) -> Row
    returns
        (Row { a: *a, b: *b, c: difference(&difference(p, &product(a, px)), &product(b, py)) }),
{
    Row {
        a: a.clone(),
        b: b.clone(),
        c: difference(&difference(p, &product(a, px)), &product(b, py)),
    }
}

/// The rows of [`libass_rotation_rows`]: the two axes of the text plane,
/// sheared, are turned. The scale comes before both, so it multiplies all that
/// becomes of the horizontal axis and nothing of the vertical one. The depth
/// over the focal length is the perspective row, and couples into the other two
/// in proportion to the pivot.
pub open spec fn rotation_rows(
    frx: Expr,
    fry: Expr,
    frz: Expr,
    fax: Expr,
    fay: Expr,
    fscx: Expr,
    px: Expr,
    py: Expr,
) -> (Row, Row, Row) {
    let turn = Turn::spec_of(frx, fry, frz);
    let one = constant(ONE);
    let along = turn.spec_column(one, fay);
    let down = turn.spec_column(fax, one);
    let zx = quotient(&product(&along.z, &fscx), &constant(LIBASS_FOCAL_PX));
    let zy = quotient(&down.z, &constant(LIBASS_FOCAL_PX));
    (
        row_through(
            &px,
            &sum(&product(&along.x, &fscx), &product(&px, &zx)),
            &sum(&down.x, &product(&px, &zy)),
            &px,
            &py,
        ),
        row_through(
            &py,
            &sum(&product(&along.y, &fscx), &product(&py, &zx)),
            &sum(&down.y, &product(&py, &zy)),
            &px,
            &py,
        ),
        Row {
            a: zx,
            b: zy,
            c: difference(&one, &sum(&product(&zx, &px), &product(&zy, &py))),
        },
    )
}

/// The libass rotation of the text plane as homogeneous rows about a pivot.
///
/// The angles are degrees about the horizontal (`frx`), the vertical (`fry`)
/// and the viewing axis (`frz`); `fax` and `fay` shear before the rotation,
/// and `fscx` scales horizontally before the shear. The rows are those of the
/// horizontal and vertical coordinates and of the divisor.
pub fn libass_rotation_rows(
    frx: &Expr,
    fry: &Expr,
    frz: &Expr,
    fax: &Expr,
    fay: &Expr,
    fscx: &Expr,
    px: &Expr,
    py: &Expr,
) -> (rows: (Row, Row, Row))
    ensures
        rows == rotation_rows(*frx, *fry, *frz, *fax, *fay, *fscx, *px, *py),
{
    let turn = Turn::of(frx, fry, frz);
    let one = constant(ONE);
    let along = turn.column(&one, fay);
    let down = turn.column(fax, &one);
    let zx = quotient(&product(&along.z, fscx), &constant(LIBASS_FOCAL_PX));
    let zy = quotient(&down.z, &constant(LIBASS_FOCAL_PX));
    let row_x = row_through(
        px,
        &sum(&product(&along.x, fscx), &product(px, &zx)),
        &sum(&down.x, &product(px, &zy)),
        px,
        py,
    );
    let row_y = row_through(
        py,
        &sum(&product(&along.y, fscx), &product(py, &zx)),
        &sum(&down.y, &product(py, &zy)),
        px,
        py,
    );
    let depth = sum(&product(&zx, px), &product(&zy, py));
    let row_w = Row { a: zx, b: zy, c: difference(&one, &depth) };
    (row_x, row_y, row_w)
}

/// The rotation keeps its pivot: whatever the angles, shears and scale, the
/// divisor at the pivot is 1 and the pivot is mapped to itself.
pub proof fn law_rotation_keeps_pivot(
    m: Model,
    frx: Expr,
    fry: Expr,
    frz: Expr,
    fax: Expr,
    fay: Expr,
    fscx: Expr,
    px: Expr,
    py: Expr,
)
    ensures
        ({
            let rows = rotation_rows(frx, fry, frz, fax, fay, fscx, px, py);
            let (x, y) = (px.value(m), py.value(m));
            &&& rows.0.applied(m, x, y) == x
            &&& rows.1.applied(m, x, y) == y
            &&& rows.2.applied(m, x, y) == 1real
        }),
{
    lemma_rotation_about_pivot(m, frx, fry, frz, fax, fay, fscx, px, py, 0real, 0real);
}

/// Without a tilt there is no perspective: where the sines about the
/// horizontal and the vertical axis vanish, the divisor is 1 everywhere.
pub proof fn law_flat_rotation_has_no_perspective(
    m: Model,
    frx: Expr,
    fry: Expr,
    frz: Expr,
    fax: Expr,
    fay: Expr,
    fscx: Expr,
    px: Expr,
    py: Expr,
    x: real,
    y: real,
)
    requires
        (m.sine)(degrees(&frx).value(m)) == 0real,
        (m.sine)(degrees(&fry).value(m)) == 0real,
    ensures
        rotation_rows(frx, fry, frz, fax, fay, fscx, px, py).2.applied(m, x, y) == 1real,
{
    lemma_one_and_two();
    let turn = Turn::spec_of(frx, fry, frz);
    let one = constant(ONE);
    let rows = rotation_rows(frx, fry, frz, fax, fay, fscx, px, py);
    assert(turn.sx.value(m) == 0real && turn.sy.value(m) == 0real) by {
        reveal_with_fuel(Formula::value, 3);
    }
    lemma_flat_column(m, turn, one, fay);
    lemma_flat_column(m, turn, fax, one);
    assert(product(&turn.spec_column(one, fay).z, &fscx).value(m) == 0real);
    let focal = constant(LIBASS_FOCAL_PX).value(m);
    law_positive_is_above_zero(Single { bits: LIBASS_FOCAL_PX });
    assert(rows.2.a.value(m) == 0real && rows.2.b.value(m) == 0real) by {
        assert(0real / focal == 0real) by (nonlinear_arith)
            requires
                focal > 0real,
        ;
    }
    reveal_with_fuel(Formula::value, 4);
}

/// The scale is applied first: scaling by `fscx` within the rotation is the
/// same as rotating, unscaled, the point whose horizontal distance from the
/// pivot is `fscx` times as large. That holds of every row.
pub proof fn law_rotation_scales_first(
    m: Model,
    frx: Expr,
    fry: Expr,
    frz: Expr,
    fax: Expr,
    fay: Expr,
    fscx: Expr,
    px: Expr,
    py: Expr,
    u: real,
    v: real,
)
    ensures
        ({
            let scaled = rotation_rows(frx, fry, frz, fax, fay, fscx, px, py);
            let bare = rotation_rows(frx, fry, frz, fax, fay, constant(ONE), px, py);
            let (x, y, f) = (px.value(m), py.value(m), fscx.value(m));
            &&& scaled.0.applied(m, x + u, y + v) == bare.0.applied(m, x + f * u, y + v)
            &&& scaled.1.applied(m, x + u, y + v) == bare.1.applied(m, x + f * u, y + v)
            &&& scaled.2.applied(m, x + u, y + v) == bare.2.applied(m, x + f * u, y + v)
        }),
{
    lemma_one_and_two();
    law_positive_is_above_zero(Single { bits: LIBASS_FOCAL_PX });
    lemma_rotation_about_pivot(m, frx, fry, frz, fax, fay, fscx, px, py, u, v);
    let f = fscx.value(m);
    lemma_rotation_about_pivot(m, frx, fry, frz, fax, fay, constant(ONE), px, py, f * u, v);
    let along = Turn::spec_of(frx, fry, frz).spec_column(constant(ONE), fay);
    let focal = constant(LIBASS_FOCAL_PX).value(m);
    lemma_scale_moves(along.x.value(m), along.z.value(m), px.value(m), f, focal, u);
    lemma_scale_moves(along.y.value(m), along.z.value(m), py.value(m), f, focal, u);
    lemma_scale_moves(0real, along.z.value(m), 1real, f, focal, u);
}

/// The rows at a point that is `u` and `v` away from the pivot.
pub proof fn lemma_rotation_about_pivot(
    m: Model,
    frx: Expr,
    fry: Expr,
    frz: Expr,
    fax: Expr,
    fay: Expr,
    fscx: Expr,
    px: Expr,
    py: Expr,
    u: real,
    v: real,
)
    ensures
        ({
            let rows = rotation_rows(frx, fry, frz, fax, fay, fscx, px, py);
            let turn = Turn::spec_of(frx, fry, frz);
            let (along, down) = (
                turn.spec_column(constant(ONE), fay),
                turn.spec_column(fax, constant(ONE)),
            );
            let (x, y, f) = (px.value(m), py.value(m), fscx.value(m));
            let focal = constant(LIBASS_FOCAL_PX).value(m);
            let (zx, zy) = ((along.z.value(m) * f) / focal, down.z.value(m) / focal);
            &&& rows.0.applied(m, x + u, y + v) == x + (along.x.value(m) * f + x * zx) * u + (
            down.x.value(m) + x * zy) * v
            &&& rows.1.applied(m, x + u, y + v) == y + (along.y.value(m) * f + y * zx) * u + (
            down.y.value(m) + y * zy) * v
            &&& rows.2.applied(m, x + u, y + v) == 1real + zx * u + zy * v
        }),
{
    lemma_one_and_two();
    let rows = rotation_rows(frx, fry, frz, fax, fay, fscx, px, py);
    let turn = Turn::spec_of(frx, fry, frz);
    let (along, down) = (turn.spec_column(constant(ONE), fay), turn.spec_column(fax, constant(ONE)));
    let (x, y, f) = (px.value(m), py.value(m), fscx.value(m));
    let focal = constant(LIBASS_FOCAL_PX).value(m);
    let (zx, zy) = (rows.2.a, rows.2.b);
    assert(zx.value(m) == (along.z.value(m) * f) / focal) by {
        reveal_with_fuel(Formula::value, 3);
    }
    assert(rows.0.a.value(m) == along.x.value(m) * f + x * zx.value(m)) by {
        reveal_with_fuel(Formula::value, 2);
    }
    assert(rows.0.b.value(m) == down.x.value(m) + x * zy.value(m)) by {
        reveal_with_fuel(Formula::value, 2);
    }
    assert(rows.1.a.value(m) == along.y.value(m) * f + y * zx.value(m)) by {
        reveal_with_fuel(Formula::value, 2);
    }
    assert(rows.1.b.value(m) == down.y.value(m) + y * zy.value(m)) by {
        reveal_with_fuel(Formula::value, 2);
    }
    assert(rows.2.c.value(m) == 1real - (zx.value(m) * x + zy.value(m) * y)) by {
        reveal_with_fuel(Formula::value, 3);
    }
    assert(rows.0.c.value(m) == x - rows.0.a.value(m) * x - rows.0.b.value(m) * y) by {
        reveal_with_fuel(Formula::value, 3);
    }
    assert(rows.1.c.value(m) == y - rows.1.a.value(m) * x - rows.1.b.value(m) * y) by {
        reveal_with_fuel(Formula::value, 3);
    }
    lemma_away_from_pivot(rows.0.a.value(m), rows.0.b.value(m), x, y, u, v, x);
    lemma_away_from_pivot(rows.1.a.value(m), rows.1.b.value(m), x, y, u, v, y);
    lemma_away_from_pivot(zx.value(m), zy.value(m), x, y, u, v, 1real);
}

proof fn lemma_away_from_pivot(a: real, b: real, x: real, y: real, u: real, v: real, p: real)
    ensures
        a * (x + u) + b * (y + v) + (p - a * x - b * y) == p + a * u + b * v,
        a * (x + u) + b * (y + v) + (p - (a * x + b * y)) == p + a * u + b * v,
{
    lemma_distributes(a, x, u);
    lemma_distributes(b, y, v);
}

pub proof fn lemma_distributes(a: real, b: real, c: real)
    by (nonlinear_arith)
    ensures
        a * (b + c) == a * b + a * c,
{
}

pub proof fn lemma_regroups(a: real, b: real, c: real)
    by (nonlinear_arith)
    ensures
        (a * b) * c == a * (b * c),
        a * b == b * a,
{
}

proof fn lemma_quotient_times_divisor(a: real, k: real)
    by (nonlinear_arith)
    requires
        k > 0real,
    ensures
        (a / k) * k == a,
{
}

pub proof fn lemma_cancels(a: real, b: real, k: real)
    by (nonlinear_arith)
    requires
        k > 0real,
        a * k == b * k,
    ensures
        a == b,
{
}

proof fn lemma_scale_moves(a: real, z: real, p: real, f: real, focal: real, u: real)
    requires
        focal > 0real,
    ensures
        (a * f + p * ((z * f) / focal)) * u == (a * 1real + p * ((z * 1real) / focal)) * (f * u),
{
    let d = z / focal;
    let q = (z * f) / focal;
    assert(q == d * f) by {
        lemma_quotient_times_divisor(z * f, focal);
        lemma_quotient_times_divisor(z, focal);
        lemma_regroups(d, f, focal);
        lemma_regroups(f, focal, focal);
        lemma_regroups(d, focal, f);
        lemma_cancels(q, d * f, focal);
    }
    let s = a + p * d;
    assert(a * f + p * q == s * f) by {
        lemma_regroups(p, d, f);
        lemma_distributes(f, a, p * d);
        lemma_regroups(f, a, a);
        lemma_regroups(f, p * d, f);
        lemma_regroups(f, s, s);
    }
    lemma_regroups(s, f, u);
}

proof fn lemma_flat_column(m: Model, turn: Turn, x: Expr, y: Expr)
    requires
        turn.sx.value(m) == 0real,
        turn.sy.value(m) == 0real,
    ensures
        turn.spec_column(x, y).z.value(m) == 0real,
{
    let x2 = turned_back(&x, &turn.cz, &y, &turn.sz);
    let y2 = turned_on(&x, &turn.sz, &y, &turn.cz);
    let z3 = product(&y2, &turn.sx);
    assert(z3.value(m) == 0real);
    assert(product(&x2, &turn.sy).value(m) == 0real);
    assert(product(&z3, &turn.cy).value(m) == 0real);
}

/// `rect`, grown by `pad` on every side.
pub open spec fn padded(rect: Rect, pad: Expr) -> Rect {
    Rect {
        x: difference(&rect.x, &pad),
        y: difference(&rect.y, &pad),
        w: sum(&rect.w, &product(&pad, &constant(TWO))),
        h: sum(&rect.h, &product(&pad, &constant(TWO))),
    }
}

/// [`padded`], built.
pub fn grow(rect: &Rect, pad: &Expr) -> (r: Rect)
    ensures
        r == padded(*rect, *pad),
{
    Rect {
        x: difference(&rect.x, pad),
        y: difference(&rect.y, pad),
        w: sum(&rect.w, &product(pad, &constant(TWO))),
        h: sum(&rect.h, &product(pad, &constant(TWO))),
    }
}

/// A point under a transform: its divisor and its projected coordinates.
pub struct Projected {
    /// The homogeneous divisor.
    pub w: Expr,
    /// Horizontal coordinate after the division.
    pub x: Expr,
    /// Vertical coordinate after the division.
    pub y: Expr,
}

/// `m[row] * x + m[row + 1] * y + m[row + 2]` over the matrix of `t`.
#[verifier::allow_in_spec]
pub fn matrix_row(t: &Arc<Transform>, row: u8, x: &Expr, y: &Expr) -> Expr
    requires
        row <= 6,
    returns
        sum(
            &sum(
                &product(&matrix_entry(t, row), x),
                &product(&matrix_entry(t, (row + 1) as u8), y),
            ),
            &matrix_entry(t, (row + 2) as u8),
        ),
{
    sum(
        &sum(&product(&matrix_entry(t, row), x), &product(&matrix_entry(t, row + 1), y)),
        &matrix_entry(t, row + 2),
    )
}

impl Projected {
    /// The point `(x, y)` under `t`.
    pub open spec fn spec_of(t: Arc<Transform>, x: Expr, y: Expr) -> Projected {
        let w = matrix_row(&t, 6, &x, &y);
        Projected {
            w,
            x: quotient(&matrix_row(&t, 0, &x, &y), &w),
            y: quotient(&matrix_row(&t, 3, &x, &y), &w),
        }
    }

    fn of(t: &Arc<Transform>, x: &Expr, y: &Expr) -> (p: Projected)
        ensures
            p == Projected::spec_of(*t, *x, *y),
    {
        let w = matrix_row(t, 6, x, y);
        let px = quotient(&matrix_row(t, 0, x, y), &w);
        let py = quotient(&matrix_row(t, 3, x, y), &w);
        Projected { w, x: px, y: py }
    }

    /// Whether the projection cannot be used: no finite result, or a divisor
    /// too close to zero.
    pub open spec fn spec_unusable(self) -> Arc<Test> {
        either(
            &either(
                &not_finite(&self.w),
                &Arc::new(Test::Within(self.w, Single { bits: SMALLEST_DEPTH })),
            ),
            &either(&not_finite(&self.x), &not_finite(&self.y)),
        )
    }

    fn unusable(&self) -> (t: Arc<Test>)
        ensures
            t == self.spec_unusable(),
    {
        let near = Arc::new(Test::Within(self.w.clone(), Single { bits: SMALLEST_DEPTH }));
        either(
            &either(&not_finite(&self.w), &near),
            &either(&not_finite(&self.x), &not_finite(&self.y)),
        )
    }
}

/// Corner `i` of `rect` under `t`, clockwise from the top left.
pub open spec fn projected_corner(rect: Rect, t: Arc<Transform>, i: int) -> Projected {
    let right = sum(&rect.x, &rect.w);
    let bottom = sum(&rect.y, &rect.h);
    if i == 0 {
        Projected::spec_of(t, rect.x, rect.y)
    } else if i == 1 {
        Projected::spec_of(t, right, rect.y)
    } else if i == 2 {
        Projected::spec_of(t, right, bottom)
    } else {
        Projected::spec_of(t, rect.x, bottom)
    }
}

/// The smallest of four numbers and the constant `start`.
#[verifier::allow_in_spec]
pub fn smallest(start: u32, a: &Expr, b: &Expr, c: &Expr, d: &Expr) -> Expr
    returns
        smaller(&smaller(&smaller(&smaller(&constant(start), a), b), c), d),
{
    smaller(&smaller(&smaller(&smaller(&constant(start), a), b), c), d)
}

/// The largest of four numbers and the constant `start`.
#[verifier::allow_in_spec]
pub fn largest(start: u32, a: &Expr, b: &Expr, c: &Expr, d: &Expr) -> Expr
    returns
        larger(&larger(&larger(&larger(&constant(start), a), b), c), d),
{
    larger(&larger(&larger(&larger(&constant(start), a), b), c), d)
}

/// Extent `high - low`, at least one pixel, grown by `pad` at both ends.
#[verifier::allow_in_spec]
pub fn grown_extent(low: &Expr, high: &Expr, pad: &Expr) -> Expr
    returns
        sum(&at_least(&difference(high, low), ONE), &product(pad, &constant(TWO))),
{
    sum(&at_least(&difference(high, low), ONE), &product(pad, &constant(TWO)))
}

/// Whether any corner of `rect` has no usable projection under `t`.
pub open spec fn unprojectable(rect: Rect, t: Arc<Transform>) -> Arc<Test> {
    either(
        &either(
            &either(
                &projected_corner(rect, t, 0).spec_unusable(),
                &projected_corner(rect, t, 1).spec_unusable(),
            ),
            &projected_corner(rect, t, 2).spec_unusable(),
        ),
        &projected_corner(rect, t, 3).spec_unusable(),
    )
}

/// The bounding box of the projected corners of `rect`, grown by `pad`.
pub open spec fn projected_bounds(rect: Rect, t: Arc<Transform>, pad: Expr) -> Rect {
    let p0 = projected_corner(rect, t, 0);
    let p1 = projected_corner(rect, t, 1);
    let p2 = projected_corner(rect, t, 2);
    let p3 = projected_corner(rect, t, 3);
    let min_x = smallest(LARGEST, &p0.x, &p1.x, &p2.x, &p3.x);
    let min_y = smallest(LARGEST, &p0.y, &p1.y, &p2.y, &p3.y);
    let max_x = largest(LOWEST, &p0.x, &p1.x, &p2.x, &p3.x);
    let max_y = largest(LOWEST, &p0.y, &p1.y, &p2.y, &p3.y);
    Rect {
        x: difference(&min_x, &pad),
        y: difference(&min_y, &pad),
        w: grown_extent(&min_x, &max_x, &pad),
        h: grown_extent(&min_y, &max_y, &pad),
    }
}

/// The rectangle of [`expand_layer_rect`].
pub open spec fn expanded(rect: Rect, transform: Option<Arc<Transform>>, pad: Expr) -> Rect {
    let flat = padded(rect, pad);
    match transform {
        None => flat,
        Some(t) => {
            let test = unprojectable(rect, t);
            let bounds = projected_bounds(rect, t, pad);
            Rect {
                x: choice(&test, &flat.x, &bounds.x),
                y: choice(&test, &flat.y, &bounds.y),
                w: choice(&test, &flat.w, &bounds.w),
                h: choice(&test, &flat.h, &bounds.h),
            }
        },
    }
}

/// The rectangle of a graphics layer that has to hold `rect` under
/// `transform`, with `pad` pixels of bleed on every side.
///
/// Without a transform that is the padded rectangle; with one it is the padded
/// bounding box of the projected corners, or the padded rectangle where a
/// corner has no usable projection.
pub fn expand_layer_rect(rect: &Rect, transform: &Option<Arc<Transform>>, pad: &Expr) -> (r: Rect)
    ensures
        r == expanded(*rect, *transform, *pad),
{
    let flat = grow(rect, pad);
    let t = match transform {
        None => {
            return flat;
        },
        Some(t) => t,
    };
    let right = sum(&rect.x, &rect.w);
    let bottom = sum(&rect.y, &rect.h);
    let p0 = Projected::of(t, &rect.x, &rect.y);
    let p1 = Projected::of(t, &right, &rect.y);
    let p2 = Projected::of(t, &right, &bottom);
    let p3 = Projected::of(t, &rect.x, &bottom);
    let test = either(
        &either(&either(&p0.unusable(), &p1.unusable()), &p2.unusable()),
        &p3.unusable(),
    );
    let min_x = smallest(LARGEST, &p0.x, &p1.x, &p2.x, &p3.x);
    let min_y = smallest(LARGEST, &p0.y, &p1.y, &p2.y, &p3.y);
    let max_x = largest(LOWEST, &p0.x, &p1.x, &p2.x, &p3.x);
    let max_y = largest(LOWEST, &p0.y, &p1.y, &p2.y, &p3.y);
    Rect {
        x: choice(&test, &flat.x, &difference(&min_x, pad)),
        y: choice(&test, &flat.y, &difference(&min_y, pad)),
        w: choice(&test, &flat.w, &grown_extent(&min_x, &max_x, pad)),
        h: choice(&test, &flat.h, &grown_extent(&min_y, &max_y, pad)),
    }
}

/// Whether the span from `start` of length `extent` holds `p` with `pad` to
/// spare on both sides.
pub open spec fn spans(start: real, extent: real, p: real, pad: real) -> bool {
    start + pad <= p && p + pad <= start + extent
}

/// Content never clips at the layer: without a transform the layer holds both
/// edges of the rectangle with the bleed to spare, and with one it holds every
/// projected corner so, where all four corners project.
pub proof fn law_expanded_rect_covers(m: Model, rect: Rect, t: Arc<Transform>, pad: Expr, i: int)
    requires
        0 <= i < 4,
    ensures
        ({
            let flat = expanded(rect, None, pad);
            let (x, y) = (rect.x.value(m), rect.y.value(m));
            let p = pad.value(m);
            &&& flat.x.value(m) == x - p
            &&& flat.x.value(m) + flat.w.value(m) == x + rect.w.value(m) + p
            &&& flat.y.value(m) == y - p
            &&& flat.y.value(m) + flat.h.value(m) == y + rect.h.value(m) + p
        }),
        !unprojectable(rect, t).holds(m) ==> ({
            let r = expanded(rect, Some(t), pad);
            let corner = projected_corner(rect, t, i);
            &&& spans(r.x.value(m), r.w.value(m), corner.x.value(m), pad.value(m))
            &&& spans(r.y.value(m), r.h.value(m), corner.y.value(m), pad.value(m))
        }),
{
    lemma_padding(m, pad);
    let p0 = projected_corner(rect, t, 0);
    let p1 = projected_corner(rect, t, 1);
    let p2 = projected_corner(rect, t, 2);
    let p3 = projected_corner(rect, t, 3);
    lemma_extremes(m, p0.x, p1.x, p2.x, p3.x, pad);
    lemma_extremes(m, p0.y, p1.y, p2.y, p3.y, pad);
}

pub proof fn lemma_padding(m: Model, pad: Expr)
    ensures
        product(&pad, &constant(TWO)).value(m) == pad.value(m) + pad.value(m),
{
    lemma_one_and_two();
    reveal_with_fuel(Formula::value, 2);
}

proof fn lemma_extremes(m: Model, a: Expr, b: Expr, c: Expr, d: Expr, pad: Expr)
    ensures
        ({
            let low = smallest(LARGEST, &a, &b, &c, &d);
            let high = largest(LOWEST, &a, &b, &c, &d);
            let start = difference(&low, &pad).value(m);
            let extent = grown_extent(&low, &high, &pad).value(m);
            let p = pad.value(m);
            &&& spans(start, extent, a.value(m), p)
            &&& spans(start, extent, b.value(m), p)
            &&& spans(start, extent, c.value(m), p)
            &&& spans(start, extent, d.value(m), p)
        }),
{
    lemma_padding(m, pad);
    let low = smallest(LARGEST, &a, &b, &c, &d);
    let high = largest(LOWEST, &a, &b, &c, &d);
    let (l, h, p) = (low.value(m), high.value(m), pad.value(m));
    assert(l <= a.value(m) && l <= b.value(m) && l <= c.value(m) && l <= d.value(m)) by {
        reveal_with_fuel(Formula::value, 6);
    }
    assert(a.value(m) <= h && b.value(m) <= h && c.value(m) <= h && d.value(m) <= h) by {
        reveal_with_fuel(Formula::value, 6);
    }
    let inner = difference(&high, &low);
    assert(at_least(&inner, ONE).value(m) >= h - l) by {
        reveal_with_fuel(Formula::value, 3);
    }
    assert(grown_extent(&low, &high, &pad).value(m) == at_least(&inner, ONE).value(m) + (p + p));
    assert(difference(&low, &pad).value(m) == l - p);
}

} // verus!
