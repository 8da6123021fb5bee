//! The formulas of rectangles and rotations, evaluated and held against the
//! same computation written out in floating point.

use repose_scene::formula::{number, Expr, Formula, Test};
use repose_scene::geometry::{expand_layer_rect, libass_rotation_rows, Rect, Row, Transform};
use repose_scene::single::Single;
use std::f32::consts::PI;
use std::sync::Arc;

fn expr(x: f32) -> Expr {
    number(Single::from_bits(x.to_bits()))
}

fn native(t: &Transform) -> repose_core::Transform {
    match t {
        Transform::Translation { x, y } => repose_core::Transform::translate(eval(x), eval(y)),
        Transform::Parts { scale_x, scale_y, rotate, shear_x, shear_y, origin_x, origin_y } => {
            repose_core::Transform {
                translate_x: 0.0,
                translate_y: 0.0,
                scale_x: eval(scale_x),
                scale_y: eval(scale_y),
                rotate: eval(rotate),
                shear_x: eval(shear_x),
                shear_y: eval(shear_y),
                origin_x: eval(origin_x),
                origin_y: eval(origin_y),
                perspective: [0.0, 0.0, 1.0],
            }
        }
        Transform::Projective { row_x, row_y, row_w } => {
            repose_core::Transform::from_projective_rows(row(row_x), row(row_y), row(row_w))
        }
    }
}

fn row(r: &Row) -> [f32; 3] {
    [eval(&r.a), eval(&r.b), eval(&r.c)]
}

fn eval(f: &Formula) -> f32 {
    match f {
        Formula::Number(n) => f32::from_bits(n.bits),
        Formula::Count(n) => *n as f32,
        Formula::Negated(a) => -eval(a),
        Formula::Sum(a, b) => eval(a) + eval(b),
        Formula::Difference(a, b) => eval(a) - eval(b),
        Formula::Product(a, b) => eval(a) * eval(b),
        Formula::Quotient(a, b) => eval(a) / eval(b),
        Formula::Larger(a, b) => eval(a).max(eval(b)),
        Formula::Smaller(a, b) => eval(a).min(eval(b)),
        Formula::Sine(a) => eval(a).sin(),
        Formula::Cosine(a) => eval(a).cos(),
        Formula::Radians(a) => eval(a).to_radians(),
        Formula::MatrixEntry(t, i) => native(t).projective_matrix()[*i as usize],
        Formula::Choice(test, a, b) => {
            if holds(test) {
                eval(a)
            } else {
                eval(b)
            }
        }
        _ => panic!("no such formula here: {f:?}"),
    }
}

fn holds(test: &Test) -> bool {
    match test {
        Test::NotFinite(a) => !eval(a).is_finite(),
        Test::Within(a, bound) => eval(a).abs() < f32::from_bits(bound.bits),
        Test::Either(s, t) => holds(s) || holds(t),
    }
}

fn rect(x: f32, y: f32, w: f32, h: f32) -> Rect {
    Rect { x: expr(x), y: expr(y), w: expr(w), h: expr(h) }
}

fn values(r: &Rect) -> [f32; 4] {
    [eval(&r.x), eval(&r.y), eval(&r.w), eval(&r.h)]
}

fn rows(p: [f32; 8]) -> [[f32; 3]; 3] {
    let (x, y, w) = libass_rotation_rows(
        &expr(p[0]),
        &expr(p[1]),
        &expr(p[2]),
        &expr(p[3]),
        &expr(p[4]),
        &expr(p[5]),
        &expr(p[6]),
        &expr(p[7]),
    );
    [row(&x), row(&y), row(&w)]
}

fn rows_by_hand(p: [f32; 8]) -> [[f32; 3]; 3] {
    let [frx, fry, frz, fax, fay, fscx, px, py] = p;
    let (frx, fry, frz) = (frx * PI / 180.0, fry * PI / 180.0, frz * PI / 180.0);
    let (sx, cx) = (-frx.sin(), frx.cos());
    let (sy, cy) = (fry.sin(), fry.cos());
    let (sz, cz) = (-frz.sin(), frz.cos());
    let turn = |x: f32, y: f32| {
        let x2 = x * cz - y * sz;
        let y2 = x * sz + y * cz;
        let z3 = y2 * sx;
        (x2 * cy - z3 * sy, y2 * cx, x2 * sy + z3 * cy)
    };
    let along = turn(1.0, fay);
    let down = turn(fax, 1.0);
    let (zx, zy) = (along.2 * fscx / 312.5, down.2 / 312.5);
    let (xa, xb) = (along.0 * fscx + px * zx, down.0 + px * zy);
    let (ya, yb) = (along.1 * fscx + py * zx, down.1 + py * zy);
    [
        [xa, xb, px - xa * px - xb * py],
        [ya, yb, py - ya * px - yb * py],
        [zx, zy, 1.0 - (zx * px + zy * py)],
    ]
}

#[test]
fn rotation_rows_are_computed_in_order() {
    let cases = [
        [0.0, 0.0, 0.0, 0.0, 0.0, 1.0, 0.0, 0.0],
        [45.0, 0.0, 0.0, 0.0, 0.0, 1.0, 320.0, 180.0],
        [0.0, -20.0, 0.0, 0.0, 0.0, 1.0, 320.0, 180.0],
        [30.0, 20.0, 10.0, 0.25, -0.5, 1.5, 100.0, 900.0],
        [-60.0, 75.0, 123.0, -1.0, 2.0, 0.75, -40.0, 12.5],
    ];
    for p in cases {
        assert_eq!(rows(p), rows_by_hand(p), "{p:?}");
    }
}

#[test]
fn no_rotation_is_the_identity() {
    let got = rows([0.0, 0.0, 0.0, 0.0, 0.0, 1.0, 0.0, 0.0]);
    assert_eq!(got, [[1.0, 0.0, 0.0], [0.0, 1.0, 0.0], [0.0, 0.0, 1.0]]);
}

#[test]
fn scale_comes_before_shear() {
    let got = rows([0.0, 0.0, 0.0, 1.0, 0.0, 2.0, 0.0, 0.0]);
    assert_eq!(got, [[2.0, 1.0, 0.0], [0.0, 1.0, 0.0], [0.0, 0.0, 1.0]]);
    let got = rows([0.0, 0.0, 0.0, 0.0, 0.5, 2.0, 0.0, 0.0]);
    assert_eq!(got, [[2.0, 0.0, 0.0], [1.0, 1.0, 0.0], [0.0, 0.0, 1.0]]);
}

#[test]
fn scaling_is_rotating_a_point_farther_out() {
    let (px, py, u, v) = (320.0f32, 180.0f32, 12.0f32, -7.0f32);
    for p in [[40.0, 0.0, 0.0], [0.0, 30.0, 15.0], [-20.0, 10.0, 200.0]] {
        let scaled = rows([p[0], p[1], p[2], 0.5, 0.25, 1.5, px, py]);
        let bare = rows([p[0], p[1], p[2], 0.5, 0.25, 1.0, px, py]);
        for i in 0..3 {
            let at = |r: &[f32; 3], x: f32, y: f32| r[0] * x + r[1] * y + r[2];
            let a = at(&scaled[i], px + u, py + v);
            let b = at(&bare[i], px + 1.5 * u, py + v);
            assert!((a - b).abs() < 0.01, "{p:?} row {i}: {a} {b}");
        }
    }
}

#[test]
fn a_quarter_turn_about_the_horizontal_axis() {
    let got = rows([90.0, 0.0, 0.0, 0.0, 0.0, 1.0, 0.0, 0.0]);
    assert_eq!(got[0], [1.0, 0.0, 0.0]);
    assert!(got[1][1].abs() < 1e-6);
    assert_eq!(got[2][1], -1.0 / 312.5);
    assert_eq!(got[2][2], 1.0);
}

#[test]
fn rotation_keeps_its_pivot() {
    let (px, py) = (320.0f32, 180.0f32);
    for p in [[45.0, 0.0, 0.0], [0.0, 30.0, 15.0], [-20.0, 10.0, 200.0]] {
        let r = rows([p[0], p[1], p[2], 0.5, 0.25, 1.25, px, py]);
        let at = |i: usize| r[i][0] * px + r[i][1] * py + r[i][2];
        assert!((at(0) - px).abs() < 0.01, "{p:?}: {}", at(0));
        assert!((at(1) - py).abs() < 0.01, "{p:?}: {}", at(1));
        assert!((at(2) - 1.0).abs() < 1e-4, "{p:?}: {}", at(2));
    }
}

#[test]
fn a_flat_rotation_has_no_perspective() {
    let r = rows([0.0, 0.0, 33.0, 0.5, 0.25, 1.25, 320.0, 180.0]);
    assert_eq!(r[2], [0.0, 0.0, 1.0]);
}

#[test]
fn a_layer_without_transform_is_padded() {
    let r = expand_layer_rect(&rect(10.0, 20.0, 100.0, 40.0), &None, &expr(3.5));
    assert_eq!(values(&r), [6.5, 16.5, 107.0, 47.0]);
}

#[test]
fn a_layer_covers_its_transformed_content() {
    let parts = Transform::Parts {
        scale_x: expr(1.5),
        scale_y: expr(1.0),
        rotate: expr(-0.5),
        shear_x: expr(0.25),
        shear_y: expr(0.0),
        origin_x: expr(0.5),
        origin_y: expr(0.5),
    };
    let (row_x, row_y, row_w) = libass_rotation_rows(
        &expr(40.0),
        &expr(10.0),
        &expr(5.0),
        &expr(0.0),
        &expr(0.0),
        &expr(1.0),
        &expr(60.0),
        &expr(40.0),
    );
    let tilted = Transform::Projective { row_x, row_y, row_w };
    for t in [parts, tilted] {
        let m = native(&t).projective_matrix();
        let r = expand_layer_rect(&rect(10.0, 20.0, 100.0, 40.0), &Some(Arc::new(t)), &expr(4.0));
        let [x, y, w, h] = values(&r);
        let mut bounds = [f32::MAX, f32::MAX, f32::MIN, f32::MIN];
        for (cx, cy) in [(10.0, 20.0), (110.0, 20.0), (110.0, 60.0), (10.0, 60.0)] {
            let d: f32 = m[6] * cx + m[7] * cy + m[8];
            let px = (m[0] * cx + m[1] * cy + m[2]) / d;
            let py = (m[3] * cx + m[4] * cy + m[5]) / d;
            assert!(x + 3.99 <= px && px + 3.99 <= x + w, "{px} in {x} {w}");
            assert!(y + 3.99 <= py && py + 3.99 <= y + h, "{py} in {y} {h}");
            bounds = [bounds[0].min(px), bounds[1].min(py), bounds[2].max(px), bounds[3].max(py)];
        }
        assert_eq!(
            [x, y, w, h],
            [
                bounds[0] - 4.0,
                bounds[1] - 4.0,
                (bounds[2] - bounds[0]).max(1.0) + 8.0,
                (bounds[3] - bounds[1]).max(1.0) + 8.0,
            ]
        );
    }
}

#[test]
fn a_shifted_layer_is_shifted() {
    let shift = Transform::Translation { x: expr(5.0), y: expr(-7.0) };
    let r = expand_layer_rect(&rect(1.0, 2.0, 10.0, 20.0), &Some(Arc::new(shift)), &expr(0.0));
    assert_eq!(values(&r), [6.0, -5.0, 10.0, 20.0]);
}

#[test]
fn a_thin_projection_is_a_pixel_wide() {
    let flat = Transform::Parts {
        scale_x: expr(0.0),
        scale_y: expr(1.0),
        rotate: expr(0.0),
        shear_x: expr(0.0),
        shear_y: expr(0.0),
        origin_x: expr(0.5),
        origin_y: expr(0.5),
    };
    let r = expand_layer_rect(&rect(0.0, 0.0, 10.0, 20.0), &Some(Arc::new(flat)), &expr(2.0));
    assert_eq!(values(&r)[2], 5.0);
}

#[test]
fn an_unusable_projection_falls_back_to_the_padded_rectangle() {
    let zero = || Row { a: expr(0.0), b: expr(0.0), c: expr(0.0) };
    let unit = || Row { a: expr(1.0), b: expr(0.0), c: expr(0.0) };
    let at_eye = Transform::Projective { row_x: unit(), row_y: zero(), row_w: zero() };
    let infinite = Transform::Translation { x: expr(f32::INFINITY), y: expr(0.0) };
    let nan = Transform::Projective {
        row_x: unit(),
        row_y: zero(),
        row_w: Row { a: expr(f32::NAN), b: expr(0.0), c: expr(1.0) },
    };
    for t in [at_eye, infinite, nan] {
        let r = expand_layer_rect(&rect(10.0, 20.0, 100.0, 40.0), &Some(Arc::new(t)), &expr(1.0));
        assert_eq!(values(&r), [9.0, 19.0, 102.0, 42.0]);
    }
}
