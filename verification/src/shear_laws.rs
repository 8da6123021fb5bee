//! Shears on a run, by value: what shears the same draws the same.

use crate::effects::TextEffect;
use crate::formula::{
    constant, difference, either, number, product, quotient, sum, Expr, Formula, Model, Test,
};
use crate::geometry::{
    expanded, grown_extent, largest, matrix_row, projected_corner, rotation_rows, row_through,
    smallest, turned_back, turned_on, unprojectable, Projected, Rect, Row, Transform, Turn, LARGEST,
    LOWEST,
};
use crate::layers::TextData;
use crate::merge_laws::{agree_but, clip_sense, lemma_merged_effect, merged_at, same_run};
use crate::mesh::Triangles;
use crate::run::{
    percent, run_rect, run_style, run_transform, shear_or_zero, tilt_pivot, tilts, RunStyle, HUNDRED,
};
use crate::run_laws::{law_shears_add_up, shear_total};
use crate::scene::{next_id, DrawStyle, SceneNode};
use crate::single::{Single, ONE};
use crate::text::{
    blurred_emission, body_emission, box_nodes, clip_node, effective, fill_emission, in_layer,
    layer_begin, layer_shift, main_emission, mask_node, outline_emission, outline_stroke, recolored,
    shadow_emission, shadow_pass, styled_emission, sung_window, text_emission, text_node_of,
    transform_node, turned_emission, undecorated, wrapped, TextPass,
};
use std::sync::Arc;
use vstd::prelude::*;

verus! {

/// What an effect adds to the shear of a run.
pub open spec fn shear_part(effect: TextEffect) -> (real, real) {
    match effect {
        TextEffect::Shear { x, y } => (x.value(), y.value()),
        _ => (0real, 0real),
    }
}

proof fn lemma_total_without(effects: Seq<TextEffect>, i: int)
    requires
        0 <= i < effects.len(),
    ensures
        shear_total(effects).0 == shear_total(effects.remove(i)).0 + shear_part(effects[i]).0,
        shear_total(effects).1 == shear_total(effects.remove(i)).1 + shear_part(effects[i]).1,
    decreases effects.len(),
{
    let before = effects.drop_last();
    let rest = effects.remove(i);
    if i == effects.len() - 1 {
        assert(rest =~= before);
    } else {
        lemma_total_without(before, i);
        assert(rest.drop_last() =~= before.remove(i));
        assert(rest.last() == effects.last());
        assert(before[i] == effects[i]);
    }
}

proof fn lemma_sheared(effects: Seq<TextEffect>, i: int)
    requires
        0 <= i < effects.len(),
        effects[i] is Shear,
    ensures
        run_style(effects).shear is Some,
    decreases effects.len(),
{
    if i < effects.len() - 1 {
        assert(effects.drop_last()[i] == effects[i]);
        lemma_sheared(effects.drop_last(), i);
    }
}

/// Whether two rectangles have the same values.
pub open spec fn same_rect(m: Model, a: Rect, b: Rect) -> bool {
    &&& a.x.value(m) == b.x.value(m)
    &&& a.y.value(m) == b.y.value(m)
    &&& a.w.value(m) == b.w.value(m)
    &&& a.h.value(m) == b.h.value(m)
}

/// Whether two rows have the same values.
pub open spec fn same_row(m: Model, a: Row, b: Row) -> bool {
    &&& a.a.value(m) == b.a.value(m)
    &&& a.b.value(m) == b.b.value(m)
    &&& a.c.value(m) == b.c.value(m)
}

/// Whether two transforms are of one sort and have the same values.
pub open spec fn same_transform(m: Model, a: Transform, b: Transform) -> bool {
    match (a, b) {
        (Transform::Translation { x, y }, Transform::Translation { x: x2, y: y2 }) => {
            x.value(m) == x2.value(m) && y.value(m) == y2.value(m)
        },
        (
            Transform::Parts { scale_x, scale_y, rotate, shear_x, shear_y, origin_x, origin_y },
            Transform::Parts {
                scale_x: scale_x2,
                scale_y: scale_y2,
                rotate: rotate2,
                shear_x: shear_x2,
                shear_y: shear_y2,
                origin_x: origin_x2,
                origin_y: origin_y2,
            },
        ) => {
            &&& scale_x.value(m) == scale_x2.value(m)
            &&& scale_y.value(m) == scale_y2.value(m)
            &&& rotate.value(m) == rotate2.value(m)
            &&& shear_x.value(m) == shear_x2.value(m)
            &&& shear_y.value(m) == shear_y2.value(m)
            &&& origin_x.value(m) == origin_x2.value(m)
            &&& origin_y.value(m) == origin_y2.value(m)
        },
        (
            Transform::Projective { row_x, row_y, row_w },
            Transform::Projective { row_x: row_x2, row_y: row_y2, row_w: row_w2 },
        ) => same_row(m, row_x, row_x2) && same_row(m, row_y, row_y2) && same_row(
            m,
            row_w,
            row_w2,
        ),
        _ => false,
    }
}

/// Whether two transforms have the same matrix.
pub open spec fn same_entries(m: Model, a: Transform, b: Transform) -> bool {
    forall|i: int| #[trigger] (m.entry)(a, i) == (m.entry)(b, i)
}

/// Whether the matrix of a transform depends on nothing but its values.
pub open spec fn entries_follow_values(m: Model) -> bool {
    forall|a: Transform, b: Transform| #[trigger]
        same_transform(m, a, b) ==> same_entries(m, a, b)
}

/// Whether two nodes draw the same by value: they are equal, or they are
/// transforms of the same values, or layers that are equal but for the formulas
/// of a rectangle of the same values.
pub open spec fn same_node(m: Model, a: SceneNode, b: SceneNode) -> bool {
    match (a, b) {
        (SceneNode::PushTransform { transform: s }, SceneNode::PushTransform { transform: t }) => {
            same_transform(m, *s, *t)
        },
        (SceneNode::BeginLayer { rect: r, .. }, SceneNode::BeginLayer { rect: q, .. }) => {
            &&& same_rect(m, r, q)
            &&& b->BeginLayer_layer_id == a->BeginLayer_layer_id
            &&& b->BeginLayer_alpha == a->BeginLayer_alpha
            &&& b->BeginLayer_blur_radius_x == a->BeginLayer_blur_radius_x
            &&& b->BeginLayer_blur_radius_y == a->BeginLayer_blur_radius_y
            &&& b->BeginLayer_rectangle_edge == a->BeginLayer_rectangle_edge
        },
        _ => a == b,
    }
}

/// Whether two lists of nodes draw the same by value, node by node.
pub open spec fn same_nodes(m: Model, a: Seq<SceneNode>, b: Seq<SceneNode>) -> bool {
    a.len() == b.len() && forall|i: int| #![trigger a[i]] #![trigger b[i]]
        0 <= i < a.len() ==> same_node(m, a[i], b[i])
}

proof fn lemma_same_one(m: Model, a: SceneNode, b: SceneNode)
    requires
        same_node(m, a, b),
    ensures
        same_nodes(m, seq![a], seq![b]),
{
}

proof fn lemma_same_all(m: Model, a: Seq<SceneNode>)
    ensures
        same_nodes(m, a, a),
{
    assert forall|i: int| #![trigger a[i]] 0 <= i < a.len() implies same_node(m, a[i], a[i]) by {
        lemma_same_self(m, a[i]);
    }
}

proof fn lemma_same_self(m: Model, a: SceneNode)
    ensures
        same_node(m, a, a),
{
    if let SceneNode::PushTransform { transform } = a {
        assert(same_transform(m, *transform, *transform));
    }
}

proof fn lemma_same_concat(
    m: Model,
    a: Seq<SceneNode>,
    b: Seq<SceneNode>,
    c: Seq<SceneNode>,
    d: Seq<SceneNode>,
)
    requires
        same_nodes(m, a, c),
        same_nodes(m, b, d),
    ensures
        same_nodes(m, a + b, c + d),
{
    let (s, t) = (a + b, c + d);
    assert forall|i: int| #![trigger s[i]] #![trigger t[i]] 0 <= i < s.len() implies same_node(
        m,
        s[i],
        t[i],
    ) by {
        if i < a.len() {
            assert(s[i] == a[i] && t[i] == c[i]);
        } else {
            assert(s[i] == b[i - a.len()] && t[i] == d[i - a.len()]);
        }
    }
}

proof fn lemma_same_wrap(
    m: Model,
    open_a: SceneNode,
    inner_a: Seq<SceneNode>,
    open_b: SceneNode,
    inner_b: Seq<SceneNode>,
    closing: SceneNode,
)
    requires
        same_node(m, open_a, open_b),
        same_nodes(m, inner_a, inner_b),
    ensures
        same_nodes(m, seq![open_a] + inner_a + seq![closing], seq![open_b] + inner_b + seq![closing]),
{
    lemma_same_one(m, open_a, open_b);
    lemma_same_concat(m, seq![open_a], inner_a, seq![open_b], inner_b);
    lemma_same_all(m, seq![closing]);
    lemma_same_concat(
        m,
        seq![open_a] + inner_a,
        seq![closing],
        seq![open_b] + inner_b,
        seq![closing],
    );
}

proof fn lemma_same_layer(
    m: Model,
    r: Rect,
    q: Rect,
    id: u32,
    radius: Single,
    a: Seq<SceneNode>,
    b: Seq<SceneNode>,
)
    requires
        same_rect(m, r, q),
        same_nodes(m, a, b),
    ensures
        same_nodes(m, in_layer(r, id, radius, a), in_layer(q, id, radius, b)),
{
    let pop = SceneNode::PopTransform;
    let end = SceneNode::EndLayer { layer_id: id };
    assert(same_node(m, layer_shift(r), layer_shift(q))) by {
        reveal_with_fuel(Formula::value, 2);
    }
    lemma_same_wrap(m, layer_shift(r), a, layer_shift(q), b, pop);
    let (s, t) = (seq![layer_shift(r)] + a + seq![pop], seq![layer_shift(q)] + b + seq![pop]);
    lemma_same_wrap(m, layer_begin(r, id, radius), s, layer_begin(q, id, radius), t, end);
    assert(in_layer(r, id, radius, a) =~= seq![layer_begin(r, id, radius)] + s + seq![end]);
    assert(in_layer(q, id, radius, b) =~= seq![layer_begin(q, id, radius)] + t + seq![end]);
}

proof fn lemma_same_projection(m: Model, s: Arc<Transform>, t: Arc<Transform>, x: Expr, y: Expr)
    requires
        same_entries(m, *s, *t),
    ensures
        ({
            let (p, q) = (Projected::spec_of(s, x, y), Projected::spec_of(t, x, y));
            &&& p.w.value(m) == q.w.value(m)
            &&& p.x.value(m) == q.x.value(m)
            &&& p.y.value(m) == q.y.value(m)
            &&& p.spec_unusable().holds(m) == q.spec_unusable().holds(m)
        }),
{
    let (p, q) = (Projected::spec_of(s, x, y), Projected::spec_of(t, x, y));
    lemma_same_matrix_row(m, s, t, 0, x, y);
    lemma_same_matrix_row(m, s, t, 3, x, y);
    lemma_same_matrix_row(m, s, t, 6, x, y);
    assert(p.spec_unusable().holds(m) == q.spec_unusable().holds(m)) by {
        reveal_with_fuel(Test::holds, 4);
    }
}

proof fn lemma_same_matrix_row(
    m: Model,
    s: Arc<Transform>,
    t: Arc<Transform>,
    row: u8,
    x: Expr,
    y: Expr,
)
    requires
        same_entries(m, *s, *t),
        row <= 6,
    ensures
        matrix_row(&s, row, &x, &y).value(m) == matrix_row(&t, row, &x, &y).value(m),
{
    assert((m.entry)(*s, row as int) == (m.entry)(*t, row as int));
    assert((m.entry)(*s, row + 1) == (m.entry)(*t, row + 1));
    assert((m.entry)(*s, row + 2) == (m.entry)(*t, row + 2));
    reveal_with_fuel(Formula::value, 4);
}

/// Whether two transforms, where there are any, have the same values and the
/// same matrix.
pub open spec fn same_frame(
    m: Model,
    s: Option<Arc<Transform>>,
    t: Option<Arc<Transform>>,
) -> bool {
    match (s, t) {
        (Some(s), Some(t)) => same_transform(m, *s, *t) && same_entries(m, *s, *t),
        (None, None) => true,
        _ => false,
    }
}

proof fn lemma_same_extremes(
    m: Model,
    a: (Expr, Expr, Expr, Expr),
    b: (Expr, Expr, Expr, Expr),
    pad: Expr,
)
    requires
        a.0.value(m) == b.0.value(m),
        a.1.value(m) == b.1.value(m),
        a.2.value(m) == b.2.value(m),
        a.3.value(m) == b.3.value(m),
    ensures
        ({
            let low_a = smallest(LARGEST, &a.0, &a.1, &a.2, &a.3);
            let low_b = smallest(LARGEST, &b.0, &b.1, &b.2, &b.3);
            let high_a = largest(LOWEST, &a.0, &a.1, &a.2, &a.3);
            let high_b = largest(LOWEST, &b.0, &b.1, &b.2, &b.3);
            &&& difference(&low_a, &pad).value(m) == difference(&low_b, &pad).value(m)
            &&& grown_extent(&low_a, &high_a, &pad).value(m) == grown_extent(
                &low_b,
                &high_b,
                &pad,
            ).value(m)
        }),
{
    let low_a = smallest(LARGEST, &a.0, &a.1, &a.2, &a.3);
    let low_b = smallest(LARGEST, &b.0, &b.1, &b.2, &b.3);
    let high_a = largest(LOWEST, &a.0, &a.1, &a.2, &a.3);
    let high_b = largest(LOWEST, &b.0, &b.1, &b.2, &b.3);
    assert(low_a.value(m) == low_b.value(m)) by {
        reveal_with_fuel(Formula::value, 6);
    }
    assert(high_a.value(m) == high_b.value(m)) by {
        reveal_with_fuel(Formula::value, 6);
    }
    assert(difference(&low_a, &pad).value(m) == difference(&low_b, &pad).value(m));
    assert(difference(&high_a, &low_a).value(m) == difference(&high_b, &low_b).value(m));
    reveal_with_fuel(Formula::value, 3);
}

proof fn lemma_same_expanded(
    m: Model,
    rect: Rect,
    s: Option<Arc<Transform>>,
    t: Option<Arc<Transform>>,
    pad: Expr,
)
    requires
        same_frame(m, s, t),
    ensures
        same_rect(m, expanded(rect, s, pad), expanded(rect, t, pad)),
{
    if let (Some(s), Some(t)) = (s, t) {
        let right = sum(&rect.x, &rect.w);
        let bottom = sum(&rect.y, &rect.h);
        lemma_same_projection(m, s, t, rect.x, rect.y);
        lemma_same_projection(m, s, t, right, rect.y);
        lemma_same_projection(m, s, t, right, bottom);
        lemma_same_projection(m, s, t, rect.x, bottom);
        let (a0, a1, a2, a3) = (
            projected_corner(rect, s, 0),
            projected_corner(rect, s, 1),
            projected_corner(rect, s, 2),
            projected_corner(rect, s, 3),
        );
        let (b0, b1, b2, b3) = (
            projected_corner(rect, t, 0),
            projected_corner(rect, t, 1),
            projected_corner(rect, t, 2),
            projected_corner(rect, t, 3),
        );
        lemma_same_extremes(m, (a0.x, a1.x, a2.x, a3.x), (b0.x, b1.x, b2.x, b3.x), pad);
        lemma_same_extremes(m, (a0.y, a1.y, a2.y, a3.y), (b0.y, b1.y, b2.y, b3.y), pad);
        lemma_either(m, a0.spec_unusable(), a1.spec_unusable(), a2.spec_unusable(), a3.spec_unusable());
        lemma_either(m, b0.spec_unusable(), b1.spec_unusable(), b2.spec_unusable(), b3.spec_unusable());
        assert(unprojectable(rect, s).holds(m) == unprojectable(rect, t).holds(m));
    }
}

proof fn lemma_either(m: Model, a: Arc<Test>, b: Arc<Test>, c: Arc<Test>, d: Arc<Test>)
    ensures
        either(&either(&either(&a, &b), &c), &d).holds(m) == (a.holds(m) || b.holds(m) || c.holds(m)
            || d.holds(m)),
{
    assert(either(&a, &b).holds(m) == (a.holds(m) || b.holds(m)));
    assert(either(&either(&a, &b), &c).holds(m) == (a.holds(m) || b.holds(m) || c.holds(m)));
}

proof fn lemma_same_column(m: Model, turn: Turn, x: Expr, y: Expr, x2: Expr, y2: Expr)
    requires
        x.value(m) == x2.value(m),
        y.value(m) == y2.value(m),
    ensures
        ({
            let (a, b) = (turn.spec_column(x, y), turn.spec_column(x2, y2));
            &&& a.x.value(m) == b.x.value(m)
            &&& a.y.value(m) == b.y.value(m)
            &&& a.z.value(m) == b.z.value(m)
        }),
{
    let (p, p2) = (
        turned_back(&x, &turn.cz, &y, &turn.sz),
        turned_back(&x2, &turn.cz, &y2, &turn.sz),
    );
    let (q, q2) = (
        turned_on(&x, &turn.sz, &y, &turn.cz),
        turned_on(&x2, &turn.sz, &y2, &turn.cz),
    );
    assert(p.value(m) == p2.value(m) && q.value(m) == q2.value(m)) by {
        reveal_with_fuel(Formula::value, 3);
    }
    let (z, z2) = (product(&q, &turn.sx), product(&q2, &turn.sx));
    assert(z.value(m) == z2.value(m));
    reveal_with_fuel(Formula::value, 3);
}

proof fn lemma_same_row_through(
    m: Model,
    p: Expr,
    a: Expr,
    b: Expr,
    a2: Expr,
    b2: Expr,
    px: Expr,
    py: Expr,
)
    requires
        a.value(m) == a2.value(m),
        b.value(m) == b2.value(m),
    ensures
        same_row(m, row_through(&p, &a, &b, &px, &py), row_through(&p, &a2, &b2, &px, &py)),
{
    reveal_with_fuel(Formula::value, 3);
}

proof fn lemma_same_rotation(
    m: Model,
    frx: Expr,
    fry: Expr,
    frz: Expr,
    shear: (Expr, Expr),
    shear2: (Expr, Expr),
    fscx: Expr,
    px: Expr,
    py: Expr,
)
    requires
        shear.0.value(m) == shear2.0.value(m),
        shear.1.value(m) == shear2.1.value(m),
    ensures
        ({
            let a = rotation_rows(frx, fry, frz, shear.0, shear.1, fscx, px, py);
            let b = rotation_rows(frx, fry, frz, shear2.0, shear2.1, fscx, px, py);
            same_row(m, a.0, b.0) && same_row(m, a.1, b.1) && same_row(m, a.2, b.2)
        }),
{
    let turn = Turn::spec_of(frx, fry, frz);
    let one = constant(ONE);
    let a = rotation_rows(frx, fry, frz, shear.0, shear.1, fscx, px, py);
    let b = rotation_rows(frx, fry, frz, shear2.0, shear2.1, fscx, px, py);
    lemma_same_column(m, turn, one, shear.1, one, shear2.1);
    lemma_same_column(m, turn, shear.0, one, shear2.0, one);
    assert(a.2.a.value(m) == b.2.a.value(m) && a.2.b.value(m) == b.2.b.value(m)) by {
        reveal_with_fuel(Formula::value, 2);
    }
    assert(a.0.a.value(m) == b.0.a.value(m) && a.0.b.value(m) == b.0.b.value(m)) by {
        reveal_with_fuel(Formula::value, 2);
    }
    assert(a.1.a.value(m) == b.1.a.value(m) && a.1.b.value(m) == b.1.b.value(m)) by {
        reveal_with_fuel(Formula::value, 2);
    }
    assert(a.2.c.value(m) == b.2.c.value(m)) by {
        reveal_with_fuel(Formula::value, 3);
    }
    lemma_same_row_through(m, px, a.0.a, a.0.b, b.0.a, b.0.b, px, py);
    lemma_same_row_through(m, py, a.1.a, a.1.b, b.1.a, b.1.b, px, py);
}

/// Whether two styles differ in nothing but their shears, which have the same
/// values, and in which effect holds the drawing to clip along.
pub open spec fn same_style(m: Model, s: RunStyle, t: RunStyle) -> bool {
    &&& t == (RunStyle { vector_clip: t.vector_clip, shear: t.shear, ..s })
    &&& clip_sense(s) == clip_sense(t)
    &&& s.shear is Some <==> t.shear is Some
    &&& shear_or_zero(s.shear).0.value(m) == shear_or_zero(t.shear).0.value(m)
    &&& shear_or_zero(s.shear).1.value(m) == shear_or_zero(t.shear).1.value(m)
}

proof fn lemma_same_run_transform(m: Model, s: RunStyle, t: RunStyle, rect: Rect)
    requires
        entries_follow_values(m),
        same_style(m, s, t),
    ensures
        same_frame(m, run_transform(s, rect), run_transform(t, rect)),
{
    let (a, b) = (run_transform(s, rect), run_transform(t, rect));
    if tilts(s.rotation) {
        let r = s.rotation->0;
        let fscx = match s.scale {
            Some(p) => product(&percent(p), &constant(HUNDRED)),
            None => constant(HUNDRED),
        };
        let pivot = tilt_pivot(r.origin, rect);
        lemma_same_rotation(
            m,
            number(r.x),
            number(r.y),
            number(r.z),
            shear_or_zero(s.shear),
            shear_or_zero(t.shear),
            quotient(&fscx, &constant(HUNDRED)),
            pivot.0,
            pivot.1,
        );
    }
    if a is Some {
        assert(same_transform(m, *a->0, *b->0));
    }
}

proof fn lemma_same_fill(
    m: Model,
    pass: TextPass<'_>,
    outline: Option<([u8; 4], Single)>,
    edge_blur: Option<Single>,
    s: Option<Arc<Transform>>,
    t: Option<Arc<Transform>>,
    id: u32,
)
    requires
        same_frame(m, s, t),
    ensures
        ({
            let a = fill_emission(pass, outline, edge_blur, s, id);
            let b = fill_emission(pass, outline, edge_blur, t, id);
            same_nodes(m, a.nodes, b.nodes) && a.next_id == b.next_id
        }),
{
    let a = outline_emission(pass, outline, edge_blur, s, id);
    let b = outline_emission(pass, outline, edge_blur, t, id);
    let fill = text_node_of(pass, DrawStyle::Fill);
    assert(same_nodes(m, a.nodes, b.nodes)) by {
        if let Some((color, width)) = outline {
            let stroke = text_node_of(
                TextPass { color, decoration: undecorated(), ..pass },
                outline_stroke(width, pass.font_size),
            );
            lemma_same_all(m, seq![stroke]);
            if let Some(radius) = effective(edge_blur) {
                let pad = sum(&number(radius), &number(width));
                lemma_same_expanded(m, pass.rect, s, t, pad);
                lemma_same_layer(
                    m,
                    expanded(pass.rect, s, pad),
                    expanded(pass.rect, t, pad),
                    id,
                    radius,
                    seq![stroke],
                    seq![stroke],
                );
            }
        }
    }
    lemma_same_all(m, seq![fill]);
    lemma_same_concat(m, a.nodes, seq![fill], b.nodes, seq![fill]);
    assert(a.nodes.push(fill) =~= a.nodes + seq![fill]);
    assert(b.nodes.push(fill) =~= b.nodes + seq![fill]);
}

proof fn lemma_same_main(
    m: Model,
    base: TextPass<'_>,
    style: RunStyle,
    s: Option<Arc<Transform>>,
    t: Option<Arc<Transform>>,
    id: u32,
)
    requires
        same_frame(m, s, t),
    ensures
        ({
            let a = main_emission(base, style, s, id);
            let b = main_emission(base, style, t, id);
            same_nodes(m, a.nodes, b.nodes) && a.next_id == b.next_id
        }),
{
    let (outline, edge) = (style.outline, style.edge_blur);
    lemma_same_fill(m, base, outline, edge, s, t, id);
    if let Some(k) = style.karaoke {
        let pass = recolored(base, k.secondary);
        lemma_same_fill(m, pass, outline, edge, s, t, id);
        if k.style != 0 && k.progress.positive() {
            let (a, b) = (
                fill_emission(pass, outline, edge, s, id),
                fill_emission(pass, outline, edge, t, id),
            );
            lemma_same_fill(m, base, outline, edge, s, t, a.next_id);
            let (c, d) = (
                fill_emission(base, outline, edge, s, a.next_id),
                fill_emission(base, outline, edge, t, b.next_id),
            );
            let window = sung_window(base.rect, k.progress);
            let pop = SceneNode::PopClip;
            lemma_same_wrap(m, window, c.nodes, window, d.nodes, pop);
            lemma_same_concat(
                m,
                a.nodes,
                seq![window] + c.nodes + seq![pop],
                b.nodes,
                seq![window] + d.nodes + seq![pop],
            );
        }
    }
}

proof fn lemma_same_body(
    m: Model,
    base: TextPass<'_>,
    style: RunStyle,
    s: Option<Arc<Transform>>,
    t: Option<Arc<Transform>>,
    id: u32,
)
    requires
        same_frame(m, s, t),
    ensures
        ({
            let a = body_emission(base, style, s, id);
            let b = body_emission(base, style, t, id);
            same_nodes(m, a.nodes, b.nodes) && a.next_id == b.next_id
        }),
{
    let behind = box_nodes(style.opaque_box, base.rect);
    let (a, b) = (shadow_emission(base, style, s, id), shadow_emission(base, style, t, id));
    if let Some(shadow) = style.shadow {
        lemma_same_fill(m, shadow_pass(base, shadow), style.outline, style.edge_blur, s, t, id);
    }
    lemma_same_all(m, behind);
    lemma_same_concat(m, behind, a.nodes, behind, b.nodes);
    lemma_same_main(m, base, style, s, t, a.next_id);
    let (c, d) = (
        main_emission(base, style, s, a.next_id),
        main_emission(base, style, t, b.next_id),
    );
    lemma_same_concat(m, behind + a.nodes, c.nodes, behind + b.nodes, d.nodes);
}

proof fn lemma_same_blurred(
    m: Model,
    base: TextPass<'_>,
    style: RunStyle,
    s: Option<Arc<Transform>>,
    t: Option<Arc<Transform>>,
    id: u32,
)
    requires
        same_frame(m, s, t),
    ensures
        ({
            let a = blurred_emission(base, style, s, id);
            let b = blurred_emission(base, style, t, id);
            same_nodes(m, a.nodes, b.nodes) && a.next_id == b.next_id
        }),
{
    match effective(style.blur) {
        None => {
            lemma_same_body(m, base, style, s, t, id);
        },
        Some(radius) => {
            let inner = next_id(id);
            lemma_same_body(m, base, style, s, t, inner);
            lemma_same_expanded(m, base.rect, s, t, number(radius));
            lemma_same_layer(
                m,
                expanded(base.rect, s, number(radius)),
                expanded(base.rect, t, number(radius)),
                id,
                radius,
                body_emission(base, style, s, inner).nodes,
                body_emission(base, style, t, inner).nodes,
            );
        },
    }
}

proof fn lemma_same_wrapped(
    m: Model,
    open_a: Option<SceneNode>,
    a: Seq<SceneNode>,
    open_b: Option<SceneNode>,
    b: Seq<SceneNode>,
    closing: SceneNode,
)
    requires
        open_a is Some <==> open_b is Some,
        open_a is Some ==> same_node(m, open_a->0, open_b->0),
        same_nodes(m, a, b),
    ensures
        same_nodes(m, wrapped(open_a, a, closing), wrapped(open_b, b, closing)),
{
    if open_a is Some {
        lemma_same_wrap(m, open_a->0, a, open_b->0, b, closing);
    }
}

proof fn lemma_same_styled(
    m: Model,
    a: TextData,
    b: TextData,
    s: RunStyle,
    t: RunStyle,
    mask: Option<Arc<Triangles>>,
    id: u32,
)
    requires
        entries_follow_values(m),
        same_run(a, b),
        same_style(m, s, t),
    ensures
        ({
            let (e, f) = (styled_emission(a, s, mask, id), styled_emission(b, t, mask, id));
            same_nodes(m, e.nodes, f.nodes) && e.next_id == f.next_id
        }),
{
    let rect = run_rect(a);
    assert(run_rect(b) == rect);
    let base = TextPass::spec_of(&a, s, rect);
    assert(TextPass::spec_of(&b, t, rect) == base);
    let (x, y) = (run_transform(s, rect), run_transform(t, rect));
    lemma_same_run_transform(m, s, t, rect);
    lemma_same_blurred(m, base, s, x, y, id);
    assert(blurred_emission(base, t, y, id) == blurred_emission(base, s, y, id));
    lemma_same_wrapped(
        m,
        transform_node(x),
        blurred_emission(base, s, x, id).nodes,
        transform_node(y),
        blurred_emission(base, t, y, id).nodes,
        SceneNode::PopTransform,
    );
    let (c, d) = (turned_emission(a, s, id), turned_emission(b, t, id));
    let masking = mask_node(s.vector_clip, mask);
    assert(mask_node(t.vector_clip, mask) == masking);
    if masking is Some {
        lemma_same_self(m, masking->0);
    }
    let pop = SceneNode::PopVectorClip;
    lemma_same_wrapped(m, masking, c.nodes, masking, d.nodes, pop);
    if let Some(edges) = s.clip {
        let clip = Some(clip_node(edges));
        lemma_same_wrapped(
            m,
            clip,
            wrapped(masking, c.nodes, pop),
            clip,
            wrapped(masking, d.nodes, pop),
            SceneNode::PopClip,
        );
    }
}

/// Two shears are drawn as their sum: with the earlier one gone and the later
/// one shearing as both did, the run is drawn by nodes of the same values, one
/// for one.
pub proof fn law_shears_merge(
    m: Model,
    data: TextData,
    rest: TextData,
    i: int,
    j: int,
    merged: TextEffect,
    mask: Option<Arc<Triangles>>,
    id: u32,
)
    requires
        entries_follow_values(m),
        0 <= i < j < data.effects@.len(),
        data.effects@[i] is Shear,
        data.effects@[j] is Shear,
        merged is Shear,
        shear_part(merged).0 == shear_part(data.effects@[i]).0 + shear_part(data.effects@[j]).0,
        shear_part(merged).1 == shear_part(data.effects@[i]).1 + shear_part(data.effects@[j]).1,
        same_run(data, rest),
        rest.effects@ == merged_at(data.effects@, i, j, merged),
    ensures
        same_nodes(m, text_emission(data, mask, id).nodes, text_emission(rest, mask, id).nodes),
        text_emission(data, mask, id).next_id == text_emission(rest, mask, id).next_id,
{
    let effects = data.effects@;
    let after = rest.effects@;
    let middle = effects.remove(i);
    let (s, t) = (run_style(effects), run_style(after));
    assert(middle[j - 1] == effects[j]);
    assert(after[j - 1] == merged);
    assert(after.remove(j - 1) =~= middle.remove(j - 1));
    lemma_merged_effect(effects, i, j, merged);
    lemma_sheared(effects, i);
    lemma_sheared(after, j - 1);
    law_shears_add_up(m, effects);
    law_shears_add_up(m, after);
    lemma_total_without(effects, i);
    lemma_total_without(middle, j - 1);
    lemma_total_without(after, j - 1);
    lemma_style_by_value(m, s, t, merged);
    lemma_same_styled(m, data, rest, s, t, mask, id);
}

proof fn lemma_style_by_value(m: Model, s: RunStyle, t: RunStyle, kind: TextEffect)
    requires
        agree_but(s, t, kind),
        kind is Shear,
        s.shear is Some,
        t.shear is Some,
        shear_or_zero(s.shear).0.value(m) == shear_or_zero(t.shear).0.value(m),
        shear_or_zero(s.shear).1.value(m) == shear_or_zero(t.shear).1.value(m),
    ensures
        same_style(m, s, t),
{
}

} // verus!
