//! What the nodes of a text layer show, node by node.

use crate::effects::TextEffect;
use crate::formula::{at_least, constant, number, product, quotient, sum, Expr, Formula, Model};
use crate::geometry::{expanded, lemma_padding, Rect, Transform};
use crate::layers::TextData;
use crate::mesh::{drawn, Triangles};
use crate::number_laws::law_constants;
use crate::run::{
    run_rect, run_style, run_transform, ClipEdges, FontStyle, FontWeight, RunStyle, TextDecoration,
    HALF,
};
use crate::run_laws::{
    law_faces_are_switched_on, law_last_of_a_kind_shows, law_nothing_shows_unasked,
};
use crate::scene::{next_id, ClipOp, DrawStyle, SceneNode, StrokeCap, StrokeJoin, TextAlign};
use crate::single::{law_rank_orders_values, Single, ONE};
use crate::text::{
    blurred_emission, body_emission, box_nodes, clip_node, effective, fill_emission, layer_begin,
    layer_shift, main_emission, mask_node, outline_stroke, recolored, shadow_emission, shadow_pass,
    styled_emission, sung_window, text_emission, text_node_of, transform_node, undecorated, wrapped,
    Emission, TextPass, LINE_HEIGHT,
};
use crate::text_laws::law_clips_span_their_edges;
use std::sync::Arc;
use vstd::prelude::*;

verus! {

/// The number nearest to `1.2` that a single holds.
pub open spec fn twelve_tenths() -> real {
    (Single { bits: 0x3f99_999a }).value()
}

/// The number nearest to `0.01` that a single holds.
pub open spec fn hundredth() -> real {
    (Single { bits: 0x3c23_d70a }).value()
}

/// Whether a radius blurs: it is a number, and above zero.
pub open spec fn is_blurring(radius: Option<Single>) -> bool {
    radius matches Some(r) && !r.nan() && r.rank() > 0
}

/// Whether a node draws the text of a pass in its face and size: with its text,
/// family, weight, slant and spacing, at its font size but no smaller than one
/// pixel, in lines of twelve tenths of that size but no smaller than one pixel,
/// and with nothing else set.
pub open spec fn draws_text_of(m: Model, node: SceneNode, pass: TextPass<'_>) -> bool {
    match node {
        SceneNode::Text {
            text,
            size,
            font_family,
            text_align,
            font_weight,
            font_style,
            letter_spacing,
            line_height,
            url,
            font_variation_settings,
            ..
        } => {
            let points = pass.font_size.value();
            let line = points * twelve_tenths();
            &&& text == *pass.text
            &&& font_family is None <==> pass.font_family@.len() == 0
            &&& font_family matches Some(name) ==> name == *pass.font_family
            &&& font_weight == pass.weight
            &&& font_style == pass.style
            &&& letter_spacing.value(m) == pass.spacing.value()
            &&& size.value(m) == if points < 1real {
                1real
            } else {
                points
            }
            &&& line_height.value(m) == if line < 1real {
                1real
            } else {
                line
            }
            &&& text_align == TextAlign::Unspecified
            &&& url is None
            &&& font_variation_settings is None
        },
        _ => false,
    }
}

proof fn lemma_draws_text(m: Model, pass: TextPass<'_>, draw_style: DrawStyle)
    ensures
        draws_text_of(m, text_node_of(pass, draw_style), pass),
{
    law_constants();
    let node = text_node_of(pass, draw_style);
    assert(node->Text_size.value(m) == if pass.font_size.value() < 1real {
        1real
    } else {
        pass.font_size.value()
    }) by {
        reveal_with_fuel(Formula::value, 2);
    }
    let line = product(&number(pass.font_size), &constant(LINE_HEIGHT));
    assert(line.value(m) == pass.font_size.value() * twelve_tenths()) by {
        reveal_with_fuel(Formula::value, 2);
    }
    assert(node->Text_line_height.value(m) == if line.value(m) < 1real {
        1real
    } else {
        line.value(m)
    }) by {
        reveal_with_fuel(Formula::value, 2);
    }
}

/// Whether a node is the fill of a pass: its text, in its own colour, at its own
/// place, with its own lines.
pub open spec fn fills(m: Model, node: SceneNode, pass: TextPass<'_>) -> bool {
    &&& draws_text_of(m, node, pass)
    &&& node matches SceneNode::Text { rect, color, text_decoration, draw_style, .. } && rect
        == pass.rect && color == pass.color && text_decoration == pass.decoration && draw_style
        is Fill
}

/// Whether a node is the outline of a pass: its text at its own place, in the
/// given colour, without lines, and stroked as wide as `width` is of the font
/// size, but no thinner than a hundredth and no thicker than half of it.
pub open spec fn outlines(
    m: Model,
    node: SceneNode,
    pass: TextPass<'_>,
    ink: [u8; 4],
    width: Single,
) -> bool {
    &&& draws_text_of(m, node, pass)
    &&& match node {
        SceneNode::Text { rect, color, text_decoration, draw_style, .. } => {
            &&& rect == pass.rect
            &&& color == ink
            &&& !text_decoration.underline
            &&& !text_decoration.strikethrough
            &&& match draw_style {
                DrawStyle::Stroke { width: em, cap, join, miter } => {
                    let points = pass.font_size.value();
                    let share = width.value() / (if points < 1real {
                        1real
                    } else {
                        points
                    });
                    &&& em.value(m) == if share < hundredth() {
                        hundredth()
                    } else if share > 1real / 2real {
                        1real / 2real
                    } else {
                        share
                    }
                    &&& cap == StrokeCap::Round
                    &&& join == StrokeJoin::Round
                    &&& miter.value(m) == 4real
                },
                DrawStyle::Fill => false,
            }
        },
        _ => false,
    }
}

proof fn lemma_outlines(m: Model, pass: TextPass<'_>, ink: [u8; 4], width: Single)
    ensures
        outlines(
            m,
            text_node_of(
                TextPass { color: ink, decoration: undecorated(), ..pass },
                outline_stroke(width, pass.font_size),
            ),
            pass,
            ink,
            width,
        ),
{
    law_constants();
    let plain = TextPass { color: ink, decoration: undecorated(), ..pass };
    lemma_draws_text(m, plain, outline_stroke(width, pass.font_size));
    let (thin, thick) = (Single { bits: 0x3c23_d70a }, Single { bits: HALF });
    law_rank_orders_values(thin, thick);
    let points = at_least(&number(pass.font_size), ONE);
    assert(points.value(m) == if pass.font_size.value() < 1real {
        1real
    } else {
        pass.font_size.value()
    }) by {
        reveal_with_fuel(Formula::value, 2);
    }
    let share = quotient(&number(width), &points);
    assert(share.value(m) == width.value() / points.value(m)) by {
        reveal_with_fuel(Formula::value, 2);
    }
}

/// Whether `open` and `shift` start a blur layer over `rect`: fully opaque, as
/// blurred both ways, with its content placed relative to it.
pub open spec fn starts_layer(
    m: Model,
    open: SceneNode,
    shift: SceneNode,
    rect: Rect,
    id: u32,
    radius: Single,
) -> bool {
    &&& match open {
        SceneNode::BeginLayer {
            rect: area,
            layer_id,
            alpha,
            blur_radius_x,
            blur_radius_y,
            rectangle_edge,
        } => {
            &&& area == rect
            &&& layer_id == id
            &&& alpha.value(m) == 1real
            &&& blur_radius_x.value(m) == radius.value()
            &&& blur_radius_y.value(m) == radius.value()
            &&& rectangle_edge
        },
        _ => false,
    }
    &&& match shift {
        SceneNode::PushTransform { transform } => match *transform {
            Transform::Translation { x, y } => x.value(m) + rect.x.value(m) == 0real && y.value(m)
                + rect.y.value(m) == 0real,
            _ => false,
        },
        _ => false,
    }
}

proof fn lemma_starts_layer(m: Model, rect: Rect, id: u32, radius: Single)
    ensures
        starts_layer(m, layer_begin(rect, id, radius), layer_shift(rect), rect, id, radius),
{
    law_constants();
}

/// Whether `area` is the layer of `rect` under `frame` with a bleed of `pad`
/// pixels.
pub open spec fn bleeds(
    m: Model,
    area: Rect,
    rect: Rect,
    frame: Option<Arc<Transform>>,
    pad: real,
) -> bool {
    exists|bleed: Expr| bleed.value(m) == pad && area == #[trigger] expanded(rect, frame, bleed)
}

/// Drawing a pass once draws its outline and then its fill over it. An edge blur
/// puts the outline alone into a layer of its own, which covers the pass and a
/// bleed of the radius and the width of the outline.
pub proof fn law_pass_is_outlined_and_filled(
    m: Model,
    pass: TextPass<'_>,
    outline: Option<([u8; 4], Single)>,
    edge_blur: Option<Single>,
    frame: Option<Arc<Transform>>,
    id: u32,
)
    ensures
        ({
            let e = fill_emission(pass, outline, edge_blur, frame, id);
            &&& e.nodes.len() > 0 && fills(m, e.nodes.last(), pass)
            &&& match outline {
                None => e.nodes.len() == 1 && e.next_id == id,
                Some((ink, width)) => if is_blurring(edge_blur) {
                    let radius = edge_blur->0;
                    &&& e.nodes.len() == 6
                    &&& e.next_id == if id == u32::MAX {
                        1
                    } else {
                        id + 1
                    }
                    &&& e.nodes[0] is BeginLayer
                    &&& starts_layer(
                        m,
                        e.nodes[0],
                        e.nodes[1],
                        e.nodes[0]->BeginLayer_rect,
                        id,
                        radius,
                    )
                    &&& bleeds(
                        m,
                        e.nodes[0]->BeginLayer_rect,
                        pass.rect,
                        frame,
                        radius.value() + width.value(),
                    )
                    &&& outlines(m, e.nodes[2], pass, ink, width)
                    &&& e.nodes[3] is PopTransform
                    &&& e.nodes[4] == (SceneNode::EndLayer { layer_id: id })
                } else {
                    &&& e.nodes.len() == 2
                    &&& e.next_id == id
                    &&& outlines(m, e.nodes[0], pass, ink, width)
                },
            }
        }),
{
    lemma_draws_text(m, pass, DrawStyle::Fill);
    let e = fill_emission(pass, outline, edge_blur, frame, id);
    if let Some((ink, width)) = outline {
        lemma_outlines(m, pass, ink, width);
        if let Some(radius) = effective(edge_blur) {
            let pad = sum(&number(radius), &number(width));
            assert(pad.value(m) == radius.value() + width.value()) by {
                reveal_with_fuel(Formula::value, 2);
            }
            let rect = expanded(pass.rect, frame, pad);
            lemma_starts_layer(m, rect, id, radius);
            assert(e.nodes[0] == layer_begin(rect, id, radius));
            assert(e.nodes[1] == layer_shift(rect));
        }
    }
}

/// Whether `area` is `rect` with `pad` pixels more on every side.
pub open spec fn surrounds(m: Model, area: Rect, rect: Rect, pad: real) -> bool {
    &&& area.x.value(m) == rect.x.value(m) - pad
    &&& area.y.value(m) == rect.y.value(m) - pad
    &&& area.w.value(m) == rect.w.value(m) + pad + pad
    &&& area.h.value(m) == rect.h.value(m) + pad + pad
}

/// Whether a node clips to the part of `rect` from its left edge on that is
/// `share` of it wide.
pub open spec fn opens_window(m: Model, node: SceneNode, rect: Rect, share: real) -> bool {
    match node {
        SceneNode::PushClip { rect: window, radius, op } => {
            &&& window.x.value(m) == rect.x.value(m)
            &&& window.y.value(m) == rect.y.value(m)
            &&& window.w.value(m) == rect.w.value(m) * share
            &&& window.h.value(m) == rect.h.value(m)
            &&& radius.value(m) == 0real
            &&& op == ClipOp::Intersect
        },
        _ => false,
    }
}

/// A run without karaoke is drawn once, in its own colour. The flipping style
/// draws it once too, in its own colour as soon as any of it is sung, and in the
/// secondary colour before. The other styles draw it in the secondary colour,
/// and as soon as any of it is sung once more in its own colour, through a window
/// over the sung share of it.
pub proof fn law_karaoke_colours_the_run(
    m: Model,
    base: TextPass<'_>,
    style: RunStyle,
    frame: Option<Arc<Transform>>,
    id: u32,
)
    ensures
        ({
            let e = main_emission(base, style, frame, id);
            match style.karaoke {
                None => e == fill_emission(base, style.outline, style.edge_blur, frame, id),
                Some(k) => {
                    let sung = is_blurring(Some(k.progress));
                    let own = fill_emission(base, style.outline, style.edge_blur, frame, id);
                    let other = fill_emission(
                        TextPass { color: k.secondary, ..base },
                        style.outline,
                        style.edge_blur,
                        frame,
                        id,
                    );
                    &&& !sung ==> e == other
                    &&& sung && k.style == 0 ==> e == own
                    &&& sung && k.style != 0 ==> {
                        let over = fill_emission(
                            base,
                            style.outline,
                            style.edge_blur,
                            frame,
                            other.next_id,
                        );
                        let (n, l) = (other.nodes.len() as int, over.nodes.len() as int);
                        &&& e.next_id == over.next_id
                        &&& e.nodes.len() == n + l + 2
                        &&& e.nodes.subrange(0, n) == other.nodes
                        &&& opens_window(m, e.nodes[n], base.rect, k.progress.value())
                        &&& e.nodes.subrange(n + 1, n + 1 + l) == over.nodes
                        &&& e.nodes.last() is PopClip
                    }
                },
            }
        }),
{
    law_constants();
    let e = main_emission(base, style, frame, id);
    if let Some(k) = style.karaoke {
        if is_blurring(Some(k.progress)) && k.style != 0 {
            let other = fill_emission(
                TextPass { color: k.secondary, ..base },
                style.outline,
                style.edge_blur,
                frame,
                id,
            );
            let over = fill_emission(
                base,
                style.outline,
                style.edge_blur,
                frame,
                other.next_id,
            );
            let (n, l) = (other.nodes.len() as int, over.nodes.len() as int);
            let window = sung_window(base.rect, k.progress);
            assert(e.nodes.subrange(0, n) =~= other.nodes);
            assert(e.nodes[n] == window);
            assert(e.nodes.subrange(n + 1, n + 1 + l) =~= over.nodes);
            assert(product(&base.rect.w, &number(k.progress)).value(m) == base.rect.w.value(m)
                * k.progress.value()) by {
                reveal_with_fuel(Formula::value, 2);
            }
        }
    }
}

/// Whether `moved` is `rect` moved by `dx` and `dy`.
pub open spec fn is_moved(m: Model, moved: Rect, rect: Rect, dx: real, dy: real) -> bool {
    &&& moved.x.value(m) == rect.x.value(m) + dx
    &&& moved.y.value(m) == rect.y.value(m) + dy
    &&& moved.w.value(m) == rect.w.value(m)
    &&& moved.h.value(m) == rect.h.value(m)
}

/// Whether `e` is the shadow of a run: the run without its lines, in the colour
/// of the shadow, moved by its offsets, drawn once with the outline of the run.
pub open spec fn is_shadow(
    m: Model,
    e: Emission,
    base: TextPass<'_>,
    style: RunStyle,
    frame: Option<Arc<Transform>>,
    id: u32,
) -> bool {
    match style.shadow {
        None => e.nodes.len() == 0 && e.next_id == id,
        Some((ink, dx, dy)) => exists|moved: Rect|
            is_moved(m, moved, base.rect, dx.value(), dy.value()) && e == #[trigger] fill_emission(
                TextPass {
                    rect: moved,
                    color: ink,
                    decoration: TextDecoration { underline: false, strikethrough: false },
                    ..base
                },
                style.outline,
                style.edge_blur,
                frame,
                id,
            ),
    }
}

/// A run is drawn from back to front: its box, its shadow, and the run itself.
/// The box has square corners and surrounds the run with its padding.
pub proof fn law_box_shadow_run(
    m: Model,
    base: TextPass<'_>,
    style: RunStyle,
    frame: Option<Arc<Transform>>,
    id: u32,
)
    ensures
        ({
            let e = body_emission(base, style, frame, id);
            let shadow = shadow_emission(base, style, frame, id);
            let run = main_emission(base, style, frame, shadow.next_id);
            let back = if style.opaque_box is Some {
                1int
            } else {
                0int
            };
            let (n, l) = (shadow.nodes.len() as int, run.nodes.len() as int);
            &&& is_shadow(m, shadow, base, style, frame, id)
            &&& e.nodes.len() == back + n + l
            &&& e.nodes.subrange(back, back + n) == shadow.nodes
            &&& e.nodes.subrange(back + n, back + n + l) == run.nodes
            &&& e.next_id == run.next_id
            &&& style.opaque_box matches Some((ink, padding)) ==> match e.nodes[0] {
                SceneNode::Rect { rect, color, radius } => {
                    &&& color == ink
                    &&& surrounds(m, rect, base.rect, padding.value())
                    &&& radius.value(m) == 0real
                },
                _ => false,
            }
        }),
{
    law_constants();
    let e = body_emission(base, style, frame, id);
    let shadow = shadow_emission(base, style, frame, id);
    let run = main_emission(base, style, frame, shadow.next_id);
    let behind = box_nodes(style.opaque_box, base.rect);
    let back = behind.len() as int;
    let (n, l) = (shadow.nodes.len() as int, run.nodes.len() as int);
    assert(e.nodes.subrange(back, back + n) =~= shadow.nodes);
    assert(e.nodes.subrange(back + n, back + n + l) =~= run.nodes);
    if let Some((ink, padding)) = style.opaque_box {
        assert(e.nodes[0] == behind[0]);
        lemma_padding(m, number(padding));
        assert(number(padding).value(m) == padding.value());
    }
    if let Some((ink, dx, dy)) = style.shadow {
        let moved = shadow_pass(base, (ink, dx, dy)).rect;
        assert(number(dx).value(m) == dx.value() && number(dy).value(m) == dy.value());
        assert(is_moved(m, moved, base.rect, dx.value(), dy.value()));
    }
}

/// Whether a node opens the clip between the given edges.
pub open spec fn opens_clip(m: Model, node: SceneNode, edges: ClipEdges) -> bool {
    match node {
        SceneNode::PushClip { rect, radius, op } => {
            let (dx, dy) = (
                edges.x2.value() - edges.x1.value(),
                edges.y2.value() - edges.y1.value(),
            );
            &&& rect.x.value(m) == edges.x1.value()
            &&& rect.y.value(m) == edges.y1.value()
            &&& rect.w.value(m) == if dx < 0real {
                0real
            } else {
                dx
            }
            &&& rect.h.value(m) == if dy < 0real {
                0real
            } else {
                dy
            }
            &&& radius.value(m) == 0real
            &&& op == ClipOp::Difference <==> edges.inverse
        },
        _ => false,
    }
}

/// Whether a node clips along the triangles of `mask`, in plain white.
pub open spec fn opens_mask(
    m: Model,
    node: SceneNode,
    mask: Option<Arc<Triangles>>,
    inverse: bool,
) -> bool {
    match node {
        SceneNode::PushVectorClip { mesh, op } => {
            &&& mask == Some(mesh.triangles)
            &&& mesh.color.r.value(m) == 1real
            &&& mesh.color.g.value(m) == 1real
            &&& mesh.color.b.value(m) == 1real
            &&& mesh.color.a.value(m) == 1real
            &&& op == ClipOp::Difference <==> inverse
        },
        _ => false,
    }
}

/// One for something that is there, and zero for nothing.
pub open spec fn one_if(there: bool) -> int {
    if there {
        1
    } else {
        0
    }
}

/// A text layer is, from the outside in: the clip between edges, the clip along a
/// drawing, and the transform of the run, each closed in the reverse order and
/// each there exactly where the style has it; and inside of them all the run in
/// its own colour, face and lines. A clip along a drawing is there only where the
/// tessellator returned triangles.
pub proof fn law_layer_is_wrapped(
    m: Model,
    data: TextData,
    style: RunStyle,
    mask: Option<Arc<Triangles>>,
    id: u32,
)
    ensures
        ({
            let e = styled_emission(data, style, mask, id);
            let rect = run_rect(data);
            let frame = run_transform(style, rect);
            let base = TextPass {
                text: &data.text,
                rect,
                color: data.color,
                font_family: &data.font_family,
                font_size: data.font_size,
                spacing: data.spacing,
                weight: style.weight,
                style: style.style,
                decoration: style.decoration,
            };
            let inner = blurred_emission(base, style, frame, id);
            let masked = style.vector_clip is Some && mask is Some && mask->0.indices@.len() > 0;
            let (a, b, c) = (one_if(style.clip is Some), one_if(masked), one_if(frame is Some));
            let (n, d) = (e.nodes.len() as int, a + b + c);
            &&& style == run_style(data.effects@) ==> text_emission(data, mask, id) == e
            &&& e.next_id == inner.next_id
            &&& n == inner.nodes.len() + 2 * d
            &&& e.nodes.subrange(d, n - d) == inner.nodes
            &&& style.clip matches Some(edges) ==> opens_clip(m, e.nodes[0], edges)
                && e.nodes[n - 1] is PopClip
            &&& masked ==> opens_mask(m, e.nodes[a], mask, (style.vector_clip->0).1) && e.nodes[n
                - 1 - a] is PopVectorClip
            &&& frame matches Some(t) ==> e.nodes[a + b] == (SceneNode::PushTransform {
                transform: t,
            }) && e.nodes[n - 1 - a - b] is PopTransform
        }),
{
    let rect = run_rect(data);
    let frame = run_transform(style, rect);
    let base = TextPass::spec_of(&data, style, rect);
    let inner = blurred_emission(base, style, frame, id);
    let masking = mask_node(style.vector_clip, mask);
    law_constants();
    let clip = match style.clip {
        Some(edges) => Some(clip_node(edges)),
        None => None,
    };
    if let Some(edges) = style.clip {
        lemma_opens_clip(m, edges);
    }
    lemma_nested(clip, masking, transform_node(frame), inner.nodes);
}

proof fn lemma_nested(
    clip: Option<SceneNode>,
    mask: Option<SceneNode>,
    frame: Option<SceneNode>,
    inner: Seq<SceneNode>,
)
    ensures
        ({
            let turned = wrapped(frame, inner, SceneNode::PopTransform);
            let masked = wrapped(mask, turned, SceneNode::PopVectorClip);
            let all = wrapped(clip, masked, SceneNode::PopClip);
            let (a, b, c) = (one_if(clip is Some), one_if(mask is Some), one_if(frame is Some));
            let (n, d) = (all.len() as int, a + b + c);
            &&& n == inner.len() + 2 * d
            &&& all.subrange(d, n - d) == inner
            &&& clip matches Some(node) ==> all[0] == node && all[n - 1] is PopClip
            &&& mask matches Some(node) ==> all[a] == node && all[n - 1 - a] is PopVectorClip
            &&& frame matches Some(node) ==> all[a + b] == node && all[n - 1 - a - b]
                is PopTransform
        }),
{
    let turned = wrapped(frame, inner, SceneNode::PopTransform);
    let masked = wrapped(mask, turned, SceneNode::PopVectorClip);
    let all = wrapped(clip, masked, SceneNode::PopClip);
    let (a, b, c) = (one_if(clip is Some), one_if(mask is Some), one_if(frame is Some));
    let (n, d) = (all.len() as int, a + b + c);
    assert(all.subrange(d, n - d) =~= inner);
}

/// A radius above zero puts all of a run into one layer, which takes the id at
/// hand and covers the run and a bleed of the radius; any other radius leaves the
/// run as it is.
pub proof fn law_blur_wraps_the_run(
    m: Model,
    base: TextPass<'_>,
    style: RunStyle,
    frame: Option<Arc<Transform>>,
    id: u32,
)
    ensures
        ({
            let e = blurred_emission(base, style, frame, id);
            let n = e.nodes.len() as int;
            if is_blurring(style.blur) {
                let radius = style.blur->0;
                let next = if id == u32::MAX {
                    1
                } else {
                    (id + 1) as u32
                };
                let inner = body_emission(base, style, frame, next);
                &&& e.next_id == inner.next_id
                &&& n == inner.nodes.len() + 4
                &&& e.nodes.subrange(2, n - 2) == inner.nodes
                &&& e.nodes[0] is BeginLayer
                &&& starts_layer(
                    m,
                    e.nodes[0],
                    e.nodes[1],
                    e.nodes[0]->BeginLayer_rect,
                    id,
                    radius,
                )
                &&& bleeds(m, e.nodes[0]->BeginLayer_rect, base.rect, frame, radius.value())
                &&& e.nodes[n - 2] is PopTransform
                &&& e.nodes[n - 1] == (SceneNode::EndLayer { layer_id: id })
            } else {
                e == body_emission(base, style, frame, id) && e.nodes.subrange(0, n) == e.nodes
            }
        }),
{
    let e = blurred_emission(base, style, frame, id);
    let n = e.nodes.len() as int;
    if let Some(radius) = effective(style.blur) {
        let inner = body_emission(base, style, frame, next_id(id));
        let rect = expanded(base.rect, frame, number(radius));
        lemma_starts_layer(m, rect, id, radius);
        assert(e.nodes.subrange(2, n - 2) =~= inner.nodes);
        assert(e.nodes[0] == layer_begin(rect, id, radius));
        assert(e.nodes[1] == layer_shift(rect));
        assert(number(radius).value(m) == radius.value());
    } else {
        assert(e.nodes.subrange(0, n) =~= e.nodes);
    }
}

proof fn lemma_opens_clip(m: Model, edges: ClipEdges)
    ensures
        opens_clip(m, clip_node(edges), edges),
{
    law_constants();
    law_clips_span_their_edges(m, edges);
    let node = clip_node(edges);
    assert(number(edges.x1).value(m) == edges.x1.value());
    assert(number(edges.y1).value(m) == edges.y1.value());
}

/// Whether `p` holds of every node.
pub open spec fn every(nodes: Seq<SceneNode>, p: spec_fn(SceneNode) -> bool) -> bool {
    forall|i: int| #![trigger nodes[i]] 0 <= i < nodes.len() ==> p(nodes[i])
}

proof fn lemma_every_concat(
    a: Seq<SceneNode>,
    b: Seq<SceneNode>,
    p: spec_fn(SceneNode) -> bool,
)
    requires
        every(a, p),
        every(b, p),
    ensures
        every(a + b, p),
{
    let all = a + b;
    assert forall|i: int| #![trigger all[i]] 0 <= i < all.len() implies p(all[i]) by {
        if i < a.len() {
            assert(all[i] == a[i]);
        } else {
            assert(all[i] == b[i - a.len()]);
        }
    }
}

proof fn lemma_every_one(node: SceneNode, p: spec_fn(SceneNode) -> bool)
    requires
        p(node),
    ensures
        every(seq![node], p),
{
}

/// Whether a node can stand inside of the clips of a text layer and is no text.
spec fn is_inner(node: SceneNode) -> bool {
    match node {
        SceneNode::Rect { .. } | SceneNode::PushClip { .. } | SceneNode::PopClip => true,
        SceneNode::PushTransform { .. } | SceneNode::PopTransform => true,
        SceneNode::BeginLayer { .. } | SceneNode::EndLayer { .. } => true,
        _ => false,
    }
}

spec fn holds_inside(p: spec_fn(SceneNode) -> bool) -> bool {
    forall|node: SceneNode| #[trigger] is_inner(node) ==> p(node)
}

spec fn stroke_of(pass: TextPass<'_>, ink: [u8; 4], width: Single) -> SceneNode {
    text_node_of(
        TextPass { color: ink, decoration: undecorated(), ..pass },
        outline_stroke(width, pass.font_size),
    )
}

spec fn holds_of_pass(p: spec_fn(SceneNode) -> bool, pass: TextPass<'_>) -> bool {
    &&& forall|ink: [u8; 4]| p(#[trigger] text_node_of(recolored(pass, ink), DrawStyle::Fill))
    &&& forall|ink: [u8; 4], width: Single| p(#[trigger] stroke_of(pass, ink, width))
}

proof fn lemma_every_fill(
    pass: TextPass<'_>,
    ink: [u8; 4],
    outline: Option<([u8; 4], Single)>,
    edge_blur: Option<Single>,
    frame: Option<Arc<Transform>>,
    id: u32,
    p: spec_fn(SceneNode) -> bool,
)
    requires
        holds_inside(p),
        holds_of_pass(p, pass),
    ensures
        every(fill_emission(recolored(pass, ink), outline, edge_blur, frame, id).nodes, p),
{
    let own = recolored(pass, ink);
    let e = fill_emission(own, outline, edge_blur, frame, id);
    let fill = text_node_of(own, DrawStyle::Fill);
    assert(p(fill));
    if let Some((color, width)) = outline {
        let stroke = stroke_of(pass, color, width);
        assert(p(stroke));
        assert(stroke == text_node_of(
            TextPass { color, decoration: undecorated(), ..own },
            outline_stroke(width, own.font_size),
        ));
        if let Some(radius) = effective(edge_blur) {
            let rect = expanded(pass.rect, frame, sum(&number(radius), &number(width)));
            assert(is_inner(layer_begin(rect, id, radius)));
            assert(is_inner(layer_shift(rect)));
            assert(is_inner(SceneNode::PopTransform));
            assert(is_inner(SceneNode::EndLayer { layer_id: id }));
            assert(e.nodes =~= seq![
                layer_begin(rect, id, radius),
                layer_shift(rect),
                stroke,
                SceneNode::PopTransform,
                SceneNode::EndLayer { layer_id: id },
                fill,
            ]);
        } else {
            assert(e.nodes =~= seq![stroke, fill]);
        }
    } else {
        assert(e.nodes =~= seq![fill]);
    }
}

proof fn lemma_every_main(
    base: TextPass<'_>,
    style: RunStyle,
    frame: Option<Arc<Transform>>,
    id: u32,
    p: spec_fn(SceneNode) -> bool,
)
    requires
        holds_inside(p),
        holds_of_pass(p, base),
    ensures
        every(main_emission(base, style, frame, id).nodes, p),
{
    let (outline, edge) = (style.outline, style.edge_blur);
    assert(recolored(base, base.color) == base);
    lemma_every_fill(base, base.color, outline, edge, frame, id, p);
    if let Some(k) = style.karaoke {
        lemma_every_fill(base, k.secondary, outline, edge, frame, id, p);
        if k.style != 0 && k.progress.positive() {
            let unsung = fill_emission(recolored(base, k.secondary), outline, edge, frame, id);
            let sung = fill_emission(base, outline, edge, frame, unsung.next_id);
            let window = sung_window(base.rect, k.progress);
            let pop = SceneNode::PopClip;
            assert(is_inner(window) && is_inner(pop));
            lemma_every_fill(base, base.color, outline, edge, frame, unsung.next_id, p);
            lemma_every_one(window, p);
            lemma_every_one(pop, p);
            lemma_every_concat(seq![window], sung.nodes, p);
            lemma_every_concat(seq![window] + sung.nodes, seq![pop], p);
            lemma_every_concat(unsung.nodes, seq![window] + sung.nodes + seq![pop], p);
        }
    }
}

proof fn lemma_every_blurred(
    base: TextPass<'_>,
    style: RunStyle,
    frame: Option<Arc<Transform>>,
    id: u32,
    p: spec_fn(SceneNode) -> bool,
)
    requires
        holds_inside(p),
        holds_of_pass(p, base),
        style.shadow matches Some(s) ==> holds_of_pass(p, shadow_pass(base, s)),
    ensures
        every(blurred_emission(base, style, frame, id).nodes, p),
{
    match effective(style.blur) {
        None => {
            lemma_every_body(base, style, frame, id, p);
        },
        Some(radius) => {
            let next = next_id(id);
            let body = body_emission(base, style, frame, next);
            let rect = expanded(base.rect, frame, number(radius));
            let (begin, shift) = (layer_begin(rect, id, radius), layer_shift(rect));
            let end = SceneNode::EndLayer { layer_id: id };
            assert(is_inner(begin) && is_inner(shift) && is_inner(end));
            assert(is_inner(SceneNode::PopTransform));
            lemma_every_body(base, style, frame, next, p);
            lemma_every_concat(seq![begin, shift], body.nodes, p);
            lemma_every_concat(
                seq![begin, shift] + body.nodes,
                seq![SceneNode::PopTransform, end],
                p,
            );
        },
    }
}

proof fn lemma_every_body(
    base: TextPass<'_>,
    style: RunStyle,
    frame: Option<Arc<Transform>>,
    id: u32,
    p: spec_fn(SceneNode) -> bool,
)
    requires
        holds_inside(p),
        holds_of_pass(p, base),
        style.shadow matches Some(s) ==> holds_of_pass(p, shadow_pass(base, s)),
    ensures
        every(body_emission(base, style, frame, id).nodes, p),
{
    let behind = box_nodes(style.opaque_box, base.rect);
    if behind.len() > 0 {
        assert(is_inner(behind[0]));
    }
    let shadow = shadow_emission(base, style, frame, id);
    if let Some(s) = style.shadow {
        let pass = shadow_pass(base, s);
        assert(recolored(pass, pass.color) == pass);
        lemma_every_fill(pass, pass.color, style.outline, style.edge_blur, frame, id, p);
    }
    let main = main_emission(base, style, frame, shadow.next_id);
    lemma_every_main(base, style, frame, shadow.next_id, p);
    lemma_every_concat(behind, shadow.nodes, p);
    lemma_every_concat(behind + shadow.nodes, main.nodes, p);
}

/// Every text node of a run, whether fill or outline, shadow, sung or unsung, is
/// bold exactly where some effect of the run is, and italic exactly where some
/// effect is; it has the text of the run, its family, size and spacing. The fills
/// that stand where the run stands are underlined and struck through exactly
/// where some effect says so, and no outline is.
pub proof fn law_every_text_shows_the_run(
    m: Model,
    data: TextData,
    mask: Option<Arc<Triangles>>,
    id: u32,
    i: int,
)
    requires
        0 <= i < text_emission(data, mask, id).nodes.len(),
    ensures
        ({
            let effects = data.effects@;
            match text_emission(data, mask, id).nodes[i] {
                SceneNode::Text {
                    rect,
                    text,
                    size,
                    font_family,
                    font_weight,
                    font_style,
                    text_decoration,
                    letter_spacing,
                    line_height,
                    draw_style,
                    ..
                } => {
                    let points = data.font_size.value();
                    &&& text == data.text
                    &&& font_family is None <==> data.font_family@.len() == 0
                    &&& font_family matches Some(name) ==> name == data.font_family
                    &&& font_weight == FontWeight::Bold <==> exists|j: int|
                        0 <= j < effects.len() && #[trigger] effects[j] is Bold
                    &&& font_style == FontStyle::Italic <==> exists|j: int|
                        0 <= j < effects.len() && #[trigger] effects[j] is Italic
                    &&& letter_spacing.value(m) == data.spacing.value()
                    &&& size.value(m) == if points < 1real {
                        1real
                    } else {
                        points
                    }
                    &&& line_height.value(m) == if points * twelve_tenths() < 1real {
                        1real
                    } else {
                        points * twelve_tenths()
                    }
                    &&& draw_style is Fill && rect == run_rect(data) ==> {
                        &&& text_decoration.underline <==> exists|j: int|
                            0 <= j < effects.len() && #[trigger] effects[j] is Underline
                        &&& text_decoration.strikethrough <==> exists|j: int|
                            0 <= j < effects.len() && #[trigger] effects[j] is Strikethrough
                    }
                    &&& !(draw_style is Fill) ==> !text_decoration.underline
                        && !text_decoration.strikethrough
                },
                _ => true,
            }
        }),
{
    let style = run_style(data.effects@);
    let base = TextPass::spec_of(&data, style, run_rect(data));
    law_faces_are_switched_on(data.effects@);
    lemma_every_text_looks(m, data, style, mask, id, i);
    let node = text_emission(data, mask, id).nodes[i];
    assert(node is Text ==> looks(m, node, base));
}

proof fn lemma_shadow_is_elsewhere(data: TextData, style: RunStyle, s: ([u8; 4], Single, Single))
    ensures
        ({
            let base = TextPass::spec_of(&data, style, run_rect(data));
            shadow_pass(base, s).rect != base.rect
        }),
{
    let base = TextPass::spec_of(&data, style, run_rect(data));
    assert(*base.rect.x is Number);
    assert(*shadow_pass(base, s).rect.x is Sum);
}

proof fn lemma_inner_texts_look(
    m: Model,
    data: TextData,
    style: RunStyle,
    frame: Option<Arc<Transform>>,
    id: u32,
    i: int,
)
    requires
        ({
            let base = TextPass::spec_of(&data, style, run_rect(data));
            0 <= i < blurred_emission(base, style, frame, id).nodes.len()
        }),
    ensures
        ({
            let base = TextPass::spec_of(&data, style, run_rect(data));
            let node = blurred_emission(base, style, frame, id).nodes[i];
            node is Text ==> looks(m, node, base)
        }),
{
    let base = TextPass::spec_of(&data, style, run_rect(data));
    let p = |n: SceneNode| n is Text ==> looks(m, n, base);
    assert(holds_of_pass(p, base)) by {
        lemma_pass_looks(m, base, base);
    }
    if let Some(s) = style.shadow {
        lemma_shadow_is_elsewhere(data, style, s);
        assert(holds_of_pass(p, shadow_pass(base, s))) by {
            lemma_pass_looks(m, shadow_pass(base, s), base);
        }
    }
    assert(holds_inside(p));
    lemma_every_blurred(base, style, frame, id, p);
    let nodes = blurred_emission(base, style, frame, id).nodes;
    assert(p(nodes[i]));
}

proof fn lemma_every_text_looks(
    m: Model,
    data: TextData,
    style: RunStyle,
    mask: Option<Arc<Triangles>>,
    id: u32,
    i: int,
)
    requires
        0 <= i < styled_emission(data, style, mask, id).nodes.len(),
    ensures
        ({
            let base = TextPass::spec_of(&data, style, run_rect(data));
            let node = styled_emission(data, style, mask, id).nodes[i];
            node is Text ==> looks(m, node, base)
        }),
{
    let rect = run_rect(data);
    let frame = run_transform(style, rect);
    let base = TextPass::spec_of(&data, style, rect);
    let inner = blurred_emission(base, style, frame, id).nodes;
    let nodes = styled_emission(data, style, mask, id).nodes;
    law_layer_is_wrapped(m, data, style, mask, id);
    let d = (nodes.len() - inner.len()) / 2;
    if d <= i < nodes.len() - d {
        assert(nodes.subrange(d, nodes.len() - d)[i - d] == nodes[i]);
        lemma_inner_texts_look(m, data, style, frame, id, i - d);
    } else {
        lemma_no_text_outside(m, data, style, mask, id, i);
    }
}

/// Whether a text node looks as `base` asks, and as the fill of it where it
/// stands where `base` stands.
spec fn looks(m: Model, node: SceneNode, base: TextPass<'_>) -> bool {
    &&& draws_text_of(m, node, base)
    &&& node->Text_draw_style is Fill && node->Text_rect == base.rect
        ==> node->Text_text_decoration == base.decoration
    &&& !(node->Text_draw_style is Fill) ==> node->Text_text_decoration == undecorated()
}

proof fn lemma_pass_looks(m: Model, pass: TextPass<'_>, base: TextPass<'_>)
    requires
        pass == (TextPass {
            rect: pass.rect,
            color: pass.color,
            decoration: pass.decoration,
            ..base
        }),
        pass.rect == base.rect ==> pass.decoration == base.decoration,
    ensures
        forall|ink: [u8; 4]|
            looks(m, #[trigger] text_node_of(recolored(pass, ink), DrawStyle::Fill), base),
        forall|ink: [u8; 4], width: Single|
            looks(m, #[trigger] stroke_of(pass, ink, width), base),
        forall|ink: [u8; 4]|
            (#[trigger] text_node_of(recolored(pass, ink), DrawStyle::Fill)) is Text,
        forall|ink: [u8; 4], width: Single| (#[trigger] stroke_of(pass, ink, width)) is Text,
{
    assert forall|ink: [u8; 4]|
        looks(m, #[trigger] text_node_of(recolored(pass, ink), DrawStyle::Fill), base) by {
        lemma_draws_text(m, recolored(pass, ink), DrawStyle::Fill);
    }
    assert forall|ink: [u8; 4], width: Single|
        looks(m, #[trigger] stroke_of(pass, ink, width), base) by {
        lemma_draws_text(
            m,
            TextPass { color: ink, decoration: undecorated(), ..pass },
            outline_stroke(width, pass.font_size),
        );
    }
}

proof fn lemma_no_text_outside(
    m: Model,
    data: TextData,
    style: RunStyle,
    mask: Option<Arc<Triangles>>,
    id: u32,
    i: int,
)
    requires
        ({
            let e = styled_emission(data, style, mask, id);
            let rect = run_rect(data);
            let inner = blurred_emission(
                TextPass::spec_of(&data, style, rect),
                style,
                run_transform(style, rect),
                id,
            );
            let d = (e.nodes.len() - inner.nodes.len()) / 2;
            0 <= i < d || e.nodes.len() - d <= i < e.nodes.len()
        }),
    ensures
        !(styled_emission(data, style, mask, id).nodes[i] is Text),
{
    law_layer_is_wrapped(m, data, style, mask, id);
}

proof fn lemma_no_mask_inside(
    base: TextPass<'_>,
    style: RunStyle,
    frame: Option<Arc<Transform>>,
    id: u32,
)
    ensures
        forall|k: int| #![trigger blurred_emission(base, style, frame, id).nodes[k]]
            0 <= k < blurred_emission(base, style, frame, id).nodes.len() ==> !(blurred_emission(
                base,
                style,
                frame,
                id,
            ).nodes[k] is PushVectorClip),
{
    let p = |n: SceneNode| !(n is PushVectorClip);
    assert(holds_of_pass(p, base));
    if let Some(s) = style.shadow {
        assert(holds_of_pass(p, shadow_pass(base, s)));
    }
    assert(holds_inside(p));
    lemma_every_blurred(base, style, frame, id, p);
    let nodes = blurred_emission(base, style, frame, id).nodes;
    assert forall|k: int| #![trigger nodes[k]] 0 <= k < nodes.len() implies !(
    nodes[k] is PushVectorClip) by {
        assert(p(nodes[k]));
    }
}

proof fn lemma_masks(
    m: Model,
    data: TextData,
    style: RunStyle,
    mask: Option<Arc<Triangles>>,
    id: u32,
    k: int,
)
    requires
        0 <= k < styled_emission(data, style, mask, id).nodes.len(),
        styled_emission(data, style, mask, id).nodes[k] is PushVectorClip,
    ensures
        k == one_if(style.clip is Some),
        style.vector_clip is Some,
        mask is Some,
        mask->0.indices@.len() > 0,
{
    let rect = run_rect(data);
    let frame = run_transform(style, rect);
    let base = TextPass::spec_of(&data, style, rect);
    let inner = blurred_emission(base, style, frame, id).nodes;
    let nodes = styled_emission(data, style, mask, id).nodes;
    law_layer_is_wrapped(m, data, style, mask, id);
    lemma_no_mask_inside(base, style, frame, id);
    let d = (nodes.len() - inner.len()) / 2;
    if d <= k < nodes.len() - d {
        assert(nodes.subrange(d, nodes.len() - d)[k - d] == nodes[k]);
        assert(!(inner[k - d] is PushVectorClip));
    }
}

/// A run that clips along a drawing is drawn through one mask, made of the
/// triangles of its last drawing clip: the inside of it shows where that clip is
/// not inverse, and the outside where it is. The mask stands outside of all that
/// is drawn, and there is none where there is no drawing clip or no triangle.
pub proof fn law_drawing_clip_keeps_its_side(
    m: Model,
    data: TextData,
    mask: Option<Arc<Triangles>>,
    id: u32,
    i: int,
)
    requires
        0 <= i < data.effects@.len(),
        data.effects@[i] is VectorClip,
        forall|j: int| i < j < data.effects@.len() ==> !(#[trigger] data.effects@[j] is VectorClip),
        mask is Some,
        mask->0.indices@.len() > 0,
    ensures
        ({
            let nodes = text_emission(data, mask, id).nodes;
            let effects = data.effects@;
            let at = one_if(
                exists|j: int| 0 <= j < effects.len() && #[trigger] effects[j] is Clip,
            );
            &&& 0 <= at < nodes.len()
            &&& match nodes[at] {
                SceneNode::PushVectorClip { mesh, op } => {
                    &&& mesh.triangles == mask->0
                    &&& op == if effects[i]->VectorClip_inverse {
                        ClipOp::Difference
                    } else {
                        ClipOp::Intersect
                    }
                },
                _ => false,
            }
            &&& nodes[nodes.len() - 1 - at] is PopVectorClip
            &&& forall|k: int| 0 <= k < nodes.len() && #[trigger] nodes[k] is PushVectorClip ==> k
                == at
        }),
{
    let effects = data.effects@;
    let style = run_style(effects);
    law_last_of_a_kind_shows(effects, i);
    law_nothing_shows_unasked(effects);
    law_layer_is_wrapped(m, data, style, mask, id);
    let nodes = text_emission(data, mask, id).nodes;
    assert forall|k: int| 0 <= k < nodes.len() && #[trigger] nodes[k] is PushVectorClip implies k
        == one_if(style.clip is Some) by {
        lemma_masks(m, data, style, mask, id, k);
    }
}

/// No mask is drawn where no effect clips along a drawing, and none where the
/// tessellator returned no triangle.
pub proof fn law_no_mask_unasked(
    m: Model,
    data: TextData,
    mask: Option<Arc<Triangles>>,
    id: u32,
    k: int,
)
    requires
        0 <= k < text_emission(data, mask, id).nodes.len(),
        (forall|j: int|
            0 <= j < data.effects@.len() ==> !(#[trigger] data.effects@[j] is VectorClip))
            || mask is None || mask->0.indices@.len() == 0,
    ensures
        !(text_emission(data, mask, id).nodes[k] is PushVectorClip),
{
    let style = run_style(data.effects@);
    law_nothing_shows_unasked(data.effects@);
    if text_emission(data, mask, id).nodes[k] is PushVectorClip {
        lemma_masks(m, data, style, mask, id, k);
    }
}

/// A run that clips between edges is drawn in one clip around all of it: the one
/// between the edges of its last such clip, whose inside shows where it is not
/// inverse, and whose outside shows where it is.
pub proof fn law_edge_clip_keeps_its_side(
    m: Model,
    data: TextData,
    mask: Option<Arc<Triangles>>,
    id: u32,
    i: int,
)
    requires
        0 <= i < data.effects@.len(),
        data.effects@[i] is Clip,
        forall|j: int| i < j < data.effects@.len() ==> !(#[trigger] data.effects@[j] is Clip),
    ensures
        ({
            let nodes = text_emission(data, mask, id).nodes;
            &&& nodes.len() >= 2
            &&& nodes.last() is PopClip
            &&& match (data.effects@[i], nodes[0]) {
                (
                    TextEffect::Clip { x1, y1, x2, y2, inverse },
                    SceneNode::PushClip { rect, radius, op },
                ) => {
                    let (dx, dy) = (x2.value() - x1.value(), y2.value() - y1.value());
                    &&& rect.x.value(m) == x1.value()
                    &&& rect.y.value(m) == y1.value()
                    &&& rect.w.value(m) == if dx < 0real {
                        0real
                    } else {
                        dx
                    }
                    &&& rect.h.value(m) == if dy < 0real {
                        0real
                    } else {
                        dy
                    }
                    &&& radius.value(m) == 0real
                    &&& op == if inverse {
                        ClipOp::Difference
                    } else {
                        ClipOp::Intersect
                    }
                },
                _ => false,
            }
        }),
{
    let style = run_style(data.effects@);
    law_last_of_a_kind_shows(data.effects@, i);
    law_layer_is_wrapped(m, data, style, mask, id);
}

} // verus!
