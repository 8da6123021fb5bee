//! Text layers: one run of text with all of its effects as scene nodes.

use crate::formula::{
    at_least, constant, difference, negated, number, product, quotient, sum, Formula,
};
use crate::geometry::{expand_layer_rect, expanded, grow, padded, Rect, Transform};
use crate::layers::TextData;
use crate::mesh::{mesh_of, solid_mesh, white, white_color, Triangles};
use crate::run::{
    run_rect, run_style, run_transform, text_rect, ClipEdges, FontStyle, FontWeight, RunStyle,
    TextDecoration, HALF,
};
use crate::scene::{
    next_id, ClipOp, DrawStyle, LayerCtx, SceneNode, StrokeCap, StrokeJoin, TextAlign,
};
use crate::single::{Single, ONE, ZERO};
use std::sync::Arc;
use vstd::prelude::*;

verus! {

/// Bit pattern of `1.2`: line height in font sizes.
pub const LINE_HEIGHT: u32 = 0x3f99_999a;

/// Bit pattern of `0.01`: the thinnest outline, in ems.
pub const THINNEST_OUTLINE: u32 = 0x3c23_d70a;

/// Bit pattern of `4.0`: miter limit of outlines.
pub const MITER_LIMIT: u32 = 0x4080_0000;

/// What drawing something adds to a scene: its nodes, and the id that the next
/// graphics layer gets.
pub struct Emission {
    /// The nodes, in drawing order.
    pub nodes: Seq<SceneNode>,
    /// The id of the next layer.
    pub next_id: u32,
}

/// One text node to come: a run at a place, in a colour.
pub struct TextPass<'a> {
    /// The text.
    pub text: &'a String,
    /// Where it stands.
    pub rect: Rect,
    /// Its colour (RGBA).
    pub color: [u8; 4],
    /// Font family; empty for the default one.
    pub font_family: &'a String,
    /// Font size in pixels.
    pub font_size: Single,
    /// Letter spacing in pixels.
    pub spacing: Single,
    /// Weight of the face.
    pub weight: FontWeight,
    /// Slant of the face.
    pub style: FontStyle,
    /// Lines along the text.
    pub decoration: TextDecoration,
}

/// No lines along the text.
pub open spec fn undecorated() -> TextDecoration {
    TextDecoration { underline: false, strikethrough: false }
}

/// The node that draws `pass`.
pub open spec fn text_node_of(pass: TextPass<'_>, draw_style: DrawStyle) -> SceneNode {
    SceneNode::Text {
        rect: pass.rect,
        text: *pass.text,
        color: pass.color,
        size: at_least(&number(pass.font_size), ONE),
        font_family: if pass.font_family@.len() == 0 {
            None
        } else {
            Some(*pass.font_family)
        },
        text_align: TextAlign::Unspecified,
        font_weight: pass.weight,
        font_style: pass.style,
        text_decoration: pass.decoration,
        letter_spacing: number(pass.spacing),
        line_height: at_least(&product(&number(pass.font_size), &constant(LINE_HEIGHT)), ONE),
        draw_style,
        url: None,
        font_variation_settings: None,
    }
}

/// The node that draws `pass` in the given style.
pub fn text_node(pass: &TextPass<'_>, draw_style: DrawStyle) -> (node: SceneNode)
    ensures
        node == text_node_of(*pass, draw_style),
{
    let font_family = if pass.font_family.as_str().is_empty() {
        None
    } else {
        Some(pass.font_family.clone())
    };
    SceneNode::Text {
        rect: pass.rect.share(),
        text: pass.text.clone(),
        color: pass.color,
        size: at_least(&number(pass.font_size), ONE),
        font_family,
        text_align: TextAlign::Unspecified,
        font_weight: pass.weight,
        font_style: pass.style,
        text_decoration: pass.decoration,
        letter_spacing: number(pass.spacing),
        line_height: at_least(&product(&number(pass.font_size), &constant(LINE_HEIGHT)), ONE),
        draw_style,
        url: None,
        font_variation_settings: None,
    }
}

/// A radius that blurs anything: `None` where it is not above zero.
pub open spec fn effective(radius: Option<Single>) -> Option<Single> {
    match radius {
        Some(r) => if r.positive() {
            Some(r)
        } else {
            None
        },
        None => None,
    }
}

fn effective_radius(radius: Option<Single>) -> (r: Option<Single>)
    ensures
        r == effective(radius),
{
    match radius {
        Some(r) => if r.is_positive() {
            Some(r)
        } else {
            None
        },
        None => None,
    }
}

/// The stroke of an outline of `width` pixels: its share of the font size, but
/// no thinner than a hundredth and no thicker than half an em.
pub open spec fn outline_stroke(width: Single, font_size: Single) -> DrawStyle {
    DrawStyle::Stroke {
        width: Arc::new(
            Formula::Clamped(
                quotient(&number(width), &at_least(&number(font_size), ONE)),
                Single { bits: THINNEST_OUTLINE },
                Single { bits: HALF },
            ),
        ),
        cap: StrokeCap::Round,
        join: StrokeJoin::Round,
        miter: constant(MITER_LIMIT),
    }
}

/// The node that opens a blur layer.
pub open spec fn layer_begin(rect: Rect, layer_id: u32, radius: Single) -> SceneNode {
    SceneNode::BeginLayer {
        rect,
        layer_id,
        alpha: constant(ONE),
        blur_radius_x: number(radius),
        blur_radius_y: number(radius),
        rectangle_edge: true,
    }
}

/// The shift that places the content of a layer relative to it.
pub open spec fn layer_shift(rect: Rect) -> SceneNode {
    SceneNode::PushTransform {
        transform: Arc::new(
            Transform::Translation { x: negated(&rect.x), y: negated(&rect.y) },
        ),
    }
}

fn begin_layer(nodes: &mut Vec<SceneNode>, rect: Rect, layer_id: u32, radius: Single)
    ensures
        final(nodes)@ == old(nodes)@.push(layer_begin(rect, layer_id, radius)).push(
            layer_shift(rect),
        ),
{
    let shift = Arc::new(Transform::Translation { x: negated(&rect.x), y: negated(&rect.y) });
    nodes.push(
        SceneNode::BeginLayer {
            rect,
            layer_id,
            alpha: constant(ONE),
            blur_radius_x: number(radius),
            blur_radius_y: number(radius),
            rectangle_edge: true,
        },
    );
    nodes.push(SceneNode::PushTransform { transform: shift });
}

fn end_layer(nodes: &mut Vec<SceneNode>, layer_id: u32)
    ensures
        final(nodes)@ == old(nodes)@.push(SceneNode::PopTransform).push(
            SceneNode::EndLayer { layer_id },
        ),
{
    nodes.push(SceneNode::PopTransform);
    nodes.push(SceneNode::EndLayer { layer_id });
}

/// `inner` in a blur layer over `rect`.
pub open spec fn in_layer(
    rect: Rect,
    layer_id: u32,
    radius: Single,
    inner: Seq<SceneNode>,
) -> Seq<SceneNode> {
    seq![layer_begin(rect, layer_id, radius), layer_shift(rect)] + inner + seq![
        SceneNode::PopTransform,
        SceneNode::EndLayer { layer_id },
    ]
}

/// The outline under a run: one stroked text node without decoration, in a
/// blur layer of its own where the edges are blurred.
pub open spec fn outline_emission(
    pass: TextPass<'_>,
    outline: Option<([u8; 4], Single)>,
    edge_blur: Option<Single>,
    transform: Option<Arc<Transform>>,
    id: u32,
) -> Emission {
    match outline {
        None => Emission { nodes: Seq::empty(), next_id: id },
        Some((color, width)) => {
            let stroke = text_node_of(
                TextPass { color, decoration: undecorated(), ..pass },
                outline_stroke(width, pass.font_size),
            );
            match effective(edge_blur) {
                None => Emission { nodes: seq![stroke], next_id: id },
                Some(radius) => {
                    let pad = sum(&number(radius), &number(width));
                    let rect = expanded(pass.rect, transform, pad);
                    Emission {
                        nodes: in_layer(rect, id, radius, seq![stroke]),
                        next_id: next_id(id),
                    }
                },
            }
        },
    }
}

/// Emits the outline of `pass`, if any, below what is drawn next.
///
/// An edge blur wraps just this stroke in a blur layer, so that the fill stays
/// sharp.
pub fn emit_outline_pass(
    nodes: &mut Vec<SceneNode>,
    layers_ctx: &mut LayerCtx,
    pass: &TextPass<'_>,
    outline: Option<([u8; 4], Single)>,
    edge_blur: Option<Single>,
    transform: &Option<Arc<Transform>>,
)
    ensures
        ({
            let e = outline_emission(
                *pass,
                outline,
                edge_blur,
                *transform,
                old(layers_ctx).next_layer_id,
            );
            &&& final(nodes)@ == old(nodes)@ + e.nodes
            &&& final(layers_ctx).next_layer_id == e.next_id
        }),
{
    let (color, width) = match outline {
        Some(o) => o,
        None => {
            assert(nodes@ =~= old(nodes)@ + Seq::<SceneNode>::empty());
            return;
        },
    };
    let em = quotient(&number(width), &at_least(&number(pass.font_size), ONE));
    let stroke_width = Arc::new(
        Formula::Clamped(em, Single::from_bits(THINNEST_OUTLINE), Single::from_bits(HALF)),
    );
    let stroke = text_node(
        &TextPass {
            text: pass.text,
            rect: pass.rect.share(),
            color,
            font_family: pass.font_family,
            font_size: pass.font_size,
            spacing: pass.spacing,
            weight: pass.weight,
            style: pass.style,
            decoration: TextDecoration { underline: false, strikethrough: false },
        },
        DrawStyle::Stroke {
            width: stroke_width,
            cap: StrokeCap::Round,
            join: StrokeJoin::Round,
            miter: constant(MITER_LIMIT),
        },
    );
    match effective_radius(edge_blur) {
        Some(radius) => {
            let id: u32 = layers_ctx.allocate();
            let pad = sum(&number(radius), &number(width));
            let rect = expand_layer_rect(&pass.rect, transform, &pad);
            begin_layer(nodes, rect, id, radius);
            nodes.push(stroke);
            end_layer(nodes, id);
        },
        None => {
            nodes.push(stroke);
        },
    }
}

/// A run drawn once: its outline, then its fill.
pub open spec fn fill_emission(
    pass: TextPass<'_>,
    outline: Option<([u8; 4], Single)>,
    edge_blur: Option<Single>,
    transform: Option<Arc<Transform>>,
    id: u32,
) -> Emission {
    let under = outline_emission(pass, outline, edge_blur, transform, id);
    Emission {
        nodes: under.nodes.push(text_node_of(pass, DrawStyle::Fill)),
        next_id: under.next_id,
    }
}

/// Emits one fill pass of `pass`, its outline below it.
pub fn emit_fill_pass(
    nodes: &mut Vec<SceneNode>,
    layers_ctx: &mut LayerCtx,
    pass: &TextPass<'_>,
    outline: Option<([u8; 4], Single)>,
    edge_blur: Option<Single>,
    transform: &Option<Arc<Transform>>,
)
    ensures
        ({
            let e = fill_emission(
                *pass,
                outline,
                edge_blur,
                *transform,
                old(layers_ctx).next_layer_id,
            );
            &&& final(nodes)@ == old(nodes)@ + e.nodes
            &&& final(layers_ctx).next_layer_id == e.next_id
        }),
{
    emit_outline_pass(nodes, layers_ctx, pass, outline, edge_blur, transform);
    nodes.push(text_node(pass, DrawStyle::Fill));
}

/// `pass` in another colour.
pub open spec fn recolored(pass: TextPass<'_>, color: [u8; 4]) -> TextPass<'_> {
    TextPass { color, ..pass }
}

impl<'a> TextPass<'a> {
    /// The pass that draws a run with all of its faces and lines.
    pub open spec fn spec_of(data: &'a TextData, style: RunStyle, rect: Rect) -> TextPass<'a> {
        TextPass {
            text: &data.text,
            rect,
            color: data.color,
            font_family: &data.font_family,
            font_size: data.font_size,
            spacing: data.spacing,
            weight: style.weight,
            style: style.style,
            decoration: style.decoration,
        }
    }

    fn of(data: &'a TextData, style: &RunStyle, rect: &Rect) -> (pass: TextPass<'a>)
        ensures
            pass == TextPass::spec_of(data, *style, *rect),
    {
        TextPass {
            text: &data.text,
            rect: rect.share(),
            color: data.color,
            font_family: &data.font_family,
            font_size: data.font_size,
            spacing: data.spacing,
            weight: style.weight,
            style: style.style,
            decoration: style.decoration,
        }
    }

    fn recolor(&self, color: [u8; 4]) -> (pass: TextPass<'a>)
        ensures
            pass == recolored(*self, color),
    {
        TextPass {
            text: self.text,
            rect: self.rect.share(),
            color,
            font_family: self.font_family,
            font_size: self.font_size,
            spacing: self.spacing,
            weight: self.weight,
            style: self.style,
            decoration: self.decoration,
        }
    }
}

/// The clip that a list of edges describes; edges in the wrong order leave it
/// empty.
pub open spec fn clip_node(edges: ClipEdges) -> SceneNode {
    SceneNode::PushClip {
        rect: Rect {
            x: number(edges.x1),
            y: number(edges.y1),
            w: at_least(&difference(&number(edges.x2), &number(edges.x1)), ZERO),
            h: at_least(&difference(&number(edges.y2), &number(edges.y1)), ZERO),
        },
        radius: constant(ZERO),
        op: clip_op(edges.inverse),
    }
}

/// What a clip keeps.
#[verifier::allow_in_spec]
pub fn clip_op(inverse: bool) -> ClipOp
    returns
        (if inverse {
            ClipOp::Difference
        } else {
            ClipOp::Intersect
        }),
{
    if inverse {
        ClipOp::Difference
    } else {
        ClipOp::Intersect
    }
}

/// The clip along a drawing that a run is drawn in, if it has one and the
/// drawing could be tessellated. A failed tessellation drops the clip and
/// keeps the run.
pub open spec fn mask_node(
    vector_clip: Option<(usize, bool)>,
    mask: Option<Arc<Triangles>>,
) -> Option<SceneNode> {
    match (vector_clip, mesh_of(mask, white())) {
        (Some((_, inverse)), Some(mesh)) => Some(
            SceneNode::PushVectorClip { mesh, op: clip_op(inverse) },
        ),
        _ => None,
    }
}

/// The box behind a run.
pub open spec fn box_nodes(opaque_box: Option<([u8; 4], Single)>, rect: Rect) -> Seq<SceneNode> {
    match opaque_box {
        Some((color, padding)) => seq![
            SceneNode::Rect { rect: padded(rect, number(padding)), color, radius: constant(ZERO) },
        ],
        None => Seq::empty(),
    }
}

/// The pass that draws the shadow: the run, shifted, in the shadow colour and
/// without decoration.
pub open spec fn shadow_pass(
    base: TextPass<'_>,
    shadow: ([u8; 4], Single, Single),
) -> TextPass<'_> {
    TextPass {
        rect: Rect {
            x: sum(&base.rect.x, &number(shadow.1)),
            y: sum(&base.rect.y, &number(shadow.2)),
            ..base.rect
        },
        color: shadow.0,
        decoration: undecorated(),
        ..base
    }
}

/// The shadow of a run, with the outline that the run has.
pub open spec fn shadow_emission(
    base: TextPass<'_>,
    style: RunStyle,
    transform: Option<Arc<Transform>>,
    id: u32,
) -> Emission {
    match style.shadow {
        Some(shadow) => fill_emission(
            shadow_pass(base, shadow),
            style.outline,
            style.edge_blur,
            transform,
            id,
        ),
        None => Emission { nodes: Seq::empty(), next_id: id },
    }
}

/// The clip around the sung part of a swept run.
pub open spec fn sung_window(rect: Rect, progress: Single) -> SceneNode {
    SceneNode::PushClip {
        rect: Rect { w: product(&rect.w, &number(progress)), ..rect },
        radius: constant(ZERO),
        op: ClipOp::Intersect,
    }
}

/// The run itself. Without karaoke it is drawn once. The flipping style draws
/// it once too, in the sung colour as soon as any of it is sung. The sweeping
/// styles draw it unsung, and then the sung part of it over that.
pub open spec fn main_emission(
    base: TextPass<'_>,
    style: RunStyle,
    transform: Option<Arc<Transform>>,
    id: u32,
) -> Emission {
    let (outline, edge) = (style.outline, style.edge_blur);
    match style.karaoke {
        None => fill_emission(base, outline, edge, transform, id),
        Some(k) => {
            let unsung = fill_emission(
                recolored(base, k.secondary),
                outline,
                edge,
                transform,
                id,
            );
            if k.style == 0 {
                if k.progress.positive() {
                    fill_emission(base, outline, edge, transform, id)
                } else {
                    unsung
                }
            } else if k.progress.positive() {
                let sung = fill_emission(base, outline, edge, transform, unsung.next_id);
                Emission {
                    nodes: unsung.nodes + (seq![sung_window(base.rect, k.progress)] + sung.nodes
                        + seq![SceneNode::PopClip]),
                    next_id: sung.next_id,
                }
            } else {
                unsung
            }
        },
    }
}

/// Box, shadow and run, in this order.
pub open spec fn body_emission(
    base: TextPass<'_>,
    style: RunStyle,
    transform: Option<Arc<Transform>>,
    id: u32,
) -> Emission {
    let shadow = shadow_emission(base, style, transform, id);
    let main = main_emission(base, style, transform, shadow.next_id);
    Emission {
        nodes: box_nodes(style.opaque_box, base.rect) + shadow.nodes + main.nodes,
        next_id: main.next_id,
    }
}

/// The body of a run, in a blur layer where the whole run is blurred. The
/// layer covers the transformed run and the bleed of the blur.
pub open spec fn blurred_emission(
    base: TextPass<'_>,
    style: RunStyle,
    transform: Option<Arc<Transform>>,
    id: u32,
) -> Emission {
    match effective(style.blur) {
        None => body_emission(base, style, transform, id),
        Some(radius) => {
            let body = body_emission(base, style, transform, next_id(id));
            let rect = expanded(base.rect, transform, number(radius));
            Emission { nodes: in_layer(rect, id, radius, body.nodes), next_id: body.next_id }
        },
    }
}

/// `inner` between `opening` and `closing`, or alone where there is nothing to
/// open.
pub open spec fn wrapped(
    opening: Option<SceneNode>,
    inner: Seq<SceneNode>,
    closing: SceneNode,
) -> Seq<SceneNode> {
    match opening {
        Some(node) => seq![node] + inner + seq![closing],
        None => inner,
    }
}

/// The node that opens the transform of a run, if it has one.
pub open spec fn transform_node(transform: Option<Arc<Transform>>) -> Option<SceneNode> {
    match transform {
        Some(transform) => Some(SceneNode::PushTransform { transform }),
        None => None,
    }
}

/// The blurred body of a run in the transform of the run.
pub open spec fn turned_emission(data: TextData, style: RunStyle, id: u32) -> Emission {
    let rect = run_rect(data);
    let transform = run_transform(style, rect);
    let inner = blurred_emission(TextPass::spec_of(&data, style, rect), style, transform, id);
    Emission {
        nodes: wrapped(transform_node(transform), inner.nodes, SceneNode::PopTransform),
        next_id: inner.next_id,
    }
}

/// A text layer in a given style: the turned run in the clip along a drawing,
/// and that in the rectangular clip.
pub open spec fn styled_emission(
    data: TextData,
    style: RunStyle,
    mask: Option<Arc<Triangles>>,
    id: u32,
) -> Emission {
    let inner = turned_emission(data, style, id);
    let masked = wrapped(
        mask_node(style.vector_clip, mask),
        inner.nodes,
        SceneNode::PopVectorClip,
    );
    let clip = match style.clip {
        Some(edges) => Some(clip_node(edges)),
        None => None,
    };
    Emission { nodes: wrapped(clip, masked, SceneNode::PopClip), next_id: inner.next_id }
}

/// A text layer: the run in the style that its effects amount to.
pub open spec fn text_emission(data: TextData, mask: Option<Arc<Triangles>>, id: u32) -> Emission {
    styled_emission(data, run_style(data.effects@), mask, id)
}

fn emit_shadow(
    nodes: &mut Vec<SceneNode>,
    layers_ctx: &mut LayerCtx,
    base: &TextPass<'_>,
    style: &RunStyle,
    transform: &Option<Arc<Transform>>,
)
    ensures
        ({
            let e = shadow_emission(*base, *style, *transform, old(layers_ctx).next_layer_id);
            &&& final(nodes)@ == old(nodes)@ + e.nodes
            &&& final(layers_ctx).next_layer_id == e.next_id
        }),
{
    match style.shadow {
        Some((color, dx, dy)) => {
            let pass = TextPass {
                text: base.text,
                rect: Rect {
                    x: sum(&base.rect.x, &number(dx)),
                    y: sum(&base.rect.y, &number(dy)),
                    w: base.rect.w.clone(),
                    h: base.rect.h.clone(),
                },
                color,
                font_family: base.font_family,
                font_size: base.font_size,
                spacing: base.spacing,
                weight: base.weight,
                style: base.style,
                decoration: TextDecoration { underline: false, strikethrough: false },
            };
            emit_fill_pass(nodes, layers_ctx, &pass, style.outline, style.edge_blur, transform);
        },
        None => {
            assert(nodes@ =~= old(nodes)@ + Seq::<SceneNode>::empty());
        },
    }
}

fn emit_main(
    nodes: &mut Vec<SceneNode>,
    layers_ctx: &mut LayerCtx,
    base: &TextPass<'_>,
    style: &RunStyle,
    transform: &Option<Arc<Transform>>,
)
    ensures
        ({
            let e = main_emission(*base, *style, *transform, old(layers_ctx).next_layer_id);
            &&& final(nodes)@ == old(nodes)@ + e.nodes
            &&& final(layers_ctx).next_layer_id == e.next_id
        }),
{
    let (outline, edge) = (style.outline, style.edge_blur);
    match style.karaoke {
        None => {
            emit_fill_pass(nodes, layers_ctx, base, outline, edge, transform);
        },
        Some(k) => {
            let sung: bool = k.progress.is_positive();
            if k.style == 0 && sung {
                emit_fill_pass(nodes, layers_ctx, base, outline, edge, transform);
                return;
            }
            let unsung = base.recolor(k.secondary);
            emit_fill_pass(nodes, layers_ctx, &unsung, outline, edge, transform);
            if k.style != 0 && sung {
                let rect = Rect {
                    x: base.rect.x.clone(),
                    y: base.rect.y.clone(),
                    w: product(&base.rect.w, &number(k.progress)),
                    h: base.rect.h.clone(),
                };
                nodes.push(
                    SceneNode::PushClip { rect, radius: constant(ZERO), op: ClipOp::Intersect },
                );
                emit_fill_pass(nodes, layers_ctx, base, outline, edge, transform);
                nodes.push(SceneNode::PopClip);
            }
        },
    }
}

fn emit_body(
    nodes: &mut Vec<SceneNode>,
    layers_ctx: &mut LayerCtx,
    base: &TextPass<'_>,
    style: &RunStyle,
    transform: &Option<Arc<Transform>>,
)
    ensures
        ({
            let e = body_emission(*base, *style, *transform, old(layers_ctx).next_layer_id);
            &&& final(nodes)@ == old(nodes)@ + e.nodes
            &&& final(layers_ctx).next_layer_id == e.next_id
        }),
{
    if let Some((color, padding)) = style.opaque_box {
        let rect = grow(&base.rect, &number(padding));
        nodes.push(SceneNode::Rect { rect, color, radius: constant(ZERO) });
    }
    emit_shadow(nodes, layers_ctx, base, style, transform);
    emit_main(nodes, layers_ctx, base, style, transform);
}

fn emit_blurred(
    nodes: &mut Vec<SceneNode>,
    layers_ctx: &mut LayerCtx,
    base: &TextPass<'_>,
    style: &RunStyle,
    transform: &Option<Arc<Transform>>,
)
    ensures
        ({
            let e = blurred_emission(*base, *style, *transform, old(layers_ctx).next_layer_id);
            &&& final(nodes)@ == old(nodes)@ + e.nodes
            &&& final(layers_ctx).next_layer_id == e.next_id
        }),
{
    match effective_radius(style.blur) {
        Some(radius) => {
            let id: u32 = layers_ctx.allocate();
            let rect = expand_layer_rect(&base.rect, transform, &number(radius));
            begin_layer(nodes, rect, id, radius);
            emit_body(nodes, layers_ctx, base, style, transform);
            end_layer(nodes, id);
        },
        None => {
            emit_body(nodes, layers_ctx, base, style, transform);
        },
    }
}

fn emit_turned(
    nodes: &mut Vec<SceneNode>,
    layers_ctx: &mut LayerCtx,
    data: &TextData,
    style: &RunStyle,
)
    ensures
        ({
            let e = turned_emission(*data, *style, old(layers_ctx).next_layer_id);
            &&& final(nodes)@ == old(nodes)@ + e.nodes
            &&& final(layers_ctx).next_layer_id == e.next_id
        }),
{
    let rect = text_rect(data);
    let base = TextPass::of(data, style, &rect);
    let transform = style.transform(&rect);
    if let Some(t) = &transform {
        nodes.push(SceneNode::PushTransform { transform: t.clone() });
    }
    emit_blurred(nodes, layers_ctx, &base, style, &transform);
    if transform.is_some() {
        nodes.push(SceneNode::PopTransform);
    }
}

/// Emits a text layer with all of its effects.
///
/// `mask` is what the tessellator made of the drawing to clip along, if the
/// run has one.
pub fn emit_text(
    nodes: &mut Vec<SceneNode>,
    layers_ctx: &mut LayerCtx,
    data: &TextData,
    mask: &Option<Arc<Triangles>>,
)
    ensures
        ({
            let e = text_emission(*data, *mask, old(layers_ctx).next_layer_id);
            &&& final(nodes)@ == old(nodes)@ + e.nodes
            &&& final(layers_ctx).next_layer_id == e.next_id
        }),
{
    let style = RunStyle::of(&data.effects);
    if let Some(edges) = style.clip {
        let rect = Rect {
            x: number(edges.x1),
            y: number(edges.y1),
            w: at_least(&difference(&number(edges.x2), &number(edges.x1)), ZERO),
            h: at_least(&difference(&number(edges.y2), &number(edges.y1)), ZERO),
        };
        nodes.push(
            SceneNode::PushClip { rect, radius: constant(ZERO), op: clip_op(edges.inverse) },
        );
    }
    let mut masked: bool = false;
    if let Some((_, inverse)) = style.vector_clip {
        if let Some(mesh) = solid_mesh(mask, white_color()) {
            nodes.push(SceneNode::PushVectorClip { mesh, op: clip_op(inverse) });
            masked = true;
        }
    }
    emit_turned(nodes, layers_ctx, data, &style);
    if masked {
        nodes.push(SceneNode::PopVectorClip);
    }
    if style.clip.is_some() {
        nodes.push(SceneNode::PopClip);
    }
}

} // verus!
