//! What holds of every text layer.

use crate::formula::{number, product, real_max, Formula, Model};
use crate::geometry::{expanded, Rect, Transform};
use crate::layers::TextData;
use crate::mesh::{drawn, Triangles};
use crate::run::{run_rect, run_style, run_transform, ClipEdges, Karaoke, RunStyle, HALF};
use crate::run_laws::law_run_has_a_pixel;
use crate::scene::{
    lemma_tidy_concat, lemma_tidy_leaf, lemma_tidy_wrap, next_id, tidy, DrawStyle, SceneNode,
};
use crate::single::{
    law_positive_is_above_zero, law_rank_orders_values, lemma_one_and_two, Single, ONE, ZERO,
};
use crate::text::{
    blurred_emission, body_emission, box_nodes, clip_node, effective, fill_emission, in_layer,
    layer_begin, layer_shift, main_emission, mask_node, outline_emission, outline_stroke, recolored,
    shadow_emission, shadow_pass, styled_emission, sung_window, text_emission, text_node_of,
    transform_node, turned_emission, undecorated, wrapped, TextPass, THINNEST_OUTLINE,
};
use std::sync::Arc;
use vstd::prelude::*;

verus! {

proof fn lemma_tidy_layer(
    rect: Rect,
    id: u32,
    radius: Single,
    inner: Seq<SceneNode>,
    after: u32,
)
    requires
        tidy(inner, next_id(id), after),
    ensures
        tidy(in_layer(rect, id, radius, inner), id, after),
{
    let (begin, shift) = (layer_begin(rect, id, radius), layer_shift(rect));
    let end = SceneNode::EndLayer { layer_id: id };
    let shifted = seq![shift] + inner + seq![SceneNode::PopTransform];
    lemma_tidy_wrap(shift, inner, SceneNode::PopTransform, next_id(id), after);
    lemma_tidy_wrap(begin, shifted, end, id, after);
    assert(in_layer(rect, id, radius, inner) =~= seq![begin] + shifted + seq![end]);
}

proof fn lemma_tidy_wrapped(
    opening: Option<SceneNode>,
    inner: Seq<SceneNode>,
    closing: SceneNode,
    first: u32,
    after: u32,
)
    requires
        tidy(inner, first, after),
        closing.opens() is None,
        opening matches Some(node) ==> node.opens() is Some && node.opens() == closing.closes()
            && !(node is BeginLayer),
    ensures
        tidy(wrapped(opening, inner, closing), first, after),
{
    if let Some(node) = opening {
        lemma_tidy_wrap(node, inner, closing, first, after);
    }
}

proof fn lemma_tidy_outline(
    pass: TextPass<'_>,
    outline: Option<([u8; 4], Single)>,
    edge_blur: Option<Single>,
    transform: Option<Arc<Transform>>,
    id: u32,
)
    ensures
        ({
            let e = outline_emission(pass, outline, edge_blur, transform, id);
            tidy(e.nodes, id, e.next_id)
        }),
{
    if let Some((color, width)) = outline {
        let stroke = text_node_of(
            TextPass { color, decoration: undecorated(), ..pass },
            outline_stroke(width, pass.font_size),
        );
        lemma_tidy_leaf(stroke, id);
        lemma_tidy_leaf(stroke, next_id(id));
        if let Some(radius) = effective(edge_blur) {
            let e = outline_emission(pass, outline, edge_blur, transform, id);
            let rect = e.nodes[0]->BeginLayer_rect;
            lemma_tidy_layer(rect, id, radius, seq![stroke], next_id(id));
        }
    }
}

proof fn lemma_tidy_fill(
    pass: TextPass<'_>,
    outline: Option<([u8; 4], Single)>,
    edge_blur: Option<Single>,
    transform: Option<Arc<Transform>>,
    id: u32,
)
    ensures
        ({
            let e = fill_emission(pass, outline, edge_blur, transform, id);
            tidy(e.nodes, id, e.next_id)
        }),
{
    let under = outline_emission(pass, outline, edge_blur, transform, id);
    let node = text_node_of(pass, DrawStyle::Fill);
    lemma_tidy_outline(pass, outline, edge_blur, transform, id);
    lemma_tidy_leaf(node, under.next_id);
    lemma_tidy_concat(under.nodes, seq![node], id, under.next_id, under.next_id);
    assert(under.nodes.push(node) =~= under.nodes + seq![node]);
}

proof fn lemma_tidy_main(
    base: TextPass<'_>,
    style: RunStyle,
    transform: Option<Arc<Transform>>,
    id: u32,
)
    ensures
        ({
            let e = main_emission(base, style, transform, id);
            tidy(e.nodes, id, e.next_id)
        }),
{
    let (outline, edge) = (style.outline, style.edge_blur);
    lemma_tidy_fill(base, outline, edge, transform, id);
    if let Some(k) = style.karaoke {
        let unsung = fill_emission(recolored(base, k.secondary), outline, edge, transform, id);
        lemma_tidy_fill(recolored(base, k.secondary), outline, edge, transform, id);
        if k.style != 0 && k.progress.positive() {
            let sung = fill_emission(base, outline, edge, transform, unsung.next_id);
            let window = sung_window(base.rect, k.progress);
            lemma_tidy_fill(base, outline, edge, transform, unsung.next_id);
            lemma_tidy_wrap(
                window,
                sung.nodes,
                SceneNode::PopClip,
                unsung.next_id,
                sung.next_id,
            );
            lemma_tidy_concat(
                unsung.nodes,
                seq![window] + sung.nodes + seq![SceneNode::PopClip],
                id,
                unsung.next_id,
                sung.next_id,
            );
        }
    }
}

proof fn lemma_tidy_body(
    base: TextPass<'_>,
    style: RunStyle,
    transform: Option<Arc<Transform>>,
    id: u32,
)
    ensures
        ({
            let e = body_emission(base, style, transform, id);
            tidy(e.nodes, id, e.next_id)
        }),
{
    let behind = box_nodes(style.opaque_box, base.rect);
    if behind.len() > 0 {
        lemma_tidy_leaf(behind[0], id);
        assert(behind =~= seq![behind[0]]);
    }
    let shadow = shadow_emission(base, style, transform, id);
    if let Some(s) = style.shadow {
        lemma_tidy_fill(shadow_pass(base, s), style.outline, style.edge_blur, transform, id);
    }
    let main = main_emission(base, style, transform, shadow.next_id);
    lemma_tidy_main(base, style, transform, shadow.next_id);
    lemma_tidy_concat(behind, shadow.nodes, id, id, shadow.next_id);
    lemma_tidy_concat(
        behind + shadow.nodes,
        main.nodes,
        id,
        shadow.next_id,
        main.next_id,
    );
}

/// Every text layer closes what it opens, innermost first, and numbers its
/// graphics layers one after the other.
pub proof fn law_text_is_tidy(data: TextData, mask: Option<Arc<Triangles>>, id: u32)
    ensures
        ({
            let e = text_emission(data, mask, id);
            tidy(e.nodes, id, e.next_id)
        }),
{
    let style = run_style(data.effects@);
    let rect = run_rect(data);
    let transform = run_transform(style, rect);
    let base = TextPass::spec_of(&data, style, rect);
    let blurred = blurred_emission(base, style, transform, id);
    lemma_tidy_body(base, style, transform, id);
    if let Some(radius) = effective(style.blur) {
        let body = body_emission(base, style, transform, next_id(id));
        lemma_tidy_body(base, style, transform, next_id(id));
        let layer = expanded(base.rect, transform, number(radius));
        lemma_tidy_layer(layer, id, radius, body.nodes, body.next_id);
    }
    let turned = turned_emission(data, style, id);
    lemma_tidy_wrapped(
        transform_node(transform),
        blurred.nodes,
        SceneNode::PopTransform,
        id,
        blurred.next_id,
    );
    let masking = mask_node(style.vector_clip, mask);
    lemma_tidy_wrapped(masking, turned.nodes, SceneNode::PopVectorClip, id, turned.next_id);
    let masked = wrapped(masking, turned.nodes, SceneNode::PopVectorClip);
    if let Some(edges) = style.clip {
        lemma_tidy_wrapped(
            Some(clip_node(edges)),
            masked,
            SceneNode::PopClip,
            id,
            turned.next_id,
        );
    }
}

/// How many more layers `nodes` open than they close.
pub open spec fn layers_left_open(nodes: Seq<SceneNode>) -> int
    decreases nodes.len(),
{
    if nodes.len() == 0 {
        0
    } else {
        layers_left_open(nodes.drop_last()) + match nodes.last() {
            SceneNode::BeginLayer { .. } => 1int,
            SceneNode::EndLayer { .. } => -1int,
            _ => 0int,
        }
    }
}

/// Whether, `depth` layers being open before `nodes`, every filled text among
/// them is drawn in `fill` layers and every stroked text in `stroke` layers.
pub open spec fn texts_in_layers(
    nodes: Seq<SceneNode>,
    depth: int,
    fill: int,
    stroke: int,
) -> bool {
    forall|i: int| #![trigger nodes[i]]
        0 <= i < nodes.len() ==> (nodes[i] matches SceneNode::Text { draw_style, .. } ==> depth
            + layers_left_open(nodes.take(i)) == if draw_style is Fill {
            fill
        } else {
            stroke
        })
}

proof fn lemma_left_open_concat(a: Seq<SceneNode>, b: Seq<SceneNode>)
    ensures
        layers_left_open(a + b) == layers_left_open(a) + layers_left_open(b),
    decreases b.len(),
{
    if b.len() == 0 {
        assert(a + b =~= a);
    } else {
        assert((a + b).drop_last() =~= a + b.drop_last());
        lemma_left_open_concat(a, b.drop_last());
    }
}

proof fn lemma_texts_concat(
    a: Seq<SceneNode>,
    b: Seq<SceneNode>,
    depth: int,
    fill: int,
    stroke: int,
)
    requires
        texts_in_layers(a, depth, fill, stroke),
        texts_in_layers(b, depth + layers_left_open(a), fill, stroke),
    ensures
        texts_in_layers(a + b, depth, fill, stroke),
        layers_left_open(a + b) == layers_left_open(a) + layers_left_open(b),
{
    let nodes = a + b;
    lemma_left_open_concat(a, b);
    assert forall|i: int| #![trigger nodes[i]] 0 <= i < nodes.len() implies (
    nodes[i] matches SceneNode::Text { draw_style, .. } ==> depth + layers_left_open(nodes.take(i))
        == if draw_style is Fill {
        fill
    } else {
        stroke
    }) by {
        if i < a.len() {
            assert(nodes.take(i) =~= a.take(i));
            assert(nodes[i] == a[i]);
        } else {
            let j = i - a.len();
            assert(nodes.take(i) =~= a + b.take(j));
            lemma_left_open_concat(a, b.take(j));
            assert(nodes[i] == b[j]);
        }
    }
}

proof fn lemma_texts_one(node: SceneNode, depth: int, fill: int, stroke: int)
    requires
        node matches SceneNode::Text { draw_style, .. } ==> depth == if draw_style is Fill {
            fill
        } else {
            stroke
        },
    ensures
        texts_in_layers(seq![node], depth, fill, stroke),
        layers_left_open(seq![node]) == match node {
            SceneNode::BeginLayer { .. } => 1int,
            SceneNode::EndLayer { .. } => -1int,
            _ => 0int,
        },
{
    reveal_with_fuel(layers_left_open, 2);
    assert(seq![node].drop_last() =~= Seq::empty());
    assert(seq![node].take(0) =~= Seq::empty());
}

proof fn lemma_texts_wrap(
    opening: SceneNode,
    inner: Seq<SceneNode>,
    closing: SceneNode,
    depth: int,
    fill: int,
    stroke: int,
)
    requires
        texts_in_layers(
            inner,
            depth + if opening is BeginLayer {
                1int
            } else {
                0int
            },
            fill,
            stroke,
        ),
        layers_left_open(inner) == 0,
        !(opening is Text),
        !(opening is EndLayer),
        !(closing is Text),
        !(closing is BeginLayer),
        opening is BeginLayer <==> closing is EndLayer,
    ensures
        texts_in_layers(seq![opening] + inner + seq![closing], depth, fill, stroke),
        layers_left_open(seq![opening] + inner + seq![closing]) == 0,
{
    let within = depth + if opening is BeginLayer {
        1int
    } else {
        0int
    };
    lemma_texts_one(opening, depth, fill, stroke);
    lemma_texts_concat(seq![opening], inner, depth, fill, stroke);
    lemma_texts_one(closing, within, fill, stroke);
    lemma_texts_concat(seq![opening] + inner, seq![closing], depth, fill, stroke);
}

proof fn lemma_texts_layer(
    rect: Rect,
    id: u32,
    radius: Single,
    inner: Seq<SceneNode>,
    depth: int,
    fill: int,
    stroke: int,
)
    requires
        texts_in_layers(inner, depth + 1, fill, stroke),
        layers_left_open(inner) == 0,
    ensures
        texts_in_layers(in_layer(rect, id, radius, inner), depth, fill, stroke),
        layers_left_open(in_layer(rect, id, radius, inner)) == 0,
{
    let (begin, shift) = (layer_begin(rect, id, radius), layer_shift(rect));
    let end = SceneNode::EndLayer { layer_id: id };
    let shifted = seq![shift] + inner + seq![SceneNode::PopTransform];
    lemma_texts_wrap(shift, inner, SceneNode::PopTransform, depth + 1, fill, stroke);
    lemma_texts_wrap(begin, shifted, end, depth, fill, stroke);
    assert(in_layer(rect, id, radius, inner) =~= seq![begin] + shifted + seq![end]);
}

/// One for a radius that blurs, and zero for one that does not.
pub open spec fn blurs(radius: Option<Single>) -> int {
    if effective(radius) is Some {
        1
    } else {
        0
    }
}

proof fn lemma_texts_fill(
    pass: TextPass<'_>,
    outline: Option<([u8; 4], Single)>,
    edge_blur: Option<Single>,
    transform: Option<Arc<Transform>>,
    id: u32,
    depth: int,
)
    ensures
        ({
            let e = fill_emission(pass, outline, edge_blur, transform, id);
            &&& texts_in_layers(e.nodes, depth, depth, depth + blurs(edge_blur))
            &&& layers_left_open(e.nodes) == 0
        }),
{
    let under = outline_emission(pass, outline, edge_blur, transform, id);
    let (fill, stroke) = (depth, depth + blurs(edge_blur));
    if let Some((color, width)) = outline {
        let node = text_node_of(
            TextPass { color, decoration: undecorated(), ..pass },
            outline_stroke(width, pass.font_size),
        );
        lemma_texts_one(node, stroke, fill, stroke);
        if let Some(radius) = effective(edge_blur) {
            let rect = under.nodes[0]->BeginLayer_rect;
            lemma_texts_layer(rect, id, radius, seq![node], depth, fill, stroke);
        }
    }
    let node = text_node_of(pass, DrawStyle::Fill);
    lemma_texts_one(node, depth, fill, stroke);
    lemma_texts_concat(under.nodes, seq![node], depth, fill, stroke);
    assert(under.nodes.push(node) =~= under.nodes + seq![node]);
}

proof fn lemma_texts_body(
    base: TextPass<'_>,
    style: RunStyle,
    transform: Option<Arc<Transform>>,
    id: u32,
    depth: int,
)
    ensures
        ({
            let e = body_emission(base, style, transform, id);
            &&& texts_in_layers(e.nodes, depth, depth, depth + blurs(style.edge_blur))
            &&& layers_left_open(e.nodes) == 0
        }),
{
    let (outline, edge) = (style.outline, style.edge_blur);
    let (fill, stroke) = (depth, depth + blurs(edge));
    let behind = box_nodes(style.opaque_box, base.rect);
    if behind.len() > 0 {
        lemma_texts_one(behind[0], depth, fill, stroke);
        assert(behind =~= seq![behind[0]]);
    }
    let shadow = shadow_emission(base, style, transform, id);
    if let Some(s) = style.shadow {
        lemma_texts_fill(shadow_pass(base, s), outline, edge, transform, id, depth);
    }
    lemma_texts_concat(behind, shadow.nodes, depth, fill, stroke);
    let main = main_emission(base, style, transform, shadow.next_id);
    lemma_texts_fill(base, outline, edge, transform, shadow.next_id, depth);
    if let Some(k) = style.karaoke {
        let unsung = fill_emission(
            recolored(base, k.secondary),
            outline,
            edge,
            transform,
            shadow.next_id,
        );
        lemma_texts_fill(
            recolored(base, k.secondary),
            outline,
            edge,
            transform,
            shadow.next_id,
            depth,
        );
        if k.style != 0 && k.progress.positive() {
            let sung = fill_emission(base, outline, edge, transform, unsung.next_id);
            let window = sung_window(base.rect, k.progress);
            lemma_texts_fill(base, outline, edge, transform, unsung.next_id, depth);
            lemma_texts_wrap(window, sung.nodes, SceneNode::PopClip, depth, fill, stroke);
            lemma_texts_concat(
                unsung.nodes,
                seq![window] + sung.nodes + seq![SceneNode::PopClip],
                depth,
                fill,
                stroke,
            );
        }
    }
    lemma_texts_concat(behind + shadow.nodes, main.nodes, depth, fill, stroke);
}

proof fn lemma_texts_wrapped(
    opening: Option<SceneNode>,
    inner: Seq<SceneNode>,
    closing: SceneNode,
    fill: int,
    stroke: int,
)
    requires
        texts_in_layers(inner, 0, fill, stroke),
        layers_left_open(inner) == 0,
        closing.closes() is Some,
        !(closing is EndLayer),
        opening matches Some(node) ==> node.opens() is Some && !(node is BeginLayer),
    ensures
        texts_in_layers(wrapped(opening, inner, closing), 0, fill, stroke),
        layers_left_open(wrapped(opening, inner, closing)) == 0,
{
    if let Some(node) = opening {
        lemma_texts_wrap(node, inner, closing, 0, fill, stroke);
    }
}

/// A blur of the whole run holds every text of it in one layer, fill, outline
/// and shadow alike; an edge blur adds one layer around the strokes and never
/// around a fill. The two are never merged.
pub proof fn law_blur_layers(data: TextData, mask: Option<Arc<Triangles>>, id: u32)
    ensures
        ({
            let style = run_style(data.effects@);
            texts_in_layers(
                text_emission(data, mask, id).nodes,
                0,
                blurs(style.blur),
                blurs(style.blur) + blurs(style.edge_blur),
            )
        }),
{
    let style = run_style(data.effects@);
    let rect = run_rect(data);
    let transform = run_transform(style, rect);
    let base = TextPass::spec_of(&data, style, rect);
    let blurred = blurred_emission(base, style, transform, id);
    let (fill, stroke) = (blurs(style.blur), blurs(style.blur) + blurs(style.edge_blur));
    match effective(style.blur) {
        None => {
            lemma_texts_body(base, style, transform, id, 0);
        },
        Some(radius) => {
            let body = body_emission(base, style, transform, next_id(id));
            lemma_texts_body(base, style, transform, next_id(id), 1);
            let layer = expanded(base.rect, transform, number(radius));
            lemma_texts_layer(layer, id, radius, body.nodes, 0, fill, stroke);
        },
    }
    let turned = turned_emission(data, style, id);
    lemma_texts_wrapped(
        transform_node(transform),
        blurred.nodes,
        SceneNode::PopTransform,
        fill,
        stroke,
    );
    let masking = mask_node(style.vector_clip, mask);
    lemma_texts_wrapped(masking, turned.nodes, SceneNode::PopVectorClip, fill, stroke);
    let masked = wrapped(masking, turned.nodes, SceneNode::PopVectorClip);
    let clip = match style.clip {
        Some(edges) => Some(clip_node(edges)),
        None => None,
    };
    lemma_texts_wrapped(clip, masked, SceneNode::PopClip, fill, stroke);
}

/// A drawing to clip along that could not be tessellated costs the clip and
/// nothing else: the layer comes out as if the run had no such clip.
pub proof fn law_failed_mask_keeps_the_run(data: TextData, mask: Option<Arc<Triangles>>, id: u32)
    requires
        drawn(mask) is None,
    ensures
        text_emission(data, mask, id) == styled_emission(
            data,
            RunStyle { vector_clip: None, ..run_style(data.effects@) },
            mask,
            id,
        ),
{
    let style = run_style(data.effects@);
    let bare = RunStyle { vector_clip: None, ..style };
    let rect = run_rect(data);
    let transform = run_transform(style, rect);
    assert(run_transform(bare, rect) == transform);
    let base = TextPass::spec_of(&data, style, rect);
    assert(TextPass::spec_of(&data, bare, rect) == base);
    assert(blurred_emission(base, style, transform, id) == blurred_emission(
        base,
        bare,
        transform,
        id,
    ));
}

/// The flipping karaoke style draws the run once and whole: in the colour of
/// the layer as soon as any of it is sung, in the secondary colour before.
pub proof fn law_basic_karaoke_flips(
    base: TextPass<'_>,
    style: RunStyle,
    k: Karaoke,
    transform: Option<Arc<Transform>>,
    id: u32,
)
    requires
        style.karaoke == Some(k),
        k.style == 0,
    ensures
        main_emission(base, style, transform, id) == fill_emission(
            recolored(
                base,
                if k.progress.positive() {
                    base.color
                } else {
                    k.secondary
                },
            ),
            style.outline,
            style.edge_blur,
            transform,
            id,
        ),
{
    assert(recolored(base, base.color) == base);
}

/// A swept karaoke run always shows the whole run in the secondary colour, and
/// over it the run in the colour of the layer through a window as wide as the
/// progress, as soon as there is any.
pub proof fn law_swept_karaoke_shows_both(
    base: TextPass<'_>,
    style: RunStyle,
    k: Karaoke,
    transform: Option<Arc<Transform>>,
    id: u32,
)
    requires
        style.karaoke == Some(k),
        k.style != 0,
    ensures
        ({
            let (outline, edge) = (style.outline, style.edge_blur);
            let unsung = fill_emission(recolored(base, k.secondary), outline, edge, transform, id);
            let sung = fill_emission(base, outline, edge, transform, unsung.next_id);
            main_emission(base, style, transform, id).nodes == if k.progress.positive() {
                unsung.nodes + (seq![sung_window(base.rect, k.progress)] + sung.nodes + seq![
                    SceneNode::PopClip,
                ])
            } else {
                unsung.nodes
            }
        }),
{
}

/// The fill of a run is drawn last, over its own outline.
pub proof fn law_fill_covers_its_outline(
    pass: TextPass<'_>,
    outline: Option<([u8; 4], Single)>,
    edge_blur: Option<Single>,
    transform: Option<Arc<Transform>>,
    id: u32,
)
    ensures
        ({
            let nodes = fill_emission(pass, outline, edge_blur, transform, id).nodes;
            &&& nodes.len() > 0
            &&& nodes.last() == text_node_of(pass, DrawStyle::Fill)
            &&& forall|i: int| #![trigger nodes[i]]
                0 <= i < nodes.len() - 1 && nodes[i] is Text ==> outline is Some
                    && nodes[i]->Text_color == (outline->0).0 && !(
                nodes[i]->Text_draw_style is Fill)
        }),
{
}

/// How many of `nodes` draw text.
pub open spec fn text_count(nodes: Seq<SceneNode>) -> nat
    decreases nodes.len(),
{
    if nodes.len() == 0 {
        0
    } else {
        text_count(nodes.drop_last()) + if nodes.last() is Text {
            1nat
        } else {
            0nat
        }
    }
}

proof fn lemma_text_count_concat(a: Seq<SceneNode>, b: Seq<SceneNode>)
    ensures
        text_count(a + b) == text_count(a) + text_count(b),
    decreases b.len(),
{
    if b.len() == 0 {
        assert(a + b =~= a);
    } else {
        assert((a + b).drop_last() =~= a + b.drop_last());
        lemma_text_count_concat(a, b.drop_last());
    }
}

proof fn lemma_text_count_one(node: SceneNode)
    ensures
        text_count(seq![node]) == if node is Text {
            1nat
        } else {
            0nat
        },
{
    reveal_with_fuel(text_count, 2);
    assert(seq![node].drop_last() =~= Seq::empty());
}

proof fn lemma_text_count_wrap(opening: SceneNode, inner: Seq<SceneNode>, closing: SceneNode)
    requires
        !(opening is Text),
        !(closing is Text),
    ensures
        text_count(seq![opening] + inner + seq![closing]) == text_count(inner),
{
    lemma_text_count_one(opening);
    lemma_text_count_one(closing);
    lemma_text_count_concat(seq![opening], inner);
    lemma_text_count_concat(seq![opening] + inner, seq![closing]);
}

proof fn lemma_text_count_layer(rect: Rect, id: u32, radius: Single, inner: Seq<SceneNode>)
    ensures
        text_count(in_layer(rect, id, radius, inner)) == text_count(inner),
{
    let (begin, shift) = (layer_begin(rect, id, radius), layer_shift(rect));
    let end = SceneNode::EndLayer { layer_id: id };
    let shifted = seq![shift] + inner + seq![SceneNode::PopTransform];
    lemma_text_count_wrap(shift, inner, SceneNode::PopTransform);
    lemma_text_count_wrap(begin, shifted, end);
    assert(in_layer(rect, id, radius, inner) =~= seq![begin] + shifted + seq![end]);
}

/// How many text nodes one drawing of a run takes.
pub open spec fn texts_per_drawing(style: RunStyle) -> nat {
    if style.outline is Some {
        2
    } else {
        1
    }
}

/// How often a run is drawn: once, once more for its shadow, and once more for
/// the part of a swept run that is sung.
pub open spec fn drawings(style: RunStyle) -> nat {
    1 + (if style.shadow is Some {
        1nat
    } else {
        0nat
    }) + match style.karaoke {
        Some(k) => if k.style != 0 && k.progress.positive() {
            1nat
        } else {
            0nat
        },
        None => 0nat,
    }
}

proof fn lemma_text_count_fill(
    pass: TextPass<'_>,
    style: RunStyle,
    transform: Option<Arc<Transform>>,
    id: u32,
)
    ensures
        text_count(fill_emission(pass, style.outline, style.edge_blur, transform, id).nodes)
            == texts_per_drawing(style),
{
    let under = outline_emission(pass, style.outline, style.edge_blur, transform, id);
    if let Some((color, width)) = style.outline {
        let node = text_node_of(
            TextPass { color, decoration: undecorated(), ..pass },
            outline_stroke(width, pass.font_size),
        );
        lemma_text_count_one(node);
        if let Some(radius) = effective(style.edge_blur) {
            lemma_text_count_layer(under.nodes[0]->BeginLayer_rect, id, radius, seq![node]);
        }
    }
    let node = text_node_of(pass, DrawStyle::Fill);
    lemma_text_count_one(node);
    lemma_text_count_concat(under.nodes, seq![node]);
    assert(under.nodes.push(node) =~= under.nodes + seq![node]);
}

proof fn lemma_text_count_body(
    base: TextPass<'_>,
    style: RunStyle,
    transform: Option<Arc<Transform>>,
    id: u32,
)
    ensures
        text_count(body_emission(base, style, transform, id).nodes) == texts_per_drawing(style)
            * drawings(style),
{
    let behind = box_nodes(style.opaque_box, base.rect);
    if behind.len() > 0 {
        lemma_text_count_one(behind[0]);
        assert(behind =~= seq![behind[0]]);
    }
    let shadow = shadow_emission(base, style, transform, id);
    if let Some(s) = style.shadow {
        lemma_text_count_fill(shadow_pass(base, s), style, transform, id);
    }
    let next = shadow.next_id;
    let main = main_emission(base, style, transform, next);
    lemma_text_count_fill(base, style, transform, next);
    if let Some(k) = style.karaoke {
        let pass = recolored(base, k.secondary);
        let unsung = fill_emission(pass, style.outline, style.edge_blur, transform, next);
        lemma_text_count_fill(pass, style, transform, next);
        if k.style != 0 && k.progress.positive() {
            let sung = fill_emission(
                base,
                style.outline,
                style.edge_blur,
                transform,
                unsung.next_id,
            );
            let window = sung_window(base.rect, k.progress);
            lemma_text_count_fill(base, style, transform, unsung.next_id);
            lemma_text_count_wrap(window, sung.nodes, SceneNode::PopClip);
            lemma_text_count_concat(
                unsung.nodes,
                seq![window] + sung.nodes + seq![SceneNode::PopClip],
            );
        }
    }
    lemma_text_count_concat(behind, shadow.nodes);
    lemma_text_count_concat(behind + shadow.nodes, main.nodes);
    let (each, times) = (texts_per_drawing(style), drawings(style));
    assert(each * times == if each == 1 {
        times
    } else {
        times + times
    }) by (nonlinear_arith)
        requires
            each == 1 || each == 2,
    ;
}

proof fn lemma_text_count_wrapped(
    opening: Option<SceneNode>,
    inner: Seq<SceneNode>,
    closing: SceneNode,
)
    requires
        opening matches Some(node) ==> !(node is Text),
        !(closing is Text),
    ensures
        text_count(wrapped(opening, inner, closing)) == text_count(inner),
{
    if let Some(node) = opening {
        lemma_text_count_wrap(node, inner, closing);
    }
}

/// Every drawing of a run is one text node, or two where it has an outline,
/// and a run is drawn once, plus once for its shadow, plus once for the sung
/// part of a sweep. Clips, transforms and blurs add no text and drop none.
pub proof fn law_text_is_drawn_in_full(data: TextData, mask: Option<Arc<Triangles>>, id: u32)
    ensures
        ({
            let style = run_style(data.effects@);
            text_count(text_emission(data, mask, id).nodes) == texts_per_drawing(style) * drawings(
                style,
            )
        }),
{
    let style = run_style(data.effects@);
    let rect = run_rect(data);
    let transform = run_transform(style, rect);
    let base = TextPass::spec_of(&data, style, rect);
    let blurred = blurred_emission(base, style, transform, id);
    lemma_text_count_body(base, style, transform, id);
    if let Some(radius) = effective(style.blur) {
        let body = body_emission(base, style, transform, next_id(id));
        lemma_text_count_body(base, style, transform, next_id(id));
        let layer = expanded(base.rect, transform, number(radius));
        lemma_text_count_layer(layer, id, radius, body.nodes);
    }
    let turned = turned_emission(data, style, id);
    lemma_text_count_wrapped(
        transform_node(transform),
        blurred.nodes,
        SceneNode::PopTransform,
    );
    let masking = mask_node(style.vector_clip, mask);
    lemma_text_count_wrapped(masking, turned.nodes, SceneNode::PopVectorClip);
    let masked = wrapped(masking, turned.nodes, SceneNode::PopVectorClip);
    if let Some(edges) = style.clip {
        lemma_text_count_wrapped(Some(clip_node(edges)), masked, SceneNode::PopClip);
    }
}

/// A run without effects is one filled text node, in the regular face and
/// without lines, and takes no graphics layer.
pub proof fn law_plain_text_is_one_node(data: TextData, mask: Option<Arc<Triangles>>, id: u32)
    requires
        data.effects@.len() == 0,
    ensures
        ({
            let pass = TextPass::spec_of(&data, RunStyle::spec_plain(), run_rect(data));
            let e = text_emission(data, mask, id);
            &&& e.nodes == seq![text_node_of(pass, DrawStyle::Fill)]
            &&& e.next_id == id
        }),
{
}

/// The window on the sung part of a run opens from the left edge of the run,
/// is never wider than the run, and is as wide once all of it is sung.
pub proof fn law_sung_window_is_part_of_the_run(m: Model, data: TextData, progress: Single)
    requires
        progress.spec_clamped_to_unit().positive(),
    ensures
        ({
            let rect = run_rect(data);
            let window = sung_window(rect, progress.spec_clamped_to_unit())->PushClip_rect;
            &&& window.x == rect.x && window.y == rect.y && window.h == rect.h
            &&& 0real < window.w.value(m) <= rect.w.value(m)
            &&& progress.rank() >= ONE ==> window.w.value(m) == rect.w.value(m)
        }),
{
    let rect = run_rect(data);
    let p = progress.spec_clamped_to_unit();
    let one = Single { bits: ONE };
    lemma_one_and_two();
    law_run_has_a_pixel(m, data);
    law_positive_is_above_zero(p);
    law_rank_orders_values(p, one);
    law_rank_orders_values(one, p);
    let (w, part) = (rect.w.value(m), p.value());
    assert(product(&rect.w, &number(p)).value(m) == w * part) by {
        reveal_with_fuel(Formula::value, 2);
    }
    assert(0real < w * part <= w) by (nonlinear_arith)
        requires
            w >= 1real,
            0real < part <= 1real,
    ;
    assert(part == 1real ==> w * part == w) by (nonlinear_arith);
}

/// An outline is never thinner than a hundredth of an em and never thicker
/// than half an em, whatever its width and the font size.
pub proof fn law_outlines_are_bounded(m: Model, width: Single, font_size: Single)
    ensures
        ({
            let em = outline_stroke(width, font_size)->width.value(m);
            &&& (Single { bits: THINNEST_OUTLINE }).value() <= em
            &&& em <= (Single { bits: HALF }).value()
        }),
{
    law_rank_orders_values(Single { bits: THINNEST_OUTLINE }, Single { bits: HALF });
}

/// A clip spans what is between its edges, and nothing where they are in the
/// wrong order.
pub proof fn law_clips_span_their_edges(m: Model, edges: ClipEdges)
    ensures
        ({
            let rect = clip_node(edges)->PushClip_rect;
            let (dx, dy) = (
                edges.x2.value() - edges.x1.value(),
                edges.y2.value() - edges.y1.value(),
            );
            &&& rect.w.value(m) == real_max(dx, 0real)
            &&& rect.h.value(m) == real_max(dy, 0real)
        }),
{
    law_positive_is_above_zero(Single { bits: ZERO });
    reveal_with_fuel(Formula::value, 3);
}

} // verus!
