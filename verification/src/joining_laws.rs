//! Scenes joined: what the scene of two lists of layers is.

use crate::assembly::{
    answer_at, answers_at, assembled, image_at, raster_node, vector_nodes, with_layer, Answer,
    Assembled,
};
use crate::assembly_laws::law_scene_is_tidy;
use crate::formula::{number, sum};
use crate::geometry::{expanded, Rect, Transform};
use crate::layers::{IntermediateLayer, TextData};
use crate::mesh::Triangles;
use crate::run::{run_rect, run_style, run_transform, RunStyle};
use crate::scene::{
    layer_count, lemma_ids_follow_numbers, lemma_nth_id_follows, next_id, nth_id, walk, DrawStyle,
    Progress, SceneNode,
};
use crate::single::Single;
use crate::text::{
    blurred_emission, body_emission, box_nodes, clip_node, effective, fill_emission, in_layer,
    layer_begin, layer_shift, main_emission, mask_node, outline_emission, outline_stroke, recolored,
    shadow_emission, shadow_pass, sung_window, text_emission, text_node_of, transform_node,
    turned_emission, undecorated, wrapped, TextPass,
};
use std::sync::Arc;
use vstd::prelude::*;

verus! {

/// The id that comes `by` ids after `id`.
pub open spec fn raised_id(id: u32, by: nat) -> u32
    decreases by,
{
    if by == 0 {
        id
    } else {
        next_id(raised_id(id, (by - 1) as nat))
    }
}

/// `node`, with the id of the graphics layer that it opens or closes raised.
pub open spec fn raised_node(node: SceneNode, by: nat) -> SceneNode {
    match node {
        SceneNode::BeginLayer {
            rect,
            layer_id,
            alpha,
            blur_radius_x,
            blur_radius_y,
            rectangle_edge,
        } => SceneNode::BeginLayer {
            rect,
            layer_id: raised_id(layer_id, by),
            alpha,
            blur_radius_x,
            blur_radius_y,
            rectangle_edge,
        },
        SceneNode::EndLayer { layer_id } => SceneNode::EndLayer {
            layer_id: raised_id(layer_id, by),
        },
        _ => node,
    }
}

/// `nodes`, with the ids of their graphics layers raised.
pub open spec fn raised(nodes: Seq<SceneNode>, by: nat) -> Seq<SceneNode> {
    Seq::new(nodes.len(), |i: int| raised_node(nodes[i], by))
}

proof fn lemma_raised_next(id: u32, by: nat)
    ensures
        raised_id(next_id(id), by) == next_id(raised_id(id, by)),
    decreases by,
{
    if by > 0 {
        lemma_raised_next(id, (by - 1) as nat);
    }
}

proof fn lemma_raised_first(by: nat)
    ensures
        raised_id(1, by) == nth_id(by),
    decreases by,
{
    if by > 0 {
        lemma_raised_first((by - 1) as nat);
        lemma_nth_id_follows((by - 1) as nat);
    }
}

proof fn lemma_raised_concat(a: Seq<SceneNode>, b: Seq<SceneNode>, by: nat)
    ensures
        raised(a + b, by) == raised(a, by) + raised(b, by),
{
    assert(raised(a + b, by) =~= raised(a, by) + raised(b, by));
}

proof fn lemma_raised_one(node: SceneNode, by: nat)
    ensures
        raised(seq![node], by) == seq![raised_node(node, by)],
{
    assert(raised(seq![node], by) =~= seq![raised_node(node, by)]);
}

proof fn lemma_raised_wrap(
    opening: SceneNode,
    inner: Seq<SceneNode>,
    closing: SceneNode,
    by: nat,
)
    ensures
        raised(seq![opening] + inner + seq![closing], by) == seq![raised_node(opening, by)] + raised(
            inner,
            by,
        ) + seq![raised_node(closing, by)],
{
    lemma_raised_one(opening, by);
    lemma_raised_one(closing, by);
    lemma_raised_concat(seq![opening], inner, by);
    lemma_raised_concat(seq![opening] + inner, seq![closing], by);
}

proof fn lemma_raised_layer(rect: Rect, id: u32, radius: Single, inner: Seq<SceneNode>, by: nat)
    ensures
        raised(in_layer(rect, id, radius, inner), by) == in_layer(
            rect,
            raised_id(id, by),
            radius,
            raised(inner, by),
        ),
{
    let to = raised_id(id, by);
    let (begin, shift) = (layer_begin(rect, id, radius), layer_shift(rect));
    let end = SceneNode::EndLayer { layer_id: id };
    let pop = SceneNode::PopTransform;
    let shifted = seq![shift] + inner + seq![pop];
    lemma_raised_wrap(shift, inner, pop, by);
    lemma_raised_wrap(begin, shifted, end, by);
    assert(in_layer(rect, id, radius, inner) =~= seq![begin] + shifted + seq![end]);
    assert(in_layer(rect, to, radius, raised(inner, by)) =~= seq![layer_begin(rect, to, radius)] + (
    seq![shift] + raised(inner, by) + seq![pop]) + seq![SceneNode::EndLayer { layer_id: to }]);
}

proof fn lemma_raised_fill(
    pass: TextPass<'_>,
    outline: Option<([u8; 4], Single)>,
    edge_blur: Option<Single>,
    transform: Option<Arc<Transform>>,
    id: u32,
    by: nat,
)
    ensures
        ({
            let e = fill_emission(pass, outline, edge_blur, transform, id);
            let f = fill_emission(pass, outline, edge_blur, transform, raised_id(id, by));
            f.nodes == raised(e.nodes, by) && f.next_id == raised_id(e.next_id, by)
        }),
{
    let to = raised_id(id, by);
    let e = outline_emission(pass, outline, edge_blur, transform, id);
    let f = outline_emission(pass, outline, edge_blur, transform, to);
    let fill = text_node_of(pass, DrawStyle::Fill);
    assert(f.nodes == raised(e.nodes, by) && f.next_id == raised_id(e.next_id, by)) by {
        match outline {
            None => {
                assert(raised(e.nodes, by) =~= f.nodes);
            },
            Some((color, width)) => {
                let stroke = text_node_of(
                    TextPass { color, decoration: undecorated(), ..pass },
                    outline_stroke(width, pass.font_size),
                );
                lemma_raised_one(stroke, by);
                if let Some(radius) = effective(edge_blur) {
                    let pad = sum(&number(radius), &number(width));
                    let rect = expanded(pass.rect, transform, pad);
                    lemma_raised_layer(rect, id, radius, seq![stroke], by);
                    lemma_raised_next(id, by);
                }
            },
        }
    }
    lemma_raised_one(fill, by);
    lemma_raised_concat(e.nodes, seq![fill], by);
    assert(e.nodes.push(fill) =~= e.nodes + seq![fill]);
    assert(f.nodes.push(fill) =~= f.nodes + seq![fill]);
}

proof fn lemma_raised_main(
    base: TextPass<'_>,
    style: RunStyle,
    transform: Option<Arc<Transform>>,
    id: u32,
    by: nat,
)
    ensures
        ({
            let e = main_emission(base, style, transform, id);
            let f = main_emission(base, style, transform, raised_id(id, by));
            f.nodes == raised(e.nodes, by) && f.next_id == raised_id(e.next_id, by)
        }),
{
    let (outline, edge) = (style.outline, style.edge_blur);
    lemma_raised_fill(base, outline, edge, transform, id, by);
    if let Some(k) = style.karaoke {
        let pass = recolored(base, k.secondary);
        lemma_raised_fill(pass, outline, edge, transform, id, by);
        if k.style != 0 && k.progress.positive() {
            let unsung = fill_emission(pass, outline, edge, transform, id);
            let sung = fill_emission(base, outline, edge, transform, unsung.next_id);
            let window = sung_window(base.rect, k.progress);
            let pop = SceneNode::PopClip;
            lemma_raised_fill(base, outline, edge, transform, unsung.next_id, by);
            lemma_raised_wrap(window, sung.nodes, pop, by);
            lemma_raised_concat(unsung.nodes, seq![window] + sung.nodes + seq![pop], by);
        }
    }
}

proof fn lemma_raised_body(
    base: TextPass<'_>,
    style: RunStyle,
    transform: Option<Arc<Transform>>,
    id: u32,
    by: nat,
)
    ensures
        ({
            let e = body_emission(base, style, transform, id);
            let f = body_emission(base, style, transform, raised_id(id, by));
            f.nodes == raised(e.nodes, by) && f.next_id == raised_id(e.next_id, by)
        }),
{
    let behind = box_nodes(style.opaque_box, base.rect);
    let shadow = shadow_emission(base, style, transform, id);
    let to = shadow_emission(base, style, transform, raised_id(id, by));
    match style.shadow {
        Some(s) => {
            let pass = shadow_pass(base, s);
            lemma_raised_fill(pass, style.outline, style.edge_blur, transform, id, by);
        },
        None => {
            assert(raised(shadow.nodes, by) =~= to.nodes);
        },
    }
    let main = main_emission(base, style, transform, shadow.next_id);
    lemma_raised_main(base, style, transform, shadow.next_id, by);
    assert(raised(behind, by) =~= behind);
    lemma_raised_concat(behind, shadow.nodes, by);
    lemma_raised_concat(behind + shadow.nodes, main.nodes, by);
}

proof fn lemma_raised_blurred(
    base: TextPass<'_>,
    style: RunStyle,
    transform: Option<Arc<Transform>>,
    id: u32,
    by: nat,
)
    ensures
        ({
            let e = blurred_emission(base, style, transform, id);
            let f = blurred_emission(base, style, transform, raised_id(id, by));
            f.nodes == raised(e.nodes, by) && f.next_id == raised_id(e.next_id, by)
        }),
{
    match effective(style.blur) {
        None => {
            lemma_raised_body(base, style, transform, id, by);
        },
        Some(radius) => {
            let body = body_emission(base, style, transform, next_id(id));
            let rect = expanded(base.rect, transform, number(radius));
            lemma_raised_next(id, by);
            lemma_raised_body(base, style, transform, next_id(id), by);
            lemma_raised_layer(rect, id, radius, body.nodes, by);
        },
    }
}

proof fn lemma_raised_wrapped(
    opening: Option<SceneNode>,
    inner: Seq<SceneNode>,
    closing: SceneNode,
    by: nat,
)
    requires
        opening matches Some(node) ==> raised_node(node, by) == node,
        raised_node(closing, by) == closing,
    ensures
        raised(wrapped(opening, inner, closing), by) == wrapped(
            opening,
            raised(inner, by),
            closing,
        ),
{
    if let Some(node) = opening {
        lemma_raised_wrap(node, inner, closing, by);
    }
}

/// A text layer does not depend on the id it starts with but for the ids of its
/// graphics layers: started later, it is drawn by the same nodes with the ids
/// raised.
pub proof fn law_text_follows_its_first_id(
    data: TextData,
    mask: Option<Arc<Triangles>>,
    id: u32,
    by: nat,
)
    ensures
        ({
            let e = text_emission(data, mask, id);
            let f = text_emission(data, mask, raised_id(id, by));
            f.nodes == raised(e.nodes, by) && f.next_id == raised_id(e.next_id, by)
        }),
{
    let to = raised_id(id, by);
    let style = run_style(data.effects@);
    let rect = run_rect(data);
    let transform = run_transform(style, rect);
    let base = TextPass::spec_of(&data, style, rect);
    let blurred = blurred_emission(base, style, transform, id);
    lemma_raised_blurred(base, style, transform, id, by);
    lemma_raised_wrapped(
        transform_node(transform),
        blurred.nodes,
        SceneNode::PopTransform,
        by,
    );
    let turned = turned_emission(data, style, id);
    assert(turned_emission(data, style, to).nodes == raised(turned.nodes, by));
    let masking = mask_node(style.vector_clip, mask);
    let pop = SceneNode::PopVectorClip;
    lemma_raised_wrapped(masking, turned.nodes, pop, by);
    if let Some(edges) = style.clip {
        lemma_raised_wrapped(
            Some(clip_node(edges)),
            wrapped(masking, turned.nodes, pop),
            SceneNode::PopClip,
            by,
        );
    }
}

/// What a list says of the layers from number `n` on.
pub open spec fn from_layer<A>(list: Seq<A>, n: int) -> Seq<A> {
    if n <= list.len() {
        list.skip(n)
    } else {
        Seq::empty()
    }
}

/// Whether `all` is `a`, and after it `b` with its ids raised.
pub open spec fn is_joined(all: Assembled, a: Assembled, b: Assembled, by: nat) -> bool {
    &&& all.nodes == a.nodes + raised(b.nodes, by)
    &&& all.next_id == raised_id(b.next_id, by)
    &&& all.skipped_raster == a.skipped_raster + b.skipped_raster
    &&& all.skipped_tess == a.skipped_tess + b.skipped_tess
}

proof fn lemma_joined_nodes(
    a: Seq<SceneNode>,
    b: Seq<SceneNode>,
    more: Seq<SceneNode>,
    by: nat,
)
    ensures
        (a + raised(b, by)) + raised(more, by) == a + raised(b + more, by),
{
    lemma_raised_concat(b, more, by);
    assert((a + raised(b, by)) + raised(more, by) =~= a + (raised(b, by) + raised(more, by)));
}

proof fn lemma_joined_layer(
    all: Assembled,
    a: Assembled,
    b: Assembled,
    by: nat,
    layer: IntermediateLayer,
    image: Option<u64>,
    answers: Seq<Answer>,
)
    requires
        is_joined(all, a, b, by),
    ensures
        is_joined(
            with_layer(all, layer, image, answers),
            a,
            with_layer(b, layer, image, answers),
            by,
        ),
{
    match layer {
        IntermediateLayer::Raster(data) => {
            if let Some(node) = raster_node(data, image) {
                lemma_raised_one(node, by);
                lemma_joined_nodes(a.nodes, b.nodes, seq![node], by);
                assert(b.nodes.push(node) =~= b.nodes + seq![node]);
                assert(all.nodes.push(node) =~= all.nodes + seq![node]);
            }
        },
        IntermediateLayer::Vector(data) => {
            let nodes = vector_nodes(data, answers).0;
            assert(raised(nodes, by) =~= nodes);
            lemma_joined_nodes(a.nodes, b.nodes, nodes, by);
        },
        IntermediateLayer::Text(data) => {
            let mask = answer_at(answers, 0);
            let e = text_emission(*data, mask, b.next_id);
            law_text_follows_its_first_id(*data, mask, b.next_id, by);
            lemma_joined_nodes(a.nodes, b.nodes, e.nodes, by);
        },
    }
}

proof fn lemma_ids_go_on(
    layers: Seq<IntermediateLayer>,
    images: Seq<Option<u64>>,
    meshes: Seq<Vec<Answer>>,
)
    ensures
        ({
            let a = assembled(layers, images, meshes);
            a.next_id == raised_id(1, layer_count(a.nodes))
        }),
{
    let a = assembled(layers, images, meshes);
    law_scene_is_tidy(layers, images, meshes);
    assert(walk(Progress { open: Seq::empty(), next_id: 1 }, a.nodes) is Some);
    lemma_ids_follow_numbers(a.nodes);
    lemma_raised_first(layer_count(a.nodes));
}

/// The scene of two lists of layers is the scene of the first, and after it the
/// scene of the second with the ids of its graphics layers raised by the number
/// of layers of the first. What is lost of both is lost of either.
pub proof fn law_scene_of_two_lists(
    first: Seq<IntermediateLayer>,
    second: Seq<IntermediateLayer>,
    images: Seq<Option<u64>>,
    meshes: Seq<Vec<Answer>>,
)
    ensures
        ({
            let n = first.len() as int;
            let a = assembled(first, images, meshes);
            let b = assembled(second, from_layer(images, n), from_layer(meshes, n));
            is_joined(assembled(first + second, images, meshes), a, b, layer_count(a.nodes))
        }),
    decreases second.len(),
{
    let n = first.len() as int;
    let a = assembled(first, images, meshes);
    let by = layer_count(a.nodes);
    let (images2, meshes2) = (from_layer(images, n), from_layer(meshes, n));
    if second.len() == 0 {
        assert(first + second =~= first);
        assert(a.nodes + raised(Seq::empty(), by) =~= a.nodes);
        lemma_ids_go_on(first, images, meshes);
    } else {
        let i = second.len() - 1;
        let before = second.drop_last();
        law_scene_of_two_lists(first, before, images, meshes);
        assert((first + second).drop_last() =~= first + before);
        assert((first + second).last() == second.last());
        assert(image_at(images, n + i) == image_at(images2, i));
        assert(answers_at(meshes, n + i) == answers_at(meshes2, i));
        lemma_joined_layer(
            assembled(first + before, images, meshes),
            a,
            assembled(before, images2, meshes2),
            by,
            second.last(),
            image_at(images2, i),
            answers_at(meshes2, i),
        );
    }
}

} // verus!
