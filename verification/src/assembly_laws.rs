//! What holds of every scene.

use crate::assembly::{
    answer_at, answers_at, assembled, image_at, is_empty_raster, raster_node, request_after,
    vector_nodes, Answer,
};
use crate::layers::{IntermediateLayer, VectorData};
use crate::mesh::drawn;
use crate::scene::{
    law_layer_ids_are_distinct, layer_count, lemma_tidy_concat, lemma_tidy_leaf, tidy, walk,
    Progress,
};
use crate::text::text_emission;
use crate::text_laws::law_text_is_tidy;
use vstd::prelude::*;

verus! {

proof fn lemma_tidy_vector(data: VectorData, answers: Seq<Answer>, id: u32)
    ensures
        tidy(vector_nodes(data, answers).0, id, id),
{
    let nodes = vector_nodes(data, answers).0;
    if nodes.len() > 0 {
        lemma_tidy_leaf(nodes[0], id);
        if nodes.len() == 1 {
            assert(nodes =~= seq![nodes[0]]);
        } else {
            lemma_tidy_leaf(nodes[1], id);
            lemma_tidy_concat(seq![nodes[0]], seq![nodes[1]], id, id, id);
            assert(nodes =~= seq![nodes[0]] + seq![nodes[1]]);
        }
    }
}

/// Every scene closes what it opens, innermost first, and numbers its graphics
/// layers one after the other from 1 on.
pub proof fn law_scene_is_tidy(
    layers: Seq<IntermediateLayer>,
    images: Seq<Option<u64>>,
    meshes: Seq<Vec<Answer>>,
)
    ensures
        ({
            let a = assembled(layers, images, meshes);
            tidy(a.nodes, 1, a.next_id)
        }),
    decreases layers.len(),
{
    if layers.len() > 0 {
        let i = layers.len() - 1;
        let before = assembled(layers.drop_last(), images, meshes);
        let id = before.next_id;
        law_scene_is_tidy(layers.drop_last(), images, meshes);
        match layers.last() {
            IntermediateLayer::Raster(data) => {
                if let Some(node) = raster_node(data, image_at(images, i)) {
                    lemma_tidy_leaf(node, id);
                    lemma_tidy_concat(before.nodes, seq![node], 1, id, id);
                    assert(before.nodes.push(node) =~= before.nodes + seq![node]);
                }
            },
            IntermediateLayer::Vector(data) => {
                let answers = answers_at(meshes, i);
                lemma_tidy_vector(data, answers, id);
                lemma_tidy_concat(before.nodes, vector_nodes(data, answers).0, 1, id, id);
            },
            IntermediateLayer::Text(data) => {
                let mask = answer_at(answers_at(meshes, i), 0);
                let e = text_emission(*data, mask, id);
                law_text_is_tidy(*data, mask, id);
                lemma_tidy_concat(before.nodes, e.nodes, 1, id, e.next_id);
            },
        }
    }
}

/// No two graphics layers of a scene share an id, as long as the scene has no
/// more layers than there are ids; and no id is zero.
pub proof fn law_scene_layer_ids_are_distinct(
    layers: Seq<IntermediateLayer>,
    images: Seq<Option<u64>>,
    meshes: Seq<Vec<Answer>>,
    i: int,
    j: int,
)
    requires
        ({
            let nodes = assembled(layers, images, meshes).nodes;
            &&& layer_count(nodes) <= u32::MAX
            &&& 0 <= i < j < nodes.len()
            &&& nodes[i] is BeginLayer
            &&& nodes[j] is BeginLayer
        }),
    ensures
        ({
            let nodes = assembled(layers, images, meshes).nodes;
            &&& nodes[i]->BeginLayer_layer_id != nodes[j]->BeginLayer_layer_id
            &&& nodes[i]->BeginLayer_layer_id != 0
            &&& nodes[j]->BeginLayer_layer_id != 0
        }),
{
    let a = assembled(layers, images, meshes);
    law_scene_is_tidy(layers, images, meshes);
    assert(walk(Progress { open: Seq::empty(), next_id: 1 }, a.nodes) is Some);
    law_layer_ids_are_distinct(a.nodes, i, j);
}

/// Layers are drawn in their order: what the first layers add to a scene
/// stands before what the later ones add, and is the scene of the first layers
/// alone.
pub proof fn law_scene_follows_layer_order(
    layers: Seq<IntermediateLayer>,
    images: Seq<Option<u64>>,
    meshes: Seq<Vec<Answer>>,
    n: int,
)
    requires
        0 <= n <= layers.len(),
    ensures
        ({
            let first = assembled(layers.take(n), images, meshes).nodes;
            let all = assembled(layers, images, meshes).nodes;
            first.len() <= all.len() && all.take(first.len() as int) == first
        }),
    decreases layers.len(),
{
    let first = assembled(layers.take(n), images, meshes).nodes;
    let all = assembled(layers, images, meshes).nodes;
    if n == layers.len() {
        assert(layers.take(n) =~= layers);
        assert(all.take(first.len() as int) =~= first);
    } else {
        let before = layers.drop_last();
        law_scene_follows_layer_order(before, images, meshes, n);
        assert(before.take(n) =~= layers.take(n));
        let middle = assembled(before, images, meshes).nodes;
        assert(middle.len() <= all.len() && all.take(middle.len() as int) =~= middle);
        assert(all.take(first.len() as int) =~= middle.take(first.len() as int));
    }
}

/// How many of the numbers below `n` satisfy `p`.
pub open spec fn number_of(n: nat, p: spec_fn(int) -> bool) -> nat
    decreases n,
{
    if n == 0 {
        0
    } else {
        number_of((n - 1) as nat, p) + if p(n - 1) {
            1nat
        } else {
            0nat
        }
    }
}

proof fn lemma_number_of_agrees(n: nat, p: spec_fn(int) -> bool, q: spec_fn(int) -> bool)
    requires
        forall|i: int| 0 <= i < n ==> #[trigger] p(i) == q(i),
    ensures
        number_of(n, p) == number_of(n, q),
    decreases n,
{
    if n > 0 {
        lemma_number_of_agrees((n - 1) as nat, p, q);
    }
}

/// Whether layer `i` is a raster layer that was left out.
pub open spec fn raster_is_lost(
    layers: Seq<IntermediateLayer>,
    images: Seq<Option<u64>>,
    i: int,
) -> bool {
    layers[i] matches IntermediateLayer::Raster(data) && raster_node(data, image_at(images, i))
        is None
}

/// Whether layer `i` is a vector layer that was not drawn in full.
pub open spec fn drawing_is_lost(
    layers: Seq<IntermediateLayer>,
    meshes: Seq<Vec<Answer>>,
    i: int,
) -> bool {
    layers[i] matches IntermediateLayer::Vector(data) && !vector_nodes(
        data,
        answers_at(meshes, i),
    ).1
}

/// Nothing is lost in silence: every raster layer that is left out and every
/// vector layer that is not drawn in full is counted, each exactly once, and
/// nothing else is.
pub proof fn law_losses_are_counted(
    layers: Seq<IntermediateLayer>,
    images: Seq<Option<u64>>,
    meshes: Seq<Vec<Answer>>,
)
    ensures
        ({
            let a = assembled(layers, images, meshes);
            &&& a.skipped_raster == number_of(
                layers.len(),
                |i: int| raster_is_lost(layers, images, i),
            )
            &&& a.skipped_tess == number_of(
                layers.len(),
                |i: int| drawing_is_lost(layers, meshes, i),
            )
        }),
    decreases layers.len(),
{
    if layers.len() > 0 {
        let before = layers.drop_last();
        law_losses_are_counted(before, images, meshes);
        lemma_number_of_agrees(
            before.len(),
            |i: int| raster_is_lost(before, images, i),
            |i: int| raster_is_lost(layers, images, i),
        );
        lemma_number_of_agrees(
            before.len(),
            |i: int| drawing_is_lost(before, meshes, i),
            |i: int| drawing_is_lost(layers, meshes, i),
        );
    }
}

/// Without a live renderer every raster layer is skipped, and no other layer
/// counts as one.
pub proof fn law_rasters_need_a_renderer(
    layers: Seq<IntermediateLayer>,
    meshes: Seq<Vec<Answer>>,
)
    ensures
        assembled(layers, Seq::empty(), meshes).skipped_raster == number_of(
            layers.len(),
            |i: int| layers[i] is Raster,
        ),
{
    law_losses_are_counted(layers, Seq::empty(), meshes);
    lemma_number_of_agrees(
        layers.len(),
        |i: int| raster_is_lost(layers, Seq::empty(), i),
        |i: int| layers[i] is Raster,
    );
}

/// With a live renderer no raster layer is skipped: not one that holds pixels
/// and was uploaded.
pub proof fn law_uploaded_rasters_are_drawn(
    layers: Seq<IntermediateLayer>,
    images: Seq<Option<u64>>,
    meshes: Seq<Vec<Answer>>,
)
    requires
        forall|i: int| #![trigger layers[i]]
            0 <= i < layers.len() ==> (layers[i] matches IntermediateLayer::Raster(data)
                ==> !is_empty_raster(data) && image_at(images, i) is Some),
    ensures
        assembled(layers, images, meshes).skipped_raster == 0,
{
    law_losses_are_counted(layers, images, meshes);
    lemma_number_of_agrees(
        layers.len(),
        |i: int| raster_is_lost(layers, images, i),
        |i: int| false,
    );
    lemma_number_of_nothing(layers.len());
}

proof fn lemma_number_of_nothing(n: nat)
    ensures
        number_of(n, |i: int| false) == 0,
    decreases n,
{
    if n > 0 {
        lemma_number_of_nothing((n - 1) as nat);
    }
}

/// The tessellator is asked at most twice about a layer, and a drawing with a
/// path is complete once it has been asked everything and every answer holds
/// triangles.
pub proof fn law_answered_drawings_are_complete(layer: IntermediateLayer, answers: Seq<Answer>)
    ensures
        answers.len() >= 2 ==> request_after(layer, answers) is None,
        layer matches IntermediateLayer::Vector(data) ==> (data.path is Some && request_after(
            layer,
            answers,
        ) is None && (forall|i: int| 0 <= i < answers.len() ==> drawn(#[trigger] answers[i]) is Some)
            ==> vector_nodes(data, answers).1),
{
    if let IntermediateLayer::Vector(data) = layer {
        if answers.len() > 0 {
            assert(drawn(answers[0]) is Some || drawn(answers[0]) is None);
        }
        if answers.len() > 1 {
            assert(drawn(answers[1]) is Some || drawn(answers[1]) is None);
        }
    }
}

} // verus!
