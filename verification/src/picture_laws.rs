//! What becomes of bitmaps and drawings.

use crate::assembly::{
    answer_at, answers_at, assembled, image_at, is_empty_raster, raster_node, request_after,
    vector_nodes, Answer, PathSource, TessJob,
};
use crate::formula::{at_least, number, Formula, Model};
use crate::layers::{IntermediateLayer, RasterData, VectorData};
use crate::mesh::{linear_channel, premultiplied, LinearColor};
use crate::number_laws::law_constants;
use crate::run::HALF;
use crate::run_laws::{law_last_of_a_kind_shows, law_nothing_shows_unasked};
use crate::scene::{Affine, BlendMode, ImageFit, Paint, SceneNode};
use crate::text::text_emission;
use vstd::prelude::*;

verus! {

/// Whether a colour is `color` in linear light, its red, green and blue each
/// multiplied by its alpha.
pub open spec fn is_premultiplied(m: Model, c: LinearColor, color: [u8; 4]) -> bool {
    let alpha = (m.channel)(color, 3);
    &&& c.r.value(m) == (m.channel)(color, 0) * alpha
    &&& c.g.value(m) == (m.channel)(color, 1) * alpha
    &&& c.b.value(m) == (m.channel)(color, 2) * alpha
    &&& c.a.value(m) == alpha
}

/// Each of red, green and blue is multiplied by alpha, and alpha stays what it
/// is.
pub proof fn law_colours_are_premultiplied(m: Model, color: [u8; 4])
    ensures
        is_premultiplied(m, premultiplied(color), color),
{
    let c = premultiplied(color);
    assert(linear_channel(color, 0).value(m) == (m.channel)(color, 0));
    assert(linear_channel(color, 1).value(m) == (m.channel)(color, 1));
    assert(linear_channel(color, 2).value(m) == (m.channel)(color, 2));
    assert(linear_channel(color, 3).value(m) == (m.channel)(color, 3));
}

/// Whether an answer holds triangles.
pub open spec fn has_triangles(answers: Seq<Answer>, i: int) -> bool {
    0 <= i < answers.len() && (answers[i] matches Some(t) && t.indices@.len() > 0)
}

/// Whether a node draws the triangles of an answer in one colour: where they are,
/// in their own paint, outside of any clip, and over what is there.
pub open spec fn draws_triangles(
    m: Model,
    node: SceneNode,
    answer: Answer,
    color: [u8; 4],
) -> bool {
    match node {
        SceneNode::VectorMesh { mesh, placement, paint, clip, blend } => {
            &&& answer == Some(mesh.triangles)
            &&& is_premultiplied(m, mesh.color, color)
            &&& placement.m00.value(m) == 1real && placement.m01.value(m) == 0real
            &&& placement.m10.value(m) == 0real && placement.m11.value(m) == 1real
            &&& placement.tx.value(m) == 0real && placement.ty.value(m) == 0real
            &&& paint == Paint::Solid
            &&& clip is None
            &&& blend == BlendMode::Alpha
        },
        _ => false,
    }
}

/// A drawing is filled in its own colour with the triangles of the first answer,
/// and then bordered in the colour of its border with those of the second.
/// Without a path or a fill nothing is drawn. It is complete where it has a path
/// and a fill, and a border too where one is asked for.
pub proof fn law_drawing_is_filled_and_bordered(m: Model, data: VectorData, answers: Seq<Answer>)
    ensures
        ({
            let (nodes, complete) = vector_nodes(data, answers);
            let filled = data.path is Some && has_triangles(answers, 0);
            let bordered = filled && data.stroke is Some && has_triangles(answers, 1);
            &&& complete <==> filled && (data.stroke is None || bordered)
            &&& nodes.len() == if bordered {
                2int
            } else if filled {
                1int
            } else {
                0int
            }
            &&& filled ==> draws_triangles(m, nodes[0], answers[0], data.color)
            &&& bordered ==> draws_triangles(m, nodes[1], answers[1], data.stroke->0.color)
        }),
{
    law_constants();
    law_colours_are_premultiplied(m, data.color);
    if let Some(stroke) = data.stroke {
        law_colours_are_premultiplied(m, stroke.color);
    }
    lemma_identity(m);
}

proof fn lemma_identity(m: Model)
    ensures
        ({
            let map = Affine::spec_identity();
            &&& map.m00.value(m) == 1real && map.m01.value(m) == 0real
            &&& map.m10.value(m) == 0real && map.m11.value(m) == 1real
            &&& map.tx.value(m) == 0real && map.ty.value(m) == 0real
        }),
{
    law_constants();
}

/// A bitmap is drawn exactly where it was uploaded and holds pixels: by the
/// handle of its upload, over its own pixels, stretched to them, and untinted.
pub proof fn law_bitmap_is_drawn_over_its_pixels(m: Model, data: RasterData, image: Option<u64>)
    ensures
        raster_node(data, image) is Some <==> image is Some && data.width > 0 && data.height > 0
            && data.pixels@.len() > 0,
        is_empty_raster(data) <==> !(data.width > 0 && data.height > 0 && data.pixels@.len() > 0),
        raster_node(data, image) matches Some(node) ==> match node {
            SceneNode::Image { rect, handle, tint, fit } => {
                &&& image == Some(handle)
                &&& rect.x.value(m) == data.x as int as real
                &&& rect.y.value(m) == data.y as int as real
                &&& rect.w.value(m) == data.width as int as real
                &&& rect.h.value(m) == data.height as int as real
                &&& tint@ == seq![255u8, 255u8, 255u8, 255u8]
                &&& fit == ImageFit::FillBounds
            },
            _ => false,
        },
{
    let white = [255u8, 255u8, 255u8, 255u8];
    assert(white@ =~= seq![255u8, 255u8, 255u8, 255u8]);
}

/// The tessellator is asked about a drawing with a path first for its fill, and
/// then, where there is a fill and a border is asked for, for that border, at
/// least half a pixel wide; and about nothing else. It may leave a curve by half
/// a pixel.
pub proof fn law_what_is_asked_of_a_drawing(m: Model, data: VectorData, answers: Seq<Answer>)
    ensures
        ({
            let request = request_after(IntermediateLayer::Vector(data), answers);
            let fill = data.path is Some && answers.len() == 0;
            let border = data.path is Some && answers.len() == 1 && has_triangles(answers, 0)
                && data.stroke is Some;
            &&& request is Some <==> fill || border
            &&& request matches Some(r) ==> r.source == PathSource::Drawing
            &&& fill ==> match request->0.job {
                TessJob::Fill { tolerance } => tolerance.value(m) == 1real / 2real,
                _ => false,
            }
            &&& border ==> match request->0.job {
                TessJob::Stroke { tolerance, line_width } => {
                    let width = data.stroke->0.width.value();
                    &&& tolerance.value(m) == 1real / 2real
                    &&& line_width.value(m) == if width < 1real / 2real {
                        1real / 2real
                    } else {
                        width
                    }
                },
                _ => false,
            }
        }),
{
    law_constants();
    if let Some(stroke) = data.stroke {
        let wide = at_least(&number(stroke.width), HALF);
        let width = stroke.width.value();
        assert(wide.value(m) == if width < 1real / 2real {
            1real / 2real
        } else {
            width
        }) by {
            reveal_with_fuel(Formula::value, 2);
        }
    }
}

/// The tessellator is asked about a run once, for the inside of the drawing of
/// its last drawing clip; and not at all about a run without one, nor about a
/// bitmap.
pub proof fn law_what_is_asked_of_other_layers(
    m: Model,
    layer: IntermediateLayer,
    answers: Seq<Answer>,
    i: int,
)
    requires
        !(layer is Vector),
    ensures
        layer is Raster ==> request_after(layer, answers) is None,
        layer matches IntermediateLayer::Text(data) ==> {
            let effects = data.effects@;
            let request = request_after(layer, answers);
            &&& (forall|j: int| 0 <= j < effects.len() ==> !(#[trigger] effects[j] is VectorClip))
                ==> request is None
            &&& 0 <= i < effects.len() && i <= usize::MAX && effects[i] is VectorClip && (forall|j:
                int| i < j < effects.len() ==> !(#[trigger] effects[j] is VectorClip)) ==> {
                &&& request is Some <==> answers.len() == 0
                &&& request matches Some(r) ==> {
                    &&& r.source == PathSource::Clip { effect: i as usize }
                    &&& r.job matches TessJob::Fill { tolerance } && tolerance.value(m) == 1real
                        / 2real
                }
            }
        },
{
    law_constants();
    if let IntermediateLayer::Text(data) = layer {
        let effects = data.effects@;
        law_nothing_shows_unasked(effects);
        if 0 <= i < effects.len() && effects[i] is VectorClip && (forall|j: int|
            i < j < effects.len() ==> !(#[trigger] effects[j] is VectorClip)) {
            law_last_of_a_kind_shows(effects, i);
        }
    }
}

/// The scene of a single layer is what that layer draws, numbered from one on; a
/// bitmap that is not drawn and a drawing that is not complete are counted.
pub proof fn law_scene_of_one_layer(
    layer: IntermediateLayer,
    images: Seq<Option<u64>>,
    meshes: Seq<Vec<Answer>>,
)
    ensures
        ({
            let a = assembled(seq![layer], images, meshes);
            let image = if images.len() > 0 {
                images[0]
            } else {
                None
            };
            let answers = if meshes.len() > 0 {
                meshes[0]@
            } else {
                Seq::empty()
            };
            match layer {
                IntermediateLayer::Raster(data) => {
                    let node = raster_node(data, image);
                    &&& node matches Some(n) ==> a.nodes == seq![n]
                    &&& node is None ==> a.nodes.len() == 0
                    &&& a.skipped_raster == if node is None {
                        1nat
                    } else {
                        0nat
                    }
                    &&& a.skipped_tess == 0
                    &&& a.next_id == 1
                },
                IntermediateLayer::Vector(data) => {
                    let (nodes, complete) = vector_nodes(data, answers);
                    &&& a.nodes == nodes
                    &&& a.skipped_raster == 0
                    &&& a.skipped_tess == if complete {
                        0nat
                    } else {
                        1nat
                    }
                    &&& a.next_id == 1
                },
                IntermediateLayer::Text(data) => {
                    let mask = if answers.len() > 0 {
                        answers[0]
                    } else {
                        None
                    };
                    let e = text_emission(*data, mask, 1);
                    &&& a.nodes == e.nodes
                    &&& a.skipped_raster == 0
                    &&& a.skipped_tess == 0
                    &&& a.next_id == e.next_id
                },
            }
        }),
{
    reveal_with_fuel(assembled, 2);
    let none = Seq::<SceneNode>::empty();
    assert(seq![layer].drop_last() =~= Seq::empty());
    match layer {
        IntermediateLayer::Raster(data) => {
            if let Some(node) = raster_node(data, image_at(images, 0)) {
                assert(none.push(node) =~= seq![node]);
            }
        },
        IntermediateLayer::Vector(data) => {
            let nodes = vector_nodes(data, answers_at(meshes, 0)).0;
            assert(none + nodes =~= nodes);
        },
        IntermediateLayer::Text(data) => {
            let e = text_emission(*data, answer_at(answers_at(meshes, 0), 0), 1);
            assert(none + e.nodes =~= e.nodes);
        },
    }
}

} // verus!
