//! Layers to scene: every layer in order, with what the host answered about
//! it.
//!
//! Two things a scene needs are computed elsewhere: bitmaps are uploaded by a
//! live renderer, and paths are cut into triangles by a tessellator. The host
//! asks [`raster_upload`] and [`next_tessellation`] what is wanted, and hands
//! the answers to [`build_scene`].

use crate::formula::{at_least, constant, count, number, Expr};
use crate::geometry::Rect;
use crate::layers::{IntermediateLayer, RasterData, VectorData};
use crate::mesh::{drawn, mesh_of, premult_linear, premultiplied, solid_mesh, Mesh, Triangles};
use crate::run::{run_style, RunStyle, HALF};
use crate::scene::{Affine, BlendMode, ImageFit, LayerCtx, Paint, Scene, SceneNode};
use crate::text::{emit_text, text_emission};
use std::sync::Arc;
use vstd::prelude::*;

verus! {

/// What the tessellator returned for one request: `None` where it failed.
pub type Answer = Option<Arc<Triangles>>;

/// Which path of a layer a request is about.
#[derive(Clone, Copy, Debug, PartialEq, Eq, Structural)]
pub enum PathSource {
    /// The path of a vector drawing.
    Drawing,
    /// The drawing that a text run is clipped along.
    Clip {
        /// Which of its effects holds the path.
        effect: usize,
    },
}

/// What to do with a path.
#[derive(Debug)]
pub enum TessJob {
    /// Cut its inside into triangles.
    Fill {
        /// How far a triangle edge may leave a curve, in pixels.
        tolerance: Expr,
    },
    /// Cut its border into triangles.
    Stroke {
        /// How far a triangle edge may leave a curve, in pixels.
        tolerance: Expr,
        /// Width of the border in pixels.
        line_width: Expr,
    },
}

/// A request to the tessellator.
#[derive(Debug)]
pub struct TessRequest {
    /// The path.
    pub source: PathSource,
    /// What to do with it.
    pub job: TessJob,
}

/// A bitmap to upload: its pixels are those of the layer.
#[derive(Clone, Copy, Debug, PartialEq, Eq, Structural)]
pub struct ImageUpload {
    /// Width in pixels.
    pub width: u32,
    /// Height in pixels.
    pub height: u32,
    /// Whether the pixels are in the sRGB encoding.
    pub srgb: bool,
}

/// A scene, and what could not be put into it.
#[derive(Debug)]
pub struct BuiltScene {
    /// The composed scene.
    pub scene: Scene,
    /// Raster layers that were not uploaded.
    pub skipped_raster: usize,
    /// Vector layers whose tessellation failed.
    pub skipped_tess: usize,
}

/// Whether a bitmap holds no pixels.
pub open spec fn is_empty_raster(data: RasterData) -> bool {
    data.width == 0 || data.height == 0 || data.pixels@.len() == 0
}

/// What to upload for a bitmap: nothing where it holds no pixels.
pub fn raster_upload(data: &RasterData) -> (upload: Option<ImageUpload>)
    ensures
        upload == if is_empty_raster(*data) {
            None
        } else {
            Some(ImageUpload { width: data.width, height: data.height, srgb: true })
        },
{
    if data.width == 0 || data.height == 0 || data.pixels.len() == 0 {
        None
    } else {
        Some(ImageUpload { width: data.width, height: data.height, srgb: true })
    }
}

/// The node of an uploaded bitmap: over its own pixels, untinted, whatever the
/// opacity of the layer.
pub open spec fn image_node(data: RasterData, handle: u64) -> SceneNode {
    SceneNode::Image {
        rect: Rect {
            x: count(data.x as u64),
            y: count(data.y as u64),
            w: count(data.width as u64),
            h: count(data.height as u64),
        },
        handle,
        tint: [255u8, 255u8, 255u8, 255u8],
        fit: ImageFit::FillBounds,
    }
}

/// The node of a raster layer, or `None` where it is empty or was not
/// uploaded.
pub open spec fn raster_node(data: RasterData, image: Option<u64>) -> Option<SceneNode> {
    match image {
        Some(handle) => if is_empty_raster(data) {
            None
        } else {
            Some(image_node(data, handle))
        },
        None => None,
    }
}

/// The node that draws a raster layer, given the handle that its upload
/// returned.
pub fn upload_raster(data: &RasterData, image: Option<u64>) -> (node: Option<SceneNode>)
    ensures
        node == raster_node(*data, image),
{
    match (raster_upload(data), image) {
        (Some(_), Some(handle)) => {
            let tint: [u8; 4] = [255u8, 255u8, 255u8, 255u8];
            Some(
                SceneNode::Image {
                    rect: Rect {
                        x: count(data.x as u64),
                        y: count(data.y as u64),
                        w: count(data.width as u64),
                        h: count(data.height as u64),
                    },
                    handle,
                    tint,
                    fit: ImageFit::FillBounds,
                },
            )
        },
        _ => None,
    }
}

/// Answer `i` of a list: none was given beyond its end.
pub open spec fn answer_at(answers: Seq<Answer>, i: int) -> Answer {
    if 0 <= i < answers.len() {
        answers[i]
    } else {
        None
    }
}

fn answer(answers: &Vec<Answer>, i: usize) -> (a: Answer)
    ensures
        a == answer_at(answers@, i as int),
{
    if i < answers.len() {
        match &answers[i] {
            Some(triangles) => Some(triangles.clone()),
            None => None,
        }
    } else {
        None
    }
}

/// The next request for a layer, after the answers it has: a drawing is
/// filled first, and bordered only where there is a fill; a clip along a
/// drawing is filled.
pub open spec fn request_after(layer: IntermediateLayer, answers: Seq<Answer>) -> Option<
    TessRequest,
> {
    let tolerance = constant(HALF);
    match layer {
        IntermediateLayer::Raster(_) => None,
        IntermediateLayer::Vector(data) => if data.path is None {
            None
        } else if answers.len() == 0 {
            Some(TessRequest { source: PathSource::Drawing, job: TessJob::Fill { tolerance } })
        } else if answers.len() == 1 && drawn(answers[0]) is Some {
            match data.stroke {
                Some(stroke) => Some(
                    TessRequest {
                        source: PathSource::Drawing,
                        job: TessJob::Stroke {
                            tolerance,
                            line_width: at_least(&number(stroke.width), HALF),
                        },
                    },
                ),
                None => None,
            }
        } else {
            None
        },
        IntermediateLayer::Text(data) => match run_style(data.effects@).vector_clip {
            Some((effect, _)) => if answers.len() == 0 {
                Some(
                    TessRequest {
                        source: PathSource::Clip { effect },
                        job: TessJob::Fill { tolerance },
                    },
                )
            } else {
                None
            },
            None => None,
        },
    }
}

/// What to ask the tessellator next for `layer`, given its answers so far;
/// `None` when it has been asked everything.
pub fn next_tessellation(layer: &IntermediateLayer, answers: &Vec<Answer>) -> (request: Option<
    TessRequest,
>)
    ensures
        request == request_after(*layer, answers@),
{
    let tolerance = constant(HALF);
    match layer {
        IntermediateLayer::Raster(_) => None,
        IntermediateLayer::Vector(data) => {
            if data.path.is_none() {
                None
            } else if answers.len() == 0 {
                Some(TessRequest { source: PathSource::Drawing, job: TessJob::Fill { tolerance } })
            } else if answers.len() == 1 && is_drawn(&answers[0]) {
                match &data.stroke {
                    Some(stroke) => Some(
                        TessRequest {
                            source: PathSource::Drawing,
                            job: TessJob::Stroke {
                                tolerance,
                                line_width: at_least(&number(stroke.width), HALF),
                            },
                        },
                    ),
                    None => None,
                }
            } else {
                None
            }
        },
        IntermediateLayer::Text(data) => {
            let style = RunStyle::of(&data.effects);
            match style.vector_clip {
                Some((effect, _)) => if answers.len() == 0 {
                    Some(
                        TessRequest {
                            source: PathSource::Clip { effect },
                            job: TessJob::Fill { tolerance },
                        },
                    )
                } else {
                    None
                },
                None => None,
            }
        },
    }
}

fn is_drawn(answer: &Answer) -> (r: bool)
    ensures
        r == (drawn(*answer) is Some),
{
    match answer {
        Some(triangles) => triangles.indices.len() > 0,
        None => false,
    }
}

/// The node of a mesh. Its triangles are in world pixels already, so they are
/// not moved; they are painted in their own colour, over what is there.
pub open spec fn mesh_node(mesh: Mesh) -> SceneNode {
    SceneNode::VectorMesh {
        mesh,
        placement: Affine::spec_identity(),
        paint: Paint::Solid,
        clip: None,
        blend: BlendMode::Alpha,
    }
}

/// The node that draws a mesh.
pub fn vector_mesh_node(mesh: Mesh) -> (node: SceneNode)
    ensures
        node == mesh_node(mesh),
{
    SceneNode::VectorMesh {
        mesh,
        placement: Affine::identity(),
        paint: Paint::Solid,
        clip: None,
        blend: BlendMode::Alpha,
    }
}

/// What a vector layer adds to a scene, and whether all of it could be drawn:
/// the fill in the colour of the drawing, then the border in its own colour.
/// Without a fill nothing is drawn; a fill stays where the border fails.
pub open spec fn vector_nodes(data: VectorData, answers: Seq<Answer>) -> (Seq<SceneNode>, bool) {
    match (data.path, mesh_of(answer_at(answers, 0), premultiplied(data.color))) {
        (Some(_), Some(fill)) => {
            let filled = seq![mesh_node(fill)];
            match data.stroke {
                None => (filled, true),
                Some(stroke) => match mesh_of(
                    answer_at(answers, 1),
                    premultiplied(stroke.color),
                ) {
                    Some(border) => (filled.push(mesh_node(border)), true),
                    None => (filled, false),
                },
            }
        },
        _ => (Seq::empty(), false),
    }
}

/// Emits a vector layer. Returns `false` when there is no path or a
/// tessellation failed.
pub fn emit_vector(nodes: &mut Vec<SceneNode>, data: &VectorData, answers: &Vec<Answer>) -> (
    complete: bool)
    ensures
        final(nodes)@ == old(nodes)@ + vector_nodes(*data, answers@).0,
        complete == vector_nodes(*data, answers@).1,
{
    if data.path.is_none() {
        return false;
    }
    match solid_mesh(&answer(answers, 0), premult_linear(data.color)) {
        Some(mesh) => {
            nodes.push(vector_mesh_node(mesh));
        },
        None => {
            return false;
        },
    }
    match &data.stroke {
        None => true,
        Some(stroke) => {
            match solid_mesh(&answer(answers, 1), premult_linear(stroke.color)) {
                Some(mesh) => {
                    nodes.push(vector_mesh_node(mesh));
                    true
                },
                None => false,
            }
        },
    }
}

/// A scene under construction.
pub struct Assembled {
    /// The nodes so far.
    pub nodes: Seq<SceneNode>,
    /// The id of the next graphics layer.
    pub next_id: u32,
    /// Raster layers left out so far.
    pub skipped_raster: nat,
    /// Vector layers that failed so far.
    pub skipped_tess: nat,
}

/// The upload of layer `i`: none was made beyond the end of the list.
pub open spec fn image_at(images: Seq<Option<u64>>, i: int) -> Option<u64> {
    if 0 <= i < images.len() {
        images[i]
    } else {
        None
    }
}

/// The tessellator's answers about layer `i`: none beyond the end of the list.
pub open spec fn answers_at(meshes: Seq<Vec<Answer>>, i: int) -> Seq<Answer> {
    if 0 <= i < meshes.len() {
        meshes[i]@
    } else {
        Seq::empty()
    }
}

/// The scene with one more layer.
pub open spec fn with_layer(
    so_far: Assembled,
    layer: IntermediateLayer,
    image: Option<u64>,
    answers: Seq<Answer>,
) -> Assembled {
    match layer {
        IntermediateLayer::Raster(data) => match raster_node(data, image) {
            Some(node) => Assembled { nodes: so_far.nodes.push(node), ..so_far },
            None => Assembled { skipped_raster: so_far.skipped_raster + 1, ..so_far },
        },
        IntermediateLayer::Vector(data) => {
            let (nodes, complete) = vector_nodes(data, answers);
            Assembled {
                nodes: so_far.nodes + nodes,
                skipped_tess: so_far.skipped_tess + if complete {
                    0nat
                } else {
                    1nat
                },
                ..so_far
            }
        },
        IntermediateLayer::Text(data) => {
            let e = text_emission(*data, answer_at(answers, 0), so_far.next_id);
            Assembled { nodes: so_far.nodes + e.nodes, next_id: e.next_id, ..so_far }
        },
    }
}

/// The scene of a list of layers: one layer after the other, in order.
pub open spec fn assembled(
    layers: Seq<IntermediateLayer>,
    images: Seq<Option<u64>>,
    meshes: Seq<Vec<Answer>>,
) -> Assembled
    decreases layers.len(),
{
    if layers.len() == 0 {
        Assembled { nodes: Seq::empty(), next_id: 1, skipped_raster: 0, skipped_tess: 0 }
    } else {
        let i = layers.len() - 1;
        with_layer(
            assembled(layers.drop_last(), images, meshes),
            layers.last(),
            image_at(images, i),
            answers_at(meshes, i),
        )
    }
}

/// Whether `built` is the scene described by `a`, cleared to transparent.
pub open spec fn is_built(built: BuiltScene, a: Assembled) -> bool {
    &&& built.scene.clear_color == [0u8, 0u8, 0u8, 0u8]
    &&& built.scene.nodes@ == a.nodes
    &&& built.skipped_raster == a.skipped_raster
    &&& built.skipped_tess == a.skipped_tess
}

/// Builds the scene of `layers`, given for each of them the handle of its
/// uploaded bitmap (`images`) and the answers of the tessellator (`meshes`).
///
/// `width` and `height` are the frame size; the scene is in physical pixels
/// and does not depend on them.
pub fn build_scene(
    layers: &[IntermediateLayer],
    width: u32,
    height: u32,
    images: &[Option<u64>],
    meshes: &[Vec<Answer>],
) -> (built: BuiltScene)
    ensures
        is_built(built, assembled(layers@, images@, meshes@)),
        built.scene.clear_color@ == seq![0u8, 0u8, 0u8, 0u8],
{
    let clear_color: [u8; 4] = [0u8, 0u8, 0u8, 0u8];
    let mut nodes: Vec<SceneNode> = Vec::new();
    let mut skipped_raster: usize = 0;
    let mut skipped_tess: usize = 0;
    let mut layers_ctx = LayerCtx { next_layer_id: 1 };
    let unanswered: Vec<Answer> = Vec::new();
    let mut i: usize = 0;
    while i < layers.len()
        invariant
            i <= layers@.len(),
            unanswered@.len() == 0,
            skipped_raster <= i,
            skipped_tess <= i,
            ({
                let a = assembled(layers@.take(i as int), images@, meshes@);
                &&& nodes@ == a.nodes
                &&& layers_ctx.next_layer_id == a.next_id
                &&& skipped_raster == a.skipped_raster
                &&& skipped_tess == a.skipped_tess
            }),
        decreases layers.len() - i,
    {
        let image = if i < images.len() {
            images[i]
        } else {
            None
        };
        let answers = if i < meshes.len() {
            &meshes[i]
        } else {
            &unanswered
        };
        proof {
            let next = layers@.take(i + 1);
            assert(next.drop_last() =~= layers@.take(i as int));
            assert(next.last() == layers@[i as int]);
            assert(answers@ =~= answers_at(meshes@, i as int));
        }
        match &layers[i] {
            IntermediateLayer::Raster(data) => match upload_raster(data, image) {
                Some(node) => {
                    nodes.push(node);
                },
                None => {
                    skipped_raster = skipped_raster + 1;
                },
            },
            IntermediateLayer::Vector(data) => {
                if !emit_vector(&mut nodes, data, answers) {
                    skipped_tess = skipped_tess + 1;
                }
            },
            IntermediateLayer::Text(data) => {
                emit_text(&mut nodes, &mut layers_ctx, data, &answer(answers, 0));
            },
        }
        i = i + 1;
    }
    assert(layers@.take(i as int) =~= layers@);
    assert(clear_color@ =~= seq![0u8, 0u8, 0u8, 0u8]);
    BuiltScene { scene: Scene { clear_color, nodes }, skipped_raster, skipped_tess }
}

/// Builds the scene of `layers` without a live renderer: every raster layer
/// counts as skipped.
pub fn layers_to_scene(
    layers: &[IntermediateLayer],
    width: u32,
    height: u32,
    meshes: &[Vec<Answer>],
) -> (built: BuiltScene)
    ensures
        is_built(built, assembled(layers@, Seq::empty(), meshes@)),
        built.scene.clear_color@ == seq![0u8, 0u8, 0u8, 0u8],
{
    let images: Vec<Option<u64>> = Vec::new();
    build_scene(layers, width, height, images.as_slice(), meshes)
}

} // verus!
