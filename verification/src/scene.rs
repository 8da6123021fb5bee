//! The scene: a flat list of nodes, drawn in order, in which clips,
//! transforms and graphics layers are opened and closed like brackets.

use crate::formula::{constant, Expr};
use crate::geometry::{Rect, Transform};
use crate::mesh::Mesh;
use crate::run::{FontStyle, FontWeight, TextDecoration};
use crate::single::{ONE, ZERO};
use std::sync::Arc;
use vstd::prelude::*;

verus! {

/// A composed scene.
#[derive(Debug)]
pub struct Scene {
    /// Colour that the frame is cleared to (RGBA).
    pub clear_color: [u8; 4],
    /// The nodes, in drawing order.
    pub nodes: Vec<SceneNode>,
}

/// What a clip keeps.
#[derive(Clone, Copy, Debug, PartialEq, Eq, Structural)]
pub enum ClipOp {
    /// What is inside.
    Intersect,
    /// What is outside.
    Difference,
}

/// Shape of the ends of a stroke.
#[derive(Clone, Copy, Debug, PartialEq, Eq, Structural)]
pub enum StrokeCap {
    /// Rounded.
    Round,
}

/// Shape of the corners of a stroke.
#[derive(Clone, Copy, Debug, PartialEq, Eq, Structural)]
pub enum StrokeJoin {
    /// Rounded.
    Round,
}

/// On which side a line of text starts.
#[derive(Clone, Copy, Debug, PartialEq, Eq, Structural)]
pub enum TextAlign {
    /// As the framework sees fit.
    Unspecified,
}

/// Where the colour of a mesh comes from.
#[derive(Clone, Copy, Debug, PartialEq, Eq, Structural)]
pub enum Paint {
    /// From its vertices.
    Solid,
}

/// How what is drawn mixes with what is there.
#[derive(Clone, Copy, Debug, PartialEq, Eq, Structural)]
pub enum BlendMode {
    /// Over it, by its alpha.
    Alpha,
}

/// An affine map `(m00 * x + m01 * y + tx, m10 * x + m11 * y + ty)`.
#[derive(Debug)]
pub struct Affine {
    /// What the horizontal coordinate adds to the horizontal one.
    pub m00: Expr,
    /// What the vertical coordinate adds to the horizontal one.
    pub m01: Expr,
    /// What the horizontal coordinate adds to the vertical one.
    pub m10: Expr,
    /// What the vertical coordinate adds to the vertical one.
    pub m11: Expr,
    /// Horizontal shift.
    pub tx: Expr,
    /// Vertical shift.
    pub ty: Expr,
}

impl Affine {
    /// The map that moves nothing.
    pub open spec fn spec_identity() -> Affine {
        Affine {
            m00: constant(ONE),
            m01: constant(ZERO),
            m10: constant(ZERO),
            m11: constant(ONE),
            tx: constant(ZERO),
            ty: constant(ZERO),
        }
    }

    /// The map that moves nothing.
    pub fn identity() -> (map: Affine)
        ensures
            map == Affine::spec_identity(),
    {
        Affine {
            m00: constant(ONE),
            m01: constant(ZERO),
            m10: constant(ZERO),
            m11: constant(ONE),
            tx: constant(ZERO),
            ty: constant(ZERO),
        }
    }
}

/// How an image is fitted to its rectangle.
#[derive(Clone, Copy, Debug, PartialEq, Eq, Structural)]
pub enum ImageFit {
    /// Stretched over the rectangle.
    FillBounds,
}

/// How glyphs are drawn: filled or stroked, never both in one node.
#[derive(Debug)]
pub enum DrawStyle {
    /// Filled.
    Fill,
    /// Stroked.
    Stroke {
        /// Stroke width in ems.
        width: Expr,
        /// Ends of the stroke.
        cap: StrokeCap,
        /// Corners of the stroke.
        join: StrokeJoin,
        /// Miter limit.
        miter: Expr,
    },
}

/// A node of a scene. Attributes that are not listed here stay at the defaults
/// of the framework.
#[derive(Debug)]
pub enum SceneNode {
    /// A filled rectangle.
    Rect {
        /// The rectangle.
        rect: Rect,
        /// Its colour (RGBA).
        color: [u8; 4],
        /// Radius of its four corners.
        radius: Expr,
    },
    /// A run of text.
    Text {
        /// Where the run stands.
        rect: Rect,
        /// The text.
        text: String,
        /// Its colour (RGBA).
        color: [u8; 4],
        /// Font size in pixels.
        size: Expr,
        /// Font family; `None` for the default one.
        font_family: Option<String>,
        /// On which side the text starts.
        text_align: TextAlign,
        /// Weight of the face.
        font_weight: FontWeight,
        /// Slant of the face.
        font_style: FontStyle,
        /// Lines along the text.
        text_decoration: TextDecoration,
        /// Letter spacing in pixels.
        letter_spacing: Expr,
        /// Line height in pixels.
        line_height: Expr,
        /// Filled or stroked.
        draw_style: DrawStyle,
        /// What the text links to.
        url: Option<String>,
        /// Settings of a variable font.
        font_variation_settings: Option<String>,
    },
    /// An uploaded image.
    Image {
        /// Where the image stands.
        rect: Rect,
        /// The handle that the upload returned.
        handle: u64,
        /// Colour that the image is multiplied by (RGBA).
        tint: [u8; 4],
        /// How it is fitted.
        fit: ImageFit,
    },
    /// A tessellated drawing.
    VectorMesh {
        /// The triangles and their colour.
        mesh: Mesh,
        /// Where the triangles are put.
        placement: Affine,
        /// Where their colour comes from.
        paint: Paint,
        /// The clip that they are drawn in.
        clip: Option<u32>,
        /// How they mix with what is there.
        blend: BlendMode,
    },
    /// Opens a rectangular clip.
    PushClip {
        /// The rectangle.
        rect: Rect,
        /// Radius of its four corners.
        radius: Expr,
        /// What the clip keeps.
        op: ClipOp,
    },
    /// Closes a rectangular clip.
    PopClip,
    /// Opens a clip along triangles.
    PushVectorClip {
        /// The triangles.
        mesh: Mesh,
        /// What the clip keeps.
        op: ClipOp,
    },
    /// Closes a clip along triangles.
    PopVectorClip,
    /// Opens a transform.
    PushTransform {
        /// The transform.
        transform: Arc<Transform>,
    },
    /// Closes a transform.
    PopTransform,
    /// Opens a graphics layer: what follows is drawn aside, blurred, and
    /// composited. Its content is placed relative to the layer rectangle.
    BeginLayer {
        /// Area of the layer.
        rect: Rect,
        /// Identifies the layer within the scene.
        layer_id: u32,
        /// Opacity of the layer.
        alpha: Expr,
        /// Horizontal blur radius.
        blur_radius_x: Expr,
        /// Vertical blur radius.
        blur_radius_y: Expr,
        /// Whether the blur repeats the edge pixels.
        rectangle_edge: bool,
    },
    /// Closes a graphics layer.
    EndLayer {
        /// The layer that ends.
        layer_id: u32,
    },
}

/// Something that is open at some point of a scene.
pub enum Bracket {
    /// A rectangular clip.
    Clip,
    /// A clip along triangles.
    VectorClip,
    /// A transform.
    Transform,
    /// The graphics layer with this id.
    Layer(u32),
}

impl SceneNode {
    /// What the node opens.
    pub open spec fn opens(self) -> Option<Bracket> {
        match self {
            SceneNode::PushClip { .. } => Some(Bracket::Clip),
            SceneNode::PushVectorClip { .. } => Some(Bracket::VectorClip),
            SceneNode::PushTransform { .. } => Some(Bracket::Transform),
            SceneNode::BeginLayer { layer_id, .. } => Some(Bracket::Layer(layer_id)),
            _ => None,
        }
    }

    /// What the node closes.
    pub open spec fn closes(self) -> Option<Bracket> {
        match self {
            SceneNode::PopClip => Some(Bracket::Clip),
            SceneNode::PopVectorClip => Some(Bracket::VectorClip),
            SceneNode::PopTransform => Some(Bracket::Transform),
            SceneNode::EndLayer { layer_id } => Some(Bracket::Layer(layer_id)),
            _ => None,
        }
    }
}

/// Hands out the ids of graphics layers within a scene.
pub struct LayerCtx {
    /// The id of the next layer.
    pub next_layer_id: u32,
}

/// The id after `id`: one more, and 1 again after the largest.
pub open spec fn next_id(id: u32) -> u32 {
    if id == u32::MAX {
        1
    } else {
        (id + 1) as u32
    }
}

impl LayerCtx {
    /// Hands out an id.
    pub fn allocate(&mut self) -> (id: u32)
        ensures
            id == old(self).next_layer_id,
            final(self).next_layer_id == next_id(old(self).next_layer_id),
            id < u32::MAX ==> final(self).next_layer_id == id + 1,
            id == u32::MAX ==> final(self).next_layer_id == 1,
    {
        let id: u32 = self.next_layer_id;
        if id == u32::MAX {
            self.next_layer_id = 1;
        } else {
            self.next_layer_id = id + 1;
        }
        id
    }
}

/// A point in a scene: what is open there, innermost last, and which id the
/// next graphics layer has to carry.
pub struct Progress {
    /// The open brackets.
    pub open: Seq<Bracket>,
    /// The id of the next layer.
    pub next_id: u32,
}

/// One node further. `None` where the node closes something other than the
/// innermost bracket, or opens a layer out of turn.
pub open spec fn step(at: Progress, node: SceneNode) -> Option<Progress> {
    match node {
        SceneNode::BeginLayer { layer_id, .. } => if layer_id == at.next_id {
            Some(
                Progress {
                    open: at.open.push(Bracket::Layer(layer_id)),
                    next_id: next_id(layer_id),
                },
            )
        } else {
            None
        },
        _ => match (node.opens(), node.closes()) {
            (Some(bracket), _) => Some(Progress { open: at.open.push(bracket), ..at }),
            (None, Some(bracket)) => if at.open.len() > 0 && at.open.last() == bracket {
                Some(Progress { open: at.open.drop_last(), ..at })
            } else {
                None
            },
            (None, None) => Some(at),
        },
    }
}

/// All of `nodes` further, or `None` where one of them is out of place.
pub open spec fn walk(at: Progress, nodes: Seq<SceneNode>) -> Option<Progress>
    decreases nodes.len(),
{
    if nodes.len() == 0 {
        Some(at)
    } else {
        match walk(at, nodes.drop_last()) {
            Some(before) => step(before, nodes.last()),
            None => None,
        }
    }
}

/// Whether `nodes` close exactly what they open, innermost first, and number
/// the layers they open one after the other, starting with `first` and leaving
/// off before `after`. That is so wherever they stand.
pub open spec fn tidy(nodes: Seq<SceneNode>, first: u32, after: u32) -> bool {
    forall|open: Seq<Bracket>| #[trigger]
        walk(Progress { open, next_id: first }, nodes) == Some(Progress { open, next_id: after })
}

/// Nodes after nodes: the second start where the first leave off.
pub proof fn lemma_walk_concat(at: Progress, a: Seq<SceneNode>, b: Seq<SceneNode>)
    ensures
        walk(at, a + b) == match walk(at, a) {
            Some(middle) => walk(middle, b),
            None => None,
        },
    decreases b.len(),
{
    if b.len() == 0 {
        assert(a + b =~= a);
    } else {
        assert((a + b).drop_last() =~= a + b.drop_last());
        lemma_walk_concat(at, a, b.drop_last());
    }
}

/// A walk over a single node is a step.
pub proof fn lemma_walk_one(at: Progress, node: SceneNode)
    ensures
        walk(at, seq![node]) == step(at, node),
{
    reveal_with_fuel(walk, 2);
    assert(seq![node].drop_last() =~= Seq::empty());
}

/// Tidy nodes after tidy nodes are tidy.
pub proof fn lemma_tidy_concat(
    a: Seq<SceneNode>,
    b: Seq<SceneNode>,
    first: u32,
    middle: u32,
    after: u32,
)
    requires
        tidy(a, first, middle),
        tidy(b, middle, after),
    ensures
        tidy(a + b, first, after),
{
    assert forall|open: Seq<Bracket>| #[trigger]
        walk(Progress { open, next_id: first }, a + b) == Some(
            Progress { open, next_id: after },
        ) by {
        lemma_walk_concat(Progress { open, next_id: first }, a, b);
        assert(walk(Progress { open, next_id: middle }, b) == Some(
            Progress { open, next_id: after },
        ));
    }
}

/// Tidy nodes stay tidy between an opening node and the node that closes it.
/// An opening layer takes the first id, the nodes within it the ones after.
pub proof fn lemma_tidy_wrap(
    opening: SceneNode,
    inner: Seq<SceneNode>,
    closing: SceneNode,
    first: u32,
    after: u32,
)
    requires
        opening.opens() is Some,
        closing.opens() is None,
        closing.closes() == opening.opens(),
        match opening {
            SceneNode::BeginLayer { layer_id, .. } => layer_id == first && tidy(
                inner,
                next_id(first),
                after,
            ),
            _ => tidy(inner, first, after),
        },
    ensures
        tidy(seq![opening] + inner + seq![closing], first, after),
{
    let bracket = opening.opens()->0;
    let inner_first = if opening is BeginLayer {
        next_id(first)
    } else {
        first
    };
    assert forall|open: Seq<Bracket>| #[trigger]
        walk(Progress { open, next_id: first }, seq![opening] + inner + seq![closing]) == Some(
            Progress { open, next_id: after },
        ) by {
        let start = Progress { open, next_id: first };
        let within = Progress { open: open.push(bracket), next_id: inner_first };
        let end = Progress { open: open.push(bracket), next_id: after };
        lemma_walk_concat(start, seq![opening] + inner, seq![closing]);
        lemma_walk_concat(start, seq![opening], inner);
        lemma_walk_one(start, opening);
        lemma_walk_one(end, closing);
        assert(walk(within, inner) == Some(end));
        assert(open.push(bracket).drop_last() =~= open);
    }
}

/// A node that neither opens nor closes anything is tidy.
pub proof fn lemma_tidy_leaf(node: SceneNode, id: u32)
    requires
        node.opens() is None,
        node.closes() is None,
    ensures
        tidy(seq![node], id, id),
{
    assert forall|open: Seq<Bracket>| #[trigger]
        walk(Progress { open, next_id: id }, seq![node]) == Some(
            Progress { open, next_id: id },
        ) by {
        lemma_walk_one(Progress { open, next_id: id }, node);
    }
}

/// How many layers `nodes` open.
pub open spec fn layer_count(nodes: Seq<SceneNode>) -> nat
    decreases nodes.len(),
{
    if nodes.len() == 0 {
        0
    } else {
        layer_count(nodes.drop_last()) + if nodes.last() is BeginLayer {
            1nat
        } else {
            0nat
        }
    }
}

/// The id of layer number `n`, counted from zero, of a scene.
pub open spec fn nth_id(n: nat) -> nat {
    1 + n % (u32::MAX as nat)
}

/// Where a scene is well formed from its start on, the layer that a node opens
/// carries the id of its number.
pub proof fn lemma_ids_follow_numbers(nodes: Seq<SceneNode>)
    requires
        walk(Progress { open: Seq::empty(), next_id: 1 }, nodes) is Some,
    ensures
        walk(Progress { open: Seq::empty(), next_id: 1 }, nodes)->0.next_id == nth_id(
            layer_count(nodes),
        ),
        forall|i: int| #![trigger nodes[i]]
            0 <= i < nodes.len() ==> (nodes[i] matches SceneNode::BeginLayer { layer_id, .. }
                ==> layer_id == nth_id(layer_count(nodes.take(i)))),
    decreases nodes.len(),
{
    if nodes.len() > 0 {
        let before = nodes.drop_last();
        lemma_ids_follow_numbers(before);
        assert(nodes.take(nodes.len() - 1) =~= before);
        assert forall|i: int| #![trigger nodes[i]] 0 <= i < nodes.len() implies (
        nodes[i] matches SceneNode::BeginLayer { layer_id, .. } ==> layer_id == nth_id(
            layer_count(nodes.take(i)),
        )) by {
            if i < before.len() {
                assert(before[i] == nodes[i]);
                assert(before.take(i) =~= nodes.take(i));
            }
        }
        lemma_nth_id_follows(layer_count(before));
    }
}

/// The id of one layer more is the id after.
pub proof fn lemma_nth_id_follows(n: nat)
    ensures
        1 <= nth_id(n) <= u32::MAX,
        next_id(nth_id(n) as u32) == nth_id(n + 1),
{
    let size = u32::MAX as nat;
    assert(n % size < size) by (nonlinear_arith)
        requires
            size > 0,
    ;
    assert((n + 1) % size == if n % size == size - 1 {
        0
    } else {
        n % size + 1
    }) by {
        vstd::arithmetic::div_mod::lemma_mod_adds(n as int, 1, size as int);
        vstd::arithmetic::div_mod::lemma_small_mod(1, size);
    }
}

/// More nodes open no fewer layers.
pub proof fn lemma_layer_count_grows(nodes: Seq<SceneNode>, i: int, j: int)
    requires
        0 <= i <= j <= nodes.len(),
    ensures
        layer_count(nodes.take(i)) <= layer_count(nodes.take(j)),
        i < j && nodes[i] is BeginLayer ==> layer_count(nodes.take(i)) < layer_count(
            nodes.take(j),
        ),
    decreases j - i,
{
    if i < j {
        lemma_layer_count_grows(nodes, i, j - 1);
        assert(nodes.take(j).drop_last() =~= nodes.take(j - 1));
    }
}

/// Layers that are open at the same time or one after the other are told apart
/// by their ids, and no id is zero: this holds of every well-formed scene with
/// fewer layers than there are ids.
pub proof fn law_layer_ids_are_distinct(nodes: Seq<SceneNode>, i: int, j: int)
    requires
        walk(Progress { open: Seq::empty(), next_id: 1 }, nodes) is Some,
        layer_count(nodes) <= u32::MAX,
        0 <= i < j < nodes.len(),
        nodes[i] is BeginLayer,
        nodes[j] is BeginLayer,
    ensures
        nodes[i]->BeginLayer_layer_id != nodes[j]->BeginLayer_layer_id,
        nodes[i]->BeginLayer_layer_id != 0,
        nodes[j]->BeginLayer_layer_id != 0,
{
    lemma_ids_follow_numbers(nodes);
    lemma_layer_count_grows(nodes, i, j);
    lemma_layer_count_grows(nodes, j, nodes.len() as int);
    assert(nodes.take(nodes.len() as int) =~= nodes);
    let (a, b) = (layer_count(nodes.take(i)), layer_count(nodes.take(j)));
    vstd::arithmetic::div_mod::lemma_small_mod(a, u32::MAX as nat);
    vstd::arithmetic::div_mod::lemma_small_mod(b, u32::MAX as nat);
}

} // verus!
