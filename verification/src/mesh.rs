//! Tessellated drawings: what the tessellator is asked for, and what becomes
//! of its answers.

use crate::formula::{constant, product, Expr, Formula};
use crate::single::{Single, ONE, ZERO};
use std::sync::Arc;
use vstd::prelude::*;

verus! {

/// What a tessellator returned: points, and triangles as index triples.
#[derive(Debug)]
pub struct Triangles {
    /// The points, in world pixels.
    pub positions: Vec<(Single, Single)>,
    /// Indices of points, three per triangle.
    pub indices: Vec<u32>,
}

/// A colour of four computed channels.
#[derive(Debug)]
pub struct LinearColor {
    /// Red.
    pub r: Expr,
    /// Green.
    pub g: Expr,
    /// Blue.
    pub b: Expr,
    /// Alpha.
    pub a: Expr,
}

/// Triangles in one colour.
#[derive(Debug)]
pub struct Mesh {
    /// The triangles.
    pub triangles: Arc<Triangles>,
    /// The premultiplied linear colour of every vertex.
    pub color: LinearColor,
}

/// A vertex of a [`Mesh`], apart from the colour that all share.
#[derive(Clone, Copy, Debug, PartialEq, Eq)]
pub struct Vertex {
    /// Position in world pixels.
    pub pos: (Single, Single),
    /// Texture coordinates.
    pub uv: (Single, Single),
}

/// White at full opacity.
pub open spec fn white() -> LinearColor {
    LinearColor { r: constant(ONE), g: constant(ONE), b: constant(ONE), a: constant(ONE) }
}

/// [`white`], built.
pub fn white_color() -> (color: LinearColor)
    ensures
        color == white(),
{
    LinearColor { r: constant(ONE), g: constant(ONE), b: constant(ONE), a: constant(ONE) }
}

/// A channel of `color` in linear light.
#[verifier::allow_in_spec]
pub fn linear_channel(color: [u8; 4], channel: u8) -> Expr
    returns
        Arc::new(Formula::LinearChannel(color, channel)),
{
    Arc::new(Formula::LinearChannel(color, channel))
}

/// An sRGB colour in linear light, its channels multiplied by its alpha.
pub open spec fn premultiplied(color: [u8; 4]) -> LinearColor {
    let a = linear_channel(color, 3);
    LinearColor {
        r: product(&linear_channel(color, 0), &a),
        g: product(&linear_channel(color, 1), &a),
        b: product(&linear_channel(color, 2), &a),
        a,
    }
}

/// The premultiplied linear colour of an sRGB colour.
pub fn premult_linear(color: [u8; 4]) -> (linear: LinearColor)
    ensures
        linear == premultiplied(color),
{
    let a = linear_channel(color, 3);
    LinearColor {
        r: product(&linear_channel(color, 0), &a),
        g: product(&linear_channel(color, 1), &a),
        b: product(&linear_channel(color, 2), &a),
        a,
    }
}

/// The triangles of an answer that has any: `None` where the tessellator
/// failed or found nothing to draw.
pub open spec fn drawn(answer: Option<Arc<Triangles>>) -> Option<Arc<Triangles>> {
    match answer {
        Some(triangles) => if triangles.indices@.len() > 0 {
            Some(triangles)
        } else {
            None
        },
        None => None,
    }
}

/// The mesh of an answer in one colour, if there is anything to draw.
pub open spec fn mesh_of(answer: Option<Arc<Triangles>>, color: LinearColor) -> Option<Mesh> {
    match drawn(answer) {
        Some(triangles) => Some(Mesh { triangles, color }),
        None => None,
    }
}

/// The mesh that an answer of the tessellator amounts to: the triangles in
/// `color`, or nothing where it failed or returned no triangle.
pub fn solid_mesh(answer: &Option<Arc<Triangles>>, color: LinearColor) -> (mesh: Option<Mesh>)
    ensures
        mesh == mesh_of(*answer, color),
{
    match answer {
        Some(triangles) => if triangles.indices.len() > 0 {
            Some(Mesh { triangles: triangles.clone(), color })
        } else {
            None
        },
        None => None,
    }
}

impl Mesh {
    /// The vertices of the mesh: the points in order, each with texture
    /// coordinates at the origin.
    pub fn vertices(&self) -> (vertices: Vec<Vertex>)
        ensures
            vertices@ == self.triangles.positions@.map_values(
                |pos: (Single, Single)|
                    Vertex { pos, uv: (Single { bits: ZERO }, Single { bits: ZERO }) },
            ),
    {
        let positions = &self.triangles.positions;
        let origin = Single::from_bits(ZERO);
        let mut vertices: Vec<Vertex> = Vec::new();
        let mut i: usize = 0;
        while i < positions.len()
            invariant
                i <= positions@.len(),
                origin == (Single { bits: ZERO }),
                vertices@ == positions@.take(i as int).map_values(
                    |pos: (Single, Single)|
                        Vertex { pos, uv: (Single { bits: ZERO }, Single { bits: ZERO }) },
                ),
            decreases positions.len() - i,
        {
            vertices.push(Vertex { pos: positions[i], uv: (origin, origin) });
            proof {
                assert(positions@.take(i + 1) =~= positions@.take(i as int).push(
                    positions@[i as int],
                ));
            }
            i = i + 1;
        }
        assert(positions@.take(i as int) =~= positions@);
        vertices
    }
}

} // verus!
