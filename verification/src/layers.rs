//! What the pipeline hands over: one intermediate layer per drawn thing.

use crate::effects::Effects;
use crate::formula::{constant, count, larger, number, product, sum, Expr};
use crate::region::{Bounds, DirtyRegion};
use crate::run::{run_size, text_size};
use crate::single::Single;
use vstd::prelude::*;

verus! {

/// Bit pattern of `200.0`: least assumed width of text without measured bounds.
pub const ASSUMED_TEXT_WIDTH: u32 = 0x4348_0000;

/// Bit pattern of `1.5`: least assumed height, in font sizes, of text without
/// measured bounds.
pub const ASSUMED_TEXT_HEIGHT: u32 = 0x3fc0_0000;

/// A stage of the rendering pipeline.
#[derive(Debug, Clone, Copy)]
pub enum PipelineStage {
    /// Text shaping.
    Shaping,
    /// Drawing command processing.
    Drawing,
    /// Effect application.
    Effects,
    /// Layer compositing.
    Compositing,
}

/// An intermediate layer.
pub enum IntermediateLayer {
    /// A rasterized bitmap.
    Raster(RasterData),
    /// A vector drawing.
    Vector(VectorData),
    /// A run of text.
    Text(Box<TextData>),
}

/// A rasterized bitmap.
pub struct RasterData {
    /// Pixel data (RGBA).
    pub pixels: Vec<u8>,
    /// Horizontal position.
    pub x: u32,
    /// Vertical position.
    pub y: u32,
    /// Width in pixels.
    pub width: u32,
    /// Height in pixels.
    pub height: u32,
    /// Opacity (0-255).
    pub opacity: u8,
}

/// A vector drawing.
pub struct VectorData {
    /// The path to draw.
    pub path: Option<lyon_path::Path>,
    /// Fill colour (RGBA).
    pub color: [u8; 4],
    /// The border, when there is one.
    pub stroke: Option<StrokeInfo>,
    /// Bounding box.
    pub bounds: Option<Bounds>,
}

/// The border of a vector drawing.
pub struct StrokeInfo {
    /// Colour (RGBA).
    pub color: [u8; 4],
    /// Width in pixels.
    pub width: Single,
}

/// A run of text.
pub struct TextData {
    /// Text content.
    pub text: String,
    /// Font family; empty for the default one.
    pub font_family: String,
    /// Font size in pixels.
    pub font_size: Single,
    /// Text colour (RGBA).
    pub color: [u8; 4],
    /// Horizontal position.
    pub x: Single,
    /// Vertical position.
    pub y: Single,
    /// Effects, in the order in which they apply.
    pub effects: Effects,
    /// Letter spacing in pixels.
    pub spacing: Single,
    /// Bounds measured while shaping; `None` only for layers built by hand.
    pub measured: Option<MeasuredBounds>,
}

/// Shaping-measured text bounds in the layer's local pixels.
#[derive(Clone, Copy, Debug)]
pub struct MeasuredBounds {
    /// Total shaped advance, without the letter spacing of the layer.
    pub width: Single,
    /// Height of the ascent-plus-descent box.
    pub height: Single,
    /// Baseline offset from the layer top.
    pub baseline: Single,
    /// Ascent in pixels.
    pub ascent: Single,
    /// Descent in pixels (negative).
    pub descent: Single,
}

impl MeasuredBounds {
    /// Rendered width with the spacing between glyphs: the shaped advance plus
    /// one spacing for every glyph but the first.
    pub fn spaced_width(&self, spacing: Single, glyphs: usize) -> (width: Expr)
        ensures
            width == self.spaced_width_formula(spacing, glyphs as nat),
    {
        let gaps: u64 = if glyphs == 0 {
            0
        } else {
            (glyphs - 1) as u64
        };
        sum(&number(self.width), &product(&number(spacing), &count(gaps)))
    }

    /// The formula of [`MeasuredBounds::spaced_width`].
    pub open spec fn spaced_width_formula(self, spacing: Single, glyphs: nat) -> Expr {
        let gaps = if glyphs == 0 {
            0
        } else {
            glyphs - 1
        };
        sum(&number(self.width), &product(&number(spacing), &count(gaps as u64)))
    }
}

/// The area a layer may touch.
pub enum LayerBounds {
    /// Unknown: any region may be touched.
    Anywhere,
    /// These whole pixels.
    Pixels(Bounds),
    /// A text box whose edges are still to be computed.
    Computed {
        /// Left edge.
        left: Expr,
        /// Top edge.
        top: Expr,
        /// Right edge.
        right: Expr,
        /// Bottom edge.
        bottom: Expr,
    },
}

/// The computed edges of a text box.
#[derive(Clone, Copy, Debug, PartialEq, Eq, Structural)]
pub struct TextBox {
    /// Left edge.
    pub left: Single,
    /// Top edge.
    pub top: Single,
    /// Right edge.
    pub right: Single,
    /// Bottom edge.
    pub bottom: Single,
}

impl IntermediateLayer {
    /// Whether the pixel coordinates of the layer stay within 32 bits: the
    /// right and bottom edges of a bitmap do not wrap around.
    pub open spec fn edges_fit(&self) -> bool {
        match *self {
            IntermediateLayer::Raster(data) => data.x + data.width <= u32::MAX && data.y + data.height
                <= u32::MAX,
            _ => true,
        }
    }

    /// The area of the layer: the rectangle of a bitmap, the given box of a
    /// drawing (anywhere without one), and for text the box from its position
    /// over its measured size. Without one the box is guessed generously, and
    /// never smaller than the run is drawn.
    pub open spec fn area(&self) -> LayerBounds {
        match *self {
            IntermediateLayer::Raster(data) => LayerBounds::Pixels(
                (data.x, data.y, (data.x + data.width) as u32, (data.y + data.height) as u32),
            ),
            IntermediateLayer::Vector(data) => match data.bounds {
                Some(bounds) => LayerBounds::Pixels(bounds),
                None => LayerBounds::Anywhere,
            },
            IntermediateLayer::Text(data) => {
                let size = text_size(*data);
                let (w, h) = match data.measured {
                    Some(_) => size,
                    None => (
                        larger(&constant(ASSUMED_TEXT_WIDTH), &size.0),
                        larger(
                            &product(&number(data.font_size), &constant(ASSUMED_TEXT_HEIGHT)),
                            &size.1,
                        ),
                    ),
                };
                LayerBounds::Computed {
                    left: number(data.x),
                    top: number(data.y),
                    right: sum(&number(data.x), &w),
                    bottom: sum(&number(data.y), &h),
                }
            },
        }
    }

    /// The area the layer may touch.
    pub fn bounds(&self) -> (bounds: LayerBounds)
        requires
            self.edges_fit(),
        ensures
            bounds == self.area(),
    {
        match self {
            IntermediateLayer::Raster(data) => LayerBounds::Pixels(
                (data.x, data.y, data.x + data.width, data.y + data.height),
            ),
            IntermediateLayer::Vector(data) => match data.bounds {
                Some(bounds) => LayerBounds::Pixels(bounds),
                None => LayerBounds::Anywhere,
            },
            IntermediateLayer::Text(data) => {
                let size = run_size(data);
                let (w, h) = match &data.measured {
                    Some(_) => size,
                    None => (
                        larger(&constant(ASSUMED_TEXT_WIDTH), &size.0),
                        larger(
                            &product(&number(data.font_size), &constant(ASSUMED_TEXT_HEIGHT)),
                            &size.1,
                        ),
                    ),
                };
                LayerBounds::Computed {
                    left: number(data.x),
                    top: number(data.y),
                    right: sum(&number(data.x), &w),
                    bottom: sum(&number(data.y), &h),
                }
            },
        }
    }

    /// Whether the layer may touch `region`. For text, `text_box` holds the
    /// edges of [`IntermediateLayer::bounds`] as the host computed them, which
    /// are cut to whole pixels here; for the other layers it plays no part.
    pub fn intersects_region(&self, region: &DirtyRegion, text_box: TextBox) -> (r: bool)
        requires
            self.edges_fit(),
        ensures
            r == match self.area() {
                LayerBounds::Anywhere => true,
                LayerBounds::Pixels(bounds) => region.overlaps(bounds),
                LayerBounds::Computed { .. } => region.overlaps(
                    (
                        text_box.left.pixel(),
                        text_box.top.pixel(),
                        text_box.right.pixel(),
                        text_box.bottom.pixel(),
                    ),
                ),
            },
            *self matches IntermediateLayer::Raster(data) ==> (!r <==> {
                ||| region.x + region.width <= data.x
                ||| region.y + region.height <= data.y
                ||| region.x >= data.x + data.width
                ||| region.y >= data.y + data.height
            }),
            *self matches IntermediateLayer::Vector(data) ==> (!r <==> match data.bounds {
                Some(b) => {
                    ||| region.x + region.width <= b.0
                    ||| region.y + region.height <= b.1
                    ||| region.x >= b.2
                    ||| region.y >= b.3
                },
                None => false,
            }),
            *self is Text ==> (!r <==> {
                ||| region.x + region.width <= text_box.left.pixel()
                ||| region.y + region.height <= text_box.top.pixel()
                ||| region.x >= text_box.right.pixel()
                ||| region.y >= text_box.bottom.pixel()
            }),
    {
        match self.bounds() {
            LayerBounds::Anywhere => true,
            LayerBounds::Pixels(bounds) => region.intersects(bounds),
            LayerBounds::Computed { .. } => region.intersects(
                (
                    text_box.left.to_pixel(),
                    text_box.top.to_pixel(),
                    text_box.right.to_pixel(),
                    text_box.bottom.to_pixel(),
                ),
            ),
        }
    }
}

} // verus!
