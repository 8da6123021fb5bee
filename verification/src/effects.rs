//! The effects of a text run, and the list that holds them.

use crate::single::Single;
use vstd::prelude::*;

verus! {

/// A path of the `lyon_path` crate. It is handed through as it is: nothing
/// here looks inside one.
#[verifier::external_type_specification]
#[verifier::external_body]
pub struct ExPath(lyon_path::Path);

/// `Clone` of `lyon_path::Path` copies the points, verbs and attributes of the
/// path, so the copy is the same path.
pub assume_specification[ <lyon_path::Path as std::clone::Clone>::clone ](
    path: &lyon_path::Path,
) -> (copy: lyon_path::Path)
    ensures
        copy == *path,
;

/// One effect on a text run.
#[derive(Debug)]
pub enum TextEffect {
    /// Bold face.
    Bold,
    /// Italic face.
    Italic,
    /// Underline.
    Underline,
    /// Strikethrough.
    Strikethrough,
    /// An outline with a width per axis.
    Outline {
        /// Colour (RGBA).
        color: [u8; 4],
        /// Width of vertical edges.
        width_x: Single,
        /// Width of horizontal edges.
        width_y: Single,
    },
    /// A shadow.
    Shadow {
        /// Colour (RGBA).
        color: [u8; 4],
        /// Horizontal offset.
        x_offset: Single,
        /// Vertical offset.
        y_offset: Single,
    },
    /// Blur of the whole run.
    Blur {
        /// Radius in pixels.
        radius: Single,
    },
    /// Blur of the outline alone.
    EdgeBlur {
        /// Radius in pixels.
        radius: Single,
    },
    /// Karaoke. The sung colour is the colour of the layer.
    Karaoke {
        /// Sung part of the run, from 0 to 1.
        progress: Single,
        /// 0 flips the whole run at once; the other styles sweep.
        style: u8,
        /// Colour of what is not sung yet (RGBA).
        secondary: [u8; 4],
    },
    /// Rotation in degrees about the three axes.
    Rotation {
        /// About the horizontal axis.
        x: Single,
        /// About the vertical axis.
        y: Single,
        /// About the viewing axis.
        z: Single,
        /// Centre in screen pixels; the centre of the run without one.
        origin: Option<(Single, Single)>,
    },
    /// Shear.
    Shear {
        /// Horizontal factor.
        x: Single,
        /// Vertical factor.
        y: Single,
    },
    /// Scale in percent.
    Scale {
        /// Horizontal percentage.
        x: Single,
        /// Vertical percentage.
        y: Single,
    },
    /// A rectangular clip.
    Clip {
        /// Left edge.
        x1: Single,
        /// Top edge.
        y1: Single,
        /// Right edge.
        x2: Single,
        /// Bottom edge.
        y2: Single,
        /// Whether the inside is cut out instead of the outside.
        inverse: bool,
    },
    /// A clip along a drawing, in render coordinates.
    VectorClip {
        /// The outline of the clip.
        path: lyon_path::Path,
        /// Whether the inside is cut out instead of the outside.
        inverse: bool,
    },
    /// An opaque box behind the text.
    OpaqueBox {
        /// Colour (RGBA).
        color: [u8; 4],
        /// Pixels around the text.
        padding: Single,
    },
}

impl Clone for TextEffect {
    fn clone(&self) -> (copy: Self)
        ensures
            copy == *self,
    {
        match self {
            TextEffect::Bold => TextEffect::Bold,
            TextEffect::Italic => TextEffect::Italic,
            TextEffect::Underline => TextEffect::Underline,
            TextEffect::Strikethrough => TextEffect::Strikethrough,
            TextEffect::Outline { color, width_x, width_y } => TextEffect::Outline {
                color: *color,
                width_x: *width_x,
                width_y: *width_y,
            },
            TextEffect::Shadow { color, x_offset, y_offset } => TextEffect::Shadow {
                color: *color,
                x_offset: *x_offset,
                y_offset: *y_offset,
            },
            TextEffect::Blur { radius } => TextEffect::Blur { radius: *radius },
            TextEffect::EdgeBlur { radius } => TextEffect::EdgeBlur { radius: *radius },
            TextEffect::Karaoke { progress, style, secondary } => TextEffect::Karaoke {
                progress: *progress,
                style: *style,
                secondary: *secondary,
            },
            TextEffect::Rotation { x, y, z, origin } => TextEffect::Rotation {
                x: *x,
                y: *y,
                z: *z,
                origin: *origin,
            },
            TextEffect::Shear { x, y } => TextEffect::Shear { x: *x, y: *y },
            TextEffect::Scale { x, y } => TextEffect::Scale { x: *x, y: *y },
            TextEffect::Clip { x1, y1, x2, y2, inverse } => TextEffect::Clip {
                x1: *x1,
                y1: *y1,
                x2: *x2,
                y2: *y2,
                inverse: *inverse,
            },
            TextEffect::VectorClip { path, inverse } => TextEffect::VectorClip {
                path: path.clone(),
                inverse: *inverse,
            },
            TextEffect::OpaqueBox { color, padding } => TextEffect::OpaqueBox {
                color: *color,
                padding: *padding,
            },
        }
    }
}

/// The effects of a run, in order: a `smallvec::SmallVec` that keeps up to
/// four of them inline.
#[verifier::external_body]
pub struct Effects {
    inline: smallvec::SmallVec<[TextEffect; 4]>,
}

/// The effects that a list holds, in order.
pub uninterp spec fn effect_list(effects: Effects) -> Seq<TextEffect>;

/// `SmallVec::from_vec`: the list holds what the vector held, in its order.
#[verifier::external_body]
fn small_vec_of(list: Vec<TextEffect>) -> (effects: Effects)
    ensures
        effect_list(effects) == list@,
{
    Effects { inline: smallvec::SmallVec::from_vec(list) }
}

/// `SmallVec::as_slice`: the whole list, in order.
#[verifier::external_body]
fn small_vec_slice(effects: &Effects) -> (list: &[TextEffect])
    ensures
        list@ == effect_list(*effects),
{
    effects.inline.as_slice()
}

impl View for Effects {
    type V = Seq<TextEffect>;

    open spec fn view(&self) -> Seq<TextEffect> {
        effect_list(*self)
    }
}

impl Effects {
    /// The list of the given effects.
    pub fn from_vec(list: Vec<TextEffect>) -> (effects: Effects)
        ensures
            effects@ == list@,
    {
        small_vec_of(list)
    }

    /// The effects, in order.
    pub fn as_slice(&self) -> (list: &[TextEffect])
        ensures
            list@ == self@,
    {
        small_vec_slice(self)
    }
}

} // verus!
