//! What the effects of a text run amount to, and where the run stands.

use crate::effects::{Effects, TextEffect};
use crate::formula::{
    at_least, constant, count, difference, negated, number, product, quotient, sum, Expr, Formula,
};
use crate::geometry::{libass_rotation_rows, rotation_rows, Rect, Transform};
use crate::layers::TextData;
use crate::single::{Single, ONE, ZERO};
use std::sync::Arc;
use vstd::prelude::*;
use vstd::string::StrSliceExecFns;

verus! {

/// Bit pattern of `0.5`.
pub const HALF: u32 = 0x3f00_0000;

/// Bit pattern of `100.0`.
pub const HUNDRED: u32 = 0x42c8_0000;

/// Bit pattern of `0.6`: assumed advance of a glyph, in font sizes.
pub const ASSUMED_ADVANCE: u32 = 0x3f19_999a;

/// Bit pattern of `1.4`: assumed height of a line, in font sizes.
pub const ASSUMED_LINE: u32 = 0x3fb3_3333;

/// Weight of a font face.
#[derive(Clone, Copy, Debug, PartialEq, Eq, Structural)]
pub enum FontWeight {
    /// The regular weight.
    Normal,
    /// The bold weight.
    Bold,
}

/// Slant of a font face.
#[derive(Clone, Copy, Debug, PartialEq, Eq, Structural)]
pub enum FontStyle {
    /// Upright.
    Normal,
    /// Italic.
    Italic,
}

/// Lines drawn along a text.
#[derive(Clone, Copy, Debug, PartialEq, Eq, Structural)]
pub struct TextDecoration {
    /// A line under the text.
    pub underline: bool,
    /// A line through the text.
    pub strikethrough: bool,
}

/// How far a karaoke run is sung, and how it shows.
#[derive(Clone, Copy, Debug)]
pub struct Karaoke {
    /// Sung part, from 0 to 1.
    pub progress: Single,
    /// 0 flips the whole run at once; the other styles sweep.
    pub style: u8,
    /// Colour of what is not sung yet.
    pub secondary: [u8; 4],
}

/// A rotation about the three axes, in degrees.
#[derive(Clone, Copy, Debug)]
pub struct Rotation {
    /// About the horizontal axis.
    pub x: Single,
    /// About the vertical axis.
    pub y: Single,
    /// About the viewing axis.
    pub z: Single,
    /// Centre in screen pixels.
    pub origin: Option<(Single, Single)>,
}

/// A clip rectangle by its edges.
#[derive(Clone, Copy, Debug)]
pub struct ClipEdges {
    /// Left edge.
    pub x1: Single,
    /// Top edge.
    pub y1: Single,
    /// Right edge.
    pub x2: Single,
    /// Bottom edge.
    pub y2: Single,
    /// Whether the inside is cut out.
    pub inverse: bool,
}

/// The sum of all effects of a run.
#[derive(Debug)]
pub struct RunStyle {
    /// Weight of the face.
    pub weight: FontWeight,
    /// Slant of the face.
    pub style: FontStyle,
    /// Lines along the text.
    pub decoration: TextDecoration,
    /// Colour and width of the outline.
    pub outline: Option<([u8; 4], Single)>,
    /// Colour and offsets of the shadow.
    pub shadow: Option<([u8; 4], Single, Single)>,
    /// Blur radius of the whole run.
    pub blur: Option<Single>,
    /// Blur radius of the outline alone.
    pub edge_blur: Option<Single>,
    /// Karaoke state.
    pub karaoke: Option<Karaoke>,
    /// Rotation.
    pub rotation: Option<Rotation>,
    /// Horizontal scale in percent. The vertical one is part of the font size
    /// already.
    pub scale: Option<Single>,
    /// Horizontal and vertical shear, summed over all shear effects.
    pub shear: Option<(Expr, Expr)>,
    /// Rectangular clip.
    pub clip: Option<ClipEdges>,
    /// Which effect holds the drawing to clip along, and whether its inside is
    /// cut out.
    pub vector_clip: Option<(usize, bool)>,
    /// Colour and padding of the box behind the text.
    pub opaque_box: Option<([u8; 4], Single)>,
}

/// The radius so far, or zero.
pub open spec fn radius_or_zero(radius: Option<Single>) -> Single {
    match radius {
        Some(r) => r,
        None => Single { bits: ZERO },
    }
}

/// The shear so far, or zero.
pub open spec fn shear_or_zero(shear: Option<(Expr, Expr)>) -> (Expr, Expr) {
    match shear {
        Some(s) => s,
        None => (constant(ZERO), constant(ZERO)),
    }
}

impl RunStyle {
    /// A run without effects.
    pub open spec fn spec_plain() -> RunStyle {
        RunStyle {
            weight: FontWeight::Normal,
            style: FontStyle::Normal,
            decoration: TextDecoration { underline: false, strikethrough: false },
            outline: None,
            shadow: None,
            blur: None,
            edge_blur: None,
            karaoke: None,
            rotation: None,
            scale: None,
            shear: None,
            clip: None,
            vector_clip: None,
            opaque_box: None,
        }
    }

    fn plain() -> (style: RunStyle)
        ensures
            style == RunStyle::spec_plain(),
    {
        RunStyle {
            weight: FontWeight::Normal,
            style: FontStyle::Normal,
            decoration: TextDecoration { underline: false, strikethrough: false },
            outline: None,
            shadow: None,
            blur: None,
            edge_blur: None,
            karaoke: None,
            rotation: None,
            scale: None,
            shear: None,
            clip: None,
            vector_clip: None,
            opaque_box: None,
        }
    }

    /// The style with one more effect, which stands at `index` in the list.
    /// Faces and lines are switched on, blur radii grow to the largest, shears
    /// add up, and every other effect replaces an earlier one of its kind.
    pub open spec fn with(self, effect: TextEffect, index: int) -> RunStyle {
        match effect {
            TextEffect::Bold => RunStyle { weight: FontWeight::Bold, ..self },
            TextEffect::Italic => RunStyle { style: FontStyle::Italic, ..self },
            TextEffect::Underline => RunStyle {
                decoration: TextDecoration { underline: true, ..self.decoration },
                ..self
            },
            TextEffect::Strikethrough => RunStyle {
                decoration: TextDecoration { strikethrough: true, ..self.decoration },
                ..self
            },
            TextEffect::Outline { color, width_x, width_y } => RunStyle {
                outline: Some((color, width_x.spec_larger(width_y))),
                ..self
            },
            TextEffect::Shadow { color, x_offset, y_offset } => RunStyle {
                shadow: Some((color, x_offset, y_offset)),
                ..self
            },
            TextEffect::Blur { radius } => RunStyle {
                blur: Some(radius_or_zero(self.blur).spec_larger(radius)),
                ..self
            },
            TextEffect::EdgeBlur { radius } => RunStyle {
                edge_blur: Some(radius_or_zero(self.edge_blur).spec_larger(radius)),
                ..self
            },
            TextEffect::Karaoke { progress, style, secondary } => RunStyle {
                karaoke: Some(
                    Karaoke { progress: progress.spec_clamped_to_unit(), style, secondary },
                ),
                ..self
            },
            TextEffect::Rotation { x, y, z, origin } => RunStyle {
                rotation: Some(Rotation { x, y, z, origin }),
                ..self
            },
            TextEffect::Shear { x, y } => {
                let before = shear_or_zero(self.shear);
                RunStyle {
                    shear: Some((sum(&before.0, &number(x)), sum(&before.1, &number(y)))),
                    ..self
                }
            },
            TextEffect::Scale { x, .. } => RunStyle { scale: Some(x), ..self },
            TextEffect::Clip { x1, y1, x2, y2, inverse } => RunStyle {
                clip: Some(ClipEdges { x1, y1, x2, y2, inverse }),
                ..self
            },
            TextEffect::VectorClip { inverse, .. } => RunStyle {
                vector_clip: Some((index as usize, inverse)),
                ..self
            },
            TextEffect::OpaqueBox { color, padding } => RunStyle {
                opaque_box: Some((color, padding)),
                ..self
            },
        }
    }

    fn absorb(&mut self, effect: &TextEffect, index: usize)
        ensures
            *final(self) == old(self).with(*effect, index as int),
    {
        match effect {
            TextEffect::Bold => {
                self.weight = FontWeight::Bold;
            },
            TextEffect::Italic => {
                self.style = FontStyle::Italic;
            },
            TextEffect::Underline => {
                self.decoration.underline = true;
            },
            TextEffect::Strikethrough => {
                self.decoration.strikethrough = true;
            },
            TextEffect::Outline { color, width_x, width_y } => {
                self.outline = Some((*color, width_x.larger(*width_y)));
            },
            TextEffect::Shadow { color, x_offset, y_offset } => {
                self.shadow = Some((*color, *x_offset, *y_offset));
            },
            TextEffect::Blur { radius } => {
                self.blur = Some(strongest(self.blur, *radius));
            },
            TextEffect::EdgeBlur { radius } => {
                self.edge_blur = Some(strongest(self.edge_blur, *radius));
            },
            TextEffect::Karaoke { progress, style, secondary } => {
                self.karaoke = Some(
                    Karaoke {
                        progress: progress.clamped_to_unit(),
                        style: *style,
                        secondary: *secondary,
                    },
                );
            },
            TextEffect::Rotation { x, y, z, origin } => {
                self.rotation = Some(Rotation { x: *x, y: *y, z: *z, origin: *origin });
            },
            TextEffect::Shear { x, y } => {
                let (before_x, before_y) = self.shear_so_far();
                self.shear = Some((sum(&before_x, &number(*x)), sum(&before_y, &number(*y))));
            },
            TextEffect::Scale { x, .. } => {
                self.scale = Some(*x);
            },
            TextEffect::Clip { x1, y1, x2, y2, inverse } => {
                self.clip = Some(
                    ClipEdges { x1: *x1, y1: *y1, x2: *x2, y2: *y2, inverse: *inverse },
                );
            },
            TextEffect::VectorClip { inverse, .. } => {
                self.vector_clip = Some((index, *inverse));
            },
            TextEffect::OpaqueBox { color, padding } => {
                self.opaque_box = Some((*color, *padding));
            },
        }
    }

    fn shear_so_far(&self) -> (shear: (Expr, Expr))
        ensures
            shear == shear_or_zero(self.shear),
    {
        match &self.shear {
            Some(s) => (s.0.clone(), s.1.clone()),
            None => (constant(ZERO), constant(ZERO)),
        }
    }

    /// What a list of effects amounts to: they are taken up one by one, in
    /// order.
    pub fn of(effects: &Effects) -> (style: RunStyle)
        ensures
            style == run_style(effects@),
    {
        let list = effects.as_slice();
        let mut style = RunStyle::plain();
        let mut i: usize = 0;
        while i < list.len()
            invariant
                list@ == effects@,
                i <= list@.len(),
                style == run_style(list@.take(i as int)),
            decreases list.len() - i,
        {
            style.absorb(&list[i], i);
            proof {
                let next = list@.take(i + 1);
                assert(next.drop_last() =~= list@.take(i as int));
                assert(next.last() == list@[i as int]);
            }
            i = i + 1;
        }
        assert(list@.take(i as int) =~= list@);
        style
    }
}

fn strongest(so_far: Option<Single>, radius: Single) -> (r: Single)
    ensures
        r == radius_or_zero(so_far).spec_larger(radius),
{
    match so_far {
        Some(before) => before.larger(radius),
        None => Single::from_bits(ZERO).larger(radius),
    }
}

/// What a list of effects amounts to.
pub open spec fn run_style(effects: Seq<TextEffect>) -> RunStyle
    decreases effects.len(),
{
    if effects.len() == 0 {
        RunStyle::spec_plain()
    } else {
        run_style(effects.drop_last()).with(effects.last(), effects.len() - 1)
    }
}

/// Width and height of a run: as measured, or guessed from the glyph count.
pub open spec fn text_size(data: TextData) -> (Expr, Expr) {
    match data.measured {
        Some(m) => (m.spaced_width_formula(data.spacing, data.text@.len()), number(m.height)),
        None => {
            let glyphs = count(
                if data.text@.len() == 0 {
                    1
                } else {
                    data.text@.len() as u64
                },
            );
            (
                at_least(
                    &sum(
                        &product(
                            &product(&glyphs, &number(data.font_size)),
                            &constant(ASSUMED_ADVANCE),
                        ),
                        &product(&number(data.spacing), &glyphs),
                    ),
                    ONE,
                ),
                at_least(&product(&number(data.font_size), &constant(ASSUMED_LINE)), ONE),
            )
        },
    }
}

/// The rectangle of a run: its position and its size, at least one pixel each
/// way.
pub open spec fn run_rect(data: TextData) -> Rect {
    Rect {
        x: number(data.x),
        y: number(data.y),
        w: at_least(&text_size(data).0, ONE),
        h: at_least(&text_size(data).1, ONE),
    }
}

/// Width and height of a run of text.
pub fn run_size(data: &TextData) -> (size: (Expr, Expr))
    ensures
        size == text_size(*data),
{
    let chars: usize = data.text.as_str().unicode_len();
    match &data.measured {
        Some(m) => (m.spaced_width(data.spacing, chars), number(m.height)),
        None => {
            let glyphs = count(
                if chars == 0 {
                    1
                } else {
                    chars as u64
                },
            );
            let advance = product(
                &product(&glyphs, &number(data.font_size)),
                &constant(ASSUMED_ADVANCE),
            );
            let w = at_least(&sum(&advance, &product(&number(data.spacing), &glyphs)), ONE);
            let h = at_least(&product(&number(data.font_size), &constant(ASSUMED_LINE)), ONE);
            (w, h)
        },
    }
}

/// The rectangle that a run of text takes up.
pub fn text_rect(data: &TextData) -> (rect: Rect)
    ensures
        rect == run_rect(*data),
{
    let (w, h) = run_size(data);
    Rect {
        x: number(data.x),
        y: number(data.y),
        w: at_least(&w, ONE),
        h: at_least(&h, ONE),
    }
}

/// Whether a rotation leaves the screen plane.
pub open spec fn tilts(rotation: Option<Rotation>) -> bool {
    rotation matches Some(r) && (r.x.nonzero() || r.y.nonzero())
}

/// The pivot of a tilted run in pixels: the given centre, or the centre of
/// the run.
pub open spec fn tilt_pivot(origin: Option<(Single, Single)>, rect: Rect) -> (Expr, Expr) {
    match origin {
        Some(o) => (number(o.0), number(o.1)),
        None => (
            sum(&rect.x, &product(&rect.w, &constant(HALF))),
            sum(&rect.y, &product(&rect.h, &constant(HALF))),
        ),
    }
}

/// The pivot of a flat rotation as a fraction of the rectangle. It is not held
/// to the rectangle: a distant centre keeps its true position.
pub open spec fn flat_pivot(origin: Option<(Single, Single)>, rect: Rect) -> (Expr, Expr) {
    match origin {
        Some(o) => (
            quotient(&difference(&number(o.0), &rect.x), &at_least(&rect.w, ONE)),
            quotient(&difference(&number(o.1), &rect.y), &at_least(&rect.h, ONE)),
        ),
        None => (constant(HALF), constant(HALF)),
    }
}

/// A percentage as a factor.
#[verifier::allow_in_spec]
pub fn percent(p: Single) -> Expr
    returns
        quotient(&number(p), &constant(HUNDRED)),
{
    quotient(&number(p), &constant(HUNDRED))
}

/// The one transform of a run. A tilted run gets the projective rotation, with
/// shear and scale folded into it; a run that is only turned in its plane,
/// scaled or sheared gets the parts; any other run gets none.
pub open spec fn run_transform(style: RunStyle, rect: Rect) -> Option<Arc<Transform>> {
    let shear = shear_or_zero(style.shear);
    if tilts(style.rotation) {
        let r = style.rotation->0;
        let fscx = match style.scale {
            Some(p) => product(&percent(p), &constant(HUNDRED)),
            None => constant(HUNDRED),
        };
        let pivot = tilt_pivot(r.origin, rect);
        let rows = rotation_rows(
            number(r.x),
            number(r.y),
            number(r.z),
            shear.0,
            shear.1,
            quotient(&fscx, &constant(HUNDRED)),
            pivot.0,
            pivot.1,
        );
        Some(Arc::new(Transform::Projective { row_x: rows.0, row_y: rows.1, row_w: rows.2 }))
    } else if style.rotation is Some || style.scale is Some || style.shear is Some {
        let (angle, origin) = match style.rotation {
            Some(r) => (number(r.z), r.origin),
            None => (constant(ZERO), None),
        };
        let pivot = flat_pivot(origin, rect);
        Some(
            Arc::new(
                Transform::Parts {
                    scale_x: match style.scale {
                        Some(p) => percent(p),
                        None => constant(ONE),
                    },
                    scale_y: constant(ONE),
                    rotate: negated(&Arc::new(Formula::Radians(angle))),
                    shear_x: shear.0,
                    shear_y: shear.1,
                    origin_x: pivot.0,
                    origin_y: pivot.1,
                },
            ),
        )
    } else {
        None
    }
}

impl RunStyle {
    fn is_tilted(&self) -> (r: bool)
        ensures
            r == tilts(self.rotation),
    {
        match &self.rotation {
            Some(r) => r.x.is_nonzero() || r.y.is_nonzero(),
            None => false,
        }
    }

    /// The transform to push around a run with this style at `rect`.
    pub fn transform(&self, rect: &Rect) -> (transform: Option<Arc<Transform>>)
        ensures
            transform == run_transform(*self, *rect),
    {
        let (shear_x, shear_y) = self.shear_so_far();
        if self.is_tilted() {
            let r = match &self.rotation {
                Some(r) => r,
                None => {
                    return None;
                },
            };
            let fscx = match self.scale {
                Some(p) => product(&percent(p), &constant(HUNDRED)),
                None => constant(HUNDRED),
            };
            let (px, py) = match r.origin {
                Some(o) => (number(o.0), number(o.1)),
                None => (
                    sum(&rect.x, &product(&rect.w, &constant(HALF))),
                    sum(&rect.y, &product(&rect.h, &constant(HALF))),
                ),
            };
            let (row_x, row_y, row_w) = libass_rotation_rows(
                &number(r.x),
                &number(r.y),
                &number(r.z),
                &shear_x,
                &shear_y,
                &quotient(&fscx, &constant(HUNDRED)),
                &px,
                &py,
            );
            Some(Arc::new(Transform::Projective { row_x, row_y, row_w }))
        } else if self.rotation.is_some() || self.scale.is_some() || self.shear.is_some() {
            let (angle, origin) = match &self.rotation {
                Some(r) => (number(r.z), r.origin),
                None => (constant(ZERO), None),
            };
            let (origin_x, origin_y) = match origin {
                Some(o) => (
                    quotient(&difference(&number(o.0), &rect.x), &at_least(&rect.w, ONE)),
                    quotient(&difference(&number(o.1), &rect.y), &at_least(&rect.h, ONE)),
                ),
                None => (constant(HALF), constant(HALF)),
            };
            let scale_x = match self.scale {
                Some(p) => percent(p),
                None => constant(ONE),
            };
            Some(
                Arc::new(
                    Transform::Parts {
                        scale_x,
                        scale_y: constant(ONE),
                        rotate: negated(&Arc::new(Formula::Radians(angle))),
                        shear_x,
                        shear_y,
                        origin_x,
                        origin_y,
                    },
                ),
            )
        } else {
            None
        }
    }
}

} // verus!
