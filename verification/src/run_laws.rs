//! What holds of the effects of every text run.

use crate::effects::TextEffect;
use crate::formula::{at_least, constant, real_max, Formula, Model};
use crate::geometry::{Rect, Transform};
use crate::layers::{IntermediateLayer, LayerBounds, TextData};
use crate::run::{
    flat_pivot, radius_or_zero, run_rect, run_style, run_transform, shear_or_zero, text_size, tilts,
    ClipEdges, Karaoke, Rotation, RunStyle,
};
use crate::single::{lemma_one_and_two, Single, ONE, SIGN, ZERO};
use vstd::prelude::*;

verus! {

/// Whether two effects are of one kind, whatever their measures.
pub open spec fn same_kind(a: TextEffect, b: TextEffect) -> bool {
    match a {
        TextEffect::Bold => b is Bold,
        TextEffect::Italic => b is Italic,
        TextEffect::Underline => b is Underline,
        TextEffect::Strikethrough => b is Strikethrough,
        TextEffect::Outline { .. } => b is Outline,
        TextEffect::Shadow { .. } => b is Shadow,
        TextEffect::Blur { .. } => b is Blur,
        TextEffect::EdgeBlur { .. } => b is EdgeBlur,
        TextEffect::Karaoke { .. } => b is Karaoke,
        TextEffect::Rotation { .. } => b is Rotation,
        TextEffect::Shear { .. } => b is Shear,
        TextEffect::Scale { .. } => b is Scale,
        TextEffect::Clip { .. } => b is Clip,
        TextEffect::VectorClip { .. } => b is VectorClip,
        TextEffect::OpaqueBox { .. } => b is OpaqueBox,
    }
}

/// Whether `style` shows `effect`, which stands at `index`, with its own
/// measures. Faces, lines, blurs and shears are not asked here: they combine.
pub open spec fn shows(style: RunStyle, effect: TextEffect, index: int) -> bool {
    match effect {
        TextEffect::Outline { color, width_x, width_y } => style.outline == Some(
            (color, width_x.spec_larger(width_y)),
        ),
        TextEffect::Shadow { color, x_offset, y_offset } => style.shadow == Some(
            (color, x_offset, y_offset),
        ),
        TextEffect::Karaoke { progress, style: kind, secondary } => style.karaoke == Some(
            Karaoke { progress: progress.spec_clamped_to_unit(), style: kind, secondary },
        ),
        TextEffect::Rotation { x, y, z, origin } => style.rotation == Some(
            Rotation { x, y, z, origin },
        ),
        TextEffect::Scale { x, .. } => style.scale == Some(x),
        TextEffect::Clip { x1, y1, x2, y2, inverse } => style.clip == Some(
            ClipEdges { x1, y1, x2, y2, inverse },
        ),
        TextEffect::VectorClip { inverse, .. } => style.vector_clip == Some(
            (index as usize, inverse),
        ),
        TextEffect::OpaqueBox { color, padding } => style.opaque_box == Some((color, padding)),
        _ => true,
    }
}

/// Of several effects of a kind that does not combine, the last one shows,
/// whatever other effects stand between and after them.
pub proof fn law_last_of_a_kind_shows(effects: Seq<TextEffect>, i: int)
    requires
        0 <= i < effects.len(),
        forall|j: int| i < j < effects.len() ==> !same_kind(effects[i], #[trigger] effects[j]),
    ensures
        shows(run_style(effects), effects[i], i),
    decreases effects.len(),
{
    let before = effects.drop_last();
    if i < before.len() {
        assert(before[i] == effects[i]);
        assert forall|j: int| i < j < before.len() implies !same_kind(
            before[i],
            #[trigger] before[j],
        ) by {
            assert(before[j] == effects[j]);
        }
        law_last_of_a_kind_shows(before, i);
        assert(!same_kind(effects[i], effects[effects.len() - 1]));
    }
}

/// Faces and lines are on exactly where some effect switches them on, wherever
/// it stands.
pub proof fn law_faces_are_switched_on(effects: Seq<TextEffect>)
    ensures
        run_style(effects).weight is Bold <==> exists|i: int|
            0 <= i < effects.len() && #[trigger] effects[i] is Bold,
        run_style(effects).style is Italic <==> exists|i: int|
            0 <= i < effects.len() && #[trigger] effects[i] is Italic,
        run_style(effects).decoration.underline <==> exists|i: int|
            0 <= i < effects.len() && #[trigger] effects[i] is Underline,
        run_style(effects).decoration.strikethrough <==> exists|i: int|
            0 <= i < effects.len() && #[trigger] effects[i] is Strikethrough,
    decreases effects.len(),
{
    if effects.len() > 0 {
        let before = effects.drop_last();
        law_faces_are_switched_on(before);
        let last = effects[effects.len() - 1];
        assert(forall|i: int| 0 <= i < before.len() ==> before[i] == effects[i]);
        assert forall|i: int| 0 <= i < effects.len() implies (i < before.len() && before[i]
            == effects[i]) || #[trigger] effects[i] == last by {}
    }
}

/// The radius that an effect blurs the run with, or its edges.
pub open spec fn radius_of(effect: TextEffect, edge: bool) -> Option<Single> {
    match effect {
        TextEffect::Blur { radius } => if edge {
            None
        } else {
            Some(radius)
        },
        TextEffect::EdgeBlur { radius } => if edge {
            Some(radius)
        } else {
            None
        },
        _ => None,
    }
}

/// The blur of a style, of the run or of its edges.
pub open spec fn blur_of(style: RunStyle, edge: bool) -> Option<Single> {
    if edge {
        style.edge_blur
    } else {
        style.blur
    }
}

/// Blurs of one kind do not add up: the radius is the largest of them, or zero
/// where all of them are below it; and the two kinds keep apart. A radius that
/// is not a number plays no part.
pub proof fn law_strongest_blur_counts(effects: Seq<TextEffect>, edge: bool)
    ensures
        blur_of(run_style(effects), edge) is Some <==> exists|i: int|
            0 <= i < effects.len() && radius_of(#[trigger] effects[i], edge) is Some,
        forall|i: int| #![trigger effects[i]]
            0 <= i < effects.len() ==> (radius_of(effects[i], edge) matches Some(radius) ==> {
                ||| radius.nan()
                ||| radius.rank() <= radius_or_zero(blur_of(run_style(effects), edge)).rank()
            }),
        ({
            let blur = radius_or_zero(blur_of(run_style(effects), edge));
            &&& !blur.nan()
            &&& blur.bits < SIGN
            &&& blur == (Single { bits: ZERO }) || exists|i: int|
                0 <= i < effects.len() && radius_of(#[trigger] effects[i], edge) == Some(blur)
        }),
    decreases effects.len(),
{
    if effects.len() > 0 {
        let before = effects.drop_last();
        let n = effects.len() - 1;
        law_strongest_blur_counts(before, edge);
        assert(forall|i: int| 0 <= i < before.len() ==> before[i] == effects[i]);
        let (was, now) = (
            radius_or_zero(blur_of(run_style(before), edge)),
            radius_or_zero(blur_of(run_style(effects), edge)),
        );
        assert(radius_of(effects[n], edge) is None ==> now == was);
        if blur_of(run_style(before), edge) is Some {
            let k = choose|i: int|
                0 <= i < before.len() && radius_of(#[trigger] before[i], edge) is Some;
            assert(radius_of(effects[k], edge) is Some);
        }
        if blur_of(run_style(effects), edge) is Some && radius_of(effects[n], edge) is None {
            assert(blur_of(run_style(before), edge) is Some);
        }
        if now == was && was != (Single { bits: ZERO }) {
            let k = choose|i: int|
                0 <= i < before.len() && radius_of(#[trigger] before[i], edge) == Some(was);
            assert(radius_of(effects[k], edge) == Some(now));
        }
        assert forall|i: int| #![trigger effects[i]] 0 <= i < effects.len() implies (radius_of(
            effects[i],
            edge,
        ) matches Some(radius) ==> {
            ||| radius.nan()
            ||| radius.rank() <= now.rank()
        }) by {
            if i < n {
                assert(before[i] == effects[i]);
            }
        }
    }
}

/// The shear factors of all shear effects, added up.
pub open spec fn shear_total(effects: Seq<TextEffect>) -> (real, real)
    decreases effects.len(),
{
    if effects.len() == 0 {
        (0real, 0real)
    } else {
        let before = shear_total(effects.drop_last());
        match effects.last() {
            TextEffect::Shear { x, y } => (before.0 + x.value(), before.1 + y.value()),
            _ => before,
        }
    }
}

/// Shears accumulate: the shear of a run is the sum of all of its shears.
pub proof fn law_shears_add_up(m: Model, effects: Seq<TextEffect>)
    ensures
        ({
            let shear = shear_or_zero(run_style(effects).shear);
            &&& shear.0.value(m) == shear_total(effects).0
            &&& shear.1.value(m) == shear_total(effects).1
        }),
    decreases effects.len(),
{
    crate::single::law_positive_is_above_zero(Single { bits: ZERO });
    if effects.len() > 0 {
        law_shears_add_up(m, effects.drop_last());
        reveal_with_fuel(Formula::value, 2);
    }
}

/// A run takes up at least one pixel each way.
pub proof fn law_run_has_a_pixel(m: Model, data: TextData)
    ensures
        run_rect(data).w.value(m) >= 1real,
        run_rect(data).h.value(m) >= 1real,
{
    lemma_one_and_two();
    reveal_with_fuel(Formula::value, 2);
}

/// The pivot of a flat rotation keeps its place: taken as a fraction of the
/// rectangle of the run, it is the given centre, however far away that is.
pub proof fn law_flat_pivot_keeps_its_place(
    m: Model,
    data: TextData,
    origin: (Single, Single),
)
    ensures
        ({
            let rect = run_rect(data);
            let pivot = flat_pivot(Some(origin), rect);
            &&& rect.x.value(m) + rect.w.value(m) * pivot.0.value(m) == origin.0.value()
            &&& rect.y.value(m) + rect.h.value(m) * pivot.1.value(m) == origin.1.value()
        }),
{
    let rect = run_rect(data);
    let pivot = flat_pivot(Some(origin), rect);
    law_run_has_a_pixel(m, data);
    lemma_one_and_two();
    reveal_with_fuel(Formula::value, 4);
    lemma_fraction(origin.0.value() - rect.x.value(m), rect.w.value(m));
    lemma_fraction(origin.1.value() - rect.y.value(m), rect.h.value(m));
}

proof fn lemma_fraction(part: real, whole: real)
    requires
        whole >= 1real,
    ensures
        whole * (part / whole) == part,
{
    assert(whole * (part / whole) == part) by (nonlinear_arith)
        requires
            whole >= 1real,
    ;
}

/// A run gets the projective rotation exactly where it is tilted out of the
/// screen plane, and no transform at all exactly where it is not rotated,
/// scaled or sheared. It is never scaled vertically: that is part of the font
/// size.
pub proof fn law_transform_kinds(style: RunStyle, rect: Rect)
    ensures
        run_transform(style, rect) is None <==> style.rotation is None && style.scale is None
            && style.shear is None,
        run_transform(style, rect) matches Some(t) ==> (*t is Projective <==> tilts(
            style.rotation,
        )),
        run_transform(style, rect) matches Some(t) ==> !(*t is Translation),
        run_transform(style, rect) matches Some(t) ==> (*t matches Transform::Parts {
            scale_y,
            ..
        } ==> scale_y == constant(ONE)),
{
}

/// The box in which a measured run is drawn anew starts where the run stands
/// and never reaches beyond it; it is as large as the run wherever the measured
/// size is at least a pixel.
pub proof fn law_measured_box_is_the_run(m: Model, data: Box<TextData>)
    requires
        data.measured is Some,
    ensures
        ({
            let rect = run_rect(*data);
            let (w, h) = text_size(*data);
            match IntermediateLayer::Text(data).area() {
                LayerBounds::Computed { left, top, right, bottom } => {
                    let (x_end, y_end) = (
                        rect.x.value(m) + rect.w.value(m),
                        rect.y.value(m) + rect.h.value(m),
                    );
                    &&& left == rect.x
                    &&& top == rect.y
                    &&& right.value(m) <= x_end
                    &&& bottom.value(m) <= y_end
                    &&& w.value(m) >= 1real ==> right.value(m) == x_end
                    &&& h.value(m) >= 1real ==> bottom.value(m) == y_end
                },
                _ => false,
            }
        }),
{
    lemma_one_and_two();
    let (w, h) = text_size(*data);
    assert(at_least(&w, ONE).value(m) == real_max(w.value(m), 1real)) by {
        reveal_with_fuel(Formula::value, 2);
    }
    assert(at_least(&h, ONE).value(m) == real_max(h.value(m), 1real)) by {
        reveal_with_fuel(Formula::value, 2);
    }
}

/// The box in which a run without measured bounds is drawn anew is never
/// smaller than the run: it starts where the run stands, and reaches at least
/// as far.
pub proof fn law_guessed_box_covers_the_run(m: Model, data: Box<TextData>)
    requires
        data.measured is None,
    ensures
        ({
            let rect = run_rect(*data);
            match IntermediateLayer::Text(data).area() {
                LayerBounds::Computed { left, top, right, bottom } => {
                    &&& left == rect.x
                    &&& top == rect.y
                    &&& right.value(m) >= rect.x.value(m) + rect.w.value(m)
                    &&& bottom.value(m) >= rect.y.value(m) + rect.h.value(m)
                },
                _ => false,
            }
        }),
{
    lemma_one_and_two();
    let (w, h) = text_size(*data);
    assert(w.value(m) >= 1real && h.value(m) >= 1real) by {
        reveal_with_fuel(Formula::value, 2);
    }
    if let LayerBounds::Computed { right, bottom, .. } = IntermediateLayer::Text(data).area() {
        assert(right.value(m) >= data.x.value() + w.value(m)) by {
            reveal_with_fuel(Formula::value, 3);
        }
        assert(bottom.value(m) >= data.y.value() + h.value(m)) by {
            reveal_with_fuel(Formula::value, 3);
        }
    }
    assert(at_least(&w, ONE).value(m) == w.value(m)) by {
        reveal_with_fuel(Formula::value, 2);
    }
    assert(at_least(&h, ONE).value(m) == h.value(m)) by {
        reveal_with_fuel(Formula::value, 2);
    }
}

/// What no effect of a run asks for, its style has not: an outline, a shadow, a
/// blur, karaoke, a rotation, a shear, a scale, a clip or a box comes from an
/// effect of that kind and from nothing else.
pub proof fn law_nothing_shows_unasked(effects: Seq<TextEffect>)
    ensures
        ({
            let style = run_style(effects);
            &&& style.outline is Some <==> exists|i: int|
                0 <= i < effects.len() && #[trigger] effects[i] is Outline
            &&& style.shadow is Some <==> exists|i: int|
                0 <= i < effects.len() && #[trigger] effects[i] is Shadow
            &&& style.blur is Some <==> exists|i: int|
                0 <= i < effects.len() && #[trigger] effects[i] is Blur
            &&& style.edge_blur is Some <==> exists|i: int|
                0 <= i < effects.len() && #[trigger] effects[i] is EdgeBlur
            &&& style.karaoke is Some <==> exists|i: int|
                0 <= i < effects.len() && #[trigger] effects[i] is Karaoke
            &&& style.rotation is Some <==> exists|i: int|
                0 <= i < effects.len() && #[trigger] effects[i] is Rotation
            &&& style.shear is Some <==> exists|i: int|
                0 <= i < effects.len() && #[trigger] effects[i] is Shear
            &&& style.scale is Some <==> exists|i: int|
                0 <= i < effects.len() && #[trigger] effects[i] is Scale
            &&& style.clip is Some <==> exists|i: int|
                0 <= i < effects.len() && #[trigger] effects[i] is Clip
            &&& style.vector_clip is Some <==> exists|i: int|
                0 <= i < effects.len() && #[trigger] effects[i] is VectorClip
            &&& style.opaque_box is Some <==> exists|i: int|
                0 <= i < effects.len() && #[trigger] effects[i] is OpaqueBox
        }),
    decreases effects.len(),
{
    if effects.len() > 0 {
        let before = effects.drop_last();
        let n = effects.len() - 1;
        law_nothing_shows_unasked(before);
        assert(forall|i: int| 0 <= i < before.len() ==> #[trigger] before[i] == effects[i]);
        assert(effects[n] == effects.last());
        assert forall|i: int| 0 <= i < effects.len() implies (i < n && before[i] == effects[i])
            || #[trigger] effects[i] == effects.last() by {}
    }
}

} // verus!
