//! What several effects of one kind on a run come to, in the nodes that draw
//! it.

use crate::effects::TextEffect;
use crate::layers::TextData;
use crate::mesh::Triangles;
use crate::run::{radius_or_zero, run_rect, run_style, run_transform, RunStyle};
use crate::run_laws::{blur_of, law_strongest_blur_counts, radius_of, same_kind};
use crate::single::{Single, ZERO};
use crate::text::{blurred_emission, styled_emission, text_emission, TextPass};
use std::sync::Arc;
use vstd::prelude::*;

verus! {

/// Whether effects of the kind of `effect` combine into one, instead of the
/// last of them standing for all.
pub open spec fn combines(effect: TextEffect) -> bool {
    effect is Blur || effect is EdgeBlur || effect is Shear
}

/// Whether a style clips along a drawing, and what that clip keeps, whichever
/// effect holds the drawing.
pub open spec fn clip_sense(style: RunStyle) -> Option<bool> {
    match style.vector_clip {
        Some((_, inverse)) => Some(inverse),
        None => None,
    }
}

/// Whether two styles differ in nothing but what effects of the kind of
/// `effect` add.
pub open spec fn agree_but(s: RunStyle, t: RunStyle, effect: TextEffect) -> bool {
    &&& effect is Bold || s.weight == t.weight
    &&& effect is Italic || s.style == t.style
    &&& effect is Underline || s.decoration.underline == t.decoration.underline
    &&& effect is Strikethrough || s.decoration.strikethrough == t.decoration.strikethrough
    &&& effect is Outline || s.outline == t.outline
    &&& effect is Shadow || s.shadow == t.shadow
    &&& effect is Blur || s.blur == t.blur
    &&& effect is EdgeBlur || s.edge_blur == t.edge_blur
    &&& effect is Karaoke || s.karaoke == t.karaoke
    &&& effect is Rotation || s.rotation == t.rotation
    &&& effect is Shear || s.shear == t.shear
    &&& effect is Scale || s.scale == t.scale
    &&& effect is Clip || s.clip == t.clip
    &&& effect is VectorClip || clip_sense(s) == clip_sense(t)
    &&& effect is OpaqueBox || s.opaque_box == t.opaque_box
}

/// Whether two styles draw alike: they differ in nothing but which effect
/// holds the drawing to clip along.
pub open spec fn agree(s: RunStyle, t: RunStyle) -> bool {
    t == (RunStyle { vector_clip: t.vector_clip, ..s }) && clip_sense(s) == clip_sense(t)
}

proof fn lemma_with_keeps_other_kinds(
    s: RunStyle,
    t: RunStyle,
    kind: TextEffect,
    effect: TextEffect,
    i: int,
    j: int,
)
    requires
        agree_but(s, t, kind),
    ensures
        agree_but(s.with(effect, i), t.with(effect, j), kind),
{
}

proof fn lemma_with_replaces_its_kind(
    s: RunStyle,
    t: RunStyle,
    kind: TextEffect,
    effect: TextEffect,
    i: int,
    j: int,
)
    requires
        agree_but(s, t, kind),
        same_kind(kind, effect),
        !combines(effect),
    ensures
        agree(s.with(effect, i), t.with(effect, j)),
{
}

/// Without an effect a style differs in nothing but the kind of that effect.
proof fn lemma_removed_effect(effects: Seq<TextEffect>, i: int)
    requires
        0 <= i < effects.len(),
    ensures
        agree_but(run_style(effects), run_style(effects.remove(i)), effects[i]),
    decreases effects.len(),
{
    let n = effects.len() - 1;
    let before = effects.drop_last();
    let rest = effects.remove(i);
    if i == n {
        assert(rest =~= before);
    } else {
        lemma_removed_effect(before, i);
        assert(rest.drop_last() =~= before.remove(i));
        assert(rest.last() == effects.last());
        assert(before[i] == effects[i]);
        lemma_with_keeps_other_kinds(
            run_style(before),
            run_style(before.remove(i)),
            effects[i],
            effects.last(),
            n,
            n - 1,
        );
    }
}

proof fn lemma_replaced_effect(effects: Seq<TextEffect>, i: int, j: int)
    requires
        0 <= i < j < effects.len(),
        same_kind(effects[i], effects[j]),
        !combines(effects[i]),
    ensures
        agree(run_style(effects), run_style(effects.remove(i))),
    decreases effects.len(),
{
    let n = effects.len() - 1;
    let before = effects.drop_last();
    let rest = effects.remove(i);
    assert(rest.drop_last() =~= before.remove(i));
    assert(rest.last() == effects.last());
    assert(before[i] == effects[i]);
    if j == n {
        lemma_removed_effect(before, i);
        lemma_with_replaces_its_kind(
            run_style(before),
            run_style(before.remove(i)),
            effects[i],
            effects[j],
            n,
            n - 1,
        );
    } else {
        assert(before[j] == effects[j]);
        lemma_replaced_effect(before, i, j);
    }
}

/// Whether two runs are the same but for their effects.
pub open spec fn same_run(a: TextData, b: TextData) -> bool {
    b == (TextData { effects: b.effects, ..a })
}

proof fn lemma_style_decides(
    a: TextData,
    b: TextData,
    s: RunStyle,
    t: RunStyle,
    mask: Option<Arc<Triangles>>,
    id: u32,
)
    requires
        same_run(a, b),
        agree(s, t),
    ensures
        styled_emission(a, s, mask, id) == styled_emission(b, t, mask, id),
{
    let rect = run_rect(a);
    assert(run_rect(b) == rect);
    let transform = run_transform(s, rect);
    assert(run_transform(t, rect) == transform);
    let base = TextPass::spec_of(&a, s, rect);
    assert(TextPass::spec_of(&b, t, rect) == base);
    assert(blurred_emission(base, s, transform, id) == blurred_emission(base, t, transform, id));
}

/// Of two effects of a kind that does not combine, the earlier one adds
/// nothing: without it the run is drawn by the very same nodes. That holds of
/// outlines, shadows, karaoke, rotations, scales, clips of both sorts, boxes,
/// faces and lines.
pub proof fn law_earlier_of_a_kind_is_not_drawn(
    data: TextData,
    rest: TextData,
    i: int,
    j: int,
    mask: Option<Arc<Triangles>>,
    id: u32,
)
    requires
        0 <= i < j < data.effects@.len(),
        same_kind(data.effects@[i], data.effects@[j]),
        !combines(data.effects@[i]),
        same_run(data, rest),
        rest.effects@ == data.effects@.remove(i),
    ensures
        text_emission(data, mask, id) == text_emission(rest, mask, id),
{
    lemma_replaced_effect(data.effects@, i, j);
    lemma_style_decides(
        data,
        rest,
        run_style(data.effects@),
        run_style(rest.effects@),
        mask,
        id,
    );
}

/// `effects` with the one at `j` replaced by `merged`, and the one at `i`
/// before it gone.
pub open spec fn merged_at(
    effects: Seq<TextEffect>,
    i: int,
    j: int,
    merged: TextEffect,
) -> Seq<TextEffect> {
    effects.remove(i).update(j - 1, merged)
}

pub proof fn lemma_merged_effect(effects: Seq<TextEffect>, i: int, j: int, merged: TextEffect)
    requires
        0 <= i < j < effects.len(),
        same_kind(effects[i], effects[j]),
        same_kind(effects[i], merged),
    ensures
        agree_but(run_style(effects), run_style(merged_at(effects, i, j, merged)), merged),
{
    let rest = effects.remove(i);
    let after = merged_at(effects, i, j, merged);
    assert(rest[j - 1] == effects[j]);
    lemma_removed_effect(effects, i);
    lemma_removed_effect(rest, j - 1);
    lemma_removed_effect(after, j - 1);
    assert(after.remove(j - 1) =~= rest.remove(j - 1));
}

/// The one blur that two blurs of a kind come to: the one of the larger radius.
pub open spec fn stronger(a: TextEffect, b: TextEffect) -> TextEffect {
    match (a, b) {
        (TextEffect::Blur { radius: r }, TextEffect::Blur { radius: s }) => TextEffect::Blur {
            radius: r.spec_larger(s),
        },
        (TextEffect::EdgeBlur { radius: r }, TextEffect::EdgeBlur { radius: s }) => {
            TextEffect::EdgeBlur { radius: r.spec_larger(s) }
        },
        _ => b,
    }
}

/// Whether one of `effects` blurs at least as strongly as `radius`.
pub open spec fn reaches(effects: Seq<TextEffect>, edge: bool, radius: Single) -> bool {
    exists|l: int|
        0 <= l < effects.len() && (radius_of(#[trigger] effects[l], edge) matches Some(q)
            && !q.nan() && radius.rank() <= q.rank())
}

/// Whether every blur of `a` that is a number is matched by one of `b`.
pub open spec fn blurs_reached(a: Seq<TextEffect>, b: Seq<TextEffect>, edge: bool) -> bool {
    forall|k: int| #![trigger a[k]]
        0 <= k < a.len() ==> (radius_of(a[k], edge) matches Some(r) ==> r.nan() || reaches(
            b,
            edge,
            r,
        ))
}

proof fn lemma_reached_blur(a: Seq<TextEffect>, b: Seq<TextEffect>, edge: bool)
    requires
        blurs_reached(a, b, edge),
    ensures
        blur_rank(a, edge) <= blur_rank(b, edge),
{
    law_strongest_blur_counts(a, edge);
    law_strongest_blur_counts(b, edge);
    let blur = radius_or_zero(blur_of(run_style(a), edge));
    if blur != (Single { bits: ZERO }) {
        let k = choose|k: int|
            0 <= k < a.len() && radius_of(#[trigger] a[k], edge) == Some(blur);
        assert(reaches(b, edge, blur));
    }
}

proof fn lemma_merged_reaches(effects: Seq<TextEffect>, i: int, j: int, edge: bool)
    requires
        0 <= i < j < effects.len(),
        same_kind(effects[i], effects[j]),
        radius_of(effects[i], edge) is Some,
    ensures
        blurs_reached(
            effects,
            merged_at(effects, i, j, stronger(effects[i], effects[j])),
            edge,
        ),
{
    let merged = stronger(effects[i], effects[j]);
    let after = merged_at(effects, i, j, merged);
    let (r, s) = (radius_of(effects[i], edge)->0, radius_of(effects[j], edge)->0);
    assert(radius_of(merged, edge) == Some(r.spec_larger(s)));
    assert forall|k: int| #![trigger effects[k]] 0 <= k < effects.len() implies (radius_of(
        effects[k],
        edge,
    ) matches Some(q) ==> q.nan() || reaches(after, edge, q)) by {
        let l = if k == i || k == j {
            j - 1
        } else if k < i {
            k
        } else {
            k - 1
        };
        if k == i || k == j {
            assert(after[l] == merged);
        } else {
            assert(after[l] == effects[k]);
        }
    }
}

proof fn lemma_merged_is_reached(effects: Seq<TextEffect>, i: int, j: int, edge: bool)
    requires
        0 <= i < j < effects.len(),
        same_kind(effects[i], effects[j]),
        radius_of(effects[i], edge) is Some,
    ensures
        blurs_reached(
            merged_at(effects, i, j, stronger(effects[i], effects[j])),
            effects,
            edge,
        ),
{
    let merged = stronger(effects[i], effects[j]);
    let after = merged_at(effects, i, j, merged);
    let (r, s) = (radius_of(effects[i], edge)->0, radius_of(effects[j], edge)->0);
    assert(radius_of(merged, edge) == Some(r.spec_larger(s)));
    assert forall|k: int| #![trigger after[k]] 0 <= k < after.len() implies (radius_of(
        after[k],
        edge,
    ) matches Some(q) ==> q.nan() || reaches(effects, edge, q)) by {
        if k == j - 1 {
            assert(after[k] == merged);
            assert(radius_of(effects[i], edge) == Some(r));
            assert(radius_of(effects[j], edge) == Some(s));
        } else {
            let l = if k < i {
                k
            } else {
                k + 1
            };
            assert(after[k] == effects[l]);
        }
    }
}

/// How strongly `effects` blur.
pub open spec fn blur_rank(effects: Seq<TextEffect>, edge: bool) -> int {
    radius_or_zero(blur_of(run_style(effects), edge)).rank()
}

proof fn lemma_blur_by_rank(effects: Seq<TextEffect>, edge: bool, k: int)
    requires
        0 <= k < effects.len(),
        radius_of(effects[k], edge) is Some,
    ensures
        blur_of(run_style(effects), edge) == Some(
            Single { bits: blur_rank(effects, edge) as u32 },
        ),
{
    law_strongest_blur_counts(effects, edge);
}

proof fn lemma_agree_in_all(s: RunStyle, t: RunStyle, kind: TextEffect)
    requires
        agree_but(s, t, kind),
        kind is Blur && s.blur == t.blur || kind is EdgeBlur && s.edge_blur == t.edge_blur,
    ensures
        agree(s, t),
{
}

proof fn lemma_merged_blur(effects: Seq<TextEffect>, i: int, j: int)
    requires
        0 <= i < j < effects.len(),
        same_kind(effects[i], effects[j]),
        effects[i] is Blur || effects[i] is EdgeBlur,
    ensures
        agree(
            run_style(effects),
            run_style(merged_at(effects, i, j, stronger(effects[i], effects[j]))),
        ),
{
    let merged = stronger(effects[i], effects[j]);
    let edge = effects[i] is EdgeBlur;
    let after = merged_at(effects, i, j, merged);
    assert(after[j - 1] == merged);
    lemma_merged_effect(effects, i, j, merged);
    assert(blur_rank(effects, edge) <= blur_rank(after, edge)) by {
        lemma_merged_reaches(effects, i, j, edge);
        lemma_reached_blur(effects, after, edge);
    }
    assert(blur_rank(after, edge) <= blur_rank(effects, edge)) by {
        lemma_merged_is_reached(effects, i, j, edge);
        lemma_reached_blur(after, effects, edge);
    }
    lemma_blur_by_rank(effects, edge, i);
    lemma_blur_by_rank(after, edge, j - 1);
    lemma_agree_in_all(run_style(effects), run_style(after), merged);
}

/// Two blurs of a kind are drawn as the stronger of them alone: with the earlier
/// one gone and the later one of the larger radius, the run is drawn by the very
/// same nodes.
pub proof fn law_blurs_merge(
    data: TextData,
    rest: TextData,
    i: int,
    j: int,
    mask: Option<Arc<Triangles>>,
    id: u32,
)
    requires
        0 <= i < j < data.effects@.len(),
        same_kind(data.effects@[i], data.effects@[j]),
        data.effects@[i] is Blur || data.effects@[i] is EdgeBlur,
        same_run(data, rest),
        rest.effects@ == merged_at(
            data.effects@,
            i,
            j,
            stronger(data.effects@[i], data.effects@[j]),
        ),
    ensures
        text_emission(data, mask, id) == text_emission(rest, mask, id),
{
    lemma_merged_blur(data.effects@, i, j);
    lemma_style_decides(
        data,
        rest,
        run_style(data.effects@),
        run_style(rest.effects@),
        mask,
        id,
    );
}

} // verus!
