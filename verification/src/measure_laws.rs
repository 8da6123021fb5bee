//! What the measures of a layer come to, in exact arithmetic.

use crate::formula::{at_least, constant, count, larger, number, product, sum, Expr, Formula, Model};
use crate::layers::{
    IntermediateLayer, LayerBounds, MeasuredBounds, RasterData, TextData, VectorData,
    ASSUMED_TEXT_HEIGHT, ASSUMED_TEXT_WIDTH,
};
use crate::number_laws::law_constants;
use crate::region::Bounds;
use crate::run::{run_rect, text_size, ASSUMED_ADVANCE, ASSUMED_LINE};
use crate::single::{lemma_one_and_two, Single, ONE};
use vstd::prelude::*;

verus! {

/// The number nearest to `0.6` that a single holds.
pub open spec fn six_tenths() -> real {
    (Single { bits: 0x3f19_999a }).value()
}

/// The number nearest to `1.4` that a single holds.
pub open spec fn fourteen_tenths() -> real {
    (Single { bits: 0x3fb3_3333 }).value()
}

proof fn lemma_at_least_one(m: Model, a: Expr)
    ensures
        at_least(&a, ONE).value(m) >= 1real,
        at_least(&a, ONE).value(m) >= a.value(m),
        at_least(&a, ONE).value(m) == 1real || at_least(&a, ONE).value(m) == a.value(m),
{
    law_constants();
    reveal_with_fuel(Formula::value, 2);
}

/// Spacing stands between glyphs: with one glyph more the run is one spacing
/// wider, and a single glyph, or none, is as wide as it was shaped.
pub proof fn law_spacing_stands_between_glyphs(
    m: Model,
    bounds: MeasuredBounds,
    spacing: Single,
    glyphs: nat,
)
    requires
        glyphs < u64::MAX,
    ensures
        bounds.spaced_width_formula(spacing, 0).value(m) == bounds.width.value(),
        bounds.spaced_width_formula(spacing, 1).value(m) == bounds.width.value(),
        glyphs >= 1 ==> bounds.spaced_width_formula(spacing, glyphs + 1).value(m)
            == bounds.spaced_width_formula(spacing, glyphs).value(m) + spacing.value(),
{
    lemma_spaced(m, bounds, spacing, 0);
    lemma_spaced(m, bounds, spacing, 1);
    lemma_spaced(m, bounds, spacing, glyphs);
    lemma_spaced(m, bounds, spacing, glyphs + 1);
    let (s, k) = (spacing.value(), (glyphs - 1) as real);
    assert(s * (k + 1real) == s * k + s) by (nonlinear_arith);
    assert(s * 0real == 0real) by (nonlinear_arith);
}

proof fn lemma_spaced(m: Model, bounds: MeasuredBounds, spacing: Single, glyphs: nat)
    requires
        glyphs <= u64::MAX,
    ensures
        bounds.spaced_width_formula(spacing, glyphs).value(m) == bounds.width.value()
            + spacing.value() * (if glyphs == 0 {
            0int
        } else {
            glyphs - 1
        } as real),
{
    reveal_with_fuel(Formula::value, 3);
}

/// A measured run stands at its position and is as large as it was measured,
/// with its spacing, but at least a pixel each way.
pub proof fn law_measured_run(m: Model, data: TextData, bounds: MeasuredBounds)
    requires
        data.measured == Some(bounds),
        data.text@.len() <= u64::MAX,
    ensures
        ({
            let rect = run_rect(data);
            let n = data.text@.len();
            let gaps = if n == 0 {
                0int
            } else {
                n - 1
            };
            let w = bounds.width.value() + data.spacing.value() * (gaps as real);
            let h = bounds.height.value();
            &&& rect.x.value(m) == data.x.value()
            &&& rect.y.value(m) == data.y.value()
            &&& rect.w.value(m) == if w < 1real {
                1real
            } else {
                w
            }
            &&& rect.h.value(m) == if h < 1real {
                1real
            } else {
                h
            }
        }),
{
    let (w, h) = text_size(data);
    lemma_spaced(m, bounds, data.spacing, data.text@.len());
    lemma_at_least_one(m, w);
    lemma_at_least_one(m, h);
}

/// A run without measured bounds stands at its position; every glyph is taken
/// to be six tenths of the font size wide and to bring its own spacing, an empty
/// text to have one glyph, and the run to be fourteen tenths of the font size
/// high; and it has at least a pixel each way.
pub proof fn law_guessed_run(m: Model, data: TextData)
    requires
        data.measured is None,
        data.text@.len() <= u64::MAX,
    ensures
        ({
            let rect = run_rect(data);
            let n = data.text@.len();
            let glyphs = if n == 0 {
                1real
            } else {
                n as int as real
            };
            let size = data.font_size.value();
            let w = glyphs * size * six_tenths() + data.spacing.value() * glyphs;
            let h = size * fourteen_tenths();
            &&& rect.x.value(m) == data.x.value()
            &&& rect.y.value(m) == data.y.value()
            &&& rect.w.value(m) == if w < 1real {
                1real
            } else {
                w
            }
            &&& rect.h.value(m) == if h < 1real {
                1real
            } else {
                h
            }
        }),
{
    let (w, h) = text_size(data);
    let n = data.text@.len();
    let glyphs = count(
        if n == 0 {
            1
        } else {
            n as u64
        },
    );
    let size = number(data.font_size);
    let raw = sum(
        &product(&product(&glyphs, &size), &constant(ASSUMED_ADVANCE)),
        &product(&number(data.spacing), &glyphs),
    );
    let line = product(&size, &constant(ASSUMED_LINE));
    assert(raw.value(m) == glyphs.value(m) * size.value(m) * six_tenths() + data.spacing.value()
        * glyphs.value(m)) by {
        reveal_with_fuel(Formula::value, 4);
    }
    assert(line.value(m) == size.value(m) * fourteen_tenths()) by {
        reveal_with_fuel(Formula::value, 3);
    }
    lemma_at_least_one(m, raw);
    lemma_at_least_one(m, line);
    lemma_at_least_one(m, w);
    lemma_at_least_one(m, h);
}

/// The box in which a run without measured bounds is drawn anew: 200 pixels wide
/// or as wide as the run, and one and a half font sizes high or as high as the
/// run, whichever is larger.
pub proof fn law_guessed_box(m: Model, data: Box<TextData>)
    requires
        data.measured is None,
    ensures
        ({
            let rect = run_rect(*data);
            let (w, h) = (rect.w.value(m), rect.h.value(m));
            let tall = data.font_size.value() * (3real / 2real);
            match IntermediateLayer::Text(data).area() {
                LayerBounds::Computed { left, top, right, bottom } => {
                    &&& left.value(m) == data.x.value()
                    &&& top.value(m) == data.y.value()
                    &&& right.value(m) == data.x.value() + (if w < 200real {
                        200real
                    } else {
                        w
                    })
                    &&& bottom.value(m) == data.y.value() + (if h < tall {
                        tall
                    } else {
                        h
                    })
                },
                _ => false,
            }
        }),
{
    law_constants();
    let (w, h) = text_size(*data);
    lemma_one_and_two();
    assert(w.value(m) >= 1real && h.value(m) >= 1real) by {
        reveal_with_fuel(Formula::value, 2);
    }
    lemma_at_least_one(m, w);
    lemma_at_least_one(m, h);
    let wide = larger(&constant(ASSUMED_TEXT_WIDTH), &w);
    let line = product(
        &number(data.font_size),
        &constant(ASSUMED_TEXT_HEIGHT),
    );
    assert(line.value(m) == data.font_size.value() * (3real / 2real)) by {
        reveal_with_fuel(Formula::value, 2);
    }
    let high = larger(&line, &h);
    assert(wide.value(m) == if w.value(m) < 200real {
        200real
    } else {
        w.value(m)
    }) by {
        reveal_with_fuel(Formula::value, 2);
    }
    assert(high.value(m) == if h.value(m) < line.value(m) {
        line.value(m)
    } else {
        h.value(m)
    });
    assert(number(data.x).value(m) == data.x.value() && number(data.y).value(m) == data.y.value());
}

/// The box in which a measured run is drawn anew: from its position over its
/// measured width with its spacing, and over its measured height.
pub proof fn law_measured_box(m: Model, data: Box<TextData>, bounds: MeasuredBounds)
    requires
        data.measured == Some(bounds),
        data.text@.len() <= u64::MAX,
    ensures
        ({
            let n = data.text@.len();
            let gaps = if n == 0 {
                0int
            } else {
                n - 1
            };
            match IntermediateLayer::Text(data).area() {
                LayerBounds::Computed { left, top, right, bottom } => {
                    &&& left.value(m) == data.x.value()
                    &&& top.value(m) == data.y.value()
                    &&& right.value(m) == data.x.value() + (bounds.width.value()
                        + data.spacing.value() * (gaps as real))
                    &&& bottom.value(m) == data.y.value() + bounds.height.value()
                },
                _ => false,
            }
        }),
{
    lemma_spaced(m, bounds, data.spacing, data.text@.len());
    assert(number(data.x).value(m) == data.x.value() && number(data.y).value(m) == data.y.value());
    assert(number(bounds.height).value(m) == bounds.height.value());
}

/// The area of a bitmap is made of exactly the pixels from its position on that
/// are fewer than its width to the right and fewer than its height down.
pub proof fn law_bitmap_area(data: RasterData, x: int, y: int)
    requires
        data.x + data.width <= u32::MAX,
        data.y + data.height <= u32::MAX,
    ensures
        match IntermediateLayer::Raster(data).area() {
            LayerBounds::Pixels(b) => (b.0 <= x < b.2 && b.1 <= y < b.3) <==> (0 <= x - data.x
                < data.width && 0 <= y - data.y < data.height),
            _ => false,
        },
{
}

/// The area of a drawing is the box that it was given, and unknown without one.
pub proof fn law_drawing_area(data: VectorData, bounds: Bounds)
    ensures
        data.bounds == Some(bounds) ==> IntermediateLayer::Vector(data).area()
            == LayerBounds::Pixels(bounds),
        data.bounds is None ==> IntermediateLayer::Vector(data).area() == LayerBounds::Anywhere,
{
}

} // verus!
