use repose_scene::effects::Effects;
use repose_scene::formula::Formula;
use repose_scene::layers::{
    IntermediateLayer, LayerBounds, MeasuredBounds, RasterData, TextBox, TextData, VectorData,
};
use repose_scene::region::DirtyRegion;
use repose_scene::run::text_rect;
use repose_scene::single::Single;

fn single(x: f32) -> Single {
    Single::from_bits(x.to_bits())
}

fn eval(f: &Formula) -> f32 {
    match f {
        Formula::Number(n) => f32::from_bits(n.bits),
        Formula::Count(n) => *n as f32,
        Formula::Sum(a, b) => eval(a) + eval(b),
        Formula::Product(a, b) => eval(a) * eval(b),
        Formula::Larger(a, b) => eval(a).max(eval(b)),
        _ => panic!("no such formula here: {f:?}"),
    }
}

const NOWHERE: TextBox = TextBox {
    left: Single { bits: 0 },
    top: Single { bits: 0 },
    right: Single { bits: 0 },
    bottom: Single { bits: 0 },
};

fn raster(x: u32, y: u32, width: u32, height: u32) -> IntermediateLayer {
    IntermediateLayer::Raster(RasterData {
        pixels: vec![0; 4],
        x,
        y,
        width,
        height,
        opacity: 255,
    })
}

fn text(measured: Option<MeasuredBounds>) -> IntermediateLayer {
    IntermediateLayer::Text(Box::new(TextData {
        text: "Hé!o".to_string(),
        font_family: String::new(),
        font_size: single(40.0),
        color: [255, 255, 255, 255],
        x: single(10.5),
        y: single(20.0),
        effects: Effects::from_vec(Vec::new()),
        spacing: single(2.0),
        measured,
    }))
}

fn measured() -> MeasuredBounds {
    MeasuredBounds {
        width: single(100.0),
        height: single(30.0),
        baseline: single(24.0),
        ascent: single(24.0),
        descent: single(-6.0),
    }
}

fn region(x: u32, y: u32, width: u32, height: u32) -> DirtyRegion {
    DirtyRegion { x, y, width, height }
}

fn text_box(layer: &IntermediateLayer) -> TextBox {
    match layer.bounds() {
        LayerBounds::Computed { left, top, right, bottom } => TextBox {
            left: single(eval(&left)),
            top: single(eval(&top)),
            right: single(eval(&right)),
            bottom: single(eval(&bottom)),
        },
        _ => panic!("text has a computed box"),
    }
}

#[test]
fn width_counts_the_gaps_between_glyphs() {
    assert_eq!(eval(&measured().spaced_width(single(2.5), 4)), 107.5);
    assert_eq!(eval(&measured().spaced_width(single(2.5), 1)), 100.0);
    assert_eq!(eval(&measured().spaced_width(single(2.5), 0)), 100.0);
    assert_eq!(eval(&measured().spaced_width(single(-3.0), 3)), 94.0);
}

#[test]
fn regions_and_boxes_meet_where_they_share_a_pixel() {
    let r = region(10, 10, 5, 5);
    assert!(r.intersects((14, 14, 20, 20)));
    assert!(!r.intersects((15, 10, 20, 20)));
    assert!(!r.intersects((10, 15, 20, 20)));
    assert!(r.intersects((0, 0, 11, 11)));
    assert!(!r.intersects((0, 0, 10, 11)));
    assert!(!r.intersects((0, 0, 11, 10)));
    assert!(region(u32::MAX, 0, 9, 9).intersects((0, 0, u32::MAX, 9)) == false);
    assert!(region(u32::MAX - 1, 0, 9, 9).intersects((0, 0, u32::MAX, 9)));
}

#[test]
fn a_bitmap_touches_its_rectangle() {
    let layer = raster(10, 20, 30, 40);
    assert!(layer.intersects_region(&region(39, 59, 1, 1), NOWHERE));
    assert!(!layer.intersects_region(&region(40, 59, 1, 1), NOWHERE));
    assert!(!layer.intersects_region(&region(39, 60, 1, 1), NOWHERE));
    assert!(!layer.intersects_region(&region(0, 0, 10, 100), NOWHERE));
}

#[test]
fn a_drawing_touches_its_box_or_anything() {
    let drawing = |bounds| {
        IntermediateLayer::Vector(VectorData { path: None, color: [0; 4], stroke: None, bounds })
    };
    assert!(drawing(None).intersects_region(&region(9, 9, 0, 0), NOWHERE));
    let boxed = drawing(Some((5, 6, 7, 8)));
    assert!(boxed.intersects_region(&region(6, 7, 1, 1), NOWHERE));
    assert!(!boxed.intersects_region(&region(7, 7, 1, 1), NOWHERE));
}

#[test]
fn measured_text_touches_its_measured_box() {
    let layer = text(Some(measured()));
    let edges = text_box(&layer);
    assert_eq!(edges.left, single(10.5));
    assert_eq!(edges.top, single(20.0));
    assert_eq!(edges.right, single(116.5));
    assert_eq!(edges.bottom, single(50.0));
    assert!(layer.intersects_region(&region(10, 49, 1, 1), edges));
    assert!(layer.intersects_region(&region(115, 20, 1, 1), edges));
    assert!(!layer.intersects_region(&region(116, 20, 1, 1), edges));
    assert!(!layer.intersects_region(&region(10, 50, 1, 1), edges));
}

#[test]
fn unmeasured_text_touches_a_generous_box() {
    let layer = text(None);
    let edges = text_box(&layer);
    assert_eq!(edges.right, single(210.5));
    assert_eq!(edges.bottom, single(80.0));
    assert!(layer.intersects_region(&region(209, 79, 1, 1), edges));
    assert!(!layer.intersects_region(&region(210, 79, 1, 1), edges));
    assert!(!layer.intersects_region(&region(209, 80, 1, 1), edges));
}

#[test]
fn long_unmeasured_text_touches_all_of_its_run() {
    let layer = IntermediateLayer::Text(Box::new(TextData {
        text: "a".repeat(100),
        font_family: String::new(),
        font_size: single(20.0),
        color: [255, 255, 255, 255],
        x: single(0.0),
        y: single(0.0),
        effects: Effects::from_vec(Vec::new()),
        spacing: single(0.0),
        measured: None,
    }));
    let edges = text_box(&layer);
    assert_eq!(edges.right, single(100.0f32 * 20.0 * 0.6));
    assert_eq!(edges.bottom, single(30.0));
    assert!(layer.intersects_region(&region(300, 0, 100, 20), edges));
    assert!(layer.intersects_region(&region(1199, 29, 1, 1), edges));
    assert!(!layer.intersects_region(&region(1201, 0, 1, 1), edges));
}

#[test]
fn the_box_of_measured_text_is_its_run() {
    let layer = text(Some(measured()));
    let edges = text_box(&layer);
    match &layer {
        IntermediateLayer::Text(data) => {
            let rect = text_rect(data);
            assert_eq!(edges.left, single(eval(&rect.x)));
            assert_eq!(edges.top, single(eval(&rect.y)));
            assert_eq!(edges.right, single(eval(&rect.x) + eval(&rect.w)));
            assert_eq!(edges.bottom, single(eval(&rect.y) + eval(&rect.h)));
        }
        _ => panic!("text was built"),
    }
}
