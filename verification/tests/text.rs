//! Text layers as scene nodes.

use lyon_path::math::point;
use lyon_path::Path;
use repose_scene::effects::{Effects, TextEffect};
use repose_scene::formula::{Expr, Formula};
use repose_scene::geometry::{Rect, Row, Transform};
use repose_scene::layers::{MeasuredBounds, TextData};
use repose_scene::mesh::Triangles;
use repose_scene::run::{text_rect, FontStyle, FontWeight, RunStyle, TextDecoration};
use repose_scene::scene::{
    ClipOp, DrawStyle, LayerCtx, SceneNode, StrokeCap, StrokeJoin, TextAlign,
};
use repose_scene::single::Single;
use repose_scene::text::emit_text;
use std::sync::Arc;

const WHITE: [u8; 4] = [255, 255, 255, 255];
const BLACK: [u8; 4] = [0, 0, 0, 255];
const GREY: [u8; 4] = [9, 9, 9, 99];

fn single(x: f32) -> Single {
    Single::from_bits(x.to_bits())
}

fn eval(f: &Formula) -> f32 {
    match f {
        Formula::Number(n) => f32::from_bits(n.bits),
        Formula::Count(n) => *n as f32,
        Formula::Negated(a) => -eval(a),
        Formula::Sum(a, b) => eval(a) + eval(b),
        Formula::Difference(a, b) => eval(a) - eval(b),
        Formula::Product(a, b) => eval(a) * eval(b),
        Formula::Quotient(a, b) => eval(a) / eval(b),
        Formula::Larger(a, b) => eval(a).max(eval(b)),
        Formula::Clamped(a, low, high) => {
            eval(a).clamp(f32::from_bits(low.bits), f32::from_bits(high.bits))
        }
        Formula::Sine(a) => eval(a).sin(),
        Formula::Cosine(a) => eval(a).cos(),
        Formula::Radians(a) => eval(a).to_radians(),
        _ => panic!("no such formula here: {f:?}"),
    }
}

fn values(r: &Rect) -> [f32; 4] {
    [eval(&r.x), eval(&r.y), eval(&r.w), eval(&r.h)]
}

fn measured(width: f32, height: f32) -> Option<MeasuredBounds> {
    Some(MeasuredBounds {
        width: single(width),
        height: single(height),
        baseline: single(0.0),
        ascent: single(0.0),
        descent: single(0.0),
    })
}

/// A run of 120 by 50 pixels at (100, 200), in a font size of 48.
fn run(effects: Vec<TextEffect>) -> TextData {
    TextData {
        text: "Hello".to_string(),
        font_family: "DejaVu Sans".to_string(),
        font_size: single(48.0),
        color: WHITE,
        x: single(100.0),
        y: single(200.0),
        effects: Effects::from_vec(effects),
        spacing: single(0.0),
        measured: measured(120.0, 50.0),
    }
}

fn style(effects: Vec<TextEffect>) -> RunStyle {
    RunStyle::of(&Effects::from_vec(effects))
}

fn emit(data: &TextData, mask: Option<Arc<Triangles>>) -> (Vec<SceneNode>, u32) {
    let mut nodes: Vec<SceneNode> = Vec::new();
    let mut ctx = LayerCtx { next_layer_id: 1 };
    emit_text(&mut nodes, &mut ctx, data, &mask);
    (nodes, ctx.next_layer_id)
}

fn nodes(effects: Vec<TextEffect>) -> Vec<SceneNode> {
    emit(&run(effects), None).0
}

/// The shape of a scene, one word per node.
fn shape(nodes: &[SceneNode]) -> Vec<&'static str> {
    nodes
        .iter()
        .map(|n| match n {
            SceneNode::Rect { .. } => "rect",
            SceneNode::Text { draw_style: DrawStyle::Fill, .. } => "fill",
            SceneNode::Text { .. } => "stroke",
            SceneNode::Image { .. } => "image",
            SceneNode::VectorMesh { .. } => "mesh",
            SceneNode::PushClip { .. } => "clip",
            SceneNode::PopClip => "/clip",
            SceneNode::PushVectorClip { .. } => "mask",
            SceneNode::PopVectorClip => "/mask",
            SceneNode::PushTransform { .. } => "transform",
            SceneNode::PopTransform => "/transform",
            SceneNode::BeginLayer { .. } => "layer",
            SceneNode::EndLayer { .. } => "/layer",
        })
        .collect()
}

fn outline(width: f32) -> TextEffect {
    TextEffect::Outline { color: BLACK, width_x: single(width), width_y: single(width) }
}

fn shadow(x: f32, y: f32) -> TextEffect {
    TextEffect::Shadow { color: GREY, x_offset: single(x), y_offset: single(y) }
}

fn blur(radius: f32) -> TextEffect {
    TextEffect::Blur { radius: single(radius) }
}

fn edge_blur(radius: f32) -> TextEffect {
    TextEffect::EdgeBlur { radius: single(radius) }
}

fn karaoke(progress: f32, style: u8) -> TextEffect {
    TextEffect::Karaoke { progress: single(progress), style, secondary: GREY }
}

fn rotation(x: f32, y: f32, z: f32, origin: Option<(f32, f32)>) -> TextEffect {
    TextEffect::Rotation {
        x: single(x),
        y: single(y),
        z: single(z),
        origin: origin.map(|o| (single(o.0), single(o.1))),
    }
}

fn shear(x: f32, y: f32) -> TextEffect {
    TextEffect::Shear { x: single(x), y: single(y) }
}

fn scale(x: f32, y: f32) -> TextEffect {
    TextEffect::Scale { x: single(x), y: single(y) }
}

fn clip(x1: f32, y1: f32, x2: f32, y2: f32, inverse: bool) -> TextEffect {
    TextEffect::Clip { x1: single(x1), y1: single(y1), x2: single(x2), y2: single(y2), inverse }
}

fn vector_clip(inverse: bool) -> TextEffect {
    let mut builder = Path::builder();
    builder.begin(point(0.0, 0.0));
    builder.line_to(point(9.0, 0.0));
    builder.line_to(point(0.0, 9.0));
    builder.close();
    TextEffect::VectorClip { path: builder.build(), inverse }
}

fn one_triangle() -> Option<Arc<Triangles>> {
    let zero = single(0.0);
    let nine = single(9.0);
    let positions = vec![(zero, zero), (nine, zero), (zero, nine)];
    Some(Arc::new(Triangles { positions, indices: vec![0, 1, 2] }))
}

fn text_color(node: &SceneNode) -> [u8; 4] {
    match node {
        SceneNode::Text { color, .. } => *color,
        _ => panic!("text was expected: {node:?}"),
    }
}

fn text_rect_of(node: &SceneNode) -> [f32; 4] {
    match node {
        SceneNode::Text { rect, .. } => values(rect),
        _ => panic!("text was expected: {node:?}"),
    }
}

fn stroke_width(node: &SceneNode) -> f32 {
    match node {
        SceneNode::Text { draw_style: DrawStyle::Stroke { width, .. }, .. } => eval(width),
        _ => panic!("a stroke was expected: {node:?}"),
    }
}

fn layer_of(node: &SceneNode) -> (u32, [f32; 4], f32, f32) {
    match node {
        SceneNode::BeginLayer {
            rect,
            layer_id,
            alpha,
            blur_radius_x,
            blur_radius_y,
            rectangle_edge,
        } => {
            assert_eq!(eval(alpha), 1.0);
            assert!(*rectangle_edge);
            (*layer_id, values(rect), eval(blur_radius_x), eval(blur_radius_y))
        }
        _ => panic!("a layer was expected: {node:?}"),
    }
}

fn transform_of(node: &SceneNode) -> &Transform {
    match node {
        SceneNode::PushTransform { transform } => transform,
        _ => panic!("a transform was expected: {node:?}"),
    }
}

fn pushed(effects: Vec<TextEffect>) -> Arc<Transform> {
    let data = run(Vec::new());
    style(effects).transform(&text_rect(&data)).expect("a transform")
}

/// Scale, rotation, shear and pivot of a transform in parts.
fn parts(t: &Transform) -> ([f32; 2], f32, [f32; 2], [f32; 2]) {
    match t {
        Transform::Parts { scale_x, scale_y, rotate, shear_x, shear_y, origin_x, origin_y } => (
            [eval(scale_x), eval(scale_y)],
            eval(rotate),
            [eval(shear_x), eval(shear_y)],
            [eval(origin_x), eval(origin_y)],
        ),
        _ => panic!("parts were expected: {t:?}"),
    }
}

fn at(row: &Row, x: f32, y: f32) -> f32 {
    eval(&row.a) * x + eval(&row.b) * y + eval(&row.c)
}

/// Walks a scene, checks that brackets nest and layers are numbered in turn,
/// and returns the id of the next layer.
fn assert_tidy(nodes: &[SceneNode], first: u32) -> u32 {
    let mut open: Vec<String> = Vec::new();
    let mut next = first;
    for node in nodes {
        let closes = match node {
            SceneNode::PushClip { .. } => {
                open.push("clip".to_string());
                None
            }
            SceneNode::PushVectorClip { .. } => {
                open.push("mask".to_string());
                None
            }
            SceneNode::PushTransform { .. } => {
                open.push("transform".to_string());
                None
            }
            SceneNode::BeginLayer { layer_id, .. } => {
                assert_eq!(*layer_id, next);
                next += 1;
                open.push(format!("layer {layer_id}"));
                None
            }
            SceneNode::PopClip => Some("clip".to_string()),
            SceneNode::PopVectorClip => Some("mask".to_string()),
            SceneNode::PopTransform => Some("transform".to_string()),
            SceneNode::EndLayer { layer_id } => Some(format!("layer {layer_id}")),
            _ => None,
        };
        if closes.is_some() {
            assert_eq!(open.pop(), closes);
        }
    }
    assert!(open.is_empty());
    next
}

fn everything() -> Vec<TextEffect> {
    vec![
        TextEffect::Bold,
        outline(3.0),
        shadow(4.0, 4.0),
        blur(2.0),
        edge_blur(1.0),
        karaoke(0.5, 1),
        rotation(0.0, 0.0, 30.0, None),
        clip(0.0, 0.0, 640.0, 360.0, false),
        vector_clip(false),
        TextEffect::OpaqueBox { color: GREY, padding: single(6.0) },
    ]
}

#[test]
fn a_plain_run_is_one_node() {
    let (nodes, next) = emit(&run(Vec::new()), None);
    assert_eq!(next, 1);
    assert_eq!(nodes.len(), 1);
    match &nodes[0] {
        SceneNode::Text {
            rect,
            text,
            color,
            size,
            font_family,
            text_align,
            font_weight,
            font_style,
            text_decoration,
            letter_spacing,
            line_height,
            draw_style,
            url,
            font_variation_settings,
        } => {
            assert_eq!(*text_align, TextAlign::Unspecified);
            assert_eq!((url, font_variation_settings), (&None, &None));
            assert_eq!(values(rect), [100.0, 200.0, 120.0, 50.0]);
            assert_eq!(text, "Hello");
            assert_eq!(*color, WHITE);
            assert_eq!(eval(size), 48.0);
            assert_eq!(font_family.as_deref(), Some("DejaVu Sans"));
            assert_eq!(*font_weight, FontWeight::Normal);
            assert_eq!(*font_style, FontStyle::Normal);
            assert_eq!(*text_decoration, TextDecoration { underline: false, strikethrough: false });
            assert_eq!(eval(letter_spacing), 0.0);
            assert_eq!(eval(line_height), 48.0f32 * 1.2);
            assert!(matches!(draw_style, DrawStyle::Fill));
        }
        _ => panic!("text was expected"),
    }
}

#[test]
fn tiny_text_is_drawn_at_one_pixel() {
    let mut data = run(Vec::new());
    data.font_size = single(0.25);
    data.font_family = String::new();
    data.spacing = single(-1.5);
    match &emit(&data, None).0[0] {
        SceneNode::Text { size, line_height, letter_spacing, font_family, .. } => {
            assert_eq!(eval(size), 1.0);
            assert_eq!(eval(line_height), 1.0);
            assert_eq!(eval(letter_spacing), -1.5);
            assert_eq!(*font_family, None);
        }
        _ => panic!("text was expected"),
    }
}

#[test]
fn a_run_has_at_least_a_pixel() {
    let mut data = run(Vec::new());
    data.measured = measured(-5.0, 0.0);
    assert_eq!(values(&text_rect(&data)), [100.0, 200.0, 1.0, 1.0]);
    data.measured = measured(120.0, 50.0);
    data.spacing = single(2.0);
    assert_eq!(values(&text_rect(&data)), [100.0, 200.0, 128.0, 50.0]);
}

#[test]
fn an_unmeasured_run_is_guessed_from_its_glyphs() {
    let mut data = run(Vec::new());
    data.measured = None;
    data.spacing = single(2.0);
    let w = 5.0f32 * 48.0 * 0.6 + 2.0 * 5.0;
    assert_eq!(values(&text_rect(&data)), [100.0, 200.0, w, 48.0f32 * 1.4]);
    data.text = "öä".to_string();
    let w = 2.0f32 * 48.0 * 0.6 + 2.0 * 2.0;
    assert_eq!(values(&text_rect(&data))[2], w);
    data.text = String::new();
    let w = 1.0f32 * 48.0 * 0.6 + 2.0 * 1.0;
    assert_eq!(values(&text_rect(&data))[2], w);
    data.font_size = single(0.1);
    data.spacing = single(0.0);
    assert_eq!(values(&text_rect(&data)), [100.0, 200.0, 1.0, 1.0]);
}

#[test]
fn faces_and_lines_are_switched_on() {
    let s = style(vec![
        TextEffect::Underline,
        TextEffect::Bold,
        outline(1.0),
        TextEffect::Italic,
        TextEffect::Strikethrough,
    ]);
    assert_eq!(s.weight, FontWeight::Bold);
    assert_eq!(s.style, FontStyle::Italic);
    assert!(s.decoration.underline && s.decoration.strikethrough);
    let nodes = nodes(vec![TextEffect::Underline, TextEffect::Bold, outline(1.0), shadow(1.0, 1.0)]);
    let lines: Vec<bool> = nodes
        .iter()
        .map(|n| match n {
            SceneNode::Text { text_decoration, font_weight, .. } => {
                assert_eq!(*font_weight, FontWeight::Bold);
                text_decoration.underline
            }
            _ => panic!("only text here"),
        })
        .collect();
    assert_eq!(lines, [false, false, false, true]);
}

#[test]
fn the_last_of_a_kind_shows() {
    let s = style(vec![
        outline(1.0),
        shadow(1.0, 1.0),
        scale(50.0, 60.0),
        outline(2.0),
        rotation(1.0, 2.0, 3.0, None),
        shadow(5.0, 6.0),
        vector_clip(false),
        clip(0.0, 0.0, 1.0, 1.0, true),
        rotation(0.0, 0.0, 4.0, Some((7.0, 8.0))),
        vector_clip(true),
        clip(1.0, 2.0, 3.0, 4.0, false),
        scale(150.0, 70.0),
    ]);
    assert_eq!(s.outline, Some((BLACK, single(2.0))));
    assert_eq!(s.shadow, Some((GREY, single(5.0), single(6.0))));
    assert_eq!(s.scale, Some(single(150.0)));
    assert_eq!(s.vector_clip, Some((9, true)));
    let r = s.rotation.expect("a rotation");
    assert_eq!((r.x, r.y, r.z), (single(0.0), single(0.0), single(4.0)));
    assert_eq!(r.origin, Some((single(7.0), single(8.0))));
    let c = s.clip.expect("a clip");
    assert_eq!((c.x1, c.y1, c.x2, c.y2), (single(1.0), single(2.0), single(3.0), single(4.0)));
    assert!(!c.inverse);
}

#[test]
fn an_outline_takes_the_larger_width() {
    let effect =
        |x: f32, y: f32| TextEffect::Outline { color: BLACK, width_x: single(x), width_y: single(y) };
    assert_eq!(style(vec![effect(1.0, 4.0)]).outline, Some((BLACK, single(4.0))));
    assert_eq!(style(vec![effect(5.0, 4.0)]).outline, Some((BLACK, single(5.0))));
}

#[test]
fn the_strongest_blur_counts() {
    let s = style(vec![blur(2.0), edge_blur(7.0), blur(5.0), blur(3.0), edge_blur(1.0)]);
    assert_eq!(s.blur, Some(single(5.0)));
    assert_eq!(s.edge_blur, Some(single(7.0)));
    assert_eq!(style(vec![blur(-2.0)]).blur, Some(single(0.0)));
    assert_eq!(style(vec![blur(f32::NAN), blur(0.5)]).blur, Some(single(0.5)));
    assert_eq!(style(vec![edge_blur(1.0)]).blur, None);
}

#[test]
fn shears_add_up() {
    let s = style(vec![shear(0.25, 1.0), TextEffect::Bold, shear(0.5, -3.0)]);
    let (x, y): (Expr, Expr) = s.shear.expect("a shear");
    assert_eq!((eval(&x), eval(&y)), (0.75, -2.0));
}

#[test]
fn an_outline_is_stroked_under_the_fill() {
    let nodes = nodes(vec![outline(3.0)]);
    assert_eq!(shape(&nodes), ["stroke", "fill"]);
    assert_eq!(text_color(&nodes[0]), BLACK);
    assert_eq!(text_color(&nodes[1]), WHITE);
    match &nodes[0] {
        SceneNode::Text { draw_style: DrawStyle::Stroke { width, cap, join, miter }, .. } => {
            assert_eq!(eval(width), 0.0625);
            assert_eq!(*cap, StrokeCap::Round);
            assert_eq!(*join, StrokeJoin::Round);
            assert_eq!(eval(miter), 4.0);
        }
        _ => panic!("a stroke was expected"),
    }
}

#[test]
fn an_outline_is_neither_too_thin_nor_too_thick() {
    assert_eq!(stroke_width(&nodes(vec![outline(0.1)])[0]), 0.01);
    assert_eq!(stroke_width(&nodes(vec![outline(0.0)])[0]), 0.01);
    assert_eq!(stroke_width(&nodes(vec![outline(100.0)])[0]), 0.5);
    let mut data = run(vec![outline(0.25)]);
    data.font_size = single(0.5);
    assert_eq!(stroke_width(&emit(&data, None).0[0]), 0.25);
}

#[test]
fn a_shadow_is_a_shifted_copy_behind() {
    let nodes = nodes(vec![shadow(4.0, -3.0), outline(3.0)]);
    assert_eq!(shape(&nodes), ["stroke", "fill", "stroke", "fill"]);
    assert_eq!(text_rect_of(&nodes[0]), [104.0, 197.0, 120.0, 50.0]);
    assert_eq!(text_rect_of(&nodes[1]), [104.0, 197.0, 120.0, 50.0]);
    assert_eq!(text_rect_of(&nodes[3]), [100.0, 200.0, 120.0, 50.0]);
    assert_eq!(text_color(&nodes[0]), BLACK);
    assert_eq!(text_color(&nodes[1]), GREY);
    assert_eq!(text_color(&nodes[3]), WHITE);
}

#[test]
fn a_box_stands_behind_everything() {
    let boxed = TextEffect::OpaqueBox { color: GREY, padding: single(6.0) };
    let nodes = nodes(vec![shadow(1.0, 1.0), boxed]);
    assert_eq!(shape(&nodes), ["rect", "fill", "fill"]);
    match &nodes[0] {
        SceneNode::Rect { rect, color, radius } => {
            assert_eq!(eval(radius), 0.0);
            assert_eq!(values(rect), [94.0, 194.0, 132.0, 62.0]);
            assert_eq!(*color, GREY);
        }
        _ => panic!("a box was expected"),
    }
}

#[test]
fn a_blur_wraps_the_whole_run() {
    let nodes = nodes(vec![blur(2.5), outline(3.0), shadow(4.0, 4.0)]);
    assert_eq!(
        shape(&nodes),
        ["layer", "transform", "stroke", "fill", "stroke", "fill", "/transform", "/layer"]
    );
    assert_eq!(layer_of(&nodes[0]), (1, [97.5, 197.5, 125.0, 55.0], 2.5, 2.5));
    match transform_of(&nodes[1]) {
        Transform::Translation { x, y } => assert_eq!((eval(x), eval(y)), (-97.5, -197.5)),
        t => panic!("a shift was expected: {t:?}"),
    }
}

#[test]
fn a_blur_of_nothing_adds_no_layer() {
    assert_eq!(shape(&nodes(vec![blur(0.0)])), ["fill"]);
    assert_eq!(shape(&nodes(vec![blur(-1.0)])), ["fill"]);
    assert_eq!(shape(&nodes(vec![outline(1.0), edge_blur(0.0)])), ["stroke", "fill"]);
}

#[test]
fn an_edge_blur_wraps_the_strokes_alone() {
    let nodes = nodes(vec![edge_blur(1.5), outline(3.0), shadow(4.0, 0.0)]);
    let wrapped = ["layer", "transform", "stroke", "/transform", "/layer", "fill"];
    assert_eq!(shape(&nodes), [wrapped, wrapped].concat());
    assert_eq!(layer_of(&nodes[0]), (1, [99.5, 195.5, 129.0, 59.0], 1.5, 1.5));
    assert_eq!(layer_of(&nodes[6]), (2, [95.5, 195.5, 129.0, 59.0], 1.5, 1.5));
    assert_eq!(shape(&nodes_without_outline()), ["fill"]);
}

fn nodes_without_outline() -> Vec<SceneNode> {
    nodes(vec![edge_blur(1.5)])
}

#[test]
fn the_two_blurs_keep_apart() {
    let nodes = nodes(vec![blur(2.0), edge_blur(1.0), outline(3.0)]);
    let mut depth = 0;
    let mut depths: Vec<(&str, i32)> = Vec::new();
    for (node, word) in nodes.iter().zip(shape(&nodes)) {
        match node {
            SceneNode::BeginLayer { .. } => depth += 1,
            SceneNode::EndLayer { .. } => depth -= 1,
            SceneNode::Text { .. } => depths.push((word, depth)),
            _ => {}
        }
    }
    assert_eq!(depths, [("stroke", 2), ("fill", 1)]);
}

#[test]
fn basic_karaoke_flips_the_run() {
    let before = nodes(vec![karaoke(0.0, 0)]);
    assert_eq!(shape(&before), ["fill"]);
    assert_eq!(text_color(&before[0]), GREY);
    let after = nodes(vec![karaoke(0.01, 0)]);
    assert_eq!(shape(&after), ["fill"]);
    assert_eq!(text_color(&after[0]), WHITE);
    assert_eq!(text_color(&nodes(vec![karaoke(f32::NAN, 0)])[0]), GREY);
}

#[test]
fn swept_karaoke_shows_both_colours() {
    for style in 1..4u8 {
        let nodes = nodes(vec![karaoke(0.25, style)]);
        assert_eq!(shape(&nodes), ["fill", "clip", "fill", "/clip"]);
        assert_eq!(text_color(&nodes[0]), GREY);
        assert_eq!(text_color(&nodes[2]), WHITE);
        match &nodes[1] {
            SceneNode::PushClip { rect, radius, op } => {
                assert_eq!(eval(radius), 0.0);
                assert_eq!(values(rect), [100.0, 200.0, 30.0, 50.0]);
                assert_eq!(*op, ClipOp::Intersect);
            }
            _ => panic!("a window was expected"),
        }
    }
    let unsung = nodes(vec![karaoke(-1.0, 2)]);
    assert_eq!(shape(&unsung), ["fill"]);
    assert_eq!(text_color(&unsung[0]), GREY);
    match &nodes(vec![karaoke(9.0, 1)])[1] {
        SceneNode::PushClip { rect, .. } => assert_eq!(values(rect)[2], 120.0),
        _ => panic!("a window was expected"),
    }
}

#[test]
fn a_clip_wraps_the_run() {
    let nodes_in = nodes(vec![clip(10.0, 20.0, 110.0, 70.0, false)]);
    assert_eq!(shape(&nodes_in), ["clip", "fill", "/clip"]);
    let nodes_out = nodes(vec![clip(110.0, 70.0, 10.0, 20.0, true)]);
    match (&nodes_in[0], &nodes_out[0]) {
        (
            SceneNode::PushClip { rect: inside, op: keep, .. },
            SceneNode::PushClip { rect: outside, op: cut, .. },
        ) => {
            assert_eq!(values(inside), [10.0, 20.0, 100.0, 50.0]);
            assert_eq!(*keep, ClipOp::Intersect);
            assert_eq!(values(outside), [110.0, 70.0, 0.0, 0.0]);
            assert_eq!(*cut, ClipOp::Difference);
        }
        _ => panic!("clips were expected"),
    }
}

#[test]
fn a_mask_wraps_the_run_in_the_clip() {
    let effects = || vec![vector_clip(true), clip(0.0, 0.0, 9.0, 9.0, false)];
    let (nodes, _) = emit(&run(effects()), one_triangle());
    assert_eq!(shape(&nodes), ["clip", "mask", "fill", "/mask", "/clip"]);
    match &nodes[1] {
        SceneNode::PushVectorClip { mesh, op } => {
            assert_eq!(*op, ClipOp::Difference);
            assert_eq!(mesh.triangles.indices, [0, 1, 2]);
            let c = &mesh.color;
            assert_eq!([eval(&c.r), eval(&c.g), eval(&c.b), eval(&c.a)], [1.0; 4]);
        }
        _ => panic!("a mask was expected"),
    }
}

#[test]
fn a_failed_mask_keeps_the_run() {
    let empty = Some(Arc::new(Triangles { positions: Vec::new(), indices: Vec::new() }));
    for mask in [None, empty] {
        let (masked, _) = emit(&run(vec![vector_clip(false), outline(2.0)]), mask);
        assert_eq!(format!("{masked:?}"), format!("{:?}", nodes(vec![outline(2.0)])));
    }
    let (unasked, _) = emit(&run(vec![outline(2.0)]), one_triangle());
    assert_eq!(shape(&unasked), ["stroke", "fill"]);
}

#[test]
fn only_turned_scaled_or_sheared_runs_have_a_transform() {
    let plain = vec![outline(1.0), blur(1.0), shadow(1.0, 1.0), karaoke(0.5, 1)];
    assert!(style(plain).transform(&text_rect(&run(Vec::new()))).is_none());
    assert!(matches!(*pushed(vec![rotation(0.0, 0.0, 1.0, None)]), Transform::Parts { .. }));
    assert!(matches!(*pushed(vec![scale(100.0, 100.0)]), Transform::Parts { .. }));
    assert!(matches!(*pushed(vec![shear(0.0, 0.0)]), Transform::Parts { .. }));
    assert!(matches!(*pushed(vec![rotation(-0.0, 0.0, 1.0, None)]), Transform::Parts { .. }));
    assert!(matches!(*pushed(vec![rotation(1.0, 0.0, 0.0, None)]), Transform::Projective { .. }));
    assert!(matches!(*pushed(vec![rotation(0.0, -1.0, 0.0, None)]), Transform::Projective { .. }));
}

#[test]
fn a_flat_transform_has_parts() {
    let t = pushed(vec![rotation(0.0, 0.0, 30.0, None), scale(150.0, 70.0), shear(0.5, 0.25)]);
    let (scale, rotate, shear, origin) = parts(&t);
    assert_eq!(scale, [1.5, 1.0]);
    assert_eq!(rotate, -(30.0f32.to_radians()));
    assert_eq!(shear, [0.5, 0.25]);
    assert_eq!(origin, [0.5, 0.5]);
    let (scale, rotate, shear, _) = parts(&pushed(vec![rotation(0.0, 0.0, 0.0, None)]));
    assert_eq!((scale, rotate, shear), ([1.0, 1.0], 0.0, [0.0, 0.0]));
}

#[test]
fn a_flat_pivot_keeps_its_place() {
    let (_, _, _, origin) = parts(&pushed(vec![rotation(0.0, 0.0, 30.0, Some((1300.0, -50.0)))]));
    assert_eq!(origin, [10.0, -5.0]);
    assert_eq!(100.0 + 120.0 * origin[0], 1300.0);
    assert_eq!(200.0 + 50.0 * origin[1], -50.0);
}

#[test]
fn a_tilted_run_turns_about_its_centre_or_the_given_one() {
    for (origin, px, py) in [(None, 160.0, 225.0), (Some((40.0, 50.0)), 40.0, 50.0)] {
        let t = pushed(vec![rotation(40.0, 20.0, 10.0, origin), scale(150.0, 1.0), shear(0.1, 0.2)]);
        match &*t {
            Transform::Projective { row_x, row_y, row_w } => {
                assert!((at(row_x, px, py) - px).abs() < 0.01);
                assert!((at(row_y, px, py) - py).abs() < 0.01);
                assert!((at(row_w, px, py) - 1.0).abs() < 1e-4);
                assert!(eval(&row_w.b) < 0.0);
            }
            t => panic!("a projection was expected: {t:?}"),
        }
    }
}

#[test]
fn a_transform_wraps_the_blur_layer() {
    let nodes = nodes(vec![blur(2.0), rotation(0.0, 0.0, 30.0, None)]);
    assert_eq!(
        shape(&nodes),
        ["transform", "layer", "transform", "fill", "/transform", "/layer", "/transform"]
    );
}

#[test]
fn every_run_is_tidy() {
    let (nodes, next) = emit(&run(everything()), one_triangle());
    assert_eq!(
        shape(&nodes)[..5],
        ["clip", "mask", "transform", "layer", "transform"]
    );
    assert_eq!(assert_tidy(&nodes, 1), next);
    assert_eq!(next, 5);
    assert_eq!(assert_tidy(&emit(&run(everything()), None).0, 1), 5);
}

#[test]
fn every_drawing_of_a_run_is_there() {
    let texts = |effects: Vec<TextEffect>| {
        nodes(effects).iter().filter(|n| matches!(n, SceneNode::Text { .. })).count()
    };
    assert_eq!(texts(Vec::new()), 1);
    assert_eq!(texts(vec![outline(1.0)]), 2);
    assert_eq!(texts(vec![outline(1.0), shadow(1.0, 1.0)]), 4);
    assert_eq!(texts(vec![shadow(1.0, 1.0), karaoke(0.5, 1)]), 3);
    assert_eq!(texts(vec![outline(1.0), shadow(1.0, 1.0), karaoke(0.5, 0)]), 4);
    assert_eq!(texts(everything()), 6);
}

#[test]
fn layer_ids_wrap_to_one() {
    let mut ctx = LayerCtx { next_layer_id: u32::MAX - 1 };
    assert_eq!(ctx.allocate(), u32::MAX - 1);
    assert_eq!(ctx.allocate(), u32::MAX);
    assert_eq!(ctx.allocate(), 1);
    assert_eq!(ctx.next_layer_id, 2);
}

/// The nodes of two runs, compared as they are.
fn assert_same_nodes(a: Vec<TextEffect>, b: Vec<TextEffect>) {
    let (a, b) = (emit(&run(a), one_triangle()), emit(&run(b), one_triangle()));
    assert_eq!(format!("{a:?}"), format!("{b:?}"));
}

#[test]
fn the_earlier_of_a_kind_is_not_drawn() {
    let pairs: Vec<(TextEffect, TextEffect)> = vec![
        (TextEffect::Bold, TextEffect::Bold),
        (TextEffect::Italic, TextEffect::Italic),
        (TextEffect::Underline, TextEffect::Underline),
        (TextEffect::Strikethrough, TextEffect::Strikethrough),
        (outline(1.0), outline(2.0)),
        (shadow(1.0, 2.0), shadow(3.0, 4.0)),
        (karaoke(0.1, 0), karaoke(0.5, 1)),
        (rotation(10.0, 0.0, 0.0, None), rotation(0.0, 0.0, 5.0, None)),
        (scale(50.0, 1.0), scale(150.0, 1.0)),
        (clip(0.0, 0.0, 1.0, 1.0, true), clip(1.0, 2.0, 3.0, 4.0, false)),
        (vector_clip(true), vector_clip(false)),
        (
            TextEffect::OpaqueBox { color: WHITE, padding: single(1.0) },
            TextEffect::OpaqueBox { color: GREY, padding: single(2.0) },
        ),
    ];
    for (earlier, later) in pairs {
        let between = || vec![blur(1.0), outline(3.0), shear(0.5, 0.0)];
        let with: Vec<TextEffect> =
            [vec![earlier], between(), vec![later.clone()], vec![edge_blur(1.0)]].concat();
        let without: Vec<TextEffect> =
            [between(), vec![later], vec![edge_blur(1.0)]].concat();
        assert_same_nodes(with, without);
    }
}

#[test]
fn two_blurs_are_the_stronger_one() {
    assert_same_nodes(vec![blur(2.0), outline(1.0), blur(5.0)], vec![outline(1.0), blur(5.0)]);
    assert_same_nodes(vec![blur(5.0), outline(1.0), blur(2.0)], vec![outline(1.0), blur(5.0)]);
    assert_same_nodes(
        vec![outline(1.0), edge_blur(f32::NAN), edge_blur(2.0)],
        vec![outline(1.0), edge_blur(2.0)],
    );
    assert_same_nodes(vec![blur(-1.0), blur(-0.0)], vec![blur(-0.0)]);
}

#[test]
fn two_shears_are_their_sum() {
    let two = pushed(vec![shear(0.25, 1.0), scale(150.0, 1.0), shear(0.5, -3.0)]);
    let one = pushed(vec![scale(150.0, 1.0), shear(0.75, -2.0)]);
    assert_eq!(parts(&two), parts(&one));
    let tilt = || rotation(30.0, 0.0, 0.0, None);
    let two = pushed(vec![shear(0.25, 1.0), tilt(), shear(0.5, -3.0)]);
    let one = pushed(vec![tilt(), shear(0.75, -2.0)]);
    match (&*two, &*one) {
        (
            Transform::Projective { row_x: a, row_y: b, row_w: c },
            Transform::Projective { row_x: d, row_y: e, row_w: f },
        ) => {
            for (r, s) in [(a, d), (b, e), (c, f)] {
                assert_eq!(
                    [eval(&r.a), eval(&r.b), eval(&r.c)],
                    [eval(&s.a), eval(&s.b), eval(&s.c)]
                );
            }
        }
        _ => panic!("projections were expected"),
    }
}

#[test]
fn a_tilted_run_is_scaled_before_it_is_sheared() {
    let tilted = rotation(1e-30, 0.0, 0.0, Some((0.0, 0.0)));
    match &*pushed(vec![tilted, scale(200.0, 1.0), shear(1.0, 0.0)]) {
        Transform::Projective { row_x, row_y, .. } => {
            assert_eq!([eval(&row_x.a), eval(&row_x.b), eval(&row_x.c)], [2.0, 1.0, 0.0]);
            assert_eq!([eval(&row_y.a), eval(&row_y.b), eval(&row_y.c)], [0.0, 1.0, 0.0]);
        }
        t => panic!("a projection was expected: {t:?}"),
    }
}
