//! A dialogue line drawn as a scene covers the frame like the dialogue laid out
//! directly: both cover pixels, the ink mass is in the same ballpark, and the
//! centres agree.
//!
//! Glyphs are drawn as solid blocks over the rectangle of their run, on both
//! sides; drawings are tessellated and rasterized triangle by triangle.

use lyon_path::math::point;
use lyon_path::Path;
use lyon_tessellation::{
    BuffersBuilder, FillOptions, FillTessellator, FillVertex, StrokeOptions, StrokeTessellator,
    StrokeVertex, VertexBuffers,
};
use repose_scene::assembly::{
    layers_to_scene, next_tessellation, Answer, BuiltScene, PathSource, TessJob,
};
use repose_scene::effects::{Effects, TextEffect};
use repose_scene::formula::Formula;
use repose_scene::frame::covered_pixels;
use repose_scene::layers::{IntermediateLayer, StrokeInfo, TextData, VectorData};
use repose_scene::mesh::Triangles;
use repose_scene::scene::{DrawStyle, SceneNode};
use repose_scene::single::Single;
use std::sync::Arc;

const WIDTH: usize = 640;
const HEIGHT: usize = 360;

/// Size, colours and effects of the default style.
const FONT_SIZE: f32 = 48.0;
const PRIMARY: [u8; 4] = [255, 255, 255, 255];
const OUTLINE: [u8; 4] = [0, 0, 0, 255];
const BACK: [u8; 4] = [0, 0, 0, 127];

fn single(x: f32) -> Single {
    Single::from_bits(x.to_bits())
}

fn eval(f: &Formula) -> f32 {
    match f {
        Formula::Number(n) => f32::from_bits(n.bits),
        Formula::Count(n) => *n as f32,
        Formula::Sum(a, b) => eval(a) + eval(b),
        Formula::Difference(a, b) => eval(a) - eval(b),
        Formula::Product(a, b) => eval(a) * eval(b),
        Formula::Quotient(a, b) => eval(a) / eval(b),
        Formula::Larger(a, b) => eval(a).max(eval(b)),
        Formula::Clamped(a, low, high) => {
            eval(a).clamp(f32::from_bits(low.bits), f32::from_bits(high.bits))
        }
        _ => panic!("no such formula in these scenes: {f:?}"),
    }
}

/// The number that follows a tag in an override block, or the default.
fn tag_value(block: &str, tag: &str, default: f32) -> f32 {
    match block.split('\\').find(|t| t.starts_with(tag)) {
        Some(t) => t[tag.len()..].parse().expect("tag value"),
        None => default,
    }
}

/// The layers of one centred dialogue line, and the rectangle it takes up.
fn layers_of(dialogue: &str) -> (Vec<IntermediateLayer>, [f32; 4]) {
    let (block, rest) = match dialogue.strip_prefix('{') {
        Some(tail) => tail.split_once('}').expect("closed block"),
        None => ("", dialogue),
    };
    let border = tag_value(block, "bord", 2.0);
    let shadow = tag_value(block, "shad", 2.0);
    let (cx, cy) = (WIDTH as f32 / 2.0, HEIGHT as f32 / 2.0);
    if tag_value(block, "p", 0.0) > 0.0 {
        let commands = rest.split('{').next().expect("drawing");
        let mut points: Vec<(f32, f32)> = Vec::new();
        let mut numbers: Vec<f32> = Vec::new();
        for word in commands.split_whitespace() {
            if let Ok(n) = word.parse::<f32>() {
                numbers.push(n);
                if numbers.len() == 2 {
                    points.push((numbers[0], numbers[1]));
                    numbers.clear();
                }
            }
        }
        let w = points.iter().fold(0.0f32, |m, p| m.max(p.0));
        let h = points.iter().fold(0.0f32, |m, p| m.max(p.1));
        let (x, y) = (cx - w / 2.0, cy - h / 2.0);
        let mut builder = Path::builder();
        builder.begin(point(x + points[0].0, y + points[0].1));
        for p in &points[1..] {
            builder.line_to(point(x + p.0, y + p.1));
        }
        builder.close();
        let layer = IntermediateLayer::Vector(VectorData {
            path: Some(builder.build()),
            color: PRIMARY,
            stroke: Some(StrokeInfo { color: OUTLINE, width: single(border) }),
            bounds: None,
        });
        return (vec![layer], [x, y, w, h]);
    }
    let w = rest.chars().count() as f32 * FONT_SIZE * 0.6;
    let h = FONT_SIZE * 1.4;
    let (x, y) = (cx - w / 2.0, cy - h / 2.0);
    let effects = vec![
        TextEffect::Outline { color: OUTLINE, width_x: single(border), width_y: single(border) },
        TextEffect::Shadow { color: BACK, x_offset: single(shadow), y_offset: single(shadow) },
    ];
    let layer = IntermediateLayer::Text(Box::new(TextData {
        text: rest.to_string(),
        font_family: "DejaVu Sans".to_string(),
        font_size: single(FONT_SIZE),
        color: PRIMARY,
        x: single(x),
        y: single(y),
        effects: Effects::from_vec(effects),
        spacing: single(0.0),
        measured: None,
    }));
    (vec![layer], [x, y, w, h])
}

fn path_of(layer: &IntermediateLayer, source: PathSource) -> &Path {
    match (layer, source) {
        (IntermediateLayer::Vector(data), PathSource::Drawing) => data.path.as_ref().expect("path"),
        _ => panic!("only drawings have paths here"),
    }
}

fn answers_of(layer: &IntermediateLayer) -> Vec<Answer> {
    let mut answers: Vec<Answer> = Vec::new();
    while let Some(request) = next_tessellation(layer, &answers) {
        let path = path_of(layer, request.source);
        let mut buffers: VertexBuffers<[f32; 2], u32> = VertexBuffers::new();
        let ok = match &request.job {
            TessJob::Fill { tolerance } => FillTessellator::new()
                .tessellate(
                    path,
                    &FillOptions::tolerance(eval(tolerance)),
                    &mut BuffersBuilder::new(&mut buffers, |v: FillVertex| v.position().to_array()),
                )
                .is_ok(),
            TessJob::Stroke { tolerance, line_width } => StrokeTessellator::new()
                .tessellate(
                    path,
                    &StrokeOptions::tolerance(eval(tolerance)).with_line_width(eval(line_width)),
                    &mut BuffersBuilder::new(&mut buffers, |v: StrokeVertex| {
                        v.position().to_array()
                    }),
                )
                .is_ok(),
        };
        assert!(ok, "tessellation");
        answers.push(Some(Arc::new(Triangles {
            positions: buffers.vertices.iter().map(|p| (single(p[0]), single(p[1]))).collect(),
            indices: buffers.indices,
        })));
    }
    answers
}

/// Puts `alpha` on a pixel, over what is there.
fn cover(frame: &mut [u8], x: usize, y: usize, alpha: u8) {
    let i = 4 * (y * WIDTH + x) + 3;
    frame[i] = frame[i].max(alpha);
}

fn fill_rect(frame: &mut [u8], rect: [f32; 4], alpha: u8) {
    for y in 0..HEIGHT {
        for x in 0..WIDTH {
            let (px, py) = (x as f32 + 0.5, y as f32 + 0.5);
            if px >= rect[0] && px < rect[0] + rect[2] && py >= rect[1] && py < rect[1] + rect[3] {
                cover(frame, x, y, alpha);
            }
        }
    }
}

fn side(a: [f32; 2], b: [f32; 2], p: [f32; 2]) -> f32 {
    (b[0] - a[0]) * (p[1] - a[1]) - (b[1] - a[1]) * (p[0] - a[0])
}

fn fill_triangle(frame: &mut [u8], t: [[f32; 2]; 3], alpha: u8) {
    for y in 0..HEIGHT {
        for x in 0..WIDTH {
            let p = [x as f32 + 0.5, y as f32 + 0.5];
            let s = [side(t[0], t[1], p), side(t[1], t[2], p), side(t[2], t[0], p)];
            if s.iter().all(|v| *v >= 0.0) || s.iter().all(|v| *v <= 0.0) {
                cover(frame, x, y, alpha);
            }
        }
    }
}

/// Draws a scene of texts and meshes.
fn draw(built: &BuiltScene) -> Vec<u8> {
    let mut frame = vec![0u8; WIDTH * HEIGHT * 4];
    for node in &built.scene.nodes {
        match node {
            SceneNode::Text { rect, color, draw_style, .. } => {
                let mut r = [eval(&rect.x), eval(&rect.y), eval(&rect.w), eval(&rect.h)];
                if let DrawStyle::Stroke { width, .. } = draw_style {
                    let pad = eval(width) * FONT_SIZE / 2.0;
                    r = [r[0] - pad, r[1] - pad, r[2] + 2.0 * pad, r[3] + 2.0 * pad];
                }
                fill_rect(&mut frame, r, color[3]);
            }
            SceneNode::VectorMesh { mesh, .. } => {
                let vertices = mesh.vertices();
                let pos = |i: u32| {
                    let v = vertices[i as usize];
                    [f32::from_bits(v.pos.0.bits), f32::from_bits(v.pos.1.bits)]
                };
                for t in mesh.triangles.indices.chunks(3) {
                    fill_triangle(&mut frame, [pos(t[0]), pos(t[1]), pos(t[2])], 255);
                }
            }
            _ => panic!("no other node in these scenes: {node:?}"),
        }
    }
    frame
}

/// (covered pixels, ink mass, centre x, centre y) of a frame.
fn stats(rgba: &[u8]) -> (u64, u64, f64, f64) {
    let (mut n, mut mass, mut sx, mut sy) = (0u64, 0u64, 0u64, 0u64);
    for (i, px) in rgba.chunks(4).enumerate() {
        if px[3] > 8 {
            n += 1;
            mass += u64::from(px[3]);
            sx += (i % WIDTH) as u64;
            sy += (i / WIDTH) as u64;
        }
    }
    (n, mass, sx as f64 / n.max(1) as f64, sy as f64 / n.max(1) as f64)
}

fn assert_structural_parity(dialogue: &str) {
    let (layers, rect) = layers_of(dialogue);
    let mut direct = vec![0u8; WIDTH * HEIGHT * 4];
    fill_rect(&mut direct, rect, 255);
    let meshes: Vec<Vec<Answer>> = layers.iter().map(answers_of).collect();
    let built = layers_to_scene(&layers, WIDTH as u32, HEIGHT as u32, &meshes);
    assert_eq!((built.skipped_raster, built.skipped_tess), (0, 0));
    assert_eq!(built.scene.clear_color, [0, 0, 0, 0]);
    let scene = draw(&built);
    let (dn, dmass, dcx, dcy) = stats(&direct);
    let (sn, smass, scx, scy) = stats(&scene);
    assert!(dn > 100, "the line must cover pixels, got {dn}");
    assert!(sn > 100, "the scene must cover pixels, got {sn}");
    assert_eq!(covered_pixels(&scene), sn);
    let mass_ratio = smass as f64 / dmass.max(1) as f64;
    assert!((0.25..4.0).contains(&mass_ratio), "ink mass: direct={dmass} scene={smass}");
    assert!(
        (scx - dcx).abs() < 24.0 && (scy - dcy).abs() < 24.0,
        "centres must agree: direct=({dcx:.1},{dcy:.1}) scene=({scx:.1},{scy:.1})"
    );
}

#[test]
fn plain_text_structural_parity() {
    assert_structural_parity("Hello");
}

#[test]
fn shadow_outline_structural_parity() {
    assert_structural_parity(r"{\bord3\shad4}Hello");
}

#[test]
fn vector_drawing_structural_parity() {
    assert_structural_parity(r"{\p1}m 0 0 l 100 0 l 100 100 l 0 100{\p0}");
}
