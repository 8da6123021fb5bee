//! Layers to scene.

use lyon_path::math::point;
use lyon_path::Path;
use repose_scene::assembly::{
    build_scene, layers_to_scene, next_tessellation, raster_upload, Answer, ImageUpload, PathSource,
    TessJob,
};
use repose_scene::backend::ReposeBackend;
use repose_scene::effects::{Effects, TextEffect};
use repose_scene::formula::Formula;
use repose_scene::layers::{IntermediateLayer, RasterData, StrokeInfo, TextData, VectorData};
use repose_scene::mesh::{premult_linear, Mesh, Triangles};
use repose_scene::scene::{BlendMode, ImageFit, Paint, SceneNode};
use repose_scene::single::Single;
use std::sync::Arc;

fn single(x: f32) -> Single {
    Single::from_bits(x.to_bits())
}

fn eval(f: &Formula) -> f32 {
    match f {
        Formula::Number(n) => f32::from_bits(n.bits),
        Formula::Count(n) => *n as f32,
        Formula::Product(a, b) => eval(a) * eval(b),
        Formula::Larger(a, b) => eval(a).max(eval(b)),
        Formula::LinearChannel(c, i) => {
            repose_core::Color::from_rgba(c[0], c[1], c[2], c[3]).to_linear()[*i as usize]
        }
        _ => panic!("no such formula here: {f:?}"),
    }
}

fn channels(mesh: &Mesh) -> [f32; 4] {
    let c = &mesh.color;
    [eval(&c.r), eval(&c.g), eval(&c.b), eval(&c.a)]
}

fn bitmap(width: u32, height: u32, bytes: usize) -> RasterData {
    RasterData { pixels: vec![7; bytes], x: 3, y: 4, width, height, opacity: 10 }
}

fn raster(width: u32, height: u32, bytes: usize) -> IntermediateLayer {
    IntermediateLayer::Raster(bitmap(width, height, bytes))
}

fn square() -> Path {
    let mut builder = Path::builder();
    builder.begin(point(0.0, 0.0));
    builder.line_to(point(9.0, 0.0));
    builder.line_to(point(9.0, 9.0));
    builder.close();
    builder.build()
}

fn drawing(path: Option<Path>, border: Option<f32>) -> IntermediateLayer {
    IntermediateLayer::Vector(VectorData {
        path,
        color: [255, 0, 0, 255],
        stroke: border.map(|w| StrokeInfo { color: [0, 255, 0, 51], width: single(w) }),
        bounds: None,
    })
}

fn text(effects: Vec<TextEffect>) -> IntermediateLayer {
    IntermediateLayer::Text(Box::new(TextData {
        text: "Hi".to_string(),
        font_family: String::new(),
        font_size: single(20.0),
        color: [1, 2, 3, 4],
        x: single(0.0),
        y: single(0.0),
        effects: Effects::from_vec(effects),
        spacing: single(0.0),
        measured: None,
    }))
}

fn triangles(n: u32) -> Answer {
    let positions = (0..3).map(|i| (single(i as f32), single(2.0 * i as f32))).collect();
    Some(Arc::new(Triangles { positions, indices: vec![0; 3 * n as usize] }))
}

fn kinds(nodes: &[SceneNode]) -> Vec<&'static str> {
    nodes
        .iter()
        .map(|n| match n {
            SceneNode::Text { .. } => "text",
            SceneNode::Image { .. } => "image",
            SceneNode::VectorMesh { .. } => "mesh",
            SceneNode::BeginLayer { .. } => "layer",
            _ => "other",
        })
        .collect()
}

#[test]
fn bitmaps_with_pixels_are_uploaded() {
    let want = ImageUpload { width: 2, height: 5, srgb: true };
    assert_eq!(raster_upload(&bitmap(2, 5, 40)), Some(want));
    assert_eq!(raster_upload(&bitmap(0, 5, 40)), None);
    assert_eq!(raster_upload(&bitmap(2, 0, 40)), None);
    assert_eq!(raster_upload(&bitmap(2, 5, 0)), None);
}

#[test]
fn an_uploaded_bitmap_is_an_image_over_its_pixels() {
    let built = build_scene(&[raster(2, 5, 40)], 640, 360, &[Some(77)], &[]);
    assert_eq!((built.skipped_raster, built.skipped_tess), (0, 0));
    match &built.scene.nodes[0] {
        SceneNode::Image { rect, handle, tint, fit } => {
            let r = [eval(&rect.x), eval(&rect.y), eval(&rect.w), eval(&rect.h)];
            assert_eq!(r, [3.0, 4.0, 2.0, 5.0]);
            assert_eq!(*handle, 77);
            assert_eq!(*tint, [255, 255, 255, 255]);
            assert_eq!(*fit, ImageFit::FillBounds);
        }
        node => panic!("an image was expected: {node:?}"),
    }
}

#[test]
fn bitmaps_need_a_renderer() {
    let layers = [raster(2, 5, 40), text(Vec::new()), raster(0, 0, 0)];
    let built = layers_to_scene(&layers, 640, 360, &[]);
    assert_eq!((built.skipped_raster, built.skipped_tess), (2, 0));
    assert_eq!(kinds(&built.scene.nodes), ["text"]);
    let same = ReposeBackend::build_scene(&layers, 1, 1, &[]);
    assert_eq!(format!("{same:?}"), format!("{built:?}"));
}

#[test]
fn an_empty_bitmap_is_counted_even_with_a_renderer() {
    let built = build_scene(&[raster(0, 5, 40)], 640, 360, &[Some(77)], &[]);
    assert_eq!(built.skipped_raster, 1);
    assert!(built.scene.nodes.is_empty());
}

#[test]
fn nothing_is_an_empty_transparent_scene() {
    let built = layers_to_scene(&[], 640, 360, &[]);
    assert_eq!(built.scene.clear_color, [0, 0, 0, 0]);
    assert!(built.scene.nodes.is_empty());
    assert_eq!((built.skipped_raster, built.skipped_tess), (0, 0));
}

#[test]
fn a_drawing_is_filled_then_bordered() {
    let layers = [drawing(Some(square()), Some(2.0))];
    let meshes = [vec![triangles(1), triangles(2)]];
    let built = layers_to_scene(&layers, 640, 360, &meshes);
    assert_eq!(built.skipped_tess, 0);
    match (&built.scene.nodes[0], &built.scene.nodes[1]) {
        (SceneNode::VectorMesh { mesh: fill, .. }, SceneNode::VectorMesh { mesh: border, .. }) => {
            assert_eq!(channels(fill), [1.0, 0.0, 0.0, 1.0]);
            assert_eq!(channels(border), [0.0, 0.2, 0.0, 0.2]);
            assert_eq!(fill.triangles.indices.len(), 3);
            assert_eq!(border.triangles.indices.len(), 6);
            let vertices = fill.vertices();
            assert_eq!(vertices.len(), 3);
            assert_eq!(vertices[2].pos, (single(2.0), single(4.0)));
            assert_eq!(vertices[2].uv, (single(0.0), single(0.0)));
        }
        nodes => panic!("two meshes were expected: {nodes:?}"),
    }
    assert_eq!(built.scene.nodes.len(), 2);
}

#[test]
fn a_drawing_without_border_is_filled_once() {
    let built = layers_to_scene(&[drawing(Some(square()), None)], 1, 1, &[vec![triangles(1)]]);
    assert_eq!(kinds(&built.scene.nodes), ["mesh"]);
    assert_eq!(built.skipped_tess, 0);
}

#[test]
fn lost_drawings_are_counted_once() {
    let lost = |path: Option<Path>, border: Option<f32>, answers: Vec<Answer>| {
        let built = layers_to_scene(&[drawing(path, border)], 1, 1, &[answers]);
        (built.scene.nodes.len(), built.skipped_tess)
    };
    assert_eq!(lost(None, None, vec![triangles(1)]), (0, 1));
    assert_eq!(lost(Some(square()), None, Vec::new()), (0, 1));
    assert_eq!(lost(Some(square()), None, vec![None]), (0, 1));
    assert_eq!(lost(Some(square()), None, vec![triangles(0)]), (0, 1));
    assert_eq!(lost(Some(square()), Some(1.0), vec![None, triangles(1)]), (0, 1));
    assert_eq!(lost(Some(square()), Some(1.0), vec![triangles(1)]), (1, 1));
    assert_eq!(lost(Some(square()), Some(1.0), vec![triangles(1), None]), (1, 1));
    assert_eq!(lost(Some(square()), Some(1.0), vec![triangles(1), triangles(0)]), (1, 1));
    assert_eq!(lost(Some(square()), Some(1.0), vec![triangles(1), triangles(1)]), (2, 0));
}

#[test]
fn colours_are_premultiplied_in_linear_light() {
    let c = premult_linear([128, 255, 0, 51]);
    let linear = ((128.0f32 / 255.0 + 0.055) / 1.055).powf(2.4);
    assert_eq!(eval(&c.r), linear * 0.2);
    assert_eq!(eval(&c.g), 0.2);
    assert_eq!(eval(&c.b), 0.0);
    assert_eq!(eval(&c.a), 0.2);
}

#[test]
fn layers_are_drawn_in_order() {
    let layers = [
        text(Vec::new()),
        raster(1, 1, 4),
        drawing(Some(square()), None),
        text(vec![TextEffect::Bold]),
    ];
    let images = [None, Some(5), None, None];
    let meshes = [Vec::new(), Vec::new(), vec![triangles(1)], Vec::new()];
    let built = build_scene(&layers, 640, 360, &images, &meshes);
    assert_eq!(kinds(&built.scene.nodes), ["text", "image", "mesh", "text"]);
    let first = build_scene(&layers[..2], 640, 360, &images, &meshes);
    assert_eq!(format!("{:?}", first.scene.nodes), format!("{:?}", &built.scene.nodes[..2]));
}

#[test]
fn graphics_layers_are_numbered_through_the_scene() {
    let blurred = || text(vec![TextEffect::Blur { radius: single(1.0) }]);
    let layers = [blurred(), raster(1, 1, 4), blurred(), blurred()];
    let built = layers_to_scene(&layers, 640, 360, &[]);
    let ids: Vec<u32> = built
        .scene
        .nodes
        .iter()
        .filter_map(|n| match n {
            SceneNode::BeginLayer { layer_id, .. } => Some(*layer_id),
            _ => None,
        })
        .collect();
    assert_eq!(ids, [1, 2, 3]);
}

#[test]
fn a_drawing_is_asked_for_its_fill_and_its_border() {
    let layer = drawing(Some(square()), Some(0.1));
    let mut answers: Vec<Answer> = Vec::new();
    let fill = next_tessellation(&layer, &answers).expect("a fill");
    assert_eq!(fill.source, PathSource::Drawing);
    match &fill.job {
        TessJob::Fill { tolerance } => assert_eq!(eval(tolerance), 0.5),
        job => panic!("a fill was expected: {job:?}"),
    }
    answers.push(triangles(1));
    let stroke = next_tessellation(&layer, &answers).expect("a border");
    match &stroke.job {
        TessJob::Stroke { tolerance, line_width } => {
            assert_eq!((eval(tolerance), eval(line_width)), (0.5, 0.5));
        }
        job => panic!("a border was expected: {job:?}"),
    }
    answers.push(triangles(1));
    assert!(next_tessellation(&layer, &answers).is_none());
    let wide = next_tessellation(&drawing(Some(square()), Some(3.5)), &vec![triangles(1)]);
    match wide.expect("a border").job {
        TessJob::Stroke { line_width, .. } => assert_eq!(eval(&line_width), 3.5),
        job => panic!("a border was expected: {job:?}"),
    }
}

#[test]
fn nothing_more_is_asked_once_a_fill_failed() {
    let layer = drawing(Some(square()), Some(2.0));
    assert!(next_tessellation(&layer, &vec![None]).is_none());
    assert!(next_tessellation(&layer, &vec![triangles(0)]).is_none());
    assert!(next_tessellation(&drawing(None, Some(2.0)), &Vec::new()).is_none());
    assert!(next_tessellation(&drawing(Some(square()), None), &vec![triangles(1)]).is_none());
    assert!(next_tessellation(&raster(1, 1, 4), &Vec::new()).is_none());
}

#[test]
fn a_run_is_asked_for_its_last_clip() {
    let clip = || TextEffect::VectorClip { path: square(), inverse: false };
    let layer = text(vec![clip(), TextEffect::Bold, clip()]);
    let request = next_tessellation(&layer, &Vec::new()).expect("a clip");
    assert_eq!(request.source, PathSource::Clip { effect: 2 });
    assert!(matches!(request.job, TessJob::Fill { .. }));
    assert!(next_tessellation(&layer, &vec![None]).is_none());
    assert!(next_tessellation(&text(vec![TextEffect::Bold]), &Vec::new()).is_none());
    let built = layers_to_scene(&[layer], 640, 360, &[vec![triangles(1)]]);
    assert!(matches!(built.scene.nodes[0], SceneNode::PushVectorClip { .. }));
    assert_eq!(built.scene.nodes.len(), 3);
}

#[test]
fn a_mesh_is_drawn_where_it_is() {
    let built = layers_to_scene(&[drawing(Some(square()), None)], 1, 1, &[vec![triangles(1)]]);
    match &built.scene.nodes[0] {
        SceneNode::VectorMesh { placement: t, paint, clip, blend, .. } => {
            let map = [&t.m00, &t.m01, &t.m10, &t.m11, &t.tx, &t.ty];
            assert_eq!(map.map(|e| eval(e)), [1.0, 0.0, 0.0, 1.0, 0.0, 0.0]);
            assert_eq!(*paint, Paint::Solid);
            assert_eq!(*clip, None);
            assert_eq!(*blend, BlendMode::Alpha);
        }
        node => panic!("a mesh was expected: {node:?}"),
    }
}

#[test]
fn two_lists_make_one_scene_after_the_other() {
    let blurred = || text(vec![TextEffect::Blur { radius: single(1.0) }]);
    let first = || vec![blurred(), raster(1, 1, 4), blurred()];
    let second = || vec![drawing(None, None), blurred(), raster(1, 1, 4)];
    let both: Vec<IntermediateLayer> = first().into_iter().chain(second()).collect();
    let a = layers_to_scene(&first(), 1, 1, &[]);
    let b = layers_to_scene(&second(), 1, 1, &[]);
    let all = layers_to_scene(&both, 1, 1, &[]);
    assert_eq!(all.skipped_raster, a.skipped_raster + b.skipped_raster);
    assert_eq!(all.skipped_tess, a.skipped_tess + b.skipped_tess);
    let n = a.scene.nodes.len();
    assert_eq!(format!("{:?}", &all.scene.nodes[..n]), format!("{:?}", a.scene.nodes));
    let raised = format!("{:?}", b.scene.nodes).replace("layer_id: 1", "layer_id: 3");
    assert_eq!(format!("{:?}", &all.scene.nodes[n..]), raised);
}
