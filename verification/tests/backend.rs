use repose_scene::assembly::BuiltScene;
use repose_scene::backend::{
    check_losses, Action, BackendFeature, BackendType, RenderContext, RenderError, ReposeBackend,
};
use repose_scene::scene::Scene;

fn frame(width: u32, height: u32) -> RenderContext {
    RenderContext { width, height }
}

fn report(r: Result<(), RenderError>) -> String {
    match r {
        Ok(()) => panic!("a failure was expected"),
        Err(RenderError::BackendError(report)) => report,
    }
}

fn built(skipped_raster: usize, skipped_tess: usize) -> BuiltScene {
    let scene = Scene { clear_color: [0, 0, 0, 0], nodes: Vec::new() };
    BuiltScene { scene, skipped_raster, skipped_tess }
}

#[test]
fn a_backend_starts_without_a_renderer() {
    let backend = ReposeBackend::new(&frame(640, 360));
    assert_eq!((backend.width, backend.height, backend.acquired), (640, 360, false));
    let tiny = ReposeBackend::new(&frame(0, 0));
    assert_eq!((tiny.width, tiny.height), (1, 1));
    assert_eq!(backend.backend_type(), BackendType::Repose);
    assert!(backend.supports_feature(BackendFeature::HardwareAcceleration));
    assert!(!backend.supports_feature(BackendFeature::Other));
}

#[test]
fn a_frame_is_one_action_away() {
    let mut backend = ReposeBackend::new(&frame(640, 360));
    let first = backend.next_action(&frame(640, 360));
    assert_eq!(first, Action::Acquire { width: 640, height: 360, samples: 4 });
    assert!(backend.complete(first, Ok(())).is_ok());
    let draw = backend.next_action(&frame(640, 360));
    assert_eq!(draw, Action::Draw { width: 640, height: 360 });
    assert!(backend.complete(draw, Ok(())).is_ok());
    let resize = backend.next_action(&frame(1280, 0));
    assert_eq!(resize, Action::Resize { width: 1280, height: 1 });
    assert!(backend.complete(resize, Ok(())).is_ok());
    assert_eq!(backend.next_action(&frame(1280, 0)), Action::Draw { width: 1280, height: 1 });
    assert_eq!((backend.width, backend.height, backend.acquired), (1280, 1, true));
}

#[test]
fn a_renderer_is_acquired_in_the_size_of_the_frame() {
    let backend = ReposeBackend::new(&frame(640, 360));
    let action = backend.next_action(&frame(320, 180));
    assert_eq!(action, Action::Acquire { width: 320, height: 180, samples: 4 });
}

#[test]
fn a_missing_adapter_is_named() {
    let mut backend = ReposeBackend::new(&frame(640, 360));
    let action = backend.next_action(&frame(640, 360));
    let text = report(backend.complete(action, Err("no adapter".to_string())));
    assert!(text.contains("WGPU adapter"));
    assert_eq!(
        text,
        "repose backend needs a WGPU adapter (mesa-vulkan-drivers suffices for headless/CI); \
         render failed: no adapter"
    );
    assert!(!backend.acquired);
    assert_eq!(backend.next_action(&frame(640, 360)), action);
}

#[test]
fn a_failed_resize_or_draw_is_reported() {
    let mut backend = ReposeBackend { width: 4, height: 3, acquired: true };
    let resize = backend.next_action(&frame(8, 6));
    let text = report(backend.complete(resize, Err("too large".to_string())));
    assert_eq!(text, "repose offscreen resize failed: too large");
    assert_eq!((backend.width, backend.height), (4, 3));
    let draw = backend.next_action(&frame(4, 3));
    let text = report(backend.complete(draw, Err("device lost".to_string())));
    assert_eq!(text, "repose offscreen render failed: device lost");
}

#[test]
fn lost_drawings_fail_the_frame() {
    assert!(check_losses(&built(0, 0)).is_ok());
    assert!(check_losses(&built(7, 0)).is_ok());
    assert_eq!(
        report(check_losses(&built(0, 1))),
        "repose backend dropped 1 vector layer(s): tessellation failed"
    );
    assert_eq!(
        report(check_losses(&built(0, 1029))),
        "repose backend dropped 1029 vector layer(s): tessellation failed"
    );
}
