use repose_scene::backend::{RenderContext, RenderError};
use repose_scene::layers::{IntermediateLayer, PipelineStage, RasterData};
use repose_scene::pipeline::{centiseconds, Pipeline};
use repose_scene::region::DirtyRegion;

/// Draws one pixel at the time of the frame.
struct Clock {
    calls: u32,
}

impl Pipeline for Clock {
    type Script = String;
    type Analysis = ();
    type Event = u32;
    type State = ();

    fn prepare_script(&mut self, script: &String, _analysis: Option<&()>) -> Result<(), RenderError> {
        if script.is_empty() {
            return Err(RenderError::BackendError("empty".to_string()));
        }
        Ok(())
    }

    fn script(&self) -> Option<&String> {
        None
    }

    fn process_events(
        &mut self,
        events: &[&u32],
        time_cs: u32,
        context: &RenderContext,
    ) -> Result<Vec<IntermediateLayer>, RenderError> {
        self.calls += 1;
        let data = RasterData {
            pixels: vec![0; 4],
            x: time_cs,
            y: events.len() as u32,
            width: context.width,
            height: context.height,
            opacity: 255,
        };
        Ok(vec![IntermediateLayer::Raster(data)])
    }

    fn compute_dirty_regions(
        &self,
        events: &[&u32],
        time_cs: u32,
        prev_time_cs: u32,
    ) -> Result<Vec<DirtyRegion>, RenderError> {
        let region = DirtyRegion {
            x: prev_time_cs,
            y: time_cs,
            width: events.len() as u32,
            height: 1,
        };
        Ok(vec![region])
    }
}

#[test]
fn milliseconds_are_cut_to_centiseconds() {
    assert_eq!(centiseconds(0), 0);
    assert_eq!(centiseconds(9), 0);
    assert_eq!(centiseconds(10), 1);
    assert_eq!(centiseconds(2009), 200);
    assert_eq!(centiseconds(42_949_672_959), u32::MAX);
    assert_eq!(centiseconds(42_949_672_960), u32::MAX);
    assert_eq!(centiseconds(u64::MAX), u32::MAX);
}

#[test]
fn processing_in_milliseconds_cuts_the_time() {
    let mut clock = Clock { calls: 0 };
    let context = RenderContext { width: 2, height: 3 };
    let layers = clock.process_events_ms(&[&5, &6], 2009, &context).expect("layers");
    assert_eq!(clock.calls, 1);
    match &layers[0] {
        IntermediateLayer::Raster(data) => {
            assert_eq!((data.x, data.y, data.width, data.height), (200, 2, 2, 3));
        }
        _ => panic!("a bitmap was expected"),
    }
}

#[test]
fn a_pipeline_can_be_boxed() {
    let mut boxed: Box<dyn Pipeline<Script = String, Analysis = (), Event = u32, State = ()>> =
        Box::new(Clock { calls: 0 });
    assert!(boxed.prepare_script(&"[Events]".to_string(), None).is_ok());
    assert!(boxed.prepare_script(&String::new(), None).is_err());
    assert!(boxed.script().is_none());
    let context = RenderContext { width: 2, height: 3 };
    assert_eq!(boxed.process_events_ms(&[&5], 10, &context).expect("layers").len(), 1);
}

#[test]
fn dirty_regions_in_milliseconds_cut_both_times() {
    let clock = Clock { calls: 0 };
    let regions = clock.compute_dirty_regions_ms(&[&5], u64::MAX, 19).expect("regions");
    assert_eq!(regions, vec![DirtyRegion { x: 1, y: u32::MAX, width: 1, height: 1 }]);
}

#[test]
fn stages_are_told_apart() {
    let stages = [
        PipelineStage::Shaping,
        PipelineStage::Drawing,
        PipelineStage::Effects,
        PipelineStage::Compositing,
    ];
    let names: Vec<String> = stages.iter().map(|s| format!("{s:?}")).collect();
    assert_eq!(names, ["Shaping", "Drawing", "Effects", "Compositing"]);
}
