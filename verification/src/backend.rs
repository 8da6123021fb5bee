//! The backend that draws scenes offscreen, as far as it decides anything:
//! what has to happen before a frame can be drawn, what a failure leaves
//! behind, and what is reported.

use crate::assembly::{assembled, is_built, layers_to_scene, Answer, BuiltScene};
use crate::layers::IntermediateLayer;
use vstd::prelude::*;
use vstd::string::StringExecFns;

verus! {

/// Samples per pixel of the offscreen renderer.
pub const SAMPLES: u32 = 4;

/// The frame to draw.
#[derive(Clone, Copy, Debug, PartialEq, Eq, Structural)]
pub struct RenderContext {
    /// Width in pixels.
    pub width: u32,
    /// Height in pixels.
    pub height: u32,
}

/// What went wrong while rendering.
#[derive(Debug)]
pub enum RenderError {
    /// The backend failed, for this reason.
    BackendError(String),
}

/// The kinds of backend.
#[derive(Clone, Copy, Debug, PartialEq, Eq, Structural)]
pub enum BackendType {
    /// The software reference.
    Software,
    /// The scene-graph backend of this crate.
    Repose,
}

/// What a caller may ask of a backend.
#[derive(Clone, Copy, Debug, PartialEq, Eq, Structural)]
pub enum BackendFeature {
    /// Drawing on a graphics processor.
    HardwareAcceleration,
    /// Anything else.
    Other,
}

/// The next thing to do for a frame.
#[derive(Clone, Copy, Debug, PartialEq, Eq, Structural)]
pub enum Action {
    /// Create the offscreen renderer.
    Acquire {
        /// Width in pixels.
        width: u32,
        /// Height in pixels.
        height: u32,
        /// Samples per pixel.
        samples: u32,
    },
    /// Resize the offscreen renderer.
    Resize {
        /// Width in pixels.
        width: u32,
        /// Height in pixels.
        height: u32,
    },
    /// Build the scene and draw it.
    Draw {
        /// Width in pixels.
        width: u32,
        /// Height in pixels.
        height: u32,
    },
}

/// State of the backend: the size of its frames, and whether the offscreen
/// renderer exists. The renderer is created for the first frame, so that a
/// backend can be had without a graphics adapter.
pub struct ReposeBackend {
    /// Width of the frames in pixels.
    pub width: u32,
    /// Height of the frames in pixels.
    pub height: u32,
    /// Whether the offscreen renderer exists.
    pub acquired: bool,
}

/// A measure, but at least one pixel.
pub open spec fn at_least_one(n: u32) -> u32 {
    if n == 0 {
        1
    } else {
        n
    }
}

fn one_or_more(n: u32) -> (r: u32)
    ensures
        r == at_least_one(n),
{
    if n == 0 {
        1
    } else {
        n
    }
}

/// What a failed creation of the renderer is reported as.
pub open spec fn acquire_failure(detail: Seq<char>) -> Seq<char> {
    "repose backend needs a WGPU adapter (mesa-vulkan-drivers suffices for headless/CI); render failed: "@
        + detail
}

/// What a failed resize is reported as.
pub open spec fn resize_failure(detail: Seq<char>) -> Seq<char> {
    "repose offscreen resize failed: "@ + detail
}

/// What a failed draw is reported as.
pub open spec fn draw_failure(detail: Seq<char>) -> Seq<char> {
    "repose offscreen render failed: "@ + detail
}

/// What lost drawings are reported as.
pub open spec fn loss_report(lost: nat) -> Seq<char> {
    "repose backend dropped "@ + decimal(lost) + " vector layer(s): tessellation failed"@
}

/// The report of a failed action.
pub open spec fn failure(action: Action, detail: Seq<char>) -> Seq<char> {
    match action {
        Action::Acquire { .. } => acquire_failure(detail),
        Action::Resize { .. } => resize_failure(detail),
        Action::Draw { .. } => draw_failure(detail),
    }
}

impl ReposeBackend {
    /// Whether the frames have a size.
    pub open spec fn wf(self) -> bool {
        self.width >= 1 && self.height >= 1
    }

    /// A backend for frames of the size of `context`, at least one pixel each
    /// way, without a renderer yet.
    pub fn new(context: &RenderContext) -> (backend: ReposeBackend)
        ensures
            backend.wf(),
            backend.width == at_least_one(context.width),
            backend.height == at_least_one(context.height),
            context.width >= 1 ==> backend.width == context.width,
            context.height >= 1 ==> backend.height == context.height,
            context.width == 0 ==> backend.width == 1,
            context.height == 0 ==> backend.height == 1,
            !backend.acquired,
    {
        ReposeBackend {
            width: one_or_more(context.width),
            height: one_or_more(context.height),
            acquired: false,
        }
    }

    /// The scene of `layers`, without a renderer.
    pub fn build_scene(
        layers: &[IntermediateLayer],
        width: u32,
        height: u32,
        meshes: &[Vec<Answer>],
    ) -> (built: BuiltScene)
        ensures
            is_built(built, assembled(layers@, Seq::empty(), meshes@)),
    {
        layers_to_scene(layers, width, height, meshes)
    }

    /// Which backend this is.
    pub fn backend_type(&self) -> (kind: BackendType)
        ensures
            kind == BackendType::Repose,
    {
        BackendType::Repose
    }

    /// Whether the backend has a feature: hardware acceleration, and no other.
    pub fn supports_feature(&self, feature: BackendFeature) -> (r: bool)
        ensures
            r == (feature == BackendFeature::HardwareAcceleration),
    {
        match feature {
            BackendFeature::HardwareAcceleration => true,
            BackendFeature::Other => false,
        }
    }

    /// What has to be done next to draw a frame of `context`: get a renderer,
    /// then give it the size of the frame, then draw.
    pub open spec fn action_for(self, context: RenderContext) -> Action {
        let (width, height) = (at_least_one(context.width), at_least_one(context.height));
        if !self.acquired {
            Action::Acquire { width, height, samples: SAMPLES }
        } else if self.width != width || self.height != height {
            Action::Resize { width, height }
        } else {
            Action::Draw { width, height }
        }
    }

    /// The next step towards a frame of `context`.
    pub fn next_action(&self, context: &RenderContext) -> (action: Action)
        ensures
            action == self.action_for(*context),
    {
        let width: u32 = one_or_more(context.width);
        let height: u32 = one_or_more(context.height);
        if !self.acquired {
            Action::Acquire { width, height, samples: SAMPLES }
        } else if self.width != width || self.height != height {
            Action::Resize { width, height }
        } else {
            Action::Draw { width, height }
        }
    }

    /// The state after a successful action.
    pub open spec fn after(self, action: Action) -> ReposeBackend {
        match action {
            Action::Acquire { width, height, .. } => ReposeBackend {
                width,
                height,
                acquired: true,
            },
            Action::Resize { width, height } => ReposeBackend { width, height, ..self },
            Action::Draw { .. } => self,
        }
    }

    /// Takes note of how an action went. A success brings the backend further;
    /// a failure leaves it as it was and is reported with its reason.
    pub fn complete(&mut self, action: Action, outcome: Result<(), String>) -> (r: Result<
        (),
        RenderError,
    >)
        ensures
            match outcome {
                Ok(_) => r is Ok && *final(self) == old(self).after(action),
                Err(detail) => *final(self) == *old(self) && match r {
                    Ok(_) => false,
                    Err(RenderError::BackendError(report)) => report@ == failure(
                        action,
                        detail@,
                    ),
                },
            },
    {
        match outcome {
            Ok(_) => {
                match action {
                    Action::Acquire { width, height, .. } => {
                        self.width = width;
                        self.height = height;
                        self.acquired = true;
                    },
                    Action::Resize { width, height } => {
                        self.width = width;
                        self.height = height;
                    },
                    Action::Draw { .. } => {},
                }
                Ok(())
            },
            Err(detail) => {
                let head = match action {
                    Action::Acquire { .. } =>
                        "repose backend needs a WGPU adapter (mesa-vulkan-drivers suffices for headless/CI); render failed: ",
                    Action::Resize { .. } => "repose offscreen resize failed: ",
                    Action::Draw { .. } => "repose offscreen render failed: ",
                };
                let mut report: String = head.to_owned();
                report.append(detail.as_str());
                Err(RenderError::BackendError(report))
            },
        }
    }
}

/// Refuses a scene that lost a drawing: such a frame would be incomplete, and
/// nobody could tell. Raster layers are not asked here.
pub fn check_losses(built: &BuiltScene) -> (r: Result<(), RenderError>)
    ensures
        r is Ok <==> built.skipped_tess == 0,
        r matches Err(RenderError::BackendError(report)) ==> report@ == loss_report(
            built.skipped_tess as nat,
        ),
{
    if built.skipped_tess == 0 {
        return Ok(());
    }
    let mut report: String = "repose backend dropped ".to_owned();
    append_decimal(&mut report, built.skipped_tess);
    report.append(" vector layer(s): tessellation failed");
    Err(RenderError::BackendError(report))
}

/// The decimal digit for a number below ten.
pub open spec fn digit(d: nat) -> char {
    (48 + d) as char
}

/// A number in decimal digits.
pub open spec fn decimal(n: nat) -> Seq<char>
    decreases n,
{
    if n < 10 {
        seq![digit(n)]
    } else {
        decimal(n / 10).push(digit(n % 10))
    }
}

fn digit_text(d: usize) -> (text: &'static str)
    requires
        d < 10,
    ensures
        text@ == seq![digit(d as nat)],
{
    proof {
        reveal_strlit("0");
        reveal_strlit("1");
        reveal_strlit("2");
        reveal_strlit("3");
        reveal_strlit("4");
        reveal_strlit("5");
        reveal_strlit("6");
        reveal_strlit("7");
        reveal_strlit("8");
        reveal_strlit("9");
    }
    if d == 0 {
        "0"
    } else if d == 1 {
        "1"
    } else if d == 2 {
        "2"
    } else if d == 3 {
        "3"
    } else if d == 4 {
        "4"
    } else if d == 5 {
        "5"
    } else if d == 6 {
        "6"
    } else if d == 7 {
        "7"
    } else if d == 8 {
        "8"
    } else {
        "9"
    }
}

fn append_decimal(text: &mut String, n: usize)
    ensures
        final(text)@ == old(text)@ + decimal(n as nat),
    decreases n,
{
    if n >= 10 {
        append_decimal(text, n / 10);
    }
    text.append(digit_text(n % 10));
}

/// A frame is at most one preparation away: whatever the state, the next
/// action for a frame draws it, or draws it once it has succeeded, in the size
/// of the frame.
pub proof fn law_frame_is_one_action_away(backend: ReposeBackend, context: RenderContext)
    ensures
        ({
            let action = backend.action_for(context);
            let next = backend.after(action);
            &&& next.action_for(context) == (Action::Draw {
                width: at_least_one(context.width),
                height: at_least_one(context.height),
            })
            &&& action is Draw ==> next == backend
            &&& next.wf()
        }),
{
}

/// A missing graphics adapter is named in the report, so that callers can tell
/// it from other failures.
pub proof fn law_missing_adapter_is_named(detail: Seq<char>)
    ensures
        acquire_failure(detail).subrange(23, 35) == "WGPU adapter"@,
{
    reveal_strlit(
        "repose backend needs a WGPU adapter (mesa-vulkan-drivers suffices for headless/CI); render failed: ",
    );
    reveal_strlit("WGPU adapter");
    assert(acquire_failure(detail).subrange(23, 35) =~= "WGPU adapter"@);
}

} // verus!
