//! What holds of a backend between two frames, and of its reports.

use crate::backend::{
    decimal, digit, failure, loss_report, Action, RenderContext, ReposeBackend,
};
use vstd::prelude::*;

verus! {

/// Whether `measure` is one of a frame for which `asked` was asked: the same, but
/// at least one pixel.
pub open spec fn is_measure(measure: u32, asked: u32) -> bool {
    measure >= 1 && (measure == asked || asked == 0 && measure == 1)
}

/// A frame is drawn exactly where the renderer exists and has the size of the
/// frame, each way. A renderer that is wider, narrower, higher or lower is
/// resized to the frame, and where there is none one is created in the size of
/// the frame, with four samples per pixel.
pub proof fn law_frame_is_drawn_in_its_size(backend: ReposeBackend, context: RenderContext)
    ensures
        match backend.action_for(context) {
            Action::Draw { width, height } => {
                &&& backend.acquired
                &&& backend.width == width && backend.height == height
                &&& is_measure(width, context.width) && is_measure(height, context.height)
            },
            Action::Resize { width, height } => {
                &&& backend.acquired
                &&& backend.width < width || backend.width > width || backend.height < height
                    || backend.height > height
                &&& is_measure(width, context.width) && is_measure(height, context.height)
            },
            Action::Acquire { width, height, samples } => {
                &&& !backend.acquired
                &&& is_measure(width, context.width) && is_measure(height, context.height)
                &&& samples == 4
            },
        },
{
}

/// A renderer that was created or resized has the size that was asked for, and
/// the next frame of that size is drawn; a frame that was drawn leaves the
/// renderer as it is. No action but the creation brings a renderer about.
pub proof fn law_size_is_kept(backend: ReposeBackend, action: Action)
    ensures
        ({
            let next = backend.after(action);
            match action {
                Action::Acquire { width, height, .. } => next.acquired && next.width == width
                    && next.height == height,
                Action::Resize { width, height } => next.acquired == backend.acquired && next.width
                    == width && next.height == height,
                Action::Draw { .. } => next.acquired == backend.acquired && next.width
                    == backend.width && next.height == backend.height,
            }
        }),
{
}

/// Two frames of the same size in a row need one preparation at most: once the
/// first has been prepared, the second is drawn at once. A measure of zero
/// counts as one pixel.
pub proof fn law_second_frame_needs_nothing(
    backend: ReposeBackend,
    first: RenderContext,
    second: RenderContext,
)
    requires
        first.width == second.width || first.width + second.width == 1,
        first.height == second.height || first.height + second.height == 1,
    ensures
        backend.after(backend.action_for(first)).action_for(second) is Draw,
{
}

/// A failed action is reported by what failed, followed by the reason, in its
/// own words.
pub proof fn law_failures_are_reported(
    detail: Seq<char>,
    width: u32,
    height: u32,
    samples: u32,
)
    ensures
        failure(Action::Acquire { width, height, samples }, detail)
            == "repose backend needs a WGPU adapter (mesa-vulkan-drivers suffices for headless/CI); render failed: "@
            + detail,
        failure(Action::Resize { width, height }, detail) == "repose offscreen resize failed: "@
            + detail,
        failure(Action::Draw { width, height }, detail) == "repose offscreen render failed: "@
            + detail,
{
}

/// The number that a sequence of decimal digits stands for.
pub open spec fn reading(text: Seq<char>) -> int
    decreases text.len(),
{
    if text.len() == 0 {
        0
    } else {
        10 * reading(text.drop_last()) + (text.last() as int - '0' as int)
    }
}

/// A number is written in decimal digits, at least one of them, the highest of
/// which is zero for the number zero alone; and it reads as itself.
pub proof fn law_decimal_reads_back(n: nat)
    ensures
        decimal(n).len() > 0,
        forall|i: int| 0 <= i < decimal(n).len() ==> '0' <= #[trigger] decimal(n)[i] <= '9',
        n > 0 ==> decimal(n)[0] != '0',
        n == 0 ==> decimal(n).len() == 1,
        reading(decimal(n)) == n,
    decreases n,
{
    let text = decimal(n);
    if n < 10 {
        assert(text.drop_last() =~= Seq::empty());
        assert(reading(text.drop_last()) == 0);
        assert(text.last() == digit(n));
    } else {
        law_decimal_reads_back(n / 10);
        assert(text.drop_last() =~= decimal(n / 10));
        assert(text.last() == digit(n % 10));
        assert forall|i: int| 0 <= i < text.len() implies '0' <= #[trigger] text[i] <= '9' by {
            if i < decimal(n / 10).len() {
                assert(text[i] == decimal(n / 10)[i]);
            }
        }
        assert(text[0] == decimal(n / 10)[0]);
    }
}

/// Lost drawings are reported by their number.
pub proof fn law_losses_are_reported(lost: nat)
    ensures
        ({
            let report = loss_report(lost);
            let head = "repose backend dropped "@;
            let tail = " vector layer(s): tessellation failed"@;
            &&& report.take(head.len() as int) == head
            &&& report.skip(report.len() - tail.len()) == tail
            &&& reading(report.subrange(head.len() as int, report.len() - tail.len())) == lost
        }),
{
    let report = loss_report(lost);
    let head = "repose backend dropped "@;
    let tail = " vector layer(s): tessellation failed"@;
    law_decimal_reads_back(lost);
    assert(report.len() == head.len() + decimal(lost).len() + tail.len());
    assert(report.take(head.len() as int) =~= head);
    assert(report.skip(report.len() - tail.len()) =~= tail);
    assert(report.subrange(head.len() as int, report.len() - tail.len()) =~= decimal(lost));
}

} // verus!
