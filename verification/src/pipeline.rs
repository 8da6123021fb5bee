//! The stages before this crate: what turns script events into layers.

use crate::backend::{RenderContext, RenderError};
use crate::layers::IntermediateLayer;
use crate::region::DirtyRegion;
use vstd::prelude::*;

verus! {

/// A time in whole centiseconds, as late as 32 bits reach.
pub open spec fn in_centiseconds(time_ms: u64) -> u32 {
    if time_ms / 10 > u32::MAX {
        u32::MAX
    } else {
        (time_ms / 10) as u32
    }
}

/// A time in milliseconds as whole centiseconds: cut off, not rounded, and held
/// to the largest 32-bit number.
pub fn centiseconds(time_ms: u64) -> (time_cs: u32)
    ensures
        time_cs == in_centiseconds(time_ms),
{
    let cs: u64 = time_ms / 10;
    if cs > u32::MAX as u64 {
        u32::MAX
    } else {
        cs as u32
    }
}

/// Later times are not earlier in centiseconds, and times within one
/// centisecond are the same in them.
pub proof fn law_centiseconds_keep_order(a: u64, b: u64)
    requires
        a <= b,
    ensures
        in_centiseconds(a) <= in_centiseconds(b),
        a / 10 == b / 10 ==> in_centiseconds(a) == in_centiseconds(b),
{
}

/// A time is at least as many centiseconds as it is counted for and, short of the
/// largest 32-bit number of them, less than one more.
pub proof fn law_centiseconds_are_ten_milliseconds(time_ms: u64)
    ensures
        10 * in_centiseconds(time_ms) <= time_ms,
        in_centiseconds(time_ms) < 0xffff_ffff ==> time_ms < 10 * in_centiseconds(time_ms) + 10,
{
}

/// A pipeline that turns the events of a script into layers.
pub trait Pipeline: Send + Sync {
    /// A parsed script.
    type Script;

    /// An analysis of a script.
    type Analysis;

    /// An event of a script.
    type Event;

    /// What there is to know of a pipeline between two calls.
    type State;

    /// The state that the pipeline is in. A pipeline that says nothing here may
    /// be in any.
    open spec fn state(&self) -> Self::State {
        arbitrary()
    }

    /// What processing `events` at a time does, from the pipeline before to the
    /// state and the outcome after. A pipeline that says nothing here may do
    /// anything.
    open spec fn processes(
        &self,
        events: Seq<&Self::Event>,
        time_cs: u32,
        context: RenderContext,
        after: Self::State,
        outcome: Result<Vec<IntermediateLayer>, RenderError>,
    ) -> bool {
        true
    }

    /// Which regions change between two times. A pipeline that says nothing
    /// here may return any.
    open spec fn changes(
        &self,
        events: Seq<&Self::Event>,
        time_cs: u32,
        prev_time_cs: u32,
        outcome: Result<Vec<DirtyRegion>, RenderError>,
    ) -> bool {
        true
    }

    /// Prepares the pipeline with a script.
    fn prepare_script(&mut self, script: &Self::Script, analysis: Option<&Self::Analysis>) -> Result<
        (),
        RenderError,
    >;

    /// The current script.
    fn script(&self) -> Option<&Self::Script>;

    /// Processes events into layers.
    fn process_events(
        &mut self,
        events: &[&Self::Event],
        time_cs: u32,
        context: &RenderContext,
    ) -> (outcome: Result<Vec<IntermediateLayer>, RenderError>)
        ensures
            old(self).processes(events@, time_cs, *context, final(self).state(), outcome),
    ;

    /// Processes events at a time in milliseconds. Unless a pipeline does
    /// better, the time is cut to whole centiseconds.
    fn process_events_ms(
        &mut self,
        events: &[&Self::Event],
        time_ms: u64,
        context: &RenderContext,
    ) -> (outcome: Result<Vec<IntermediateLayer>, RenderError>)
        default_ensures
            old(self).processes(
                events@,
                in_centiseconds(time_ms),
                *context,
                final(self).state(),
                outcome,
            ),
    {
        self.process_events(events, centiseconds(time_ms), context)
    }

    /// The regions to draw anew between two times.
    fn compute_dirty_regions(
        &self,
        events: &[&Self::Event],
        time_cs: u32,
        prev_time_cs: u32,
    ) -> (outcome: Result<Vec<DirtyRegion>, RenderError>)
        ensures
            self.changes(events@, time_cs, prev_time_cs, outcome),
    ;

    /// The regions to draw anew between two times in milliseconds. Unless a
    /// pipeline does better, the times are cut to whole centiseconds.
    fn compute_dirty_regions_ms(
        &self,
        events: &[&Self::Event],
        time_ms: u64,
        prev_time_ms: u64,
    ) -> (outcome: Result<Vec<DirtyRegion>, RenderError>)
        default_ensures
            self.changes(
                events@,
                in_centiseconds(time_ms),
                in_centiseconds(prev_time_ms),
                outcome,
            ),
    {
        self.compute_dirty_regions(events, centiseconds(time_ms), centiseconds(prev_time_ms))
    }
}

} // verus!
