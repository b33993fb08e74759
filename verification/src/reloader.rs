//! The reloader: version probing and hot swap of the plugin image.
//!
//! The plugin image itself is an opaque OS handle that only the unverified
//! shell can open, start, stop and drop. The decisions — when to probe,
//! whether to swap, and in what order the old image is stopped and the new
//! one started — are made here, as a state machine from (state, probed
//! version) to (next state, ordered plan of calls). The shell performs the
//! plan in order.

use vstd::prelude::*;

verus! {

/// Frames between two version probes, so the filesystem is not hit every
/// frame; at about 60 fps this probes roughly three times a second.
pub const PROBE_INTERVAL: u64 = 20;

/// One call the shell must make into the plugin layer, in plan order.
#[derive(PartialEq, Eq, Structural, Clone, Copy, Debug)]
pub enum PluginOp {
    /// Call `stop()` on the current image and wait for it to quiesce.
    Stop,
    /// Replace the held image with the freshly opened one.
    Install,
    /// Call `start(callback)` on the now-current image.
    Start,
    /// Drop the freshly opened probe handle; the current image stays.
    DiscardFresh,
}

/// The host's view of the loaded plugin: the last observed version and the
/// probe countdown. The image handle itself stays in the shell.
pub struct Reloadable {
    pub ver: u64,
    pub ticks: u64,
}

/// The plan a version change triggers: stop the old image, install the
/// fresh one, start it.
pub open spec fn swap_plan() -> Seq<PluginOp> {
    seq![PluginOp::Stop, PluginOp::Install, PluginOp::Start]
}

impl Reloadable {
    /// A reloader for an image whose `version()` read `initial_version` at
    /// construction; the first probe therefore swaps only if the version
    /// has changed since.
    pub fn new(initial_version: u64) -> (r: Self)
        ensures
            r.ver == initial_version,
            r.ticks == 0,
    {
        Reloadable { ver: initial_version, ticks: 0 }
    }

    /// One frame of the probe meter: counts down while the budget lasts,
    /// and when it is spent, resets it and asks the shell to probe. The
    /// observed version never changes here.
    pub fn tick(&mut self) -> (probe: bool)
        ensures
            final(self).ver == old(self).ver,
            old(self).ticks > 0 ==> !probe && final(self).ticks == old(self).ticks - 1,
            old(self).ticks == 0 ==> probe && final(self).ticks == PROBE_INTERVAL,
    {
        if self.ticks > 0 {
            self.ticks = self.ticks - 1;
            false
        } else {
            self.ticks = PROBE_INTERVAL;
            true
        }
    }

    /// Decision on a probe result: an unchanged version keeps the current
    /// image and discards the fresh handle; a changed version adopts it
    /// and yields the swap plan, in which the old image's stop strictly
    /// precedes the new image's start.
    pub fn on_probe(&mut self, probed_version: u64) -> (plan: Vec<PluginOp>)
        ensures
            final(self).ticks == old(self).ticks,
            probed_version == old(self).ver ==> final(self).ver == old(self).ver && plan@
                == seq![PluginOp::DiscardFresh],
            probed_version != old(self).ver ==> final(self).ver == probed_version && plan@
                == swap_plan(),
    {
        let mut plan: Vec<PluginOp> = Vec::new();
        if probed_version == self.ver {
            plan.push(PluginOp::DiscardFresh);
            proof {
                assert(plan@ =~= seq![PluginOp::DiscardFresh]);
            }
        } else {
            self.ver = probed_version;
            plan.push(PluginOp::Stop);
            plan.push(PluginOp::Install);
            plan.push(PluginOp::Start);
            proof {
                assert(plan@ =~= swap_plan());
            }
        }
        plan
    }
}

/// In the swap plan, the old image's `stop` completes before the new
/// image's `start` is invoked: every `Start` in the plan is preceded by a
/// `Stop`, and no plugin call at all comes between deciding to swap and
/// stopping the old image.
pub proof fn lemma_stop_completes_before_start()
    ensures
        swap_plan()[0] == PluginOp::Stop,
        forall|j: int|
            0 <= j < swap_plan().len() && swap_plan()[j] == PluginOp::Start ==> exists|i: int|
                0 <= i < j && swap_plan()[i] == PluginOp::Stop,
{
    assert forall|j: int|
        0 <= j < swap_plan().len() && swap_plan()[j] == PluginOp::Start implies exists|i: int|
        0 <= i < j && swap_plan()[i] == PluginOp::Stop by {
        assert(swap_plan()[0] == PluginOp::Stop);
        assert(j == 2);
        assert(0 <= 0 < j && swap_plan()[0] == PluginOp::Stop);
    }
}

} // verus!
