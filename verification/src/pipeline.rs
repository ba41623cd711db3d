//! The render pipeline coordinator: redraw signals, worker passes and
//! frame delivery, modelled as a state machine whose transitions the
//! worker loop drives.
//!
//! The host loop performs the actual thread spawning, channel plumbing
//! and blocking; every decision — when a pass starts, how redundant
//! signals coalesce, which scene generation a delivered frame carries —
//! is taken here.

use vstd::prelude::*;

verus! {

/// A completed RGBA frame.
#[derive(Clone, Debug)]
pub struct Frame {
    pub width: usize,
    pub height: usize,
    pub data: Vec<u8>,
    pub generation: u64,
}

impl Frame {
    pub open spec fn wf(self) -> bool {
        self.data@.len() == self.width * self.height * 4
    }
}

/// Coordinator state.  `scene_gen` counts scene-change signals,
/// `render_gen` is the generation the in-flight pass renders, and
/// `delivered_gen` the generation of the newest delivered frame.
#[derive(Clone, Copy, Debug, PartialEq, Eq, Structural)]
pub struct Pipeline {
    pub worker_busy: bool,
    pub pending: bool,
    pub scene_gen: u64,
    pub render_gen: u64,
    pub delivered_gen: u64,
    pub frames_delivered: u64,
    pub signals_seen: u64,
}

impl Pipeline {
    /// The coordinator's invariant: a pending redraw only exists while a
    /// pass is in flight; an idle coordinator has delivered the newest
    /// generation (no permanently stale output); a busy one renders
    /// either the newest generation or, when more signals arrived, an
    /// older one that the pending flag will refresh.
    pub open spec fn inv(self) -> bool {
        &&& self.pending ==> self.worker_busy
        &&& self.delivered_gen <= self.scene_gen
        &&& !self.worker_busy ==> self.delivered_gen == self.scene_gen
        &&& self.worker_busy ==> self.delivered_gen <= self.render_gen <= self.scene_gen
        &&& (self.worker_busy && !self.pending) ==> self.render_gen == self.scene_gen
        &&& (self.worker_busy && self.pending) ==> self.render_gen < self.scene_gen
    }

    /// What one redraw signal does: bump the scene generation; start a
    /// pass if the worker is idle, otherwise just mark the newest state
    /// pending (coalescing the burst).
    pub open spec fn signal_spec(self) -> Pipeline {
        if self.worker_busy {
            Pipeline {
                pending: true,
                scene_gen: (self.scene_gen + 1) as u64,
                signals_seen: (self.signals_seen + 1) as u64,
                ..self
            }
        } else {
            Pipeline {
                worker_busy: true,
                scene_gen: (self.scene_gen + 1) as u64,
                render_gen: (self.scene_gen + 1) as u64,
                signals_seen: (self.signals_seen + 1) as u64,
                ..self
            }
        }
    }

    /// What a completed pass does: deliver the rendered generation; if
    /// newer state is pending, immediately start one more pass for it,
    /// otherwise go idle.
    pub open spec fn finish_spec(self) -> Pipeline {
        if self.pending {
            Pipeline {
                pending: false,
                render_gen: self.scene_gen,
                delivered_gen: self.render_gen,
                frames_delivered: (self.frames_delivered + 1) as u64,
                ..self
            }
        } else {
            Pipeline {
                worker_busy: false,
                delivered_gen: self.render_gen,
                frames_delivered: (self.frames_delivered + 1) as u64,
                ..self
            }
        }
    }

    /// A fresh, idle coordinator.
    pub fn new() -> (p: Pipeline)
        ensures
            p == (Pipeline {
                worker_busy: false,
                pending: false,
                scene_gen: 0,
                render_gen: 0,
                delivered_gen: 0,
                frames_delivered: 0,
                signals_seen: 0,
            }),
            p.inv(),
    {
        Pipeline {
            worker_busy: false,
            pending: false,
            scene_gen: 0,
            render_gen: 0,
            delivered_gen: 0,
            frames_delivered: 0,
            signals_seen: 0,
        }
    }

    /// Records a scene-change / redraw signal.  Returns whether a new
    /// render pass must start now.
    pub fn signal(&mut self) -> (start_pass: bool)
        requires
            old(self).inv(),
            old(self).scene_gen < u64::MAX,
            old(self).signals_seen < u64::MAX,
        ensures
            *final(self) == old(self).signal_spec(),
            final(self).inv(),
            start_pass == !old(self).worker_busy,
    {
        self.scene_gen = self.scene_gen + 1;
        self.signals_seen = self.signals_seen + 1;
        if self.worker_busy {
            self.pending = true;
            false
        } else {
            self.worker_busy = true;
            self.render_gen = self.scene_gen;
            true
        }
    }

    /// Records that the in-flight pass completed and its frame was
    /// shipped.  Returns whether a follow-up pass must start for a
    /// generation that arrived meanwhile.
    pub fn finish_frame(&mut self) -> (start_pass: bool)
        requires
            old(self).inv(),
            old(self).worker_busy,
            old(self).frames_delivered < u64::MAX,
        ensures
            *final(self) == old(self).finish_spec(),
            final(self).inv(),
            start_pass == old(self).pending,
            final(self).frames_delivered == old(self).frames_delivered + 1,
            final(self).delivered_gen == old(self).render_gen,
    {
        self.frames_delivered = self.frames_delivered + 1;
        self.delivered_gen = self.render_gen;
        if self.pending {
            self.pending = false;
            self.render_gen = self.scene_gen;
            true
        } else {
            self.worker_busy = false;
            false
        }
    }

    /// The generation a pass started now would render.
    pub fn current_generation(&self) -> (g: u64)
        ensures
            g == self.render_gen,
    {
        self.render_gen
    }
}

/// The state after a burst of `n` redraw signals.
pub open spec fn apply_signals(s: Pipeline, n: nat) -> Pipeline
    decreases n,
{
    if n == 0 {
        s
    } else {
        apply_signals(s, (n - 1) as nat).signal_spec()
    }
}

/// A burst of signals while a pass is in flight only moves the scene
/// generation and sets the pending flag: the worker is not interrupted
/// and no extra passes pile up.
pub proof fn lemma_burst_coalesces(s: Pipeline, n: nat)
    requires
        s.inv(),
        s.worker_busy,
        n >= 1,
        s.scene_gen + n <= u64::MAX,
        s.signals_seen + n <= u64::MAX,
    ensures
        ({
            let b = apply_signals(s, n);
            &&& b.inv()
            &&& b.worker_busy
            &&& b.pending
            &&& b.scene_gen == s.scene_gen + n
            &&& b.render_gen == s.render_gen
            &&& b.delivered_gen == s.delivered_gen
            &&& b.frames_delivered == s.frames_delivered
        }),
    decreases n,
{
    if n == 1 {
        assert(apply_signals(s, 0) == s);
        assert(apply_signals(s, 1) == apply_signals(s, 0).signal_spec());
    } else {
        lemma_burst_coalesces(s, (n - 1) as nat);
        assert(apply_signals(s, n) == apply_signals(s, (n - 1) as nat).signal_spec());
    }
}

/// Triggering a burst of `n` redraw signals while a worker is mid-render
/// produces, once the worker drains, exactly one follow-up frame beyond
/// the pass already in flight — at least one frame and no more than `n`
/// — and the final delivered frame reflects the scene state after the
/// last signal, so the output does not stay stale.
pub proof fn lemma_redraw_burst_frames(s: Pipeline, n: nat)
    requires
        s.inv(),
        s.worker_busy,
        !s.pending,
        n >= 1,
        s.scene_gen + n <= u64::MAX,
        s.signals_seen + n <= u64::MAX,
        s.frames_delivered + 2 <= u64::MAX,
    ensures
        ({
            let b = apply_signals(s, n);
            let after_inflight = b.finish_spec();
            let settled = after_inflight.finish_spec();
            &&& after_inflight.worker_busy
            &&& !settled.worker_busy
            &&& settled.scene_gen == s.scene_gen + n
            &&& settled.delivered_gen == settled.scene_gen
            &&& settled.frames_delivered - s.frames_delivered - 1 == 1
            &&& 1 <= settled.frames_delivered - s.frames_delivered - 1 <= n
        }),
{
    lemma_burst_coalesces(s, n);
}

} // verus!
