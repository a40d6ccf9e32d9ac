//! The decisions of the sampling loop. The loop itself (reading the metrics
//! source, sleeping between ticks) runs outside; each tick it hands the
//! outcome of one reading to `Sampler::tick`.
use vstd::prelude::*;
use crate::distributor::{after_broadcast, tick_slots, Distributor};
use crate::snapshot::{build, snapshot_of, RawReading, SnapshotModel, SystemSnapshot};

verus! {

/// What one attempt to read the metrics source gave.
pub enum SampleOutcome {
    Reading(RawReading),
    /// The source failed for this tick only; the tick is skipped.
    Failed,
}

/// What a tick does with its outcome.
pub enum TickAction {
    Deliver(SystemSnapshot),
    Skip,
}

/// The snapshot a tick with this outcome produces, if any.
pub open spec fn produced(o: SampleOutcome) -> Option<SnapshotModel> {
    match o {
        SampleOutcome::Reading(raw) => Some(snapshot_of(raw@)),
        SampleOutcome::Failed => None,
    }
}

/// The counters of a sampler, which saturate at `u64::MAX`.
pub struct SamplerModel {
    pub interval_ms: u64,
    pub running: bool,
    pub ticks: u64,
    pub delivered: u64,
    pub skipped: u64,
    pub unheard: u64,
    pub last_delivered: Option<u64>,
}

/// State of a periodic sampler: its fixed pause between ticks, whether it
/// has been asked to stop, and counts of what its ticks did.
pub struct Sampler {
    interval_ms: u64,
    running: bool,
    ticks: u64,
    delivered: u64,
    skipped: u64,
    unheard: u64,
    last_delivered: Option<u64>,
}

/// `n` plus one, saturating at `u64::MAX`.
pub open spec fn bumped(n: u64) -> u64 {
    if n < u64::MAX {
        (n + 1) as u64
    } else {
        n
    }
}

fn bump(n: u64) -> (r: u64)
    ensures
        r == bumped(n),
{
    if n < u64::MAX {
        n + 1
    } else {
        n
    }
}

/// The sampler after a tick that produced a snapshot and handed it to
/// `receivers` subscribers.
pub open spec fn after_delivery(m: SamplerModel, receivers: nat) -> SamplerModel {
    SamplerModel {
        ticks: bumped(m.ticks),
        delivered: bumped(m.delivered),
        unheard: if receivers == 0 { bumped(m.unheard) } else { m.unheard },
        last_delivered: Some(bumped(m.ticks)),
        ..m
    }
}

/// The sampler after a tick whose reading failed.
pub open spec fn after_skip(m: SamplerModel) -> SamplerModel {
    SamplerModel { ticks: bumped(m.ticks), skipped: bumped(m.skipped), ..m }
}

/// No tick stops the loop: neither a failed reading nor a snapshot that
/// found no subscriber changes whether the sampler is running, and a failed
/// tick hands nothing on.
pub proof fn lemma_loop_survives(m: SamplerModel, receivers: nat)
    ensures
        after_skip(m).running == m.running,
        after_skip(m).last_delivered == m.last_delivered,
        after_delivery(m, receivers).running == m.running,
        after_delivery(m, 0).unheard == bumped(m.unheard),
{
}

impl View for Sampler {
    type V = SamplerModel;

    closed spec fn view(&self) -> SamplerModel {
        SamplerModel {
            interval_ms: self.interval_ms,
            running: self.running,
            ticks: self.ticks,
            delivered: self.delivered,
            skipped: self.skipped,
            unheard: self.unheard,
            last_delivered: self.last_delivered,
        }
    }
}

impl Sampler {
    /// A running sampler that pauses `interval_ms` milliseconds after each tick.
    pub fn new(interval_ms: u64) -> (r: Sampler)
        ensures
            r@ == (SamplerModel {
                interval_ms,
                running: true,
                ticks: 0,
                delivered: 0,
                skipped: 0,
                unheard: 0,
                last_delivered: None,
            }),
    {
        Sampler {
            interval_ms,
            running: true,
            ticks: 0,
            delivered: 0,
            skipped: 0,
            unheard: 0,
            last_delivered: None,
        }
    }

    /// The pause after each tick, in milliseconds.
    pub fn interval_ms(&self) -> (r: u64)
        ensures
            r == self@.interval_ms,
    {
        self.interval_ms
    }

    /// Whether the loop should run another tick: true until `stop`.
    pub fn is_running(&self) -> (r: bool)
        ensures
            r == self@.running,
    {
        self.running
    }

    /// Asks the loop to end before its next tick.
    pub fn stop(&mut self)
        ensures
            final(self)@ == (SamplerModel { running: false, ..old(self)@ }),
    {
        self.running = false;
    }

    /// Ticks run so far.
    pub fn ticks(&self) -> (r: u64)
        ensures
            r == self@.ticks,
    {
        self.ticks
    }

    /// Ticks that produced a snapshot.
    pub fn delivered(&self) -> (r: u64)
        ensures
            r == self@.delivered,
    {
        self.delivered
    }

    /// Ticks skipped because the reading failed.
    pub fn skipped(&self) -> (r: u64)
        ensures
            r == self@.skipped,
    {
        self.skipped
    }

    /// Ticks whose snapshot found no subscriber.
    pub fn unheard(&self) -> (r: u64)
        ensures
            r == self@.unheard,
    {
        self.unheard
    }

    /// The number of the last tick that produced a snapshot, so that a
    /// consumer can tell a stale feed from a live one.
    pub fn last_delivered(&self) -> (r: Option<u64>)
        ensures
            r == self@.last_delivered,
    {
        self.last_delivered
    }

    /// Decides what to do with one outcome: build a snapshot from a reading,
    /// skip a failed reading. Never stops the loop.
    pub fn on_sample(&mut self, outcome: &SampleOutcome) -> (r: TickAction)
        ensures
            match outcome {
                SampleOutcome::Reading(raw) => match r {
                    TickAction::Deliver(s) => s@ == snapshot_of(raw@),
                    TickAction::Skip => false,
                },
                SampleOutcome::Failed => r is Skip && final(self)@ == after_skip(old(self)@),
            },
            final(self)@.running == old(self)@.running,
            outcome is Reading ==> final(self)@ == (SamplerModel {
                ticks: bumped(old(self)@.ticks),
                delivered: bumped(old(self)@.delivered),
                last_delivered: Some(bumped(old(self)@.ticks)),
                ..old(self)@
            }),
    {
        self.ticks = bump(self.ticks);
        match outcome {
            SampleOutcome::Reading(raw) => {
                self.delivered = bump(self.delivered);
                self.last_delivered = Some(self.ticks);
                TickAction::Deliver(build(raw))
            },
            SampleOutcome::Failed => {
                self.skipped = bump(self.skipped);
                TickAction::Skip
            },
        }
    }

    /// Records that a tick's snapshot reached `receivers` subscribers. None
    /// reached is counted, and is no reason to stop.
    pub fn on_delivered(&mut self, receivers: usize)
        ensures
            final(self)@ == (SamplerModel {
                unheard: if receivers == 0 { bumped(old(self)@.unheard) } else { old(self)@.unheard },
                ..old(self)@
            }),
    {
        if receivers == 0 {
            self.unheard = bump(self.unheard);
        }
    }

    /// One whole tick: builds the snapshot of a reading and broadcasts it to
    /// the subscribers of `dist`, or skips a failed reading and leaves `dist`
    /// as it was. Returns how many subscribers received a snapshot.
    pub fn tick(&mut self, outcome: &SampleOutcome, dist: &mut Distributor) -> (r: usize)
        requires
            old(dist).wf(),
        ensures
            final(dist).wf(),
            final(dist).issued() == old(dist).issued(),
            final(dist)@ == tick_slots(old(dist)@, produced(*outcome)),
            match outcome {
                SampleOutcome::Reading(raw) => {
                    &&& final(dist)@ == after_broadcast(old(dist)@, snapshot_of(raw@))
                    &&& r == old(dist)@.len()
                    &&& final(self)@ == after_delivery(old(self)@, r as nat)
                },
                SampleOutcome::Failed => {
                    &&& final(dist)@ == old(dist)@
                    &&& r == 0
                    &&& final(self)@ == after_skip(old(self)@)
                },
            },
    {
        match self.on_sample(outcome) {
            TickAction::Deliver(s) => {
                let n = dist.broadcast(&s);
                self.on_delivered(n);
                n
            },
            TickAction::Skip => 0,
        }
    }
}

} // verus!
