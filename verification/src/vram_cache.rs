//! The last VRAM reading, shared by everyone who asks, and the rule that at
//! most one probe is out at a time.
//!
//! A probe is a blocking subprocess that may hang for good. While one is out
//! no other is started: the last reading is served instead, so that at most
//! one thread is ever pinned by it.
//!
//! Points in time and spans are nanoseconds.
use crate::gpu::Vram;
use vstd::prelude::*;

verus! {

/// The longest that a request waits for a probe.
pub const RESIDENCY_PROBE_DEADLINE: u128 = 2_500_000_000;

/// How long a reading is reused.
pub const VRAM_CACHE_TTL: u128 = 2_000_000_000;

/// How long nothing is probed after a probe that missed its deadline. Such a
/// probe points at a wedged driver, which quick retries would only burden.
pub const VRAM_TIMEOUT_BACKOFF: u128 = 30_000_000_000;

/// What a request for the VRAM has to do.
#[derive(Debug, Clone, Copy, PartialEq, Eq, Structural)]
pub enum Lookup {
    /// Take this for an answer.
    Serve(Option<Vram>),
    /// Start a probe, and record how it went.
    Probe,
}

/// How a probe went.
#[derive(Debug, Clone, Copy, PartialEq, Eq, Structural)]
pub enum ProbeOutcome {
    /// It came back in time, with a reading or without.
    Finished(Option<Vram>),
    TimedOut,
}

#[derive(Debug, Clone, Copy, PartialEq, Eq, Structural)]
pub struct VramReading {
    pub taken: u128,
    pub vram: Option<Vram>,
    pub fresh_for: u128,
}

#[derive(Debug)]
pub struct VramCache {
    last: Option<VramReading>,
    in_flight: bool,
}

/// The cache as plain data.
pub ghost struct VramCacheView {
    pub last: Option<VramReading>,
    pub in_flight: bool,
}

impl VramReading {
    pub open spec fn fresh(self, now: u128) -> bool {
        now - self.taken < self.fresh_for
    }
}

impl ProbeOutcome {
    /// The reading that stands for this outcome.
    pub open spec fn reading(self, now: u128) -> VramReading {
        match self {
            ProbeOutcome::Finished(vram) => VramReading {
                taken: now,
                vram,
                fresh_for: VRAM_CACHE_TTL,
            },
            ProbeOutcome::TimedOut => VramReading {
                taken: now,
                vram: None,
                fresh_for: VRAM_TIMEOUT_BACKOFF,
            },
        }
    }
}

impl VramCacheView {
    /// What a request at `now` has to do: a fresh reading is served; a stale
    /// one too while a probe is out; else a probe is due.
    pub open spec fn answer(self, now: u128) -> Lookup {
        if self.last is Some && (self.last->0.fresh(now) || self.in_flight) {
            Lookup::Serve(self.last->0.vram)
        } else if self.in_flight {
            Lookup::Serve(None)
        } else {
            Lookup::Probe
        }
    }

    pub open spec fn looked_up(self, now: u128) -> VramCacheView {
        VramCacheView { in_flight: self.in_flight || self.answer(now) is Probe, ..self }
    }

    pub open spec fn recorded(self, now: u128, outcome: ProbeOutcome) -> VramCacheView {
        VramCacheView { last: Some(outcome.reading(now)), ..self }
    }

    pub open spec fn returned(self) -> VramCacheView {
        VramCacheView { in_flight: false, ..self }
    }
}

impl View for VramCache {
    type V = VramCacheView;

    closed spec fn view(&self) -> VramCacheView {
        VramCacheView { last: self.last, in_flight: self.in_flight }
    }
}

impl Default for VramCache {
    /// No reading yet, and no probe out.
    fn default() -> (r: Self)
        ensures
            r@ == (VramCacheView { last: None, in_flight: false }),
    {
        VramCache { last: None, in_flight: false }
    }
}

impl VramCache {
    /// What a request at `now` has to do. A caller that is told to probe is
    /// the only one until [`VramCache::probe_returned`].
    pub fn get(&mut self, now: u128) -> (r: Lookup)
        ensures
            r == old(self)@.answer(now),
            final(self)@ == old(self)@.looked_up(now),
    {
        if let Some(reading) = self.last {
            let stale = now >= reading.taken && now - reading.taken >= reading.fresh_for;
            if !stale || self.in_flight {
                return Lookup::Serve(reading.vram);
            }
        }
        if self.in_flight {
            return Lookup::Serve(None);
        }
        self.in_flight = true;
        Lookup::Probe
    }

    /// Notes how a probe went, and gives the answer for the request that
    /// started it.
    pub fn record(&mut self, now: u128, outcome: ProbeOutcome) -> (r: Option<Vram>)
        ensures
            final(self)@ == old(self)@.recorded(now, outcome),
            r == outcome.reading(now).vram,
    {
        let reading = match outcome {
            ProbeOutcome::Finished(vram) => VramReading {
                taken: now,
                vram,
                fresh_for: VRAM_CACHE_TTL,
            },
            ProbeOutcome::TimedOut => VramReading {
                taken: now,
                vram: None,
                fresh_for: VRAM_TIMEOUT_BACKOFF,
            },
        };
        self.last = Some(reading);
        reading.vram
    }

    /// The probe came back, in time or long after.
    pub fn probe_returned(&mut self)
        ensures
            final(self)@ == old(self)@.returned(),
    {
        self.in_flight = false;
    }
}

// ---------------------------------------------------------------------------
// Laws
// ---------------------------------------------------------------------------

/// One thing that can happen to the cache.
pub ghost enum CacheChange {
    LookUp(u128),
    Record(u128, ProbeOutcome),
    Return,
}

impl CacheChange {
    pub open spec fn apply(self, s: VramCacheView) -> VramCacheView {
        match self {
            CacheChange::LookUp(now) => s.looked_up(now),
            CacheChange::Record(now, outcome) => s.recorded(now, outcome),
            CacheChange::Return => s.returned(),
        }
    }
}

/// `states[k + 1]` is `states[k]` after `changes[k]`.
pub open spec fn cache_history(states: Seq<VramCacheView>, changes: Seq<CacheChange>) -> bool {
    &&& states.len() == changes.len() + 1
    &&& forall|k: int|
        0 <= k < changes.len() ==> states[k + 1] == (#[trigger] changes[k]).apply(states[k])
}

/// At most one probe is out: once a request was told to probe, no other is,
/// however much time passes, until that probe has come back.
pub proof fn law_probes_never_stack(
    states: Seq<VramCacheView>,
    changes: Seq<CacheChange>,
    start: u128,
    now: u128,
)
    requires
        cache_history(states, changes),
        changes.len() > 0,
        changes[0] == CacheChange::LookUp(start),
        states[0].answer(start) is Probe,
        forall|k: int| 0 <= k < changes.len() ==> #[trigger] changes[k] != CacheChange::Return,
    ensures
        states.last().in_flight,
        states.last().answer(now) is Serve,
    decreases changes.len(),
{
    let k = changes.len() - 1;
    assert(states[k + 1] == changes[k].apply(states[k]));
    if changes.len() > 1 {
        let earlier = states.drop_last();
        let shorter = changes.drop_last();
        assert forall|j: int| 0 <= j < shorter.len() implies earlier[j + 1] == (
        #[trigger] shorter[j]).apply(earlier[j]) by {
            assert(changes[j].apply(states[j]) == states[j + 1]);
        }
        assert forall|j: int| 0 <= j < shorter.len() implies #[trigger] shorter[j]
            != CacheChange::Return by {
            assert(changes[j] != CacheChange::Return);
        }
        law_probes_never_stack(earlier, shorter, start, now);
        assert(earlier.last() == states[k]);
    }
}

/// A reading is shared: everyone who asks while it is fresh gets it, and
/// starts no probe.
pub proof fn law_a_fresh_reading_is_shared(
    s: VramCacheView,
    taken: u128,
    vram: Option<Vram>,
    now: u128,
)
    requires
        taken <= now,
        now - taken < VRAM_CACHE_TTL,
    ensures
        ({
            let t = s.recorded(taken, ProbeOutcome::Finished(vram));
            &&& t.answer(now) == Lookup::Serve(vram)
            &&& t.looked_up(now) == t
            &&& t.returned().answer(now) == Lookup::Serve(vram)
        }),
{
}

/// After a probe that missed its deadline nothing is probed for the backoff,
/// and for as long after it as that probe is still out.
pub proof fn law_a_timed_out_probe_backs_off(s: VramCacheView, taken: u128, now: u128)
    requires
        taken <= now,
    ensures
        ({
            let t = s.recorded(taken, ProbeOutcome::TimedOut);
            &&& now - taken < VRAM_TIMEOUT_BACKOFF ==> t.answer(now) == Lookup::Serve(None)
                && t.returned().answer(now) == Lookup::Serve(None)
            &&& s.in_flight ==> t.answer(now) == Lookup::Serve(None)
            &&& now - taken >= VRAM_TIMEOUT_BACKOFF ==> t.returned().answer(now) is Probe
        }),
{
}

/// Probing resumes once the last probe is back and its reading is stale.
pub proof fn law_probing_resumes_after_a_return(s: VramCacheView, now: u128)
    requires
        s.last matches Some(reading) ==> !reading.fresh(now),
    ensures
        s.returned().answer(now) is Probe,
        s.in_flight && s.last is None ==> s.answer(now) == Lookup::Serve(None),
{
}

/// What each request is answered, from what is known: a reading that is not
/// older than it may be; while a probe is out, whatever was read last, if
/// anything was; and else the request has to probe.
pub proof fn law_what_a_request_is_answered(s: VramCacheView, now: u128)
    ensures
        s.last matches Some(reading) ==> (now < reading.taken + reading.fresh_for || s.in_flight
            ==> s.answer(now) == Lookup::Serve(reading.vram)),
        s.last matches Some(reading) ==> (now >= reading.taken + reading.fresh_for && !s.in_flight
            ==> s.answer(now) is Probe),
        s.last is None ==> s.answer(now) == (if s.in_flight {
            Lookup::Serve(None)
        } else {
            Lookup::Probe
        }),
{
}

/// What happens to the cache, and what stays: a request that probes puts a
/// probe out and any other changes nothing; a record replaces the reading and
/// a return ends the probe, each without touching the other.
pub proof fn law_what_happens_to_the_cache(s: VramCacheView, now: u128, outcome: ProbeOutcome)
    ensures
        s.looked_up(now).last == s.last,
        s.answer(now) is Probe ==> s.looked_up(now).in_flight,
        s.answer(now) is Serve ==> s.looked_up(now) == s,
        s.recorded(now, outcome).in_flight == s.in_flight,
        s.recorded(now, outcome).last is Some,
        s.recorded(now, outcome).last->0.taken == now,
        outcome matches ProbeOutcome::Finished(vram) ==> s.recorded(now, outcome).last->0.vram
            == vram,
        outcome is TimedOut ==> s.recorded(now, outcome).last->0.vram is None,
        s.returned().last == s.last,
        !s.returned().in_flight,
{
}

/// The times: a reading is reused for two seconds, a missed deadline backs off
/// for thirty, and the deadline is two and a half.
pub proof fn law_the_times_of_the_cache(s: VramCacheView, now: u128, vram: Option<Vram>)
    ensures
        s.recorded(now, ProbeOutcome::Finished(vram)).last->0.fresh_for == 2_000_000_000,
        s.recorded(now, ProbeOutcome::TimedOut).last->0.fresh_for == 30_000_000_000,
        RESIDENCY_PROBE_DEADLINE == 2_500_000_000,
{
}

} // verus!
