//! Who probes, and who is served what.
use aivyx_broker::gpu::{GpuProbe, Vram};
use aivyx_broker::vram_cache::{
    Lookup, ProbeOutcome, RESIDENCY_PROBE_DEADLINE, VRAM_CACHE_TTL, VRAM_TIMEOUT_BACKOFF,
    VramCache,
};

const MILLISECOND: u128 = 1_000_000;

const READING: Vram = Vram { total_bytes: 2, used_bytes: 1 };

#[test]
fn the_times_are_what_they_say() {
    assert_eq!(RESIDENCY_PROBE_DEADLINE, 2500 * MILLISECOND);
    assert_eq!(VRAM_CACHE_TTL, 2000 * MILLISECOND);
    assert_eq!(VRAM_TIMEOUT_BACKOFF, 30_000 * MILLISECOND);
}

#[test]
fn a_probe_that_missed_its_deadline_gives_no_reading() {
    let mut cache = VramCache::default();
    assert_eq!(cache.get(0), Lookup::Probe);
    cache.record(0, ProbeOutcome::Finished(Some(READING)));
    cache.probe_returned();
    assert_eq!(cache.get(VRAM_CACHE_TTL), Lookup::Probe);
    let late = VRAM_CACHE_TTL + RESIDENCY_PROBE_DEADLINE;
    assert_eq!(cache.record(late, ProbeOutcome::TimedOut), None);
    assert_eq!(cache.get(late), Lookup::Serve(None));
}

#[test]
fn a_hung_probe_is_never_stacked_past_the_cache_ttl() {
    let mut cache = VramCache::default();
    assert_eq!(cache.get(0), Lookup::Probe);
    assert_eq!(cache.record(RESIDENCY_PROBE_DEADLINE, ProbeOutcome::TimedOut), None);
    // Past the cache's time to live; the first probe is still hung.
    let later = RESIDENCY_PROBE_DEADLINE + 2600 * MILLISECOND;
    assert_eq!(cache.get(later), Lookup::Serve(None));
    // And past the backoff too.
    assert_eq!(cache.get(later + VRAM_TIMEOUT_BACKOFF), Lookup::Serve(None));
}

#[test]
fn an_outstanding_probe_blocks_a_new_one_even_after_the_backoff() {
    let mut cache = VramCache::default();
    assert_eq!(cache.get(0), Lookup::Probe);
    // Nothing cached, and the probe is still out.
    assert_eq!(cache.get(u128::MAX), Lookup::Serve(None));
    // Once it returns, probing resumes.
    cache.probe_returned();
    assert_eq!(cache.get(1), Lookup::Probe);
}

#[test]
fn back_to_back_residency_requests_share_one_probe() {
    let mut cache = VramCache::default();
    assert_eq!(cache.get(0), Lookup::Probe);
    cache.probe_returned();
    assert_eq!(cache.record(1, ProbeOutcome::Finished(Some(READING))), Some(READING));
    assert_eq!(cache.get(2), Lookup::Serve(Some(READING)));
    assert_eq!(cache.get(VRAM_CACHE_TTL), Lookup::Serve(Some(READING)));
    assert_eq!(cache.get(VRAM_CACHE_TTL + 1), Lookup::Probe);
}

#[test]
fn a_stale_reading_is_served_while_a_probe_is_out() {
    let mut cache = VramCache::default();
    assert_eq!(cache.get(0), Lookup::Probe);
    cache.record(0, ProbeOutcome::Finished(Some(READING)));
    cache.probe_returned();
    assert_eq!(cache.get(VRAM_CACHE_TTL), Lookup::Probe);
    assert_eq!(cache.get(2 * VRAM_CACHE_TTL), Lookup::Serve(Some(READING)));
}

#[test]
fn nothing_is_probed_during_the_backoff() {
    let mut cache = VramCache::default();
    assert_eq!(cache.get(0), Lookup::Probe);
    cache.record(0, ProbeOutcome::TimedOut);
    cache.probe_returned();
    assert_eq!(cache.get(VRAM_TIMEOUT_BACKOFF - 1), Lookup::Serve(None));
    assert_eq!(cache.get(VRAM_TIMEOUT_BACKOFF), Lookup::Probe);
}

#[test]
fn a_probe_without_a_reading_is_reused_like_any_other() {
    let mut cache = VramCache::default();
    assert_eq!(cache.get(0), Lookup::Probe);
    cache.probe_returned();
    assert_eq!(cache.record(5, ProbeOutcome::Finished(None)), None);
    assert_eq!(cache.get(6), Lookup::Serve(None));
    // A clock that went back makes no reading stale.
    assert_eq!(cache.get(0), Lookup::Serve(None));
    assert_eq!(cache.get(5 + VRAM_CACHE_TTL), Lookup::Probe);
}

struct FakeProbe(Option<Vram>);

impl GpuProbe for FakeProbe {
    fn vram(&self) -> Option<Vram> {
        self.0
    }
}

#[test]
fn a_probe_can_be_faked() {
    let mut cache = VramCache::default();
    let probe: Box<dyn GpuProbe> = Box::new(FakeProbe(Some(READING)));
    assert_eq!(cache.get(0), Lookup::Probe);
    let outcome = ProbeOutcome::Finished(probe.vram());
    cache.probe_returned();
    assert_eq!(cache.record(0, outcome), Some(READING));
}
