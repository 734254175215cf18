//! The refresh scheduler's decisions: whether it runs and at what interval,
//! and what a tick's builds do to the cache.
use crate::cache::CalendarCache;
use crate::config::{Mode, Snapshot};
use vstd::prelude::*;

verus! {

/// The outcome of one build attempted during a tick: the document, or the
/// cause of the failure.
pub struct BuildReport {
    pub identifier: String,
    pub outcome: Result<String, String>,
}

/// A build that failed during a tick, to be reported and otherwise ignored.
pub struct BuildFailure {
    pub identifier: String,
    pub cause: String,
}

/// The cache after the builds of `reports`, in order: each success replaces
/// the entry of its identifier, each failure leaves the cache as it is.
pub open spec fn apply_builds(m: Map<Seq<char>, Seq<char>>, reports: Seq<BuildReport>) -> Map<Seq<char>, Seq<char>>
    decreases reports.len(),
{
    if reports.len() == 0 {
        m
    } else {
        let before = apply_builds(m, reports.drop_last());
        match reports.last().outcome {
            Ok(d) => before.insert(reports.last().identifier@, d@),
            Err(_) => before,
        }
    }
}

/// The failed builds of `reports`, in order, as identifier and cause.
pub open spec fn failures_of(reports: Seq<BuildReport>) -> Seq<(Seq<char>, Seq<char>)>
    decreases reports.len(),
{
    if reports.len() == 0 {
        Seq::empty()
    } else {
        let before = failures_of(reports.drop_last());
        match reports.last().outcome {
            Ok(_) => before,
            Err(c) => before.push((reports.last().identifier@, c@)),
        }
    }
}

/// The document of the last successful build of `ident` in `reports`.
pub open spec fn last_success(reports: Seq<BuildReport>, ident: Seq<char>) -> Option<Seq<char>>
    decreases reports.len(),
{
    if reports.len() == 0 {
        None
    } else {
        match reports.last().outcome {
            Ok(d) => if reports.last().identifier@ == ident {
                Some(d@)
            } else {
                last_success(reports.drop_last(), ident)
            },
            Err(_) => last_success(reports.drop_last(), ident),
        }
    }
}

/// The interval at which the scheduler ticks, or `None` when the mode is
/// on-demand and the scheduler has nothing to do.
pub open spec fn interval_of(mode: Mode) -> Option<u64> {
    match mode {
        Mode::Periodic { interval_secs } => Some(interval_secs),
        Mode::OnDemand => None,
    }
}

/// The scheduler's decision at start: tick every `n` seconds (`Some(n)`, with
/// `n` positive), or stop at once because calendars are built on demand.
pub fn refresh_interval<S>(snap: &Snapshot<S>) -> (r: Option<u64>)
    requires
        snap.wf(),
    ensures
        r == interval_of(snap.spec_mode()),
        r matches Some(n) ==> n > 0,
{
    match snap.mode() {
        Mode::Periodic { interval_secs } => Some(interval_secs),
        Mode::OnDemand => None,
    }
}

/// Applies the builds of one tick to the cache: every success replaces its
/// calendar's entry, and a failure neither stops the builds after it nor
/// touches the cache. Returns the failures, in order, for reporting.
pub fn apply_tick(cache: &mut CalendarCache, reports: Vec<BuildReport>) -> (r: Vec<BuildFailure>)
    ensures
        final(cache)@ == apply_builds(old(cache)@, reports@),
        r@.map_values(|f: BuildFailure| (f.identifier@, f.cause@)) == failures_of(reports@),
{
    let ghost start = cache@;
    let mut failures: Vec<BuildFailure> = Vec::new();
    let mut i: usize = 0;
    while i < reports.len()
        invariant
            i <= reports@.len(),
            cache@ == apply_builds(start, reports@.take(i as int)),
            failures@.map_values(|f: BuildFailure| (f.identifier@, f.cause@)) == failures_of(reports@.take(i as int)),
        decreases reports@.len() - i,
    {
        let report = &reports[i];
        proof {
            assert(reports@.take(i + 1).drop_last() == reports@.take(i as int));
        }
        match &report.outcome {
            Ok(document) => {
                cache.put(report.identifier.clone(), document.clone());
            },
            Err(cause) => {
                failures.push(BuildFailure { identifier: report.identifier.clone(), cause: cause.clone() });
                proof {
                    assert(failures@.map_values(|f: BuildFailure| (f.identifier@, f.cause@)) =~= failures_of(reports@.take(i + 1)));
                }
            },
        }
        i = i + 1;
    }
    proof {
        assert(reports@.take(reports@.len() as int) == reports@);
    }
    failures
}

/// After a tick, a calendar's entry is the document of its last successful
/// build in the tick; where none of its builds succeeded, it is the entry it
/// had before the tick, or still absent.
pub proof fn lemma_tick_entry(m: Map<Seq<char>, Seq<char>>, reports: Seq<BuildReport>, ident: Seq<char>)
    ensures
        apply_builds(m, reports).get(ident) == if last_success(reports, ident) is Some {
            last_success(reports, ident)
        } else {
            m.get(ident)
        },
    decreases reports.len(),
{
    if reports.len() > 0 {
        lemma_tick_entry(m, reports.drop_last(), ident);
    }
}

/// A failed build never keeps another calendar of the same tick from being
/// cached: a calendar whose build succeeds is cached with that document,
/// whatever else fails, unless a later build of the same tick is for the
/// same calendar.
pub proof fn lemma_failure_isolation(m: Map<Seq<char>, Seq<char>>, reports: Seq<BuildReport>, i: int)
    requires
        0 <= i < reports.len(),
        reports[i].outcome is Ok,
        forall|j: int| #![trigger reports[j]] i < j < reports.len() ==> reports[j].identifier@ != reports[i].identifier@,
    ensures
        apply_builds(m, reports).contains_key(reports[i].identifier@),
        apply_builds(m, reports)[reports[i].identifier@] == reports[i].outcome->Ok_0@,
    decreases reports.len(),
{
    if i < reports.len() - 1 {
        let rest = reports.drop_last();
        assert forall|j: int| #![trigger rest[j]] i < j < rest.len() implies rest[j].identifier@ != rest[i].identifier@ by {
            assert(rest[j] == reports[j]);
        }
        lemma_failure_isolation(m, rest, i);
        assert(reports.last() == reports[reports.len() - 1]);
    }
}

/// A calendar none of whose builds in a tick succeeds keeps the entry it had
/// before the tick, or stays absent: a failure removes nothing.
pub proof fn lemma_failed_build_keeps_entry(m: Map<Seq<char>, Seq<char>>, reports: Seq<BuildReport>, ident: Seq<char>)
    requires
        forall|j: int| #![trigger reports[j]] 0 <= j < reports.len() && reports[j].identifier@ == ident
            ==> reports[j].outcome is Err,
    ensures
        apply_builds(m, reports).get(ident) == m.get(ident),
    decreases reports.len(),
{
    if reports.len() > 0 {
        let rest = reports.drop_last();
        assert forall|j: int| #![trigger rest[j]] 0 <= j < rest.len() && rest[j].identifier@ == ident
            implies rest[j].outcome is Err by {
            assert(rest[j] == reports[j]);
        }
        lemma_failed_build_keeps_entry(m, rest, ident);
        assert(reports.last() == reports[reports.len() - 1]);
    }
}

/// Running the same tick twice, with the same build results, leaves the
/// cache as running it once did.
pub proof fn lemma_tick_idempotent(m: Map<Seq<char>, Seq<char>>, reports: Seq<BuildReport>)
    ensures
        apply_builds(apply_builds(m, reports), reports) == apply_builds(m, reports),
{
    let once = apply_builds(m, reports);
    let twice = apply_builds(once, reports);
    assert forall|k: Seq<char>| #![trigger twice.get(k)] twice.get(k) == once.get(k) by {
        lemma_tick_entry(m, reports, k);
        lemma_tick_entry(once, reports, k);
    }
    assert forall|k: Seq<char>| #![trigger twice.contains_key(k)] twice.contains_key(k) == once.contains_key(k) by {
        assert(twice.get(k) == once.get(k));
    }
    assert forall|k: Seq<char>| #![trigger twice[k]] twice.contains_key(k) implies twice[k] == once[k] by {
        assert(twice.get(k) == once.get(k));
    }
    assert(twice =~= once);
}

} // verus!
