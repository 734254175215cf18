//! The request handler's decisions for `GET /<identifier>`.
use crate::cache::CalendarCache;
use crate::config::{Mode, Snapshot};
use vstd::prelude::*;

verus! {

/// Why a request is answered without a document.
#[derive(Clone, Copy, Debug, PartialEq, Eq, Structural)]
pub enum RequestError {
    /// The identifier is not among the configured calendars.
    NotConfigured,
    /// The calendar is configured, but no build of it has succeeded yet.
    NoCachedDocument,
}

/// The text of the error response for `e`.
pub open spec fn message_of(e: RequestError) -> Seq<char> {
    match e {
        RequestError::NotConfigured => "Calendar not found"@,
        RequestError::NoCachedDocument => "No calendar found"@,
    }
}

impl RequestError {
    /// The text of the error response.
    pub fn message(&self) -> (r: String)
        ensures
            r@ == message_of(*self),
    {
        proof {
            reveal_strlit("Calendar not found");
            reveal_strlit("No calendar found");
        }
        match self {
            RequestError::NotConfigured => String::from_str("Calendar not found"),
            RequestError::NoCachedDocument => String::from_str("No calendar found"),
        }
    }
}

/// What the handler does for a request, before it answers.
#[derive(Clone, Copy, Debug, PartialEq, Eq, Structural)]
pub enum RequestPlan {
    /// Answer `NotConfigured` at once.
    Reject,
    /// Build the calendar, then answer from the cache.
    BuildThenRead,
    /// Answer from the cache; the builder is not called.
    ReadCache,
}

/// The plan for a request, given whether its identifier is configured and
/// the operating mode.
pub open spec fn plan_of(configured: bool, mode: Mode) -> RequestPlan {
    if !configured {
        RequestPlan::Reject
    } else if mode is OnDemand {
        RequestPlan::BuildThenRead
    } else {
        RequestPlan::ReadCache
    }
}

/// The cache after a request. `built` is the document of the build made for
/// the request, or `None` where none was made or it failed. A document is
/// stored only for a configured calendar in on-demand mode.
pub open spec fn cache_after_request(
    m: Map<Seq<char>, Seq<char>>,
    configured: bool,
    mode: Mode,
    ident: Seq<char>,
    built: Option<Seq<char>>,
) -> Map<Seq<char>, Seq<char>> {
    if plan_of(configured, mode) == RequestPlan::BuildThenRead && built is Some {
        m.insert(ident, built->Some_0)
    } else {
        m
    }
}

/// The answer to a request: `NotConfigured` for an identifier that is not
/// configured, whatever the cache holds; else the cached document after the
/// request's build, or `NoCachedDocument` where there is none.
pub open spec fn answer_of(
    m: Map<Seq<char>, Seq<char>>,
    configured: bool,
    mode: Mode,
    ident: Seq<char>,
    built: Option<Seq<char>>,
) -> Result<Seq<char>, RequestError> {
    let after = cache_after_request(m, configured, mode, ident, built);
    if !configured {
        Err(RequestError::NotConfigured)
    } else if after.contains_key(ident) {
        Ok(after[ident])
    } else {
        Err(RequestError::NoCachedDocument)
    }
}

/// The view of an optional document.
pub open spec fn document_view(d: Option<String>) -> Option<Seq<char>> {
    match d {
        Some(s) => Some(s@),
        None => None,
    }
}

/// Decides what to do for a request of `ident`, before any build.
pub fn plan_request<S>(snap: &Snapshot<S>, ident: &String) -> (r: RequestPlan)
    requires
        snap.wf(),
    ensures
        r == plan_of(snap.spec_calendars().contains_key(ident@), snap.spec_mode()),
{
    if !snap.is_configured(ident) {
        RequestPlan::Reject
    } else {
        match snap.mode() {
            Mode::OnDemand => RequestPlan::BuildThenRead,
            Mode::Periodic { .. } => RequestPlan::ReadCache,
        }
    }
}

/// Answers a request of `ident`. `built` carries the document of the build
/// made for it under `RequestPlan::BuildThenRead`, or `None` where the build
/// failed or none was made; it is stored in the cache only under that plan,
/// and ignored otherwise.
pub fn answer_request<S>(snap: &Snapshot<S>, cache: &mut CalendarCache, ident: &String, built: Option<String>) -> (r: Result<String, RequestError>)
    requires
        snap.wf(),
    ensures
        final(cache)@ == cache_after_request(
            old(cache)@,
            snap.spec_calendars().contains_key(ident@),
            snap.spec_mode(),
            ident@,
            document_view(built),
        ),
        r matches Ok(d) ==> answer_of(
            old(cache)@,
            snap.spec_calendars().contains_key(ident@),
            snap.spec_mode(),
            ident@,
            document_view(built),
        ) == Ok::<Seq<char>, RequestError>(d@),
        r matches Err(e) ==> answer_of(
            old(cache)@,
            snap.spec_calendars().contains_key(ident@),
            snap.spec_mode(),
            ident@,
            document_view(built),
        ) == Err::<Seq<char>, RequestError>(e),
{
    match plan_request(snap, ident) {
        RequestPlan::Reject => {
            return Err(RequestError::NotConfigured);
        },
        RequestPlan::BuildThenRead => {
            if let Some(document) = built {
                cache.put(ident.clone(), document);
            }
        },
        RequestPlan::ReadCache => {},
    }
    match cache.get(ident) {
        Some(document) => Ok(document),
        None => Err(RequestError::NoCachedDocument),
    }
}

/// Answers a request of `ident` for which no document is to be stored (no
/// build was made, or it failed), reading the cache without changing it.
pub fn read_request<S>(snap: &Snapshot<S>, cache: &CalendarCache, ident: &String) -> (r: Result<String, RequestError>)
    requires
        snap.wf(),
    ensures
        cache_after_request(cache@, snap.spec_calendars().contains_key(ident@), snap.spec_mode(), ident@, None) == cache@,
        r matches Ok(d) ==> answer_of(cache@, snap.spec_calendars().contains_key(ident@), snap.spec_mode(), ident@, None)
            == Ok::<Seq<char>, RequestError>(d@),
        r matches Err(e) ==> answer_of(cache@, snap.spec_calendars().contains_key(ident@), snap.spec_mode(), ident@, None)
            == Err::<Seq<char>, RequestError>(e),
{
    if !snap.is_configured(ident) {
        return Err(RequestError::NotConfigured);
    }
    match cache.get(ident) {
        Some(document) => Ok(document),
        None => Err(RequestError::NoCachedDocument),
    }
}

/// A request of an identifier that is not configured is answered
/// `NotConfigured` and leaves the cache as it was, whatever the cache holds,
/// the mode, or a build.
pub proof fn lemma_unconfigured_never_served(
    m: Map<Seq<char>, Seq<char>>,
    mode: Mode,
    ident: Seq<char>,
    built: Option<Seq<char>>,
)
    ensures
        answer_of(m, false, mode, ident, built) == Err::<Seq<char>, RequestError>(RequestError::NotConfigured),
        cache_after_request(m, false, mode, ident, built) == m,
{
}

/// In periodic mode a configured calendar that no build has cached yet is
/// answered `NoCachedDocument`, and the request stores nothing.
pub proof fn lemma_periodic_unbuilt(
    m: Map<Seq<char>, Seq<char>>,
    interval_secs: u64,
    ident: Seq<char>,
    built: Option<Seq<char>>,
)
    requires
        !m.contains_key(ident),
    ensures
        answer_of(m, true, Mode::Periodic { interval_secs }, ident, built)
            == Err::<Seq<char>, RequestError>(RequestError::NoCachedDocument),
        cache_after_request(m, true, Mode::Periodic { interval_secs }, ident, built) == m,
{
}

/// In on-demand mode a successful build of a configured calendar is the
/// answer, and it stays in the cache: a later request that makes no build,
/// in either mode, is answered with the same document.
pub proof fn lemma_on_demand_build_then_read(
    m: Map<Seq<char>, Seq<char>>,
    ident: Seq<char>,
    document: Seq<char>,
    later_mode: Mode,
)
    ensures
        answer_of(m, true, Mode::OnDemand, ident, Some(document)) == Ok::<Seq<char>, RequestError>(document),
        cache_after_request(m, true, Mode::OnDemand, ident, Some(document)).get(ident) == Some(document),
        answer_of(cache_after_request(m, true, Mode::OnDemand, ident, Some(document)), true, later_mode, ident, None)
            == Ok::<Seq<char>, RequestError>(document),
{
}

/// Building a calendar again with the same document changes neither the
/// cache nor the answer.
pub proof fn lemma_rebuild_stable(
    m: Map<Seq<char>, Seq<char>>,
    configured: bool,
    mode: Mode,
    ident: Seq<char>,
    document: Seq<char>,
)
    ensures
        cache_after_request(cache_after_request(m, configured, mode, ident, Some(document)), configured, mode, ident, Some(document))
            == cache_after_request(m, configured, mode, ident, Some(document)),
        answer_of(cache_after_request(m, configured, mode, ident, Some(document)), configured, mode, ident, Some(document))
            == answer_of(m, configured, mode, ident, Some(document)),
{
    let once = cache_after_request(m, configured, mode, ident, Some(document));
    assert(cache_after_request(once, configured, mode, ident, Some(document)) =~= once);
}

} // verus!
