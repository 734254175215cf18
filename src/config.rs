//! The configuration snapshot: the operating mode and the configured calendars.
use vstd::prelude::*;

verus! {

/// How the cache is kept populated.
#[derive(Clone, Copy, Debug, PartialEq, Eq, Structural)]
pub enum Mode {
    /// A background task rebuilds every calendar once per interval, in seconds.
    Periodic { interval_secs: u64 },
    /// Each request builds its own calendar before the cache is read.
    OnDemand,
}

/// Periodic refresh was chosen without a usable interval.
#[derive(Clone, Copy, Debug, PartialEq, Eq, Structural)]
pub struct SchedulerMisconfigured;

impl Mode {
    /// A periodic mode needs an interval of at least one second.
    pub open spec fn is_valid(self) -> bool {
        match self {
            Mode::Periodic { interval_secs } => interval_secs > 0,
            Mode::OnDemand => true,
        }
    }
}

/// The mode that the two configuration settings select: on-demand wins
/// whenever it is asked for; otherwise periodic refresh needs a positive
/// interval.
pub open spec fn mode_of(fetch_on_demand: bool, fetch_interval_seconds: Option<u64>) -> Result<Mode, SchedulerMisconfigured> {
    if fetch_on_demand {
        Ok(Mode::OnDemand)
    } else {
        match fetch_interval_seconds {
            Some(n) => if n > 0 {
                Ok(Mode::Periodic { interval_secs: n })
            } else {
                Err(SchedulerMisconfigured)
            },
            None => Err(SchedulerMisconfigured),
        }
    }
}

/// The configuration that the scheduler and every request read: the mode,
/// fixed for the life of the snapshot, and the sources of the configured
/// calendars by identifier. `S` is whatever the calendar builder needs.
pub struct Snapshot<S> {
    mode: Mode,
    entries: Vec<(String, S)>,
    calendars: Ghost<Map<Seq<char>, S>>,
}

impl<S> Snapshot<S> {
    /// The entries and the identifier map agree, and the mode is valid.
    pub closed spec fn wf(&self) -> bool {
        &&& self.mode.is_valid()
        &&& forall|i: int| #![trigger self.entries@[i]] 0 <= i < self.entries@.len() ==>
            self.calendars@.contains_key(self.entries@[i].0@)
            && self.calendars@[self.entries@[i].0@] == self.entries@[i].1
        &&& forall|k: Seq<char>| #![trigger self.calendars@.contains_key(k)] self.calendars@.contains_key(k)
            ==> exists|i: int| 0 <= i < self.entries@.len() && self.entries@[i].0@ == k
        &&& forall|i: int, j: int| #![trigger self.entries@[i], self.entries@[j]]
            0 <= i < self.entries@.len() && 0 <= j < self.entries@.len() && i != j
            ==> self.entries@[i].0@ != self.entries@[j].0@
    }

    /// The operating mode.
    pub closed spec fn spec_mode(&self) -> Mode {
        self.mode
    }

    /// The configured calendars: identifier to source.
    pub closed spec fn spec_calendars(&self) -> Map<Seq<char>, S> {
        self.calendars@
    }

    /// A snapshot with no calendars, in the mode that the settings select.
    pub fn new(fetch_on_demand: bool, fetch_interval_seconds: Option<u64>) -> (r: Result<Snapshot<S>, SchedulerMisconfigured>)
        ensures
            r matches Ok(s) ==> mode_of(fetch_on_demand, fetch_interval_seconds) == Ok::<Mode, SchedulerMisconfigured>(s.spec_mode())
                && s.spec_calendars().dom() == Set::<Seq<char>>::empty() && s.wf(),
            r is Err <==> mode_of(fetch_on_demand, fetch_interval_seconds) is Err,
    {
        let mode = if fetch_on_demand {
            Mode::OnDemand
        } else {
            match fetch_interval_seconds {
                Some(n) => {
                    if n > 0 {
                        Mode::Periodic { interval_secs: n }
                    } else {
                        return Err(SchedulerMisconfigured);
                    }
                },
                None => {
                    return Err(SchedulerMisconfigured);
                },
            }
        };
        Ok(Snapshot { mode, entries: Vec::new(), calendars: Ghost(Map::empty()) })
    }

    /// The operating mode.
    pub fn mode(&self) -> (r: Mode)
        requires
            self.wf(),
        ensures
            r == self.spec_mode(),
            r.is_valid(),
    {
        self.mode
    }

    /// Configures `ident` with `source`, replacing an earlier source of the
    /// same identifier.
    pub fn insert_calendar(&mut self, ident: String, source: S)
        requires
            old(self).wf(),
        ensures
            final(self).wf(),
            final(self).spec_mode() == old(self).spec_mode(),
            final(self).spec_calendars() == old(self).spec_calendars().insert(ident@, source),
    {
        let pos = self.position(&ident);
        let ghost old_entries = self.entries@;
        let ghost old_map = self.calendars@;
        let ghost key = ident@;
        let ghost new_map = self.calendars@.insert(ident@, source);
        match pos {
            Some(i) => {
                self.entries.set(i, (ident, source));
            },
            None => {
                self.entries.push((ident, source));
            },
        }
        self.calendars = Ghost(new_map);
        proof {
            let e = self.entries@;
            assert forall|j: int| #![trigger e[j]] 0 <= j < e.len() implies
                new_map.contains_key(e[j].0@) && new_map[e[j].0@] == e[j].1 by {
                match pos {
                    Some(p) => {
                        if j != p {
                            assert(e[j] == old_entries[j]);
                            assert(old_entries[p as int] == old_entries[p as int]);
                            assert(old_map.contains_key(old_entries[j].0@));
                        }
                    },
                    None => {
                        if j < old_entries.len() {
                            assert(e[j] == old_entries[j]);
                            assert(old_map.contains_key(old_entries[j].0@));
                        }
                    },
                }
            }
            assert forall|k: Seq<char>| #![trigger new_map.contains_key(k)] new_map.contains_key(k)
                implies exists|i: int| 0 <= i < e.len() && e[i].0@ == k by {
                if k == key {
                    match pos {
                        Some(p) => assert(e[p as int].0@ == k),
                        None => assert(e[e.len() - 1].0@ == k),
                    }
                } else {
                    assert(old_map.contains_key(k));
                    let i = choose|i: int| 0 <= i < old_entries.len() && old_entries[i].0@ == k;
                    assert(e[i].0@ == k);
                }
            }
            assert forall|i: int, j: int| #![trigger e[i], e[j]]
                0 <= i < e.len() && 0 <= j < e.len() && i != j implies e[i].0@ != e[j].0@ by {
                if i < old_entries.len() && j < old_entries.len() {
                    assert(old_entries[i] == old_entries[i] && old_entries[j] == old_entries[j]);
                }
            }
        }
    }

    /// Where `ident` stands among the entries, if it is configured.
    fn position(&self, ident: &String) -> (r: Option<usize>)
        ensures
            r matches Some(i) ==> i < self.entries@.len() && self.entries@[i as int].0@ == ident@,
            r is None ==> forall|i: int| 0 <= i < self.entries@.len() ==> self.entries@[i].0@ != ident@,
    {
        let mut i: usize = 0;
        while i < self.entries.len()
            invariant
                i <= self.entries@.len(),
                forall|j: int| 0 <= j < i ==> self.entries@[j].0@ != ident@,
            decreases self.entries@.len() - i,
        {
            if self.entries[i].0 == *ident {
                return Some(i);
            }
            i = i + 1;
        }
        None
    }

    /// The source configured for `ident`, if any.
    pub fn source(&self, ident: &String) -> (r: Option<&S>)
        requires
            self.wf(),
        ensures
            r matches Some(s) ==> self.spec_calendars().contains_key(ident@) && *s == self.spec_calendars()[ident@],
            r is None ==> !self.spec_calendars().contains_key(ident@),
    {
        match self.position(ident) {
            Some(i) => Some(&self.entries[i].1),
            None => None,
        }
    }

    /// Whether `ident` is configured.
    pub fn is_configured(&self, ident: &String) -> (r: bool)
        requires
            self.wf(),
        ensures
            r == self.spec_calendars().contains_key(ident@),
    {
        self.source(ident).is_some()
    }

    /// The identifiers of all configured calendars, each once.
    pub fn identifiers(&self) -> (r: Vec<String>)
        requires
            self.wf(),
        ensures
            forall|i: int| #![trigger r@[i]] 0 <= i < r@.len() ==> self.spec_calendars().contains_key(r@[i]@),
            forall|k: Seq<char>| #![trigger self.spec_calendars().contains_key(k)] self.spec_calendars().contains_key(k)
                ==> exists|i: int| 0 <= i < r@.len() && r@[i]@ == k,
    {
        let mut r: Vec<String> = Vec::new();
        let mut i: usize = 0;
        while i < self.entries.len()
            invariant
                i <= self.entries@.len(),
                r@.len() == i,
                forall|j: int| 0 <= j < i ==> r@[j]@ == self.entries@[j].0@,
            decreases self.entries@.len() - i,
        {
            r.push(self.entries[i].0.clone());
            i = i + 1;
        }
        proof {
            assert forall|k: Seq<char>| #![trigger self.spec_calendars().contains_key(k)] self.spec_calendars().contains_key(k)
                implies exists|i: int| 0 <= i < r@.len() && r@[i]@ == k by {
                let i = choose|i: int| 0 <= i < self.entries@.len() && self.entries@[i].0@ == k;
                assert(r@[i]@ == k);
            }
        }
        r
    }
}

} // verus!
