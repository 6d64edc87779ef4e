//! The order of the steps that a request goes through, from its arrival to the
//! moment it is counted. The steps themselves are in the pipeline; some of them
//! wait for others, so the order is kept as a state with events.
use vstd::prelude::*;

verus! {

/// What is left to do for a request.
#[derive(Clone, Copy, Debug, PartialEq, Eq, Structural)]
pub enum Phase {
    /// Let it in, unless its body is too long.
    Arrive,
    /// See whether the server answers it itself.
    Intercept,
    /// Find out who it comes from.
    Identify,
    /// Refresh its session with the provider.
    Refresh,
    /// Find the place that it asks for.
    Route,
    /// Find out which country its address lies in.
    Locate,
    /// Put it to the access policy of the place.
    Judge,
    /// Look at its credentials, for the header rules of the place.
    Name,
    /// Put it to the limits of the place.
    Limit,
    /// Hand it to the handler of the place.
    Handle,
    /// Compress the answer, and add to its headers.
    Finish,
    /// Count and log the answer.
    Count,
    /// Nothing.
    Closed,
}

/// What is known of the place that a request asks for.
#[derive(Clone, Copy, Debug, PartialEq, Eq, Structural)]
pub struct RouteFacts {
    pub has_policy: bool,
    /// The policy asks for the country, and countries can be looked up.
    pub needs_country: bool,
    /// The header rules ask who the request comes from.
    pub needs_principal: bool,
}

/// What a step came to.
#[derive(Clone, Copy, Debug, PartialEq, Eq, Structural)]
pub enum Event {
    TooLong,
    LetIn,
    /// The server has answered the request itself.
    Answered,
    /// Sign-on is not ready: the request is answered, and leaves without adding to
    /// the counters of answers.
    NotReady,
    /// Nothing has answered the request.
    Open,
    /// Who the request comes from, as far as it is known, and whether a session
    /// is to be refreshed.
    Identified { known: bool, refresh: bool },
    Refreshed { known: bool },
    /// There is no such place.
    Unrouted,
    Routed(RouteFacts),
    Located,
    /// What the policy decided, and whether it looked at who the request comes
    /// from.
    Judged { allowed: bool, authenticated: bool },
    Named,
    Stopped,
    Cleared,
    Replied,
    /// The time for finding and running a handler is over.
    TimedOut,
    Finished,
    Counted,
}

/// Where a request stands.
#[derive(Clone, Copy, Debug, PartialEq, Eq, Structural)]
pub struct Progress {
    pub phase: Phase,
    /// Who it comes from is known.
    pub known: bool,
    pub route: RouteFacts,
}

/// Whether the time limit of the handler runs in a phase.
pub open spec fn is_timed(p: Phase) -> bool {
    p is Route || p is Locate || p is Judge || p is Name || p is Limit || p is Handle
}

/// What follows once a request may proceed: its credentials are looked at where
/// the header rules need them and nobody knows who it comes from.
pub open spec fn after_policy(known: bool, authenticated: bool, route: RouteFacts) -> Phase {
    if route.needs_principal && !authenticated && !known {
        Phase::Name
    } else {
        Phase::Limit
    }
}

/// What follows once the place of a request is found.
pub open spec fn after_route(known: bool, route: RouteFacts) -> Phase {
    if !route.has_policy {
        after_policy(known, false, route)
    } else if route.needs_country {
        Phase::Locate
    } else {
        Phase::Judge
    }
}

/// What follows a step. An event that does not belong to the step changes
/// nothing.
pub open spec fn next_phase(s: Progress, e: Event) -> Phase {
    match (s.phase, e) {
        (Phase::Arrive, Event::TooLong) => Phase::Closed,
        (Phase::Arrive, Event::LetIn) => Phase::Intercept,
        (Phase::Intercept, Event::Answered) => Phase::Count,
        (Phase::Intercept, Event::NotReady) => Phase::Closed,
        (Phase::Intercept, Event::Open) => Phase::Identify,
        (Phase::Identify, Event::Identified { refresh, .. }) => if refresh {
            Phase::Refresh
        } else {
            Phase::Route
        },
        (Phase::Refresh, Event::Refreshed { .. }) => Phase::Route,
        (Phase::Route, Event::Unrouted) => Phase::Finish,
        (Phase::Route, Event::Routed(route)) => after_route(s.known, route),
        (Phase::Locate, Event::Located) => Phase::Judge,
        (Phase::Judge, Event::Judged { allowed, authenticated }) => if allowed {
            after_policy(s.known, authenticated, s.route)
        } else {
            Phase::Finish
        },
        (Phase::Name, Event::Named) => Phase::Limit,
        (Phase::Limit, Event::Stopped) => Phase::Finish,
        (Phase::Limit, Event::Cleared) => Phase::Handle,
        (Phase::Handle, Event::Replied) => Phase::Finish,
        (p, Event::TimedOut) => if is_timed(p) {
            Phase::Finish
        } else {
            p
        },
        (Phase::Finish, Event::Finished) => Phase::Count,
        (Phase::Count, Event::Counted) => Phase::Closed,
        (p, _) => p,
    }
}

/// Where a request stands after a step.
pub open spec fn advanced(s: Progress, e: Event) -> Progress {
    Progress {
        phase: next_phase(s, e),
        known: match (s.phase, e) {
            (Phase::Identify, Event::Identified { known, .. }) => known,
            (Phase::Refresh, Event::Refreshed { known }) => known,
            _ => s.known,
        },
        route: match (s.phase, e) {
            (Phase::Route, Event::Routed(route)) => route,
            _ => s.route,
        },
    }
}

/// A request that has just arrived.
pub open spec fn arrived() -> Progress {
    Progress {
        phase: Phase::Arrive,
        known: false,
        route: RouteFacts { has_policy: false, needs_country: false, needs_principal: false },
    }
}

fn timed(p: Phase) -> (r: bool)
    ensures
        r == is_timed(p),
{
    match p {
        Phase::Route => true,
        Phase::Locate => true,
        Phase::Judge => true,
        Phase::Name => true,
        Phase::Limit => true,
        Phase::Handle => true,
        _ => false,
    }
}

fn proceed(known: bool, authenticated: bool, route: RouteFacts) -> (r: Phase)
    ensures
        r == after_policy(known, authenticated, route),
{
    if route.needs_principal && !authenticated && !known {
        Phase::Name
    } else {
        Phase::Limit
    }
}

impl Progress {
    /// A request that has just arrived.
    pub fn new() -> (r: Progress)
        ensures
            r == arrived(),
    {
        Progress {
            phase: Phase::Arrive,
            known: false,
            route: RouteFacts { has_policy: false, needs_country: false, needs_principal: false },
        }
    }

    /// Takes up what a step came to: what is left to do.
    pub fn advance(&mut self, e: Event) -> (r: Phase)
        ensures
            *final(self) == advanced(*old(self), e),
            r == final(self).phase,
    {
        let next = match (self.phase, e) {
            (Phase::Arrive, Event::TooLong) => Phase::Closed,
            (Phase::Arrive, Event::LetIn) => Phase::Intercept,
            (Phase::Intercept, Event::Answered) => Phase::Count,
            (Phase::Intercept, Event::NotReady) => Phase::Closed,
            (Phase::Intercept, Event::Open) => Phase::Identify,
            (Phase::Identify, Event::Identified { known, refresh }) => {
                self.known = known;
                if refresh {
                    Phase::Refresh
                } else {
                    Phase::Route
                }
            },
            (Phase::Refresh, Event::Refreshed { known }) => {
                self.known = known;
                Phase::Route
            },
            (Phase::Route, Event::Unrouted) => Phase::Finish,
            (Phase::Route, Event::Routed(route)) => {
                self.route = route;
                if !route.has_policy {
                    proceed(self.known, false, route)
                } else if route.needs_country {
                    Phase::Locate
                } else {
                    Phase::Judge
                }
            },
            (Phase::Locate, Event::Located) => Phase::Judge,
            (Phase::Judge, Event::Judged { allowed, authenticated }) => {
                if allowed {
                    proceed(self.known, authenticated, self.route)
                } else {
                    Phase::Finish
                }
            },
            (Phase::Name, Event::Named) => Phase::Limit,
            (Phase::Limit, Event::Stopped) => Phase::Finish,
            (Phase::Limit, Event::Cleared) => Phase::Handle,
            (Phase::Handle, Event::Replied) => Phase::Finish,
            (p, Event::TimedOut) => {
                if timed(p) {
                    Phase::Finish
                } else {
                    p
                }
            },
            (Phase::Finish, Event::Finished) => Phase::Count,
            (Phase::Count, Event::Counted) => Phase::Closed,
            (p, _) => p,
        };
        self.phase = next;
        next
    }
}

/// Where a request stands after a row of steps.
pub open spec fn run(events: Seq<Event>) -> Progress
    decreases events.len(),
{
    if events.len() == 0 {
        arrived()
    } else {
        advanced(run(events.drop_last()), events.last())
    }
}

/// The policy has let the request proceed.
pub open spec fn was_allowed(events: Seq<Event>) -> bool {
    exists|i: int|
        0 <= i < events.len() && (#[trigger] events[i] matches Event::Judged { allowed, .. }
            && allowed)
}

/// A request reaches a handler only after it was let in, its place was found,
/// the policy of the place, if it has one, has let it proceed, and no limit has
/// stopped it.
pub proof fn law_handler_comes_last(events: Seq<Event>)
    ensures
        run(events).phase is Handle ==> {
            &&& events.contains(Event::LetIn)
            &&& events.contains(Event::Open)
            &&& events.contains(Event::Routed(run(events).route))
            &&& events.contains(Event::Cleared)
            &&& run(events).route.has_policy ==> was_allowed(events)
        },
{
    lemma_trail(events);
}

/// What has happened before each phase.
spec fn trail(events: Seq<Event>) -> bool {
    let s = run(events);
    &&& !(s.phase is Arrive || s.phase is Closed) ==> events.contains(Event::LetIn)
    &&& (is_timed(s.phase) || s.phase is Identify || s.phase is Refresh) ==> events.contains(
        Event::Open,
    )
    &&& is_timed(s.phase) && !(s.phase is Route) ==> events.contains(Event::Routed(s.route))
    &&& (s.phase is Name || s.phase is Limit || s.phase is Handle) && s.route.has_policy
        ==> was_allowed(events)
    &&& s.phase is Handle ==> events.contains(Event::Cleared)
}

proof fn lemma_trail(events: Seq<Event>)
    ensures
        trail(events),
    decreases events.len(),
{
    if events.len() > 0 {
        let before = events.drop_last();
        lemma_trail(before);
        assert forall|e: Event| before.contains(e) implies events.contains(e) by {
            let i = choose|i: int| 0 <= i < before.len() && before[i] == e;
            assert(events[i] == e);
        }
        assert(events[events.len() - 1] == events.last());
        assert(events.contains(events.last()));
        if was_allowed(before) {
            let i = choose|i: int|
                0 <= i < before.len() && (#[trigger] before[i] matches Event::Judged { allowed, .. }
                    && allowed);
            assert(events[i] == before[i]);
            assert(was_allowed(events));
        }
        if run(before).phase is Judge && (events.last() matches Event::Judged { allowed, .. }
            && allowed) {
            assert(was_allowed(events));
        }
    }
}

/// A request that the policy refused goes to no handler in that step, and a
/// closed request stays closed.
pub proof fn law_refused_and_closed(s: Progress, e: Event)
    ensures
        s.phase is Judge && (e matches Event::Judged { allowed, .. } && !allowed) ==> advanced(
            s,
            e,
        ).phase is Finish,
        s.phase is Closed ==> advanced(s, e).phase is Closed,
{
}

/// A request that the server answers itself is never put to a policy, a limit or
/// a handler.
pub proof fn law_own_answers_skip_the_rest(s: Progress)
    requires
        s.phase is Intercept,
    ensures
        advanced(s, Event::Answered).phase is Count,
        advanced(advanced(s, Event::Answered), Event::Counted).phase is Closed,
        advanced(s, Event::NotReady).phase is Closed,
{
}

} // verus!
