//! Plain and encrypted HTTP listeners: the time limits of a connection, the
//! course of a connection, and the course of an accept loop.
use crate::metrics::Metrics;
use vstd::prelude::*;

verus! {

/// How long a client may take to send the headers of a request, in seconds,
/// where nothing else is set up.
pub const DEFAULT_HEADER_TIMEOUT_SECS: u64 = 30;

/// The time limits of a listener, in seconds; 0 switches a limit off.
#[derive(Clone, Copy, Debug, PartialEq, Eq, Structural)]
pub struct Timeouts {
    pub request_header_secs: Option<u64>,
    pub keepalive_secs: Option<u64>,
    pub handler_secs: Option<u64>,
}

impl Default for Timeouts {
    fn default() -> (r: Self)
        ensures
            r == (Timeouts { request_header_secs: None, keepalive_secs: None, handler_secs: None }),
    {
        Timeouts { request_header_secs: None, keepalive_secs: None, handler_secs: None }
    }
}

/// How a connection is served.
#[derive(Clone, Copy, Debug, PartialEq, Eq, Structural)]
pub struct ConnSettings {
    /// The connection outlives a request.
    pub keep_alive: bool,
    /// How long the headers of a request, and the pause before it, may take.
    pub header_read_secs: Option<u64>,
}

/// The smaller of the limits that are set up.
pub open spec fn tighter(a: Option<u64>, b: Option<u64>) -> Option<u64> {
    match (a, b) {
        (Some(x), Some(y)) => Some(
            if x <= y {
                x
            } else {
                y
            },
        ),
        (Some(x), None) => Some(x),
        (None, y) => y,
    }
}

/// A limit of some seconds; none where it is switched off.
pub open spec fn active(secs: u64) -> Option<u64> {
    if secs > 0 {
        Some(secs)
    } else {
        None
    }
}

/// How a connection is served under some time limits. One timer bounds the
/// headers and the pause between requests, so the smaller limit counts. A
/// keep-alive limit of zero ends the connection after one request.
pub open spec fn conn_settings(t: Timeouts) -> ConnSettings {
    if t.keepalive_secs == Some(0u64) {
        ConnSettings { keep_alive: false, header_read_secs: None }
    } else {
        ConnSettings {
            keep_alive: true,
            header_read_secs: active(
                match tighter(t.request_header_secs, t.keepalive_secs) {
                    Some(s) => s,
                    None => DEFAULT_HEADER_TIMEOUT_SECS,
                },
            ),
        }
    }
}

/// The smaller of the limits that are set up.
pub fn header_cap(t: &Timeouts) -> (r: Option<u64>)
    ensures
        r == tighter(t.request_header_secs, t.keepalive_secs),
{
    match (t.request_header_secs, t.keepalive_secs) {
        (Some(x), Some(y)) => Some(
            if x <= y {
                x
            } else {
                y
            },
        ),
        (Some(x), None) => Some(x),
        (None, y) => y,
    }
}

/// Says how a connection is served under some time limits.
pub fn make_builder(t: &Timeouts) -> (r: ConnSettings)
    ensures
        r == conn_settings(*t),
{
    match t.keepalive_secs {
        Some(k) => {
            if k == 0 {
                return ConnSettings { keep_alive: false, header_read_secs: None };
            }
        },
        None => {},
    }
    let secs: u64 = match header_cap(t) {
        Some(s) => s,
        None => DEFAULT_HEADER_TIMEOUT_SECS,
    };
    ConnSettings {
        keep_alive: true,
        header_read_secs: if secs > 0 {
            Some(secs)
        } else {
            None
        },
    }
}

/// How long a client may take until its first request is there.
pub open spec fn first_request_limit(t: Timeouts) -> Option<u64> {
    active(
        match t.request_header_secs {
            Some(s) => s,
            None => DEFAULT_HEADER_TIMEOUT_SECS,
        },
    )
}

/// Says how long a client may take until its first request is there, in seconds;
/// nothing where it may take forever.
pub fn first_request_secs(t: &Timeouts) -> (r: Option<u64>)
    ensures
        r == first_request_limit(*t),
{
    let secs: u64 = match t.request_header_secs {
        Some(s) => s,
        None => DEFAULT_HEADER_TIMEOUT_SECS,
    };
    if secs > 0 {
        Some(secs)
    } else {
        None
    }
}

// -- From accepting a connection to serving it -----------------------

/// What a listener does with a connection before it is served.
#[derive(Clone, Copy, Debug, PartialEq, Eq, Structural)]
pub struct ConnSetup {
    /// The number of connections is limited.
    pub limited: bool,
    /// A PROXY header is read first.
    pub reads_header: bool,
    pub tls: bool,
}

/// What is done with an accepted connection.
#[derive(Clone, Copy, Debug, PartialEq, Eq, Structural)]
pub enum ConnPhase {
    /// Wait until there is room for one more connection.
    Permit,
    /// Read the PROXY header, which is never encrypted.
    ReadHeader,
    /// Answer the TLS handshake.
    Handshake,
    Serve,
    Closed,
}

/// Whether a listener goes through a phase.
pub open spec fn conn_has(s: ConnSetup, p: ConnPhase) -> bool {
    match p {
        ConnPhase::Permit => s.limited,
        ConnPhase::ReadHeader => s.reads_header,
        ConnPhase::Handshake => s.tls,
        _ => true,
    }
}

/// The first phase from `p` on that a listener goes through.
pub open spec fn conn_due(s: ConnSetup, p: ConnPhase) -> ConnPhase
    decreases 4 - conn_rank(p),
{
    if conn_has(s, p) {
        p
    } else {
        conn_due(
            s,
            match p {
                ConnPhase::Permit => ConnPhase::ReadHeader,
                ConnPhase::ReadHeader => ConnPhase::Handshake,
                _ => ConnPhase::Serve,
            },
        )
    }
}

/// The phase behind `p`, where `p` has succeeded or not.
pub open spec fn conn_behind(s: ConnSetup, p: ConnPhase, ok: bool) -> ConnPhase {
    if !ok {
        ConnPhase::Closed
    } else {
        match p {
            ConnPhase::Permit => conn_due(s, ConnPhase::ReadHeader),
            ConnPhase::ReadHeader => conn_due(s, ConnPhase::Handshake),
            ConnPhase::Handshake => ConnPhase::Serve,
            _ => ConnPhase::Closed,
        }
    }
}

impl ConnSetup {
    fn from(self, p: ConnPhase) -> (r: ConnPhase)
        ensures
            r == conn_due(self, p),
    {
        proof {
            reveal_with_fuel(conn_due, 4);
        }
        match p {
            ConnPhase::Permit => {
                if self.limited {
                    p
                } else if self.reads_header {
                    ConnPhase::ReadHeader
                } else if self.tls {
                    ConnPhase::Handshake
                } else {
                    ConnPhase::Serve
                }
            },
            ConnPhase::ReadHeader => {
                if self.reads_header {
                    p
                } else if self.tls {
                    ConnPhase::Handshake
                } else {
                    ConnPhase::Serve
                }
            },
            ConnPhase::Handshake => {
                if self.tls {
                    p
                } else {
                    ConnPhase::Serve
                }
            },
            _ => p,
        }
    }

    /// What is done first with an accepted connection.
    pub fn first(self) -> (r: ConnPhase)
        ensures
            r == conn_due(self, ConnPhase::Permit),
    {
        self.from(ConnPhase::Permit)
    }

    /// What is done behind a phase that has succeeded or not.
    pub fn next(self, p: ConnPhase, ok: bool) -> (r: ConnPhase)
        ensures
            r == conn_behind(self, p, ok),
    {
        if !ok {
            return ConnPhase::Closed;
        }
        match p {
            ConnPhase::Permit => self.from(ConnPhase::ReadHeader),
            ConnPhase::ReadHeader => self.from(ConnPhase::Handshake),
            ConnPhase::Handshake => ConnPhase::Serve,
            _ => ConnPhase::Closed,
        }
    }
}

/// Where a connection stands once its phases have ended so.
pub open spec fn conn_course(s: ConnSetup, oks: Seq<bool>) -> ConnPhase
    decreases oks.len(),
{
    if oks.len() == 0 {
        conn_due(s, ConnPhase::Permit)
    } else {
        conn_behind(s, conn_course(s, oks.drop_last()), oks.last())
    }
}

/// The place of a phase in the order of phases.
pub open spec fn conn_rank(p: ConnPhase) -> int {
    match p {
        ConnPhase::Permit => 0,
        ConnPhase::ReadHeader => 1,
        ConnPhase::Handshake => 2,
        ConnPhase::Serve => 3,
        ConnPhase::Closed => 4,
    }
}

// -- The course of a connection --------------------------------------

/// Where a connection stands.
#[derive(Clone, Copy, Debug, PartialEq, Eq, Structural)]
pub struct Connection {
    /// It was told to end after the request at hand.
    pub graceful: bool,
    /// Its first request was seen, or is not waited for any more.
    pub first_seen: bool,
    pub open: bool,
}

/// What happens to a connection.
#[derive(Clone, Copy, Debug, PartialEq, Eq, Structural)]
pub enum ConnEvent {
    /// It has ended by itself.
    Closed,
    /// Its first request is there.
    FirstRequest,
    /// Its first request is not there in time.
    HeaderTimeout,
    /// The shutdown signal has changed to this.
    Shutdown(bool),
}

/// What is done about it.
#[derive(Clone, Copy, Debug, PartialEq, Eq, Structural)]
pub enum ConnAction {
    Continue,
    /// Tell the connection to end after the request at hand.
    WindDown,
    /// Drop the connection.
    Drop,
}

/// Whether an event is waited for: the first request only until it was seen, and
/// the shutdown signal only until it was acted upon.
pub open spec fn is_awaited(c: Connection, e: ConnEvent) -> bool {
    c.open && match e {
        ConnEvent::Closed => true,
        ConnEvent::FirstRequest => !c.first_seen,
        ConnEvent::HeaderTimeout => !c.first_seen,
        ConnEvent::Shutdown(_) => !c.graceful,
    }
}

/// What an event does to a connection. One that is not waited for does nothing.
pub open spec fn conn_next(c: Connection, e: ConnEvent) -> (Connection, ConnAction) {
    if !is_awaited(c, e) {
        (c, ConnAction::Continue)
    } else {
        match e {
            ConnEvent::Closed => (Connection { open: false, ..c }, ConnAction::Drop),
            ConnEvent::FirstRequest => (Connection { first_seen: true, ..c }, ConnAction::Continue),
            ConnEvent::HeaderTimeout => (
                Connection { first_seen: true, open: false, ..c },
                ConnAction::Drop,
            ),
            ConnEvent::Shutdown(on) => if on {
                (Connection { graceful: true, ..c }, ConnAction::WindDown)
            } else {
                (c, ConnAction::Continue)
            },
        }
    }
}

/// The counters with one more HTTP connection.
pub open spec fn conn_opened(m: Metrics) -> Metrics {
    Metrics {
        http_conns_total: m.http_conns_total.wrapping_add(1),
        http_conns_active: m.http_conns_active.wrapping_add(1),
        ..m
    }
}

/// The counters with one live HTTP connection less.
pub open spec fn conn_ended(m: Metrics) -> Metrics {
    Metrics { http_conns_active: m.http_conns_active.wrapping_sub(1), ..m }
}

impl Connection {
    /// Begins to serve a connection, unless a shutdown was signalled before.
    pub fn start(shutdown: bool, metrics: &mut Metrics) -> (r: Option<Connection>)
        ensures
            r == if shutdown {
                None
            } else {
                Some(Connection { graceful: false, first_seen: false, open: true })
            },
            *final(metrics) == if shutdown {
                *old(metrics)
            } else {
                conn_opened(*old(metrics))
            },
    {
        if shutdown {
            return None;
        }
        metrics.http_conns_total = metrics.http_conns_total.wrapping_add(1);
        metrics.http_conns_active = metrics.http_conns_active.wrapping_add(1);
        Some(Connection { graceful: false, first_seen: false, open: true })
    }

    /// Whether the first request is still waited for.
    pub fn awaits_first_request(&self) -> (r: bool)
        ensures
            r == is_awaited(*self, ConnEvent::FirstRequest),
    {
        self.open && !self.first_seen
    }

    /// Whether the shutdown signal is still waited for.
    pub fn awaits_shutdown(&self) -> (r: bool)
        ensures
            r == is_awaited(*self, ConnEvent::Shutdown(true)),
    {
        self.open && !self.graceful
    }

    /// Takes up an event: what is done about it.
    pub fn on(&mut self, e: ConnEvent) -> (r: ConnAction)
        ensures
            (*final(self), r) == conn_next(*old(self), e),
    {
        if !self.open {
            return ConnAction::Continue;
        }
        match e {
            ConnEvent::Closed => {
                self.open = false;
                ConnAction::Drop
            },
            ConnEvent::FirstRequest => {
                self.first_seen = true;
                ConnAction::Continue
            },
            ConnEvent::HeaderTimeout => {
                if self.first_seen {
                    return ConnAction::Continue;
                }
                self.first_seen = true;
                self.open = false;
                ConnAction::Drop
            },
            ConnEvent::Shutdown(on) => {
                if on && !self.graceful {
                    self.graceful = true;
                    ConnAction::WindDown
                } else {
                    ConnAction::Continue
                }
            },
        }
    }
}

/// Counts the end of a connection.
pub fn record_conn_end(metrics: &mut Metrics)
    ensures
        *final(metrics) == conn_ended(*old(metrics)),
{
    metrics.http_conns_active = metrics.http_conns_active.wrapping_sub(1);
}

/// Counts the connections of a listener that closed in time when it stopped, and
/// those that did not.
pub fn record_drain(metrics: &mut Metrics, drained: u64, abandoned: u64)
    ensures
        *final(metrics) == (Metrics {
            shutdown_drained_total: old(metrics).shutdown_drained_total.wrapping_add(drained),
            shutdown_abandoned_total: old(metrics).shutdown_abandoned_total.wrapping_add(abandoned),
            ..*old(metrics)
        }),
{
    metrics.shutdown_drained_total = metrics.shutdown_drained_total.wrapping_add(drained);
    metrics.shutdown_abandoned_total = metrics.shutdown_abandoned_total.wrapping_add(abandoned);
}

/// How a TLS handshake ended.
#[derive(Clone, Copy, Debug, PartialEq, Eq, Structural)]
pub enum Handshake {
    Done,
    Failed,
    TimedOut,
}

/// What a TLS handshake adds to the counters.
pub open spec fn handshake_counted(m: Metrics, h: Handshake) -> Metrics {
    match h {
        Handshake::Done => Metrics {
            tls_handshakes_total: m.tls_handshakes_total.wrapping_add(1),
            ..m
        },
        Handshake::Failed => Metrics {
            tls_handshake_failures_total: m.tls_handshake_failures_total.wrapping_add(1),
            ..m
        },
        Handshake::TimedOut => Metrics {
            tls_handshake_timeouts_total: m.tls_handshake_timeouts_total.wrapping_add(1),
            ..m
        },
    }
}

/// Counts a TLS handshake: whether the connection goes on.
pub fn settle_handshake(h: Handshake, metrics: &mut Metrics) -> (r: bool)
    ensures
        r == (h == Handshake::Done),
        *final(metrics) == handshake_counted(*old(metrics), h),
{
    match h {
        Handshake::Done => {
            metrics.tls_handshakes_total = metrics.tls_handshakes_total.wrapping_add(1);
            true
        },
        Handshake::Failed => {
            metrics.tls_handshake_failures_total =
                metrics.tls_handshake_failures_total.wrapping_add(1);
            false
        },
        Handshake::TimedOut => {
            metrics.tls_handshake_timeouts_total =
                metrics.tls_handshake_timeouts_total.wrapping_add(1);
            false
        },
    }
}

// -- The course of an accept loop ------------------------------------

/// What happens in an accept loop.
#[derive(Clone, Copy, Debug, PartialEq, Eq, Structural)]
pub enum AcceptEvent {
    Accepted,
    Failed,
    /// A connection has ended.
    Reaped,
    /// The shutdown signal has changed to this.
    Shutdown(bool),
    /// The signal to stop this listener has changed to this.
    Stop(bool),
}

/// What is done about it.
#[derive(Clone, Copy, Debug, PartialEq, Eq, Structural)]
pub enum AcceptAction {
    /// Serve the connection.
    Serve,
    /// Wait a little before the next try.
    BackOff,
    Continue,
    /// Accept no more, and let the connections at hand end.
    Drain,
}

/// What is done about an event of an accept loop.
pub open spec fn accept_action(e: AcceptEvent) -> AcceptAction {
    match e {
        AcceptEvent::Accepted => AcceptAction::Serve,
        AcceptEvent::Failed => AcceptAction::BackOff,
        AcceptEvent::Reaped => AcceptAction::Continue,
        AcceptEvent::Shutdown(on) => if on {
            AcceptAction::Drain
        } else {
            AcceptAction::Continue
        },
        AcceptEvent::Stop(on) => if on {
            AcceptAction::Drain
        } else {
            AcceptAction::Continue
        },
    }
}

/// Says what is done about an event of an accept loop.
pub fn accept_step(e: AcceptEvent) -> (r: AcceptAction)
    ensures
        r == accept_action(e),
{
    match e {
        AcceptEvent::Accepted => AcceptAction::Serve,
        AcceptEvent::Failed => AcceptAction::BackOff,
        AcceptEvent::Reaped => AcceptAction::Continue,
        AcceptEvent::Shutdown(on) => if on {
            AcceptAction::Drain
        } else {
            AcceptAction::Continue
        },
        AcceptEvent::Stop(on) => if on {
            AcceptAction::Drain
        } else {
            AcceptAction::Continue
        },
    }
}

// -- Laws ------------------------------------------------------------

/// Where neither limit is set up a client cannot take forever to send its
/// headers.
pub proof fn law_default_bounds_headers(t: Timeouts)
    requires
        t.request_header_secs is None,
        t.keepalive_secs is None,
    ensures
        conn_settings(t).header_read_secs == Some(DEFAULT_HEADER_TIMEOUT_SECS),
        first_request_limit(t) == Some(DEFAULT_HEADER_TIMEOUT_SECS),
{
}

/// The timer of a kept connection is never longer than a limit that is set up
/// and not switched off by the other.
pub proof fn law_timer_obeys_both_limits(t: Timeouts)
    ensures
        conn_settings(t).header_read_secs matches Some(s) ==> s > 0 && (t.request_header_secs matches Some(
            x,
        ) ==> s <= x) && (t.keepalive_secs matches Some(y) ==> s <= y),
{
}

/// Opening and ending a connection leaves the number of live ones as it was.
pub proof fn law_connections_are_balanced(m: Metrics)
    ensures
        conn_ended(conn_opened(m)).http_conns_active == m.http_conns_active,
        conn_ended(conn_opened(m)).http_conns_total == m.http_conns_total.wrapping_add(1),
{
}

/// Once its first request was seen a connection is not dropped for being slow,
/// and a shutdown winds it down once.
pub proof fn law_connection_course(c: Connection, e: ConnEvent)
    ensures
        c.first_seen ==> conn_next(c, ConnEvent::HeaderTimeout) == (c, ConnAction::Continue),
        c.graceful ==> conn_next(c, e).1 != ConnAction::WindDown,
        !c.open ==> conn_next(c, e) == (c, ConnAction::Continue),
{
}

/// A connection goes through its phases in order: the PROXY header before the
/// handshake, and serving it last.
pub proof fn law_phases_come_in_order(s: ConnSetup, p: ConnPhase, ok: bool)
    requires
        p != ConnPhase::Closed,
    ensures
        conn_rank(p) < conn_rank(conn_behind(s, p, ok)),
{
    reveal_with_fuel(conn_due, 4);
}

/// A connection that is served went through the handshake where the listener is
/// encrypted, and through every other phase that the listener asks for, and each
/// of them succeeded.
pub proof fn law_served_connection_is_ready(s: ConnSetup, oks: Seq<bool>)
    requires
        conn_course(s, oks) is Serve,
    ensures
        forall|i: int| 0 <= i < oks.len() ==> #[trigger] oks[i],
        s.limited ==> exists|i: int|
            0 <= i < oks.len() && #[trigger] conn_course(s, oks.take(i)) is Permit,
        s.reads_header ==> exists|i: int|
            0 <= i < oks.len() && #[trigger] conn_course(s, oks.take(i)) is ReadHeader,
        s.tls ==> exists|i: int|
            0 <= i < oks.len() && #[trigger] conn_course(s, oks.take(i)) is Handshake,
{
    lemma_course(s, oks);
}

/// Whether a phase was gone through before.
spec fn passed(s: ConnSetup, oks: Seq<bool>, p: ConnPhase) -> bool {
    exists|i: int| 0 <= i < oks.len() && #[trigger] conn_course(s, oks.take(i)) == p
}

proof fn lemma_course(s: ConnSetup, oks: Seq<bool>)
    ensures
        ({
            let at = conn_course(s, oks);
            !(at is Closed) ==> {
                &&& forall|i: int| 0 <= i < oks.len() ==> #[trigger] oks[i]
                &&& s.limited && conn_rank(at) > 0 ==> passed(s, oks, ConnPhase::Permit)
                &&& s.reads_header && conn_rank(at) > 1 ==> passed(s, oks, ConnPhase::ReadHeader)
                &&& s.tls && conn_rank(at) > 2 ==> passed(s, oks, ConnPhase::Handshake)
            }
        }),
    decreases oks.len(),
{
    reveal_with_fuel(conn_due, 4);
    if oks.len() > 0 {
        let before = oks.drop_last();
        let was = conn_course(s, before);
        lemma_course(s, before);
        assert(oks.take(oks.len() - 1) =~= before);
        if !(conn_course(s, oks) is Closed) {
            assert forall|i: int| 0 <= i < oks.len() implies #[trigger] oks[i] by {
                if i < before.len() {
                    assert(before[i]);
                }
            }
            assert(conn_course(s, oks.take(oks.len() - 1)) == was);
            assert forall|i: int| 0 <= i < before.len() implies #[trigger] before.take(i)
                == oks.take(i) by {
                assert(before.take(i) =~= oks.take(i));
            }
            lemma_passed(s, before, oks, ConnPhase::Permit);
            lemma_passed(s, before, oks, ConnPhase::ReadHeader);
            lemma_passed(s, before, oks, ConnPhase::Handshake);
        }
    }
}

proof fn lemma_passed(s: ConnSetup, before: Seq<bool>, oks: Seq<bool>, p: ConnPhase)
    requires
        oks.len() > 0,
        before == oks.drop_last(),
    ensures
        passed(s, before, p) ==> passed(s, oks, p),
        conn_course(s, before) == p ==> passed(s, oks, p),
{
    assert(oks.take(oks.len() - 1) =~= before);
    assert(conn_course(s, oks.take(oks.len() - 1)) == conn_course(s, before));
    if passed(s, before, p) {
        let i = choose|i: int|
            0 <= i < before.len() && #[trigger] conn_course(s, before.take(i)) == p;
        assert(before.take(i) =~= oks.take(i));
        assert(conn_course(s, oks.take(i)) == p);
    }
}

} // verus!
