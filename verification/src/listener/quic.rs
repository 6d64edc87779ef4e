//! HTTP/3 listeners: the course of the accept loop, the cap on request bodies,
//! and the order in which an answer is sent.
use crate::headers::{first_value, has_header, header_values};
use crate::metrics::Metrics;
use crate::oidc::claims::text_opt;
use vstd::prelude::*;

verus! {

/// What happens in the accept loop.
#[derive(Clone, Copy, Debug, PartialEq, Eq, Structural)]
pub enum QuicEvent {
    /// The shutdown signal has changed.
    Shutdown,
    /// The signal to stop this listener has changed to this.
    Stop(bool),
    /// A client knocks: whether its address was validated, and whether it may
    /// be asked to come again.
    Incoming { validated: bool, may_retry: bool },
    /// The endpoint was closed.
    Closed,
}

/// What is done about it.
#[derive(Clone, Copy, Debug, PartialEq, Eq, Structural)]
pub enum QuicAction {
    Continue,
    /// Ask the client to come again with a token.
    Retry,
    /// Go on with the handshake.
    Serve,
    /// Accept no more, and let the connections at hand end.
    Drain,
}

/// What is done about an event. A client whose address was not validated is
/// asked to come again where tokens are enabled, as they are by default.
pub open spec fn quic_action(e: QuicEvent, retry_tokens: Option<bool>) -> QuicAction {
    match e {
        QuicEvent::Shutdown => QuicAction::Drain,
        QuicEvent::Stop(on) => if on {
            QuicAction::Drain
        } else {
            QuicAction::Continue
        },
        QuicEvent::Closed => QuicAction::Drain,
        QuicEvent::Incoming { validated, may_retry } => if retry_tokens != Some(false)
            && !validated && may_retry {
            QuicAction::Retry
        } else {
            QuicAction::Serve
        },
    }
}

/// Says what is done about an event. `retry_tokens` is the set-up of the
/// transport, where it has one.
pub fn quic_step(e: QuicEvent, retry_tokens: Option<bool>) -> (r: QuicAction)
    ensures
        r == quic_action(e, retry_tokens),
{
    let retry_on = match retry_tokens {
        Some(on) => on,
        None => true,
    };
    match e {
        QuicEvent::Shutdown => QuicAction::Drain,
        QuicEvent::Stop(on) => if on {
            QuicAction::Drain
        } else {
            QuicAction::Continue
        },
        QuicEvent::Closed => QuicAction::Drain,
        QuicEvent::Incoming { validated, may_retry } => if retry_on && !validated && may_retry {
            QuicAction::Retry
        } else {
            QuicAction::Serve
        },
    }
}

/// What a handshake adds to the counters: a connection is live from then on.
pub open spec fn quic_handshake_counted(m: Metrics, ok: bool) -> Metrics {
    if ok {
        Metrics {
            quic_handshakes_total: m.quic_handshakes_total.wrapping_add(1),
            quic_connections_active: m.quic_connections_active.wrapping_add(1),
            ..m
        }
    } else {
        Metrics {
            quic_handshake_failures_total: m.quic_handshake_failures_total.wrapping_add(1),
            ..m
        }
    }
}

/// The counters with one live connection less.
pub open spec fn quic_ended(m: Metrics) -> Metrics {
    Metrics { quic_connections_active: m.quic_connections_active.wrapping_sub(1), ..m }
}

/// Counts a handshake.
pub fn record_quic_handshake(ok: bool, metrics: &mut Metrics)
    ensures
        *final(metrics) == quic_handshake_counted(*old(metrics), ok),
{
    if ok {
        metrics.quic_handshakes_total = metrics.quic_handshakes_total.wrapping_add(1);
        metrics.quic_connections_active = metrics.quic_connections_active.wrapping_add(1);
    } else {
        metrics.quic_handshake_failures_total =
            metrics.quic_handshake_failures_total.wrapping_add(1);
    }
}

/// Counts the end of a connection.
pub fn record_quic_end(metrics: &mut Metrics)
    ensures
        *final(metrics) == quic_ended(*old(metrics)),
{
    metrics.quic_connections_active = metrics.quic_connections_active.wrapping_sub(1);
}

/// Counts a request.
pub fn record_quic_request(metrics: &mut Metrics)
    ensures
        *final(metrics) == (Metrics {
            quic_requests_total: old(metrics).quic_requests_total.wrapping_add(1),
            ..*old(metrics)
        }),
{
    metrics.quic_requests_total = metrics.quic_requests_total.wrapping_add(1);
}

/// The host to add to a request with these headers.
pub open spec fn added_host(
    h: Map<Seq<char>, Seq<Seq<u8>>>,
    authority: Option<Seq<char>>,
) -> Option<Seq<char>> {
    if first_value(h, "host"@) is None {
        authority
    } else {
        None
    }
}

/// The host that is added to a request: its authority, where it names no host.
pub fn host_to_add(headers: &hyper::HeaderMap, authority: Option<&str>) -> (r: Option<String>)
    ensures
        text_opt(r) == if first_value(header_values(*headers), "host"@) is Some {
            None
        } else {
            match authority {
                Some(a) => Some(a@),
                None => None,
            }
        },
        text_opt(r) == added_host(
            header_values(*headers),
            match authority {
                Some(a) => Some(a@),
                None => None,
            },
        ),
{
    if has_header(headers, "host") {
        return None;
    }
    match authority {
        Some(a) => Some(a.to_owned()),
        None => None,
    }
}

// -- The body of a request -------------------------------------------

/// How much of the body of a request has come, and whether more is read.
#[derive(Clone, Copy, Debug, PartialEq, Eq, Structural)]
pub struct H3RequestBody {
    /// The most bytes that are read.
    pub max_body: Option<u64>,
    /// The bytes that have come.
    pub seen: u64,
    pub done: bool,
}

/// What comes next in the body of a request.
#[derive(Clone, Copy, Debug, PartialEq, Eq, Structural)]
pub enum BodyEvent {
    /// So many bytes.
    Chunk(u64),
    /// Its end.
    End,
    /// It cannot be read on.
    Failed,
}

/// What the handler sees of it.
#[derive(Clone, Copy, Debug, PartialEq, Eq, Structural)]
pub enum BodyFrame {
    /// The bytes.
    Data,
    /// The end of the body.
    End,
}

/// The bytes that have come once some more have.
pub open spec fn seen_after(seen: u64, n: u64) -> u64 {
    if seen + n <= u64::MAX {
        (seen + n) as u64
    } else {
        u64::MAX
    }
}

/// What the handler sees, and what is left. The body ends early once more bytes
/// have come than are read.
pub open spec fn body_next(b: H3RequestBody, e: BodyEvent) -> (H3RequestBody, BodyFrame) {
    if b.done {
        (b, BodyFrame::End)
    } else {
        match e {
            BodyEvent::Chunk(n) => {
                let seen = seen_after(b.seen, n);
                if b.max_body matches Some(max) && seen > max {
                    (H3RequestBody { seen, done: true, ..b }, BodyFrame::End)
                } else {
                    (H3RequestBody { seen, ..b }, BodyFrame::Data)
                }
            },
            _ => (H3RequestBody { done: true, ..b }, BodyFrame::End),
        }
    }
}

impl H3RequestBody {
    /// A body of which nothing has come yet.
    pub fn new(max_body: Option<u64>) -> (r: H3RequestBody)
        ensures
            r == (H3RequestBody { max_body, seen: 0, done: false }),
    {
        H3RequestBody { max_body, seen: 0, done: false }
    }

    /// Takes up what comes next: what the handler sees of it.
    pub fn on(&mut self, e: BodyEvent) -> (r: BodyFrame)
        ensures
            (*final(self), r) == body_next(*old(self), e),
    {
        if self.done {
            return BodyFrame::End;
        }
        match e {
            BodyEvent::Chunk(n) => {
                self.seen = self.seen.saturating_add(n);
                match self.max_body {
                    Some(max) => {
                        if self.seen > max {
                            self.done = true;
                            return BodyFrame::End;
                        }
                    },
                    None => {},
                }
                BodyFrame::Data
            },
            BodyEvent::End => {
                self.done = true;
                BodyFrame::End
            },
            BodyEvent::Failed => {
                self.done = true;
                BodyFrame::End
            },
        }
    }
}

// -- The answer ------------------------------------------------------

/// What comes next in the body of an answer.
#[derive(Clone, Copy, Debug, PartialEq, Eq, Structural)]
pub enum AnswerEvent {
    Data,
    Trailers,
    Failed,
    End,
}

/// What is done about it.
#[derive(Clone, Copy, Debug, PartialEq, Eq, Structural)]
pub enum AnswerAction {
    /// Send the bytes.
    SendData,
    /// Keep the trailers for the end.
    KeepTrailers,
    /// Add the trailers to those that were kept.
    AddTrailers,
    /// Give up.
    Abort,
    /// Send the trailers that were kept, and end.
    SendTrailersAndFinish,
    /// End.
    Finish,
}

/// What is done about an event of an answer of which trailers were kept or not.
pub open spec fn answer_action(kept: bool, e: AnswerEvent) -> AnswerAction {
    match e {
        AnswerEvent::Data => AnswerAction::SendData,
        AnswerEvent::Trailers => if kept {
            AnswerAction::AddTrailers
        } else {
            AnswerAction::KeepTrailers
        },
        AnswerEvent::Failed => AnswerAction::Abort,
        AnswerEvent::End => if kept {
            AnswerAction::SendTrailersAndFinish
        } else {
            AnswerAction::Finish
        },
    }
}

/// Says what is done about an event of an answer.
pub fn send_step(kept: bool, e: AnswerEvent) -> (r: AnswerAction)
    ensures
        r == answer_action(kept, e),
{
    match e {
        AnswerEvent::Data => AnswerAction::SendData,
        AnswerEvent::Trailers => if kept {
            AnswerAction::AddTrailers
        } else {
            AnswerAction::KeepTrailers
        },
        AnswerEvent::Failed => AnswerAction::Abort,
        AnswerEvent::End => if kept {
            AnswerAction::SendTrailersAndFinish
        } else {
            AnswerAction::Finish
        },
    }
}
/// What a listener that accepts no more does.
#[derive(Clone, Copy, Debug, PartialEq, Eq, Structural)]
pub enum DrainStep {
    /// Answer no more handshakes.
    Reject,
    /// Wait until every connection has ended, but not forever.
    WaitIdle,
    /// Close the connections that have not.
    ForceClose,
    /// Wait for the tasks of the connections, but not forever.
    Join,
    Done,
}

/// The step behind another, which has ended in time or not.
pub open spec fn drain_behind(p: DrainStep, in_time: bool) -> DrainStep {
    match p {
        DrainStep::Reject => DrainStep::WaitIdle,
        DrainStep::WaitIdle => if in_time {
            DrainStep::Join
        } else {
            DrainStep::ForceClose
        },
        DrainStep::ForceClose => DrainStep::Join,
        _ => DrainStep::Done,
    }
}

/// The step behind another, which has ended in time or not.
pub fn drain_step(p: DrainStep, in_time: bool) -> (r: DrainStep)
    ensures
        r == drain_behind(p, in_time),
{
    match p {
        DrainStep::Reject => DrainStep::WaitIdle,
        DrainStep::WaitIdle => {
            if in_time {
                DrainStep::Join
            } else {
                DrainStep::ForceClose
            }
        },
        DrainStep::ForceClose => DrainStep::Join,
        _ => DrainStep::Done,
    }
}


// -- Laws ------------------------------------------------------------

/// The body after a row of events.
pub open spec fn body_run(b: H3RequestBody, events: Seq<BodyEvent>) -> H3RequestBody
    decreases events.len(),
{
    if events.len() == 0 {
        b
    } else {
        body_next(body_run(b, events.drop_last()), events.last()).0
    }
}

/// The bytes that the handler sees of a row of events.
pub open spec fn bytes_shown(b: H3RequestBody, events: Seq<BodyEvent>) -> int
    decreases events.len(),
{
    if events.len() == 0 {
        0
    } else {
        let before = body_run(b, events.drop_last());
        bytes_shown(b, events.drop_last()) + match events.last() {
            BodyEvent::Chunk(n) => if body_next(before, events.last()).1 is Data {
                n as int
            } else {
                0
            },
            _ => 0,
        }
    }
}

/// The handler never sees more bytes than are read at most.
pub proof fn law_body_is_capped(max: u64, events: Seq<BodyEvent>)
    requires
        max < u64::MAX,
    ensures
        bytes_shown(H3RequestBody { max_body: Some(max), seen: 0, done: false }, events) <= max,
{
    lemma_shown_is_seen(max, events);
}

proof fn lemma_shown_is_seen(max: u64, events: Seq<BodyEvent>)
    ensures
        ({
            let b = H3RequestBody { max_body: Some(max), seen: 0, done: false };
            let r = body_run(b, events);
            max < u64::MAX ==> {
                &&& r.max_body == Some(max)
                &&& bytes_shown(b, events) <= max
                &&& !r.done ==> bytes_shown(b, events) == r.seen
            }
        }),
    decreases events.len(),
{
    if events.len() > 0 {
        lemma_shown_is_seen(max, events.drop_last());
    }
}

/// A body that has ended stays ended.
pub proof fn law_ended_body_stays_ended(b: H3RequestBody, e: BodyEvent)
    requires
        b.done,
    ensures
        body_next(b, e) == (b, BodyFrame::End),
{
}

/// A handshake and the end of its connection leave the number of live ones as it
/// was.
pub proof fn law_quic_connections_are_balanced(m: Metrics)
    ensures
        quic_ended(quic_handshake_counted(m, true)).quic_connections_active
            == m.quic_connections_active,
{
}

/// A listener that accepts no more comes to its end, and connections are closed
/// by force exactly where they have not ended in time.
pub proof fn law_drain_ends(idle: bool, joined: bool)
    ensures
        ({
            let waited = drain_behind(drain_behind(DrainStep::Reject, true), idle);
            let joining = if idle {
                waited
            } else {
                drain_behind(waited, true)
            };
            &&& (waited is ForceClose <==> !idle)
            &&& joining is Join
            &&& drain_behind(joining, joined) is Done
        }),
{
}

} // verus!
