//! Which requests are let in.
use crate::decimal::{parse_unsigned, read_unsigned};
use crate::headers::{first_text, get_text, header_values};
use crate::metrics::{recorded, Metrics};
use crate::metrics::paths::{clippable, clipped, with_hit};
use crate::reply::{page, response_status, Reply};
use crate::text::chars_of;
use vstd::prelude::*;

verus! {

/// The length that a message announces.
pub open spec fn length_in(h: Map<Seq<char>, Seq<Seq<u8>>>) -> Option<nat> {
    match first_text(h, "content-length"@) {
        Some(s) => read_unsigned(s, u64::MAX as nat),
        None => None,
    }
}

/// Reads the length that a message announces.
pub fn content_length(headers: &hyper::HeaderMap) -> (r: Option<u64>)
    ensures
        match r {
            Some(n) => length_in(header_values(*headers)) == Some(n as nat),
            None => length_in(header_values(*headers)) is None,
        },
{
    match get_text(headers, "content-length") {
        Some(s) => {
            let cs = chars_of(s.as_str());
            parse_unsigned(cs.as_slice(), u64::MAX)
        },
        None => None,
    }
}

/// A request that announces more than is allowed.
pub open spec fn too_long(h: Map<Seq<char>, Seq<Seq<u8>>>, max: Option<u64>) -> bool {
    match (max, length_in(h)) {
        (Some(m), Some(n)) => n > m,
        _ => false,
    }
}

/// Whether a request announces more than is allowed.
pub fn exceeds(headers: &hyper::HeaderMap, max: Option<u64>) -> (r: bool)
    ensures
        r == too_long(header_values(*headers), max),
{
    match max {
        Some(m) => match content_length(headers) {
            Some(n) => n > m,
            None => false,
        },
        None => false,
    }
}

/// A request that was let in and is not answered yet.
pub struct Admitted {
    seal: (),
}

/// The counters with one more request in flight.
pub open spec fn one_more(m: Metrics) -> Metrics {
    Metrics { requests_active: m.requests_active.wrapping_add(1), ..m }
}

/// The counters with one request less in flight.
pub open spec fn one_less(m: Metrics) -> Metrics {
    Metrics { requests_active: m.requests_active.wrapping_sub(1), ..m }
}

/// Lets a request in, unless it announces too long a body.
pub fn let_in(headers: &hyper::HeaderMap, max: Option<u64>, metrics: &mut Metrics) -> (r: Result<
    Admitted,
    Reply,
>)
    ensures
        r is Ok <==> !too_long(header_values(*headers), max),
        r matches Err(reply) ==> reply@ == page(413),
        *final(metrics) == if r is Ok {
            one_more(*old(metrics))
        } else {
            *old(metrics)
        },
{
    if exceeds(headers, max) {
        return Err(response_status(413));
    }
    metrics.inc_active();
    Ok(Admitted { seal: () })
}

/// What counting a hit of a path does: `a` before and `b` after.
pub open spec fn path_recorded(a: Metrics, b: Metrics, path: Seq<char>) -> bool {
    &&& b.paths.total@ == with_hit(a.paths.total@, clipped(path))
    &&& b.paths.current@ == with_hit(a.paths.current@, clipped(path))
    &&& b.paths.slots == a.paths.slots
    &&& b.paths.head == a.paths.head
    &&& b == (Metrics { paths: b.paths, ..a })
}

/// What answering a request does to the counters: `a` before and `b` after.
pub open spec fn answered(a: Metrics, b: Metrics, status: u16, ms: u128, path: Seq<char>) -> bool {
    exists|m: Metrics| #[trigger] recorded(one_less(a), m, status, ms) && path_recorded(m, b, path)
}

/// Counts the answer to a request that the server answered itself.
pub fn finish(req: Admitted, status: u16, ms: u128, path: &str, metrics: &mut Metrics)
    requires
        clippable(path@),
    ensures
        answered(*old(metrics), *final(metrics), status, ms, path@),
{
    metrics.dec_active();
    metrics.record(status, ms);
    let ghost counted = *metrics;
    assert(recorded(one_less(*old(metrics)), counted, status, ms));
    metrics.record_path(path);
    assert(path_recorded(counted, *metrics, path@));
}

} // verus!
