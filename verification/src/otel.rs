//! Traces across services: whether spans are exported, and the headers that
//! carry a trace from one service to the next, by way of `opentelemetry`.
use crate::headers::{
    drop_header, first_text, get_text, header_values, is_plain_name, is_value,
    lemma_visible_value, set_header, ROOMY_NAMES,
};
use crate::ip::hex_digit;
use crate::oidc::claims::text_opt;
use crate::text::lower;
use opentelemetry::propagation::TextMapPropagator;
use opentelemetry::trace::{
    SpanContext, SpanId, TraceContextExt, TraceFlags, TraceId, TraceState,
};
use opentelemetry::Context;
use opentelemetry_sdk::propagation::TraceContextPropagator;
use std::collections::HashMap;
use std::str::FromStr;
use vstd::prelude::*;
use vstd::utf8::*;

verus! {

/// How the export of spans is set up.
pub struct TracingState {
    enabled: bool,
    trust_incoming: bool,
    fingerprint: Option<String>,
}

/// The set-up, by value.
pub struct TracingView {
    pub enabled: bool,
    pub trust_incoming: bool,
    /// What the exporter was first built from.
    pub fingerprint: Option<Seq<char>>,
}

impl View for TracingState {
    type V = TracingView;

    closed spec fn view(&self) -> TracingView {
        TracingView {
            enabled: self.enabled,
            trust_incoming: self.trust_incoming,
            fingerprint: text_opt(self.fingerprint),
        }
    }
}

/// The state behind an exporter that was built.
pub open spec fn exporting(t: TracingView, fingerprint: Seq<char>, trust: bool) -> TracingView {
    TracingView {
        enabled: true,
        trust_incoming: trust,
        fingerprint: if t.fingerprint is None {
            Some(fingerprint)
        } else {
            t.fingerprint
        },
    }
}

impl TracingState {
    /// A trace is continued only where spans are exported.
    #[verifier::type_invariant]
    spec fn wf(self) -> bool {
        self.trust_incoming ==> self.enabled
    }

    /// No spans are exported.
    pub fn disabled() -> (r: TracingState)
        ensures
            r@ == (TracingView { enabled: false, trust_incoming: false, fingerprint: None }),
    {
        TracingState { enabled: false, trust_incoming: false, fingerprint: None }
    }

    /// Notes that an exporter was built. What the first one was built from stays
    /// noted.
    pub fn init(&mut self, fingerprint: String, trust: bool)
        ensures
            final(self)@ == (TracingView {
                enabled: true,
                trust_incoming: trust,
                fingerprint: match old(self)@.fingerprint {
                    Some(f) => Some(f),
                    None => Some(fingerprint@),
                },
            }),
            final(self)@ == exporting(old(self)@, fingerprint@, trust),
    {
        proof {
            use_type_invariant(&*self);
        }
        if self.fingerprint.is_none() {
            self.fingerprint = Some(fingerprint);
        }
        self.enabled = true;
        self.trust_incoming = trust;
    }
}

/// Whether spans are exported.
pub fn enabled(t: &TracingState) -> (r: bool)
    ensures
        r == t@.enabled,
{
    t.enabled
}

/// Whether a trace that a request brings is continued: never where no spans are
/// exported.
pub fn trust_incoming(t: &TracingState) -> (r: bool)
    ensures
        r == t@.trust_incoming,
        r ==> t@.enabled,
{
    proof {
        use_type_invariant(t);
    }
    t.trust_incoming
}

/// What the exporter was built from; empty where there is none.
pub fn fingerprint(t: &TracingState) -> (r: &str)
    ensures
        r@ == match t@.fingerprint {
            Some(f) => f,
            None => ""@,
        },
{
    match &t.fingerprint {
        Some(f) => f.as_str(),
        None => "",
    }
}

/// What an exporter would be built from, given the text of its set-up; empty
/// where there is none.
pub fn fingerprint_of(cfg: Option<&str>) -> (r: String)
    ensures
        r@ == match cfg {
            Some(c) => c@,
            None => ""@,
        },
{
    match cfg {
        Some(c) => c.to_owned(),
        None => "".to_owned(),
    }
}

/// The place of a span in a trace.
pub struct Trace {
    pub trace_id: u128,
    pub span_id: u64,
    pub sampled: bool,
    /// What other vendors say of the trace.
    pub state: String,
}

/// The place of a span in a trace, by value: trace, span, whether it is sampled,
/// and what other vendors say of it.
pub type TraceView = (u128, u64, bool, Seq<char>);

/// The place of a span in a trace, by value.
pub open spec fn trace_view(t: Trace) -> TraceView {
    (t.trace_id, t.span_id, t.sampled, t.state@)
}

/// An optional place, by value.
pub open spec fn trace_opt(t: Option<Trace>) -> Option<TraceView> {
    match t {
        Some(t) => Some(trace_view(t)),
        None => None,
    }
}

/// A place that means something.
pub open spec fn is_valid(t: TraceView) -> bool {
    t.0 != 0 && t.1 != 0
}

/// A hexadecimal numeral of some digits.
pub open spec fn fixed_hex(n: nat, digits: nat) -> Seq<char>
    decreases digits,
{
    if digits == 0 {
        Seq::empty()
    } else {
        fixed_hex(n / 16, (digits - 1) as nat).push(hex_digit((n % 16) as int))
    }
}

/// The `traceparent` header of a place.
pub open spec fn trace_text(trace_id: u128, span_id: u64, sampled: bool) -> Seq<char> {
    seq!['0', '0', '-'] + fixed_hex(trace_id as nat, 32) + seq!['-'] + fixed_hex(span_id as nat, 16)
        + (if sampled {
        seq!['-', '0', '1']
    } else {
        seq!['-', '0', '0']
    })
}

/// What is read of a header is right where the header is what is written for a
/// place.
pub open spec fn reads_back(traceparent: Option<Seq<char>>, r: Option<TraceView>) -> bool {
    forall|id: u128, span: u64, sampled: bool|
        id != 0 && span != 0 && traceparent == Some(#[trigger] trace_text(id, span, sampled)) ==> (
        r matches Some(t) && t.0 == id && t.1 == span && t.2 == sampled)
}

/// The place that the two headers of a request name, where they name one.
pub uninterp spec fn trace_read(
    traceparent: Option<Seq<char>>,
    tracestate: Option<Seq<char>>,
) -> Option<(u128, u64, bool, Seq<char>)>;

/// `opentelemetry_sdk`'s `TraceContextPropagator`, `extract_with_context` from an
/// empty context: the place that the two headers name. It is one that means
/// something, and it is the right one where the header is what is written for a
/// place. What other texts name is left as a name.
#[verifier::external_body]
fn read_trace(traceparent: Option<String>, tracestate: Option<String>) -> (r: Option<Trace>)
    ensures
        trace_opt(r) == trace_read(text_opt(traceparent), text_opt(tracestate)),
        r matches Some(t) ==> is_valid(trace_view(t)),
        traceparent is None ==> r is None,
        reads_back(text_opt(traceparent), trace_opt(r)),
{
    let mut map = HashMap::<String, String>::new();
    map.extend(traceparent.map(|v| ("traceparent".to_string(), v)));
    map.extend(tracestate.map(|v| ("tracestate".to_string(), v)));
    let cx = TraceContextPropagator::new().extract_with_context(&Context::new(), &map);
    let span = cx.span().span_context().clone();
    span.is_valid().then_some(Trace {
        trace_id: u128::from_be_bytes(span.trace_id().to_bytes()),
        span_id: u64::from_be_bytes(span.span_id().to_bytes()),
        sampled: span.is_sampled(),
        state: span.trace_state().header(),
    })
}

/// The `tracestate` header that stands for what other vendors say.
pub uninterp spec fn tracestate_text(state: Seq<char>) -> Seq<char>;

/// `opentelemetry_sdk`'s `TraceContextPropagator`, `inject_context`: the two
/// headers that name a place, nothing for one that means nothing. How the second
/// header writes what other vendors say is left as a name.
#[verifier::external_body]
fn write_trace(t: &Trace) -> (r: Option<(String, String)>)
    ensures
        match r {
            Some((parent, state)) => is_valid(trace_view(*t)) && parent@ == trace_text(
                t.trace_id,
                t.span_id,
                t.sampled,
            ) && state@ == tracestate_text(t.state@),
            None => !is_valid(trace_view(*t)),
        },
{
    let state = TraceState::from_str(&t.state).unwrap_or_default();
    let flags = TraceFlags::default().with_sampled(t.sampled);
    let span = SpanContext::new(TraceId::from(t.trace_id), SpanId::from(t.span_id), flags, true, state);
    let mut map = HashMap::<String, String>::new();
    TraceContextPropagator::new().inject_context(&Context::new().with_remote_span_context(span), &mut map);
    Some((map.remove("traceparent")?, map.remove("tracestate")?))
}

/// Reads the trace that a request brings. One that is missing or makes no sense
/// is none, so that the request begins a trace of its own.
pub fn extract(headers: &hyper::HeaderMap) -> (r: Option<Trace>)
    ensures
        trace_opt(r) == trace_read(
            first_text(header_values(*headers), "traceparent"@),
            first_text(header_values(*headers), "tracestate"@),
        ),
        r matches Some(t) ==> is_valid(trace_view(t)),
        first_text(header_values(*headers), "traceparent"@) is None ==> r is None,
        reads_back(first_text(header_values(*headers), "traceparent"@), trace_opt(r)),
{
    let parent = get_text(headers, "traceparent");
    let state = get_text(headers, "tracestate");
    read_trace(parent, state)
}

/// The headers without what a client says of traces.
pub open spec fn untraced(h: Map<Seq<char>, Seq<Seq<u8>>>) -> Map<Seq<char>, Seq<Seq<u8>>> {
    h.remove("traceparent"@).remove("tracestate"@)
}

/// A place in a trace, by value.
pub open spec fn place_opt(t: Option<&Trace>) -> Option<TraceView> {
    match t {
        Some(t) => Some(trace_view(*t)),
        None => None,
    }
}

/// The headers with a place in a trace, in place of what a client says, and nothing
/// that other vendors say.
pub open spec fn parent_only(h: Map<Seq<char>, Seq<Seq<u8>>>, v: TraceView) -> Map<
    Seq<char>,
    Seq<Seq<u8>>,
> {
    untraced(h).insert("traceparent"@, seq![encode_utf8(trace_text(v.0, v.1, v.2))])
}

/// The headers with a place in a trace, in place of what a client says: none
/// where the place means nothing.
pub open spec fn traced(h: Map<Seq<char>, Seq<Seq<u8>>>, t: Option<TraceView>) -> Map<
    Seq<char>,
    Seq<Seq<u8>>,
> {
    match t {
        Some(v) if is_valid(v) => {
            let one = parent_only(h, v);
            if is_value(encode_utf8(tracestate_text(v.3))) {
                one.insert("tracestate"@, seq![encode_utf8(tracestate_text(v.3))])
            } else {
                one
            }
        },
        _ => untraced(h),
    }
}

proof fn lemma_names()
    ensures
        lower("traceparent"@) == "traceparent"@,
        lower("tracestate"@) == "tracestate"@,
        is_plain_name("traceparent"@),
        is_plain_name("tracestate"@),
        "traceparent"@ != "tracestate"@,
{
    reveal_strlit("traceparent");
    reveal_strlit("tracestate");
    assert(lower("traceparent"@) =~= "traceparent"@);
    assert(lower("tracestate"@) =~= "tracestate"@);
    assert("traceparent"@.len() != "tracestate"@.len());
}

proof fn lemma_hex_is_visible(n: nat, digits: nat)
    ensures
        fixed_hex(n, digits).len() == digits,
        forall|i: int|
            0 <= i < digits ==> ' ' <= #[trigger] fixed_hex(n, digits)[i] <= '~',
    decreases digits,
{
    if digits > 0 {
        lemma_hex_is_visible(n / 16, (digits - 1) as nat);
        let f = fixed_hex(n / 16, (digits - 1) as nat);
        assert forall|i: int| 0 <= i < digits implies ' ' <= #[trigger] fixed_hex(n, digits)[i]
            <= '~' by {
            if i < f.len() {
                assert(fixed_hex(n, digits)[i] == f[i]);
            }
        }
    }
}

proof fn lemma_trace_text_is_visible(trace_id: u128, span_id: u64, sampled: bool)
    ensures
        forall|i: int|
            0 <= i < trace_text(trace_id, span_id, sampled).len() ==> ' '
                <= #[trigger] trace_text(trace_id, span_id, sampled)[i] <= '~',
{
    lemma_hex_is_visible(trace_id as nat, 32);
    lemma_hex_is_visible(span_id as nat, 16);
    let a = fixed_hex(trace_id as nat, 32);
    let b = fixed_hex(span_id as nat, 16);
    let t = trace_text(trace_id, span_id, sampled);
    assert forall|i: int| 0 <= i < t.len() implies ' ' <= #[trigger] t[i] <= '~' by {
        if 3 <= i < 35 {
            assert(t[i] == a[i - 3]);
        } else if 36 <= i < 52 {
            assert(t[i] == b[i - 36]);
        }
    }
}

/// Writes a place in a trace into the headers of a request, in place of what a
/// client says: whether it could be written. It is, unless there are thousands of
/// other headers, and where there is nothing to write. What a client says is gone
/// either way.
pub fn inject(t: Option<&Trace>, headers: &mut hyper::HeaderMap) -> (r: bool)
    ensures
        r ==> header_values(*final(headers)) == traced(
            header_values(*old(headers)),
            place_opt(t),
        ),
        untraced(header_values(*old(headers))).dom().len() < ROOMY_NAMES ==> r,
        !(place_opt(t) matches Some(v) && is_valid(v)) ==> r,
        !r ==> header_values(*final(headers)) == untraced(header_values(*old(headers)))
            || header_values(*final(headers)) == parent_only(
            header_values(*old(headers)),
            place_opt(t)->0,
        ),
{
    let ghost h0 = header_values(*headers);
    proof {
        lemma_names();
    }
    drop_header(headers, "traceparent");
    drop_header(headers, "tracestate");
    let ghost h1 = header_values(*headers);
    assert(h1 == untraced(h0));
    let pair = match t {
        Some(t) => write_trace(t),
        None => None,
    };
    match pair {
        None => true,
        Some((parent, state)) => {
            proof {
                let v = t->0;
                lemma_trace_text_is_visible(v.trace_id, v.span_id, v.sampled);
                lemma_visible_value(parent@);
            }
            if !set_header(headers, "traceparent", parent.as_str()) {
                return false;
            }
            let ghost h2 = header_values(*headers);
            assert(h2.dom() =~= h1.dom().insert("traceparent"@));
            if value_ok(state.as_str()) {
                return set_header(headers, "tracestate", state.as_str());
            }
            true
        },
    }
}

fn value_ok(s: &str) -> (r: bool)
    ensures
        r == is_value(encode_utf8(s@)),
{
    let b = s.as_bytes();
    let n: usize = b.len();
    let mut i: usize = 0;
    while i < n
        invariant
            n == b@.len(),
            b@ == encode_utf8(s@),
            i <= n,
            forall|j: int| 0 <= j < i ==> crate::headers::is_value_byte(#[trigger] b@[j]),
        decreases n - i,
    {
        let c: u8 = b[i];
        if !(c >= 0x20 && c != 0x7f || c == 0x09) {
            assert(!crate::headers::is_value_byte(b@[i as int]));
            return false;
        }
        i = i + 1;
    }
    true
}

/// Writes the place of the running span into the headers of a request. Nothing
/// happens where no spans are exported or the span has no place: the headers
/// then stay as the client sent them.
pub fn inject_current(tracing: &TracingState, current: Option<&Trace>, headers: &mut hyper::HeaderMap) -> (r:
    bool)
    ensures
        ({
            let at = place_opt(current);
            if tracing@.enabled && (at matches Some(v) && is_valid(v)) {
                &&& r ==> header_values(*final(headers)) == traced(header_values(*old(headers)), at)
                &&& untraced(header_values(*old(headers))).dom().len() < ROOMY_NAMES ==> r
                &&& !r ==> header_values(*final(headers)) == untraced(header_values(*old(headers)))
                    || header_values(*final(headers)) == parent_only(
                    header_values(*old(headers)),
                    at->0,
                )
            } else {
                r && *final(headers) == *old(headers)
            }
        }),
{
    if !enabled(tracing) {
        return true;
    }
    match current {
        Some(t) => {
            if t.trace_id != 0 && t.span_id != 0 {
                inject(Some(t), headers)
            } else {
                true
            }
        },
        None => true,
    }
}

/// The header that is written for a place is the one that is read for it, so a
/// trace survives from one service to the next.
pub proof fn law_trace_survives_a_hop(h: Map<Seq<char>, Seq<Seq<u8>>>, v: TraceView)
    requires
        is_valid(v),
    ensures
        first_text(traced(h, Some(v)), "traceparent"@) == Some(trace_text(v.0, v.1, v.2)),
{
    lemma_names();
    lemma_trace_text_is_visible(v.0, v.1, v.2);
    lemma_visible_value(trace_text(v.0, v.1, v.2));
}

/// What a client says of traces never goes on under our name.
pub proof fn law_client_trace_is_replaced(h: Map<Seq<char>, Seq<Seq<u8>>>, t: Option<TraceView>)
    ensures
        traced(h, t) == traced(untraced(h), t),
        t is None ==> first_text(traced(h, t), "traceparent"@) is None,
{
    lemma_names();
    assert(untraced(untraced(h)) =~= untraced(h));
}

/// A number in so many digits: the last is that of its remainder by sixteen, in lower case.
pub proof fn law_digits_of_an_id(n: nat, digits: nat)
    ensures
        fixed_hex(n, 0).len() == 0,
        fixed_hex(n, digits + 1).drop_last() == fixed_hex(n / 16, digits),
        fixed_hex(n, digits + 1).last() as int == if n % 16 < 10 {
            0x30 + n % 16
        } else {
            0x57 + n % 16
        },
{
    assert(fixed_hex(n, digits + 1).drop_last() =~= fixed_hex(n / 16, digits));
}

/// A place in a trace is written as a version of zero, the trace in 32 digits, the span in 16
/// and whether it is sampled, with dashes between.
pub proof fn law_trace_header(trace_id: u128, span_id: u64, sampled: bool)
    ensures
        ({
            let t = trace_text(trace_id, span_id, sampled);
            &&& t.len() == 55
            &&& t.take(3) == seq!['0', '0', '-']
            &&& t.subrange(3, 35) == fixed_hex(trace_id as nat, 32)
            &&& t[35] == '-'
            &&& t.subrange(36, 52) == fixed_hex(span_id as nat, 16)
            &&& t[52] == '-' && t[53] == '0'
            &&& t[54] == if sampled {
                '1'
            } else {
                '0'
            }
        }),
{
    lemma_hex_is_visible(trace_id as nat, 32);
    lemma_hex_is_visible(span_id as nat, 16);
    let t = trace_text(trace_id, span_id, sampled);
    assert(t.take(3) =~= seq!['0', '0', '-']);
    assert(t.subrange(3, 35) =~= fixed_hex(trace_id as nat, 32));
    assert(t.subrange(36, 52) =~= fixed_hex(span_id as nat, 16));
}

/// A place is handed on if and only if neither of its numbers is zero. All that was there of a
/// trace before is gone, and all other headers stay.
pub proof fn law_headers_of_a_trace(
    h: Map<Seq<char>, Seq<Seq<u8>>>,
    trace_id: u128,
    span_id: u64,
    sampled: bool,
    state: Seq<char>,
    name: Seq<char>,
)
    ensures
        ({
            let t = traced(h, Some((trace_id, span_id, sampled, state)));
            let none = traced(h, None);
            let s = encode_utf8(tracestate_text(state));
            &&& name != "traceparent"@ && name != "tracestate"@ ==> (t.dom().contains(name)
                <==> h.dom().contains(name)) && (none.dom().contains(name) <==> h.dom().contains(
                name,
            )) && (h.dom().contains(name) ==> t[name] == h[name] && none[name] == h[name])
            &&& !none.dom().contains("traceparent"@) && !none.dom().contains("tracestate"@)
            &&& trace_id == 0 || span_id == 0 ==> t == none
            &&& trace_id != 0 && span_id != 0 ==> {
                &&& t.dom().contains("traceparent"@)
                &&& t["traceparent"@] == seq![encode_utf8(trace_text(trace_id, span_id, sampled))]
                &&& is_value(s) ==> t.dom().contains("tracestate"@) && t["tracestate"@] == seq![s]
                &&& !is_value(s) ==> !t.dom().contains("tracestate"@)
            }
        }),
{
    lemma_names();
}

/// A place in a trace by its numbers.
pub proof fn law_trace_by_value(t: Trace, p: &Trace)
    ensures
        trace_opt(Some(t)) == Some((t.trace_id, t.span_id, t.sampled, t.state@)),
        trace_opt(None) is None,
        place_opt(Some(p)) == Some((p.trace_id, p.span_id, p.sampled, p.state@)),
        place_opt(None) is None,
{
}

/// Behind an exporter spans are exported, and traces continued as it was last told. What the
/// first one was built from stays noted.
pub proof fn law_exporter_is_noted(t: TracingView, a: Seq<char>, b: Seq<char>, x: bool, y: bool)
    ensures
        exporting(t, a, x).enabled,
        exporting(t, a, x).trust_incoming == x,
        t.fingerprint is None ==> exporting(t, a, x).fingerprint == Some(a),
        exporting(exporting(t, a, x), b, y).fingerprint == exporting(t, a, x).fingerprint,
        exporting(exporting(t, a, x), b, y).trust_incoming == y,
{
}

} // verus!
