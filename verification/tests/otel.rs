use hyper::HeaderMap;
use hypershunt::otel::{
    enabled, extract, fingerprint, fingerprint_of, inject, inject_current, trust_incoming, Trace,
    TracingState,
};

const CLIENT: &str = "00-4bf92f3577b34da6a3ce929d0e0e4736-00f067aa0ba902b7-01";

fn carrying(traceparent: &str) -> HeaderMap {
    let mut h = HeaderMap::new();
    h.insert("traceparent", traceparent.parse().expect("static value parses"));
    h
}

fn sent(h: &HeaderMap) -> Option<&str> {
    h.get("traceparent").and_then(|v| v.to_str().ok())
}

fn ours() -> Trace {
    Trace { trace_id: 0xabc, span_id: 0x12, sampled: true, state: String::new() }
}

// A well-formed traceparent must survive extract -> inject
// unchanged in trace id, which is what makes one trace span two
// services.
#[test]
fn round_trips_trace_context() {
    let inbound = carrying("00-4bf92f3577b34da6a3ce929d0e0e4736-00f067aa0ba902b7-01");

    let cx = extract(&inbound);
    let trace_id = cx.as_ref().expect("a trace").trace_id;

    let mut outbound = HeaderMap::new();
    assert!(inject(cx.as_ref(), &mut outbound));

    let forwarded = sent(&outbound).expect("traceparent injected");
    assert!(
        forwarded.contains(&format!("{trace_id:032x}")),
        "forwarded {forwarded:?} lost the trace id"
    );
    assert_eq!(forwarded, CLIENT);
}

// A client can send anything; garbage must not poison the trace,
// and must not be forwarded verbatim either.
#[test]
fn malformed_traceparent_is_dropped() {
    let inbound = carrying("not-a-traceparent");

    let cx = extract(&inbound);
    assert!(cx.is_none(), "garbage traceparent produced a usable span context");

    let mut outbound = inbound.clone();
    inject(cx.as_ref(), &mut outbound);
    assert_ne!(
        sent(&outbound),
        Some("not-a-traceparent"),
        "client-supplied traceparent was forwarded unchanged"
    );
}

#[test]
fn inject_current_is_inert_when_disabled() {
    let mut headers = carrying("00-4bf92f3577b34da6a3ce929d0e0e4736-00f067aa0ba902b7-01");
    inject_current(&TracingState::disabled(), Some(&ours()), &mut headers);
    assert_eq!(
        sent(&headers),
        Some("00-4bf92f3577b34da6a3ce929d0e0e4736-00f067aa0ba902b7-01"),
    );
}

// Under an active span the client's claim is replaced by ours.
#[test]
fn inject_current_replaces_client_value() {
    let mut tracing = TracingState::disabled();
    tracing.init("cfg".to_string(), false);
    let mut headers = carrying("00-4bf92f3577b34da6a3ce929d0e0e4736-00f067aa0ba902b7-01");
    inject_current(&tracing, Some(&ours()), &mut headers);
    let got = sent(&headers).expect("traceparent injected");
    assert_ne!(
        got,
        "00-4bf92f3577b34da6a3ce929d0e0e4736-00f067aa0ba902b7-01",
        "client-supplied traceparent survived injection"
    );
    assert_eq!(got, "00-00000000000000000000000000000abc-0000000000000012-01");
}

#[test]
fn span_without_a_place_leaves_the_client_value() {
    let mut tracing = TracingState::disabled();
    tracing.init("cfg".to_string(), false);
    let mut headers = carrying(CLIENT);
    assert!(inject_current(&tracing, None, &mut headers));
    assert_eq!(sent(&headers), Some(CLIENT));
    let nowhere = Trace { trace_id: 0, span_id: 1, sampled: true, state: String::new() };
    assert!(inject_current(&tracing, Some(&nowhere), &mut headers));
    assert_eq!(sent(&headers), Some(CLIENT));
}

#[test]
fn trace_state_goes_along() {
    let mut inbound = carrying(CLIENT);
    inbound.insert("tracestate", "vendor=opaque".parse().unwrap());
    let cx = extract(&inbound).unwrap();
    assert_eq!(cx.trace_id, 0x4bf92f3577b34da6a3ce929d0e0e4736);
    assert_eq!(cx.span_id, 0x00f067aa0ba902b7);
    assert!(cx.sampled);
    assert_eq!(cx.state, "vendor=opaque");
    let mut outbound = HeaderMap::new();
    assert!(inject(Some(&cx), &mut outbound));
    assert_eq!(outbound.get("tracestate").unwrap().to_str().unwrap(), "vendor=opaque");
}

#[test]
fn unsampled_trace_stays_unsampled() {
    let text = "00-4bf92f3577b34da6a3ce929d0e0e4736-00f067aa0ba902b7-00";
    let cx = extract(&carrying(text)).unwrap();
    assert!(!cx.sampled);
    let mut outbound = HeaderMap::new();
    assert!(inject(Some(&cx), &mut outbound));
    assert_eq!(sent(&outbound), Some(text));
}

#[test]
fn no_trace_is_written_for_none() {
    let mut headers = carrying(CLIENT);
    headers.insert("tracestate", "a=b".parse().unwrap());
    assert!(inject(None, &mut headers));
    assert!(headers.is_empty());
    assert!(extract(&headers).is_none());
}

#[test]
fn first_set_up_stays_noted() {
    let mut t = TracingState::disabled();
    assert!(!enabled(&t));
    assert!(!trust_incoming(&t));
    assert_eq!(fingerprint(&t), "");
    t.init(fingerprint_of(Some("one")), true);
    t.init(fingerprint_of(Some("two")), false);
    assert!(enabled(&t));
    assert!(!trust_incoming(&t));
    assert_eq!(fingerprint(&t), "one");
    assert_eq!(fingerprint_of(None), "");
}

#[test]
fn thousands_of_headers_leave_room_for_a_trace() {
    let mut h = HeaderMap::new();
    for i in 0..6552 {
        let name: hyper::header::HeaderName = format!("x-{i}").parse().expect("a name");
        h.insert(name, CLIENT.parse().expect("a value"));
    }
    h.insert("traceparent", CLIENT.parse().expect("a value"));
    assert!(inject(Some(&ours()), &mut h));
    assert_eq!(sent(&h), Some("00-00000000000000000000000000000abc-0000000000000012-01"));
    assert_eq!(h.keys_len(), 6554);
}
