//! What an answer is given on its way out, and how it is counted.
use crate::listener::service::admission::{answered, finish, Admitted};
use crate::listener::service::policy::{principal_view, str_opt, Principal};
use crate::metrics::{class_recorded, Metrics};
use crate::metrics::counters::HandlerKind;
use crate::metrics::paths::clippable;
use crate::oidc::cache::IdentityView;
use crate::oidc::claims::text_opt;
use crate::reply::{BodyView, Reply, ReplyBody, ReplyView};
use vstd::prelude::*;

verus! {

/// Whether a fresh session token is issued: where this server keeps sessions,
/// and the user was found by credentials and not by a token.
pub open spec fn token_due(
    known_before: bool,
    session_mode: Option<bool>,
    found: Option<IdentityView>,
) -> bool {
    !known_before && session_mode == Some(true) && found is Some
}

/// Whether a fresh session token is issued.
pub fn fresh_token_due(known_before: bool, session_mode: Option<bool>, found: &Principal) -> (r: bool)
    ensures
        r == token_due(known_before, session_mode, principal_view(*found)),
{
    if known_before {
        return false;
    }
    match session_mode {
        Some(on) => match found {
            Principal::Authenticated(_) => on,
            Principal::Anonymous => false,
        },
        None => false,
    }
}

/// The cookies that a handled request is answered with: those that a refresh
/// left, and the one with a fresh session token.
pub fn answer_cookies(pending: Vec<String>, fresh: Option<String>) -> (r: Vec<String>)
    ensures
        r@ == match fresh {
            Some(c) => pending@.push(c),
            None => pending@,
        },
{
    let mut out = pending;
    match fresh {
        Some(c) => {
            out.push(c);
        },
        None => {},
    }
    out
}

/// Counts a logout.
pub fn record_logout(metrics: &mut Metrics)
    ensures
        *final(metrics) == (Metrics {
            oidc_logouts: old(metrics).oidc_logouts.wrapping_add(1),
            ..*old(metrics)
        }),
{
    metrics.oidc_logouts = metrics.oidc_logouts.wrapping_add(1);
}

/// Counts a session token that was issued.
pub fn record_issued(metrics: &mut Metrics)
    ensures
        *final(metrics) == (Metrics {
            jwt_issued: old(metrics).jwt_issued.wrapping_add(1),
            ..*old(metrics)
        }),
{
    metrics.jwt_issued = metrics.jwt_issued.wrapping_add(1);
}

/// The user that the access log names: a dash where there is none.
pub fn log_user(username: &str) -> (r: String)
    ensures
        r@ == if username@.len() == 0 {
            "-"@
        } else {
            username@
        },
{
    if username.is_empty() {
        "-".to_owned()
    } else {
        username.to_owned()
    }
}

/// The answer to a request whose handler took too long.
pub open spec fn timed_out() -> ReplyView {
    ReplyView {
        status: 408,
        headers: Seq::empty(),
        body: BodyView::Text("<h1>408 Request Timeout</h1>"@),
    }
}

/// Writes the answer to a request whose handler took too long.
pub fn timeout_reply() -> (r: Reply)
    ensures
        r@ == timed_out(),
{
    Reply::new(408, ReplyBody::Text("<h1>408 Request Timeout</h1>".to_owned()))
}

/// The `Alt-Svc` value that is added to an answer: the listener's own, unless
/// the answer carries one.
pub fn alt_svc_to_add(auto: Option<&str>, present: bool) -> (r: Option<String>)
    ensures
        text_opt(r) == if present {
            None
        } else {
            str_opt(auto)
        },
{
    if present {
        return None;
    }
    match auto {
        Some(v) => Some(v.to_owned()),
        None => None,
    }
}

/// The versions of the protocol.
#[derive(Clone, Copy, Debug, PartialEq, Eq, Structural)]
pub enum HttpVersion {
    Http09,
    Http10,
    Http11,
    Http2,
    Http3,
    Other,
}

/// The name of a version in the access log.
pub open spec fn version_name(v: HttpVersion) -> Seq<char> {
    match v {
        HttpVersion::Http09 => "HTTP/0.9"@,
        HttpVersion::Http10 => "HTTP/1.0"@,
        HttpVersion::Http11 => "HTTP/1.1"@,
        HttpVersion::Http2 => "HTTP/2.0"@,
        HttpVersion::Http3 => "HTTP/3.0"@,
        HttpVersion::Other => "HTTP/1.1"@,
    }
}

/// Names a version for the access log.
pub fn http_version_str(v: HttpVersion) -> (r: &'static str)
    ensures
        r@ == version_name(v),
{
    match v {
        HttpVersion::Http09 => "HTTP/0.9",
        HttpVersion::Http10 => "HTTP/1.0",
        HttpVersion::Http11 => "HTTP/1.1",
        HttpVersion::Http2 => "HTTP/2.0",
        HttpVersion::Http3 => "HTTP/3.0",
        HttpVersion::Other => "HTTP/1.1",
    }
}

/// The ways to compress an answer.
#[derive(Clone, Copy, Debug, PartialEq, Eq, Structural)]
pub enum Encoding {
    Gzip,
    Brotli,
    Zstd,
}

/// What compressing an answer came to.
#[derive(Clone, Copy, Debug, PartialEq, Eq, Structural)]
pub struct CompressionStats {
    /// How it was compressed.
    pub applied: Option<Encoding>,
    /// It could have been compressed, but was not.
    pub skipped: bool,
    pub bytes_in: u64,
    pub bytes_out: u64,
}

/// What compressing an answer adds to the counters.
pub open spec fn compression_counted(m: Metrics, s: CompressionStats) -> Metrics {
    match s.applied {
        Some(enc) => Metrics {
            compress_responses_total: m.compress_responses_total.wrapping_add(1),
            compress_bytes_in_total: m.compress_bytes_in_total.wrapping_add(s.bytes_in),
            compress_bytes_out_total: m.compress_bytes_out_total.wrapping_add(s.bytes_out),
            compress_gzip_total: m.compress_gzip_total.wrapping_add(
                if enc is Gzip {
                    1
                } else {
                    0
                },
            ),
            compress_brotli_total: m.compress_brotli_total.wrapping_add(
                if enc is Brotli {
                    1
                } else {
                    0
                },
            ),
            compress_zstd_total: m.compress_zstd_total.wrapping_add(
                if enc is Zstd {
                    1
                } else {
                    0
                },
            ),
            ..m
        },
        None => if s.skipped {
            Metrics { compress_skipped_total: m.compress_skipped_total.wrapping_add(1), ..m }
        } else {
            m
        },
    }
}

/// Counts what compressing an answer came to.
pub fn record_compression(metrics: &mut Metrics, stats: &CompressionStats)
    ensures
        *final(metrics) == compression_counted(*old(metrics), *stats),
{
    match stats.applied {
        Some(enc) => {
            metrics.compress_responses_total = metrics.compress_responses_total.wrapping_add(1);
            metrics.compress_bytes_in_total = metrics.compress_bytes_in_total.wrapping_add(
                stats.bytes_in,
            );
            metrics.compress_bytes_out_total = metrics.compress_bytes_out_total.wrapping_add(
                stats.bytes_out,
            );
            match enc {
                Encoding::Gzip => {
                    metrics.compress_gzip_total = metrics.compress_gzip_total.wrapping_add(1);
                },
                Encoding::Brotli => {
                    metrics.compress_brotli_total = metrics.compress_brotli_total.wrapping_add(1);
                },
                Encoding::Zstd => {
                    metrics.compress_zstd_total = metrics.compress_zstd_total.wrapping_add(1);
                },
            }
        },
        None => {
            if stats.skipped {
                metrics.compress_skipped_total = metrics.compress_skipped_total.wrapping_add(1);
            }
        },
    }
}

/// What answering a routed request does to the counters: `a` before and `b`
/// after.
pub open spec fn routed_answered(
    a: Metrics,
    b: Metrics,
    status: u16,
    ms: u128,
    path: Seq<char>,
    class: Option<(HandlerKind, Seq<char>)>,
) -> bool {
    match class {
        Some((kind, vhost)) => exists|m: Metrics| #[trigger]
            answered(a, m, status, ms, path) && class_recorded(m, b, kind, vhost, status),
        None => answered(a, b, status, ms, path),
    }
}

/// Counts the answer to a request that was open to routing, with the kind and
/// the virtual host of its place where it has one.
pub fn finish_routed(
    req: Admitted,
    status: u16,
    ms: u128,
    path: &str,
    class: Option<(HandlerKind, &str)>,
    metrics: &mut Metrics,
)
    requires
        clippable(path@),
    ensures
        routed_answered(
            *old(metrics),
            *final(metrics),
            status,
            ms,
            path@,
            match class {
                Some((k, v)) => Some((k, v@)),
                None => None,
            },
        ),
{
    finish(req, status, ms, path, metrics);
    let ghost mid = *metrics;
    match class {
        Some((kind, vhost)) => {
            metrics.record_class(kind, vhost, status);
            assert(answered(*old(metrics), mid, status, ms, path@));
        },
        None => {},
    }
}

} // verus!
