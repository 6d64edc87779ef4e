use hyper::header::{HeaderMap, HeaderName, HeaderValue};
use hypershunt::matcher::{HeaderMatch, MatchPredicate, Matcher, RequestHead};
use hypershunt::pattern::{Pattern, WholePattern};

fn req(method: &str, uri: &str, headers: &[(&str, &str)]) -> RequestHead {
    let (path, query) = match uri.split_once('?') {
        Some((p, q)) => (p.to_string(), Some(q.to_string())),
        None => (uri.to_string(), None),
    };
    let mut map = HeaderMap::new();
    for (k, v) in headers {
        map.append(k.parse::<HeaderName>().unwrap(), v.parse::<HeaderValue>().unwrap());
    }
    RequestHead { method: method.to_string(), path, query, headers: map }
}

fn re(source: &str) -> Pattern {
    Pattern::new(source).unwrap()
}

fn whole(source: &str) -> HeaderMatch {
    HeaderMatch::Regex(WholePattern::new(source).unwrap())
}

fn methods(names: &[&str]) -> MatchPredicate {
    MatchPredicate::Method(names.iter().map(|n| n.to_string()).collect())
}

#[test]
fn method_predicate_or_within_list() {
    let m = Matcher { predicates: vec![methods(&["POST", "PUT"])] };
    assert!(m.matches(&req("POST", "/", &[])));
    assert!(m.matches(&req("PUT", "/", &[])));
    assert!(!m.matches(&req("GET", "/", &[])));
}

#[test]
fn header_predicate_exact_and_regex() {
    let m = Matcher {
        predicates: vec![MatchPredicate::Header {
            name: "x-api-version".to_string(),
            values: vec![HeaderMatch::Exact("v1".to_string()), whole("^v[23]$")],
        }],
    };
    assert!(m.matches(&req("GET", "/", &[("X-API-Version", "v1")])));
    assert!(m.matches(&req("GET", "/", &[("X-API-Version", "v2")])));
    assert!(m.matches(&req("GET", "/", &[("X-API-Version", "v3")])));
    assert!(!m.matches(&req("GET", "/", &[("X-API-Version", "v4")])));
    // Missing header -> no match.
    assert!(!m.matches(&req("GET", "/", &[])));
}

#[test]
fn query_predicate_first_occurrence_wins() {
    let m = Matcher {
        predicates: vec![MatchPredicate::Query {
            name: "format".to_string(),
            values: vec!["json".to_string()],
        }],
    };
    assert!(m.matches(&req("GET", "/?format=json", &[])));
    assert!(m.matches(&req("GET", "/?a=1&format=json", &[])));
    assert!(!m.matches(&req("GET", "/?format=xml", &[])));
    // First-occurrence: a later `format=json` does not save
    // an earlier `format=xml`.
    assert!(!m.matches(&req("GET", "/?format=xml&format=json", &[])));
    // Missing query string entirely.
    assert!(!m.matches(&req("GET", "/", &[])));
}

#[test]
fn predicates_combine_with_and() {
    let m = Matcher {
        predicates: vec![
            methods(&["POST"]),
            MatchPredicate::Header {
                name: "x-tenant".to_string(),
                values: vec![HeaderMatch::Exact("acme".to_string())],
            },
        ],
    };
    assert!(m.matches(&req("POST", "/", &[("X-Tenant", "acme")])));
    // Method fails.
    assert!(!m.matches(&req("GET", "/", &[("X-Tenant", "acme")])));
    // Header fails.
    assert!(!m.matches(&req("POST", "/", &[("X-Tenant", "other")])));
}

#[test]
fn empty_predicate_list_accepts() {
    // Defensive: the config parser refuses to build an empty
    // matcher, but the evaluator must still degrade safely if
    // one slips through (e.g. via a programmatic builder).
    let m = Matcher { predicates: vec![] };
    assert!(m.matches(&req("GET", "/", &[])));
}

#[test]
fn header_absent_predicate() {
    let m = Matcher {
        predicates: vec![MatchPredicate::HeaderAbsent { name: "authorization".to_string() }],
    };
    assert!(m.matches(&req("GET", "/", &[])));
    // Even an empty header counts as present, so the predicate fails.
    assert!(!m.matches(&req("GET", "/", &[("Authorization", "")])));
    assert!(!m.matches(&req("GET", "/", &[("Authorization", "Bearer x")])));
}

#[test]
fn path_predicate_is_unanchored() {
    // Patterns are matched unanchored, so a bare `admin` matches
    // anywhere in the path, the middle of a segment too.
    let m = Matcher { predicates: vec![MatchPredicate::Path(vec![re("admin")])] };
    assert!(m.matches(&req("GET", "/admin/users", &[])));
    assert!(m.matches(&req("GET", "/api/admin", &[])));
    assert!(m.matches(&req("GET", "/uber/admin/x", &[])));
    assert!(m.matches(&req("GET", "/sysadmin/x", &[])));
    assert!(!m.matches(&req("GET", "/users", &[])));
}

#[test]
fn path_predicate_anchors_when_caret_dollar() {
    let m = Matcher { predicates: vec![MatchPredicate::Path(vec![re("^/admin$")])] };
    assert!(m.matches(&req("GET", "/admin", &[])));
    assert!(!m.matches(&req("GET", "/admin/users", &[])));
    assert!(!m.matches(&req("GET", "/sysadmin", &[])));
}

#[test]
fn path_predicate_or_within_list() {
    let m = Matcher {
        predicates: vec![MatchPredicate::Path(vec![re(r"\.jpg$"), re(r"\.png$")])],
    };
    assert!(m.matches(&req("GET", "/img/cat.jpg", &[])));
    assert!(m.matches(&req("GET", "/img/cat.png", &[])));
    assert!(!m.matches(&req("GET", "/img/cat.gif", &[])));
}

#[test]
fn not_predicate_inverts_and_of_inner() {
    // not { method GET } -> matches anything except GET.
    let m = Matcher { predicates: vec![MatchPredicate::Not(vec![methods(&["GET"])])] };
    assert!(m.matches(&req("POST", "/", &[])));
    assert!(!m.matches(&req("GET", "/", &[])));
}

#[test]
fn not_predicate_and_of_multiple_inner() {
    let m = Matcher {
        predicates: vec![MatchPredicate::Not(vec![
            methods(&["GET"]),
            MatchPredicate::Header {
                name: "x-blocked".to_string(),
                values: vec![HeaderMatch::Exact("yes".to_string())],
            },
        ])],
    };
    // Both inner predicates true -> outer negation fails.
    assert!(!m.matches(&req("GET", "/", &[("X-Blocked", "yes")])));
    // Method matches but header doesn't -> inner AND false
    // -> negation matches.
    assert!(m.matches(&req("GET", "/", &[("X-Blocked", "no")])));
    // Neither matches -> negation matches.
    assert!(m.matches(&req("POST", "/", &[])));
}

#[test]
fn non_utf8_header_value_never_matches() {
    let mut r = req("GET", "/", &[]);
    r.headers.insert(
        HeaderName::from_static("x-bin"),
        HeaderValue::from_bytes(b"\xff\xfe").unwrap(),
    );
    let m = Matcher {
        predicates: vec![MatchPredicate::Header {
            name: "x-bin".to_string(),
            values: vec![whole(".*")],
        }],
    };
    assert!(!m.matches(&r));
}

#[test]
fn header_pattern_covers_the_whole_value() {
    let m = Matcher {
        predicates: vec![MatchPredicate::Header {
            name: "x-env".to_string(),
            values: vec![whole("prod|stage")],
        }],
    };
    assert!(m.matches(&req("GET", "/", &[("X-Env", "prod")])));
    assert!(m.matches(&req("GET", "/", &[("X-Env", "stage")])));
    assert!(!m.matches(&req("GET", "/", &[("X-Env", "production")])));
    assert!(!m.matches(&req("GET", "/", &[("X-Env", "prestage")])));
}

#[test]
fn bad_pattern_does_not_compile() {
    assert!(Pattern::new("(").is_none());
    assert!(WholePattern::new("(").is_none());
    assert!(Pattern::new("a+").unwrap().is_match("caat"));
    assert!(!WholePattern::new("a+").unwrap().is_match("caat"));
}

#[test]
fn empty_not_never_matches() {
    let m = Matcher { predicates: vec![MatchPredicate::Not(vec![])] };
    assert!(!m.matches(&req("GET", "/", &[])));
}

#[test]
fn query_without_value_reads_as_empty() {
    let m = Matcher {
        predicates: vec![MatchPredicate::Query {
            name: "debug".to_string(),
            values: vec!["".to_string()],
        }],
    };
    assert!(m.matches(&req("GET", "/?debug", &[])));
    assert!(m.matches(&req("GET", "/?debug=", &[])));
    assert!(!m.matches(&req("GET", "/?debug=1", &[])));
}

#[test]
fn whole_pattern_may_end_in_a_comment() {
    let p = WholePattern::new("(?x)prod # the live one").unwrap();
    assert!(p.is_match("prod"));
    assert!(!p.is_match("production"));
    assert!(!p.is_match("preprod"));
    let p = WholePattern::new("(?x) a+ # letters\n b # one more").unwrap();
    assert!(p.is_match("aab"));
    assert!(!p.is_match("aabb"));
}
