//! Request classes and their tallies.
use vstd::prelude::*;

verus! {

/// The handler that served a request.
#[derive(Clone, Copy, Debug, PartialEq, Eq, Structural)]
pub enum HandlerKind {
    Static,
    Proxy,
    Redirect,
    Respond,
    FastCgi,
    Scgi,
    Cgi,
    Status,
    AuthRequest,
}

/// Number of handler kinds.
pub const HANDLER_KINDS: usize = 9;

/// All handler kinds, in the order of their indices.
pub const HANDLER_KIND_ALL: [HandlerKind; 9] = [
    HandlerKind::Static,
    HandlerKind::Proxy,
    HandlerKind::Redirect,
    HandlerKind::Respond,
    HandlerKind::FastCgi,
    HandlerKind::Scgi,
    HandlerKind::Cgi,
    HandlerKind::Status,
    HandlerKind::AuthRequest,
];

impl HandlerKind {
    /// Position of a kind among all kinds.
    pub open spec fn place(self) -> int {
        match self {
            HandlerKind::Static => 0,
            HandlerKind::Proxy => 1,
            HandlerKind::Redirect => 2,
            HandlerKind::Respond => 3,
            HandlerKind::FastCgi => 4,
            HandlerKind::Scgi => 5,
            HandlerKind::Cgi => 6,
            HandlerKind::Status => 7,
            HandlerKind::AuthRequest => 8,
        }
    }

    pub fn index(self) -> (r: usize)
        ensures
            r == self.place(),
            r < HANDLER_KINDS,
    {
        match self {
            HandlerKind::Static => 0,
            HandlerKind::Proxy => 1,
            HandlerKind::Redirect => 2,
            HandlerKind::Respond => 3,
            HandlerKind::FastCgi => 4,
            HandlerKind::Scgi => 5,
            HandlerKind::Cgi => 6,
            HandlerKind::Status => 7,
            HandlerKind::AuthRequest => 8,
        }
    }

    /// Stable lower-case name of a kind.
    pub open spec fn name(self) -> Seq<char> {
        match self {
            HandlerKind::Static => "static"@,
            HandlerKind::Proxy => "proxy"@,
            HandlerKind::Redirect => "redirect"@,
            HandlerKind::Respond => "respond"@,
            HandlerKind::FastCgi => "fastcgi"@,
            HandlerKind::Scgi => "scgi"@,
            HandlerKind::Cgi => "cgi"@,
            HandlerKind::Status => "status"@,
            HandlerKind::AuthRequest => "auth-request"@,
        }
    }

    /// Stable lower-case label used as the JSON key and table row.
    pub fn label(self) -> (r: &'static str)
        ensures
            r@ == self.name(),
    {
        match self {
            HandlerKind::Static => "static",
            HandlerKind::Proxy => "proxy",
            HandlerKind::Redirect => "redirect",
            HandlerKind::Respond => "respond",
            HandlerKind::FastCgi => "fastcgi",
            HandlerKind::Scgi => "scgi",
            HandlerKind::Cgi => "cgi",
            HandlerKind::Status => "status",
            HandlerKind::AuthRequest => "auth-request",
        }
    }
}

/// One request tally broken down by status class. Counts are modulo 2^64.
#[derive(Clone, Copy, Debug, PartialEq, Eq, Structural)]
pub struct ClassCounters {
    pub total: u64,
    pub s2xx: u64,
    pub s3xx: u64,
    pub s4xx: u64,
    pub s5xx: u64,
}

/// Plain-data copy of a `ClassCounters` for the renderers.
#[derive(Clone, Copy, Debug, PartialEq, Eq, Structural)]
pub struct ClassSnapshot {
    pub total: u64,
    pub s2xx: u64,
    pub s3xx: u64,
    pub s4xx: u64,
    pub s5xx: u64,
}

/// `n + 1` modulo 2^64 if `yes`, else `n`.
pub open spec fn plus_if(n: u64, yes: bool) -> u64 {
    if yes {
        n.wrapping_add(1)
    } else {
        n
    }
}

impl ClassCounters {
    /// The tally with one more response of the given status.
    pub open spec fn with(self, status: u16) -> ClassCounters {
        ClassCounters {
            total: self.total.wrapping_add(1),
            s2xx: plus_if(self.s2xx, 200 <= status < 300),
            s3xx: plus_if(self.s3xx, 300 <= status < 400),
            s4xx: plus_if(self.s4xx, 400 <= status < 500),
            s5xx: plus_if(self.s5xx, 500 <= status < 600),
        }
    }

    /// The tally of no responses.
    pub open spec fn zero() -> ClassCounters {
        ClassCounters { total: 0, s2xx: 0, s3xx: 0, s4xx: 0, s5xx: 0 }
    }

    /// The values of the tally.
    pub open spec fn values(self) -> ClassSnapshot {
        ClassSnapshot {
            total: self.total,
            s2xx: self.s2xx,
            s3xx: self.s3xx,
            s4xx: self.s4xx,
            s5xx: self.s5xx,
        }
    }

    pub fn new() -> (r: Self)
        ensures
            r == ClassCounters::zero(),
    {
        ClassCounters { total: 0, s2xx: 0, s3xx: 0, s4xx: 0, s5xx: 0 }
    }

    pub fn record(&mut self, status: u16)
        ensures
            *final(self) == old(self).with(status),
    {
        self.total = self.total.wrapping_add(1);
        let class: u16 = status / 100;
        if class == 2 {
            self.s2xx = self.s2xx.wrapping_add(1);
        } else if class == 3 {
            self.s3xx = self.s3xx.wrapping_add(1);
        } else if class == 4 {
            self.s4xx = self.s4xx.wrapping_add(1);
        } else if class == 5 {
            self.s5xx = self.s5xx.wrapping_add(1);
        }
    }

    pub fn snapshot(&self) -> (r: ClassSnapshot)
        ensures
            r == self.values(),
    {
        ClassSnapshot {
            total: self.total,
            s2xx: self.s2xx,
            s3xx: self.s3xx,
            s4xx: self.s4xx,
            s5xx: self.s5xx,
        }
    }
}

impl Default for ClassCounters {
    fn default() -> (r: Self)
        ensures
            r == ClassCounters::zero(),
    {
        ClassCounters::new()
    }
}

impl Default for ClassSnapshot {
    fn default() -> (r: Self)
        ensures
            r == ClassCounters::zero().values(),
    {
        ClassCounters::new().snapshot()
    }
}

/// Bucket of a latency in milliseconds, shared by the request histogram and
/// the upstream histogram.
pub fn latency_bucket(latency_ms: u128) -> (r: usize)
    ensures
        r == bucket_of(latency_ms as int),
        r < 6,
{
    if latency_ms < 1 {
        0
    } else if latency_ms < 10 {
        1
    } else if latency_ms < 50 {
        2
    } else if latency_ms < 200 {
        3
    } else if latency_ms < 1000 {
        4
    } else {
        5
    }
}

/// The bucket of a latency: <1ms <10ms <50ms <200ms <1s >=1s.
pub open spec fn bucket_of(latency_ms: int) -> int {
    if latency_ms < 1 {
        0
    } else if latency_ms < 10 {
        1
    } else if latency_ms < 50 {
        2
    } else if latency_ms < 200 {
        3
    } else if latency_ms < 1000 {
        4
    } else {
        5
    }
}

} // verus!
