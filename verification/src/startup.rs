//! Starting and stopping the server: which listeners there are and in which
//! order they start, which protocols the virtual hosts offer, and how long to
//! wait at the end.
use crate::oidc::cache::copy_strings;
use crate::oidc::claims::texts;
use crate::listener::socket::SocketKind;
use vstd::prelude::*;

verus! {

/// What a listener serves.
#[derive(Clone, Copy, Debug, PartialEq, Eq, Structural)]
pub enum ListenerClass {
    PlainStream,
    PlainHttp,
    TlsHttp,
    QuicHttp,
    TlsStream,
    DgramProxy,
}

/// What a listener is made of.
#[derive(Clone, Copy, Debug, PartialEq, Eq, Structural)]
pub struct ListenerFacts {
    pub kind: SocketKind,
    pub has_tls: bool,
    pub has_quic: bool,
    pub has_proxy: bool,
}

/// What a listener serves, where what it is made of goes together.
pub open spec fn class_of(l: ListenerFacts) -> Option<ListenerClass> {
    if l.kind.streams() {
        if l.has_quic {
            None
        } else if l.has_proxy {
            if l.has_tls {
                Some(ListenerClass::TlsStream)
            } else {
                Some(ListenerClass::PlainStream)
            }
        } else if l.has_tls {
            Some(ListenerClass::TlsHttp)
        } else {
            Some(ListenerClass::PlainHttp)
        }
    } else if l.has_tls {
        None
    } else if l.has_quic && !l.has_proxy {
        Some(ListenerClass::QuicHttp)
    } else if l.has_proxy && !l.has_quic {
        Some(ListenerClass::DgramProxy)
    } else {
        None
    }
}

/// Says what a listener serves.
pub fn classify(l: &ListenerFacts) -> (r: Option<ListenerClass>)
    ensures
        r == class_of(*l),
{
    match (l.kind.is_byte_stream(), l.has_tls, l.has_quic, l.has_proxy) {
        (true, false, false, false) => Some(ListenerClass::PlainHttp),
        (true, true, false, false) => Some(ListenerClass::TlsHttp),
        (true, false, false, true) => Some(ListenerClass::PlainStream),
        (true, true, false, true) => Some(ListenerClass::TlsStream),
        (false, false, true, false) => Some(ListenerClass::QuicHttp),
        (false, false, false, true) => Some(ListenerClass::DgramProxy),
        _ => None,
    }
}

/// The listeners of a class among the first `n`, by their places.
pub open spec fn places(all: Seq<ListenerFacts>, c: ListenerClass, n: int) -> Seq<usize>
    decreases n,
{
    if n <= 0 {
        Seq::empty()
    } else if n <= all.len() && class_of(all[n - 1]) == Some(c) {
        places(all, c, n - 1).push((n - 1) as usize)
    } else {
        places(all, c, n - 1)
    }
}

/// The order in which listeners start: those that need no certificate first, so
/// that challenges of a certificate authority are answered before certificates
/// are asked for.
pub open spec fn start_order(all: Seq<ListenerFacts>) -> Seq<usize> {
    let n = all.len() as int;
    places(all, ListenerClass::PlainStream, n) + places(all, ListenerClass::PlainHttp, n) + places(
        all,
        ListenerClass::TlsHttp,
        n,
    ) + places(all, ListenerClass::QuicHttp, n) + places(all, ListenerClass::TlsStream, n)
        + places(all, ListenerClass::DgramProxy, n)
}

fn push_class(out: &mut Vec<usize>, all: &Vec<ListenerFacts>, c: ListenerClass)
    ensures
        final(out)@ == old(out)@ + places(all@, c, all@.len() as int),
{
    let n: usize = all.len();
    let ghost before = out@;
    let mut i: usize = 0;
    assert(out@ =~= before + places(all@, c, 0));
    while i < n
        invariant
            n == all@.len(),
            i <= n,
            out@ == before + places(all@, c, i as int),
        decreases n - i,
    {
        let ghost at = out@;
        match classify(&all[i]) {
            Some(x) => {
                if x == c {
                    out.push(i);
                    assert(out@ =~= before + places(all@, c, i as int).push(i));
                }
            },
            None => {},
        }
        i = i + 1;
    }
}

/// Says in which order listeners start, by their places. A listener whose parts
/// do not go together is refused.
pub fn plan_start(all: &Vec<ListenerFacts>) -> (r: Result<Vec<usize>, usize>)
    ensures
        match r {
            Ok(v) => v@ == start_order(all@) && forall|i: int|
                0 <= i < all@.len() ==> class_of(#[trigger] all@[i]) is Some,
            Err(i) => i < all@.len() && class_of(all@[i as int]) is None && forall|j: int|
                0 <= j < i ==> class_of(#[trigger] all@[j]) is Some,
        },
{
    let n: usize = all.len();
    let mut i: usize = 0;
    while i < n
        invariant
            n == all@.len(),
            i <= n,
            forall|j: int| 0 <= j < i ==> class_of(#[trigger] all@[j]) is Some,
        decreases n - i,
    {
        if classify(&all[i]).is_none() {
            return Err(i);
        }
        i = i + 1;
    }
    let mut out: Vec<usize> = Vec::new();
    push_class(&mut out, all, ListenerClass::PlainStream);
    push_class(&mut out, all, ListenerClass::PlainHttp);
    push_class(&mut out, all, ListenerClass::TlsHttp);
    push_class(&mut out, all, ListenerClass::QuicHttp);
    push_class(&mut out, all, ListenerClass::TlsStream);
    push_class(&mut out, all, ListenerClass::DgramProxy);
    assert(out@ =~= start_order(all@));
    Ok(out)
}

/// The number of listeners with a proxy.
pub open spec fn proxies(all: Seq<ListenerFacts>) -> nat
    decreases all.len(),
{
    if all.len() == 0 {
        0
    } else if all.last().has_proxy {
        proxies(all.drop_last()) + 1
    } else {
        proxies(all.drop_last())
    }
}

/// Counts the listeners with a proxy.
pub fn proxy_count(all: &Vec<ListenerFacts>) -> (r: usize)
    ensures
        r == proxies(all@),
        r <= all@.len(),
{
    let n: usize = all.len();
    let mut count: usize = 0;
    let mut i: usize = 0;
    assert(all@.take(0) =~= Seq::<ListenerFacts>::empty());
    while i < n
        invariant
            n == all@.len(),
            i <= n,
            count <= i,
            count == proxies(all@.take(i as int)),
        decreases n - i,
    {
        assert(all@.take(i + 1).drop_last() =~= all@.take(i as int));
        if all[i].has_proxy {
            count = count + 1;
        }
        i = i + 1;
    }
    assert(all@.take(n as int) =~= all@);
    count
}

/// A name of a virtual host, which may be a pattern.
pub struct HostName {
    pub value: String,
    pub is_regex: bool,
}

/// A virtual host: its name, its other names, and the protocols that it offers.
pub struct Vhost {
    pub name: HostName,
    pub aliases: Vec<HostName>,
    pub alpn: Option<Vec<String>>,
}

/// A name with the protocols that it offers.
pub type Override = (Seq<char>, Seq<Seq<char>>);

/// The protocols of a name, where the host offers any and the name is no
/// pattern.
pub open spec fn name_override(n: HostName, alpn: Option<Vec<String>>) -> Seq<Override> {
    match alpn {
        Some(a) if !n.is_regex => seq![(n.value@, texts(a@))],
        _ => Seq::empty(),
    }
}

/// The protocols of the names of the first `n` hosts.
pub open spec fn name_overrides(v: Seq<Vhost>, n: int) -> Seq<Override>
    decreases n,
{
    if n <= 0 {
        Seq::empty()
    } else {
        name_overrides(v, n - 1) + name_override(v[n - 1].name, v[n - 1].alpn)
    }
}

/// The protocols of the first `n` other names of a host.
pub open spec fn host_aliases(h: Vhost, n: int) -> Seq<Override>
    decreases n,
{
    if n <= 0 {
        Seq::empty()
    } else {
        host_aliases(h, n - 1) + name_override(h.aliases@[n - 1], h.alpn)
    }
}

/// The protocols of the other names of the first `n` hosts.
pub open spec fn alias_overrides(v: Seq<Vhost>, n: int) -> Seq<Override>
    decreases n,
{
    if n <= 0 {
        Seq::empty()
    } else {
        alias_overrides(v, n - 1) + host_aliases(v[n - 1], v[n - 1].aliases@.len() as int)
    }
}

/// The protocols that the virtual hosts offer, by name: the names of all hosts
/// first, and then their other names.
pub open spec fn overrides(v: Seq<Vhost>) -> Seq<Override> {
    name_overrides(v, v.len() as int) + alias_overrides(v, v.len() as int)
}

/// The overrides, by value.
pub open spec fn override_views(v: Seq<(String, Vec<String>)>) -> Seq<Override> {
    Seq::new(v.len(), |i: int| (v[i].0@, texts(v[i].1@)))
}

fn push_override(out: &mut Vec<(String, Vec<String>)>, n: &HostName, alpn: &Option<Vec<String>>)
    ensures
        override_views(final(out)@) == override_views(old(out)@) + name_override(*n, *alpn),
{
    let ghost before = override_views(out@);
    match alpn {
        Some(a) => {
            if !n.is_regex {
                out.push((n.value.clone(), copy_strings(a)));
            }
        },
        None => {},
    }
    assert(override_views(out@) =~= before + name_override(*n, *alpn));
}

fn push_aliases(out: &mut Vec<(String, Vec<String>)>, h: &Vhost)
    ensures
        override_views(final(out)@) == override_views(old(out)@) + host_aliases(
            *h,
            h.aliases@.len() as int,
        ),
{
    let ghost before = override_views(out@);
    let n: usize = h.aliases.len();
    let mut i: usize = 0;
    assert(override_views(out@) =~= before + host_aliases(*h, 0));
    while i < n
        invariant
            n == h.aliases@.len(),
            i <= n,
            override_views(out@) == before + host_aliases(*h, i as int),
        decreases n - i,
    {
        push_override(out, &h.aliases[i], &h.alpn);
        assert(override_views(out@) =~= before + host_aliases(*h, i + 1));
        i = i + 1;
    }
}

/// The protocols that the virtual hosts offer, by name.
pub fn vhost_alpn_overrides(v: &Vec<Vhost>) -> (r: Vec<(String, Vec<String>)>)
    ensures
        override_views(r@) == overrides(v@),
{
    let n: usize = v.len();
    let mut out: Vec<(String, Vec<String>)> = Vec::new();
    assert(override_views(out@) =~= name_overrides(v@, 0));
    let mut i: usize = 0;
    while i < n
        invariant
            n == v@.len(),
            i <= n,
            override_views(out@) == name_overrides(v@, i as int),
        decreases n - i,
    {
        push_override(&mut out, &v[i].name, &v[i].alpn);
        i = i + 1;
    }
    let mut k: usize = 0;
    assert(override_views(out@) =~= name_overrides(v@, n as int) + alias_overrides(v@, 0));
    while k < n
        invariant
            n == v@.len(),
            k <= n,
            override_views(out@) == name_overrides(v@, n as int) + alias_overrides(v@, k as int),
        decreases n - k,
    {
        push_aliases(&mut out, &v[k]);
        assert(override_views(out@) =~= name_overrides(v@, n as int) + alias_overrides(v@, k + 1));
        k = k + 1;
    }
    out
}

/// How long a stopped server waits for its connections, in seconds.
pub const SHUTDOWN_DRAIN_SECS: u64 = 30;

/// The wait at the end, in seconds.
pub open spec fn drain_of(via_upgrade: bool, graceful: u32) -> Option<u64> {
    if !via_upgrade {
        Some(30u64)
    } else if graceful == 0 {
        None
    } else {
        Some(graceful as u64)
    }
}

/// How long to wait for the connections at the end, in seconds; nothing means
/// forever. A server that was replaced waits as long as it is told, and forever
/// where it is told to wait for zero seconds.
pub fn drain_secs(via_upgrade: bool, graceful: u32) -> (r: Option<u64>)
    ensures
        r == if !via_upgrade {
            Some(30u64)
        } else if graceful == 0 {
            None
        } else {
            Some(graceful as u64)
        },
        r == drain_of(via_upgrade, graceful),
{
    if !via_upgrade {
        Some(SHUTDOWN_DRAIN_SECS)
    } else if graceful == 0 {
        None
    } else {
        Some(graceful as u64)
    }
}

/// Every listener that starts is one of the listeners, and is started under one
/// class only.
pub proof fn law_places_are_of_the_class(all: Seq<ListenerFacts>, c: ListenerClass, n: int, i: int)
    requires
        0 <= n <= all.len(),
        all.len() <= usize::MAX,
        0 <= i < places(all, c, n).len(),
    ensures
        places(all, c, n)[i] < n,
        class_of(all[places(all, c, n)[i] as int]) == Some(c),
    decreases n,
{
    if n > 0 {
        let before = places(all, c, n - 1);
        if i < before.len() {
            law_places_are_of_the_class(all, c, n - 1, i);
        }
    }
}

/// Every listener of a class is started.
pub proof fn law_every_listener_starts(all: Seq<ListenerFacts>, c: ListenerClass, n: int, at: int)
    requires
        0 <= at < n <= all.len(),
        all.len() <= usize::MAX,
        class_of(all[at]) == Some(c),
    ensures
        places(all, c, n).contains(at as usize),
    decreases n,
{
    let p = places(all, c, n);
    if at == n - 1 {
        assert(p[p.len() - 1] == at as usize);
    } else {
        law_every_listener_starts(all, c, n - 1, at);
        let before = places(all, c, n - 1);
        let i = choose|i: int| 0 <= i < before.len() && before[i] == at as usize;
        assert(p[i] == at as usize);
    }
}

/// What a listener is, by its facts: on a stream of bytes one for HTTP unless it has a proxy,
/// over TLS where it has that; on datagrams one for QUIC or else one with a proxy. All else
/// cannot be started.
pub proof fn law_listener_by_its_facts(l: ListenerFacts)
    ensures
        ({
            let stream = l.kind is TcpStream || l.kind is UnixStream;
            let c = class_of(l);
            &&& c == Some(ListenerClass::PlainHttp) <==> stream && !l.has_quic && !l.has_proxy
                && !l.has_tls
            &&& c == Some(ListenerClass::TlsHttp) <==> stream && !l.has_quic && !l.has_proxy
                && l.has_tls
            &&& c == Some(ListenerClass::PlainStream) <==> stream && !l.has_quic && l.has_proxy
                && !l.has_tls
            &&& c == Some(ListenerClass::TlsStream) <==> stream && !l.has_quic && l.has_proxy
                && l.has_tls
            &&& c == Some(ListenerClass::QuicHttp) <==> !stream && !l.has_tls && l.has_quic
                && !l.has_proxy
            &&& c == Some(ListenerClass::DgramProxy) <==> !stream && !l.has_tls && !l.has_quic
                && l.has_proxy
        }),
{
}

/// Where a listener stands in the order of the start.
pub open spec fn turn(l: ListenerFacts) -> int {
    if l.kind is TcpStream || l.kind is UnixStream {
        if l.has_proxy {
            if l.has_tls {
                4
            } else {
                0
            }
        } else if l.has_tls {
            2
        } else {
            1
        }
    } else if l.has_quic {
        3
    } else {
        5
    }
}

/// The places of a class come in the order of the list.
proof fn lemma_places(all: Seq<ListenerFacts>, c: ListenerClass, n: int)
    requires
        0 <= n <= all.len(),
        all.len() <= usize::MAX,
    ensures
        forall|i: int|
            0 <= i < places(all, c, n).len() ==> (#[trigger] places(all, c, n)[i]) < n && class_of(
                all[places(all, c, n)[i] as int],
            ) == Some(c),
        forall|i: int, j: int|
            0 <= i < j < places(all, c, n).len() ==> (#[trigger] places(all, c, n)[i])
                < #[trigger] places(all, c, n)[j],
    decreases n,
{
    if n > 0 {
        lemma_places(all, c, n - 1);
    }
}

/// Listeners start in this order: proxies of plain streams, plain HTTP, HTTP over TLS, QUIC,
/// proxies of TLS streams and proxies of datagrams; and in the order of the list where they are
/// alike. None starts twice.
pub proof fn law_order_of_the_start(all: Seq<ListenerFacts>, i: int, j: int)
    requires
        all.len() <= usize::MAX,
        0 <= i < j < start_order(all).len(),
    ensures
        ({
            let a = start_order(all)[i];
            let b = start_order(all)[j];
            &&& a < all.len() && b < all.len()
            &&& turn(all[a as int]) < turn(all[b as int]) || turn(all[a as int]) == turn(
                all[b as int],
            ) && a < b
        }),
{
    let n = all.len() as int;
    lemma_places(all, ListenerClass::PlainStream, n);
    lemma_places(all, ListenerClass::PlainHttp, n);
    lemma_places(all, ListenerClass::TlsHttp, n);
    lemma_places(all, ListenerClass::QuicHttp, n);
    lemma_places(all, ListenerClass::TlsStream, n);
    lemma_places(all, ListenerClass::DgramProxy, n);
    lemma_turn(all, i);
    lemma_turn(all, j);
}

/// An entry of the order is one of the places of its class.
proof fn lemma_turn(all: Seq<ListenerFacts>, i: int)
    requires
        all.len() <= usize::MAX,
        0 <= i < start_order(all).len(),
    ensures
        ({
            let n = all.len() as int;
            let a = places(all, ListenerClass::PlainStream, n);
            let b = places(all, ListenerClass::PlainHttp, n);
            let c = places(all, ListenerClass::TlsHttp, n);
            let d = places(all, ListenerClass::QuicHttp, n);
            let e = places(all, ListenerClass::TlsStream, n);
            let f = places(all, ListenerClass::DgramProxy, n);
            let at = start_order(all)[i];
            let t = turn(all[at as int]);
            &&& at < n
            &&& i < a.len() ==> at == a[i] && t == 0
            &&& a.len() <= i < a.len() + b.len() ==> at == b[i - a.len()] && t == 1
            &&& a.len() + b.len() <= i < a.len() + b.len() + c.len() ==> at == c[i - a.len()
                - b.len()] && t == 2
            &&& a.len() + b.len() + c.len() <= i < a.len() + b.len() + c.len() + d.len() ==> at
                == d[i - a.len() - b.len() - c.len()] && t == 3
            &&& a.len() + b.len() + c.len() + d.len() <= i < a.len() + b.len() + c.len() + d.len()
                + e.len() ==> at == e[i - a.len() - b.len() - c.len() - d.len()] && t == 4
            &&& a.len() + b.len() + c.len() + d.len() + e.len() <= i ==> at == f[i - a.len()
                - b.len() - c.len() - d.len() - e.len()] && t == 5
        }),
{
    let n = all.len() as int;
    lemma_places(all, ListenerClass::PlainStream, n);
    lemma_places(all, ListenerClass::PlainHttp, n);
    lemma_places(all, ListenerClass::TlsHttp, n);
    lemma_places(all, ListenerClass::QuicHttp, n);
    lemma_places(all, ListenerClass::TlsStream, n);
    lemma_places(all, ListenerClass::DgramProxy, n);
}

/// Every listener that can be started is in the order of the start.
pub proof fn law_all_are_started(all: Seq<ListenerFacts>, at: int)
    requires
        all.len() <= usize::MAX,
        0 <= at < all.len(),
        class_of(all[at]) is Some,
    ensures
        start_order(all).contains(at as usize),
{
    let n = all.len() as int;
    let c = class_of(all[at])->0;
    law_every_listener_starts(all, c, n, at);
    let k = choose|k: int| 0 <= k < places(all, c, n).len() && places(all, c, n)[k] == at as usize;
    let a = places(all, ListenerClass::PlainStream, n);
    let b = places(all, ListenerClass::PlainHttp, n);
    let p = places(all, ListenerClass::TlsHttp, n);
    let d = places(all, ListenerClass::QuicHttp, n);
    let e = places(all, ListenerClass::TlsStream, n);
    let front = match c {
        ListenerClass::PlainStream => 0nat,
        ListenerClass::PlainHttp => a.len(),
        ListenerClass::TlsHttp => a.len() + b.len(),
        ListenerClass::QuicHttp => a.len() + b.len() + p.len(),
        ListenerClass::TlsStream => a.len() + b.len() + p.len() + d.len(),
        ListenerClass::DgramProxy => a.len() + b.len() + p.len() + d.len() + e.len(),
    };
    assert(start_order(all)[front + k] == at as usize);
}

/// Listeners with a proxy are counted.
pub proof fn law_proxies_are_counted(all: Seq<ListenerFacts>, l: ListenerFacts)
    ensures
        proxies(Seq::empty()) == 0,
        proxies(all.push(l)) == proxies(all) + if l.has_proxy {
            1int
        } else {
            0
        },
{
    assert(all.push(l).drop_last() =~= all);
}

/// A host without protocols of its own adds nothing. One with them adds a pair for its name, and
/// behind the names of all hosts a pair for each of its aliases, unless these are expressions.
pub proof fn law_overrides_of_hosts(v: Seq<Vhost>, h: Vhost, a: HostName)
    ensures
        ({
            let n = v.len() as int;
            let w = v.push(h);
            &&& overrides(Seq::empty()).len() == 0
            &&& overrides(v) == name_overrides(v, n) + alias_overrides(v, n)
            &&& h.alpn is None ==> overrides(w) == overrides(v)
            &&& h.alpn matches Some(p) ==> {
                let own = if h.name.is_regex {
                    Seq::empty()
                } else {
                    seq![(h.name.value@, texts(p@))]
                };
                &&& name_overrides(w, n + 1) == name_overrides(v, n) + own
                &&& alias_overrides(w, n + 1) == alias_overrides(v, n) + host_aliases(
                    h,
                    h.aliases@.len() as int,
                )
            }
        }),
{
    let n = v.len() as int;
    lemma_overrides_of_front(v, v.push(h), n);
    if h.alpn is None {
        lemma_no_aliases(h, h.aliases@.len() as int);
        assert(overrides(v.push(h)) =~= overrides(v));
    }
}

/// The pairs of the first hosts depend on those alone.
proof fn lemma_overrides_of_front(v: Seq<Vhost>, w: Seq<Vhost>, n: int)
    requires
        0 <= n <= v.len() <= w.len(),
        forall|i: int| 0 <= i < v.len() ==> v[i] == w[i],
    ensures
        name_overrides(w, n) == name_overrides(v, n),
        alias_overrides(w, n) == alias_overrides(v, n),
    decreases n,
{
    if n > 0 {
        lemma_overrides_of_front(v, w, n - 1);
    }
}

proof fn lemma_no_aliases(h: Vhost, n: int)
    requires
        h.alpn is None,
    ensures
        host_aliases(h, n) == Seq::<Override>::empty(),
    decreases n,
{
    if n > 0 {
        lemma_no_aliases(h, n - 1);
    }
}

/// An alias adds a pair behind those of the aliases in front of it, unless it is an expression.
pub proof fn law_overrides_of_aliases(h: Vhost, p: Vec<String>, n: int)
    requires
        h.alpn == Some(p),
        0 <= n < h.aliases@.len(),
    ensures
        host_aliases(h, 0).len() == 0,
        h.aliases@[n].is_regex ==> host_aliases(h, n + 1) == host_aliases(h, n),
        !h.aliases@[n].is_regex ==> host_aliases(h, n + 1) == host_aliases(h, n).push(
            (h.aliases@[n].value@, texts(p@)),
        ),
{
}

/// Overrides, by value.
pub proof fn law_overrides_by_value(v: Seq<(String, Vec<String>)>, i: int)
    ensures
        override_views(v).len() == v.len(),
        0 <= i < v.len() ==> override_views(v)[i] == (v[i].0@, texts(v[i].1@)),
{
}

/// A server that stops waits half a minute, whatever it was told; one that was replaced as long
/// as it was told, and forever where that is zero.
pub proof fn law_wait_at_the_end(graceful: u32)
    ensures
        drain_of(false, graceful) == Some(30u64),
        drain_of(true, graceful) is None <==> graceful == 0,
        graceful > 0 ==> drain_of(true, graceful)->0 == graceful,
{
}

} // verus!
