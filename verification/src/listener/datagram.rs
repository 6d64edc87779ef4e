//! Datagram proxies: one flow per client, each with an upstream socket of its
//! own, dropped when it has been idle for too long.
use crate::ip::{IpAddr, IpView, SocketAddr};
use crate::listener::socket::{AddrLocation, BoundAddr, SocketKind};
use crate::metrics::Metrics;
use crate::path::{path_in, same_path, PathView};
use crate::proxy_proto::{plain_addr, AddrView};
use crate::strmap::{
    kept_by, keys_distinct, lemma_pairs_map, lemma_push_pair, lemma_remove_pair,
    lemma_update_pair, pairs_map,
};
use vstd::prelude::*;

verus! {

/// How long a flow may be idle, in seconds, where nothing else is set up.
pub const DEFAULT_FLOW_IDLE_SECS: u64 = 30;

/// The most bytes of a datagram that is forwarded.
pub const MAX_DATAGRAM_BYTES: usize = 65_535;

/// The client of a flow.
pub enum ClientKey {
    Udp(SocketAddr),
    /// The path that a Unix socket is bound to, as its bytes.
    UnixPath(Vec<u8>),
}

/// The client of a flow, by value.
pub enum ClientView {
    Udp(AddrView),
    UnixPath(PathView),
}

impl View for ClientKey {
    type V = ClientView;

    open spec fn view(&self) -> ClientView {
        match self {
            ClientKey::Udp(a) => ClientView::Udp(a@),
            ClientKey::UnixPath(p) => ClientView::UnixPath(path_in(p@)),
        }
    }
}

fn same_ip(a: &IpAddr, b: &IpAddr) -> (r: bool)
    ensures
        r == (a@ == b@),
{
    match (a, b) {
        (IpAddr::V4(x), IpAddr::V4(y)) => {
            let same = x[0] == y[0] && x[1] == y[1] && x[2] == y[2] && x[3] == y[3];
            assert(same ==> x@ =~= y@);
            same
        },
        (IpAddr::V6(x), IpAddr::V6(y)) => {
            let same = x[0] == y[0] && x[1] == y[1] && x[2] == y[2] && x[3] == y[3] && x[4] == y[4]
                && x[5] == y[5] && x[6] == y[6] && x[7] == y[7];
            assert(same ==> x@ =~= y@);
            same
        },
        _ => false,
    }
}

impl ClientKey {
    /// Whether two keys stand for the same client.
    pub fn same(&self, other: &ClientKey) -> (r: bool)
        ensures
            r == (self@ == other@),
    {
        match (self, other) {
            (ClientKey::Udp(a), ClientKey::Udp(b)) => same_ip(&a.ip, &b.ip) && a.port == b.port
                && a.flowinfo == b.flowinfo && a.scope_id == b.scope_id,
            (ClientKey::UnixPath(a), ClientKey::UnixPath(b)) => same_path(a.as_slice(), b.as_slice()),
            _ => false,
        }
    }
}

/// A flow: the number of its upstream socket, and the moment it was last used,
/// in nanoseconds.
#[derive(Clone, Copy, Debug, PartialEq, Eq, Structural)]
pub struct Flow {
    pub upstream: u64,
    pub last_seen: u64,
}

/// The flows of a listener.
pub struct FlowTable {
    flows: Vec<(ClientKey, Flow)>,
    idle_timeout: u64,
}

/// The flows as pairs, by value.
pub open spec fn flow_pairs(v: Seq<(ClientKey, Flow)>) -> Seq<(ClientView, Flow)> {
    Seq::new(v.len(), |i: int| (v[i].0@, v[i].1))
}

impl View for FlowTable {
    type V = Map<ClientView, Flow>;

    open spec fn view(&self) -> Map<ClientView, Flow> {
        pairs_map(self.pairs())
    }
}

/// Whether a flow has been idle for too long.
pub open spec fn is_idle(f: Flow, now: u64, timeout: u64) -> bool {
    now.saturating_sub(f.last_seen) >= timeout
}

/// The flows that have not been idle for too long.
pub open spec fn fresh_flows(m: Map<ClientView, Flow>, now: u64, timeout: u64) -> Map<
    ClientView,
    Flow,
> {
    kept_by(m, |f: Flow| !is_idle(f, now, timeout))
}

/// What a sweep adds to the counters: `before` flows and `after` of them left.
pub open spec fn sweep_counted(m: Metrics, before: nat, after: nat) -> Metrics {
    if before == after {
        m
    } else {
        Metrics {
            datagram_flows_active: after as u64,
            datagram_flow_evict_total: m.datagram_flow_evict_total.wrapping_add(
                (before - after) as u64,
            ),
            ..m
        }
    }
}

/// What opening a flow adds to the counters.
pub open spec fn flow_counted(m: Metrics, live: nat) -> Metrics {
    Metrics {
        datagram_flows_active: live as u64,
        datagram_flow_create_total: m.datagram_flow_create_total.wrapping_add(1),
        ..m
    }
}

impl FlowTable {
    /// The flows, by value.
    pub closed spec fn pairs(&self) -> Seq<(ClientView, Flow)> {
        flow_pairs(self.flows@)
    }

    /// How long a flow may be idle, in nanoseconds.
    pub closed spec fn timeout(&self) -> u64 {
        self.idle_timeout
    }

    #[verifier::type_invariant]
    spec fn wf(self) -> bool {
        keys_distinct(flow_pairs(self.flows@))
    }

    /// A table without flows.
    pub fn new(idle_timeout: u64) -> (r: FlowTable)
        ensures
            r@ == Map::<ClientView, Flow>::empty(),
            r.timeout() == idle_timeout,
    {
        let r = FlowTable { flows: Vec::new(), idle_timeout };
        assert(r.pairs().len() == 0);
        r
    }

    /// The number of flows.
    pub fn len(&self) -> (r: usize)
        ensures
            r == self@.dom().len(),
            self@.dom().finite(),
    {
        proof {
            use_type_invariant(self);
            lemma_pairs_map(self.pairs());
        }
        self.flows.len()
    }

    fn position(&self, key: &ClientKey) -> (r: Option<usize>)
        ensures
            match r {
                Some(i) => i < self.pairs().len() && self.pairs()[i as int].0 == key@
                    && self@.dom().contains(key@) && self@[key@] == self.pairs()[i as int].1,
                None => !self@.dom().contains(key@),
            },
    {
        proof {
            use_type_invariant(self);
            lemma_pairs_map(self.pairs());
        }
        let n: usize = self.flows.len();
        let mut i: usize = 0;
        while i < n
            invariant
                n == self.flows@.len(),
                i <= n,
                keys_distinct(self.pairs()),
                forall|j: int| 0 <= j < i ==> (#[trigger] self.pairs()[j]).0 != key@,
            decreases n - i,
        {
            if self.flows[i].0.same(key) {
                proof {
                    lemma_pairs_map(self.pairs());
                    assert(self.pairs()[i as int].0 == key@);
                }
                return Some(i);
            }
            i = i + 1;
        }
        None
    }

    /// The flow of a client.
    pub fn get(&self, key: &ClientKey) -> (r: Option<Flow>)
        ensures
            match r {
                Some(f) => self@.dom().contains(key@) && self@[key@] == f,
                None => !self@.dom().contains(key@),
            },
    {
        match self.position(key) {
            Some(i) => Some(self.flows[i].1),
            None => None,
        }
    }

    /// Opens a flow for a client with an upstream socket at hand, unless it has
    /// one by now: the flow, and whether it is new.
    pub fn open(&mut self, key: ClientKey, upstream: u64, now: u64, metrics: &mut Metrics) -> (r: (
        Flow,
        bool,
    ))
        ensures
            r.1 == !old(self)@.dom().contains(key@),
            r.1 ==> {
                &&& r.0 == (Flow { upstream, last_seen: now })
                &&& final(self)@ == old(self)@.insert(key@, r.0)
                &&& *final(metrics) == flow_counted(*old(metrics), final(self)@.dom().len())
            },
            !r.1 ==> {
                &&& r.0 == old(self)@[key@]
                &&& final(self)@ == old(self)@
                &&& *final(metrics) == *old(metrics)
            },
            final(self).timeout() == old(self).timeout(),
    {
        match self.position(&key) {
            Some(i) => {
                return (self.flows[i].1, false);
            },
            None => {},
        }
        let flow = Flow { upstream, last_seen: now };
        let ghost p0 = self.pairs();
        proof {
            use_type_invariant(&*self);
            lemma_push_pair(p0, key@, flow);
        }
        let mut v: Vec<(ClientKey, Flow)> = Vec::new();
        core::mem::swap(&mut v, &mut self.flows);
        v.push((key, flow));
        assert(flow_pairs(v@) =~= p0.push((key@, flow)));
        self.flows = v;
        assert(self.pairs() == p0.push((key@, flow)));
        let live: usize = self.len();
        metrics.datagram_flows_active = live as u64;
        metrics.datagram_flow_create_total = metrics.datagram_flow_create_total.wrapping_add(1);
        (flow, true)
    }

    /// Notes that the flow of a client was used.
    pub fn touch(&mut self, key: &ClientKey, now: u64)
        ensures
            final(self)@ == if old(self)@.dom().contains(key@) {
                old(self)@.insert(key@, Flow { last_seen: now, ..old(self)@[key@] })
            } else {
                old(self)@
            },
            final(self).timeout() == old(self).timeout(),
    {
        match self.position(key) {
            Some(i) => {
                let ghost p0 = self.pairs();
                let flow = Flow { upstream: self.flows[i].1.upstream, last_seen: now };
                proof {
                    use_type_invariant(&*self);
                    lemma_update_pair(p0, i as int, flow);
                }
                let mut v: Vec<(ClientKey, Flow)> = Vec::new();
                core::mem::swap(&mut v, &mut self.flows);
                let (k, _) = v.remove(i);
                v.insert(i, (k, flow));
                assert(flow_pairs(v@) =~= p0.update(i as int, (p0[i as int].0, flow)));
                self.flows = v;
                assert(self.pairs() == p0.update(i as int, (p0[i as int].0, flow)));
            },
            None => {},
        }
    }

    fn remove_at(&mut self, i: usize)
        requires
            i < old(self).pairs().len(),
        ensures
            final(self).pairs() == old(self).pairs().remove(i as int),
            final(self)@ == old(self)@.remove(old(self).pairs()[i as int].0),
            final(self).timeout() == old(self).timeout(),
    {
        let ghost p0 = self.pairs();
        proof {
            use_type_invariant(&*self);
            lemma_remove_pair(p0, i as int);
        }
        let mut v: Vec<(ClientKey, Flow)> = Vec::new();
        core::mem::swap(&mut v, &mut self.flows);
        let _gone = v.remove(i);
        assert(flow_pairs(v@) =~= p0.remove(i as int));
        self.flows = v;
        assert(self.pairs() == p0.remove(i as int));
    }

    /// Closes the flow of a client whose upstream has nothing more to say.
    pub fn close(&mut self, key: &ClientKey, metrics: &mut Metrics)
        ensures
            final(self)@ == old(self)@.remove(key@),
            *final(metrics) == (Metrics {
                datagram_flows_active: final(self)@.dom().len() as u64,
                ..*old(metrics)
            }),
            final(self).timeout() == old(self).timeout(),
    {
        match self.position(key) {
            Some(i) => {
                self.remove_at(i);
            },
            None => {
                assert(self@.remove(key@) =~= self@);
            },
        }
        let live: usize = self.len();
        metrics.datagram_flows_active = live as u64;
    }

    /// Closes the flows that have been idle for too long.
    pub fn evict_idle(&mut self, now: u64, metrics: &mut Metrics)
        ensures
            final(self)@ == fresh_flows(old(self)@, now, old(self).timeout()),
            *final(metrics) == sweep_counted(
                *old(metrics),
                old(self)@.dom().len(),
                final(self)@.dom().len(),
            ),
            final(self).timeout() == old(self).timeout(),
    {
        let before: usize = self.len();
        let timeout: u64 = self.idle_timeout;
        let ghost m0 = self@;
        let ghost p0 = self.pairs();
        let mut i: usize = self.flows.len();
        proof {
            use_type_invariant(&*self);
            lemma_pairs_map(p0);
        }
        while i > 0
            invariant
                i <= self.pairs().len(),
                timeout == self.timeout(),
                timeout == old(self).timeout(),
                keys_distinct(p0),
                m0 == pairs_map(p0),
                i <= p0.len(),
                forall|j: int| 0 <= j < i ==> #[trigger] self.pairs()[j] == p0[j],
                forall|j: int|
                    i <= j < self.pairs().len() ==> !is_idle(
                        (#[trigger] self.pairs()[j]).1,
                        now,
                        timeout,
                    ),
                forall|k: ClientView| #[trigger]
                    self@.dom().contains(k) ==> m0.dom().contains(k) && self@[k] == m0[k],
                forall|k: ClientView|
                    m0.dom().contains(k) && !(#[trigger] self@.dom().contains(k)) ==> is_idle(
                        m0[k],
                        now,
                        timeout,
                    ),
            decreases i,
        {
            i = i - 1;
            let ghost pb = self.pairs();
            let ghost mb = self@;
            assert(pb[i as int] == p0[i as int]);
            let last: u64 = self.flows[i].1.last_seen;
            if now.saturating_sub(last) >= timeout {
                proof {
                    lemma_pairs_map(p0);
                }
                self.remove_at(i);
                assert forall|j: int| i <= j < self.pairs().len() implies !is_idle(
                    (#[trigger] self.pairs()[j]).1,
                    now,
                    timeout,
                ) by {
                    assert(self.pairs()[j] == pb[j + 1]);
                }
                assert forall|k: ClientView|
                    m0.dom().contains(k) && !(#[trigger] self@.dom().contains(k)) implies is_idle(
                    m0[k],
                    now,
                    timeout,
                ) by {
                    if k == p0[i as int].0 {
                        assert(m0[k] == p0[i as int].1);
                    } else {
                        assert(!mb.dom().contains(k));
                    }
                }
            }
        }
        proof {
            use_type_invariant(&*self);
            let p1 = self.pairs();
            lemma_pairs_map(p1);
            let want = fresh_flows(m0, now, timeout);
            assert forall|k: ClientView|
                self@.dom().contains(k) <==> #[trigger] want.dom().contains(k) by {
                if self@.dom().contains(k) {
                    let j = choose|j: int| 0 <= j < p1.len() && p1[j].0 == k;
                    assert(!is_idle(p1[j].1, now, timeout));
                }
            }
            assert(self@ =~= want);
            vstd::set_lib::lemma_len_subset(self@.dom(), m0.dom());
        }
        let after: usize = self.len();
        if before != after {
            metrics.datagram_flows_active = after as u64;
            metrics.datagram_flow_evict_total = metrics.datagram_flow_evict_total.wrapping_add(
                (before - after) as u64,
            );
        }
    }
}

/// The time that a flow may be idle, in nanoseconds.
pub open spec fn idle_of(secs: Option<u64>) -> int {
    match secs {
        Some(s) => s * 1_000_000_000,
        None => 30_000_000_000,
    }
}

/// How long a flow may be idle, in nanoseconds, under a set-up in seconds.
pub fn flow_idle_nanos(secs: Option<u64>) -> (r: u128)
    ensures
        r == match secs {
            Some(s) => s * 1_000_000_000,
            None => 30_000_000_000,
        },
        r == idle_of(secs),
{
    let s: u64 = match secs {
        Some(s) => s,
        None => DEFAULT_FLOW_IDLE_SECS,
    };
    s as u128 * 1_000_000_000
}

// -- Counting datagrams ----------------------------------------------

/// What a datagram of a client adds to the counters.
pub open spec fn inbound_counted(m: Metrics, n: u64) -> Metrics {
    Metrics {
        datagrams_in_total: m.datagrams_in_total.wrapping_add(1),
        bytes_in_total: m.bytes_in_total.wrapping_add(n),
        ..m
    }
}

/// What a datagram towards the upstream adds to the counters, sent or not.
pub open spec fn forwarded_counted(m: Metrics, n: u64) -> Metrics {
    Metrics {
        datagrams_out_total: m.datagrams_out_total.wrapping_add(1),
        bytes_out_total: m.bytes_out_total.wrapping_add(n),
        ..m
    }
}

/// What a datagram back to the client adds to the counters.
pub open spec fn reply_counted(m: Metrics, n: u64) -> Metrics {
    Metrics { bytes_out_total: m.bytes_out_total.wrapping_add(n), ..m }
}

/// Counts a datagram of a client.
pub fn record_inbound(metrics: &mut Metrics, n: u64)
    ensures
        *final(metrics) == inbound_counted(*old(metrics), n),
{
    metrics.datagrams_in_total = metrics.datagrams_in_total.wrapping_add(1);
    metrics.bytes_in_total = metrics.bytes_in_total.wrapping_add(n);
}

/// Counts a datagram towards the upstream.
pub fn record_forwarded(metrics: &mut Metrics, n: u64)
    ensures
        *final(metrics) == forwarded_counted(*old(metrics), n),
{
    metrics.datagrams_out_total = metrics.datagrams_out_total.wrapping_add(1);
    metrics.bytes_out_total = metrics.bytes_out_total.wrapping_add(n);
}

/// Counts a datagram back to the client.
pub fn record_reply(metrics: &mut Metrics, n: u64)
    ensures
        *final(metrics) == reply_counted(*old(metrics), n),
{
    metrics.bytes_out_total = metrics.bytes_out_total.wrapping_add(n);
}

/// Counts a connection of its own, which counts as a flow.
pub fn record_conn_open(metrics: &mut Metrics)
    ensures
        *final(metrics) == (Metrics {
            datagram_flow_create_total: old(metrics).datagram_flow_create_total.wrapping_add(1),
            datagram_flows_active: old(metrics).datagram_flows_active.wrapping_add(1),
            ..*old(metrics)
        }),
{
    metrics.datagram_flow_create_total = metrics.datagram_flow_create_total.wrapping_add(1);
    metrics.datagram_flows_active = metrics.datagram_flows_active.wrapping_add(1);
}

/// Counts the end of a connection of its own.
pub fn record_conn_close(metrics: &mut Metrics)
    ensures
        *final(metrics) == (Metrics {
            datagram_flows_active: old(metrics).datagram_flows_active.wrapping_sub(1),
            ..*old(metrics)
        }),
{
    metrics.datagram_flows_active = metrics.datagram_flows_active.wrapping_sub(1);
}

/// What a datagram of a client does once its flow is there: the flow is used,
/// and the datagram is counted on its way in and on its way out.
pub fn forward_in(
    table: &mut FlowTable,
    key: &ClientKey,
    n: u64,
    now: u64,
    metrics: &mut Metrics,
)
    ensures
        final(table)@ == if old(table)@.dom().contains(key@) {
            old(table)@.insert(key@, Flow { last_seen: now, ..old(table)@[key@] })
        } else {
            old(table)@
        },
        *final(metrics) == forwarded_counted(inbound_counted(*old(metrics), n), n),
        final(table).timeout() == old(table).timeout(),
{
    table.touch(key, now);
    record_inbound(metrics, n);
    record_forwarded(metrics, n);
}

// -- Sockets ---------------------------------------------------------

/// How a datagram proxy reads from its listener.
#[derive(Clone, Copy, Debug, PartialEq, Eq, Structural)]
pub enum DgramListener {
    Udp,
    UnixDgram,
    /// Connections, each of which carries messages.
    UnixSeqpacket,
}

/// The way to read from a kind of socket.
pub open spec fn reader_of(kind: SocketKind) -> Option<DgramListener> {
    match kind {
        SocketKind::UdpDgram => Some(DgramListener::Udp),
        SocketKind::UnixDgram => Some(DgramListener::UnixDgram),
        SocketKind::UnixSeqpacket => Some(DgramListener::UnixSeqpacket),
        _ => None,
    }
}

/// How a datagram proxy reads from a kind of socket: byte streams are not
/// supported.
pub fn dgram_listener(kind: SocketKind) -> (r: Option<DgramListener>)
    ensures
        r == match kind {
            SocketKind::UdpDgram => Some(DgramListener::Udp),
            SocketKind::UnixDgram => Some(DgramListener::UnixDgram),
            SocketKind::UnixSeqpacket => Some(DgramListener::UnixSeqpacket),
            _ => None,
        },
        r == reader_of(kind),
{
    match kind {
        SocketKind::UdpDgram => Some(DgramListener::Udp),
        SocketKind::UnixDgram => Some(DgramListener::UnixDgram),
        SocketKind::UnixSeqpacket => Some(DgramListener::UnixSeqpacket),
        _ => None,
    }
}

/// Where a datagram proxy sends to.
pub enum DgramUpstream {
    /// An address, from a local address of the same family.
    Udp { to: SocketAddr, from: SocketAddr },
    UnixDgram(Vec<u8>),
    UnixSeqpacket(Vec<u8>),
}

/// The address of a family that stands for any, with any port.
pub open spec fn any_address(ip: IpView) -> AddrView {
    plain_addr(
        match ip {
            IpView::V4(_) => IpView::V4(seq![0u8, 0, 0, 0]),
            IpView::V6(_) => IpView::V6(seq![0u16, 0, 0, 0, 0, 0, 0, 0]),
        },
        0,
    )
}

/// The address of the same family that stands for any, with any port.
pub fn unspecified_for(addr: &SocketAddr) -> (r: SocketAddr)
    ensures
        r@ == any_address(addr.ip@),
{
    match addr.ip {
        IpAddr::V4(_) => {
            let r = SocketAddr::new(IpAddr::V4([0, 0, 0, 0]), 0);
            assert(r@.ip->V4_0 =~= seq![0u8, 0, 0, 0]);
            r
        },
        IpAddr::V6(_) => {
            let r = SocketAddr::new(IpAddr::V6([0, 0, 0, 0, 0, 0, 0, 0]), 0);
            assert(r@.ip->V6_0 =~= seq![0u16, 0, 0, 0, 0, 0, 0, 0]);
            r
        },
    }
}

/// Says where a datagram proxy sends to: an address over UDP, or a path over a
/// Unix socket that carries messages. Other upstreams are not supported.
pub fn build_upstream(a: BoundAddr) -> (r: Option<DgramUpstream>)
    ensures
        match r {
            Some(DgramUpstream::Udp { to, from }) => a.kind is UdpDgram && a.location
                == AddrLocation::Inet(to) && from@ == any_address(to.ip@),
            Some(DgramUpstream::UnixDgram(p)) => a.kind is UnixDgram && a.location
                == AddrLocation::Unix(p),
            Some(DgramUpstream::UnixSeqpacket(p)) => a.kind is UnixSeqpacket && a.location
                == AddrLocation::Unix(p),
            None => match (a.kind, a.location) {
                (SocketKind::UdpDgram, AddrLocation::Inet(_)) => false,
                (SocketKind::UnixDgram, AddrLocation::Unix(_)) => false,
                (SocketKind::UnixSeqpacket, AddrLocation::Unix(_)) => false,
                _ => true,
            },
        },
{
    match (a.kind, a.location) {
        (SocketKind::UdpDgram, AddrLocation::Inet(to)) => {
            let from = unspecified_for(&to);
            Some(DgramUpstream::Udp { to, from })
        },
        (SocketKind::UnixDgram, AddrLocation::Unix(p)) => Some(DgramUpstream::UnixDgram(p)),
        (SocketKind::UnixSeqpacket, AddrLocation::Unix(p)) => Some(
            DgramUpstream::UnixSeqpacket(p),
        ),
        _ => None,
    }
}

/// What happens in the loop of a datagram listener.
pub enum DgramEvent {
    /// A datagram is there; a client on a Unix socket may have no name.
    Received(Option<ClientKey>),
    /// Receiving failed.
    Failed,
    /// The shutdown signal has changed.
    Shutdown,
    /// The signal to stop this listener has changed to this.
    Stop(bool),
}

/// What is done about it.
pub enum DgramAction {
    /// Send the datagram on, in the flow of its client.
    Forward(ClientKey),
    Continue,
    /// Receive no more.
    Stop,
}

/// The answer to an event of the loop.
pub open spec fn step_of(e: DgramEvent) -> DgramAction {
    match e {
        DgramEvent::Received(Some(key)) => DgramAction::Forward(key),
        DgramEvent::Shutdown => DgramAction::Stop,
        DgramEvent::Stop(true) => DgramAction::Stop,
        _ => DgramAction::Continue,
    }
}

/// Says what is done about an event of the loop of a datagram listener. Nothing
/// could be sent back to a client without a name, so what it sends is dropped.
pub fn dgram_step(e: DgramEvent) -> (r: DgramAction)
    ensures
        r == match e {
            DgramEvent::Received(Some(key)) => DgramAction::Forward(key),
            DgramEvent::Received(None) => DgramAction::Continue,
            DgramEvent::Failed => DgramAction::Continue,
            DgramEvent::Shutdown => DgramAction::Stop,
            DgramEvent::Stop(on) => if on {
                DgramAction::Stop
            } else {
                DgramAction::Continue
            },
        },
        r == step_of(e),
{
    match e {
        DgramEvent::Received(Some(key)) => DgramAction::Forward(key),
        DgramEvent::Received(None) => DgramAction::Continue,
        DgramEvent::Failed => DgramAction::Continue,
        DgramEvent::Shutdown => DgramAction::Stop,
        DgramEvent::Stop(on) => {
            if on {
                DgramAction::Stop
            } else {
                DgramAction::Continue
            }
        },
    }
}

/// What comes from an upstream.
#[derive(Clone, Copy, Debug, PartialEq, Eq, Structural)]
pub enum UpstreamEvent {
    /// A message of so many bytes.
    Message(u64),
    Failed,
}

/// The replies of an upstream go on behind this.
pub open spec fn goes_on(connected: bool, e: UpstreamEvent) -> bool {
    e matches UpstreamEvent::Message(n) && (n > 0 || !connected)
}

/// Whether the replies of an upstream go on. An empty message ends a connection
/// that carries messages, and is an ordinary datagram elsewhere.
pub fn reply_goes_on(connected: bool, e: UpstreamEvent) -> (r: bool)
    ensures
        r == match e {
            UpstreamEvent::Message(n) => !(connected && n == 0),
            UpstreamEvent::Failed => false,
        },
        r == goes_on(connected, e),
{
    match e {
        UpstreamEvent::Message(n) => !(connected && n == 0),
        UpstreamEvent::Failed => false,
    }
}

// -- Laws ------------------------------------------------------------

/// A flow that was just used is not closed for being idle, unless flows may not
/// be idle at all.
pub proof fn law_used_flow_is_kept(m: Map<ClientView, Flow>, k: ClientView, now: u64, timeout: u64)
    requires
        timeout > 0,
        m.dom().contains(k),
    ensures
        fresh_flows(m.insert(k, Flow { last_seen: now, ..m[k] }), now, timeout).dom().contains(k),
{
}

/// A sweep closes exactly the flows that have been idle for too long.
pub proof fn law_sweep_closes_idle_flows(
    m: Map<ClientView, Flow>,
    k: ClientView,
    now: u64,
    timeout: u64,
)
    requires
        m.dom().contains(k),
    ensures
        fresh_flows(m, now, timeout).dom().contains(k) <==> !is_idle(m[k], now, timeout),
        !is_idle(m[k], now, timeout) ==> fresh_flows(m, now, timeout)[k] == m[k],
{
}

/// A second sweep at the same moment closes nothing.
pub proof fn law_second_sweep_is_idle(m: Map<ClientView, Flow>, now: u64, timeout: u64)
    ensures
        fresh_flows(fresh_flows(m, now, timeout), now, timeout) == fresh_flows(m, now, timeout),
{
    assert(fresh_flows(fresh_flows(m, now, timeout), now, timeout) =~= fresh_flows(
        m,
        now,
        timeout,
    ));
}

/// A sweep keeps a flow that was used less than the timeout ago and closes one that was not,
/// by the clock. What it keeps it leaves as it was.
pub proof fn law_sweep_goes_by_the_clock(
    m: Map<ClientView, Flow>,
    k: ClientView,
    now: u64,
    timeout: u64,
)
    requires
        timeout > 0,
    ensures
        fresh_flows(m, now, timeout).dom().contains(k) <==> m.dom().contains(k) && now
            < m[k].last_seen + timeout,
        fresh_flows(m, now, timeout).dom().contains(k) ==> fresh_flows(m, now, timeout)[k] == m[k],
        !fresh_flows(m, now, 0).dom().contains(k),
{
}

/// A sweep that closed flows is counted: how many are left, and how many more were closed.
/// One that closed none changes no counter.
pub proof fn law_sweep_is_counted(m: Metrics, before: nat, closed: nat)
    requires
        closed <= before <= u64::MAX,
    ensures
        ({
            let left = (before - closed) as nat;
            let n = sweep_counted(m, before, left);
            if closed == 0 {
                n == m
            } else {
                &&& n.datagram_flows_active as int == before - closed
                &&& n.datagram_flow_evict_total == m.datagram_flow_evict_total.wrapping_add(
                    closed as u64,
                )
                &&& n == (Metrics {
                    datagram_flows_active: n.datagram_flows_active,
                    datagram_flow_evict_total: n.datagram_flow_evict_total,
                    ..m
                })
            }
        }),
{
}

/// Two clients over UDP are one if and only if address, port, flow label and scope are the
/// same, two clients on Unix sockets if and only if their paths are, and a client over UDP
/// is never one on a Unix socket.
pub proof fn law_clients_are_told_apart(a: SocketAddr, b: SocketAddr, p: Vec<u8>, q: Vec<u8>)
    ensures
        ClientKey::Udp(a)@ == ClientKey::Udp(b)@ <==> a.ip@ == b.ip@ && a.port == b.port
            && a.flowinfo == b.flowinfo && a.scope_id == b.scope_id,
        ClientKey::UnixPath(p)@ == ClientKey::UnixPath(q)@ <==> path_in(p@) == path_in(q@),
        ClientKey::Udp(a)@ != ClientKey::UnixPath(p)@,
{
}

/// What is counted of datagrams: one that comes in with its bytes, one that is sent on with
/// its bytes, the bytes of a reply, and a new flow among those that are open.
pub proof fn law_datagrams_are_counted(m: Metrics, n: u64, live: nat)
    requires
        live <= u64::MAX,
    ensures
        inbound_counted(m, n) == (Metrics {
            datagrams_in_total: m.datagrams_in_total.wrapping_add(1),
            bytes_in_total: m.bytes_in_total.wrapping_add(n),
            ..m
        }),
        forwarded_counted(m, n) == (Metrics {
            datagrams_out_total: m.datagrams_out_total.wrapping_add(1),
            bytes_out_total: m.bytes_out_total.wrapping_add(n),
            ..m
        }),
        reply_counted(m, n) == (Metrics { bytes_out_total: m.bytes_out_total.wrapping_add(n), ..m }),
        flow_counted(m, live).datagram_flows_active == live,
        flow_counted(m, live) == (Metrics {
            datagram_flows_active: flow_counted(m, live).datagram_flows_active,
            datagram_flow_create_total: m.datagram_flow_create_total.wrapping_add(1),
            ..m
        }),
{
}

/// The address to send from is the one that stands for any address of the upstream's family,
/// on a port that the system picks.
pub proof fn law_any_address_is_of_the_family(ip: IpView)
    ensures
        any_address(ip).port == 0,
        any_address(ip).flowinfo == 0,
        any_address(ip).scope_id == 0,
        any_address(ip).ip is V4 == ip is V4,
        any_address(ip).ip matches IpView::V4(o) ==> o.len() == 4 && forall|i: int|
            0 <= i < 4 ==> #[trigger] o[i] == 0,
        any_address(ip).ip matches IpView::V6(s) ==> s.len() == 8 && forall|i: int|
            0 <= i < 8 ==> #[trigger] s[i] == 0,
{
}

/// A flow may be idle for as many seconds as are set, and for thirty where none are.
pub proof fn law_idle_time(s: u64)
    ensures
        idle_of(Some(s)) == s * 1_000_000_000,
        idle_of(None) == 30 * 1_000_000_000,
        idle_of(None) == idle_of(Some(30)),
{
}

/// A datagram of a client with a name goes on in its flow. The loop ends at a shutdown and at a
/// signal to stop, and at nothing else.
pub proof fn law_events_of_the_loop(e: DgramEvent, k: ClientKey)
    ensures
        step_of(e) == DgramAction::Forward(k) <==> e == DgramEvent::Received(Some(k)),
        step_of(e) is Stop <==> e is Shutdown || e == DgramEvent::Stop(true),
        step_of(e) is Continue <==> e is Failed || e == DgramEvent::Stop(false) || e
            == DgramEvent::Received(None),
{
}

/// Replies end when the upstream fails, and at an empty message of a connection.
pub proof fn law_replies_go_on(connected: bool, n: u64, kind: SocketKind)
    ensures
        !goes_on(connected, UpstreamEvent::Failed),
        goes_on(false, UpstreamEvent::Message(n)),
        goes_on(true, UpstreamEvent::Message(n)) <==> n > 0,
        reader_of(kind) is None <==> kind is TcpStream || kind is UnixStream,
        reader_of(kind) == Some(DgramListener::Udp) <==> kind is UdpDgram,
        reader_of(kind) == Some(DgramListener::UnixDgram) <==> kind is UnixDgram,
        reader_of(kind) == Some(DgramListener::UnixSeqpacket) <==> kind is UnixSeqpacket,
{
}

} // verus!
