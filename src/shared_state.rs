//! State shared by the forwarding tasks: the advertised port, the NW2
//! destination, the beacon slot, the liveness ticks, the per-route data
//! queues and task handles, and the tasks waiting to be aborted.
//!
//! Every operation is stated as a transition of `StateView`, the abstract
//! value of a `SharedState`.
use vstd::prelude::*;
use vstd::string::StringExecFns;
use std::collections::VecDeque;
use crate::addr::{IpAddress, ip_text, dec_text, number_text};
use crate::cli::Config;

verus! {

/// Tokio's handle of a spawned task; opaque here, only carried and handed out.
#[verifier::external_type_specification]
#[verifier::external_body]
#[verifier::reject_recursive_types(T)]
pub struct ExJoinHandle<T>(tokio::task::JoinHandle<T>);

/// Tokio's error for a task that did not complete; named by the output type
/// of a `JoinHandle` and never inspected here.
#[verifier::external_type_specification]
#[verifier::external_body]
pub struct ExJoinError(tokio::task::JoinError);

/// Number of networks bridged.
pub const TOTAL_NUM_NW: usize = 2;

/// Emit cycles without a beacon after which a network counts as lost.
pub const UDP_CONN_MAX_TICK: u8 = 3;

/// Size of a Pinecone beacon payload.
pub const UDP_PINECONE_PAYLOAD_SIZE: usize = 34;

/// Network id.
#[derive(Clone, Copy, Debug, PartialEq, Eq, Hash, Structural)]
pub enum NwId {
    /// Network id 1: where beacons are relayed and connections accepted.
    One,
    /// Network id 2: where beacons are learnt and connections opened.
    Two,
}

impl NwId {
    /// Zero-based index of the network.
    pub open spec fn idx(self) -> int {
        match self {
            NwId::One => 0,
            NwId::Two => 1,
        }
    }

    pub fn index(self) -> (r: usize)
        ensures
            r as int == self.idx(),
    {
        match self {
            NwId::One => 0,
            NwId::Two => 1,
        }
    }

    /// The network with a zero-based index.
    pub fn from_index(value: usize) -> (r: NwId)
        requires
            value < TOTAL_NUM_NW,
        ensures
            r.idx() == value,
    {
        if value == 0 {
            NwId::One
        } else {
            NwId::Two
        }
    }
}

/// Key of a forwarded connection: the NW1 peer's address and source port,
/// and the source port used on NW2.
#[derive(Clone, Copy, Debug, PartialEq, Eq, Hash, Structural)]
pub struct PortIpPort {
    pub nw_one_ip: IpAddress,
    pub nw_one_src_port: u16,
    pub nw_two_src_port: u16,
}

/// Handle of one task of a route, if it was started.
pub type TaskHandle = Option<tokio::task::JoinHandle<()>>;

/// The five tasks of one forwarded connection.
pub struct TcpFwdRouteTask {
    pub server_wr: TaskHandle,
    pub server_rd: TaskHandle,
    pub fwd_process_handle: TaskHandle,
    pub client_wr: TaskHandle,
    pub client_rd: TaskHandle,
}

/// The queue of byte buffers of one route.
struct TcpData {
    dataq: VecDeque<Vec<u8>>,
    is_connected: bool,
}

/// Abstract value of a route's queue.
pub struct DataQueue {
    pub queue: Seq<Vec<u8>>,
    pub connected: bool,
}

// ----- tables keyed by route -----

/// Whether some entry of `s` has key `k`.
pub open spec fn has_key<V>(s: Seq<(PortIpPort, V)>, k: PortIpPort) -> bool {
    exists|i: int| 0 <= i < s.len() && s[i].0 == k
}

/// No key occurs twice in `s`.
pub open spec fn keys_unique<V>(s: Seq<(PortIpPort, V)>) -> bool {
    forall|i: int, j: int| 0 <= i < s.len() && 0 <= j < s.len() && s[i].0 == s[j].0 ==> i == j
}

/// Position of the entry with key `k`.
pub open spec fn key_index<V>(s: Seq<(PortIpPort, V)>, k: PortIpPort) -> int
    recommends
        has_key(s, k),
{
    choose|i: int| 0 <= i < s.len() && s[i].0 == k
}

proof fn lemma_key_index<V>(s: Seq<(PortIpPort, V)>, i: int)
    requires
        keys_unique(s),
        0 <= i < s.len(),
    ensures
        has_key(s, s[i].0),
        key_index(s, s[i].0) == i,
{
    let k = s[i].0;
    assert(has_key(s, k));
    let j = key_index(s, k);
    assert(0 <= j < s.len() && s[j].0 == k);
}

proof fn lemma_unique_push<V>(s: Seq<(PortIpPort, V)>, e: (PortIpPort, V))
    requires
        keys_unique(s),
        !has_key(s, e.0),
    ensures
        keys_unique(s.push(e)),
{
    let t = s.push(e);
    assert forall|i: int, j: int|
        0 <= i < t.len() && 0 <= j < t.len() && t[i].0 == t[j].0 implies i == j by {
        if i < s.len() && j == s.len() {
            assert(s[i].0 == e.0);
        } else if j < s.len() && i == s.len() {
            assert(s[j].0 == e.0);
        }
    }
}

proof fn lemma_unique_update<V>(s: Seq<(PortIpPort, V)>, i: int, v: V)
    requires
        keys_unique(s),
        0 <= i < s.len(),
    ensures
        keys_unique(s.update(i, (s[i].0, v))),
{
}

proof fn lemma_unique_remove<V>(s: Seq<(PortIpPort, V)>, i: int)
    requires
        keys_unique(s),
        0 <= i < s.len(),
    ensures
        keys_unique(s.remove(i)),
        forall|k: PortIpPort| has_key(s.remove(i), k) <==> (has_key(s, k) && k != s[i].0),
{
    let t = s.remove(i);
    assert forall|a: int, b: int|
        0 <= a < t.len() && 0 <= b < t.len() && t[a].0 == t[b].0 implies a == b by {
        let a2 = if a < i { a } else { a + 1 };
        let b2 = if b < i { b } else { b + 1 };
        assert(t[a] == s[a2] && t[b] == s[b2]);
    }
    assert forall|k: PortIpPort| has_key(t, k) <==> (has_key(s, k) && k != s[i].0) by {
        if has_key(t, k) {
            let a = choose|a: int| 0 <= a < t.len() && t[a].0 == k;
            let a2 = if a < i { a } else { a + 1 };
            assert(t[a] == s[a2]);
            assert(a2 != i);
        }
        if has_key(s, k) && k != s[i].0 {
            let a = choose|a: int| 0 <= a < s.len() && s[a].0 == k;
            assert(a != i);
            let a2 = if a < i { a } else { a - 1 };
            assert(t[a2] == s[a]);
        }
    }
}

/// Finds the position of the entry with key `k`.
fn find_route<V>(t: &Vec<(PortIpPort, V)>, k: &PortIpPort) -> (r: Option<usize>)
    requires
        keys_unique(t@),
    ensures
        r is None <==> !has_key(t@, *k),
        r matches Some(i) ==> i < t@.len() && t@[i as int].0 == *k && i == key_index(t@, *k),
{
    let mut i: usize = 0;
    while i < t.len()
        invariant
            0 <= i <= t@.len(),
            keys_unique(t@),
            forall|j: int| 0 <= j < i ==> t@[j].0 != *k,
        decreases t@.len() - i,
    {
        if t[i].0 == *k {
            proof {
                lemma_key_index(t@, i as int);
            }
            return Some(i);
        }
        i = i + 1;
    }
    None
}

// ----- data queues -----

impl TcpData {
    closed spec fn view(&self) -> DataQueue {
        DataQueue { queue: self.dataq@, connected: self.is_connected }
    }
}

/// Abstract value of a table of data queues.
closed spec fn data_view(t: Seq<(PortIpPort, TcpData)>) -> Seq<(PortIpPort, DataQueue)> {
    t.map_values(|e: (PortIpPort, TcpData)| (e.0, e.1.view()))
}

proof fn lemma_data_view_keys(t: Seq<(PortIpPort, TcpData)>)
    ensures
        data_view(t).len() == t.len(),
        forall|i: int| 0 <= i < t.len() ==> #[trigger] data_view(t)[i].0 == t[i].0,
        keys_unique(t) <==> keys_unique(data_view(t)),
        forall|k: PortIpPort| has_key(t, k) <==> #[trigger] has_key(data_view(t), k),
{
    let d = data_view(t);
    if keys_unique(t) {
        assert forall|i: int, j: int|
            0 <= i < d.len() && 0 <= j < d.len() && d[i].0 == d[j].0 implies i == j by {
            assert(d[i].0 == t[i].0 && d[j].0 == t[j].0);
        }
    }
    if keys_unique(d) {
        assert forall|i: int, j: int|
            0 <= i < t.len() && 0 <= j < t.len() && t[i].0 == t[j].0 implies i == j by {
            assert(d[i].0 == t[i].0 && d[j].0 == t[j].0);
        }
    }
    assert forall|k: PortIpPort| has_key(t, k) <==> #[trigger] has_key(d, k) by {
        if has_key(t, k) {
            let i = choose|i: int| 0 <= i < t.len() && t[i].0 == k;
            assert(d[i].0 == k);
        }
        if has_key(d, k) {
            let i = choose|i: int| 0 <= i < d.len() && d[i].0 == k;
            assert(t[i].0 == k);
        }
    }
}

/// The queue of route `k` in table `t`; empty where the route is absent.
pub open spec fn queue_of(t: Seq<(PortIpPort, DataQueue)>, k: PortIpPort) -> Seq<Vec<u8>> {
    if has_key(t, k) {
        t[key_index(t, k)].1.queue
    } else {
        seq![]
    }
}

/// Table `t` with `d` added at the back of route `k`'s queue; a new route
/// starts connected with `d` alone.
pub open spec fn push_data(t: Seq<(PortIpPort, DataQueue)>, k: PortIpPort, d: Vec<u8>) -> Seq<
    (PortIpPort, DataQueue),
> {
    if has_key(t, k) {
        let i = key_index(t, k);
        t.update(i, (k, DataQueue { queue: t[i].1.queue.push(d), connected: t[i].1.connected }))
    } else {
        t.push((k, DataQueue { queue: seq![d], connected: true }))
    }
}

/// Table `t` with the front of route `k`'s queue taken off, and that front;
/// the table is unchanged where the queue is empty or the route absent.
pub open spec fn pop_data(t: Seq<(PortIpPort, DataQueue)>, k: PortIpPort) -> (Seq<
    (PortIpPort, DataQueue),
>, Option<Vec<u8>>) {
    if has_key(t, k) && t[key_index(t, k)].1.queue.len() > 0 {
        let i = key_index(t, k);
        let q = t[i].1.queue;
        (t.update(i, (k, DataQueue { queue: q.drop_first(), connected: t[i].1.connected })), Some(
            q[0],
        ))
    } else {
        (t, None)
    }
}

/// Table `t` without route `k`.
pub open spec fn remove_key<V>(t: Seq<(PortIpPort, V)>, k: PortIpPort) -> Seq<(PortIpPort, V)> {
    if has_key(t, k) {
        t.remove(key_index(t, k))
    } else {
        t
    }
}

fn push_route_data(t: &mut Vec<(PortIpPort, TcpData)>, k: PortIpPort, d: Vec<u8>)
    requires
        keys_unique(old(t)@),
    ensures
        keys_unique(final(t)@),
        data_view(final(t)@) == push_data(data_view(old(t)@), k, d),
{
    proof {
        lemma_data_view_keys(t@);
    }
    match find_route(t, &k) {
        Some(i) => {
            let ghost dv0 = data_view(t@);
            proof {
                lemma_key_index(dv0, i as int);
            }
            let (key, mut data) = t.remove(i);
            data.dataq.push_back(d);
            t.insert(i, (key, data));
            proof {
                lemma_data_view_keys(t@);
                assert(data_view(t@) =~= push_data(dv0, k, d));
            }
        },
        None => {
            let mut dataq = VecDeque::new();
            dataq.push_back(d);
            let ghost t0 = t@;
            t.push((k, TcpData { dataq, is_connected: true }));
            proof {
                lemma_unique_push(t0, (k, TcpData { dataq, is_connected: true }));
                assert(data_view(t@) =~= push_data(data_view(t0), k, d));
            }
        },
    }
}

fn get_tcp_fwd_route_data(t: &mut Vec<(PortIpPort, TcpData)>, k: PortIpPort) -> (r: Option<
    Vec<u8>,
>)
    requires
        keys_unique(old(t)@),
    ensures
        keys_unique(final(t)@),
        (data_view(final(t)@), r) == pop_data(data_view(old(t)@), k),
{
    proof {
        lemma_data_view_keys(t@);
    }
    match find_route(t, &k) {
        Some(i) => {
            let ghost dv0 = data_view(t@);
            proof {
                lemma_key_index(dv0, i as int);
            }
            if t[i].1.dataq.len() == 0 {
                return None;
            }
            let (key, mut data) = t.remove(i);
            let front = data.dataq.pop_front();
            t.insert(i, (key, data));
            proof {
                lemma_data_view_keys(t@);
                assert(data_view(t@) =~= pop_data(dv0, k).0);
            }
            front
        },
        None => None,
    }
}

fn remove_route_data(t: &mut Vec<(PortIpPort, TcpData)>, k: PortIpPort)
    requires
        keys_unique(old(t)@),
    ensures
        keys_unique(final(t)@),
        data_view(final(t)@) == remove_key(data_view(old(t)@), k),
{
    proof {
        lemma_data_view_keys(t@);
    }
    match find_route(t, &k) {
        Some(i) => {
            let ghost t0 = t@;
            proof {
                lemma_key_index(data_view(t0), i as int);
            }
            t.remove(i);
            proof {
                lemma_unique_remove(t0, i as int);
                assert(data_view(t@) =~= remove_key(data_view(t0), k));
            }
        },
        None => {},
    }
}

// ----- route task groups -----

/// The handle of a task, as a sequence of zero or one handles.
pub open spec fn opt_handle(h: TaskHandle) -> Seq<tokio::task::JoinHandle<()>> {
    match h {
        Some(x) => seq![x],
        None => seq![],
    }
}

/// The started tasks of a route, in the order they are queued for abort.
pub open spec fn group_handles(g: TcpFwdRouteTask) -> Seq<tokio::task::JoinHandle<()>> {
    opt_handle(g.server_wr) + opt_handle(g.server_rd) + opt_handle(g.fwd_process_handle)
        + opt_handle(g.client_rd) + opt_handle(g.client_wr)
}

/// The started tasks of all routes of a table, route after route.
pub open spec fn all_group_handles(t: Seq<(PortIpPort, TcpFwdRouteTask)>) -> Seq<
    tokio::task::JoinHandle<()>,
>
    decreases t.len(),
{
    if t.len() == 0 {
        seq![]
    } else {
        all_group_handles(t.drop_last()) + group_handles(t.last().1)
    }
}

fn push_handle(pending: &mut Vec<tokio::task::JoinHandle<()>>, h: TaskHandle)
    ensures
        final(pending)@ == old(pending)@ + opt_handle(h),
{
    match h {
        Some(x) => {
            pending.push(x);
        },
        None => {},
    }
    assert(pending@ =~= old(pending)@ + opt_handle(h));
}

fn push_group_handles(pending: &mut Vec<tokio::task::JoinHandle<()>>, g: TcpFwdRouteTask)
    ensures
        final(pending)@ == old(pending)@ + group_handles(g),
{
    let ghost pending0 = pending@;
    let ghost g0 = g;
    push_handle(pending, g.server_wr);
    push_handle(pending, g.server_rd);
    push_handle(pending, g.fwd_process_handle);
    push_handle(pending, g.client_rd);
    push_handle(pending, g.client_wr);
    assert(pending@ =~= pending0 + group_handles(g0));
}

fn insert_route_group(t: &mut Vec<(PortIpPort, TcpFwdRouteTask)>, k: PortIpPort, g: TcpFwdRouteTask) -> (r:
    bool)
    requires
        keys_unique(old(t)@),
    ensures
        keys_unique(final(t)@),
        r == !has_key(old(t)@, k),
        final(t)@ == (if r { old(t)@.push((k, g)) } else { old(t)@ }),
{
    match find_route(t, &k) {
        Some(_) => false,
        None => {
            let ghost t0 = t@;
            t.push((k, g));
            proof {
                lemma_unique_push(t0, (k, g));
            }
            true
        },
    }
}

fn take_route_group(t: &mut Vec<(PortIpPort, TcpFwdRouteTask)>, k: PortIpPort) -> (r: Option<
    TcpFwdRouteTask,
>)
    requires
        keys_unique(old(t)@),
    ensures
        keys_unique(final(t)@),
        final(t)@ == remove_key(old(t)@, k),
        r == (if has_key(old(t)@, k) { Some(old(t)@[key_index(old(t)@, k)].1) } else { None }),
{
    match find_route(t, &k) {
        Some(i) => {
            let ghost t0 = t@;
            let (_, g) = t.remove(i);
            proof {
                lemma_unique_remove(t0, i as int);
            }
            Some(g)
        },
        None => None,
    }
}

fn drain_route_groups(
    t: &mut Vec<(PortIpPort, TcpFwdRouteTask)>,
    pending: &mut Vec<tokio::task::JoinHandle<()>>,
)
    ensures
        final(t)@ == Seq::<(PortIpPort, TcpFwdRouteTask)>::empty(),
        final(pending)@ == old(pending)@ + all_group_handles(old(t)@),
{
    let ghost t0 = t@;
    let ghost pending0 = pending@;
    let ghost mut j: int = 0;
    assert(t0.subrange(0, 0) =~= Seq::<(PortIpPort, TcpFwdRouteTask)>::empty());
    assert(pending0 + all_group_handles(t0.subrange(0, 0)) =~= pending0);
    assert(t@ =~= t0.subrange(0, t0.len() as int));
    while t.len() > 0
        invariant
            0 <= j <= t0.len(),
            t@ == t0.subrange(j, t0.len() as int),
            pending@ == pending0 + all_group_handles(t0.subrange(0, j)),
        decreases t@.len(),
    {
        let (_, g) = t.remove(0);
        proof {
            assert(t0.subrange(0, j + 1).drop_last() =~= t0.subrange(0, j));
            assert(g == t0[j].1);
        }
        push_group_handles(pending, g);
        proof {
            assert(pending@ =~= pending0 + all_group_handles(t0.subrange(0, j + 1)));
            j = j + 1;
            assert(t@ =~= t0.subrange(j, t0.len() as int));
        }
    }
    assert(t0.subrange(0, j) =~= t0);
    assert(t@ =~= Seq::<(PortIpPort, TcpFwdRouteTask)>::empty());
}

// ----- the shared state -----

/// The advertised port of a beacon payload: the byte at index 32 is the
/// high byte and the byte at index 33 the low byte.
pub open spec fn beacon_port(b: Seq<u8>) -> u16
    recommends
        b.len() == UDP_PINECONE_PAYLOAD_SIZE,
{
    (b[32] as int * 256 + b[33] as int) as u16
}

/// Whether every byte of `b` is zero: such a slot holds no beacon.
pub open spec fn all_zero(b: Seq<u8>) -> bool {
    forall|i: int| 0 <= i < b.len() ==> b[i] == 0
}

/// An empty beacon slot.
pub open spec fn empty_beacon() -> Seq<u8> {
    Seq::new(UDP_PINECONE_PAYLOAD_SIZE as nat, |i: int| 0u8)
}

/// The abstract value of a `SharedState`. Tables are indexed by network
/// (`NwId::idx`) and hold their routes in insertion order with distinct keys.
pub struct StateView {
    /// Queues of data that came in, per route.
    pub tcp_in: Seq<Seq<(PortIpPort, DataQueue)>>,
    /// Queues of data to send out, per route.
    pub tcp_out: Seq<Seq<(PortIpPort, DataQueue)>>,
    /// Task groups of the forwarded connections.
    pub routes: Seq<Seq<(PortIpPort, TcpFwdRouteTask)>>,
    /// The advertised TCP port of NW1; 0 while disconnected.
    pub port: u16,
    /// The NW2 peer that sent the last beacon.
    pub dest: IpAddress,
    /// Whether a termination of the TCP server was requested.
    pub term_signal: bool,
    /// The beacon slot: the last accepted beacon, or all zeros.
    pub beacon: Seq<u8>,
    /// The running TCP server task.
    pub server: TaskHandle,
    /// Liveness ticks, per network.
    pub ticks: Seq<u8>,
    /// Tasks queued for abort.
    pub pending: Seq<tokio::task::JoinHandle<()>>,
}

/// Tick of a network after one emit cycle without a beacon: one more,
/// saturating at `UDP_CONN_MAX_TICK + 1`.
pub open spec fn fed_tick(t: u8) -> u8 {
    if t > UDP_CONN_MAX_TICK {
        (UDP_CONN_MAX_TICK + 1) as u8
    } else {
        (t + 1) as u8
    }
}

impl StateView {
    /// A fresh state: no routes, port 0, the unspecified IPv6 destination,
    /// an empty beacon slot, both networks disconnected, nothing pending.
    pub open spec fn initial() -> StateView {
        StateView {
            tcp_in: seq![seq![], seq![]],
            tcp_out: seq![seq![], seq![]],
            routes: seq![seq![], seq![]],
            port: 0,
            dest: IpAddress::V6(0),
            term_signal: false,
            beacon: empty_beacon(),
            server: None,
            ticks: seq![(UDP_CONN_MAX_TICK + 1) as u8, (UDP_CONN_MAX_TICK + 1) as u8],
            pending: seq![],
        }
    }

    pub open spec fn in_queue(self, nw: NwId, k: PortIpPort) -> Seq<Vec<u8>> {
        queue_of(self.tcp_in[nw.idx()], k)
    }

    pub open spec fn out_queue(self, nw: NwId, k: PortIpPort) -> Seq<Vec<u8>> {
        queue_of(self.tcp_out[nw.idx()], k)
    }

    pub open spec fn enqueue_in(self, nw: NwId, k: PortIpPort, d: Vec<u8>) -> StateView {
        StateView { tcp_in: self.tcp_in.update(nw.idx(), push_data(self.tcp_in[nw.idx()], k, d)), ..self }
    }

    pub open spec fn enqueue_out(self, nw: NwId, k: PortIpPort, d: Vec<u8>) -> StateView {
        StateView {
            tcp_out: self.tcp_out.update(nw.idx(), push_data(self.tcp_out[nw.idx()], k, d)),
            ..self
        }
    }

    pub open spec fn dequeue_in(self, nw: NwId, k: PortIpPort) -> (StateView, Option<Vec<u8>>) {
        let (t, r) = pop_data(self.tcp_in[nw.idx()], k);
        (StateView { tcp_in: self.tcp_in.update(nw.idx(), t), ..self }, r)
    }

    pub open spec fn dequeue_out(self, nw: NwId, k: PortIpPort) -> (StateView, Option<Vec<u8>>) {
        let (t, r) = pop_data(self.tcp_out[nw.idx()], k);
        (StateView { tcp_out: self.tcp_out.update(nw.idx(), t), ..self }, r)
    }

    pub open spec fn remove_in(self, nw: NwId, k: PortIpPort) -> StateView {
        StateView { tcp_in: self.tcp_in.update(nw.idx(), remove_key(self.tcp_in[nw.idx()], k)), ..self }
    }

    pub open spec fn remove_out(self, nw: NwId, k: PortIpPort) -> StateView {
        StateView {
            tcp_out: self.tcp_out.update(nw.idx(), remove_key(self.tcp_out[nw.idx()], k)),
            ..self
        }
    }

    /// The port register set from a beacon payload.
    pub open spec fn set_port_from_beacon(self, b: Seq<u8>) -> StateView {
        StateView { port: beacon_port(b), ..self }
    }

    /// A beacon stored in the slot of network index `nw_id`: accepted only
    /// for index 1 and a payload of exactly `UDP_PINECONE_PAYLOAD_SIZE`
    /// bytes, which then also sets the port; refused otherwise, with no
    /// change.
    pub open spec fn insert_beacon(self, nw_id: int, b: Seq<u8>) -> (StateView, bool) {
        if nw_id == 1 && b.len() == UDP_PINECONE_PAYLOAD_SIZE {
            (StateView { beacon: b, ..self.set_port_from_beacon(b) }, true)
        } else {
            (self, false)
        }
    }

    /// The beacon taken out of the slot of network index `nw_id`, which is
    /// left empty; nothing where the slot holds no beacon.
    pub open spec fn take_beacon(self, nw_id: int) -> (StateView, Option<Seq<u8>>) {
        if nw_id == 1 && !all_zero(self.beacon) {
            (StateView { beacon: empty_beacon(), ..self }, Some(self.beacon))
        } else {
            (self, None)
        }
    }

    pub open spec fn feed_tick(self, i: int) -> StateView {
        StateView { ticks: self.ticks.update(i, fed_tick(self.ticks[i])), ..self }
    }

    pub open spec fn reset_tick(self, i: int) -> StateView {
        StateView { ticks: self.ticks.update(i, 0u8), ..self }
    }

    /// Whether network `i` is connected: its tick is at most
    /// `UDP_CONN_MAX_TICK`. A lost network sets the port to 0.
    pub open spec fn check_connected(self, i: int) -> (StateView, bool) {
        if self.ticks[i] <= UDP_CONN_MAX_TICK {
            (self, true)
        } else {
            (StateView { port: 0, ..self }, false)
        }
    }

    pub open spec fn take_term_signal(self) -> (StateView, bool) {
        (StateView { term_signal: false, ..self }, self.term_signal)
    }

    pub open spec fn set_dest(self, ip: IpAddress) -> StateView {
        StateView { dest: ip, ..self }
    }

    /// A route registered on network `nw`; refused, with no change, where
    /// its key is already there.
    pub open spec fn add_route(self, nw: NwId, k: PortIpPort, g: TcpFwdRouteTask) -> (StateView, bool) {
        let t = self.routes[nw.idx()];
        if has_key(t, k) {
            (self, false)
        } else {
            (StateView { routes: self.routes.update(nw.idx(), t.push((k, g))), ..self }, true)
        }
    }

    /// A route's started tasks queued for abort and the route removed;
    /// `false`, with no change, where the route is not there.
    pub open spec fn abort_route(self, nw: NwId, k: PortIpPort) -> (StateView, bool) {
        let t = self.routes[nw.idx()];
        if has_key(t, k) {
            (
                StateView {
                    routes: self.routes.update(nw.idx(), remove_key(t, k)),
                    pending: self.pending + group_handles(t[key_index(t, k)].1),
                    ..self
                },
                true,
            )
        } else {
            (self, false)
        }
    }

    /// Every route of both networks, then the server task, queued for
    /// abort; no route and no server remain.
    pub open spec fn abort_all(self) -> StateView {
        StateView {
            routes: seq![seq![], seq![]],
            pending: self.pending + all_group_handles(self.routes[0]) + all_group_handles(
                self.routes[1],
            ) + opt_handle(self.server),
            server: None,
            ..self
        }
    }

    /// The queue of tasks waiting to be aborted emptied: its handles are
    /// handed to the caller, which aborts them.
    pub open spec fn reap(self) -> StateView {
        StateView { pending: seq![], ..self }
    }

    /// A new server task recorded; the one it replaces is queued for abort.
    pub open spec fn update_server(self, h: TaskHandle) -> StateView {
        StateView { server: h, pending: self.pending + opt_handle(self.server), ..self }
    }

    /// What the lifecycle does when the advertised port changes: every
    /// route and the server are queued for abort, and the queue is handed
    /// out (`port_change_aborts`) to be aborted.
    pub open spec fn port_change(self) -> StateView {
        self.abort_all().reap()
    }

    /// The tasks a port change hands out to be aborted: those queued
    /// before, then the tasks of every route of both networks, then the
    /// server task.
    pub open spec fn port_change_aborts(self) -> Seq<tokio::task::JoinHandle<()>> {
        self.abort_all().pending
    }
}

/// State shared by the forwarding tasks. It has no locking of its own: a
/// caller that shares it between tasks holds it behind one lock.
///
/// Each route table is a vector of entries with distinct keys rather than a
/// `HashMap`: vstd specifies a `HashMap`'s contents only for keys whose
/// hashing and equality it knows, which a struct key with derived `Hash` is
/// not, so no contract over a `HashMap<PortIpPort, _>` could be proved.
pub struct SharedState {
    /// tcp incoming data and route info, per network
    tcp_con_in_one: Vec<(PortIpPort, TcpData)>,
    tcp_con_in_two: Vec<(PortIpPort, TcpData)>,
    /// tcp outgoing data and route info, per network
    tcp_con_out_one: Vec<(PortIpPort, TcpData)>,
    tcp_con_out_two: Vec<(PortIpPort, TcpData)>,
    /// tcp tasks and route info, per network
    tcp_route_task_map_one: Vec<(PortIpPort, TcpFwdRouteTask)>,
    tcp_route_task_map_two: Vec<(PortIpPort, TcpFwdRouteTask)>,
    /// tcp pinecone server port for network one
    tcp_src_port_nw_one: u16,
    /// tcp pinecone server ip for network two
    tcp_dest_ip_nw_two: IpAddress,
    /// tcp pinecone server terminate signal for network one
    is_tcp_server_termination_signal_got_nw_one: bool,
    /// udp pinecone incoming beacon
    udp_pinecone_in: Vec<u8>,
    /// tcp pinecone server task handle
    tcp_pinecone_server_main_task_handle: TaskHandle,
    /// is udp pinecone data exchange still available, per network
    udp_pinecone_network_conn_tick_one: u8,
    udp_pinecone_network_conn_tick_two: u8,
    /// tasks waiting to be aborted
    terminated_task_handles: Vec<tokio::task::JoinHandle<()>>,
}

impl View for SharedState {
    type V = StateView;

    closed spec fn view(&self) -> StateView {
        StateView {
            tcp_in: seq![data_view(self.tcp_con_in_one@), data_view(self.tcp_con_in_two@)],
            tcp_out: seq![data_view(self.tcp_con_out_one@), data_view(self.tcp_con_out_two@)],
            routes: seq![self.tcp_route_task_map_one@, self.tcp_route_task_map_two@],
            port: self.tcp_src_port_nw_one,
            dest: self.tcp_dest_ip_nw_two,
            term_signal: self.is_tcp_server_termination_signal_got_nw_one,
            beacon: self.udp_pinecone_in@,
            server: self.tcp_pinecone_server_main_task_handle,
            ticks: seq![self.udp_pinecone_network_conn_tick_one, self.udp_pinecone_network_conn_tick_two],
            pending: self.terminated_task_handles@,
        }
    }
}

impl StateView {
    /// Well-formedness of the abstract state: two networks, distinct keys in
    /// every table, a beacon slot of payload size, ticks within saturation.
    pub open spec fn wf(self) -> bool {
        &&& self.tcp_in.len() == TOTAL_NUM_NW
        &&& self.tcp_out.len() == TOTAL_NUM_NW
        &&& self.routes.len() == TOTAL_NUM_NW
        &&& self.ticks.len() == TOTAL_NUM_NW
        &&& forall|i: int| 0 <= i < TOTAL_NUM_NW ==> keys_unique(#[trigger] self.tcp_in[i])
        &&& forall|i: int| 0 <= i < TOTAL_NUM_NW ==> keys_unique(#[trigger] self.tcp_out[i])
        &&& forall|i: int| 0 <= i < TOTAL_NUM_NW ==> keys_unique(#[trigger] self.routes[i])
        &&& self.beacon.len() == UDP_PINECONE_PAYLOAD_SIZE
        &&& forall|i: int| 0 <= i < TOTAL_NUM_NW ==> #[trigger] self.ticks[i] <= UDP_CONN_MAX_TICK + 1
    }
}

impl SharedState {
    /// Well-formedness: that of the view.
    pub open spec fn wf(&self) -> bool {
        self@.wf()
    }

    proof fn lemma_wf(&self)
        requires
            self.wf(),
        ensures
            keys_unique(self.tcp_con_in_one@),
            keys_unique(self.tcp_con_in_two@),
            keys_unique(self.tcp_con_out_one@),
            keys_unique(self.tcp_con_out_two@),
            keys_unique(self.tcp_route_task_map_one@),
            keys_unique(self.tcp_route_task_map_two@),
    {
        assert(keys_unique(self@.tcp_in[0]));
        assert(keys_unique(self@.tcp_in[1]));
        assert(keys_unique(self@.tcp_out[0]));
        assert(keys_unique(self@.tcp_out[1]));
        assert(keys_unique(self@.routes[0]));
        assert(keys_unique(self@.routes[1]));
        lemma_data_view_keys(self.tcp_con_in_one@);
        lemma_data_view_keys(self.tcp_con_in_two@);
        lemma_data_view_keys(self.tcp_con_out_one@);
        lemma_data_view_keys(self.tcp_con_out_two@);
    }

    proof fn lemma_wf_back(&self)
        requires
            keys_unique(self.tcp_con_in_one@),
            keys_unique(self.tcp_con_in_two@),
            keys_unique(self.tcp_con_out_one@),
            keys_unique(self.tcp_con_out_two@),
            keys_unique(self.tcp_route_task_map_one@),
            keys_unique(self.tcp_route_task_map_two@),
            self.udp_pinecone_in@.len() == UDP_PINECONE_PAYLOAD_SIZE,
            self.udp_pinecone_network_conn_tick_one <= UDP_CONN_MAX_TICK + 1,
            self.udp_pinecone_network_conn_tick_two <= UDP_CONN_MAX_TICK + 1,
        ensures
            self.wf(),
    {
        lemma_data_view_keys(self.tcp_con_in_one@);
        lemma_data_view_keys(self.tcp_con_in_two@);
        lemma_data_view_keys(self.tcp_con_out_one@);
        lemma_data_view_keys(self.tcp_con_out_two@);
        let v = self@;
        assert(keys_unique(v.tcp_in[0]) && keys_unique(v.tcp_in[1]));
        assert(keys_unique(v.tcp_out[0]) && keys_unique(v.tcp_out[1]));
        assert(keys_unique(v.routes[0]) && keys_unique(v.routes[1]));
        assert(v.ticks[0] <= UDP_CONN_MAX_TICK + 1 && v.ticks[1] <= UDP_CONN_MAX_TICK + 1);
    }

    pub fn new() -> (r: SharedState)
        ensures
            r.wf(),
            r@ == StateView::initial(),
    {
        let r = SharedState {
            tcp_con_in_one: Vec::new(),
            tcp_con_in_two: Vec::new(),
            tcp_con_out_one: Vec::new(),
            tcp_con_out_two: Vec::new(),
            tcp_route_task_map_one: Vec::new(),
            tcp_route_task_map_two: Vec::new(),
            tcp_src_port_nw_one: 0,
            tcp_dest_ip_nw_two: IpAddress::unspecified_v6(),
            is_tcp_server_termination_signal_got_nw_one: false,
            udp_pinecone_in: vec![0u8; UDP_PINECONE_PAYLOAD_SIZE],
            tcp_pinecone_server_main_task_handle: None,
            udp_pinecone_network_conn_tick_one: UDP_CONN_MAX_TICK + 1,
            udp_pinecone_network_conn_tick_two: UDP_CONN_MAX_TICK + 1,
            terminated_task_handles: Vec::new(),
        };
        proof {
            r.lemma_wf_back();
            assert(data_view(r.tcp_con_in_one@) =~= seq![]);
            assert(data_view(r.tcp_con_in_two@) =~= seq![]);
            assert(data_view(r.tcp_con_out_one@) =~= seq![]);
            assert(data_view(r.tcp_con_out_two@) =~= seq![]);
            assert(r@.tcp_in =~= StateView::initial().tcp_in);
            assert(r@.tcp_out =~= StateView::initial().tcp_out);
            assert(r@.routes =~= StateView::initial().routes);
            assert(r@.beacon =~= empty_beacon());
            assert(r@.ticks =~= StateView::initial().ticks);
            assert(r@.pending =~= StateView::initial().pending);
        }
        r
    }

    /// Adds a buffer at the back of a route's incoming queue on network
    /// `nw_id`; a route seen for the first time starts connected.
    pub fn insert_tcp_incoming_data(&mut self, nw_id: NwId, route_info: PortIpPort, in_data: Vec<u8>) -> (r:
        bool)
        requires
            old(self).wf(),
        ensures
            final(self).wf(),
            r,
            final(self)@ == old(self)@.enqueue_in(nw_id, route_info, in_data),
    {
        let ghost d = in_data;
        proof {
            self.lemma_wf();
        }
        match nw_id {
            NwId::One => push_route_data(&mut self.tcp_con_in_one, route_info, in_data),
            NwId::Two => push_route_data(&mut self.tcp_con_in_two, route_info, in_data),
        }
        proof {
            self.lemma_wf_back();
            assert(self@.tcp_in =~= old(self)@.enqueue_in(nw_id, route_info, d).tcp_in);
        }
        true
    }

    /// Removes a route's incoming queue on network `nw_id`.
    pub fn remove_tcp_incoming_route(&mut self, nw_id: NwId, route_info: PortIpPort) -> (r: bool)
        requires
            old(self).wf(),
        ensures
            final(self).wf(),
            r,
            final(self)@ == old(self)@.remove_in(nw_id, route_info),
    {
        proof {
            self.lemma_wf();
        }
        match nw_id {
            NwId::One => remove_route_data(&mut self.tcp_con_in_one, route_info),
            NwId::Two => remove_route_data(&mut self.tcp_con_in_two, route_info),
        }
        proof {
            self.lemma_wf_back();
            assert(self@.tcp_in =~= old(self)@.remove_in(nw_id, route_info).tcp_in);
        }
        true
    }

    /// Adds a buffer at the back of a route's outgoing queue on network
    /// `nw_id`; a route seen for the first time starts connected.
    pub fn insert_tcp_outgoing_data(&mut self, nw_id: NwId, route_info: PortIpPort, in_data: Vec<u8>) -> (r:
        bool)
        requires
            old(self).wf(),
        ensures
            final(self).wf(),
            r,
            final(self)@ == old(self)@.enqueue_out(nw_id, route_info, in_data),
    {
        let ghost d = in_data;
        proof {
            self.lemma_wf();
        }
        match nw_id {
            NwId::One => push_route_data(&mut self.tcp_con_out_one, route_info, in_data),
            NwId::Two => push_route_data(&mut self.tcp_con_out_two, route_info, in_data),
        }
        proof {
            self.lemma_wf_back();
            assert(self@.tcp_out =~= old(self)@.enqueue_out(nw_id, route_info, d).tcp_out);
        }
        true
    }

    /// Removes a route's outgoing queue on network `nw_id`.
    pub fn remove_tcp_outgoing_route(&mut self, nw_id: NwId, route_info: PortIpPort) -> (r: bool)
        requires
            old(self).wf(),
        ensures
            final(self).wf(),
            r,
            final(self)@ == old(self)@.remove_out(nw_id, route_info),
    {
        proof {
            self.lemma_wf();
        }
        match nw_id {
            NwId::One => remove_route_data(&mut self.tcp_con_out_one, route_info),
            NwId::Two => remove_route_data(&mut self.tcp_con_out_two, route_info),
        }
        proof {
            self.lemma_wf_back();
            assert(self@.tcp_out =~= old(self)@.remove_out(nw_id, route_info).tcp_out);
        }
        true
    }

    /// Takes the front buffer of a route's incoming queue on network
    /// `nw_id`; `None` where the queue is empty or the route unknown.
    pub fn get_tcp_incoming_data(&mut self, nw_id: NwId, route_info: PortIpPort) -> (r: Option<Vec<u8>>)
        requires
            old(self).wf(),
        ensures
            final(self).wf(),
            (final(self)@, r) == old(self)@.dequeue_in(nw_id, route_info),
    {
        proof {
            self.lemma_wf();
        }
        let r = match nw_id {
            NwId::One => get_tcp_fwd_route_data(&mut self.tcp_con_in_one, route_info),
            NwId::Two => get_tcp_fwd_route_data(&mut self.tcp_con_in_two, route_info),
        };
        proof {
            self.lemma_wf_back();
            assert(self@.tcp_in =~= old(self)@.dequeue_in(nw_id, route_info).0.tcp_in);
        }
        r
    }

    /// Takes the front buffer of a route's outgoing queue on network
    /// `nw_id`; `None` where the queue is empty or the route unknown.
    pub fn get_tcp_outgoing_data(&mut self, nw_id: NwId, route_info: PortIpPort) -> (r: Option<Vec<u8>>)
        requires
            old(self).wf(),
        ensures
            final(self).wf(),
            (final(self)@, r) == old(self)@.dequeue_out(nw_id, route_info),
    {
        proof {
            self.lemma_wf();
        }
        let r = match nw_id {
            NwId::One => get_tcp_fwd_route_data(&mut self.tcp_con_out_one, route_info),
            NwId::Two => get_tcp_fwd_route_data(&mut self.tcp_con_out_two, route_info),
        };
        proof {
            self.lemma_wf_back();
            assert(self@.tcp_out =~= old(self)@.dequeue_out(nw_id, route_info).0.tcp_out);
        }
        r
    }

    /// The advertised TCP port of NW1; 0 while none is known.
    pub fn get_tcp_src_port_nw_one(&self, nw_id: NwId) -> (r: u16)
        ensures
            r == self@.port,
    {
        self.tcp_src_port_nw_one
    }

    /// Sets the port register from a beacon payload.
    pub fn set_tcp_src_port_nw_one(&mut self, udp_pinecone_in_data: &[u8])
        requires
            old(self).wf(),
            udp_pinecone_in_data@.len() == UDP_PINECONE_PAYLOAD_SIZE,
        ensures
            final(self).wf(),
            final(self)@ == old(self)@.set_port_from_beacon(udp_pinecone_in_data@),
    {
        let port_num: u16 = (udp_pinecone_in_data[UDP_PINECONE_PAYLOAD_SIZE - 2] as u16) * 256
            + udp_pinecone_in_data[UDP_PINECONE_PAYLOAD_SIZE - 1] as u16;
        self.tcp_src_port_nw_one = port_num;
        proof {
            self.lemma_wf();
        }
    }

    /// Stores an incoming beacon: only network index 1 takes beacons, and
    /// only of exactly `UDP_PINECONE_PAYLOAD_SIZE` bytes; the port register
    /// is set from it. Anything else is refused and changes nothing.
    pub fn insert_udp_incoming_pinecone_data(&mut self, nw_id: usize, in_data: Vec<u8>) -> (r: bool)
        requires
            old(self).wf(),
        ensures
            final(self).wf(),
            (final(self)@, r) == old(self)@.insert_beacon(nw_id as int, in_data@),
    {
        if nw_id != 1 || in_data.len() != UDP_PINECONE_PAYLOAD_SIZE {
            return false;
        }
        self.set_tcp_src_port_nw_one(in_data.as_slice());
        self.udp_pinecone_in = in_data;
        proof {
            self.lemma_wf();
            self.lemma_wf_back();
        }
        true
    }

    /// Takes the beacon out of the slot of network index `nw_id`, leaving it
    /// empty; `None` where the slot holds none or the index is not 1.
    pub fn get_udp_incoming_pinecone_data(&mut self, nw_id: usize) -> (r: Option<Vec<u8>>)
        requires
            old(self).wf(),
        ensures
            final(self).wf(),
            (final(self)@, bytes_view(r)) == old(self)@.take_beacon(nw_id as int),
    {
        if nw_id != 1 || is_all_zeros(&self.udp_pinecone_in) {
            return None;
        }
        let mut slot = vec![0u8; UDP_PINECONE_PAYLOAD_SIZE];
        std::mem::swap(&mut slot, &mut self.udp_pinecone_in);
        proof {
            self.lemma_wf();
            self.lemma_wf_back();
            assert(self@.beacon =~= empty_beacon());
        }
        Some(slot)
    }

    /// Whether network index `nw_id` still receives beacons: its tick is at
    /// most `UDP_CONN_MAX_TICK`. When it is lost the port register is set
    /// to 0, which the lifecycle treats as a change of port.
    pub fn is_udp_pinecone_connected(&mut self, nw_id: usize) -> (r: bool)
        requires
            old(self).wf(),
            nw_id < TOTAL_NUM_NW,
        ensures
            final(self).wf(),
            (final(self)@, r) == old(self)@.check_connected(nw_id as int),
    {
        let udp_pinecone_tick: u8 = if nw_id == 0 {
            self.udp_pinecone_network_conn_tick_one
        } else {
            self.udp_pinecone_network_conn_tick_two
        };
        if udp_pinecone_tick > UDP_CONN_MAX_TICK {
            self.tcp_src_port_nw_one = 0;
        }
        proof {
            self.lemma_wf();
            self.lemma_wf_back();
        }
        udp_pinecone_tick <= UDP_CONN_MAX_TICK
    }

    /// Counts one emit cycle without a beacon on network index `nw_id`.
    pub fn udp_pinecone_feed_tick(&mut self, nw_id: usize)
        requires
            old(self).wf(),
            nw_id < TOTAL_NUM_NW,
        ensures
            final(self).wf(),
            final(self)@ == old(self)@.feed_tick(nw_id as int),
    {
        let mut udp_pinecone_tick: u8 = if nw_id == 0 {
            self.udp_pinecone_network_conn_tick_one
        } else {
            self.udp_pinecone_network_conn_tick_two
        };
        if udp_pinecone_tick > UDP_CONN_MAX_TICK {
            udp_pinecone_tick = UDP_CONN_MAX_TICK;
        }
        if nw_id == 0 {
            self.udp_pinecone_network_conn_tick_one = udp_pinecone_tick + 1;
        } else {
            self.udp_pinecone_network_conn_tick_two = udp_pinecone_tick + 1;
        }
        proof {
            self.lemma_wf();
            self.lemma_wf_back();
            assert(self@.ticks =~= old(self)@.feed_tick(nw_id as int).ticks);
        }
    }

    /// Records a beacon relayed on network index `nw_id`.
    pub fn udp_pinecone_reset_tick(&mut self, nw_id: usize)
        requires
            old(self).wf(),
            nw_id < TOTAL_NUM_NW,
        ensures
            final(self).wf(),
            final(self)@ == old(self)@.reset_tick(nw_id as int),
    {
        if nw_id == 0 {
            self.udp_pinecone_network_conn_tick_one = 0;
        } else {
            self.udp_pinecone_network_conn_tick_two = 0;
        }
        proof {
            self.lemma_wf();
            self.lemma_wf_back();
            assert(self@.ticks =~= old(self)@.reset_tick(nw_id as int).ticks);
        }
    }

    /// Whether a termination of the TCP server was requested; the request
    /// is consumed.
    pub fn is_tcp_server_pinecone_term_signal_available(&mut self) -> (r: bool)
        requires
            old(self).wf(),
        ensures
            final(self).wf(),
            (final(self)@, r) == old(self)@.take_term_signal(),
    {
        let is_available = self.is_tcp_server_termination_signal_got_nw_one;
        self.is_tcp_server_termination_signal_got_nw_one = false;
        proof {
            self.lemma_wf();
            self.lemma_wf_back();
        }
        is_available
    }

    /// Requests the termination of the TCP server.
    pub fn send_tcp_server_pinecone_term_signal(&mut self)
        requires
            old(self).wf(),
        ensures
            final(self).wf(),
            final(self)@ == (StateView { term_signal: true, ..old(self)@ }),
    {
        self.is_tcp_server_termination_signal_got_nw_one = true;
        proof {
            self.lemma_wf();
            self.lemma_wf_back();
        }
    }

    /// Where to connect on NW2: the last beacon's sender at the advertised
    /// port, with the NW2 interface as zone where the sender is IPv6.
    pub fn get_tcp_pinecone_dest_sock_addr(&self, nw_id: NwId, cfg: &Config) -> (r: String)
        requires
            nw_id == NwId::Two,
        ensures
            r@ == dest_sock_text(self@, cfg),
    {
        let ip = self.tcp_dest_ip_nw_two.to_text();
        let port = number_text(self.tcp_src_port_nw_one as u32);
        proof {
            reveal_strlit(":");
            reveal_strlit("%");
        }
        if self.tcp_dest_ip_nw_two.is_ipv4() {
            ip.concat(":").concat(port.as_str())
        } else {
            ip.concat("%").concat(cfg.args.if2.as_str()).concat(":").concat(port.as_str())
        }
    }

    /// Records the NW2 peer that sent the last beacon.
    pub fn set_tcp_pinecone_dest_ip_addr(&mut self, nw_id: NwId, addr: IpAddress)
        requires
            old(self).wf(),
            nw_id == NwId::Two,
        ensures
            final(self).wf(),
            final(self)@ == old(self)@.set_dest(addr),
    {
        self.tcp_dest_ip_nw_two = addr;
        proof {
            self.lemma_wf();
            self.lemma_wf_back();
        }
    }

    /// Registers the task group of a new route on network `recv_nw_id`;
    /// refused, leaving the registered group in place, where the key is
    /// already there.
    pub fn add_new_tcp_conn_route(
        &mut self,
        recv_nw_id: NwId,
        route_info: PortIpPort,
        server_wr: TaskHandle,
        server_rd: TaskHandle,
        fwd_process_handle: TaskHandle,
        client_wr: TaskHandle,
        client_rd: TaskHandle,
    ) -> (r: bool)
        requires
            old(self).wf(),
        ensures
            final(self).wf(),
            (final(self)@, r) == old(self)@.add_route(
                recv_nw_id,
                route_info,
                (TcpFwdRouteTask { server_wr, server_rd, fwd_process_handle, client_wr, client_rd }),
            ),
    {
        let route_task_handles = TcpFwdRouteTask {
            server_wr,
            server_rd,
            fwd_process_handle,
            client_wr,
            client_rd,
        };
        let ghost g = route_task_handles;
        proof {
            self.lemma_wf();
        }
        let r = match recv_nw_id {
            NwId::One => insert_route_group(&mut self.tcp_route_task_map_one, route_info, route_task_handles),
            NwId::Two => insert_route_group(&mut self.tcp_route_task_map_two, route_info, route_task_handles),
        };
        proof {
            self.lemma_wf_back();
            assert(self@.routes =~= old(self)@.add_route(recv_nw_id, route_info, g).0.routes);
        }
        r
    }

    /// Tears a route down: its started tasks are queued for abort and the
    /// route is removed. `false`, with no change, where the route is not
    /// registered, as on a second request for the same route.
    pub fn send_term_signal_for_tcproute(&mut self, recv_nw_id: NwId, route_info: PortIpPort) -> (r:
        bool)
        requires
            old(self).wf(),
        ensures
            final(self).wf(),
            (final(self)@, r) == old(self)@.abort_route(recv_nw_id, route_info),
    {
        proof {
            self.lemma_wf();
        }
        let taken = match recv_nw_id {
            NwId::One => take_route_group(&mut self.tcp_route_task_map_one, route_info),
            NwId::Two => take_route_group(&mut self.tcp_route_task_map_two, route_info),
        };
        let r = match taken {
            Some(task_handles) => {
                push_group_handles(&mut self.terminated_task_handles, task_handles);
                true
            },
            None => false,
        };
        proof {
            self.lemma_wf_back();
            assert(self@.routes =~= old(self)@.abort_route(recv_nw_id, route_info).0.routes);
        }
        r
    }

    /// Drains the queue of tasks waiting to be aborted and hands them out,
    /// in the order they were queued; the caller aborts each of them.
    pub fn check_term_signal_tasks(&mut self) -> (r: Vec<tokio::task::JoinHandle<()>>)
        requires
            old(self).wf(),
        ensures
            final(self).wf(),
            final(self)@ == old(self)@.reap(),
            r@ == old(self)@.pending,
    {
        let mut task_handles: Vec<tokio::task::JoinHandle<()>> = Vec::new();
        std::mem::swap(&mut task_handles, &mut self.terminated_task_handles);
        proof {
            self.lemma_wf();
            self.lemma_wf_back();
            assert(self@.pending =~= old(self)@.reap().pending);
        }
        task_handles
    }

    /// Queues every route of both networks and the TCP server task for
    /// abort.
    pub fn send_term_signal_all_task_handles(&mut self)
        requires
            old(self).wf(),
        ensures
            final(self).wf(),
            final(self)@ == old(self)@.abort_all(),
    {
        proof {
            self.lemma_wf();
        }
        drain_route_groups(&mut self.tcp_route_task_map_one, &mut self.terminated_task_handles);
        drain_route_groups(&mut self.tcp_route_task_map_two, &mut self.terminated_task_handles);
        let server = self.tcp_pinecone_server_main_task_handle.take();
        push_handle(&mut self.terminated_task_handles, server);
        proof {
            self.lemma_wf_back();
            assert(self@.routes =~= old(self)@.abort_all().routes);
        }
    }

    /// Records the running TCP server task; the one it replaces, if any, is
    /// queued for abort.
    pub fn update_tcp_pinecone_server_main_task_handle(&mut self, handle: TaskHandle)
        requires
            old(self).wf(),
        ensures
            final(self).wf(),
            final(self)@ == old(self)@.update_server(handle),
    {
        let previous = self.tcp_pinecone_server_main_task_handle.take();
        push_handle(&mut self.terminated_task_handles, previous);
        self.tcp_pinecone_server_main_task_handle = handle;
        proof {
            self.lemma_wf();
            self.lemma_wf_back();
        }
    }

    /// The lifecycle's response to a new advertised port: every route and
    /// the server are queued for abort, and the queue is drained. Returns
    /// whether a server is to be started for the port, which is so unless
    /// it is 0, and the tasks to abort before that.
    pub fn on_port_change(&mut self, new_port: u16) -> (r: (bool, Vec<tokio::task::JoinHandle<()>>))
        requires
            old(self).wf(),
        ensures
            final(self).wf(),
            final(self)@ == old(self)@.port_change(),
            r.0 == (new_port != 0),
            r.1@ == old(self)@.port_change_aborts(),
    {
        self.send_term_signal_all_task_handles();
        let to_abort = self.check_term_signal_tasks();
        (new_port != 0, to_abort)
    }

    /// Whether route `route_info` has an incoming queue on network `nw_id`.
    pub fn has_tcp_incoming_route(&self, nw_id: NwId, route_info: PortIpPort) -> (r: bool)
        requires
            self.wf(),
        ensures
            r == has_key(self@.tcp_in[nw_id.idx()], route_info),
    {
        proof {
            self.lemma_wf();
            lemma_data_view_keys(self.tcp_con_in_one@);
            lemma_data_view_keys(self.tcp_con_in_two@);
        }
        let t = match nw_id {
            NwId::One => &self.tcp_con_in_one,
            NwId::Two => &self.tcp_con_in_two,
        };
        find_route(t, &route_info).is_some()
    }

    /// Whether route `route_info` has an outgoing queue on network `nw_id`.
    pub fn has_tcp_outgoing_route(&self, nw_id: NwId, route_info: PortIpPort) -> (r: bool)
        requires
            self.wf(),
        ensures
            r == has_key(self@.tcp_out[nw_id.idx()], route_info),
    {
        proof {
            self.lemma_wf();
            lemma_data_view_keys(self.tcp_con_out_one@);
            lemma_data_view_keys(self.tcp_con_out_two@);
        }
        let t = match nw_id {
            NwId::One => &self.tcp_con_out_one,
            NwId::Two => &self.tcp_con_out_two,
        };
        find_route(t, &route_info).is_some()
    }

    /// Copies of the buffers queued on route `route_info` coming in on
    /// network `nw_id`, front first.
    pub fn tcp_incoming_queue(&self, nw_id: NwId, route_info: PortIpPort) -> (r: Vec<Vec<u8>>)
        requires
            self.wf(),
        ensures
            bytes_seq(r@) == bytes_seq(self@.in_queue(nw_id, route_info)),
    {
        proof {
            self.lemma_wf();
        }
        match nw_id {
            NwId::One => copy_route_queue(&self.tcp_con_in_one, route_info),
            NwId::Two => copy_route_queue(&self.tcp_con_in_two, route_info),
        }
    }

    /// Copies of the buffers queued on route `route_info` going out on
    /// network `nw_id`, front first.
    pub fn tcp_outgoing_queue(&self, nw_id: NwId, route_info: PortIpPort) -> (r: Vec<Vec<u8>>)
        requires
            self.wf(),
        ensures
            bytes_seq(r@) == bytes_seq(self@.out_queue(nw_id, route_info)),
    {
        proof {
            self.lemma_wf();
        }
        match nw_id {
            NwId::One => copy_route_queue(&self.tcp_con_out_one, route_info),
            NwId::Two => copy_route_queue(&self.tcp_con_out_two, route_info),
        }
    }

    /// Whether route `route_info` has an incoming queue on network `nw_id`
    /// that is marked connected.
    pub fn is_tcp_incoming_route_connected(&self, nw_id: NwId, route_info: PortIpPort) -> (r: bool)
        requires
            self.wf(),
        ensures
            r == route_connected(self@.tcp_in[nw_id.idx()], route_info),
    {
        proof {
            self.lemma_wf();
        }
        match nw_id {
            NwId::One => route_queue_connected(&self.tcp_con_in_one, route_info),
            NwId::Two => route_queue_connected(&self.tcp_con_in_two, route_info),
        }
    }

    /// Whether route `route_info` has an outgoing queue on network `nw_id`
    /// that is marked connected.
    pub fn is_tcp_outgoing_route_connected(&self, nw_id: NwId, route_info: PortIpPort) -> (r: bool)
        requires
            self.wf(),
        ensures
            r == route_connected(self@.tcp_out[nw_id.idx()], route_info),
    {
        proof {
            self.lemma_wf();
        }
        match nw_id {
            NwId::One => route_queue_connected(&self.tcp_con_out_one, route_info),
            NwId::Two => route_queue_connected(&self.tcp_con_out_two, route_info),
        }
    }

    /// A copy of the beacon slot.
    pub fn udp_incoming_pinecone_slot(&self) -> (r: Vec<u8>)
        ensures
            r@ == self@.beacon,
    {
        copy_bytes(&self.udp_pinecone_in)
    }

    /// The NW2 peer that sent the last beacon.
    pub fn get_tcp_pinecone_dest_ip_addr(&self) -> (r: IpAddress)
        ensures
            r == self@.dest,
    {
        self.tcp_dest_ip_nw_two
    }

    /// The liveness tick of network index `nw_id`.
    pub fn udp_pinecone_tick(&self, nw_id: usize) -> (r: u8)
        requires
            nw_id < TOTAL_NUM_NW,
        ensures
            r == self@.ticks[nw_id as int],
    {
        if nw_id == 0 {
            self.udp_pinecone_network_conn_tick_one
        } else {
            self.udp_pinecone_network_conn_tick_two
        }
    }

    /// Whether route `route_info` is registered on network `nw_id`.
    pub fn has_tcp_conn_route(&self, nw_id: NwId, route_info: PortIpPort) -> (r: bool)
        requires
            self.wf(),
        ensures
            r == has_key(self@.routes[nw_id.idx()], route_info),
    {
        proof {
            self.lemma_wf();
        }
        let t = match nw_id {
            NwId::One => &self.tcp_route_task_map_one,
            NwId::Two => &self.tcp_route_task_map_two,
        };
        find_route(t, &route_info).is_some()
    }

    /// Number of routes registered on network `nw_id`.
    pub fn tcp_conn_route_count(&self, nw_id: NwId) -> (r: usize)
        ensures
            r == self@.routes[nw_id.idx()].len(),
    {
        match nw_id {
            NwId::One => self.tcp_route_task_map_one.len(),
            NwId::Two => self.tcp_route_task_map_two.len(),
        }
    }

    /// Number of tasks queued for abort.
    pub fn term_task_handle_count(&self) -> (r: usize)
        ensures
            r == self@.pending.len(),
    {
        self.terminated_task_handles.len()
    }

    /// Whether a TCP server task is recorded.
    pub fn has_tcp_pinecone_server_main_task_handle(&self) -> (r: bool)
        ensures
            r == self@.server is Some,
    {
        self.tcp_pinecone_server_main_task_handle.is_some()
    }
}

/// The bytes of each buffer of a sequence.
pub open spec fn bytes_seq(s: Seq<Vec<u8>>) -> Seq<Seq<u8>> {
    s.map_values(|v: Vec<u8>| v@)
}

/// Whether route `k` of table `t` is present and marked connected.
pub open spec fn route_connected(t: Seq<(PortIpPort, DataQueue)>, k: PortIpPort) -> bool {
    has_key(t, k) && t[key_index(t, k)].1.connected
}

fn copy_bytes(v: &Vec<u8>) -> (r: Vec<u8>)
    ensures
        r@ == v@,
{
    let mut r: Vec<u8> = Vec::new();
    let mut i: usize = 0;
    while i < v.len()
        invariant
            0 <= i <= v@.len(),
            r@ == v@.subrange(0, i as int),
        decreases v@.len() - i,
    {
        r.push(v[i]);
        i = i + 1;
        assert(r@ =~= v@.subrange(0, i as int));
    }
    assert(v@.subrange(0, v@.len() as int) =~= v@);
    r
}

fn copy_route_queue(t: &Vec<(PortIpPort, TcpData)>, k: PortIpPort) -> (r: Vec<Vec<u8>>)
    requires
        keys_unique(t@),
    ensures
        bytes_seq(r@) == bytes_seq(queue_of(data_view(t@), k)),
{
    proof {
        lemma_data_view_keys(t@);
    }
    match find_route(t, &k) {
        Some(i) => {
            proof {
                lemma_key_index(data_view(t@), i as int);
            }
            let q = &t[i].1.dataq;
            let ghost qs = q@;
            let mut r: Vec<Vec<u8>> = Vec::new();
            let mut j: usize = 0;
            while j < q.len()
                invariant
                    qs == q@,
                    0 <= j <= q@.len(),
                    bytes_seq(r@) == bytes_seq(q@.subrange(0, j as int)),
                decreases q@.len() - j,
            {
                let c = copy_bytes(&q[j]);
                assert(c@ == q@[j as int]@);
                let ghost r0 = r@;
                r.push(c);
                proof {
                    let a0 = bytes_seq(r0);
                    let b0 = bytes_seq(q@.subrange(0, j as int));
                    let b1 = bytes_seq(q@.subrange(0, j as int + 1));
                    assert(r@ == r0.push(c));
                    assert(b0.len() == j as int && a0.len() == j as int);
                    assert forall|a: int| 0 <= a < j as int + 1 implies bytes_seq(r@)[a] == b1[a] by {
                        if a < j as int {
                            assert(a0[a] == b0[a]);
                            assert(r@[a] == r0[a]);
                            assert(q@.subrange(0, j as int)[a] == q@.subrange(0, j as int + 1)[a]);
                        } else {
                            assert(r@[a] == c);
                            assert(q@.subrange(0, j as int + 1)[a] == q@[j as int]);
                        }
                    }
                    assert(bytes_seq(r@) =~= b1);
                }
                j = j + 1;
            }
            assert(q@.subrange(0, q@.len() as int) =~= q@);
            r
        },
        None => {
            let r: Vec<Vec<u8>> = Vec::new();
            assert(bytes_seq(r@) =~= bytes_seq(queue_of(data_view(t@), k)));
            r
        },
    }
}

fn route_queue_connected(t: &Vec<(PortIpPort, TcpData)>, k: PortIpPort) -> (r: bool)
    requires
        keys_unique(t@),
    ensures
        r == route_connected(data_view(t@), k),
{
    proof {
        lemma_data_view_keys(t@);
    }
    match find_route(t, &k) {
        Some(i) => {
            proof {
                lemma_key_index(data_view(t@), i as int);
            }
            t[i].1.is_connected
        },
        None => false,
    }
}

/// The bytes of an optional buffer.
pub open spec fn bytes_view(r: Option<Vec<u8>>) -> Option<Seq<u8>> {
    match r {
        Some(v) => Some(v@),
        None => None,
    }
}

/// The connect string of the NW2 peer: `ip:port` for an IPv4 peer,
/// `ip%interface:port` for an IPv6 peer, with the NW2 interface as zone.
pub open spec fn dest_sock_text(v: StateView, cfg: &Config) -> Seq<char> {
    if v.dest is V4 {
        ip_text(v.dest) + seq![':'] + dec_text(v.port as nat)
    } else {
        ip_text(v.dest) + seq!['%'] + cfg.args.if2@ + seq![':'] + dec_text(v.port as nat)
    }
}

fn is_all_zeros(b: &Vec<u8>) -> (r: bool)
    ensures
        r == all_zero(b@),
{
    let mut i: usize = 0;
    while i < b.len()
        invariant
            0 <= i <= b@.len(),
            forall|j: int| 0 <= j < i ==> b@[j] == 0,
        decreases b@.len() - i,
    {
        if b[i] != 0 {
            return false;
        }
        i = i + 1;
    }
    true
}

// ----- laws -----

/// A beacon whose bytes 32 and 33 hold the high and low byte of `p` sets
/// the port register to `p`, whether it is stored with its port or only
/// read for it.
pub proof fn lemma_port_round_trip(v: StateView, b: Seq<u8>, p: u16)
    requires
        b.len() == UDP_PINECONE_PAYLOAD_SIZE,
        b[32] == p / 256,
        b[33] == p % 256,
    ensures
        beacon_port(b) == p,
        v.set_port_from_beacon(b).port == p,
        v.insert_beacon(1, b).1,
        v.insert_beacon(1, b).0.port == p,
{
    assert(b[32] as int * 256 + b[33] as int == p as int) by (nonlinear_arith)
        requires
            b[32] == p / 256,
            b[33] == p % 256,
    ;
}

proof fn lemma_push_data(t: Seq<(PortIpPort, DataQueue)>, k: PortIpPort, d: Vec<u8>)
    requires
        keys_unique(t),
    ensures
        keys_unique(push_data(t, k, d)),
        queue_of(push_data(t, k, d), k) == queue_of(t, k).push(d),
{
    if has_key(t, k) {
        let i = key_index(t, k);
        lemma_unique_update(t, i, DataQueue { queue: t[i].1.queue.push(d), connected: t[i].1.connected });
        lemma_key_index(push_data(t, k, d), i);
    } else {
        let e = (k, DataQueue { queue: seq![d], connected: true });
        lemma_unique_push(t, e);
        lemma_key_index(t.push(e), t.len() as int);
        assert(queue_of(t, k) =~= Seq::<Vec<u8>>::empty());
        assert(seq![d] =~= Seq::<Vec<u8>>::empty().push(d));
    }
}

proof fn lemma_pop_data(t: Seq<(PortIpPort, DataQueue)>, k: PortIpPort)
    requires
        keys_unique(t),
    ensures
        keys_unique(pop_data(t, k).0),
        queue_of(t, k).len() > 0 ==> queue_of(pop_data(t, k).0, k) == queue_of(t, k).drop_first()
            && pop_data(t, k).1 == Some(queue_of(t, k)[0]),
        queue_of(t, k).len() == 0 ==> pop_data(t, k).0 == t && pop_data(t, k).1 is None,
{
    if has_key(t, k) && t[key_index(t, k)].1.queue.len() > 0 {
        let i = key_index(t, k);
        lemma_unique_update(t, i, DataQueue { queue: t[i].1.queue.drop_first(), connected: t[i].1.connected });
        lemma_key_index(pop_data(t, k).0, i);
    }
}

/// The state after `items` are added, in order, to route `k`'s incoming
/// queue on network `nw`.
pub open spec fn enqueue_all_in(v: StateView, nw: NwId, k: PortIpPort, items: Seq<Vec<u8>>) -> StateView
    decreases items.len(),
{
    if items.len() == 0 {
        v
    } else {
        enqueue_all_in(v, nw, k, items.drop_last()).enqueue_in(nw, k, items.last())
    }
}

/// The state after `n` buffers are taken from route `k`'s incoming queue
/// on network `nw`.
pub open spec fn dequeue_times_in(v: StateView, nw: NwId, k: PortIpPort, n: nat) -> StateView
    decreases n,
{
    if n == 0 {
        v
    } else {
        dequeue_times_in(v, nw, k, (n - 1) as nat).dequeue_in(nw, k).0
    }
}

proof fn lemma_enqueue_all_in(v: StateView, nw: NwId, k: PortIpPort, items: Seq<Vec<u8>>)
    requires
        v.wf(),
    ensures
        enqueue_all_in(v, nw, k, items).wf(),
        enqueue_all_in(v, nw, k, items).in_queue(nw, k) == v.in_queue(nw, k) + items,
    decreases items.len(),
{
    if items.len() == 0 {
        assert(v.in_queue(nw, k) + items =~= v.in_queue(nw, k));
    } else {
        let w = enqueue_all_in(v, nw, k, items.drop_last());
        lemma_enqueue_all_in(v, nw, k, items.drop_last());
        assert(keys_unique(w.tcp_in[nw.idx()]));
        lemma_push_data(w.tcp_in[nw.idx()], k, items.last());
        let w2 = w.enqueue_in(nw, k, items.last());
        assert forall|i: int| 0 <= i < TOTAL_NUM_NW implies keys_unique(#[trigger] w2.tcp_in[i]) by {
            if i != nw.idx() {
                assert(w2.tcp_in[i] == w.tcp_in[i]);
            }
        }
        assert(v.in_queue(nw, k) + items =~= (v.in_queue(nw, k) + items.drop_last()).push(
            items.last(),
        ));
    }
}

proof fn lemma_dequeue_times_in(v: StateView, nw: NwId, k: PortIpPort, n: nat)
    requires
        v.wf(),
        n <= v.in_queue(nw, k).len(),
    ensures
        dequeue_times_in(v, nw, k, n).wf(),
        dequeue_times_in(v, nw, k, n).in_queue(nw, k) == v.in_queue(nw, k).subrange(
            n as int,
            v.in_queue(nw, k).len() as int,
        ),
    decreases n,
{
    let q = v.in_queue(nw, k);
    if n == 0 {
        assert(q.subrange(0, q.len() as int) =~= q);
    } else {
        lemma_dequeue_times_in(v, nw, k, (n - 1) as nat);
        let w = dequeue_times_in(v, nw, k, (n - 1) as nat);
        assert(keys_unique(w.tcp_in[nw.idx()]));
        lemma_pop_data(w.tcp_in[nw.idx()], k);
        let w2 = w.dequeue_in(nw, k).0;
        assert forall|i: int| 0 <= i < TOTAL_NUM_NW implies keys_unique(#[trigger] w2.tcp_in[i]) by {
            if i != nw.idx() {
                assert(w2.tcp_in[i] == w.tcp_in[i]);
            }
        }
        assert(q.subrange(n - 1, q.len() as int).drop_first() =~= q.subrange(n as int, q.len() as int));
    }
}

/// Buffers added one after another to a route's empty incoming queue come
/// out in the order they were added, and then the queue is empty.
pub proof fn lemma_fifo_per_route(v: StateView, nw: NwId, k: PortIpPort, items: Seq<Vec<u8>>)
    requires
        v.wf(),
        v.in_queue(nw, k).len() == 0,
    ensures
        forall|j: nat| j < items.len() ==> (#[trigger] dequeue_times_in(
            enqueue_all_in(v, nw, k, items),
            nw,
            k,
            j,
        )).dequeue_in(nw, k).1 == Some(items[j as int]),
        dequeue_times_in(enqueue_all_in(v, nw, k, items), nw, k, items.len()).dequeue_in(nw, k).1
            is None,
{
    let w = enqueue_all_in(v, nw, k, items);
    lemma_enqueue_all_in(v, nw, k, items);
    assert(w.in_queue(nw, k) =~= items);
    assert forall|j: nat| j < items.len() implies (#[trigger] dequeue_times_in(w, nw, k, j)).dequeue_in(
        nw,
        k,
    ).1 == Some(items[j as int]) by {
        lemma_dequeue_times_in(w, nw, k, j);
        let u = dequeue_times_in(w, nw, k, j);
        lemma_pop_data(u.tcp_in[nw.idx()], k);
    }
    lemma_dequeue_times_in(w, nw, k, items.len());
    let u = dequeue_times_in(w, nw, k, items.len());
    lemma_pop_data(u.tcp_in[nw.idx()], k);
}

/// Tearing the same route down twice: the first request queues the route's
/// started tasks once and removes it; the second finds no route, returns
/// false and changes nothing.
pub proof fn lemma_abort_route_idempotent(v: StateView, nw: NwId, k: PortIpPort)
    requires
        v.wf(),
    ensures
        ({
            let (v1, r1) = v.abort_route(nw, k);
            let (v2, r2) = v1.abort_route(nw, k);
            &&& !has_key(v1.routes[nw.idx()], k)
            &&& r1 == has_key(v.routes[nw.idx()], k)
            &&& r1 ==> v1.pending == v.pending + group_handles(
                v.routes[nw.idx()][key_index(v.routes[nw.idx()], k)].1,
            )
            &&& !r2
            &&& v2 == v1
        }),
{
    let t = v.routes[nw.idx()];
    assert(keys_unique(t));
    if has_key(t, k) {
        let i = key_index(t, k);
        lemma_unique_remove(t, i);
        let v1 = v.abort_route(nw, k).0;
        assert(v1.routes[nw.idx()] == t.remove(i));
    }
}

/// The state after `n` emit cycles without a beacon on network `i`.
pub open spec fn feed_times(v: StateView, i: int, n: nat) -> StateView
    decreases n,
{
    if n == 0 {
        v
    } else {
        feed_times(v, i, (n - 1) as nat).feed_tick(i)
    }
}

/// From a reset tick, network `i` stays connected through
/// `UDP_CONN_MAX_TICK` cycles without a beacon and is lost from the next
/// cycle on, so it turns from connected to lost exactly once; checking it
/// once lost sets the port to 0.
pub proof fn lemma_liveness_decay(v: StateView, i: int, n: nat)
    requires
        v.wf(),
        0 <= i < TOTAL_NUM_NW,
    ensures
        feed_times(v.reset_tick(i), i, n).ticks.len() == TOTAL_NUM_NW,
        feed_times(v.reset_tick(i), i, n).ticks[i] == (if n <= UDP_CONN_MAX_TICK + 1 { n } else {
            UDP_CONN_MAX_TICK as nat + 1
        }),
        feed_times(v.reset_tick(i), i, n).check_connected(i).1 == (n <= UDP_CONN_MAX_TICK),
        n <= UDP_CONN_MAX_TICK ==> feed_times(v.reset_tick(i), i, n).check_connected(i).0
            == feed_times(v.reset_tick(i), i, n),
        n > UDP_CONN_MAX_TICK ==> feed_times(v.reset_tick(i), i, n).check_connected(i).0.port == 0,
    decreases n,
{
    if n > 0 {
        lemma_liveness_decay(v, i, (n - 1) as nat);
    }
}

proof fn lemma_queue_of_other_key(t: Seq<(PortIpPort, DataQueue)>, k: PortIpPort, k2: PortIpPort, d: Vec<u8>)
    requires
        keys_unique(t),
        k2 != k,
    ensures
        queue_of(push_data(t, k2, d), k) == queue_of(t, k),
        queue_of(pop_data(t, k2).0, k) == queue_of(t, k),
{
    lemma_push_data(t, k2, d);
    lemma_pop_data(t, k2);
    let t1 = push_data(t, k2, d);
    let t2 = pop_data(t, k2).0;
    assert(t1.len() >= t.len());
    assert(forall|j: int| 0 <= j < t.len() && t[j].0 != k2 ==> #[trigger] t1[j] == t[j]);
    assert(t2.len() == t.len());
    assert(forall|j: int| 0 <= j < t.len() && t[j].0 != k2 ==> #[trigger] t2[j] == t[j]);
    assert(forall|j: int| 0 <= j < t1.len() && t1[j].0 == k ==> j < t.len() && #[trigger] t1[j] == t[j]);
    assert(forall|j: int| 0 <= j < t2.len() && t2[j].0 == k ==> #[trigger] t2[j] == t[j]);
    if has_key(t, k) {
        let j = key_index(t, k);
        lemma_key_index(t1, j);
        lemma_key_index(t2, j);
    } else {
        assert(!has_key(t1, k));
        assert(!has_key(t2, k));
    }
}

/// A route's incoming queue is a FIFO of its own: adding a buffer to it puts
/// the buffer at the back, taking from it returns the front and removes it,
/// and adding to or taking from any other route's queue, or an outgoing
/// queue, leaves it as it is. Each of these steps keeps the state
/// well-formed, so buffers come out of a route in the order they went in,
/// whatever happens on other routes in between.
pub proof fn lemma_queue_per_route(
    v: StateView,
    nw: NwId,
    k: PortIpPort,
    nw2: NwId,
    k2: PortIpPort,
    d: Vec<u8>,
)
    requires
        v.wf(),
    ensures
        v.enqueue_in(nw, k, d).in_queue(nw, k) == v.in_queue(nw, k).push(d),
        v.in_queue(nw, k).len() > 0 ==> v.dequeue_in(nw, k).1 == Some(v.in_queue(nw, k)[0])
            && v.dequeue_in(nw, k).0.in_queue(nw, k) == v.in_queue(nw, k).drop_first(),
        v.in_queue(nw, k).len() == 0 ==> v.dequeue_in(nw, k).1 is None && v.dequeue_in(nw, k).0
            == v,
        (nw2 != nw || k2 != k) ==> v.enqueue_in(nw2, k2, d).in_queue(nw, k) == v.in_queue(nw, k)
            && v.dequeue_in(nw2, k2).0.in_queue(nw, k) == v.in_queue(nw, k),
        v.enqueue_out(nw2, k2, d).in_queue(nw, k) == v.in_queue(nw, k),
        v.dequeue_out(nw2, k2).0.in_queue(nw, k) == v.in_queue(nw, k),
        v.enqueue_in(nw2, k2, d).wf(),
        v.dequeue_in(nw2, k2).0.wf(),
        v.enqueue_out(nw2, k2, d).wf(),
        v.dequeue_out(nw2, k2).0.wf(),
{
    let ti = v.tcp_in[nw.idx()];
    let ti2 = v.tcp_in[nw2.idx()];
    let to2 = v.tcp_out[nw2.idx()];
    assert(keys_unique(ti));
    assert(keys_unique(ti2));
    assert(keys_unique(to2));
    lemma_push_data(ti, k, d);
    lemma_pop_data(ti, k);
    lemma_push_data(ti2, k2, d);
    lemma_pop_data(ti2, k2);
    lemma_push_data(to2, k2, d);
    lemma_pop_data(to2, k2);
    if nw2 == nw && k2 != k {
        lemma_queue_of_other_key(ti, k, k2, d);
    }
    let a = v.enqueue_in(nw2, k2, d);
    let b = v.dequeue_in(nw2, k2).0;
    let c = v.enqueue_out(nw2, k2, d);
    let e = v.dequeue_out(nw2, k2).0;
    assert forall|i: int| 0 <= i < TOTAL_NUM_NW implies keys_unique(#[trigger] a.tcp_in[i]) by {
        if i != nw2.idx() {
            assert(a.tcp_in[i] == v.tcp_in[i]);
        }
    }
    assert forall|i: int| 0 <= i < TOTAL_NUM_NW implies keys_unique(#[trigger] b.tcp_in[i]) by {
        if i != nw2.idx() {
            assert(b.tcp_in[i] == v.tcp_in[i]);
        }
    }
    assert forall|i: int| 0 <= i < TOTAL_NUM_NW implies keys_unique(#[trigger] c.tcp_out[i]) by {
        if i != nw2.idx() {
            assert(c.tcp_out[i] == v.tcp_out[i]);
        }
    }
    assert forall|i: int| 0 <= i < TOTAL_NUM_NW implies keys_unique(#[trigger] e.tcp_out[i]) by {
        if i != nw2.idx() {
            assert(e.tcp_out[i] == v.tcp_out[i]);
        }
    }
    if queue_of(ti, k).len() == 0 {
        assert(v.dequeue_in(nw, k).0.tcp_in =~= v.tcp_in);
    }
}

/// A call on the data queues, as the laws over sequences of calls see it.
pub enum QueueOp {
    EnqueueIn(NwId, PortIpPort, Vec<u8>),
    DequeueIn(NwId, PortIpPort),
    EnqueueOut(NwId, PortIpPort, Vec<u8>),
    DequeueOut(NwId, PortIpPort),
}

/// The state after one call on the data queues.
pub open spec fn apply_op(v: StateView, op: QueueOp) -> StateView {
    match op {
        QueueOp::EnqueueIn(n, k, d) => v.enqueue_in(n, k, d),
        QueueOp::DequeueIn(n, k) => v.dequeue_in(n, k).0,
        QueueOp::EnqueueOut(n, k, d) => v.enqueue_out(n, k, d),
        QueueOp::DequeueOut(n, k) => v.dequeue_out(n, k).0,
    }
}

/// The state after a sequence of calls on the data queues.
pub open spec fn apply_ops(v: StateView, ops: Seq<QueueOp>) -> StateView
    decreases ops.len(),
{
    if ops.len() == 0 {
        v
    } else {
        apply_op(apply_ops(v, ops.drop_last()), ops.last())
    }
}

/// The buffers that `ops` add to route `k`'s incoming queue on `nw`, in order.
pub open spec fn enqueued_in(ops: Seq<QueueOp>, nw: NwId, k: PortIpPort) -> Seq<Vec<u8>>
    decreases ops.len(),
{
    if ops.len() == 0 {
        seq![]
    } else {
        let prev = enqueued_in(ops.drop_last(), nw, k);
        match ops.last() {
            QueueOp::EnqueueIn(n, k2, d) => if n == nw && k2 == k { prev.push(d) } else { prev },
            _ => prev,
        }
    }
}

/// The buffers that `ops`, run from `v`, take from route `k`'s incoming
/// queue on `nw`, in order.
pub open spec fn dequeued_in(v: StateView, ops: Seq<QueueOp>, nw: NwId, k: PortIpPort) -> Seq<Vec<u8>>
    decreases ops.len(),
{
    if ops.len() == 0 {
        seq![]
    } else {
        let prev = dequeued_in(v, ops.drop_last(), nw, k);
        let w = apply_ops(v, ops.drop_last());
        match ops.last() {
            QueueOp::DequeueIn(n, k2) => if n == nw && k2 == k {
                match w.dequeue_in(nw, k).1 {
                    Some(d) => prev.push(d),
                    None => prev,
                }
            } else {
                prev
            },
            _ => prev,
        }
    }
}

/// First in, first out per route, whatever calls on other routes or on the
/// outgoing queues come in between: the buffers taken from a route's
/// incoming queue, followed by what it still holds, are what it held at
/// first followed by the buffers added to it, in order.
pub proof fn lemma_fifo_interleaved(v: StateView, ops: Seq<QueueOp>, nw: NwId, k: PortIpPort)
    requires
        v.wf(),
    ensures
        apply_ops(v, ops).wf(),
        dequeued_in(v, ops, nw, k) + apply_ops(v, ops).in_queue(nw, k) == v.in_queue(nw, k)
            + enqueued_in(ops, nw, k),
    decreases ops.len(),
{
    if ops.len() == 0 {
        assert(dequeued_in(v, ops, nw, k) + v.in_queue(nw, k) =~= v.in_queue(nw, k) + enqueued_in(
            ops,
            nw,
            k,
        ));
    } else {
        let init = ops.drop_last();
        lemma_fifo_interleaved(v, init, nw, k);
        let w = apply_ops(v, init);
        let taken = dequeued_in(v, init, nw, k);
        let added = enqueued_in(init, nw, k);
        let q = w.in_queue(nw, k);
        let q0 = v.in_queue(nw, k);
        assert(taken + q == q0 + added);
        match ops.last() {
            QueueOp::EnqueueIn(n, k2, d) => {
                lemma_queue_per_route(w, nw, k, n, k2, d);
                if n == nw && k2 == k {
                    assert(taken + q.push(d) =~= q0 + added.push(d)) by {
                        assert(taken + q.push(d) =~= (taken + q).push(d));
                        assert(q0 + added.push(d) =~= (q0 + added).push(d));
                    }
                }
            },
            QueueOp::DequeueIn(n, k2) => {
                lemma_queue_per_route(w, nw, k, n, k2, arbitrary::<Vec<u8>>());
                if n == nw && k2 == k && q.len() > 0 {
                    assert(taken.push(q[0]) + q.drop_first() =~= taken + q);
                }
            },
            QueueOp::EnqueueOut(n, k2, d) => {
                lemma_queue_per_route(w, nw, k, n, k2, d);
            },
            QueueOp::DequeueOut(n, k2) => {
                lemma_queue_per_route(w, nw, k, n, k2, arbitrary::<Vec<u8>>());
            },
        }
    }
}

} // verus!
