//! The beacon side of the forwarder: the multicast group, the listener that
//! learns the advertised port on NW2, and the emitter that relays beacons on
//! NW1 and watches liveness.
use vstd::prelude::*;
use crate::addr::{IpAddress, SocketAddress};
use crate::cli::{Config, if1_is_ipv4, if2_is_ipv4, is_if1_ipv4, is_if2_ipv4, get_if1_name, get_if2_name};
use crate::shared_state::{
    SharedState, StateView, NwId, PortIpPort, TcpFwdRouteTask, bytes_view, beacon_port, all_zero,
    empty_beacon, all_group_handles, opt_handle, UDP_CONN_MAX_TICK, UDP_PINECONE_PAYLOAD_SIZE,
};

verus! {

/// UDP port of the Pinecone multicast group.
pub const PINECONE_UDP_MCAST_PORT: u16 = 60606;

/// 224.0.0.114 as a 32-bit value.
pub const PINECONE_UDP_MCAST_IPV4: u32 = 0xe000_0072;

/// ff02::114 as a 128-bit value.
pub const PINECONE_UDP_MCAST_IPV6: u128 = 0xff02_0000_0000_0000_0000_0000_0000_0114;

/// Size of the buffer a beacon is received into.
pub const UDP_RECV_BUFFER_SIZE: usize = 96;

/// Network index under which beacons are stored and relayed.
pub const BEACON_NW_INDEX: usize = 1;

/// Where beacons are sent on NW1: the group of NW1's address family.
pub open spec fn mcast_dest(cfg: &Config) -> SocketAddress {
    if if1_is_ipv4(cfg) {
        SocketAddress { ip: IpAddress::V4(PINECONE_UDP_MCAST_IPV4), port: PINECONE_UDP_MCAST_PORT }
    } else {
        SocketAddress { ip: IpAddress::V6(PINECONE_UDP_MCAST_IPV6), port: PINECONE_UDP_MCAST_PORT }
    }
}

/// The multicast group and port that beacons are relayed to on NW1.
pub fn get_udp_socketaddr(cfg: &Config) -> (r: SocketAddress)
    ensures
        r == mcast_dest(cfg),
{
    if is_if1_ipv4(cfg) {
        SocketAddress { ip: IpAddress::V4(PINECONE_UDP_MCAST_IPV4), port: PINECONE_UDP_MCAST_PORT }
    } else {
        SocketAddress { ip: IpAddress::V6(PINECONE_UDP_MCAST_IPV6), port: PINECONE_UDP_MCAST_PORT }
    }
}

/// How the multicast socket of a network is opened: on the network's own
/// interface, over IPv4 with its address where it runs IPv4, else over
/// IPv6.
pub struct McastSocketPlan {
    pub if_name: String,
    pub ipv4_addr: Option<IpAddress>,
}

/// The interface name and IPv4 address of a network, as the configuration
/// gives them.
pub open spec fn side_name(cfg: &Config, nw_id: NwId) -> Seq<char> {
    match nw_id {
        NwId::One => cfg.args.if1@,
        NwId::Two => cfg.args.if2@,
    }
}

pub open spec fn side_ipv4(cfg: &Config, nw_id: NwId) -> Option<IpAddress> {
    match nw_id {
        NwId::One => if if1_is_ipv4(cfg) { cfg.if1_ip } else { None },
        NwId::Two => if if2_is_ipv4(cfg) { cfg.if2_ip } else { None },
    }
}

/// The plan of the multicast socket of network `nw_id`; `None` where the
/// network's interface name is empty.
pub fn create_pinecone_udp_sock(cfg: &Config, nw_id: NwId) -> (r: Option<McastSocketPlan>)
    ensures
        r is None <==> side_name(cfg, nw_id).len() == 0,
        r matches Some(p) ==> p.if_name@ == side_name(cfg, nw_id) && p.ipv4_addr == side_ipv4(
            cfg,
            nw_id,
        ),
{
    let (name, ipv4) = match nw_id {
        NwId::One => (get_if1_name(cfg), if is_if1_ipv4(cfg) { cfg.if1_ip } else { None }),
        NwId::Two => (get_if2_name(cfg), if is_if2_ipv4(cfg) { cfg.if2_ip } else { None }),
    };
    match name {
        Some(n) => Some(McastSocketPlan { if_name: n.to_owned(), ipv4_addr: ipv4 }),
        None => None,
    }
}

/// Handles of tasks to abort.
pub type AbortList = Vec<tokio::task::JoinHandle<()>>;

/// One datagram seen by the NW2 listener, as a transition: the beacon is
/// offered to the slot and the sender recorded as destination. An accepted
/// beacon that is the first one, or that changes the port, triggers the
/// lifecycle (`port_change`): its result is then the port to listen on,
/// unless it is 0, and the tasks to abort before that. Returns the new
/// `first` latch, state, port and tasks to abort.
pub open spec fn beacon_step(first: bool, v: StateView, data: Seq<u8>, peer: IpAddress) -> (
    bool,
    StateView,
    Option<u16>,
    Seq<tokio::task::JoinHandle<()>>,
) {
    let (v1, accepted) = v.insert_beacon(BEACON_NW_INDEX as int, data);
    let v2 = v1.set_dest(peer);
    if accepted && (first || v2.port != v.port) {
        (
            false,
            v2.port_change(),
            if v2.port != 0 { Some(v2.port) } else { None },
            v2.port_change_aborts(),
        )
    } else {
        (first, v2, None, seq![])
    }
}

/// The NW2 beacon listener: it remembers whether a beacon was accepted yet.
pub struct BeaconListener {
    pub first_init: bool,
}

impl BeaconListener {
    pub fn new() -> (r: BeaconListener)
        ensures
            r.first_init,
    {
        BeaconListener { first_init: true }
    }

    /// Handles one datagram received on NW2 from `peer`, as `beacon_step`
    /// says. The caller aborts the tasks returned and then, where a port is
    /// returned, starts a TCP server on it and records it in the state.
    pub fn udp_pinecone_receive_nw_two(
        &mut self,
        state: &mut SharedState,
        data: Vec<u8>,
        peer: IpAddress,
    ) -> (r: (Option<u16>, AbortList))
        requires
            old(state).wf(),
        ensures
            final(state).wf(),
            (final(self).first_init, final(state)@, r.0, r.1@) == beacon_step(
                old(self).first_init,
                old(state)@,
                data@,
                peer,
            ),
    {
        let port_num = state.get_tcp_src_port_nw_one(NwId::Two);
        let accepted = state.insert_udp_incoming_pinecone_data(BEACON_NW_INDEX, data);
        state.set_tcp_pinecone_dest_ip_addr(NwId::Two, peer);
        let curr_port_num = state.get_tcp_src_port_nw_one(NwId::Two);
        if accepted && (self.first_init || port_num != curr_port_num) {
            self.first_init = false;
            let (start, to_abort) = state.on_port_change(curr_port_num);
            if start {
                (Some(curr_port_num), to_abort)
            } else {
                (None, to_abort)
            }
        } else {
            let none: AbortList = Vec::new();
            assert(none@ =~= Seq::<tokio::task::JoinHandle<()>>::empty());
            (None, none)
        }
    }
}

/// One emit cycle on NW1, as a transition: a beacon in the slot is taken to
/// be sent and the tick reset; with none, the tick is fed, and where NW1
/// then counts as lost (which sets the port to 0) the lifecycle tears
/// everything down and hands out the tasks to abort. Returns the state, the
/// beacon to send and the tasks to abort.
pub open spec fn emit_step(v: StateView) -> (StateView, Option<Seq<u8>>, Seq<
    tokio::task::JoinHandle<()>,
>) {
    let (v1, data) = v.take_beacon(BEACON_NW_INDEX as int);
    if data is Some {
        (v1.reset_tick(BEACON_NW_INDEX as int), data, seq![])
    } else {
        let (v2, connected) = v1.feed_tick(BEACON_NW_INDEX as int).check_connected(
            BEACON_NW_INDEX as int,
        );
        if connected {
            (v2, None, seq![])
        } else {
            (v2.port_change(), None, v2.port_change_aborts())
        }
    }
}

/// One cycle of the NW1 emitter, as `emit_step` says: the result is the
/// beacon to send to the multicast group and the tasks to abort.
pub fn udp_pinecone_send_nw_one(state: &mut SharedState) -> (r: (Option<Vec<u8>>, AbortList))
    requires
        old(state).wf(),
    ensures
        final(state).wf(),
        (final(state)@, bytes_view(r.0), r.1@) == emit_step(old(state)@),
{
    let data = state.get_udp_incoming_pinecone_data(BEACON_NW_INDEX);
    let none: AbortList = Vec::new();
    assert(none@ =~= Seq::<tokio::task::JoinHandle<()>>::empty());
    match data {
        Some(d) => {
            state.udp_pinecone_reset_tick(BEACON_NW_INDEX);
            (Some(d), none)
        },
        None => {
            state.udp_pinecone_feed_tick(BEACON_NW_INDEX);
            if !state.is_udp_pinecone_connected(BEACON_NW_INDEX) {
                let (_, to_abort) = state.on_port_change(0);
                (None, to_abort)
            } else {
                (None, none)
            }
        },
    }
}

/// Two accepted beacons on NW2 with different ports: whatever the first one
/// did, the second runs the lifecycle exactly once over the state it finds.
/// No route and no server remain; the tasks handed out to be aborted are
/// those queued before, every route's tasks on both networks, and the old
/// server; a server is asked for on the new port, unless that port is 0.
pub proof fn lemma_port_change_triggers_teardown(
    first: bool,
    v: StateView,
    b1: Seq<u8>,
    peer1: IpAddress,
    b2: Seq<u8>,
    peer2: IpAddress,
)
    requires
        b1.len() == UDP_PINECONE_PAYLOAD_SIZE,
        b2.len() == UDP_PINECONE_PAYLOAD_SIZE,
        beacon_port(b1) != beacon_port(b2),
    ensures
        ({
            let (f1, v1, r1, a1) = beacon_step(first, v, b1, peer1);
            let (f2, v2, r2, a2) = beacon_step(f1, v1, b2, peer2);
            &&& !f2
            &&& v2 == v1.insert_beacon(BEACON_NW_INDEX as int, b2).0.set_dest(peer2).port_change()
            &&& v2.port == beacon_port(b2)
            &&& v2.routes == seq![
                Seq::<(PortIpPort, TcpFwdRouteTask)>::empty(),
                Seq::<(PortIpPort, TcpFwdRouteTask)>::empty(),
            ]
            &&& v2.server is None
            &&& v2.pending.len() == 0
            &&& a2 == v1.pending + all_group_handles(v1.routes[0]) + all_group_handles(v1.routes[1])
                + opt_handle(v1.server)
            &&& r2 == (if beacon_port(b2) != 0 { Some(beacon_port(b2)) } else { None::<u16> })
        }),
{
}

/// A beacon accepted on NW2 is relayed by the next emit cycle, and only by
/// that one: the cycle after it finds the slot empty.
pub proof fn lemma_beacon_relayed_once(first: bool, v: StateView, b: Seq<u8>, peer: IpAddress)
    requires
        v.wf(),
        b.len() == UDP_PINECONE_PAYLOAD_SIZE,
        !all_zero(b),
    ensures
        ({
            let (f1, v1, r1, a1) = beacon_step(first, v, b, peer);
            let (v2, sent, a2) = emit_step(v1);
            let (v3, again, a3) = emit_step(v2);
            &&& sent == Some(b)
            &&& again is None
        }),
{
    let v1 = beacon_step(first, v, b, peer).1;
    assert(v1.beacon == b);
    let v2 = emit_step(v1).0;
    assert(v2.beacon == empty_beacon());
    assert(all_zero(empty_beacon()));
}

/// An emit cycle without a beacon that finds NW1 lost leaves the port at 0
/// and no route and no server behind, and hands out to be aborted the tasks
/// queued before, every route's tasks on both networks, and the server.
pub proof fn lemma_liveness_loss_tears_down(v: StateView)
    requires
        v.wf(),
        all_zero(v.beacon),
        v.ticks[BEACON_NW_INDEX as int] >= UDP_CONN_MAX_TICK,
    ensures
        ({
            let (w, sent, aborts) = emit_step(v);
            &&& sent is None
            &&& aborts == v.pending + all_group_handles(v.routes[0]) + all_group_handles(v.routes[1])
                + opt_handle(v.server)
            &&& w.port == 0
            &&& w.routes == seq![Seq::<(PortIpPort, TcpFwdRouteTask)>::empty(), Seq::<(PortIpPort, TcpFwdRouteTask)>::empty()]
            &&& w.server is None
            &&& w.pending.len() == 0
        }),
{
}

} // verus!
