//! The decisions of the TCP splice: the key of an accepted connection, what
//! a read on either socket leads to, and what the forwarder passes on.
use vstd::prelude::*;
use crate::addr::SocketAddress;
use crate::cli::{Config, get_if1_name, get_if2_name};
use crate::shared_state::{SharedState, PortIpPort, NwId};
use crate::fwd_udp::side_name;

verus! {

/// Backlog of the TCP server.
pub const MAX_CLIENT_NUM: i32 = 128;

/// Most bytes taken by one read on a spliced socket.
pub const TCP_PAYLOAD_SIZE: usize = 65535;

/// Capacity of each queue between the tasks of a route.
pub const ROUTE_QUEUE_CAPACITY: usize = 100;

/// The key of a connection accepted from `peer`: the NW2 source port
/// mirrors the NW1 source port.
pub open spec fn route_of_peer(peer: SocketAddress) -> PortIpPort {
    PortIpPort { nw_one_ip: peer.ip, nw_one_src_port: peer.port, nw_two_src_port: peer.port }
}

pub fn route_for_peer(peer: SocketAddress) -> (r: PortIpPort)
    ensures
        r == route_of_peer(peer),
{
    PortIpPort { nw_one_ip: peer.ip, nw_one_src_port: peer.port, nw_two_src_port: peer.port }
}

/// Which data the forwarder passes on: all of it.
pub open spec fn data_is_valid(data: Seq<u8>, route_info: PortIpPort) -> bool {
    true
}

/// Packet validation hook of the forwarder.
pub fn validate_data(data: &[u8], route_info: PortIpPort) -> (r: bool)
    ensures
        r == data_is_valid(data@, route_info),
{
    true
}

/// The forwarder's step: a buffer taken from the incoming queue is passed
/// on where it is valid, and dropped otherwise.
pub fn forwarding_process(data: Vec<u8>, route_info: PortIpPort) -> (r: Option<Vec<u8>>)
    ensures
        data_is_valid(data@, route_info) ==> r == Some(data),
        !data_is_valid(data@, route_info) ==> r is None,
{
    if validate_data(data.as_slice(), route_info) {
        Some(data)
    } else {
        None
    }
}

/// Whether a read brought bytes: it succeeded and did not report a closed
/// connection.
pub open spec fn read_has_data(read: Option<usize>) -> bool {
    read matches Some(n) && n > 0
}

/// A read on a spliced socket of route `route_info`, registered on
/// `recv_nw_id`. `read` is the number of bytes read into `buf`, or `None`
/// for a failed read. Bytes read are returned to be queued to the other
/// side; a closed connection (0 bytes) or a failure tears the route down
/// and returns `None`.
pub fn receive_tcp_pinecone_process(
    state: &mut SharedState,
    recv_nw_id: NwId,
    route_info: PortIpPort,
    buf: &[u8],
    read: Option<usize>,
) -> (r: Option<Vec<u8>>)
    requires
        old(state).wf(),
        read matches Some(n) ==> n <= buf@.len(),
    ensures
        final(state).wf(),
        read_has_data(read) ==> (r matches Some(d) && d@ == buf@.subrange(0, read->Some_0 as int))
            && final(state)@ == old(state)@,
        !read_has_data(read) ==> r is None && final(state)@ == old(state)@.abort_route(
            recv_nw_id,
            route_info,
        ).0,
{
    match read {
        Some(n) if n > 0 => {
            let mut d: Vec<u8> = Vec::new();
            let mut i: usize = 0;
            while i < n
                invariant
                    n <= buf@.len(),
                    0 <= i <= n,
                    d@ == buf@.subrange(0, i as int),
                decreases n - i,
            {
                d.push(buf[i]);
                i = i + 1;
                assert(d@ =~= buf@.subrange(0, i as int));
            }
            Some(d)
        },
        _ => {
            state.send_term_signal_for_tcproute(recv_nw_id, route_info);
            None
        },
    }
}

/// The interface the TCP server of network `nw_id` listens on; `None`
/// where its name is empty.
pub fn create_pinecone_tcp_sock(cfg: &Config, nw_id: NwId) -> (r: Option<&str>)
    ensures
        r is None <==> side_name(cfg, nw_id).len() == 0,
        r matches Some(n) ==> n@ == side_name(cfg, nw_id),
{
    match nw_id {
        NwId::One => get_if1_name(cfg),
        NwId::Two => get_if2_name(cfg),
    }
}

} // verus!
