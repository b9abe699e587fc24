use element_packet_forwarder::addr::{IpAddress, SocketAddress};
use element_packet_forwarder::cli::{Args, Config};
use element_packet_forwarder::fwd_tcp::{forwarding_process, receive_tcp_pinecone_process, route_for_peer};
use element_packet_forwarder::fwd_udp::{udp_pinecone_send_nw_one, BeaconListener, BEACON_NW_INDEX};
use element_packet_forwarder::shared_state::{NwId, PortIpPort, SharedState, UDP_CONN_MAX_TICK, UDP_PINECONE_PAYLOAD_SIZE};

fn beacon(high: u8, low: u8) -> Vec<u8> {
    let mut b = vec![7u8; UDP_PINECONE_PAYLOAD_SIZE];
    b[32] = high;
    b[33] = low;
    b
}

fn key(last: u8, port: u16) -> PortIpPort {
    PortIpPort { nw_one_ip: IpAddress::v4(10, 0, 0, last), nw_one_src_port: port, nw_two_src_port: port }
}

fn abort_all(handles: Vec<tokio::task::JoinHandle<()>>) {
    for h in handles {
        h.abort();
    }
}

fn receive(listener: &mut BeaconListener, state: &mut SharedState, data: Vec<u8>, peer: IpAddress) -> Option<u16> {
    let (start, to_abort) = listener.udp_pinecone_receive_nw_two(state, data, peer);
    abort_all(to_abort);
    start
}

fn send(state: &mut SharedState) -> Option<Vec<u8>> {
    let (beacon, to_abort) = udp_pinecone_send_nw_one(state);
    abort_all(to_abort);
    beacon
}

fn runtime() -> tokio::runtime::Runtime {
    tokio::runtime::Builder::new_current_thread().enable_all().build().unwrap()
}

fn idle_task(rt: &tokio::runtime::Runtime) -> Option<tokio::task::JoinHandle<()>> {
    Some(rt.spawn(async {}))
}

fn add_route(state: &mut SharedState, rt: &tokio::runtime::Runtime, k: PortIpPort) -> bool {
    state.add_new_tcp_conn_route(NwId::One, k, idle_task(rt), idle_task(rt), idle_task(rt), idle_task(rt), idle_task(rt))
}

fn config(if1_ip: Option<IpAddress>, if2_ip: Option<IpAddress>) -> Config {
    Config {
        args: Args {
            if1: "lo-a".to_string(),
            is_if1_ipv6: "off".to_string(),
            if2: "lo-b".to_string(),
            is_if2_ipv6: "off".to_string(),
            log_level: "debug".to_string(),
        },
        if1_ip,
        if2_ip,
    }
}

#[test]
fn port_round_trip_over_all_ports() {
    let mut state = SharedState::new();
    for p in 0..=u16::MAX {
        let b = beacon((p >> 8) as u8, (p & 0xff) as u8);
        state.set_tcp_src_port_nw_one(&b);
        assert_eq!(state.get_tcp_src_port_nw_one(NwId::One), p);
    }
}

#[test]
fn port_takes_high_byte_at_index_32() {
    let mut state = SharedState::new();
    assert!(state.insert_udp_incoming_pinecone_data(1, beacon(0x01, 0x02)));
    assert_eq!(state.get_tcp_src_port_nw_one(NwId::Two), 0x0102);
}

#[test]
fn beacon_of_wrong_size_changes_nothing() {
    let mut state = SharedState::new();
    assert!(state.insert_udp_incoming_pinecone_data(1, beacon(0x12, 0x34)));
    for n in [0usize, 1, 33, 35, 96] {
        assert!(!state.insert_udp_incoming_pinecone_data(1, vec![9u8; n]));
        assert_eq!(state.get_tcp_src_port_nw_one(NwId::One), 0x1234);
        assert_eq!(state.udp_incoming_pinecone_slot(), beacon(0x12, 0x34));
    }
}

#[test]
fn beacon_insert_refused_for_other_indices() {
    let mut state = SharedState::new();
    assert!(!state.insert_udp_incoming_pinecone_data(0, beacon(1, 1)));
    assert!(!state.insert_udp_incoming_pinecone_data(2, beacon(1, 1)));
    assert_eq!(state.get_tcp_src_port_nw_one(NwId::One), 0);
    assert_eq!(state.get_udp_incoming_pinecone_data(0), None);
}

#[test]
fn fifo_order_per_route() {
    let mut state = SharedState::new();
    let k = key(1, 5000);
    let other = key(2, 5001);
    let items: Vec<Vec<u8>> = (0u8..20).map(|i| vec![i, i + 1, i + 2]).collect();
    for (n, item) in items.iter().enumerate() {
        assert!(state.insert_tcp_incoming_data(NwId::One, k, item.clone()));
        assert!(state.insert_tcp_incoming_data(NwId::One, other, vec![200, n as u8]));
    }
    for item in &items {
        assert_eq!(state.get_tcp_incoming_data(NwId::One, k), Some(item.clone()));
    }
    assert_eq!(state.get_tcp_incoming_data(NwId::One, k), None);
    assert_eq!(state.get_tcp_incoming_data(NwId::One, other), Some(vec![200, 0]));
    assert_eq!(state.get_tcp_outgoing_data(NwId::One, k), None);
}

#[test]
fn outgoing_queue_is_fifo_and_removable() {
    let mut state = SharedState::new();
    let k = key(3, 7000);
    state.insert_tcp_outgoing_data(NwId::Two, k, vec![1]);
    state.insert_tcp_outgoing_data(NwId::Two, k, vec![2]);
    assert_eq!(state.get_tcp_outgoing_data(NwId::Two, k), Some(vec![1]));
    assert!(state.remove_tcp_outgoing_route(NwId::Two, k));
    assert!(!state.has_tcp_outgoing_route(NwId::Two, k));
    assert_eq!(state.get_tcp_outgoing_data(NwId::Two, k), None);
    state.insert_tcp_incoming_data(NwId::Two, k, vec![3]);
    assert!(state.remove_tcp_incoming_route(NwId::Two, k));
    assert!(!state.has_tcp_incoming_route(NwId::Two, k));
}

#[test]
fn route_insert_refuses_existing_key() {
    let rt = runtime();
    let mut state = SharedState::new();
    let k = key(1, 4000);
    assert!(add_route(&mut state, &rt, k));
    assert!(!state.add_new_tcp_conn_route(NwId::One, k, None, None, None, None, None));
    assert_eq!(state.tcp_conn_route_count(NwId::One), 1);
    // The group kept is the first one: tearing it down queues its five tasks.
    assert!(state.send_term_signal_for_tcproute(NwId::One, k));
    assert_eq!(state.term_task_handle_count(), 5);
}

#[test]
fn route_teardown_twice_queues_once() {
    let rt = runtime();
    let mut state = SharedState::new();
    let k = key(1, 4001);
    assert!(add_route(&mut state, &rt, k));
    assert!(state.send_term_signal_for_tcproute(NwId::One, k));
    assert!(!state.send_term_signal_for_tcproute(NwId::One, k));
    assert_eq!(state.term_task_handle_count(), 5);
    assert!(!state.has_tcp_conn_route(NwId::One, k));
    assert_eq!(state.check_term_signal_tasks().len(), 5);
    assert_eq!(state.term_task_handle_count(), 0);
    assert_eq!(state.check_term_signal_tasks().len(), 0);
    assert_eq!(state.term_task_handle_count(), 0);
}

#[test]
fn route_teardown_counts_started_tasks_only() {
    let rt = runtime();
    let mut state = SharedState::new();
    let k = key(4, 4002);
    assert!(state.add_new_tcp_conn_route(NwId::Two, k, idle_task(&rt), None, idle_task(&rt), None, None));
    assert!(!state.send_term_signal_for_tcproute(NwId::One, k));
    assert!(state.send_term_signal_for_tcproute(NwId::Two, k));
    assert_eq!(state.term_task_handle_count(), 2);
}

#[test]
fn liveness_decays_after_max_tick_plus_one_feeds() {
    let mut state = SharedState::new();
    assert!(state.insert_udp_incoming_pinecone_data(1, beacon(0x10, 0x20)));
    state.udp_pinecone_reset_tick(1);
    let mut seen = Vec::new();
    for _ in 0..(UDP_CONN_MAX_TICK as usize + 1) {
        state.udp_pinecone_feed_tick(1);
        seen.push(state.is_udp_pinecone_connected(1));
    }
    assert_eq!(seen, vec![true, true, true, false]);
    assert_eq!(state.get_tcp_src_port_nw_one(NwId::One), 0);
    state.udp_pinecone_feed_tick(1);
    assert_eq!(state.udp_pinecone_tick(1), UDP_CONN_MAX_TICK + 1);
    assert!(!state.is_udp_pinecone_connected(1));
}

#[test]
fn new_state_starts_disconnected() {
    let mut state = SharedState::new();
    assert_eq!(state.udp_pinecone_tick(0), UDP_CONN_MAX_TICK + 1);
    assert!(!state.is_udp_pinecone_connected(0));
    assert_eq!(state.get_tcp_pinecone_dest_ip_addr(), IpAddress::unspecified_v6());
    assert!(!state.has_tcp_pinecone_server_main_task_handle());
}

#[test]
fn term_signal_is_consumed() {
    let mut state = SharedState::new();
    assert!(!state.is_tcp_server_pinecone_term_signal_available());
    state.send_tcp_server_pinecone_term_signal();
    assert!(state.is_tcp_server_pinecone_term_signal_available());
    assert!(!state.is_tcp_server_pinecone_term_signal_available());
}

#[test]
fn server_handle_replacement_queues_the_old_one() {
    let rt = runtime();
    let mut state = SharedState::new();
    state.update_tcp_pinecone_server_main_task_handle(idle_task(&rt));
    assert_eq!(state.term_task_handle_count(), 0);
    state.update_tcp_pinecone_server_main_task_handle(idle_task(&rt));
    assert_eq!(state.term_task_handle_count(), 1);
    assert!(state.has_tcp_pinecone_server_main_task_handle());
    state.send_term_signal_all_task_handles();
    assert_eq!(state.term_task_handle_count(), 2);
    assert!(!state.has_tcp_pinecone_server_main_task_handle());
}

#[test]
fn abort_all_clears_both_networks() {
    let rt = runtime();
    let mut state = SharedState::new();
    assert!(add_route(&mut state, &rt, key(1, 1)));
    assert!(add_route(&mut state, &rt, key(2, 2)));
    assert!(state.add_new_tcp_conn_route(NwId::Two, key(3, 3), idle_task(&rt), None, None, None, None));
    state.update_tcp_pinecone_server_main_task_handle(idle_task(&rt));
    state.send_term_signal_all_task_handles();
    assert_eq!(state.tcp_conn_route_count(NwId::One), 0);
    assert_eq!(state.tcp_conn_route_count(NwId::Two), 0);
    assert_eq!(state.term_task_handle_count(), 12);
}

#[test]
fn port_change_between_beacons_tears_down() {
    let rt = runtime();
    let mut state = SharedState::new();
    let mut listener = BeaconListener::new();
    let peer = IpAddress::v4(192, 168, 100, 2);
    assert_eq!(receive(&mut listener, &mut state, beacon(0x11, 0x11), peer), Some(0x1111));
    assert!(add_route(&mut state, &rt, key(1, 1)));
    // Same port again: nothing happens.
    assert_eq!(receive(&mut listener, &mut state, beacon(0x11, 0x11), peer), None);
    assert_eq!(state.tcp_conn_route_count(NwId::One), 1);
    // A new port: the lifecycle runs once.
    assert_eq!(receive(&mut listener, &mut state, beacon(0x22, 0x22), peer), Some(0x2222));
    assert_eq!(state.tcp_conn_route_count(NwId::One), 0);
    assert_eq!(state.term_task_handle_count(), 0);
}

#[test]
fn cold_start_first_beacon() {
    let mut state = SharedState::new();
    let mut listener = BeaconListener::new();
    let r = receive(&mut listener, &mut state, beacon(0x9f, 0x93), IpAddress::v4(127, 0, 0, 2));
    assert_eq!(state.get_tcp_src_port_nw_one(NwId::One), 0x9f93);
    assert_eq!(r, Some(0x9f93));
    assert_eq!(state.get_tcp_pinecone_dest_ip_addr(), IpAddress::v4(127, 0, 0, 2));
}

#[test]
fn beacon_relayed_exactly_once() {
    let mut state = SharedState::new();
    let mut listener = BeaconListener::new();
    let b = beacon(0x9f, 0x93);
    receive(&mut listener, &mut state, b.clone(), IpAddress::v4(127, 0, 0, 2));
    assert_eq!(send(&mut state), Some(b));
    assert_eq!(state.udp_pinecone_tick(BEACON_NW_INDEX), 0);
    assert_eq!(send(&mut state), None);
    assert_eq!(state.udp_pinecone_tick(BEACON_NW_INDEX), 1);
}

#[test]
fn connection_splice_passes_bytes_both_ways() {
    let mut state = SharedState::new();
    let peer = SocketAddress { ip: IpAddress::v4(10, 1, 1, 1), port: 40000 };
    let k = route_for_peer(peer);
    assert_eq!(k, PortIpPort { nw_one_ip: peer.ip, nw_one_src_port: 40000, nw_two_src_port: 40000 });
    let mut buf = vec![0u8; 64];
    buf[..5].copy_from_slice(b"hello");
    let read = receive_tcp_pinecone_process(&mut state, NwId::One, k, &buf, Some(5));
    assert_eq!(read, Some(b"hello".to_vec()));
    assert_eq!(forwarding_process(read.unwrap(), k), Some(b"hello".to_vec()));
    buf[..5].copy_from_slice(b"world");
    let back = receive_tcp_pinecone_process(&mut state, NwId::One, k, &buf, Some(5));
    assert_eq!(back, Some(b"world".to_vec()));
}

#[test]
fn closed_or_failed_read_tears_route_down() {
    let rt = runtime();
    let mut state = SharedState::new();
    let k = key(5, 5555);
    assert!(add_route(&mut state, &rt, k));
    assert_eq!(receive_tcp_pinecone_process(&mut state, NwId::One, k, &[1, 2, 3], Some(0)), None);
    assert!(!state.has_tcp_conn_route(NwId::One, k));
    assert_eq!(state.term_task_handle_count(), 5);
    assert!(add_route(&mut state, &rt, k));
    assert_eq!(receive_tcp_pinecone_process(&mut state, NwId::One, k, &[1, 2, 3], None), None);
    assert_eq!(state.term_task_handle_count(), 10);
}

#[test]
fn port_change_with_active_route() {
    let rt = runtime();
    let mut state = SharedState::new();
    let mut listener = BeaconListener::new();
    let peer = IpAddress::v4(127, 0, 0, 2);
    assert_eq!(receive(&mut listener, &mut state, beacon(0x9f, 0x93), peer), Some(0x9f93));
    state.update_tcp_pinecone_server_main_task_handle(idle_task(&rt));
    assert!(add_route(&mut state, &rt, key(1, 1)));
    assert_eq!(receive(&mut listener, &mut state, beacon(0x9f, 0x94), peer), Some(0x9f94));
    assert_eq!(state.tcp_conn_route_count(NwId::One), 0);
    assert!(!state.has_tcp_pinecone_server_main_task_handle());
    assert_eq!(state.get_tcp_src_port_nw_one(NwId::One), 0x9f94);
}

#[test]
fn liveness_loss_after_four_empty_cycles() {
    let rt = runtime();
    let mut state = SharedState::new();
    let mut listener = BeaconListener::new();
    receive(&mut listener, &mut state, beacon(0x9f, 0x93), IpAddress::v4(127, 0, 0, 2));
    state.update_tcp_pinecone_server_main_task_handle(idle_task(&rt));
    assert!(send(&mut state).is_some());
    assert!(add_route(&mut state, &rt, key(1, 1)));
    for _ in 0..3 {
        assert_eq!(send(&mut state), None);
        assert_eq!(state.tcp_conn_route_count(NwId::One), 1);
    }
    assert_eq!(send(&mut state), None);
    assert!(!state.is_udp_pinecone_connected(BEACON_NW_INDEX));
    assert_eq!(state.get_tcp_src_port_nw_one(NwId::One), 0);
    assert_eq!(state.tcp_conn_route_count(NwId::One), 0);
    assert!(!state.has_tcp_pinecone_server_main_task_handle());
    // Beacons resume with the same port: the server is started again.
    assert_eq!(
        receive(&mut listener, &mut state, beacon(0x9f, 0x93), IpAddress::v4(127, 0, 0, 2)),
        Some(0x9f93)
    );
}

#[test]
fn malformed_beacon_changes_nothing() {
    let rt = runtime();
    let mut state = SharedState::new();
    let mut listener = BeaconListener::new();
    let peer = IpAddress::v4(127, 0, 0, 2);
    receive(&mut listener, &mut state, beacon(0x9f, 0x93), peer);
    assert!(add_route(&mut state, &rt, key(1, 1)));
    let r = receive(&mut listener, &mut state, vec![0xab; 33], peer);
    assert_eq!(r, None);
    assert_eq!(state.get_tcp_src_port_nw_one(NwId::One), 0x9f93);
    assert_eq!(state.tcp_conn_route_count(NwId::One), 1);
}

#[test]
fn malformed_first_beacon_keeps_listener_waiting() {
    let mut state = SharedState::new();
    let mut listener = BeaconListener::new();
    let peer = IpAddress::v4(127, 0, 0, 2);
    assert_eq!(receive(&mut listener, &mut state, vec![1; 10], peer), None);
    assert!(listener.first_init);
    assert_eq!(receive(&mut listener, &mut state, beacon(0, 0), peer), None);
    assert!(!listener.first_init);
}

#[test]
fn destination_string_for_each_family() {
    let mut state = SharedState::new();
    let mut listener = BeaconListener::new();
    receive(&mut listener, &mut state, beacon(0x9f, 0x93), IpAddress::v4(192, 168, 100, 1));
    let v4 = config(Some(IpAddress::v4(10, 0, 0, 1)), Some(IpAddress::v4(192, 168, 100, 5)));
    assert_eq!(state.get_tcp_pinecone_dest_sock_addr(NwId::Two, &v4), "192.168.100.1:40851");
    state.set_tcp_pinecone_dest_ip_addr(NwId::Two, IpAddress::v6(0xfe80, 0, 0, 0, 0x1, 0x2ab, 0, 0x10));
    let v6 = config(None, Some(IpAddress::v6(0xfe80, 0, 0, 0, 0, 0, 0, 1)));
    assert_eq!(state.get_tcp_pinecone_dest_sock_addr(NwId::Two, &v6), "fe80::1:2ab:0:10%lo-b:40851");
    // The form follows the destination's family, not the interface's.
    assert_eq!(state.get_tcp_pinecone_dest_sock_addr(NwId::Two, &v4), "fe80::1:2ab:0:10%lo-b:40851");
    state.set_tcp_pinecone_dest_ip_addr(NwId::Two, IpAddress::v4(1, 2, 3, 4));
    assert_eq!(state.get_tcp_pinecone_dest_sock_addr(NwId::Two, &v6), "1.2.3.4:40851");
}

#[test]
fn port_change_hands_out_old_tasks_to_abort() {
    let rt = runtime();
    let mut state = SharedState::new();
    let mut listener = BeaconListener::new();
    let peer = IpAddress::v4(127, 0, 0, 2);
    let (tx, rx) = tokio::sync::oneshot::channel::<()>();
    let server = rt.spawn(async move {
        let _keep = tx;
        std::future::pending::<()>().await;
    });
    assert_eq!(receive(&mut listener, &mut state, beacon(0x9f, 0x93), peer), Some(0x9f93));
    state.update_tcp_pinecone_server_main_task_handle(Some(server));
    assert!(add_route(&mut state, &rt, key(1, 1)));
    assert!(state.add_new_tcp_conn_route(NwId::Two, key(2, 2), idle_task(&rt), None, None, None, None));
    let (start, to_abort) = listener.udp_pinecone_receive_nw_two(&mut state, beacon(0x9f, 0x94), peer);
    assert_eq!(start, Some(0x9f94));
    // Five tasks of the NW1 route, one of the NW2 route, and the server.
    assert_eq!(to_abort.len(), 7);
    assert_eq!(state.term_task_handle_count(), 0);
    abort_all(to_abort);
    assert!(rt.block_on(rx).is_err());
}

#[test]
fn liveness_loss_hands_out_active_tasks_to_abort() {
    let rt = runtime();
    let mut state = SharedState::new();
    let mut listener = BeaconListener::new();
    receive(&mut listener, &mut state, beacon(0x9f, 0x93), IpAddress::v4(127, 0, 0, 2));
    state.update_tcp_pinecone_server_main_task_handle(idle_task(&rt));
    assert!(add_route(&mut state, &rt, key(1, 1)));
    assert!(send(&mut state).is_some());
    for _ in 0..3 {
        let (beacon, to_abort) = udp_pinecone_send_nw_one(&mut state);
        assert_eq!(beacon, None);
        assert!(to_abort.is_empty());
    }
    let (beacon, to_abort) = udp_pinecone_send_nw_one(&mut state);
    assert_eq!(beacon, None);
    assert_eq!(to_abort.len(), 6);
    abort_all(to_abort);
}

#[test]
fn fifo_order_with_other_routes_in_between() {
    let mut state = SharedState::new();
    let k = key(1, 6000);
    let other = key(2, 6001);
    state.insert_tcp_incoming_data(NwId::One, k, vec![1]);
    state.insert_tcp_incoming_data(NwId::One, other, vec![9]);
    state.insert_tcp_outgoing_data(NwId::One, k, vec![8]);
    state.insert_tcp_incoming_data(NwId::One, k, vec![2]);
    assert_eq!(state.get_tcp_incoming_data(NwId::One, other), Some(vec![9]));
    assert_eq!(state.get_tcp_incoming_data(NwId::One, k), Some(vec![1]));
    state.insert_tcp_incoming_data(NwId::Two, k, vec![7]);
    state.insert_tcp_incoming_data(NwId::One, k, vec![3]);
    assert_eq!(state.get_tcp_outgoing_data(NwId::One, k), Some(vec![8]));
    assert_eq!(state.get_tcp_incoming_data(NwId::One, k), Some(vec![2]));
    assert_eq!(state.get_tcp_incoming_data(NwId::One, k), Some(vec![3]));
    assert_eq!(state.get_tcp_incoming_data(NwId::One, k), None);
    assert_eq!(state.get_tcp_incoming_data(NwId::Two, k), Some(vec![7]));
}

#[test]
fn reaping_cancels_the_route_tasks() {
    let rt = runtime();
    let mut state = SharedState::new();
    let (tx, rx) = tokio::sync::oneshot::channel::<()>();
    let task = rt.spawn(async move {
        let _keep = tx;
        std::future::pending::<()>().await;
    });
    let k = key(9, 9999);
    assert!(state.add_new_tcp_conn_route(NwId::One, k, Some(task), None, None, None, None));
    assert!(state.send_term_signal_for_tcproute(NwId::One, k));
    abort_all(state.check_term_signal_tasks());
    // The task was cancelled, so its sender is gone without a value.
    assert!(rt.block_on(rx).is_err());
}
