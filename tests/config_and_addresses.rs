use element_packet_forwarder::addr::{number_text, IpAddress, SocketAddress};
use element_packet_forwarder::cli::{
    get_app_ip, get_if1_ip, get_if1_name, get_if2_ip, get_if2_name, get_interface_ips, handling_args, is_if1_ipv4,
    is_if2_ipv4, is_on_off, text_eq, Args, Config,
};
use element_packet_forwarder::fwd_tcp::{create_pinecone_tcp_sock, validate_data};
use element_packet_forwarder::fwd_udp::{create_pinecone_udp_sock, get_udp_socketaddr, PINECONE_UDP_MCAST_PORT};
use element_packet_forwarder::shared_state::{NwId, PortIpPort};

fn config(if1: &str, if2: &str, if1_ip: Option<IpAddress>, if2_ip: Option<IpAddress>) -> Config {
    Config {
        args: Args {
            if1: if1.to_string(),
            is_if1_ipv6: "off".to_string(),
            if2: if2.to_string(),
            is_if2_ipv6: "off".to_string(),
            log_level: "debug".to_string(),
        },
        if1_ip,
        if2_ip,
    }
}

#[test]
fn on_off_switch_values() {
    assert_eq!(is_on_off("on"), Ok("on".to_string()));
    assert_eq!(is_on_off("off"), Ok("off".to_string()));
    assert_eq!(is_on_off("yes"), Err("Value can be on or off".to_string()));
    assert_eq!(is_on_off(""), Err("Value can be on or off".to_string()));
    assert_eq!(is_on_off("onn"), Err("Value can be on or off".to_string()));
}

#[test]
fn arguments_checked_for_switches() {
    let a = handling_args("a".into(), "on".into(), "b".into(), "off".into(), "debug".into()).unwrap();
    assert_eq!(a.if1, "a");
    assert_eq!(a.is_if1_ipv6, "on");
    assert_eq!(a.if2, "b");
    assert_eq!(a.is_if2_ipv6, "off");
    assert_eq!(a.log_level, "debug");
    assert!(handling_args("a".into(), "maybe".into(), "b".into(), "off".into(), "debug".into()).is_err());
    assert!(handling_args("a".into(), "off".into(), "b".into(), "On".into(), "debug".into()).is_err());
}

#[test]
fn text_comparison() {
    assert!(text_eq("lo-a", "lo-a"));
    assert!(!text_eq("lo-a", "lo-b"));
    assert!(!text_eq("lo", "lo-a"));
}

#[test]
fn interface_ips_take_last_of_each_family() {
    let ips = vec![
        IpAddress::v4(10, 0, 0, 1),
        IpAddress::v6(0xfe80, 0, 0, 0, 0, 0, 0, 1),
        IpAddress::v4(10, 0, 0, 2),
    ];
    assert_eq!(
        get_interface_ips(&ips),
        (Some(IpAddress::v4(10, 0, 0, 2)), Some(IpAddress::v6(0xfe80, 0, 0, 0, 0, 0, 0, 1)))
    );
    assert_eq!(get_interface_ips(&vec![]), (None, None));
}

#[test]
fn app_ip_by_switch() {
    let v4 = Some(IpAddress::v4(1, 2, 3, 4));
    let v6 = Some(IpAddress::v6(0xfe80, 0, 0, 0, 0, 0, 0, 9));
    assert_eq!(get_app_ip(v4, v6, "off"), Ok(IpAddress::v4(1, 2, 3, 4)));
    assert_eq!(get_app_ip(v4, v6, "on"), Ok(IpAddress::v6(0xfe80, 0, 0, 0, 0, 0, 0, 9)));
    assert_eq!(get_app_ip(None, v6, "off"), Err("IPv4 is not found".to_string()));
    assert_eq!(get_app_ip(v4, None, "on"), Err("IPv6 is not found".to_string()));
}

#[test]
fn interface_family_and_names() {
    let c = config("lo-a", "lo-b", Some(IpAddress::v4(10, 0, 0, 1)), Some(IpAddress::v6(0xfe80, 0, 0, 0, 0, 0, 0, 1)));
    assert!(is_if1_ipv4(&c));
    assert!(!is_if2_ipv4(&c));
    assert_eq!(get_if1_ip(&c), Some(IpAddress::v4(10, 0, 0, 1)));
    assert_eq!(get_if2_ip(&c), Some(IpAddress::v6(0xfe80, 0, 0, 0, 0, 0, 0, 1)));
    assert_eq!(get_if1_name(&c), Some("lo-a"));
    assert_eq!(get_if2_name(&c), Some("lo-b"));
    let empty = config("", "", None, None);
    assert!(!is_if1_ipv4(&empty));
    assert_eq!(get_if1_name(&empty), None);
    assert_eq!(get_if2_name(&empty), None);
}

#[test]
fn address_text() {
    assert_eq!(IpAddress::v4(192, 168, 0, 1).to_text(), "192.168.0.1");
    assert_eq!(IpAddress::v4(0, 0, 0, 0).to_text(), "0.0.0.0");
    assert_eq!(IpAddress::v4(255, 255, 255, 255).to_text(), "255.255.255.255");
    assert_eq!(IpAddress::v6(0xff02, 0, 0, 0, 0, 0, 0, 0x114).to_text(), "ff02::114");
    assert_eq!(IpAddress::unspecified_v6().to_text(), "::");
    assert_eq!(IpAddress::v4(1, 2, 3, 4), IpAddress::V4(0x01020304));
    assert!(IpAddress::v4(1, 2, 3, 4).is_ipv4());
    assert!(!IpAddress::unspecified_v6().is_ipv4());
    assert_eq!(number_text(0), "0");
    assert_eq!(number_text(60606), "60606");
    assert_eq!(number_text(u32::MAX), "4294967295");
}

#[test]
fn multicast_destination_by_family() {
    let v4 = config("lo-a", "lo-b", Some(IpAddress::v4(10, 0, 0, 1)), None);
    assert_eq!(
        get_udp_socketaddr(&v4),
        SocketAddress { ip: IpAddress::v4(224, 0, 0, 114), port: 60606 }
    );
    let v6 = config("lo-a", "lo-b", None, None);
    assert_eq!(
        get_udp_socketaddr(&v6),
        SocketAddress { ip: IpAddress::v6(0xff02, 0, 0, 0, 0, 0, 0, 0x114), port: PINECONE_UDP_MCAST_PORT }
    );
}

#[test]
fn socket_plans_per_network() {
    let c = config("lo-a", "lo-b", Some(IpAddress::v4(10, 0, 0, 1)), Some(IpAddress::v6(0xfe80, 0, 0, 0, 0, 0, 0, 1)));
    let plan_one = create_pinecone_udp_sock(&c, NwId::One).unwrap();
    assert_eq!(plan_one.if_name, "lo-a");
    assert_eq!(plan_one.ipv4_addr, Some(IpAddress::v4(10, 0, 0, 1)));
    let plan_two = create_pinecone_udp_sock(&c, NwId::Two).unwrap();
    assert_eq!(plan_two.if_name, "lo-b");
    assert_eq!(plan_two.ipv4_addr, None);
    assert_eq!(create_pinecone_tcp_sock(&c, NwId::One), Some("lo-a"));
    assert_eq!(create_pinecone_tcp_sock(&c, NwId::Two), Some("lo-b"));
    let empty = config("", "", None, None);
    assert!(create_pinecone_udp_sock(&empty, NwId::One).is_none());
    assert_eq!(create_pinecone_tcp_sock(&empty, NwId::Two), None);
}

#[test]
fn network_index_conversion() {
    assert_eq!(NwId::from_index(0), NwId::One);
    assert_eq!(NwId::from_index(1), NwId::Two);
    assert_eq!(NwId::One.index(), 0);
    assert_eq!(NwId::Two.index(), 1);
}

#[test]
fn validation_admits_everything() {
    let k = PortIpPort { nw_one_ip: IpAddress::v4(1, 1, 1, 1), nw_one_src_port: 1, nw_two_src_port: 1 };
    assert!(validate_data(&[], k));
    assert!(validate_data(&[1, 2, 3], k));
}

#[test]
fn ipv6_text_canonical_forms() {
    let cases: Vec<(u128, &str)> = vec![
        (0, "::"),
        (1, "::1"),
        (0x0001_0000_0000_0000_0000_0000_0000_0000, "1::"),
        (0xffff_c0a8_0001, "::ffff:192.168.0.1"),
        (0x0000_ffff_0000_0000_0000_0000_0000_0001, "0:ffff::1"),
        (0xff02_0000_0000_0000_0000_0000_0000_0114, "ff02::114"),
        (0xfe80_0000_0000_0000_0001_02ab_0000_0010, "fe80::1:2ab:0:10"),
        (0x2001_0db8_0000_0001_0000_0000_0000_0001, "2001:db8:0:1::1"),
        (0x2001_0db8_0000_0000_0001_0000_0000_0001, "2001:db8::1:0:0:1"),
        (0x2001_0db8_0001_0001_0001_0001_0001_0001, "2001:db8:1:1:1:1:1:1"),
        (0x0001_0000_0001_0000_0001_0000_0001_0000, "1:0:1:0:1:0:1:0"),
        (0x0000_0000_0001_0000_0000_0000_0001_0000, "0:0:1::1:0"),
        (0x0000_0000_0000_0000_0000_0000_c0a8_0001, "::c0a8:1"),
        (0xffff_ffff_ffff_ffff_ffff_ffff_ffff_ffff, "ffff:ffff:ffff:ffff:ffff:ffff:ffff:ffff"),
    ];
    for (x, text) in cases {
        assert_eq!(IpAddress::V6(x).to_text(), text, "address {:#x}", x);
    }
}

#[test]
fn ipv4_mapped_text() {
    assert_eq!(IpAddress::v6(0, 0, 0, 0, 0, 0xffff, 0xc0a8, 0x0001).to_text(), "::ffff:192.168.0.1");
    assert_eq!(IpAddress::v6(0, 0, 0, 0, 0, 0, 0, 1).to_text(), "::1");
    assert_eq!(IpAddress::v6(0x2001, 0xdb8, 0, 1, 0, 0, 0, 1).to_text(), "2001:db8:0:1::1");
    assert_eq!(IpAddress::v6(0x2001, 0xdb8, 0, 0, 1, 0, 0, 1).to_text(), "2001:db8::1:0:0:1");
    assert_eq!(IpAddress::v6(1, 0, 1, 0, 1, 0, 1, 0).to_text(), "1:0:1:0:1:0:1:0");
}
