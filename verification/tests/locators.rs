use networking::addr::{Ipv4Addr, Ipv6Addr, SocketAddr, SocketAddrV4, SocketAddrV6};
use networking::locators::{
    append_iface_to_unicast_ll_v6, find_unscoped, peer_locators, scope_text, scoped_locators,
    LocatorError, ScoutedLocator, ScoutedPeer,
};
use networking::zid::ZenohId;

fn parts(protocol: &str, address: &str, metadata: &str) -> ScoutedLocator {
    ScoutedLocator {
        protocol: protocol.to_string(),
        address: address.to_string(),
        metadata: metadata.to_string(),
    }
}

/// The parts of a locator as it comes from Zenoh.
fn locator(text: &str) -> ScoutedLocator {
    let locator = zenoh::config::Locator::try_from(text).unwrap();
    parts(
        locator.protocol().as_str(),
        locator.address().as_str(),
        locator.metadata().as_str(),
    )
}

fn texts(locators: &[zenoh::config::Locator]) -> Vec<&str> {
    locators.iter().map(|locator| locator.as_str()).collect()
}

fn id(byte: u8) -> ZenohId {
    ZenohId::from_le_slice(&[byte]).unwrap()
}

#[test]
fn a_link_local_address_gets_the_interface() {
    for (addr, index, expected) in [
        ("[fe80::1]:7447", 3, "[fe80::1%3]:7447"),
        ("[fe80::1]:0", u32::MAX, "[fe80::1%4294967295]:0"),
        ("[fe80::1]:65535", 0, "[fe80::1%0]:65535"),
        ("[FE80:0:0:0:0:0:0:AB]:007", 12, "[fe80::ab%12]:7"),
        ("[febf:1:2:3:4:5:6:7]:80", 1, "[febf:1:2:3:4:5:6:7%1]:80"),
    ] {
        assert_eq!(append_iface_to_unicast_ll_v6(addr, index).unwrap(), expected);
    }
}

#[test]
fn the_link_local_network_ends_at_febf() {
    assert!(append_iface_to_unicast_ll_v6("[fe7f::1]:1", 1).is_none());
    assert!(append_iface_to_unicast_ll_v6("[fe80::1]:1", 1).is_some());
    assert!(append_iface_to_unicast_ll_v6("[febf::1]:1", 1).is_some());
    assert!(append_iface_to_unicast_ll_v6("[fec0::1]:1", 1).is_none());
}

#[test]
fn other_addresses_get_no_interface() {
    for addr in [
        "",
        "[2001:db8::1]:7447",
        "[::1]:7447",
        "[ff02::1]:7447",
        "192.168.0.1:7447",
        "169.254.0.1:7447",
        "localhost:7447",
        "[fe80::1]",
        "fe80::1",
        "[fe80::1]:65536",
        "[fe80::1%3]:7447",
        "%",
    ] {
        assert!(append_iface_to_unicast_ll_v6(addr, 3).is_none());
    }
}

#[test]
fn an_address_does_not_get_a_second_interface() {
    let once = append_iface_to_unicast_ll_v6("[fe80::1]:7447", 3).unwrap();
    assert!(append_iface_to_unicast_ll_v6(&once, 4).is_none());
}

#[test]
fn a_scoped_address_reads_as_the_same_one_on_the_interface() {
    for (addr, ip) in [
        ("[fe80::1]:7447", "fe80::1"),
        ("[fe80::ffff:102:304]:7447", "fe80::ffff:102:304"),
        ("[feaf:0:0:1:0:0:0:1]:7447", "feaf:0:0:1::1"),
    ] {
        let text = append_iface_to_unicast_ll_v6(addr, 12).unwrap();
        let read: core::net::SocketAddrV6 = text.parse().unwrap();
        assert_eq!(*read.ip(), ip.parse::<core::net::Ipv6Addr>().unwrap());
        assert_eq!((read.port(), read.flowinfo(), read.scope_id()), (7447, 0, 12));
    }
}

#[test]
fn which_addresses_are_to_get_an_interface() {
    let v6 = SocketAddrV6 {
        ip: Ipv6Addr { bits: 0xfe80 << 112 },
        port: 1,
        flowinfo: 0,
        scope_id: 0,
    };
    let v4 = SocketAddrV4 { ip: Ipv4Addr { bits: 1 }, port: 1 };
    assert_eq!(find_unscoped("x", Some(SocketAddr::V6(v6))), Some(v6));
    assert_eq!(find_unscoped("x%", Some(SocketAddr::V6(v6))), None);
    assert_eq!(find_unscoped("x", Some(SocketAddr::V4(v4))), None);
    assert_eq!(find_unscoped("x", None), None);
    let global = SocketAddrV6 { ip: Ipv6Addr { bits: 1 }, ..v6 };
    assert_eq!(find_unscoped("x", Some(SocketAddr::V6(global))), None);
}

#[test]
fn how_a_scoped_address_is_written() {
    assert_eq!(scope_text("fe80::1", 3, 80), "[fe80::1%3]:80");
}

#[test]
fn an_error_keeps_what_was_said() {
    assert_eq!(LocatorError::new("no".to_string()).message, "no");
}

#[test]
fn a_locator_with_an_interface_is_passed_over() {
    let locators = vec![locator("tcp/[fe80::1%3]:7447")];
    assert!(scoped_locators(&locators, 12).unwrap().is_empty());
}

#[test]
fn only_the_address_of_a_locator_is_searched_for_an_interface() {
    let locators = vec![locator("tcp/[fe80::1]:7447?rel=%")];
    let scoped = scoped_locators(&locators, 2).unwrap();
    assert_eq!(texts(&scoped), vec!["tcp/[fe80::1%2]:7447?rel=%"]);
}

#[test]
fn only_link_local_locators_are_kept_and_in_their_order() {
    let locators = vec![
        locator("tcp/192.168.0.1:7447"),
        locator("udp/[fe80::1]:7447"),
        locator("tcp/[2001:db8::1]:7447"),
        locator("tcp/[fe80::1]:7447"),
    ];
    let scoped = scoped_locators(&locators, 12).unwrap();
    assert_eq!(texts(&scoped), vec!["udp/[fe80::1%12]:7447", "tcp/[fe80::1%12]:7447"]);
}

#[test]
fn without_link_local_locators_none_are_kept() {
    let locators = vec![locator("tcp/192.168.0.1:7447")];
    assert!(scoped_locators(&locators, 12).unwrap().is_empty());
    assert!(scoped_locators(&vec![], 12).unwrap().is_empty());
}

#[test]
fn metadata_of_a_locator_is_kept() {
    for metadata in ["rel=1", "a=1;b=2", "flag", "a=x=y;flag;z=|", "a=?"] {
        let locators = vec![locator(&format!("tcp/[fe80::1]:7447?{metadata}"))];
        let scoped = scoped_locators(&locators, 2).unwrap();
        assert_eq!(texts(&scoped), vec![format!("tcp/[fe80::1%2]:7447?{metadata}")]);
    }
}

#[test]
fn metadata_that_is_not_in_order_is_put_in_order() {
    let locators = vec![parts("tcp", "[fe80::1]:7447", "b=2;a=1")];
    let scoped = scoped_locators(&locators, 2).unwrap();
    assert_eq!(texts(&scoped), vec!["tcp/[fe80::1%2]:7447?a=1;b=2"]);
}

#[test]
fn a_locator_that_lost_its_address_is_passed_over() {
    let empty = locator("tcp/#a=1");
    assert_eq!(empty.address, "");
    let locators = vec![empty, locator("tcp/[fe80::1]:7447")];
    let scoped = scoped_locators(&locators, 2).unwrap();
    assert_eq!(texts(&scoped), vec!["tcp/[fe80::1%2]:7447"]);
}

#[test]
fn a_locator_that_lost_its_metadata_is_scoped() {
    let locators = vec![locator("tcp/[fe80::1]:7447?;")];
    let scoped = scoped_locators(&locators, 2).unwrap();
    assert_eq!(texts(&scoped), vec!["tcp/[fe80::1%2]:7447"]);
}

#[test]
fn a_link_local_locator_without_a_protocol_is_refused() {
    let locators = vec![
        locator("tcp/[fe80::1]:7447"),
        parts("", "[fe80::1]:7447", ""),
    ];
    let error = scoped_locators(&locators, 2).unwrap_err();
    assert!(!error.message.is_empty());
}

#[test]
fn a_locator_that_grows_too_long_is_refused() {
    let long = |n: usize| vec![parts(&"p".repeat(n), "[fe80::1]:7447", "")];
    let scoped = scoped_locators(&long(239), 2).unwrap();
    assert_eq!(texts(&scoped), vec![format!("{}/[fe80::1%2]:7447", "p".repeat(239))]);
    assert!(scoped_locators(&long(240), 2).is_err());
    assert!(scoped_locators(&vec![parts(&"p".repeat(300), "far away", "")], 2).is_ok());
    let with_metadata = |n: usize| {
        vec![parts(&"p".repeat(n), "[fe80::1]:7447", "a=1")]
    };
    assert!(scoped_locators(&with_metadata(236), 2).is_ok());
    assert!(scoped_locators(&with_metadata(237), 2).is_err());
}

#[test]
fn different_interfaces_give_different_texts() {
    let text = |index: u32| {
        append_iface_to_unicast_ll_v6("[fe80::1]:7447", index).unwrap()
    };
    assert_ne!(text(1), text(11));
    assert_ne!(text(12), text(21));
}

#[test]
fn a_peer_is_reached_at_its_scoped_locators() {
    let peer = ScoutedPeer {
        zid: id(2),
        locators: vec![locator("tcp/[fe80::1]:7447")],
    };
    let scoped = peer_locators(&id(1), &peer, 3).unwrap().unwrap();
    assert_eq!(texts(&scoped), vec!["tcp/[fe80::1%3]:7447"]);
}

#[test]
fn a_peer_without_link_local_locators_is_reached_nowhere() {
    let peer = ScoutedPeer { zid: id(2), locators: vec![locator("tcp/192.168.0.1:7447")] };
    assert!(peer_locators(&id(1), &peer, 3).unwrap().unwrap().is_empty());
}

#[test]
fn a_node_does_not_connect_to_itself() {
    let peer = ScoutedPeer {
        zid: id(1),
        locators: vec![parts("", "[fe80::1]:7447", "")],
    };
    assert!(peer_locators(&id(1), &peer, 3).unwrap().is_none());
}

#[test]
fn a_scoped_locator_that_is_refused_is_an_error() {
    let peer = ScoutedPeer {
        zid: id(2),
        locators: vec![parts("", "[fe80::1]:7447", "")],
    };
    assert!(!peer_locators(&id(1), &peer, 3).unwrap_err().message.is_empty());
}
