use networking::addr::{Ipv4Addr, Ipv6Addr, SocketAddr, SocketAddrV4, SocketAddrV6};
use networking::discovery::{
    AnnounceState, Announcement, Discovery, DropReason, Reaction, Reply, RespondEvent,
    RespondState, GROUP_BITS, PORT,
};
use networking::wire::Malformed;
use networking::zid::ZenohId;

type State = RespondState<&'static str>;
type Event = RespondEvent<&'static str>;

const NONCE: [u8; 8] = [1, 2, 3, 4, 5, 6, 7, 8];

fn id(byte: u8) -> ZenohId {
    ZenohId::from_le_slice(&[byte]).unwrap()
}

fn v6(bits: u128, scope_id: u32) -> SocketAddr {
    SocketAddr::V6(SocketAddrV6 { ip: Ipv6Addr { bits }, port: PORT, flowinfo: 0, scope_id })
}

fn v4() -> SocketAddr {
    SocketAddr::V4(SocketAddrV4 { ip: Ipv4Addr { bits: 0xc0a8_0001 }, port: PORT })
}

fn node(byte: u8) -> Discovery {
    Discovery::new(id(byte))
}

fn hello(nonce: [u8; 8]) -> Vec<u8> {
    let mut packet = b"EXO\x00".to_vec();
    packet.extend(nonce);
    packet
}

fn answer(nonce: [u8; 8], zid: [u8; 16]) -> Vec<u8> {
    let mut packet = b"EXO\x01".to_vec();
    packet.extend(nonce);
    packet.extend(zid);
    packet
}

fn dropped(node: &Discovery, datagram: &[u8], from: SocketAddr) -> DropReason {
    match node.respond(datagram, from) {
        Reaction::Drop(reason) => reason,
        other => panic!("{other:?}"),
    }
}

#[test]
fn the_group_and_the_port() {
    assert_eq!(GROUP_BITS, 0xff12_0000_0000_0000_0000_0000_e0a1_de89);
    assert_eq!(PORT, 52414);
}

#[test]
fn an_announcement_starts_with_the_magic() {
    let a = node(1).announce_with([9; 8]);
    assert_eq!(a.packet, vec![0x45, 0x58, 0x4f, 0, 9, 9, 9, 9, 9, 9, 9, 9]);
    assert!(a.addrs.is_empty());
}

#[test]
fn hellos_go_to_the_group_on_each_enabled_interface() {
    let mut node = node(1);
    assert_eq!(node.enable_iface::<u8>(3, Ok(())), Ok(()));
    assert_eq!(node.enable_iface::<u8>(2, Ok(())), Ok(()));
    let a = node.announce_with(NONCE);
    assert_eq!(a.addrs, vec![v6(GROUP_BITS, 3), v6(GROUP_BITS, 2)]);
}

#[test]
fn an_interface_that_could_not_be_joined_is_not_enabled() {
    let mut node = node(1);
    assert_eq!(node.enable_iface(3, Err("no such interface")), Err("no such interface"));
    assert!(node.announce_with(NONCE).addrs.is_empty());
}

#[test]
fn no_hello_goes_to_a_disabled_interface() {
    let mut node = node(1);
    let _ = node.enable_iface::<u8>(1, Ok(()));
    let _ = node.enable_iface::<u8>(2, Ok(()));
    let _ = node.enable_iface::<u8>(1, Ok(()));
    node.disable_iface(1);
    assert_eq!(node.announce_with(NONCE).addrs, vec![v6(GROUP_BITS, 2)]);
    node.disable_iface(1);
    assert_eq!(node.announce_with(NONCE).addrs, vec![v6(GROUP_BITS, 2)]);
    node.disable_iface(7);
    assert_eq!(node.announce_with(NONCE).addrs, vec![v6(GROUP_BITS, 2)]);
}

#[test]
fn to_disable_undoes_to_enable() {
    let mut node = node(1);
    let _ = node.enable_iface::<u8>(2, Ok(()));
    let before = node.announce_with(NONCE).addrs;
    let _ = node.enable_iface::<u8>(1, Ok(()));
    node.disable_iface(1);
    assert_eq!(node.announce_with(NONCE).addrs, before);
}

#[test]
fn the_order_of_disabling_does_not_matter() {
    let ends_with = |first: u32, second: u32| {
        let mut node = node(1);
        for index in [1, 2, 3, 2, 1] {
            let _ = node.enable_iface::<u8>(index, Ok(()));
        }
        node.disable_iface(first);
        node.disable_iface(second);
        node.announce_with(NONCE).addrs
    };
    assert_eq!(ends_with(1, 2), vec![v6(GROUP_BITS, 3)]);
    assert_eq!(ends_with(2, 1), ends_with(1, 2));
}

#[test]
fn a_node_knows_the_hello_it_announced_by_chance() {
    let mut node = node(1);
    let _ = node.enable_iface::<u8>(1, Ok(()));
    let a = node.announce();
    assert_eq!(a.packet.len(), 12);
    assert_eq!(a.packet[..4], *b"EXO\x00");
    assert_eq!(a.addrs, vec![v6(GROUP_BITS, 1)]);
    assert_eq!(dropped(&node, &a.packet, v6(5, 1)), DropReason::LocalHelloNonce);
}

#[test]
fn nonces_differ_from_hello_to_hello() {
    let mut node = node(1);
    let first = node.announce().packet;
    assert!((0..8).any(|_| node.announce().packet != first));
}

#[test]
fn a_hello_is_answered_with_its_nonce_and_the_own_id() {
    match node(7).respond(&hello(NONCE), v6(5, 1)) {
        Reaction::Reply(packet) => {
            let zid = [7, 0, 0, 0, 0, 0, 0, 0, 0, 0, 0, 0, 0, 0, 0, 0];
            assert_eq!(packet, answer(NONCE, zid));
        }
        other => panic!("{other:?}"),
    }
}

#[test]
fn a_hello_over_ipv4_is_answered_too() {
    assert!(matches!(node(7).respond(&hello(NONCE), v4()), Reaction::Reply(_)));
}

#[test]
fn before_the_first_hello_a_hello_with_nonce_zero_counts_as_the_own() {
    assert_eq!(dropped(&node(7), &hello([0; 8]), v6(5, 1)), DropReason::LocalHelloNonce);
}

#[test]
fn two_nodes_find_each_other() {
    let mut asker = node(1);
    let mut peer = node(2);
    peer.announce_with([8; 8]);
    let a = asker.announce_with(NONCE);
    let Reaction::Reply(reply) = peer.respond(&a.packet, v6(0xfe80 << 112, 3)) else {
        panic!("no answer");
    };
    match asker.respond(&reply, v6((0xfe80 << 112) + 9, 4)) {
        Reaction::Report(found) => {
            assert!(found.zid == id(2));
            assert_eq!(found.addr, (Ipv6Addr { bits: (0xfe80 << 112) + 9 }, 4));
        }
        other => panic!("{other:?}"),
    }
}

#[test]
fn why_datagrams_are_dropped() {
    let mut node = node(1);
    node.announce_with(NONCE);
    let from = v6(5, 1);
    let other = id(2).to_le_bytes();
    let own = id(1).to_le_bytes();
    assert_eq!(
        dropped(&node, b"EXO", from),
        DropReason::Malformed(Malformed::EarlyEof),
    );
    assert_eq!(
        dropped(&node, b"EXA\x00", from),
        DropReason::Malformed(Malformed::WrongMagic),
    );
    assert_eq!(
        dropped(&node, b"EXO\x05", from),
        DropReason::Malformed(Malformed::UnknownKind(5)),
    );
    assert_eq!(
        dropped(&node, b"EXO\x00", from),
        DropReason::Malformed(Malformed::HelloWrongSize),
    );
    assert_eq!(
        dropped(&node, b"EXO\x01", from),
        DropReason::Malformed(Malformed::WhatsUpWrongSize),
    );
    assert_eq!(dropped(&node, &hello(NONCE), from), DropReason::LocalHelloNonce);
    assert_eq!(dropped(&node, &answer([2; 8], other), from), DropReason::StaleNonce);
    assert_eq!(dropped(&node, &answer(NONCE, other), v4()), DropReason::V4Address);
    assert_eq!(dropped(&node, &answer(NONCE, [0; 16]), from), DropReason::InvalidZenohId);
    assert_eq!(dropped(&node, &answer(NONCE, own), from), DropReason::SelfZenohId);
}

#[test]
fn the_first_reason_counts() {
    let mut node = node(1);
    node.announce_with(NONCE);
    assert_eq!(dropped(&node, &answer([2; 8], [0; 16]), v4()), DropReason::StaleNonce);
    assert_eq!(dropped(&node, &answer(NONCE, [0; 16]), v4()), DropReason::V4Address);
}

#[test]
fn nonce_zero_is_always_stale() {
    let mut node = node(1);
    let other = id(2).to_le_bytes();
    assert_eq!(dropped(&node, &answer([0; 8], other), v6(5, 1)), DropReason::StaleNonce);
    node.announce_with([0; 8]);
    assert_eq!(dropped(&node, &answer([0; 8], other), v6(5, 1)), DropReason::StaleNonce);
}

#[test]
fn an_answer_goes_stale_with_the_next_hello() {
    let mut node = node(1);
    node.announce_with(NONCE);
    let reply = answer(NONCE, id(2).to_le_bytes());
    assert!(matches!(node.respond(&reply, v6(5, 1)), Reaction::Report(_)));
    node.announce_with([9; 8]);
    assert_eq!(dropped(&node, &reply, v6(5, 1)), DropReason::StaleNonce);
}

fn sending(attempt: u32) -> State {
    State::Sending(Reply { packet: vec![1, 2, 3], to: v6(5, 1), attempt })
}

fn expect_sending(state: &State, attempt: u32) {
    match state {
        State::Sending(reply) => {
            assert_eq!(reply.packet, vec![1, 2, 3]);
            assert_eq!(reply.to, v6(5, 1));
            assert_eq!(reply.attempt, attempt);
        }
        other => panic!("{other:?}"),
    }
}

#[test]
fn the_loop_answers_a_hello() {
    let node = node(7);
    let event = Event::Received { datagram: hello(NONCE), from: v6(5, 1) };
    let state = node.respond_step(State::Receiving(None), event);
    match &state {
        State::Sending(reply) => {
            assert_eq!(reply.packet, answer(NONCE, id(7).to_le_bytes()));
            assert_eq!(reply.to, v6(5, 1));
            assert_eq!(reply.attempt, 0);
        }
        other => panic!("{other:?}"),
    }
    let state = node.respond_step(state, Event::Sent(28));
    assert!(matches!(state, State::Receiving(None)));
}

#[test]
fn an_answer_is_tried_four_times() {
    let node = node(7);
    let mut state = sending(0);
    for attempt in 0..4 {
        expect_sending(&state, attempt);
        let event = match attempt % 2 {
            0 => Event::SendFailed,
            _ => Event::Sent(27),
        };
        state = node.respond_step(state, event);
        assert!(matches!(state, State::Pausing(_)));
        state = node.respond_step(state, Event::Paused);
    }
    assert!(matches!(state, State::Receiving(None)));
}

#[test]
fn an_answer_that_was_sent_is_not_sent_again() {
    let node = node(7);
    assert!(matches!(
        node.respond_step(sending(2), Event::Sent(28)),
        State::Receiving(None)
    ));
}

#[test]
fn the_loop_tells_why_it_dropped_a_datagram() {
    let event = Event::Received { datagram: vec![], from: v6(5, 1) };
    match node(7).respond_step(State::Receiving(None), event) {
        State::Receiving(reason) => {
            assert_eq!(reason, Some(DropReason::Malformed(Malformed::EarlyEof)));
        }
        other => panic!("{other:?}"),
    }
}

#[test]
fn the_loop_delivers_a_peer() {
    let mut node = node(1);
    node.announce_with(NONCE);
    let event = || Event::Received {
        datagram: answer(NONCE, id(2).to_le_bytes()),
        from: v6(5, 1),
    };
    let state = node.respond_step(State::Receiving(None), event());
    match &state {
        State::Delivering(peer) => assert_eq!(peer.addr, (Ipv6Addr { bits: 5 }, 1)),
        other => panic!("{other:?}"),
    }
    let state = node.respond_step(state, Event::Delivered);
    assert!(matches!(state, State::Receiving(None)));
    let state = node.respond_step(state, event());
    let state = node.respond_step(state, Event::NotDelivered);
    assert!(matches!(state, State::Stopped));
    let state = node.respond_step(state, event());
    assert!(matches!(state, State::Stopped));
}

#[test]
fn the_loop_fails_with_the_socket() {
    let node = node(1);
    let state = node.respond_step(State::Receiving(None), Event::ReceiveFailed("gone"));
    assert!(matches!(state, State::Failed("gone")));
    let state = node.respond_step(state, Event::ReceiveFailed("again"));
    assert!(matches!(state, State::Failed("gone")));
}

#[test]
fn events_that_do_not_belong_change_nothing() {
    let node = node(1);
    expect_sending(&node.respond_step(sending(1), Event::Paused), 1);
    expect_sending(&node.respond_step(sending(1), Event::ReceiveFailed("gone")), 1);
    let state = node.respond_step(State::Receiving(None), Event::Sent(28));
    assert!(matches!(state, State::Receiving(None)));
}

fn announcement(addrs: &[SocketAddr]) -> AnnounceState<&'static str> {
    Announcement { packet: vec![1, 2, 3], addrs: addrs.to_vec() }.start()
}

fn expect_target(state: &AnnounceState<&'static str>, expected: SocketAddr) {
    match state {
        AnnounceState::Sending { packet, to, .. } => {
            assert_eq!(*packet, vec![1, 2, 3]);
            assert_eq!(*to, expected);
        }
        other => panic!("{other:?}"),
    }
}

#[test]
fn a_hello_goes_to_its_addresses_in_order() {
    let state = announcement(&[v6(5, 1), v6(5, 2), v6(5, 3)]);
    expect_target(&state, v6(5, 1));
    let state = state.step(Ok(3));
    expect_target(&state, v6(5, 2));
    let state = state.step(Ok(0));
    expect_target(&state, v6(5, 3));
    let state = state.step(Ok(3));
    assert!(matches!(state, AnnounceState::Announced));
    assert!(matches!(state.step(Err("late")), AnnounceState::Announced));
}

#[test]
fn a_hello_without_addresses_is_announced_at_once() {
    assert!(matches!(announcement(&[]), AnnounceState::Announced));
}

#[test]
fn a_failed_send_ends_an_announcement() {
    let state = announcement(&[v6(5, 1), v6(5, 2), v6(5, 3)]).step(Ok(3)).step(Err("unreachable"));
    assert!(matches!(state, AnnounceState::Failed("unreachable")));
    assert!(matches!(state.step(Ok(3)), AnnounceState::Failed("unreachable")));
}

/// What the loop sends and hands over when these datagrams come in.
fn run_loop(node: &Discovery, datagrams: &[Vec<u8>]) -> (Vec<Vec<u8>>, Vec<u8>) {
    let mut sent = vec![];
    let mut delivered = vec![];
    let mut state = State::Receiving(None);
    for datagram in datagrams {
        state = node.respond_step(
            state,
            Event::Received { datagram: datagram.clone(), from: v6(5, 1) },
        );
        if let State::Sending(reply) = &state {
            sent.push(reply.packet.clone());
            state = node.respond_step(state, Event::Sent(28));
        } else if let State::Delivering(peer) = &state {
            delivered.push(peer.zid.to_le_bytes()[0]);
            state = node.respond_step(state, Event::Delivered);
        }
    }
    (sent, delivered)
}

#[test]
fn answers_are_handed_over_one_by_one_in_order() {
    let mut node = node(1);
    node.announce_with(NONCE);
    let from = |byte: u8| answer(NONCE, id(byte).to_le_bytes());
    let datagrams = vec![
        from(3),
        answer([2; 8], id(9).to_le_bytes()),
        from(2),
        hello([7; 8]),
        from(1),
        from(3),
    ];
    let (sent, delivered) = run_loop(&node, &datagrams);
    assert_eq!(delivered, vec![3, 2, 3]);
    assert_eq!(sent, vec![answer([7; 8], id(1).to_le_bytes())]);
}

#[test]
fn noise_between_datagrams_changes_nothing() {
    let mut node = node(1);
    node.announce_with(NONCE);
    let clean = vec![hello([7; 8]), answer(NONCE, id(2).to_le_bytes()), hello([8; 8])];
    let mut noisy = vec![b"".to_vec(), b"EXO\x00".to_vec()];
    for datagram in &clean {
        noisy.push(b"XXX\x00abcdefgh".to_vec());
        noisy.push(datagram.clone());
        noisy.push(b"EXO\x02abcdefgh".to_vec());
        noisy.push(vec![0; 100]);
    }
    assert_eq!(run_loop(&node, &noisy), run_loop(&node, &clean));
}

#[test]
fn hellos_go_where_interfaces_were_enabled_after_they_were_disabled() {
    let mut node = node(1);
    let _ = node.enable_iface::<u8>(1, Ok(()));
    let _ = node.enable_iface::<u8>(2, Ok(()));
    node.disable_iface(1);
    let _ = node.enable_iface::<u8>(3, Err(0));
    node.disable_iface(2);
    let _ = node.enable_iface::<u8>(1, Ok(()));
    assert_eq!(node.announce_with(NONCE).addrs, vec![v6(GROUP_BITS, 1)]);
}
