//! What a node does, said of bytes and addresses alone.

use vstd::prelude::*;

use crate::addr::{Ipv6Addr, SocketAddr, SocketAddrV6};
use crate::discovery::{
    AnnounceStateData, DiscoveredData, DiscoveryData, DropReason, ReplyData, RespondEventData,
    RespondStateData, DISCOVERED_CAPACITY, GROUP_BITS, PORT, RECEIVE_SIZE, RETRY_PAUSE_MILLIS,
    SEND_ATTEMPTS,
};
use crate::wire::{Malformed, PacketContent, HEADER_SIZE, NONCE_SIZE, ZID_SIZE};

verus! {

/// What every node on the link must agree on, and what a node allows itself.
pub proof fn law_numbers()
    ensures
        PORT == 52414,
        GROUP_BITS == 0xff12_0000_0000_0000_0000_0000_e0a1_de89,
        HEADER_SIZE == 4,
        NONCE_SIZE == 8,
        ZID_SIZE == 16,
        crate::discovery::answer_size() == 28,
        RECEIVE_SIZE == 100,
        DISCOVERED_CAPACITY == 10,
        SEND_ATTEMPTS == 4,
        RETRY_PAUSE_MILLIS == 300,
{
}

/// A new node sends hellos nowhere, has the id that it was given, and the nonce of
/// its last hello counts as zero.
pub proof fn law_new_node(zid: Seq<u8>)
    ensures
        DiscoveryData::initial(zid).ifaces.len() == 0,
        DiscoveryData::initial(zid).last_nonce == seq![0u8, 0, 0, 0, 0, 0, 0, 0],
        DiscoveryData::initial(zid).port == 52414,
        DiscoveryData::initial(zid).zid == zid,
{
    assert(DiscoveryData::initial(zid).last_nonce =~= seq![0u8, 0, 0, 0, 0, 0, 0, 0]);
}

/// To enable an interface adds one address behind the others: the group, at the
/// node's port and on that interface. Nothing else changes.
pub proof fn law_enable_adds_the_group(data: DiscoveryData, iface_idx: u32)
    ensures
        data.enabled(iface_idx).ifaces == data.ifaces + seq![
            SocketAddr::V6(
                (SocketAddrV6 {
                    ip: (Ipv6Addr { bits: 0xff12_0000_0000_0000_0000_0000_e0a1_de89 }),
                    port: data.port,
                    flowinfo: 0,
                    scope_id: iface_idx,
                }),
            ),
        ],
        data.enabled(iface_idx).last_nonce == data.last_nonce,
        data.enabled(iface_idx).port == data.port,
        data.enabled(iface_idx).zid == data.zid,
{
    assert(data.enabled(iface_idx).ifaces =~= data.ifaces + seq![
        crate::discovery::group_on(data.port, iface_idx),
    ]);
}

/// To disable an interface leaves an address out exactly if it is on that interface,
/// and keeps the order of the others: from no addresses none are left, and one more
/// at the end is kept at the end unless it is on the interface. Nothing else changes.
pub proof fn law_disable_leaves_out_the_interface(
    data: DiscoveryData,
    addr: SocketAddr,
    iface_idx: u32,
)
    ensures
        data.ifaces.len() == 0 ==> data.disabled(iface_idx).ifaces.len() == 0,
        (DiscoveryData { ifaces: data.ifaces.push(addr), ..data }).disabled(iface_idx).ifaces
            == match addr {
            SocketAddr::V6(v6) => if v6.scope_id == iface_idx {
                data.disabled(iface_idx).ifaces
            } else {
                data.disabled(iface_idx).ifaces.push(addr)
            },
            SocketAddr::V4(_) => data.disabled(iface_idx).ifaces.push(addr),
        },
        data.disabled(iface_idx).last_nonce == data.last_nonce,
        data.disabled(iface_idx).port == data.port,
        data.disabled(iface_idx).zid == data.zid,
{
    reveal(Seq::filter);
    assert(data.ifaces.push(addr).drop_last() =~= data.ifaces);
}

/// A hello changes the nonce of the last hello to its own, and nothing else.
pub proof fn law_announce_changes_the_nonce(data: DiscoveryData, nonce: Seq<u8>)
    ensures
        data.announced(nonce).last_nonce == nonce,
        data.announced(nonce).ifaces == data.ifaces,
        data.announced(nonce).port == data.port,
        data.announced(nonce).zid == data.zid,
{
}

/// A hello is `EXO`, a zero byte and the nonce.
pub proof fn law_hello_packet(nonce: Seq<u8>)
    ensures
        crate::discovery::hello_packet(nonce) == seq![0x45u8, 0x58u8, 0x4fu8, 0u8] + nonce,
{
    assert(crate::discovery::hello_packet(nonce) =~= seq![0x45u8, 0x58u8, 0x4fu8, 0u8] + nonce);
}

/// An answer is `EXO`, a byte that is one, the nonce and the id.
pub proof fn law_answer_packet(nonce: Seq<u8>, zid: Seq<u8>)
    ensures
        crate::discovery::answer_packet(nonce, zid) == seq![0x45u8, 0x58u8, 0x4fu8, 1u8] + nonce
            + zid,
{
    assert(crate::discovery::answer_packet(nonce, zid) =~= seq![0x45u8, 0x58u8, 0x4fu8, 1u8]
        + nonce + zid);
}

/// Whoever hears a hello with another nonce than that of its own last hello answers
/// it: what is sent next is an answer with the nonce of the hello and the node's own
/// id, and it goes to the very address that the hello came from, with its port, flow
/// label and interface.
pub proof fn law_hello_is_answered_to_its_sender<E>(
    data: DiscoveryData,
    dropped: Option<DropReason>,
    nonce: Seq<u8>,
    from: SocketAddr,
)
    requires
        nonce.len() == 8,
        nonce != data.last_nonce,
    ensures
        data.next(
            RespondStateData::<E>::Receiving(dropped),
            (RespondEventData::Received {
                datagram: seq![0x45u8, 0x58u8, 0x4fu8, 0u8] + nonce,
                from,
            }),
        ) == RespondStateData::<E>::Sending(
            (ReplyData {
                packet: seq![0x45u8, 0x58u8, 0x4fu8, 1u8] + nonce + data.zid,
                to: from,
                attempt: 0,
            }),
        ),
{
    crate::wire::law_which_bytes_are_a_hello(seq![0x45u8, 0x58u8, 0x4fu8, 0u8] + nonce, nonce);
    law_answer_packet(nonce, data.zid);
}

/// Whoever answers the last hello over IPv6, with an id that is neither zero nor the
/// node's own, is handed over: with that id, and with the IP and the interface that
/// the answer came from.
pub proof fn law_answer_hands_its_sender_over<E>(
    data: DiscoveryData,
    dropped: Option<DropReason>,
    zid: Seq<u8>,
    from: SocketAddrV6,
)
    requires
        data.last_nonce.len() == 8,
        exists|i: int| 0 <= i < 8 && data.last_nonce[i] != 0,
        zid.len() == 16,
        exists|i: int| 0 <= i < 16 && zid[i] != 0,
        zid != data.zid,
    ensures
        data.next(
            RespondStateData::<E>::Receiving(dropped),
            (RespondEventData::Received {
                datagram: seq![0x45u8, 0x58u8, 0x4fu8, 1u8] + data.last_nonce + zid,
                from: SocketAddr::V6(from),
            }),
        ) == RespondStateData::<E>::Delivering(
            (DiscoveredData { zid, addr: (from.ip, from.scope_id) }),
        ),
{
    crate::wire::law_which_bytes_are_an_answer(
        seq![0x45u8, 0x58u8, 0x4fu8, 1u8] + data.last_nonce + zid,
        data.last_nonce,
        zid,
    );
}

/// Which datagrams are hellos.
pub(crate) proof fn lemma_shape_of_hello(bytes: Seq<u8>)
    ensures
        (bytes.len() == 12 && bytes.take(4) == seq![0x45u8, 0x58u8, 0x4fu8, 0u8])
            <==> crate::wire::content(bytes) == Ok::<PacketContent, Malformed>(
            (PacketContent::Hello { nonce: bytes.skip(4) }),
        ),
{
    let nonce = bytes.skip(4);
    crate::wire::law_which_bytes_are_a_hello(bytes, nonce);
    if bytes.len() == 12 && bytes.take(4) == seq![0x45u8, 0x58u8, 0x4fu8, 0u8] {
        assert(bytes =~= bytes.take(4) + nonce);
    }
    if bytes == seq![0x45u8, 0x58u8, 0x4fu8, 0u8] + nonce && nonce.len() == 8 {
        assert(bytes.take(4) =~= seq![0x45u8, 0x58u8, 0x4fu8, 0u8]);
    }
}

/// Which datagrams are answers.
proof fn lemma_shape_of_answer(bytes: Seq<u8>)
    ensures
        (bytes.len() == 28 && bytes.take(4) == seq![0x45u8, 0x58u8, 0x4fu8, 1u8])
            <==> crate::wire::content(bytes) == Ok::<PacketContent, Malformed>(
            (PacketContent::WhatsUp { nonce: bytes.subrange(4, 12), zid: bytes.skip(12) }),
        ),
{
    let nonce = bytes.subrange(4, 12);
    let zid = bytes.skip(12);
    crate::wire::law_which_bytes_are_an_answer(bytes, nonce, zid);
    if bytes.len() == 28 && bytes.take(4) == seq![0x45u8, 0x58u8, 0x4fu8, 1u8] {
        assert(bytes =~= bytes.take(4) + nonce + zid);
    }
    if bytes == seq![0x45u8, 0x58u8, 0x4fu8, 1u8] + nonce + zid && nonce.len() == 8 && zid.len()
        == 16 {
        assert(bytes.take(4) =~= seq![0x45u8, 0x58u8, 0x4fu8, 1u8]);
    }
}

/// Every datagram that is neither such a hello nor such an answer is dropped, and so
/// is nothing else; and each reason is given exactly where it is the first to apply.
pub proof fn law_what_is_dropped<E>(
    data: DiscoveryData,
    dropped: Option<DropReason>,
    bytes: Seq<u8>,
    from: SocketAddr,
    malformed: Malformed,
)
    ensures
        ({
            let after = data.next(
                RespondStateData::<E>::Receiving(dropped),
                RespondEventData::Received { datagram: bytes, from },
            );
            let is_hello = bytes.len() == 12 && bytes.take(4) == seq![0x45u8, 0x58u8, 0x4fu8, 0u8];
            let is_answer = bytes.len() == 28 && bytes.take(4) == seq![
                0x45u8,
                0x58u8,
                0x4fu8,
                1u8,
            ];
            let nonce = bytes.subrange(4, 12);
            let zid = bytes.skip(12);
            let is_fresh = nonce == data.last_nonce && exists|i: int|
                0 <= i < nonce.len() && nonce[i] != 0;
            let is_zero = forall|i: int| 0 <= i < zid.len() ==> zid[i] == 0;
            &&& after == RespondStateData::<E>::Receiving(Some(DropReason::Malformed(malformed)))
                <==> crate::wire::content(bytes) == Err::<PacketContent, Malformed>(malformed)
            &&& after == RespondStateData::<E>::Receiving(Some(DropReason::LocalHelloNonce))
                <==> is_hello && bytes.skip(4) == data.last_nonce
            &&& after == RespondStateData::<E>::Receiving(Some(DropReason::StaleNonce))
                <==> is_answer && !is_fresh
            &&& after == RespondStateData::<E>::Receiving(Some(DropReason::V4Address))
                <==> is_answer && is_fresh && from is V4
            &&& after == RespondStateData::<E>::Receiving(Some(DropReason::InvalidZenohId))
                <==> is_answer && is_fresh && from is V6 && is_zero
            &&& after == RespondStateData::<E>::Receiving(Some(DropReason::SelfZenohId))
                <==> is_answer && is_fresh && from is V6 && !is_zero && zid == data.zid
            &&& after is Sending <==> is_hello && bytes.skip(4) != data.last_nonce
            &&& after is Delivering <==> is_answer && is_fresh && from is V6 && !is_zero && zid
                != data.zid
            &&& after is Receiving || after is Sending || after is Delivering
            &&& after != RespondStateData::<E>::Receiving(None)
        }),
{
    lemma_shape_of_hello(bytes);
    lemma_shape_of_answer(bytes);
    crate::wire::law_why_bytes_are_no_packet(bytes, bytes[3]);
    if let Ok(content) = crate::wire::content(bytes) {
        match content {
            PacketContent::Hello { nonce } => {
                crate::wire::law_which_bytes_are_a_hello(bytes, nonce);
                assert(bytes.skip(4) =~= nonce);
            },
            PacketContent::WhatsUp { nonce, zid } => {
                crate::wire::law_which_bytes_are_an_answer(bytes, nonce, zid);
                assert(bytes.subrange(4, 12) =~= nonce);
                assert(bytes.skip(12) =~= zid);
            },
        }
    }
}

/// How an answer is sent: if all of its 28 bytes are sent the loop receives again;
/// if not, or if it fails, the loop pauses, and then sends the same packet to the same
/// address again, four times in all.
pub proof fn law_how_an_answer_is_sent<E>(data: DiscoveryData, reply: ReplyData, sent: usize)
    ensures
        data.next(RespondStateData::<E>::Sending(reply), RespondEventData::Sent(sent))
            == if sent == 28 {
            RespondStateData::<E>::Receiving(None)
        } else {
            RespondStateData::<E>::Pausing(reply)
        },
        data.next(RespondStateData::<E>::Sending(reply), RespondEventData::SendFailed)
            == RespondStateData::<E>::Pausing(reply),
        reply.attempt < 3 ==> data.next(
            RespondStateData::<E>::Pausing(reply),
            RespondEventData::Paused,
        ) == RespondStateData::<E>::Sending(
            (ReplyData {
                packet: reply.packet,
                to: reply.to,
                attempt: (reply.attempt + 1) as u32,
            }),
        ),
        reply.attempt >= 3 ==> data.next(
            RespondStateData::<E>::Pausing(reply),
            RespondEventData::Paused,
        ) == RespondStateData::<E>::Receiving(None),
{
}

/// After a peer has been taken the loop receives again; if nobody takes it, or if the
/// socket cannot receive, the loop ends, with the socket's error.
pub proof fn law_how_the_loop_goes_on<E>(
    data: DiscoveryData,
    peer: DiscoveredData,
    dropped: Option<DropReason>,
    e: E,
)
    ensures
        data.next(RespondStateData::<E>::Delivering(peer), RespondEventData::Delivered)
            == RespondStateData::<E>::Receiving(None),
        data.next(RespondStateData::<E>::Delivering(peer), RespondEventData::NotDelivered)
            == RespondStateData::<E>::Stopped,
        data.next(RespondStateData::<E>::Receiving(dropped), RespondEventData::ReceiveFailed(e))
            == RespondStateData::<E>::Failed(e),
{
}

/// An event that does not belong to what the loop was doing changes nothing.
pub proof fn law_other_events_change_nothing<E>(
    data: DiscoveryData,
    state: RespondStateData<E>,
    event: RespondEventData<E>,
)
    requires
        state is Receiving ==> !(event is Received || event is ReceiveFailed),
        state is Sending ==> !(event is Sent || event is SendFailed),
        state is Pausing ==> !(event is Paused),
        state is Delivering ==> !(event is Delivered || event is NotDelivered),
    ensures
        data.next(state, event) == state,
{
}

/// However many addresses a hello has, after each of the first sends it goes next to
/// the address at that place in the list, as it is and with the same packet; and after
/// as many sends as there are addresses that is the end. So over a whole announcement
/// the destinations are the addresses, element by element.
pub proof fn law_hello_goes_to_each_address<E>(
    packet: Seq<u8>,
    addrs: Seq<SocketAddr>,
    results: Seq<Result<usize, E>>,
)
    requires
        results.len() <= addrs.len(),
        forall|i: int| 0 <= i < results.len() ==> (#[trigger] results[i]) is Ok,
    ensures
        results.len() < addrs.len() ==> crate::discovery_runs::after_sends(
            crate::discovery::announcing::<E>(packet, addrs),
            results,
        ) == (AnnounceStateData::<E>::Sending {
            packet,
            to: addrs[results.len() as int],
            rest: addrs.skip(results.len() as int + 1),
        }),
        results.len() == addrs.len() ==> crate::discovery_runs::after_sends(
            crate::discovery::announcing::<E>(packet, addrs),
            results,
        ) == AnnounceStateData::<E>::Announced,
{
    crate::discovery_runs::law_hello_goes_to_all(packet, addrs, results);
    let left = addrs.skip(results.len() as int);
    if results.len() < addrs.len() {
        assert(left[0] == addrs[results.len() as int]);
        assert(left.skip(1) =~= addrs.skip(results.len() as int + 1));
    }
}

/// What one send of a hello leads to: whatever number of bytes was sent the first of
/// the other addresses is next, and if it failed that is the end, with the error.
pub proof fn law_one_send_of_a_hello<E>(
    packet: Seq<u8>,
    to: SocketAddr,
    rest: Seq<SocketAddr>,
    sent: usize,
    e: E,
)
    ensures
        (AnnounceStateData::<E>::Sending { packet, to, rest }).next(Ok(sent)) == if rest.len()
            == 0 {
            AnnounceStateData::<E>::Announced
        } else {
            AnnounceStateData::<E>::Sending { packet, to: rest[0], rest: rest.skip(1) }
        },
        (AnnounceStateData::<E>::Sending { packet, to, rest }).next(Err(e))
            == AnnounceStateData::<E>::Failed(e),
        AnnounceStateData::<E>::Announced.next(Ok(sent)) == AnnounceStateData::<E>::Announced,
        AnnounceStateData::<E>::Announced.next(Err(e)) == AnnounceStateData::<E>::Announced,
        AnnounceStateData::<E>::Failed(e).next(Ok(sent)) == AnnounceStateData::<E>::Failed(e),
{
}

} // verus!
