//! What holds of discovery as a whole.

use vstd::prelude::*;

use crate::addr::{SocketAddr, SocketAddrV6};
use crate::discovery::{
    DiscoveredData, DiscoveryData, DropReason, ReactionData, ReplyData, RespondEventData,
    RespondStateData, SEND_ATTEMPTS,
};
use crate::wire::{PacketContent, NONCE_SIZE, ZID_SIZE};

verus! {

/// A node starts out valid, if its id is one.
pub proof fn law_initial_is_valid(zid: Seq<u8>)
    requires
        zid.len() == ZID_SIZE,
        crate::zid::spells_id(zid),
    ensures
        DiscoveryData::initial(zid).valid(),
{
}

/// Whatever a node does, its hellos go to the group and nowhere else, and what
/// it remembers fits the wire.
pub proof fn law_stays_valid(data: DiscoveryData, iface_idx: u32, nonce: Seq<u8>)
    requires
        data.valid(),
        nonce.len() == NONCE_SIZE,
    ensures
        data.enabled(iface_idx).valid(),
        data.disabled(iface_idx).valid(),
        data.announced(nonce).valid(),
{
    let keeps = |addr: SocketAddr| crate::discovery::not_on(addr, iface_idx);
    let kept = data.ifaces.filter(keeps);
    assert forall|i: int| 0 <= i < kept.len() implies crate::discovery::is_group(
        #[trigger] kept[i],
        data.port,
    ) by {
        data.ifaces.lemma_filter_contains_rev(keeps, kept[i]);
    }
}

/// After an interface has been disabled no hello goes there any more, and those
/// to other interfaces go on as before.
pub proof fn law_disabled_is_silent(data: DiscoveryData, iface_idx: u32, addr: SocketAddr)
    ensures
        data.disabled(iface_idx).ifaces.contains(addr) <==> data.ifaces.contains(addr)
            && crate::discovery::not_on(addr, iface_idx),
{
    let keeps = |addr: SocketAddr| crate::discovery::not_on(addr, iface_idx);
    let kept = data.ifaces.filter(keeps);
    if kept.contains(addr) {
        data.ifaces.lemma_filter_contains_rev(keeps, addr);
        let i = choose|i: int| 0 <= i < kept.len() && kept[i] == addr;
        data.ifaces.lemma_filter_pred(keeps, i);
    }
    if data.ifaces.contains(addr) && crate::discovery::not_on(addr, iface_idx) {
        let i = choose|i: int| 0 <= i < data.ifaces.len() && data.ifaces[i] == addr;
        data.ifaces.lemma_filter_contains(keeps, i);
    }
}

/// Everything in the sequence satisfies the predicate, so filtering keeps all.
proof fn lemma_filter_keeps_all<A>(s: Seq<A>, p: spec_fn(A) -> bool)
    requires
        forall|i: int| 0 <= i < s.len() ==> p(#[trigger] s[i]),
    ensures
        s.filter(p) == s,
    decreases s.len(),
{
    reveal(Seq::filter);
    if s.len() > 0 {
        lemma_filter_keeps_all(s.drop_last(), p);
        assert(s.drop_last().push(s.last()) =~= s);
    } else {
        assert(s.filter(p) =~= s);
    }
}

/// To disable an interface undoes that it was enabled, if it was not enabled before.
pub proof fn law_disable_undoes_enable(data: DiscoveryData, iface_idx: u32)
    requires
        forall|i: int|
            0 <= i < data.ifaces.len() ==> crate::discovery::not_on(
                #[trigger] data.ifaces[i],
                iface_idx,
            ),
    ensures
        data.enabled(iface_idx).disabled(iface_idx) == data,
{
    let keeps = |addr: SocketAddr| crate::discovery::not_on(addr, iface_idx);
    lemma_filter_keeps_all(data.ifaces, keeps);
    reveal(Seq::filter);
    assert(data.enabled(iface_idx).ifaces.drop_last() =~= data.ifaces);
}

/// To disable an interface twice is to disable it once.
pub proof fn law_disable_twice(data: DiscoveryData, iface_idx: u32)
    ensures
        data.disabled(iface_idx).disabled(iface_idx) == data.disabled(iface_idx),
{
    let keeps = |addr: SocketAddr| crate::discovery::not_on(addr, iface_idx);
    let kept = data.ifaces.filter(keeps);
    assert forall|i: int| 0 <= i < kept.len() implies keeps(#[trigger] kept[i]) by {
        data.ifaces.lemma_filter_pred(keeps, i);
    }
    lemma_filter_keeps_all(kept, keeps);
}

/// In which order two interfaces are disabled does not matter.
pub proof fn law_disable_commutes(data: DiscoveryData, one: u32, two: u32)
    ensures
        data.disabled(one).disabled(two) == data.disabled(two).disabled(one),
{
    let keeps_one = |addr: SocketAddr| crate::discovery::not_on(addr, one);
    let keeps_two = |addr: SocketAddr| crate::discovery::not_on(addr, two);
    lemma_filters_commute(data.ifaces, keeps_one, keeps_two);
}

/// In which order a sequence is filtered by two predicates does not matter.
proof fn lemma_filters_commute<A>(s: Seq<A>, p: spec_fn(A) -> bool, q: spec_fn(A) -> bool)
    ensures
        s.filter(p).filter(q) == s.filter(q).filter(p),
    decreases s.len(),
{
    reveal(Seq::filter);
    if s.len() > 0 {
        let rest = s.drop_last();
        let last = s.last();
        lemma_filters_commute(rest, p, q);
        assert(rest.filter(p).push(last).drop_last() =~= rest.filter(p));
        assert(rest.filter(q).push(last).drop_last() =~= rest.filter(q));
    }
}

/// Two nodes find each other: whoever hears a hello answers it, and who sent the
/// hello learns from the answer the id of who answered, and where it is. The
/// nonce must not be zero, nor that of the last hello of who hears it.
pub proof fn law_hello_discovers_peer(
    asker: DiscoveryData,
    peer: DiscoveryData,
    nonce: Seq<u8>,
    asker_addr: SocketAddr,
    peer_addr: SocketAddrV6,
)
    requires
        asker.valid(),
        peer.valid(),
        nonce.len() == NONCE_SIZE,
        !crate::zid::all_zero(nonce),
        nonce != peer.last_nonce,
        asker.zid != peer.zid,
    ensures
        peer.reaction(crate::discovery::hello_packet(nonce), asker_addr) == ReactionData::Reply(
            crate::discovery::answer_packet(nonce, peer.zid),
        ),
        asker.announced(nonce).reaction(
            crate::discovery::answer_packet(nonce, peer.zid),
            SocketAddr::V6(peer_addr),
        ) == ReactionData::Report(
            DiscoveredData { zid: peer.zid, addr: (peer_addr.ip, peer_addr.scope_id) },
        ),
{
    crate::wire::law_read_after_write(PacketContent::Hello { nonce });
    crate::wire::law_read_after_write(PacketContent::WhatsUp { nonce, zid: peer.zid });
}

/// A node does not answer its own hello.
pub proof fn law_own_hello_is_dropped(data: DiscoveryData, nonce: Seq<u8>, from: SocketAddr)
    requires
        nonce.len() == NONCE_SIZE,
    ensures
        data.announced(nonce).reaction(crate::discovery::hello_packet(nonce), from)
            == ReactionData::Drop(DropReason::LocalHelloNonce),
{
    crate::wire::law_read_after_write(PacketContent::Hello { nonce });
}

/// A node reports a peer only for an answer to its last hello that came over
/// IPv6 and gives another id than its own; and it reports what the answer says.
pub proof fn law_reports_only_answers(
    data: DiscoveryData,
    bytes: Seq<u8>,
    from: SocketAddr,
    peer: DiscoveredData,
)
    requires
        data.reaction(bytes, from) == ReactionData::Report(peer),
    ensures
        bytes == crate::discovery::answer_packet(data.last_nonce, peer.zid),
        !crate::zid::all_zero(data.last_nonce),
        crate::zid::spells_id(peer.zid),
        peer.zid != data.zid,
        from matches SocketAddr::V6(v6) && peer.addr == (v6.ip, v6.scope_id),
{
    crate::wire::law_write_after_read(bytes);
}

/// A node sends nothing back but answers in its own name, and only to hellos
/// that it did not send last.
pub proof fn law_replies_only_to_hellos(
    data: DiscoveryData,
    bytes: Seq<u8>,
    from: SocketAddr,
    packet: Seq<u8>,
)
    requires
        data.reaction(bytes, from) == ReactionData::Reply(packet),
    ensures
        exists|nonce: Seq<u8>|
            nonce != data.last_nonce && bytes == #[trigger] crate::discovery::hello_packet(nonce)
                && packet == crate::discovery::answer_packet(nonce, data.zid),
{
    crate::wire::law_write_after_read(bytes);
    if let Ok(PacketContent::Hello { nonce }) = crate::wire::content(bytes) {
        assert(bytes == crate::discovery::hello_packet(nonce));
    }
}

/// Before its first hello a node reports nobody.
pub proof fn law_nobody_before_first_hello(
    zid: Seq<u8>,
    bytes: Seq<u8>,
    from: SocketAddr,
)
    ensures
        !(DiscoveryData::initial(zid).reaction(bytes, from) is Report),
{
}

/// An answer to a hello is stale as soon as the node has sent another one.
pub proof fn law_answers_go_stale(
    data: DiscoveryData,
    nonce: Seq<u8>,
    later: Seq<u8>,
    zid: Seq<u8>,
    from: SocketAddr,
)
    requires
        nonce.len() == NONCE_SIZE,
        zid.len() == ZID_SIZE,
        nonce != later,
    ensures
        data.announced(nonce).announced(later).reaction(
            crate::discovery::answer_packet(nonce, zid),
            from,
        ) == ReactionData::Drop(DropReason::StaleNonce),
{
    crate::wire::law_read_after_write(PacketContent::WhatsUp { nonce, zid });
}

/// An attempt to send an answer that failed: nothing was sent, or not all of it.
pub open spec fn is_failed_send<E>(event: RespondEventData<E>) -> bool {
    match event {
        RespondEventData::SendFailed => true,
        RespondEventData::Sent(sent) => sent != crate::discovery::answer_size(),
        _ => false,
    }
}

/// The loop after these attempts to send, each with the pause that follows it.
pub open spec fn after_attempts<E>(
    data: DiscoveryData,
    state: RespondStateData<E>,
    attempts: Seq<RespondEventData<E>>,
) -> RespondStateData<E>
    decreases attempts.len(),
{
    if attempts.len() == 0 {
        state
    } else {
        data.next(
            data.next(after_attempts(data, state, attempts.drop_last()), attempts.last()),
            RespondEventData::Paused,
        )
    }
}

/// An answer is sent again, unchanged and to the same address, after each
/// attempt that fails; after the last of its attempts it is given up, and the
/// loop goes back to receiving.
pub proof fn law_failed_sends_are_retried<E>(
    data: DiscoveryData,
    packet: Seq<u8>,
    to: SocketAddr,
    attempts: Seq<RespondEventData<E>>,
)
    requires
        attempts.len() <= SEND_ATTEMPTS,
        forall|i: int| 0 <= i < attempts.len() ==> is_failed_send(#[trigger] attempts[i]),
    ensures
        after_attempts(
            data,
            RespondStateData::Sending(ReplyData { packet, to, attempt: 0 }),
            attempts,
        ) == (if attempts.len() < SEND_ATTEMPTS {
            RespondStateData::<E>::Sending(
                ReplyData { packet, to, attempt: attempts.len() as u32 },
            )
        } else {
            RespondStateData::<E>::Receiving(None)
        }),
    decreases attempts.len(),
{
    if attempts.len() > 0 {
        law_failed_sends_are_retried(data, packet, to, attempts.drop_last());
        assert(is_failed_send(attempts.last()));
    }
}

/// How many attempts to send are left to the loop.
pub open spec fn attempts_left<E>(state: RespondStateData<E>) -> int {
    match state {
        RespondStateData::Sending(reply) => SEND_ATTEMPTS - reply.attempt,
        RespondStateData::Pausing(reply) => SEND_ATTEMPTS - reply.attempt - 1,
        _ => 0,
    }
}

/// While the loop is busy with an answer, no event adds to the attempts that are
/// left, and one that ends an attempt or a pause takes it onward: so it is back
/// at receiving after a bounded number of such events.
pub proof fn law_sending_ends<E>(
    data: DiscoveryData,
    state: RespondStateData<E>,
    event: RespondEventData<E>,
)
    requires
        state matches RespondStateData::Sending(r) ==> r.attempt < SEND_ATTEMPTS,
        state matches RespondStateData::Pausing(r) ==> r.attempt < SEND_ATTEMPTS,
        state is Sending || state is Pausing,
    ensures
        0 <= attempts_left(data.next(state, event)) <= attempts_left(state),
        state is Sending && (event is Sent || event is SendFailed) ==> attempts_left(
            data.next(state, event),
        ) < attempts_left(state),
        state is Pausing && event is Paused ==> data.next(state, event) is Sending || data.next(
            state,
            event,
        ) is Receiving,
        data.next(state, event) is Sending || data.next(state, event) is Pausing || data.next(
            state,
            event,
        ) == RespondStateData::<E>::Receiving(None),
{
}

/// The loop ends only when the socket cannot receive, with that error, or when
/// nobody takes discovered peers any more; and once it has ended it stays so.
pub proof fn law_loop_ends_only_when_told<E>(
    data: DiscoveryData,
    state: RespondStateData<E>,
    event: RespondEventData<E>,
)
    ensures
        data.next(state, event) is Failed <==> state is Failed || (state is Receiving && event
            is ReceiveFailed),
        state is Receiving && event is ReceiveFailed ==> data.next(state, event)
            == RespondStateData::Failed(event->ReceiveFailed_0),
        state is Failed || state is Stopped ==> data.next(state, event) == state,
        data.next(state, event) is Stopped <==> state is Stopped || (state is Delivering && event
            is NotDelivered),
{
}

} // verus!
