//! What holds of discovery over many calls and many datagrams.

use vstd::prelude::*;

use crate::addr::SocketAddr;
use crate::discovery::{
    AnnounceStateData, DiscoveredData, DiscoveryData, ReactionData, RespondEventData,
    RespondStateData, PORT,
};

verus! {

/// A call that changes what a node remembers.
pub ghost enum NodeCall {
    /// An interface was enabled.
    Enabled(u32),
    /// An interface could not be enabled.
    EnableFailed(u32),
    /// An interface was disabled.
    Disabled(u32),
    /// A hello with this nonce was announced.
    Announced(Seq<u8>),
}

/// What a node that starts with this id remembers after the calls.
pub open spec fn after_calls(zid: Seq<u8>, calls: Seq<NodeCall>) -> DiscoveryData
    decreases calls.len(),
{
    if calls.len() == 0 {
        DiscoveryData::initial(zid)
    } else {
        let before = after_calls(zid, calls.drop_last());
        match calls.last() {
            NodeCall::Enabled(iface_idx) => before.enabled(iface_idx),
            NodeCall::EnableFailed(_) => before,
            NodeCall::Disabled(iface_idx) => before.disabled(iface_idx),
            NodeCall::Announced(nonce) => before.announced(nonce),
        }
    }
}

/// The interface was enabled by call number `i`, and no later call disabled it.
pub open spec fn enabled_by(calls: Seq<NodeCall>, i: int, iface_idx: u32) -> bool {
    &&& 0 <= i < calls.len()
    &&& calls[i] == NodeCall::Enabled(iface_idx)
    &&& forall|j: int| i < j < calls.len() ==> #[trigger] calls[j] != NodeCall::Disabled(iface_idx)
}

/// The interface was enabled after it was last disabled.
pub open spec fn is_enabled(calls: Seq<NodeCall>, iface_idx: u32) -> bool {
    exists|i: int| enabled_by(calls, i, iface_idx)
}

/// One more call: the interface is enabled if it was and the call does not disable
/// it, or if the call enables it.
proof fn lemma_is_enabled_step(calls: Seq<NodeCall>, iface_idx: u32)
    requires
        calls.len() > 0,
    ensures
        is_enabled(calls, iface_idx) <==> calls.last() == NodeCall::Enabled(iface_idx) || (
        is_enabled(calls.drop_last(), iface_idx) && calls.last() != NodeCall::Disabled(iface_idx)),
{
    let rest = calls.drop_last();
    let n = calls.len() - 1;
    if calls.last() == NodeCall::Enabled(iface_idx) {
        assert(enabled_by(calls, n, iface_idx));
    } else {
        if is_enabled(calls, iface_idx) {
            let i = choose|i: int| enabled_by(calls, i, iface_idx);
            assert(calls[n] != NodeCall::Disabled(iface_idx));
            assert forall|j: int| i < j < rest.len() implies #[trigger] rest[j]
                != NodeCall::Disabled(iface_idx) by {
                assert(calls[j] != NodeCall::Disabled(iface_idx));
            }
            assert(enabled_by(rest, i, iface_idx));
        }
        if is_enabled(rest, iface_idx) && calls.last() != NodeCall::Disabled(iface_idx) {
            let i = choose|i: int| enabled_by(rest, i, iface_idx);
            assert forall|j: int| i < j < calls.len() implies #[trigger] calls[j]
                != NodeCall::Disabled(iface_idx) by {
                if j < n {
                    assert(rest[j] != NodeCall::Disabled(iface_idx));
                }
            }
            assert(calls[i] == rest[i]);
            assert(enabled_by(calls, i, iface_idx));
        }
    }
}

/// Whatever calls a node has seen, its hellos go to the group at the port of
/// discovery on exactly those interfaces that were enabled after they were last
/// disabled.
pub proof fn law_hellos_go_where_enabled(zid: Seq<u8>, calls: Seq<NodeCall>, addr: SocketAddr)
    ensures
        after_calls(zid, calls).port == PORT,
        after_calls(zid, calls).ifaces.contains(addr) <==> exists|iface_idx: u32|
            addr == crate::discovery::group_on(PORT, iface_idx) && #[trigger] is_enabled(
                calls,
                iface_idx,
            ),
    decreases calls.len(),
{
    if calls.len() > 0 {
        let rest = calls.drop_last();
        let before = after_calls(zid, rest);
        law_hellos_go_where_enabled(zid, rest, addr);
        assert forall|iface_idx: u32|
            #![trigger is_enabled(calls, iface_idx)]
            #![trigger is_enabled(rest, iface_idx)]
            is_enabled(calls, iface_idx) <==> calls.last() == NodeCall::Enabled(iface_idx) || (
            is_enabled(rest, iface_idx) && calls.last() != NodeCall::Disabled(iface_idx)) by {
            lemma_is_enabled_step(calls, iface_idx);
        }
        match calls.last() {
            NodeCall::Enabled(iface_idx) => {
                let group = crate::discovery::group_on(PORT, iface_idx);
                let ifaces = before.ifaces.push(group);
                assert(is_enabled(calls, iface_idx));
                assert(ifaces.contains(addr) <==> before.ifaces.contains(addr) || addr
                    == group) by {
                    if before.ifaces.contains(addr) {
                        let i = choose|i: int|
                            0 <= i < before.ifaces.len() && before.ifaces[i] == addr;
                        assert(ifaces[i] == addr);
                    }
                    assert(ifaces[before.ifaces.len() as int] == group);
                }
            },
            NodeCall::Disabled(iface_idx) => {
                crate::discovery_laws::law_disabled_is_silent(before, iface_idx, addr);
            },
            _ => {},
        }
    }
}

/// How the sending of a hello stands after these attempts.
pub open spec fn after_sends<E>(
    state: AnnounceStateData<E>,
    results: Seq<Result<usize, E>>,
) -> AnnounceStateData<E>
    decreases results.len(),
{
    if results.len() == 0 {
        state
    } else {
        after_sends(state, results.drop_last()).next(results.last())
    }
}

/// As long as no attempt fails, a hello goes to its addresses one after the other,
/// and when it has gone to all of them that is the end.
pub proof fn law_hello_goes_to_all<E>(
    packet: Seq<u8>,
    addrs: Seq<SocketAddr>,
    results: Seq<Result<usize, E>>,
)
    requires
        results.len() <= addrs.len(),
        forall|i: int| 0 <= i < results.len() ==> (#[trigger] results[i]) is Ok,
    ensures
        after_sends(crate::discovery::announcing::<E>(packet, addrs), results)
            == crate::discovery::announcing::<E>(packet, addrs.skip(results.len() as int)),
    decreases results.len(),
{
    if results.len() == 0 {
        assert(addrs.skip(0) =~= addrs);
    } else {
        law_hello_goes_to_all(packet, addrs, results.drop_last());
        let left = addrs.skip(results.len() - 1);
        assert(left.skip(1) =~= addrs.skip(results.len() as int));
        assert(results[results.len() - 1] is Ok);
    }
}

/// The first attempt that fails ends the sending of a hello, with its error,
/// whatever comes after it.
pub proof fn law_hello_stops_at_failure<E>(
    packet: Seq<u8>,
    addrs: Seq<SocketAddr>,
    results: Seq<Result<usize, E>>,
    error: E,
    later: Seq<Result<usize, E>>,
)
    requires
        results.len() < addrs.len(),
        forall|i: int| 0 <= i < results.len() ==> (#[trigger] results[i]) is Ok,
    ensures
        after_sends(
            crate::discovery::announcing::<E>(packet, addrs),
            results.push(Err(error)) + later,
        ) == AnnounceStateData::<E>::Failed(error),
    decreases later.len(),
{
    let first = crate::discovery::announcing::<E>(packet, addrs);
    let failed = results.push(Err(error));
    if later.len() == 0 {
        law_hello_goes_to_all(packet, addrs, results);
        assert(failed + later =~= failed);
        assert(failed.drop_last() =~= results);
    } else {
        law_hello_stops_at_failure(packet, addrs, results, error, later.drop_last());
        assert((failed + later).drop_last() =~= failed + later.drop_last());
    }
}

/// A step of the loop that answers datagrams: an event, and what the node
/// remembers when it comes.
pub ghost struct Step<E> {
    pub node: DiscoveryData,
    pub event: RespondEventData<E>,
}

/// A datagram that the loop has taken, and what the node remembered then.
pub ghost struct Taken {
    pub node: DiscoveryData,
    pub datagram: Seq<u8>,
    pub from: SocketAddr,
}

/// What the loop that answers datagrams has done.
pub ghost struct Run<E> {
    /// What it has to do next.
    pub state: RespondStateData<E>,
    /// The datagrams that it has received, in this order.
    pub taken: Seq<Taken>,
    /// What it has tried to send, and where, in this order.
    pub sent: Seq<(Seq<u8>, SocketAddr)>,
    /// The peers that it has handed over, in this order.
    pub delivered: Seq<DiscoveredData>,
}

impl<E> Run<E> {
    /// The loop before it has done anything.
    pub open spec fn start() -> Run<E> {
        Run {
            state: RespondStateData::Receiving(None),
            taken: Seq::empty(),
            sent: Seq::empty(),
            delivered: Seq::empty(),
        }
    }

    /// After one more step.
    pub open spec fn step(self, step: Step<E>) -> Run<E> {
        Run {
            state: step.node.next(self.state, step.event),
            taken: match (self.state, step.event) {
                (RespondStateData::Receiving(_), RespondEventData::Received { datagram, from }) => {
                    self.taken.push(Taken { node: step.node, datagram, from })
                },
                _ => self.taken,
            },
            sent: match (self.state, step.event) {
                (RespondStateData::Sending(reply), RespondEventData::Sent(_)) => {
                    self.sent.push((reply.packet, reply.to))
                },
                (RespondStateData::Sending(reply), RespondEventData::SendFailed) => {
                    self.sent.push((reply.packet, reply.to))
                },
                _ => self.sent,
            },
            delivered: match (self.state, step.event) {
                (RespondStateData::Delivering(peer), RespondEventData::Delivered) => {
                    self.delivered.push(peer)
                },
                _ => self.delivered,
            },
        }
    }
}

/// What the loop has done after these steps.
pub open spec fn run<E>(steps: Seq<Step<E>>) -> Run<E>
    decreases steps.len(),
{
    if steps.len() == 0 {
        Run::start()
    } else {
        run(steps.drop_last()).step(steps.last())
    }
}

/// The datagram is an answer to the node's last hello from another node: it is a
/// whole answer with the nonce of that hello, which is not zero, came over IPv6,
/// and gives an id that is neither zero nor the node's own.
pub open spec fn is_acceptable(taken: Taken) -> bool {
    &&& taken.datagram.len() == 28
    &&& taken.datagram.take(4) == seq![0x45u8, 0x58u8, 0x4fu8, 1u8]
    &&& taken.datagram.subrange(4, 12) == taken.node.last_nonce
    &&& !crate::zid::all_zero(taken.node.last_nonce)
    &&& taken.from is V6
    &&& !crate::zid::all_zero(taken.datagram.skip(12))
    &&& taken.datagram.skip(12) != taken.node.zid
}

/// The peer that an acceptable answer speaks of: its id, and where it answered
/// from.
pub open spec fn answerer(taken: Taken) -> DiscoveredData {
    DiscoveredData {
        zid: taken.datagram.skip(12),
        addr: (taken.from->V6_0.ip, taken.from->V6_0.scope_id),
    }
}

/// The peers that the acceptable answers speak of, one for each, in their order.
pub open spec fn answerers(taken: Seq<Taken>) -> Seq<DiscoveredData>
    decreases taken.len(),
{
    if taken.len() == 0 {
        Seq::empty()
    } else if is_acceptable(taken.last()) {
        answerers(taken.drop_last()).push(answerer(taken.last()))
    } else {
        answerers(taken.drop_last())
    }
}

/// A node reports exactly the acceptable answers.
pub proof fn law_reports_acceptable_answers(taken: Taken, peer: DiscoveredData)
    ensures
        taken.node.reaction(taken.datagram, taken.from) == ReactionData::Report(peer)
            <==> is_acceptable(taken) && peer == answerer(taken),
{
    let bytes = taken.datagram;
    if bytes.len() >= 4 {
        assert(bytes.take(4).take(3) =~= bytes.take(3));
        assert(bytes.take(4)[3] == bytes[3]);
        assert(seq![0x45u8, 0x58u8, 0x4fu8, 1u8].take(3) =~= crate::wire::magic());
        if bytes.take(3) == crate::wire::magic() && bytes[3] == 1 {
            assert(bytes.take(4) =~= bytes.take(3).push(bytes[3]));
            assert(bytes.take(4) =~= seq![0x45u8, 0x58u8, 0x4fu8, 1u8]);
        }
    }
}

/// The peer that the loop is about to hand over, if there is one.
pub open spec fn pending<E>(state: RespondStateData<E>) -> Seq<DiscoveredData> {
    match state {
        RespondStateData::Delivering(peer) => seq![peer],
        _ => Seq::empty(),
    }
}

/// As long as peers are taken, the loop hands over exactly those that acceptable
/// answers speak of, one for each answer and in the order in which the answers
/// came: none is made up, lost, moved or left out as a repetition.
pub proof fn law_hands_over_who_answers<E>(steps: Seq<Step<E>>)
    requires
        forall|i: int| 0 <= i < steps.len() ==> !((#[trigger] steps[i]).event is NotDelivered),
    ensures
        run(steps).delivered + pending(run(steps).state) == answerers(run(steps).taken),
    decreases steps.len(),
{
    if steps.len() == 0 {
        assert(run(steps).delivered + pending(run(steps).state) =~= Seq::empty());
    } else {
        let before = run(steps.drop_last());
        let step = steps.last();
        let after = run(steps);
        assert(!(steps[steps.len() - 1].event is NotDelivered));
        law_hands_over_who_answers(steps.drop_last());
        if before.state is Receiving && step.event is Received {
            let taken = Taken {
                node: step.node,
                datagram: step.event->datagram,
                from: step.event->from,
            };
            assert(after.taken.drop_last() =~= before.taken);
            assert(pending(before.state) =~= Seq::empty());
            assert(before.delivered + pending(before.state) =~= before.delivered);
            let reaction = step.node.reaction(taken.datagram, taken.from);
            if reaction is Report {
                law_reports_acceptable_answers(taken, reaction->Report_0);
                assert(after.delivered + pending(after.state) =~= before.delivered.push(
                    answerer(taken),
                ));
            } else {
                law_reports_acceptable_answers(taken, answerer(taken));
                assert(after.delivered + pending(after.state) =~= before.delivered);
            }
        } else {
            assert(after.delivered + pending(after.state) =~= before.delivered + pending(
                before.state,
            ));
        }
    }
}

/// The steps without those that receive one of these datagrams.
pub open spec fn without<E>(
    steps: Seq<Step<E>>,
    leave_out: spec_fn(Seq<u8>) -> bool,
) -> Seq<Step<E>>
    decreases steps.len(),
{
    if steps.len() == 0 {
        Seq::empty()
    } else {
        let rest = without(steps.drop_last(), leave_out);
        match steps.last().event {
            RespondEventData::Received { datagram, .. } => if leave_out(datagram) {
                rest
            } else {
                rest.push(steps.last())
            },
            _ => rest.push(steps.last()),
        }
    }
}

/// The loop has the same to do, but for why it dropped the last datagram.
pub open spec fn same_task<E>(a: RespondStateData<E>, b: RespondStateData<E>) -> bool {
    a == b || (a is Receiving && b is Receiving)
}

/// Datagrams that are no packets change nothing: without any number of them the
/// loop sends the same, hands the same peers over, and has the same to do.
pub proof fn law_malformed_datagrams_change_nothing<E>(
    steps: Seq<Step<E>>,
    leave_out: spec_fn(Seq<u8>) -> bool,
)
    requires
        forall|bytes: Seq<u8>| #[trigger]
            leave_out(bytes) ==> crate::wire::content(bytes) is Err,
    ensures
        run(steps).sent == run(without(steps, leave_out)).sent,
        run(steps).delivered == run(without(steps, leave_out)).delivered,
        same_task(run(steps).state, run(without(steps, leave_out)).state),
    decreases steps.len(),
{
    if steps.len() > 0 {
        law_malformed_datagrams_change_nothing(steps.drop_last(), leave_out);
        let rest = without(steps.drop_last(), leave_out);
        if let RespondEventData::Received { datagram, .. } = steps.last().event {
            if leave_out(datagram) {
                assert(without(steps, leave_out) == rest);
            } else {
                assert(without(steps, leave_out) == rest.push(steps.last()));
                assert(rest.push(steps.last()).drop_last() =~= rest);
            }
        } else {
            assert(without(steps, leave_out) == rest.push(steps.last()));
            assert(rest.push(steps.last()).drop_last() =~= rest);
        }
    }
}

/// The datagram has neither the length of a hello nor that of an answer, does not
/// start with the magic bytes, or its kind is unknown.
pub open spec fn is_noise(bytes: Seq<u8>) -> bool {
    ||| bytes.len() != 12 && bytes.len() != 28
    ||| bytes.take(3) != seq![0x45u8, 0x58u8, 0x4fu8]
    ||| bytes[3] >= 2
}

/// Noise changes nothing: without it the loop sends the same, hands the same peers
/// over, and has the same to do.
pub proof fn law_noise_changes_nothing<E>(steps: Seq<Step<E>>)
    ensures
        run(steps).sent == run(without(steps, |bytes: Seq<u8>| is_noise(bytes))).sent,
        run(steps).delivered == run(without(steps, |bytes: Seq<u8>| is_noise(bytes))).delivered,
        same_task(
            run(steps).state,
            run(without(steps, |bytes: Seq<u8>| is_noise(bytes))).state,
        ),
{
    law_malformed_datagrams_change_nothing(steps, |bytes: Seq<u8>| is_noise(bytes));
}

/// The packet is the answer to the hello that was taken, in the name of the node that
/// took it, and goes to where the hello came from.
spec fn is_answer_to(taken: Taken, packet: Seq<u8>, to: SocketAddr) -> bool {
    &&& taken.datagram.len() == 12
    &&& taken.datagram.take(4) == seq![0x45u8, 0x58u8, 0x4fu8, 0u8]
    &&& taken.datagram.skip(4) != taken.node.last_nonce
    &&& packet == seq![0x45u8, 0x58u8, 0x4fu8, 1u8] + taken.datagram.skip(4) + taken.node.zid
    &&& to == taken.from
}

/// What the loop is about to send, if it is.
spec fn reply_of<E>(state: RespondStateData<E>) -> Option<crate::discovery::ReplyData> {
    match state {
        RespondStateData::Sending(reply) => Some(reply),
        RespondStateData::Pausing(reply) => Some(reply),
        _ => None,
    }
}

/// A datagram leads to a reply exactly if it is a hello with another nonce than the
/// node's last one, and the reply answers it.
proof fn lemma_reply_answers<E>(taken: Taken, dropped: Option<crate::discovery::DropReason>)
    ensures
        ({
            let after = taken.node.next(
                RespondStateData::<E>::Receiving(dropped),
                RespondEventData::Received { datagram: taken.datagram, from: taken.from },
            );
            &&& !(after is Pausing)
            &&& after matches RespondStateData::Sending(reply) ==> is_answer_to(
                taken,
                reply.packet,
                reply.to,
            ) && reply.attempt == 0
            &&& taken.datagram.len() == 12 && taken.datagram.take(4) == seq![
                0x45u8,
                0x58u8,
                0x4fu8,
                0u8,
            ] && taken.datagram.skip(4) != taken.node.last_nonce ==> after is Sending
        }),
{
    let nonce = taken.datagram.skip(4);
    crate::discovery_exchange::law_what_is_dropped::<E>(
        taken.node,
        dropped,
        taken.datagram,
        taken.from,
        crate::wire::Malformed::EarlyEof,
    );
    if taken.datagram.len() == 12 && taken.datagram.take(4) == seq![0x45u8, 0x58u8, 0x4fu8, 0u8]
        && nonce != taken.node.last_nonce {
        assert(taken.datagram =~= seq![0x45u8, 0x58u8, 0x4fu8, 0u8] + nonce);
        crate::discovery_exchange::law_hello_is_answered_to_its_sender::<E>(
            taken.node,
            dropped,
            nonce,
            taken.from,
        );
    }
}

/// While the loop is busy with a reply, it is that to the datagram taken last.
proof fn lemma_busy_with_last<E>(steps: Seq<Step<E>>)
    ensures
        reply_of(run(steps).state) matches Some(reply) ==> run(steps).taken.len() > 0
            && is_answer_to(run(steps).taken.last(), reply.packet, reply.to),
    decreases steps.len(),
{
    if steps.len() > 0 {
        let before = run(steps.drop_last());
        let step = steps.last();
        lemma_busy_with_last(steps.drop_last());
        if before.state is Receiving && step.event is Received {
            let taken = Taken {
                node: step.node,
                datagram: step.event->datagram,
                from: step.event->from,
            };
            lemma_reply_answers::<E>(taken, before.state->Receiving_0);
            assert(run(steps).taken.last() == taken);
        }
    }
}

/// Whatever the loop sends answers a hello that it has received: it is the answer
/// with the nonce of that hello and the id of the node, and it goes to the very
/// address that the hello came from.
pub proof fn law_answers_go_to_who_asked<E>(steps: Seq<Step<E>>, k: int)
    requires
        0 <= k < run(steps).sent.len(),
    ensures
        exists|j: int|
            0 <= j < run(steps).taken.len() && {
                let taken = #[trigger] run(steps).taken[j];
                &&& taken.datagram.len() == 12
                &&& taken.datagram.take(4) == seq![0x45u8, 0x58u8, 0x4fu8, 0u8]
                &&& taken.datagram.skip(4) != taken.node.last_nonce
                &&& run(steps).sent[k].0 == seq![0x45u8, 0x58u8, 0x4fu8, 1u8]
                    + taken.datagram.skip(4) + taken.node.zid
                &&& run(steps).sent[k].1 == taken.from
            },
    decreases steps.len(),
{
    let before = run(steps.drop_last());
    let after = run(steps);
    if k < before.sent.len() {
        law_answers_go_to_who_asked(steps.drop_last(), k);
        let j = choose|j: int|
            0 <= j < before.taken.len() && {
                let taken = #[trigger] before.taken[j];
                &&& taken.datagram.len() == 12
                &&& taken.datagram.take(4) == seq![0x45u8, 0x58u8, 0x4fu8, 0u8]
                &&& taken.datagram.skip(4) != taken.node.last_nonce
                &&& before.sent[k].0 == seq![0x45u8, 0x58u8, 0x4fu8, 1u8] + taken.datagram.skip(4)
                    + taken.node.zid
                &&& before.sent[k].1 == taken.from
            };
        assert(after.taken[j] == before.taken[j]);
        assert(after.sent[k] == before.sent[k]);
    } else {
        lemma_busy_with_last(steps.drop_last());
        assert(after.taken == before.taken);
        assert(is_answer_to(
            after.taken[after.taken.len() - 1],
            after.sent[k].0,
            after.sent[k].1,
        ));
    }
}

/// Every hello that the loop has received, with another nonce than that of the node's
/// last hello, is answered to the address that it came from: the answer has been sent
/// or is what the loop sends next.
pub proof fn law_who_asked_is_answered<E>(steps: Seq<Step<E>>, j: int)
    requires
        0 <= j < run(steps).taken.len(),
        run(steps).taken[j].datagram.len() == 12,
        run(steps).taken[j].datagram.take(4) == seq![0x45u8, 0x58u8, 0x4fu8, 0u8],
        run(steps).taken[j].datagram.skip(4) != run(steps).taken[j].node.last_nonce,
    ensures
        ({
            let taken = run(steps).taken[j];
            let answer = seq![0x45u8, 0x58u8, 0x4fu8, 1u8] + taken.datagram.skip(4)
                + taken.node.zid;
            ||| run(steps).sent.contains((answer, taken.from))
            ||| run(steps).state matches RespondStateData::Sending(reply) && reply.packet == answer
                && reply.to == taken.from
        }),
    decreases steps.len(),
{
    let before = run(steps.drop_last());
    let after = run(steps);
    let step = steps.last();
    let taken = after.taken[j];
    let answer = seq![0x45u8, 0x58u8, 0x4fu8, 1u8] + taken.datagram.skip(4) + taken.node.zid;
    if j < before.taken.len() {
        assert(taken == before.taken[j]);
        law_who_asked_is_answered(steps.drop_last(), j);
        if before.sent.contains((answer, taken.from)) {
            let k = choose|k: int| 0 <= k < before.sent.len() && before.sent[k] == (
                answer,
                taken.from,
            );
            assert(after.sent[k] == (answer, taken.from));
        } else if step.event is Sent || step.event is SendFailed {
            assert(after.sent.last() == (answer, taken.from));
        }
    } else {
        lemma_reply_answers::<E>(taken, before.state->Receiving_0);
    }
}

} // verus!
