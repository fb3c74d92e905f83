//! Discovery of peers on the local links.
//!
//! A node announces itself by sending a hello with a fresh nonce to the
//! multicast group on each interface that it listens on. Whoever hears a hello
//! that is not its own answers it, and the answer repeats the nonce: so a node
//! knows the answers to its last hello from all others.
//!
//! This module decides; it neither sends nor receives. [`Discovery`] holds what
//! a node remembers, and [`RespondState`] says what the loop that answers
//! datagrams has to do next.

use vstd::prelude::*;

use crate::addr::{Ipv6Addr, SocketAddr, SocketAddrV6};
pub use crate::wire::{Header, Hello, Kind, Message, UnknownKind, WhatsUp};

use crate::wire::{read_packet, same_bytes, Malformed, Packet, NONCE_SIZE};
use crate::zid::ZenohId;

verus! {

/// The port that every node listens on.
pub const PORT: u16 = 52414;

/// The multicast group that hellos are sent to: `ff12::e0a1:de89`.
pub const GROUP_BITS: u128 = 0xff12_0000_0000_0000_0000_0000_e0a1_de89;

/// The room for a received datagram, in bytes.
pub const RECEIVE_SIZE: usize = 100;

/// The number of discovered peers that may wait to be taken.
pub const DISCOVERED_CAPACITY: usize = 10;

/// How often an answer is sent before it is given up.
pub const SEND_ATTEMPTS: u32 = 4;

/// The pause after an attempt that failed, in milliseconds.
pub const RETRY_PAUSE_MILLIS: u64 = 300;

/// The group on one interface.
pub open spec fn group_on(port: u16, iface_idx: u32) -> SocketAddr {
    SocketAddr::V6(
        SocketAddrV6 {
            ip: Ipv6Addr { bits: GROUP_BITS },
            port,
            flowinfo: 0,
            scope_id: iface_idx,
        },
    )
}

/// The address is that of the group on some interface.
pub open spec fn is_group(addr: SocketAddr, port: u16) -> bool {
    addr matches SocketAddr::V6(v6) && addr == group_on(port, v6.scope_id)
}

/// The address lies on another interface, or on none.
pub open spec fn not_on(addr: SocketAddr, iface_idx: u32) -> bool {
    addr matches SocketAddr::V6(v6) ==> v6.scope_id != iface_idx
}

/// What a node remembers for discovery.
pub ghost struct DiscoveryData {
    /// Where hellos are sent, in the order in which the interfaces were enabled.
    pub ifaces: Seq<SocketAddr>,
    /// The nonce of the last hello; zero before the first one.
    pub last_nonce: Seq<u8>,
    /// The port that hellos are sent to.
    pub port: u16,
    /// The node's own id.
    pub zid: Seq<u8>,
}

impl DiscoveryData {
    /// A node that has enabled no interface and sent no hello.
    pub open spec fn initial(zid: Seq<u8>) -> DiscoveryData {
        DiscoveryData {
            ifaces: Seq::empty(),
            last_nonce: Seq::new(NONCE_SIZE as nat, |i: int| 0u8),
            port: PORT,
            zid,
        }
    }

    /// After the interface has been enabled.
    pub open spec fn enabled(self, iface_idx: u32) -> DiscoveryData {
        DiscoveryData { ifaces: self.ifaces.push(group_on(self.port, iface_idx)), ..self }
    }

    /// After the interface has been disabled.
    pub open spec fn disabled(self, iface_idx: u32) -> DiscoveryData {
        DiscoveryData {
            ifaces: self.ifaces.filter(|addr: SocketAddr| not_on(addr, iface_idx)),
            ..self
        }
    }

    /// After a hello with this nonce.
    pub open spec fn announced(self, nonce: Seq<u8>) -> DiscoveryData {
        DiscoveryData { last_nonce: nonce, ..self }
    }

    /// Hellos go to the group at the port of discovery and nowhere else, and the
    /// nonce and the id are as long as the wire has room for.
    pub open spec fn valid(self) -> bool {
        &&& self.port == PORT
        &&& forall|i: int|
            0 <= i < self.ifaces.len() ==> is_group(#[trigger] self.ifaces[i], self.port)
        &&& self.last_nonce.len() == NONCE_SIZE
        &&& self.zid.len() == crate::wire::ZID_SIZE
        &&& crate::zid::spells_id(self.zid)
    }
}

/// What a node remembers for discovery.
pub struct Discovery {
    ifaces: Vec<SocketAddr>,
    last_nonce: [u8; 8],
    port: u16,
    zid: ZenohId,
}

impl View for Discovery {
    type V = DiscoveryData;

    closed spec fn view(&self) -> DiscoveryData {
        DiscoveryData {
            ifaces: self.ifaces@,
            last_nonce: self.last_nonce@,
            port: self.port,
            zid: self.zid@,
        }
    }
}

/// A hello that is ready to be sent.
pub struct Announcement {
    /// The packet to send.
    pub packet: Vec<u8>,
    /// Where it goes, in this order.
    pub addrs: Vec<SocketAddr>,
}

/// `rand::random` for eight bytes. Nothing is said of what it draws.
#[verifier::external_body]
fn random_nonce() -> (nonce: [u8; 8]) {
    rand::random()
}

impl Discovery {
    /// What the node remembers is valid.
    #[verifier::type_invariant]
    pub open spec fn is_valid(self) -> bool {
        self@.valid()
    }

    /// A node that has enabled no interface and sent no hello.
    pub fn new(zid: ZenohId) -> (r: Discovery)
        ensures
            r@ == DiscoveryData::initial(zid@),
            r@.valid(),
    {
        proof {
            use_type_invariant(&zid);
        }
        let r = Discovery { ifaces: Vec::new(), last_nonce: [0u8; 8], port: PORT, zid };
        assert(r@.last_nonce =~= DiscoveryData::initial(zid@).last_nonce);
        r
    }

    /// Takes note that the node has tried to join the group on the interface.
    /// If it has joined, hellos go there from now on.
    pub fn enable_iface<E>(&mut self, iface_idx: u32, joined: Result<(), E>) -> (r: Result<(), E>)
        ensures
            r == joined,
            joined is Ok ==> final(self)@ == old(self)@.enabled(iface_idx),
            joined is Err ==> final(self)@ == old(self)@,
            final(self)@.valid(),
    {
        proof {
            use_type_invariant(&*self);
        }
        if joined.is_ok() {
            let group = SocketAddrV6 {
                ip: Ipv6Addr { bits: GROUP_BITS },
                port: self.port,
                flowinfo: 0,
                scope_id: iface_idx,
            };
            let mut ifaces: Vec<SocketAddr> = Vec::new();
            std::mem::swap(&mut ifaces, &mut self.ifaces);
            ifaces.push(SocketAddr::V6(group));
            proof {
                crate::discovery_laws::law_stays_valid(
                    old(self)@,
                    iface_idx,
                    old(self)@.last_nonce,
                );
            }
            self.ifaces = ifaces;
        }
        joined
    }

    /// Sends no more hellos on the interface, whether or not the node can leave
    /// the group there.
    pub fn disable_iface(&mut self, iface_idx: u32)
        ensures
            final(self)@ == old(self)@.disabled(iface_idx),
            final(self)@.valid(),
    {
        proof {
            use_type_invariant(&*self);
            crate::discovery_laws::law_stays_valid(old(self)@, iface_idx, old(self)@.last_nonce);
        }
        let ghost keeps = |addr: SocketAddr| not_on(addr, iface_idx);
        let mut kept: Vec<SocketAddr> = Vec::new();
        let mut i: usize = 0;
        while i < self.ifaces.len()
            invariant
                i <= self.ifaces@.len(),
                keeps == (|addr: SocketAddr| not_on(addr, iface_idx)),
                kept@ == self.ifaces@.take(i as int).filter(keeps),
                self@ == old(self)@,
            decreases self.ifaces@.len() - i,
        {
            let addr: SocketAddr = self.ifaces[i];
            let keep: bool = match addr {
                SocketAddr::V6(v6) => v6.scope_id != iface_idx,
                SocketAddr::V4(_) => true,
            };
            proof {
                reveal(Seq::filter);
                assert(self.ifaces@.take(i + 1).drop_last() =~= self.ifaces@.take(i as int));
            }
            if keep {
                kept.push(addr);
            }
            i += 1;
        }
        assert(self.ifaces@.take(i as int) =~= self.ifaces@);
        self.ifaces = kept;
    }

    /// A hello with this nonce, which counts as the last one from now on.
    pub fn announce_with(&mut self, nonce: [u8; 8]) -> (r: Announcement)
        ensures
            final(self)@ == old(self)@.announced(nonce@),
            final(self)@.valid(),
            r.packet@ == hello_packet(nonce@),
            r.packet@ == seq![0x45u8, 0x58u8, 0x4fu8, 0u8] + nonce@,
            r.addrs@ == old(self)@.ifaces,
    {
        proof {
            use_type_invariant(&*self);
            crate::discovery_exchange::law_hello_packet(nonce@);
            crate::discovery_laws::law_stays_valid(self@, 0, nonce@);
        }
        self.last_nonce = nonce;
        let hello = Hello { nonce };
        let mut packet: Vec<u8> = vec![0u8; Hello::buf_size()];
        hello.write_into(packet.as_mut_slice());
        assert(packet@ =~= hello_packet(nonce@));
        let mut addrs: Vec<SocketAddr> = Vec::new();
        let mut i: usize = 0;
        while i < self.ifaces.len()
            invariant
                i <= self.ifaces@.len(),
                addrs@ == self.ifaces@.take(i as int),
            decreases self.ifaces@.len() - i,
        {
            addrs.push(self.ifaces[i]);
            i += 1;
            assert(addrs@ =~= self.ifaces@.take(i as int));
        }
        assert(addrs@ =~= self.ifaces@);
        Announcement { packet, addrs }
    }

    /// A hello with a nonce drawn by chance, which counts as the last one from
    /// now on. Which nonce it is nothing says, only that the hello carries it
    /// and that it is remembered.
    pub fn announce(&mut self) -> (r: Announcement)
        ensures
            final(self)@ == old(self)@.announced(final(self)@.last_nonce),
            final(self)@.valid(),
            r.packet@ == hello_packet(final(self)@.last_nonce),
            r.packet@ == seq![0x45u8, 0x58u8, 0x4fu8, 0u8] + final(self)@.last_nonce,
            r.addrs@ == old(self)@.ifaces,
    {
        let nonce: [u8; 8] = random_nonce();
        self.announce_with(nonce)
    }
}

/// What has to be done next for a hello to be sent to all its addresses.
#[derive(Debug)]
pub enum AnnounceState<E> {
    /// Send the packet to this address; the rest of the addresses come after it.
    Sending { packet: Vec<u8>, to: SocketAddr, rest: Vec<SocketAddr> },
    /// Nothing: it has been sent to all of them.
    Announced,
    /// Nothing: it could not be sent to one of them.
    Failed(E),
}

/// What has to be done next for a hello to be sent to all its addresses.
#[verifier::ext_equal]
pub ghost enum AnnounceStateData<E> {
    Sending { packet: Seq<u8>, to: SocketAddr, rest: Seq<SocketAddr> },
    Announced,
    Failed(E),
}

impl<E> View for AnnounceState<E> {
    type V = AnnounceStateData<E>;

    open spec fn view(&self) -> AnnounceStateData<E> {
        match self {
            AnnounceState::Sending { packet, to, rest } => AnnounceStateData::Sending {
                packet: packet@,
                to: *to,
                rest: rest@,
            },
            AnnounceState::Announced => AnnounceStateData::Announced,
            AnnounceState::Failed(e) => AnnounceStateData::Failed(*e),
        }
    }
}

/// What has to be done for the packet to be sent to these addresses: to the first
/// of them, if there is one.
pub open spec fn announcing<E>(packet: Seq<u8>, addrs: Seq<SocketAddr>) -> AnnounceStateData<E> {
    if addrs.len() == 0 {
        AnnounceStateData::Announced
    } else {
        AnnounceStateData::Sending { packet, to: addrs[0], rest: addrs.skip(1) }
    }
}

impl<E> AnnounceStateData<E> {
    /// What has to be done after an attempt to send: go on with the next address,
    /// however many bytes were sent, or end if it failed.
    pub open spec fn next(self, sent: Result<usize, E>) -> AnnounceStateData<E> {
        match (self, sent) {
            (AnnounceStateData::Sending { packet, rest, .. }, Ok(_)) => announcing(packet, rest),
            (AnnounceStateData::Sending { .. }, Err(e)) => AnnounceStateData::Failed(e),
            _ => self,
        }
    }
}

/// What has to be done for the packet to be sent to these addresses.
fn send_first<E>(packet: Vec<u8>, addrs: Vec<SocketAddr>) -> (r: AnnounceState<E>)
    ensures
        r@ == announcing::<E>(packet@, addrs@),
{
    if addrs.len() == 0 {
        return AnnounceState::Announced;
    }
    let ghost all: Seq<SocketAddr> = addrs@;
    let mut rest: Vec<SocketAddr> = addrs;
    let to: SocketAddr = rest.remove(0);
    assert(rest@ =~= all.skip(1));
    AnnounceState::Sending { packet, to, rest }
}

impl Announcement {
    /// What has to be done first for the hello to be sent to all its addresses.
    pub fn start<E>(self) -> (r: AnnounceState<E>)
        ensures
            r@ == announcing::<E>(self.packet@, self.addrs@),
            self.addrs@.len() == 0 ==> r is Announced,
            self.addrs@.len() > 0 ==> (r matches AnnounceState::Sending { packet, to, rest }
                && packet@ == self.packet@ && to == self.addrs@[0] && rest@ == self.addrs@.skip(1)),
    {
        send_first(self.packet, self.addrs)
    }
}

impl<E> AnnounceState<E> {
    /// What has to be done after an attempt to send. The first one that fails ends
    /// it; how many bytes were sent does not matter.
    pub fn step(self, sent: Result<usize, E>) -> (r: AnnounceState<E>)
        ensures
            r@ == self@.next(sent),
            self matches AnnounceState::Sending { packet: p, to: t, rest: left } ==> match sent {
                Err(e) => r == AnnounceState::Failed(e),
                Ok(_) => if left@.len() == 0 {
                    r is Announced
                } else {
                    r matches AnnounceState::Sending { packet, to, rest } && packet@ == p@ && to
                        == left@[0] && rest@ == left@.skip(1)
                },
            },
    {
        match (self, sent) {
            (AnnounceState::Sending { packet, rest, .. }, Ok(_)) => send_first(packet, rest),
            (AnnounceState::Sending { .. }, Err(e)) => AnnounceState::Failed(e),
            (state, _) => state,
        }
    }
}

/// The packet of a hello with this nonce.
pub open spec fn hello_packet(nonce: Seq<u8>) -> Seq<u8> {
    crate::wire::PacketContent::Hello { nonce }.bytes()
}

/// The packet that answers a hello with this nonce in the name of `zid`.
pub open spec fn answer_packet(nonce: Seq<u8>, zid: Seq<u8>) -> Seq<u8> {
    crate::wire::PacketContent::WhatsUp { nonce, zid }.bytes()
}

/// A peer that has answered the last hello.
#[derive(Debug, Clone, Copy)]
pub struct Discovered {
    /// The id that it gave.
    pub zid: ZenohId,
    /// Where it answered from, and the interface on which it did.
    pub addr: (Ipv6Addr, u32),
}

/// A peer that has answered the last hello.
pub ghost struct DiscoveredData {
    pub zid: Seq<u8>,
    pub addr: (Ipv6Addr, u32),
}

impl View for Discovered {
    type V = DiscoveredData;

    open spec fn view(&self) -> DiscoveredData {
        DiscoveredData { zid: self.zid@, addr: self.addr }
    }
}

/// Why a datagram is dropped.
#[derive(Debug, Clone, Copy, PartialEq, Eq, Structural)]
pub enum DropReason {
    /// It is no packet.
    Malformed(Malformed),
    /// It is the node's own last hello.
    LocalHelloNonce,
    /// It answers no hello, or not the last one.
    StaleNonce,
    /// It answers the last hello, but came over IPv4.
    V4Address,
    /// It answers the last hello, but what it gives as an id is none.
    InvalidZenohId,
    /// It answers the last hello in the node's own name.
    SelfZenohId,
}

/// What a datagram gives rise to.
#[derive(Debug)]
pub enum Reaction {
    Drop(DropReason),
    /// The packet to send back.
    Reply(Vec<u8>),
    /// The peer to report.
    Report(Discovered),
}

/// What a datagram gives rise to.
pub ghost enum ReactionData {
    Drop(DropReason),
    Reply(Seq<u8>),
    Report(DiscoveredData),
}

impl View for Reaction {
    type V = ReactionData;

    open spec fn view(&self) -> ReactionData {
        match self {
            Reaction::Drop(reason) => ReactionData::Drop(*reason),
            Reaction::Reply(packet) => ReactionData::Reply(packet@),
            Reaction::Report(peer) => ReactionData::Report(peer@),
        }
    }
}

impl DiscoveryData {
    /// What the node makes of these bytes when they come from this address.
    pub open spec fn reaction(self, bytes: Seq<u8>, from: SocketAddr) -> ReactionData {
        match crate::wire::content(bytes) {
            Err(malformed) => ReactionData::Drop(DropReason::Malformed(malformed)),
            Ok(crate::wire::PacketContent::Hello { nonce }) => if nonce == self.last_nonce {
                ReactionData::Drop(DropReason::LocalHelloNonce)
            } else {
                ReactionData::Reply(answer_packet(nonce, self.zid))
            },
            Ok(
                crate::wire::PacketContent::WhatsUp { nonce, zid },
            ) => if crate::zid::all_zero(nonce) || nonce != self.last_nonce {
                ReactionData::Drop(DropReason::StaleNonce)
            } else {
                match from {
                    SocketAddr::V4(_) => ReactionData::Drop(DropReason::V4Address),
                    SocketAddr::V6(v6) => if crate::zid::all_zero(zid) {
                        ReactionData::Drop(DropReason::InvalidZenohId)
                    } else if zid == self.zid {
                        ReactionData::Drop(DropReason::SelfZenohId)
                    } else {
                        ReactionData::Report(DiscoveredData { zid, addr: (v6.ip, v6.scope_id) })
                    },
                }
            },
        }
    }
}

impl Discovery {
    /// What the node makes of a datagram.
    pub fn respond(&self, datagram: &[u8], from: SocketAddr) -> (r: Reaction)
        ensures
            r@ == self@.reaction(datagram@, from),
            self@.valid(),
            datagram@.len() == 12 && datagram@.take(4) == seq![0x45u8, 0x58u8, 0x4fu8, 0u8]
                && datagram@.skip(4) != self@.last_nonce ==> (r matches Reaction::Reply(packet)
                && packet@ == seq![0x45u8, 0x58u8, 0x4fu8, 1u8] + datagram@.skip(4) + self@.zid),
            r matches Reaction::Report(peer) ==> peer.zid@ == datagram@.skip(12) && (
            from matches SocketAddr::V6(v6) && peer.addr == (v6.ip, v6.scope_id)),
    {
        proof {
            crate::discovery_exchange::lemma_shape_of_hello(datagram@);
            crate::discovery_exchange::law_answer_packet(datagram@.skip(4), self@.zid);
            use_type_invariant(self);
            crate::wire::law_write_after_read(datagram@);
        }
        match read_packet(datagram) {
            Err(malformed) => Reaction::Drop(DropReason::Malformed(malformed)),
            Ok(Packet::Hello(hello)) => self.on_hello(hello),
            Ok(Packet::WhatsUp(whats_up)) => self.on_whats_up(whats_up, from),
        }
    }

    /// Answers a hello that is not the node's own.
    fn on_hello(&self, hello: Hello) -> (r: Reaction)
        ensures
            r@ == (if hello.nonce@ == self@.last_nonce {
                ReactionData::Drop(DropReason::LocalHelloNonce)
            } else {
                ReactionData::Reply(answer_packet(hello.nonce@, self@.zid))
            }),
    {
        if same_bytes(hello.nonce.as_slice(), self.last_nonce.as_slice()) {
            return Reaction::Drop(DropReason::LocalHelloNonce);
        }
        let reply = WhatsUp { nonce: hello.nonce, zid: self.zid.to_le_bytes() };
        let mut packet: Vec<u8> = vec![0u8; WhatsUp::buf_size()];
        reply.write_into(packet.as_mut_slice());
        assert(packet@ =~= answer_packet(hello.nonce@, self@.zid));
        Reaction::Reply(packet)
    }

    /// Reports who has answered the last hello.
    fn on_whats_up(&self, whats_up: WhatsUp, from: SocketAddr) -> (r: Reaction)
        ensures
            r@ == self@.reaction(answer_packet(whats_up.nonce@, whats_up.zid@), from),
    {
        proof {
            crate::wire::law_read_after_write(
                crate::wire::PacketContent::WhatsUp { nonce: whats_up.nonce@, zid: whats_up.zid@ },
            );
        }
        let zero: [u8; 8] = [0u8; 8];
        assert(crate::zid::all_zero(whats_up.nonce@) <==> whats_up.nonce@ == zero@) by {
            if crate::zid::all_zero(whats_up.nonce@) {
                assert(whats_up.nonce@ =~= zero@);
            }
        }
        if same_bytes(whats_up.nonce.as_slice(), zero.as_slice()) || !same_bytes(
            whats_up.nonce.as_slice(),
            self.last_nonce.as_slice(),
        ) {
            return Reaction::Drop(DropReason::StaleNonce);
        }
        let v6: SocketAddrV6 = match from {
            SocketAddr::V4(_) => {
                return Reaction::Drop(DropReason::V4Address);
            },
            SocketAddr::V6(v6) => v6,
        };
        let zid: ZenohId = match ZenohId::from_le_slice(whats_up.zid.as_slice()) {
            Err(_) => {
                return Reaction::Drop(DropReason::InvalidZenohId);
            },
            Ok(zid) => zid,
        };
        proof {
            crate::zid::law_id_from_its_bytes(whats_up.zid@);
        }
        if zid == self.zid {
            return Reaction::Drop(DropReason::SelfZenohId);
        }
        Reaction::Report(Discovered { zid, addr: (v6.ip, v6.scope_id) })
    }
}

/// An answer on its way.
#[derive(Debug)]
pub struct Reply {
    /// The packet to send.
    pub packet: Vec<u8>,
    /// Where it goes.
    pub to: SocketAddr,
    /// How many attempts to send it have failed.
    pub attempt: u32,
}

/// An answer on its way.
pub ghost struct ReplyData {
    pub packet: Seq<u8>,
    pub to: SocketAddr,
    pub attempt: u32,
}

impl View for Reply {
    type V = ReplyData;

    open spec fn view(&self) -> ReplyData {
        ReplyData { packet: self.packet@, to: self.to, attempt: self.attempt }
    }
}

/// What the loop that answers datagrams has to do next.
#[derive(Debug)]
pub enum RespondState<E> {
    /// Receive a datagram; where the last one was dropped, the reason is given.
    Receiving(Option<DropReason>),
    /// Send the answer.
    Sending(Reply),
    /// Pause after an attempt that failed.
    Pausing(Reply),
    /// Hand the peer to whoever takes discovered peers.
    Delivering(Discovered),
    /// Stop: nobody takes discovered peers any more.
    Stopped,
    /// Stop: the socket cannot receive.
    Failed(E),
}

/// What came of what the loop did.
#[derive(Debug)]
pub enum RespondEvent<E> {
    /// A datagram came in.
    Received { datagram: Vec<u8>, from: SocketAddr },
    /// The socket cannot receive.
    ReceiveFailed(E),
    /// So many bytes of the answer were sent.
    Sent(usize),
    /// The answer could not be sent.
    SendFailed,
    /// The pause is over.
    Paused,
    /// The peer was taken.
    Delivered,
    /// Nobody takes discovered peers any more.
    NotDelivered,
}

/// What the loop that answers datagrams has to do next.
pub ghost enum RespondStateData<E> {
    Receiving(Option<DropReason>),
    Sending(ReplyData),
    Pausing(ReplyData),
    Delivering(DiscoveredData),
    Stopped,
    Failed(E),
}

/// What came of what the loop did.
pub ghost enum RespondEventData<E> {
    Received { datagram: Seq<u8>, from: SocketAddr },
    ReceiveFailed(E),
    Sent(usize),
    SendFailed,
    Paused,
    Delivered,
    NotDelivered,
}

impl<E> View for RespondState<E> {
    type V = RespondStateData<E>;

    open spec fn view(&self) -> RespondStateData<E> {
        match self {
            RespondState::Receiving(dropped) => RespondStateData::Receiving(*dropped),
            RespondState::Sending(reply) => RespondStateData::Sending(reply@),
            RespondState::Pausing(reply) => RespondStateData::Pausing(reply@),
            RespondState::Delivering(peer) => RespondStateData::Delivering(peer@),
            RespondState::Stopped => RespondStateData::Stopped,
            RespondState::Failed(e) => RespondStateData::Failed(*e),
        }
    }
}

impl<E> View for RespondEvent<E> {
    type V = RespondEventData<E>;

    open spec fn view(&self) -> RespondEventData<E> {
        match self {
            RespondEvent::Received { datagram, from } => RespondEventData::Received {
                datagram: datagram@,
                from: *from,
            },
            RespondEvent::ReceiveFailed(e) => RespondEventData::ReceiveFailed(*e),
            RespondEvent::Sent(sent) => RespondEventData::Sent(*sent),
            RespondEvent::SendFailed => RespondEventData::SendFailed,
            RespondEvent::Paused => RespondEventData::Paused,
            RespondEvent::Delivered => RespondEventData::Delivered,
            RespondEvent::NotDelivered => RespondEventData::NotDelivered,
        }
    }
}

/// The number of bytes that have left the socket when an answer is sent whole.
pub open spec fn answer_size() -> int {
    crate::wire::HEADER_SIZE + NONCE_SIZE + crate::wire::ZID_SIZE
}

impl DiscoveryData {
    /// What the loop has to do after the event. An event that does not belong
    /// to what the loop was doing changes nothing.
    pub open spec fn next<E>(
        self,
        state: RespondStateData<E>,
        event: RespondEventData<E>,
    ) -> RespondStateData<E> {
        match (state, event) {
            (RespondStateData::Receiving(_), RespondEventData::Received { datagram, from }) => {
                match self.reaction(datagram, from) {
                    ReactionData::Drop(reason) => RespondStateData::Receiving(Some(reason)),
                    ReactionData::Reply(packet) => RespondStateData::Sending(
                        ReplyData { packet, to: from, attempt: 0 },
                    ),
                    ReactionData::Report(peer) => RespondStateData::Delivering(peer),
                }
            },
            (RespondStateData::Receiving(_), RespondEventData::ReceiveFailed(e)) => {
                RespondStateData::Failed(e)
            },
            (RespondStateData::Sending(reply), RespondEventData::Sent(sent)) => {
                if sent == answer_size() {
                    RespondStateData::Receiving(None)
                } else {
                    RespondStateData::Pausing(reply)
                }
            },
            (RespondStateData::Sending(reply), RespondEventData::SendFailed) => {
                RespondStateData::Pausing(reply)
            },
            (RespondStateData::Pausing(reply), RespondEventData::Paused) => {
                if reply.attempt + 1 < SEND_ATTEMPTS {
                    RespondStateData::Sending(
                        ReplyData { attempt: (reply.attempt + 1) as u32, ..reply },
                    )
                } else {
                    RespondStateData::Receiving(None)
                }
            },
            (RespondStateData::Delivering(_), RespondEventData::Delivered) => {
                RespondStateData::Receiving(None)
            },
            (RespondStateData::Delivering(_), RespondEventData::NotDelivered) => {
                RespondStateData::Stopped
            },
            _ => state,
        }
    }
}

impl Discovery {
    /// What the loop that answers datagrams has to do after the event. An event
    /// that does not belong to what the loop was doing changes nothing.
    pub fn respond_step<E>(&self, state: RespondState<E>, event: RespondEvent<E>) -> (r:
        RespondState<E>)
        ensures
            r@ == self@.next(state@, event@),
            self@.valid(),
            state is Receiving ==> (event matches RespondEvent::Received { datagram, from } ==> (
            datagram@.len() == 12 && datagram@.take(4) == seq![0x45u8, 0x58u8, 0x4fu8, 0u8]
                && datagram@.skip(4) != self@.last_nonce ==> (r matches RespondState::Sending(reply)
                && reply.to == from && reply.attempt == 0 && reply.packet@ == seq![
                0x45u8,
                0x58u8,
                0x4fu8,
                1u8,
            ] + datagram@.skip(4) + self@.zid))),
            state is Receiving ==> (event matches RespondEvent::Received { datagram, from } ==> (
            r matches RespondState::Delivering(peer) ==> peer.zid@ == datagram@.skip(12) && (
            from matches SocketAddr::V6(v6) && peer.addr == (v6.ip, v6.scope_id)))),
            state is Receiving ==> (event matches RespondEvent::ReceiveFailed(e) ==> r
                == RespondState::Failed(e)),
            state matches RespondState::Sending(reply) ==> (event is SendFailed || (event
                matches RespondEvent::Sent(sent) && sent != 28) ==> (r
                matches RespondState::Pausing(again) && again.packet@ == reply.packet@ && again.to
                == reply.to && again.attempt == reply.attempt)),
            state matches RespondState::Pausing(reply) ==> (event is Paused && reply.attempt < 3
                ==> (r matches RespondState::Sending(again) && again.packet@ == reply.packet@
                && again.to == reply.to && again.attempt == reply.attempt + 1)),
    {
        proof {
            use_type_invariant(self);
        }
        match (state, event) {
            (RespondState::Receiving(_), RespondEvent::Received { datagram, from }) => {
                match self.respond(datagram.as_slice(), from) {
                    Reaction::Drop(reason) => RespondState::Receiving(Some(reason)),
                    Reaction::Reply(packet) => RespondState::Sending(
                        Reply { packet, to: from, attempt: 0 },
                    ),
                    Reaction::Report(peer) => RespondState::Delivering(peer),
                }
            },
            (RespondState::Receiving(_), RespondEvent::ReceiveFailed(e)) => RespondState::Failed(e),
            (RespondState::Sending(reply), RespondEvent::Sent(sent)) => {
                if sent == WhatsUp::buf_size() {
                    RespondState::Receiving(None)
                } else {
                    RespondState::Pausing(reply)
                }
            },
            (RespondState::Sending(reply), RespondEvent::SendFailed) => RespondState::Pausing(
                reply,
            ),
            (RespondState::Pausing(reply), RespondEvent::Paused) => {
                if reply.attempt < SEND_ATTEMPTS - 1 {
                    RespondState::Sending(
                        Reply { packet: reply.packet, to: reply.to, attempt: reply.attempt + 1 },
                    )
                } else {
                    RespondState::Receiving(None)
                }
            },
            (RespondState::Delivering(_), RespondEvent::Delivered) => RespondState::Receiving(None),
            (RespondState::Delivering(_), RespondEvent::NotDelivered) => RespondState::Stopped,
            (state, _) => state,
        }
    }
}

} // verus!
