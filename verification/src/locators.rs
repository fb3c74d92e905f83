//! Where to reach peers that a scout has heard on an interface.
//!
//! A link-local IPv6 address means something only together with the interface on
//! which it was heard. Peers are reached at such addresses alone, each with the
//! index of the interface written into it.

use vstd::prelude::*;

use crate::addr::{Ipv4Addr, Ipv6Addr, SocketAddr, SocketAddrV4, SocketAddrV6};
use crate::text::append_numeral;
use crate::zid::ZenohId;

verus! {

/// A locator that a peer gave, in its parts.
#[derive(Debug)]
pub struct ScoutedLocator {
    /// The protocol.
    pub protocol: String,
    /// The address, as it was written.
    pub address: String,
    /// The metadata; nothing if there is none.
    pub metadata: String,
}

/// What a peer says of itself when a scout hears it.
pub struct ScoutedPeer {
    pub zid: ZenohId,
    pub locators: Vec<ScoutedLocator>,
}

/// Zenoh refused a locator.
#[derive(Debug)]
pub struct LocatorError {
    /// What Zenoh says of it.
    pub message: String,
}

impl LocatorError {
    /// The error for what Zenoh says.
    pub fn new(message: String) -> (e: LocatorError)
        ensures
            e.message@ == message@,
    {
        LocatorError { message }
    }
}

/// An IPv6 address with the interface and the port, as a socket address is written.
pub open spec fn scoped_text(ip: Seq<char>, iface_idx: u32, port: u16) -> Seq<char> {
    "["@ + ip + "%"@ + crate::text::numeral(iface_idx as int, 10) + "]:"@ + crate::text::numeral(
        port as int,
        10,
    )
}

/// The socket address that a text reads as; none if it reads as none.
pub uninterp spec fn socket_of(text: Seq<char>) -> Option<SocketAddr>;

/// An IPv6 address written out.
pub uninterp spec fn ipv6_text(bits: u128) -> Seq<char>;

/// The text is made of hexadecimal digits, colons and dots.
pub open spec fn is_ip_text(s: Seq<char>) -> bool {
    forall|i: int|
        0 <= i < s.len() ==> {
            ||| '0' as int <= #[trigger] s[i] as int <= '9' as int
            ||| 'a' as int <= s[i] as int <= 'f' as int
            ||| s[i] == ':'
            ||| s[i] == '.'
        }
}

/// Whatever interface and port are put to the text of the IP, what comes out reads
/// as that IP with that port on that interface.
pub open spec fn reads_back(ip: Ipv6Addr, text: Seq<char>) -> bool {
    forall|iface_idx: u32, port: u16|
        socket_of(#[trigger] scoped_text(text, iface_idx, port)) == Some(
            SocketAddr::V6(SocketAddrV6 { ip, port, flowinfo: 0, scope_id: iface_idx }),
        )
}

/// `str::parse` to std's `SocketAddr`, which is found in `core` too: whether a text
/// reads as a socket address, and as which, depends on the text alone.
#[verifier::external_body]
fn parse_socket(text: &str) -> (r: Option<SocketAddr>)
    ensures
        r == socket_of(text@),
{
    match text.parse::<core::net::SocketAddr>() {
        Ok(core::net::SocketAddr::V4(v4)) => Some(
            SocketAddr::V4(
                SocketAddrV4 { ip: Ipv4Addr { bits: u32::from(*v4.ip()) }, port: v4.port() },
            ),
        ),
        Ok(core::net::SocketAddr::V6(v6)) => {
            let (port, flowinfo, scope_id) = (v6.port(), v6.flowinfo(), v6.scope_id());
            let ip = Ipv6Addr { bits: u128::from(*v6.ip()) };
            Some(SocketAddr::V6(SocketAddrV6 { ip, port, flowinfo, scope_id }))
        },
        Err(_) => None,
    }
}

/// `to_string` of std's `Ipv6Addr`: the text depends on the address alone, and is
/// made of hexadecimal digits, colons and dots. In brackets, with a percent sign
/// and the index of an interface behind it, and with a colon and a port behind the
/// brackets, std reads it back as that address, index and port.
#[verifier::external_body]
fn write_ipv6(ip: Ipv6Addr) -> (r: String)
    ensures
        r@ == ipv6_text(ip.bits),
        is_ip_text(r@),
        reads_back(ip, r@),
{
    core::net::Ipv6Addr::from(ip.bits).to_string()
}

/// The address that is to get an interface: the text reads as a socket address with
/// a unicast link-local IPv6 address, and there is no interface in it yet.
pub open spec fn unscoped(addr: Seq<char>, socket: Option<SocketAddr>) -> Option<SocketAddrV6> {
    match socket {
        Some(SocketAddr::V6(v6)) => if !addr.contains('%') && v6.ip.unicast_link_local() {
            Some(v6)
        } else {
            None
        },
        _ => None,
    }
}

/// The address with the interface written into it, if it is a unicast link-local
/// IPv6 address without one.
pub open spec fn appended(addr: Seq<char>, iface_idx: u32) -> Option<Seq<char>> {
    match unscoped(addr, socket_of(addr)) {
        Some(v6) => Some(scoped_text(ipv6_text(v6.ip.bits), iface_idx, v6.port)),
        None => None,
    }
}

/// Whether the character occurs in the text.
fn contains_char(s: &str, c: char) -> (r: bool)
    ensures
        r == s@.contains(c),
{
    for x in it: s.chars()
        invariant
            it.seq() == s@,
            forall|j: int| 0 <= j < it.index() ==> s@[j] != c,
    {
        if x == c {
            assert(s@[it.index() as int] == c);
            return true;
        }
    }
    false
}

/// The address that is to get an interface, if `socket` is what `addr` reads as.
pub fn find_unscoped(addr: &str, socket: Option<SocketAddr>) -> (r: Option<SocketAddrV6>)
    ensures
        r == unscoped(addr@, socket),
        r is Some <==> !addr@.contains('%') && (socket matches Some(SocketAddr::V6(v6))
            && 0xfe80_0000_0000_0000_0000_0000_0000_0000 <= v6.ip.bits
            <= 0xfebf_ffff_ffff_ffff_ffff_ffff_ffff_ffff),
        r matches Some(v6) ==> socket == Some(SocketAddr::V6(v6)),
{
    proof {
        law_which_addresses_get_an_interface(addr@, socket);
    }
    if contains_char(addr, '%') {
        return None;
    }
    match socket {
        Some(SocketAddr::V6(v6)) => if v6.ip.is_unicast_link_local() {
            Some(v6)
        } else {
            None
        },
        _ => None,
    }
}

/// An IPv6 address with the interface and the port, as a socket address is written.
pub fn scope_text(ip: &str, iface_idx: u32, port: u16) -> (r: String)
    ensures
        r@ == scoped_text(ip@, iface_idx, port),
        r@ == seq!['['] + ip@ + seq!['%'] + crate::text::numeral(iface_idx as int, 10) + seq![
            ']',
            ':',
        ] + crate::text::numeral(port as int, 10),
{
    proof {
        law_scoped_text(ip@, iface_idx, port);
    }
    let mut text: String = "[".to_owned();
    text.append(ip);
    text.append("%");
    append_numeral(&mut text, iface_idx as u128, 10);
    text.append("]:");
    append_numeral(&mut text, port as u128, 10);
    text
}

/// The text says what the address said, with the interface: it reads as the same
/// IP and port on that interface, and holds none of the characters that part a
/// locator.
pub open spec fn scopes(addr: Seq<char>, iface_idx: u32, text: Seq<char>) -> bool {
    &&& socket_of(addr) matches Some(SocketAddr::V6(v6))
    &&& socket_of(text) == Some(
        SocketAddr::V6(
            SocketAddrV6 { ip: v6.ip, port: v6.port, flowinfo: 0, scope_id: iface_idx },
        ),
    )
    &&& is_plain_address(text)
}

/// The address with the interface written into it, if it is a unicast link-local
/// IPv6 address without one. The IP and the port survive, and the interface is the
/// given one.
pub fn append_iface_to_unicast_ll_v6(addr: &str, iface_idx: u32) -> (r: Option<String>)
    ensures
        match r {
            Some(text) => appended(addr@, iface_idx) == Some(text@),
            None => appended(addr@, iface_idx) is None,
        },
        r matches Some(text) ==> scopes(addr@, iface_idx, text@),
        r is Some <==> !addr@.contains('%') && (socket_of(addr@) matches Some(SocketAddr::V6(v6))
            && 0xfe80_0000_0000_0000_0000_0000_0000_0000 <= v6.ip.bits
            <= 0xfebf_ffff_ffff_ffff_ffff_ffff_ffff_ffff),
        r matches Some(text) ==> (socket_of(addr@) matches Some(SocketAddr::V6(v6)) && text@
            == seq!['['] + ipv6_text(v6.ip.bits) + seq!['%'] + crate::text::numeral(
            iface_idx as int,
            10,
        ) + seq![']', ':'] + crate::text::numeral(v6.port as int, 10)),
        r matches Some(text) ==> (socket_of(addr@) matches Some(SocketAddr::V6(v6)) && socket_of(
            text@,
        ) matches Some(SocketAddr::V6(scoped)) && scoped.ip == v6.ip && scoped.port == v6.port
            && scoped.flowinfo == 0 && scoped.scope_id == iface_idx),
{
    proof {
        law_which_addresses_get_an_interface(addr@, socket_of(addr@));
    }
    match find_unscoped(addr, parse_socket(addr)) {
        Some(v6) => {
            let ip: String = write_ipv6(v6.ip);
            let text: String = scope_text(ip.as_str(), iface_idx, v6.port);
            proof {
                lemma_scoped_text_is_plain(ip@, iface_idx, v6.port);
            }
            Some(text)
        },
        None => None,
    }
}

/// A locator of Zenoh.
#[verifier::external_type_specification]
#[verifier::external_body]
pub struct ExLocator(zenoh::config::Locator);

/// A locator written out.
pub uninterp spec fn locator_text(locator: zenoh::config::Locator) -> Seq<char>;

/// The text of the locator with these parts; none if Zenoh refuses them.
pub uninterp spec fn locator_of(
    protocol: Seq<char>,
    address: Seq<char>,
    metadata: Seq<char>,
) -> Option<Seq<char>>;

/// A parameter of metadata: a key and a value, which may be empty.
pub open spec fn is_param(param: (Seq<char>, Seq<char>)) -> bool {
    &&& param.0.len() > 0
    &&& !param.0.contains('=')
    &&& !param.0.contains(';')
    &&& !param.0.contains('#')
    &&& !param.1.contains(';')
    &&& !param.1.contains('#')
}

/// A parameter written out.
pub open spec fn param_text(param: (Seq<char>, Seq<char>)) -> Seq<char> {
    if param.1.len() == 0 {
        param.0
    } else {
        param.0 + "="@ + param.1
    }
}

/// The parameters written out, with semicolons between them.
pub open spec fn joined(params: Seq<(Seq<char>, Seq<char>)>) -> Seq<char>
    decreases params.len(),
{
    if params.len() == 0 {
        Seq::empty()
    } else if params.len() == 1 {
        param_text(params[0])
    } else {
        joined(params.drop_last()) + ";"@ + param_text(params.last())
    }
}

/// The first text comes before the second one in a dictionary.
pub open spec fn comes_before(a: Seq<char>, b: Seq<char>) -> bool {
    exists|n: int|
        0 <= n <= a.len() && n < b.len() && #[trigger] a.take(n) == b.take(n) && (n == a.len()
            || (a[n] as int) < b[n] as int)
}

/// The metadata is what these parameters are when they are written out, and their
/// keys stand in the order of a dictionary, none of them twice.
pub open spec fn spells_params(
    metadata: Seq<char>,
    params: Seq<(Seq<char>, Seq<char>)>,
) -> bool {
    &&& metadata == joined(params)
    &&& forall|i: int| 0 <= i < params.len() ==> is_param(#[trigger] params[i])
    &&& forall|i: int, j: int|
        0 <= i < j < params.len() ==> comes_before(
            (#[trigger] params[i]).0,
            (#[trigger] params[j]).0,
        )
}

/// The protocol holds none of the characters that part a locator, and the metadata
/// is written as Zenoh writes it.
pub open spec fn are_plain(protocol: Seq<char>, metadata: Seq<char>) -> bool {
    &&& protocol.len() > 0
    &&& !protocol.contains('/')
    &&& !protocol.contains('?')
    &&& !protocol.contains('#')
    &&& exists|params: Seq<(Seq<char>, Seq<char>)>| spells_params(metadata, params)
}

/// The address holds none of the characters that part a locator.
pub open spec fn is_plain_address(address: Seq<char>) -> bool {
    address.len() > 0 && !address.contains('?') && !address.contains('#')
}

/// The parts are short enough for a locator: together they take at most 255 bytes.
pub open spec fn fit(protocol: Seq<char>, address: Seq<char>, metadata: Seq<char>) -> bool {
    vstd::utf8::encode_utf8(protocol).len() + vstd::utf8::encode_utf8(address).len()
        + vstd::utf8::encode_utf8(metadata).len() <= 255
}

/// The parts put together.
pub open spec fn assembled(
    protocol: Seq<char>,
    address: Seq<char>,
    metadata: Seq<char>,
) -> Seq<char> {
    if metadata.len() == 0 {
        protocol + "/"@ + address
    } else {
        protocol + "/"@ + address + "?"@ + metadata
    }
}

/// Whether this is a locator, and written out it is `text`.
pub open spec fn is_locator(r: Result<zenoh::config::Locator, String>, text: Seq<char>) -> bool {
    r matches Ok(locator) && locator_text(locator) == text
}

/// Whether this may be what Zenoh says when it refuses these parts. What it says
/// holds a path of the machine that it was built on.
pub uninterp spec fn is_parts_refusal(
    protocol: Seq<char>,
    address: Seq<char>,
    metadata: Seq<char>,
    message: Seq<char>,
) -> bool;

/// `Locator::new`: whether the parts are accepted, and the text of the locator,
/// depends on nothing but the parts. Parts that are too long are refused; others,
/// if they are plain, are put together as they are. The error is what Zenoh says
/// of the parts; its words are not said.
#[verifier::external_body]
fn new_locator(protocol: &str, address: &str, metadata: &str) -> (r: Result<
    zenoh::config::Locator,
    String,
>)
    ensures
        match r {
            Ok(locator) => locator_of(protocol@, address@, metadata@) == Some(
                locator_text(locator),
            ),
            Err(message) => locator_of(protocol@, address@, metadata@) is None
                && is_parts_refusal(protocol@, address@, metadata@, message@),
        },
        !fit(protocol@, address@, metadata@) ==> r is Err,
        are_plain(protocol@, metadata@) && is_plain_address(address@) && fit(
            protocol@,
            address@,
            metadata@,
        ) ==> is_locator(r, assembled(protocol@, address@, metadata@)),
{
    match zenoh::config::Locator::new(protocol, address, metadata) {
        Ok(locator) => Ok(locator),
        Err(e) => Err(e.to_string()),
    }
}

impl ScoutedLocator {
    /// The address with the interface written into it, if it is a unicast
    /// link-local IPv6 address without one.
    pub open spec fn appended(self, iface_idx: u32) -> Option<Seq<char>> {
        appended(self.address@, iface_idx)
    }

    /// With the interface written into its address the locator is `text`.
    pub open spec fn scopes_to(self, iface_idx: u32, text: Seq<char>) -> bool {
        match self.appended(iface_idx) {
            Some(address) => locator_of(self.protocol@, address, self.metadata@) == Some(text),
            None => false,
        }
    }

    /// If the address gets the interface, the other parts are plain.
    pub open spec fn is_plain(self, iface_idx: u32) -> bool {
        self.appended(iface_idx) is Some ==> are_plain(self.protocol@, self.metadata@)
    }

    /// Zenoh refuses the locator with the interface written into its address, and
    /// may say this of it.
    pub open spec fn is_refusal(self, iface_idx: u32, message: Seq<char>) -> bool {
        match self.appended(iface_idx) {
            Some(address) => {
                &&& locator_of(self.protocol@, address, self.metadata@) is None
                &&& is_parts_refusal(self.protocol@, address, self.metadata@, message)
            },
            None => false,
        }
    }

    /// If the address gets the interface, the parts are still short enough.
    pub open spec fn fits(self, iface_idx: u32) -> bool {
        match self.appended(iface_idx) {
            Some(address) => fit(self.protocol@, address, self.metadata@),
            None => true,
        }
    }
}

/// Those locators that have a unicast link-local IPv6 address without an
/// interface, in their order and with the interface written into each address;
/// none if Zenoh refuses one of them.
pub open spec fn scoped(locators: Seq<ScoutedLocator>, iface_idx: u32) -> Option<Seq<Seq<char>>>
    decreases locators.len(),
{
    if locators.len() == 0 {
        Some(Seq::empty())
    } else {
        let last = locators.last();
        match scoped(locators.drop_last(), iface_idx) {
            None => None,
            Some(done) => match last.appended(iface_idx) {
                None => Some(done),
                Some(address) => match locator_of(last.protocol@, address, last.metadata@) {
                    None => None,
                    Some(text) => Some(done.push(text)),
                },
            },
        }
    }
}

/// Zenoh refuses one of the locators and none before it, and may say this of it.
pub open spec fn is_first_refusal(
    locators: Seq<ScoutedLocator>,
    iface_idx: u32,
    message: Seq<char>,
) -> bool {
    exists|n: int|
        0 <= n < locators.len() && scoped(#[trigger] locators.take(n), iface_idx) is Some
            && locators[n].is_refusal(iface_idx, message)
}

/// All locators are plain and short enough.
pub open spec fn all_plain(locators: Seq<ScoutedLocator>, iface_idx: u32) -> bool {
    forall|i: int|
        0 <= i < locators.len() ==> (#[trigger] locators[i]).is_plain(iface_idx)
            && locators[i].fits(iface_idx)
}

/// Those locators that have a unicast link-local IPv6 address without an
/// interface, in their order: for each the protocol, the address with the
/// interface written into it and the metadata, put together.
pub open spec fn plainly_scoped(locators: Seq<ScoutedLocator>, iface_idx: u32) -> Seq<Seq<char>>
    decreases locators.len(),
{
    if locators.len() == 0 {
        Seq::empty()
    } else {
        let last = locators.last();
        let done = plainly_scoped(locators.drop_last(), iface_idx);
        match last.appended(iface_idx) {
            None => done,
            Some(address) => done.push(assembled(last.protocol@, address, last.metadata@)),
        }
    }
}

/// The locators written out.
pub open spec fn texts(locators: Seq<zenoh::config::Locator>) -> Seq<Seq<char>> {
    locators.map_values(|l: zenoh::config::Locator| locator_text(l))
}

/// What was refused stays refused, whatever locators follow.
proof fn lemma_refused_stays_refused(locators: Seq<ScoutedLocator>, iface_idx: u32, n: int)
    requires
        0 <= n <= locators.len(),
        scoped(locators.take(n), iface_idx) is None,
    ensures
        scoped(locators, iface_idx) is None,
    decreases locators.len(),
{
    if n == locators.len() {
        assert(locators.take(n) =~= locators);
    } else {
        assert(locators.drop_last().take(n) =~= locators.take(n));
        lemma_refused_stays_refused(locators.drop_last(), iface_idx, n);
    }
}

/// Those locators that have a unicast link-local IPv6 address without an
/// interface, in their order and with the interface written into each address.
/// The other ones are passed over, whatever they are.
pub fn scoped_locators(locators: &Vec<ScoutedLocator>, iface_idx: u32) -> (r: Result<
    Vec<zenoh::config::Locator>,
    LocatorError,
>)
    ensures
        match r {
            Ok(v) => scoped(locators@, iface_idx) == Some(texts(v@)),
            Err(e) => scoped(locators@, iface_idx) is None && is_first_refusal(
                locators@,
                iface_idx,
                e.message@,
            ),
        },
        (exists|i: int| 0 <= i < locators@.len() && !(#[trigger] locators@[i]).fits(iface_idx))
            ==> r is Err,
        all_plain(locators@, iface_idx) ==> (r matches Ok(v) && texts(v@) == plainly_scoped(
            locators@,
            iface_idx,
        )),
{
    let mut r: Vec<zenoh::config::Locator> = Vec::new();
    assert(texts(r@) =~= Seq::<Seq<char>>::empty());
    let mut i: usize = 0;
    while i < locators.len()
        invariant
            i <= locators@.len(),
            scoped(locators@.take(i as int), iface_idx) == Some(texts(r@)),
            forall|j: int| 0 <= j < i ==> (#[trigger] locators@[j]).fits(iface_idx),
            all_plain(locators@, iface_idx) ==> texts(r@) == plainly_scoped(
                locators@.take(i as int),
                iface_idx,
            ),
        decreases locators@.len() - i,
    {
        let ghost before: Seq<Seq<char>> = texts(r@);
        assert(locators@.take(i + 1).drop_last() =~= locators@.take(i as int));
        assert(locators@.take(i + 1).last() == locators@[i as int]);
        if let Some(address) = append_iface_to_unicast_ll_v6(
            locators[i].address.as_str(),
            iface_idx,
        ) {
            match new_locator(
                locators[i].protocol.as_str(),
                address.as_str(),
                locators[i].metadata.as_str(),
            ) {
                Ok(locator) => {
                    r.push(locator);
                    assert(texts(r@) =~= before.push(locator_text(locator)));
                },
                Err(message) => {
                    proof {
                        lemma_refused_stays_refused(locators@, iface_idx, i + 1);
                        assert(!(locators@[i as int].is_plain(iface_idx)
                            && locators@[i as int].fits(iface_idx)));
                        assert(locators@[i as int].is_refusal(iface_idx, message@));
                    }
                    return Err(LocatorError::new(message));
                },
            }
        }
        i += 1;
    }
    assert(locators@.take(i as int) =~= locators@);
    Ok(r)
}

/// Where to connect to a peer that was heard on an interface; nowhere if the
/// peer is the node itself.
pub fn peer_locators(own: &ZenohId, peer: &ScoutedPeer, iface_idx: u32) -> (r: Result<
    Option<Vec<zenoh::config::Locator>>,
    LocatorError,
>)
    ensures
        r == Ok::<Option<Vec<zenoh::config::Locator>>, LocatorError>(None) <==> peer.zid@ == own@,
        peer.zid@ != own@ ==> match r {
            Ok(v) => v matches Some(v) && scoped(peer.locators@, iface_idx) == Some(texts(v@)),
            Err(e) => scoped(peer.locators@, iface_idx) is None && is_first_refusal(
                peer.locators@,
                iface_idx,
                e.message@,
            ),
        },
        peer.zid@ != own@ && (exists|i: int|
            0 <= i < peer.locators@.len() && !(#[trigger] peer.locators@[i]).fits(iface_idx))
            ==> r is Err,
        peer.zid@ != own@ && all_plain(peer.locators@, iface_idx) ==> (r matches Ok(Some(v))
            && texts(v@) == plainly_scoped(peer.locators@, iface_idx)),
{
    if peer.zid == *own {
        return Ok(None);
    }
    match scoped_locators(&peer.locators, iface_idx) {
        Ok(v) => Ok(Some(v)),
        Err(e) => Err(e),
    }
}

/// An address with an interface written into it does not get a second one.
pub proof fn law_scoped_only_once(addr: Seq<char>, iface_idx: u32, scoped: Seq<char>, other: u32)
    requires
        appended(addr, iface_idx) == Some(scoped),
    ensures
        appended(scoped, other) is None,
{
    reveal_strlit("%");
    reveal_strlit("[");
    let v6 = unscoped(addr, socket_of(addr))->0;
    assert(scoped[ipv6_text(v6.ip.bits).len() + 1int] == '%');
}

/// The text tells which IP, interface and port were put together, if there is no
/// percent sign in the IP.
pub proof fn law_scoped_text_tells_its_parts(
    ip: Seq<char>,
    iface_idx: u32,
    port: u16,
    other_ip: Seq<char>,
    other_iface_idx: u32,
    other_port: u16,
)
    requires
        scoped_text(ip, iface_idx, port) == scoped_text(other_ip, other_iface_idx, other_port),
        !ip.contains('%'),
        !other_ip.contains('%'),
    ensures
        ip == other_ip,
        iface_idx == other_iface_idx,
        port == other_port,
{
    reveal_strlit("[");
    reveal_strlit("%");
    reveal_strlit("]:");
    let text = scoped_text(ip, iface_idx, port);
    let index = crate::text::numeral(iface_idx as int, 10);
    let other_index = crate::text::numeral(other_iface_idx as int, 10);
    // The first percent sign ends the IP.
    assert(text[ip.len() as int + 1] == '%');
    assert(text[other_ip.len() as int + 1] == '%');
    if ip.len() < other_ip.len() {
        assert(text[ip.len() as int + 1] == other_ip[ip.len() as int]);
    }
    if other_ip.len() < ip.len() {
        assert(text[other_ip.len() as int + 1] == ip[other_ip.len() as int]);
    }
    assert(text.subrange(1, ip.len() as int + 1) =~= ip);
    assert(text.subrange(1, ip.len() as int + 1) =~= other_ip);
    // The first bracket behind it ends the index.
    let start: int = ip.len() as int + 2;
    assert(text[start + index.len()] == ']');
    assert(text[start + other_index.len()] == ']');
    lemma_numeral_is_digits(iface_idx as int);
    lemma_numeral_is_digits(other_iface_idx as int);
    if index.len() < other_index.len() {
        assert(text[start + index.len()] == other_index[index.len() as int]);
    }
    if other_index.len() < index.len() {
        assert(text[start + other_index.len()] == index[other_index.len() as int]);
    }
    assert(text.subrange(start, start + index.len()) =~= index);
    assert(text.subrange(start, start + index.len()) =~= other_index);
    let end: int = start + index.len() + 2;
    assert(text.skip(end) =~= crate::text::numeral(port as int, 10));
    assert(text.skip(end) =~= crate::text::numeral(other_port as int, 10));
    crate::text::law_numeral_value(iface_idx as int, 10);
    crate::text::law_numeral_value(other_iface_idx as int, 10);
    crate::text::law_numeral_value(port as int, 10);
    crate::text::law_numeral_value(other_port as int, 10);
}

/// The text is made of digits alone.
spec fn is_digits(s: Seq<char>) -> bool {
    forall|i: int| 0 <= i < s.len() ==> '0' as int <= #[trigger] s[i] as int <= '9' as int
}

/// A numeral is made of digits.
proof fn lemma_numeral_is_digits(n: int)
    requires
        n >= 0,
    ensures
        is_digits(crate::text::numeral(n, 10)),
    decreases n,
{
    if n >= 10 {
        lemma_numeral_is_digits(n / 10);
    }
}

/// An address that gets one interface gets any other one too, and the texts
/// differ.
pub proof fn law_interfaces_are_told_apart(addr: Seq<char>, iface_idx: u32, other: u32)
    requires
        appended(addr, iface_idx) is Some,
        iface_idx != other,
    ensures
        appended(addr, other) is Some,
        appended(addr, iface_idx) != appended(addr, other),
{
    let v6 = unscoped(addr, socket_of(addr))->0;
    let ip = ipv6_text(v6.ip.bits);
    let one = crate::text::numeral(iface_idx as int, 10);
    let two = crate::text::numeral(other as int, 10);
    let text = appended(addr, iface_idx)->0;
    if text == appended(addr, other)->0 {
        reveal_strlit("[");
        reveal_strlit("%");
        reveal_strlit("]:");
        let start: int = ip.len() as int + 2;
        assert(text == scoped_text(ip, iface_idx, v6.port));
        assert(text == scoped_text(ip, other, v6.port));
        assert(one.len() == two.len());
        assert(text.subrange(start, start + one.len()) =~= one);
        assert(text.subrange(start, start + one.len()) =~= two);
        crate::text::law_numeral_value(iface_idx as int, 10);
        crate::text::law_numeral_value(other as int, 10);
    }
}

/// With an IP in it that is made of digits, colons and dots, the text holds none of
/// the characters that part a locator.
proof fn lemma_scoped_text_is_plain(ip: Seq<char>, iface_idx: u32, port: u16)
    requires
        is_ip_text(ip),
    ensures
        is_plain_address(scoped_text(ip, iface_idx, port)),
{
    reveal_strlit("[");
    reveal_strlit("%");
    reveal_strlit("]:");
    lemma_numeral_is_digits(iface_idx as int);
    lemma_numeral_is_digits(port as int);
    let index = crate::text::numeral(iface_idx as int, 10);
    let text = scoped_text(ip, iface_idx, port);
    assert forall|i: int| 0 <= i < text.len() implies #[trigger] text[i] != '?' && text[i]
        != '#' by {
        let start: int = ip.len() as int + 2;
        if 1 <= i <= ip.len() {
            assert(text[i] == ip[i - 1]);
        } else if start <= i < start + index.len() {
            assert(text[i] == index[i - start]);
        } else if start + index.len() + 2 <= i {
            assert(text[i] == crate::text::numeral(port as int, 10)[i - start - index.len() - 2]);
        }
    }
}

/// Every locator that comes out has come from one that went in and that has a
/// unicast link-local IPv6 address without an interface.
pub proof fn law_only_link_local(locators: Seq<ScoutedLocator>, iface_idx: u32, text: Seq<char>)
    requires
        scoped(locators, iface_idx) matches Some(out) && out.contains(text),
    ensures
        exists|i: int|
            0 <= i < locators.len() && (#[trigger] locators[i]).scopes_to(iface_idx, text),
    decreases locators.len(),
{
    let out = scoped(locators, iface_idx)->0;
    let k = choose|k: int| 0 <= k < out.len() && out[k] == text;
    if locators.len() > 0 {
        let done = scoped(locators.drop_last(), iface_idx)->0;
        if k < done.len() {
            assert(done[k] == text);
            law_only_link_local(locators.drop_last(), iface_idx, text);
            let i = choose|i: int|
                0 <= i < locators.drop_last().len() && (
                #[trigger] locators.drop_last()[i]).scopes_to(iface_idx, text);
            assert(locators[i] == locators.drop_last()[i]);
        } else {
            assert(locators[locators.len() - 1] == locators.last());
        }
    }
}

/// A peer with no such address is connected to nowhere.
pub proof fn law_no_link_local_no_locator(locators: Seq<ScoutedLocator>, iface_idx: u32)
    requires
        forall|i: int|
            0 <= i < locators.len() ==> (#[trigger] locators[i]).appended(iface_idx) is None,
    ensures
        scoped(locators, iface_idx) == Some(Seq::<Seq<char>>::empty()),
    decreases locators.len(),
{
    if locators.len() > 0 {
        assert(locators[locators.len() - 1].appended(iface_idx) is None);
        law_no_link_local_no_locator(locators.drop_last(), iface_idx);
    }
}

/// An address gets an interface exactly if there is no percent sign in it and it
/// reads as a socket address whose IP lies between `fe80::` and the last address that
/// starts with `febf`, whatever the rest of the IP and the port are.
pub proof fn law_which_addresses_get_an_interface(addr: Seq<char>, socket: Option<SocketAddr>)
    ensures
        unscoped(addr, socket) is Some <==> !addr.contains('%') && (socket matches Some(
            SocketAddr::V6(v6),
        ) && 0xfe80_0000_0000_0000_0000_0000_0000_0000 <= v6.ip.bits
            <= 0xfebf_ffff_ffff_ffff_ffff_ffff_ffff_ffff),
        unscoped(addr, socket) matches Some(v6) ==> socket == Some(SocketAddr::V6(v6)),
{
    if let Some(SocketAddr::V6(v6)) = socket {
        crate::addr::law_unicast_link_local(v6.ip);
    }
}

/// What an address with an interface is: a bracket, the IP, a percent sign, the index
/// of the interface in decimal, a bracket, a colon and the port in decimal.
pub proof fn law_scoped_text(ip: Seq<char>, iface_idx: u32, port: u16)
    ensures
        scoped_text(ip, iface_idx, port) == seq!['['] + ip + seq!['%'] + crate::text::numeral(
            iface_idx as int,
            10,
        ) + seq![']', ':'] + crate::text::numeral(port as int, 10),
{
    reveal_strlit("[");
    reveal_strlit("%");
    reveal_strlit("]:");
    assert("["@ =~= seq!['[']);
    assert("%"@ =~= seq!['%']);
    assert("]:"@ =~= seq![']', ':']);
}

/// Whether an address gets an interface, and what comes out, said of the address and
/// of what it reads as alone.
pub proof fn law_appended(addr: Seq<char>, iface_idx: u32)
    ensures
        appended(addr, iface_idx) is Some <==> !addr.contains('%') && (socket_of(addr)
            matches Some(SocketAddr::V6(v6)) && 0xfe80_0000_0000_0000_0000_0000_0000_0000
            <= v6.ip.bits <= 0xfebf_ffff_ffff_ffff_ffff_ffff_ffff_ffff),
        appended(addr, iface_idx) matches Some(text) ==> (socket_of(addr) matches Some(
            SocketAddr::V6(v6),
        ) && text == seq!['['] + ipv6_text(v6.ip.bits) + seq!['%'] + crate::text::numeral(
            iface_idx as int,
            10,
        ) + seq![']', ':'] + crate::text::numeral(v6.port as int, 10)),
{
    law_which_addresses_get_an_interface(addr, socket_of(addr));
    if let Some(SocketAddr::V6(v6)) = socket_of(addr) {
        law_scoped_text(ipv6_text(v6.ip.bits), iface_idx, v6.port);
    }
}

/// How the locators of a peer come out: none from none; and one more locator at the
/// end changes nothing if its address gets no interface, is refused if Zenoh refuses
/// it with the interface, and else comes out at the end. So no locator is lost,
/// moved or made up, however many there are.
pub proof fn law_locators_come_out_in_order(
    locators: Seq<ScoutedLocator>,
    locator: ScoutedLocator,
    iface_idx: u32,
)
    ensures
        scoped(Seq::empty(), iface_idx) == Some(Seq::<Seq<char>>::empty()),
        scoped(locators.push(locator), iface_idx) == match (
            scoped(locators, iface_idx),
            appended(locator.address@, iface_idx),
        ) {
            (None, _) => None,
            (Some(out), None) => Some(out),
            (Some(out), Some(address)) => match locator_of(
                locator.protocol@,
                address,
                locator.metadata@,
            ) {
                Some(text) => Some(out.push(text)),
                None => None,
            },
        },
{
    assert(locators.push(locator).drop_last() =~= locators);
}

/// How plain locators come out: as the protocol, a slash, the address with the
/// interface and, if there is metadata, a question mark and the metadata.
pub proof fn law_plain_locators_come_out_whole(
    locators: Seq<ScoutedLocator>,
    locator: ScoutedLocator,
    iface_idx: u32,
)
    ensures
        plainly_scoped(Seq::empty(), iface_idx) == Seq::<Seq<char>>::empty(),
        plainly_scoped(locators.push(locator), iface_idx) == match appended(
            locator.address@,
            iface_idx,
        ) {
            None => plainly_scoped(locators, iface_idx),
            Some(address) => plainly_scoped(locators, iface_idx).push(
                if locator.metadata@.len() == 0 {
                    locator.protocol@ + seq!['/'] + address
                } else {
                    locator.protocol@ + seq!['/'] + address + seq!['?'] + locator.metadata@
                },
            ),
        },
{
    assert(locators.push(locator).drop_last() =~= locators);
    reveal_strlit("/");
    reveal_strlit("?");
    assert("/"@ =~= seq!['/']);
    assert("?"@ =~= seq!['?']);
}

/// Where plain locators all fit, what comes out of them is both what Zenoh makes of
/// them and what they are put together to.
pub proof fn law_when_locators_are_plain(locators: Seq<ScoutedLocator>, iface_idx: u32)
    ensures
        all_plain(locators, iface_idx) <==> forall|i: int|
            0 <= i < locators.len() ==> match appended(
                (#[trigger] locators[i]).address@,
                iface_idx,
            ) {
                Some(address) => are_plain(locators[i].protocol@, locators[i].metadata@) && fit(
                    locators[i].protocol@,
                    address,
                    locators[i].metadata@,
                ),
                None => true,
            },
{
    assert forall|i: int| 0 <= i < locators.len() implies ((#[trigger] locators[i]).is_plain(
        iface_idx,
    ) && locators[i].fits(iface_idx)) == match appended(locators[i].address@, iface_idx) {
        Some(address) => are_plain(locators[i].protocol@, locators[i].metadata@) && fit(
            locators[i].protocol@,
            address,
            locators[i].metadata@,
        ),
        None => true,
    } by {}
}

/// The error for refused locators speaks of one that is refused: its address gets the
/// interface, Zenoh refuses it so, and may say this of it; and none before it is
/// refused.
pub proof fn law_refusals_speak_of_the_first(
    locators: Seq<ScoutedLocator>,
    iface_idx: u32,
    message: Seq<char>,
)
    requires
        is_first_refusal(locators, iface_idx, message),
    ensures
        exists|n: int|
            0 <= n < locators.len() && scoped(#[trigger] locators.take(n), iface_idx) is Some
                && match appended(locators[n].address@, iface_idx) {
                Some(address) => locator_of(
                    locators[n].protocol@,
                    address,
                    locators[n].metadata@,
                ) is None && is_parts_refusal(
                    locators[n].protocol@,
                    address,
                    locators[n].metadata@,
                    message,
                ),
                None => false,
            },
{
    let n = choose|n: int|
        0 <= n < locators.len() && scoped(#[trigger] locators.take(n), iface_idx) is Some
            && locators[n].is_refusal(iface_idx, message);
    assert(locators.take(n).len() == n);
}

/// The locators written out, one by one.
pub proof fn law_texts(locators: Seq<zenoh::config::Locator>, i: int)
    requires
        0 <= i < locators.len(),
    ensures
        texts(locators).len() == locators.len(),
        texts(locators)[i] == locator_text(locators[i]),
{
}

} // verus!
