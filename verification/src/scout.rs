//! What a scout on one interface does with the peers that it hears.
//!
//! A scout is configured, started, and then listens: it connects to every peer
//! that it hears but the node itself. This module decides; it neither listens
//! nor connects.

use vstd::prelude::*;

use crate::locators::{peer_locators, LocatorError, ScoutedLocator, ScoutedPeer};
use crate::settings::{scout_cfg, ConfigError};
use crate::zid::ZenohId;

verus! {

/// What ends a scout before there is nothing more to hear.
#[derive(Debug)]
pub enum ScoutError<E> {
    /// Zenoh refused the name of the interface.
    Config(ConfigError),
    /// The scout could not be started.
    Start(E),
    /// Zenoh refused a locator with the interface written into it.
    Locator(LocatorError),
}

/// What the scout has to do next.
pub enum ScoutState<E> {
    /// Start with this configuration.
    Starting(zenoh::Config),
    /// Listen for a peer.
    Listening,
    /// Connect to the peer at these locators.
    Connecting { zid: ZenohId, locators: Vec<zenoh::config::Locator> },
    /// End: there is nothing more to hear.
    Finished,
    /// End: something failed.
    Failed(ScoutError<E>),
}

/// What came of what the scout did.
pub enum ScoutEvent<E> {
    /// It has started.
    Started,
    /// It could not be started.
    StartFailed(E),
    /// It has heard a peer.
    Heard(ScoutedPeer),
    /// There is nothing more to hear.
    Ended,
    /// Connecting is over, with whatever result.
    Connected,
}

/// What ends a scout before there is nothing more to hear.
pub ghost enum ScoutErrorData<E> {
    Config(Seq<char>),
    Start(E),
    Locator(Seq<char>),
}

/// What the scout has to do next.
pub ghost enum ScoutStateData<E> {
    Starting(zenoh::Config),
    Listening,
    Connecting { zid: Seq<u8>, locators: Seq<Seq<char>> },
    Finished,
    Failed(ScoutErrorData<E>),
}

/// What came of what the scout did.
pub ghost enum ScoutEventData<E> {
    Started,
    StartFailed(E),
    Heard { zid: Seq<u8>, locators: Seq<ScoutedLocator> },
    Ended,
    Connected,
}

impl<E> View for ScoutError<E> {
    type V = ScoutErrorData<E>;

    open spec fn view(&self) -> ScoutErrorData<E> {
        match self {
            ScoutError::Config(e) => ScoutErrorData::Config(e.message@),
            ScoutError::Start(e) => ScoutErrorData::Start(*e),
            ScoutError::Locator(e) => ScoutErrorData::Locator(e.message@),
        }
    }
}

impl<E> View for ScoutState<E> {
    type V = ScoutStateData<E>;

    open spec fn view(&self) -> ScoutStateData<E> {
        match self {
            ScoutState::Starting(config) => ScoutStateData::Starting(*config),
            ScoutState::Listening => ScoutStateData::Listening,
            ScoutState::Connecting { zid, locators } => ScoutStateData::Connecting {
                zid: zid@,
                locators: crate::locators::texts(locators@),
            },
            ScoutState::Finished => ScoutStateData::Finished,
            ScoutState::Failed(e) => ScoutStateData::Failed(e@),
        }
    }
}

impl<E> View for ScoutEvent<E> {
    type V = ScoutEventData<E>;

    open spec fn view(&self) -> ScoutEventData<E> {
        match self {
            ScoutEvent::Started => ScoutEventData::Started,
            ScoutEvent::StartFailed(e) => ScoutEventData::StartFailed(*e),
            ScoutEvent::Heard(peer) => ScoutEventData::Heard {
                zid: peer.zid@,
                locators: peer.locators@,
            },
            ScoutEvent::Ended => ScoutEventData::Ended,
            ScoutEvent::Connected => ScoutEventData::Connected,
        }
    }
}

/// Whether this is what a scout has to do first where a default configuration holds
/// `tree`: start with the settings of the scout put into it, or end with what Zenoh
/// says of the first of them that it refuses.
pub open spec fn is_first<E>(
    tree: Map<Seq<char>, Seq<char>>,
    name: Seq<char>,
    state: ScoutStateData<E>,
) -> bool {
    let settings = crate::settings::scout_pairs(name);
    match state {
        ScoutStateData::Starting(config) => {
            &&& crate::settings::tree_after(tree, settings) == Some(
                crate::settings::config_tree(config),
            )
            &&& crate::settings::has_no_validator(config)
        },
        ScoutStateData::Failed(ScoutErrorData::Config(message)) => {
            &&& crate::settings::tree_after(tree, settings) is None
            &&& crate::settings::is_first_refusal(tree, settings, message)
        },
        _ => false,
    }
}

/// Whether this is what a scout of the node with the id `own`, on the interface with
/// this index, has to do after it has heard a peer: listen on if the peer is the
/// node itself, else connect to the peer, or end with what Zenoh says of the first
/// locator that it refuses.
pub open spec fn is_after_peer<E>(
    own: Seq<u8>,
    iface_idx: u32,
    zid: Seq<u8>,
    locators: Seq<ScoutedLocator>,
    after: ScoutStateData<E>,
) -> bool {
    if zid == own {
        after == ScoutStateData::<E>::Listening
    } else {
        match crate::locators::scoped(locators, iface_idx) {
            Some(scoped) => after == (ScoutStateData::<E>::Connecting { zid, locators: scoped }),
            None => after matches ScoutStateData::Failed(ScoutErrorData::Locator(message))
                && crate::locators::is_first_refusal(locators, iface_idx, message),
        }
    }
}

/// Whether this is what the scout has to do after the event. An event that does not
/// belong to what the scout was doing changes nothing.
pub open spec fn is_next<E>(
    own: Seq<u8>,
    iface_idx: u32,
    state: ScoutStateData<E>,
    event: ScoutEventData<E>,
    after: ScoutStateData<E>,
) -> bool {
    match (state, event) {
        (ScoutStateData::Starting(_), ScoutEventData::Started) => {
            after == ScoutStateData::<E>::Listening
        },
        (ScoutStateData::Starting(_), ScoutEventData::StartFailed(e)) => {
            after == ScoutStateData::Failed(ScoutErrorData::Start(e))
        },
        (ScoutStateData::Listening, ScoutEventData::Heard { zid, locators }) => {
            is_after_peer(own, iface_idx, zid, locators, after)
        },
        (ScoutStateData::Listening, ScoutEventData::Ended) => {
            after == ScoutStateData::<E>::Finished
        },
        (ScoutStateData::Connecting { .. }, ScoutEventData::Connected) => {
            after == ScoutStateData::<E>::Listening
        },
        _ => after == state,
    }
}

/// A scout on one interface.
pub struct Scout {
    /// The id of the node that listens.
    pub own: ZenohId,
    /// The index of the interface.
    pub iface_idx: u32,
}

impl Scout {
    /// What a scout that listens on the interface of this name has to do first.
    pub fn begin<E>(name: &str) -> (r: ScoutState<E>)
        ensures
            exists|default_tree: Map<Seq<char>, Seq<char>>|
                #[trigger] crate::settings::is_default_tree(default_tree) && is_first(
                    default_tree,
                    name@,
                    r@,
                ),
            crate::settings::is_clean(name@) ==> (r matches ScoutState::Starting(config)
                && crate::settings::stands(
                crate::settings::config_tree(config),
                ("scouting/multicast/interface"@, crate::text::quoted(name@)),
            )),
    {
        match scout_cfg(name) {
            Ok(config) => ScoutState::Starting(config),
            Err(e) => ScoutState::Failed(ScoutError::Config(e)),
        }
    }

    /// What the scout has to do after the event. An event that does not belong to
    /// what the scout was doing changes nothing.
    pub fn step<E>(&self, state: ScoutState<E>, event: ScoutEvent<E>) -> (r: ScoutState<E>)
        ensures
            is_next(self.own@, self.iface_idx, state@, event@, r@),
            state is Listening ==> (event matches ScoutEvent::Heard(peer) ==> (peer.zid@
                == self.own@ ==> r is Listening)),
            state is Listening ==> (event matches ScoutEvent::Heard(peer) ==> (r
                matches ScoutState::Connecting { zid, locators } ==> peer.zid@ != self.own@ && zid@
                == peer.zid@ && crate::locators::scoped(peer.locators@, self.iface_idx) == Some(
                crate::locators::texts(locators@),
            ))),
            state is Listening && (event matches ScoutEvent::Heard(peer) && peer.zid@ != self.own@
                && crate::locators::all_plain(peer.locators@, self.iface_idx)) ==> (r@
                matches ScoutStateData::Connecting { zid, locators } && zid
                == event->Heard_0.zid@ && locators == crate::locators::plainly_scoped(
                event->Heard_0.locators@,
                self.iface_idx,
            )),
    {
        match (state, event) {
            (ScoutState::Starting(_), ScoutEvent::Started) => ScoutState::Listening,
            (ScoutState::Starting(_), ScoutEvent::StartFailed(e)) => ScoutState::Failed(
                ScoutError::Start(e),
            ),
            (ScoutState::Listening, ScoutEvent::Heard(peer)) => {
                match peer_locators(&self.own, &peer, self.iface_idx) {
                    Ok(None) => ScoutState::Listening,
                    Ok(Some(locators)) => ScoutState::Connecting { zid: peer.zid, locators },
                    Err(e) => ScoutState::Failed(ScoutError::Locator(e)),
                }
            },
            (ScoutState::Listening, ScoutEvent::Ended) => ScoutState::Finished,
            (ScoutState::Connecting { .. }, ScoutEvent::Connected) => ScoutState::Listening,
            (state, _) => state,
        }
    }
}

/// A scout fails only if it could not be started, with that error, or if Zenoh
/// refuses a locator of another peer with the interface written into it, with what
/// Zenoh says of the first such locator; and what has failed stays so.
pub proof fn law_scout_fails_only_then<E>(
    own: Seq<u8>,
    iface_idx: u32,
    state: ScoutStateData<E>,
    event: ScoutEventData<E>,
    after: ScoutStateData<E>,
)
    requires
        is_next(own, iface_idx, state, event, after),
    ensures
        after is Failed <==> {
            ||| state is Failed
            ||| state is Starting && event is StartFailed
            ||| state is Listening && event is Heard && event->zid != own
                && crate::locators::scoped(event->locators, iface_idx) is None
        },
        state is Failed ==> after == state,
        !(state is Failed) && after is Failed ==> match after->Failed_0 {
            ScoutErrorData::Config(_) => false,
            ScoutErrorData::Start(e) => event == ScoutEventData::StartFailed(e),
            ScoutErrorData::Locator(message) => event is Heard
                && crate::locators::is_first_refusal(event->locators, iface_idx, message),
        },
{
}

/// A scout finishes only when there is nothing more to hear, which is no failure;
/// and what has finished stays so.
pub proof fn law_scout_finishes_only_then<E>(
    own: Seq<u8>,
    iface_idx: u32,
    state: ScoutStateData<E>,
    event: ScoutEventData<E>,
    after: ScoutStateData<E>,
)
    requires
        is_next(own, iface_idx, state, event, after),
    ensures
        after is Finished <==> state is Finished || (state is Listening && event is Ended),
{
}

/// A scout connects only to a peer that it has just heard, never to the node
/// itself, and at the scoped locators of the peer and no others.
pub proof fn law_scout_connects_only_to_peers<E>(
    own: Seq<u8>,
    iface_idx: u32,
    state: ScoutStateData<E>,
    event: ScoutEventData<E>,
    after: ScoutStateData<E>,
)
    requires
        is_next(own, iface_idx, state, event, after),
        !(state is Connecting),
        after is Connecting,
    ensures
        state is Listening,
        event matches ScoutEventData::Heard { zid, locators } && zid != own
            && crate::locators::scoped(locators, iface_idx) == Some(after->locators)
            && after->Connecting_zid == zid,
{
}

/// Once a scout has finished or failed it stays so, whatever comes: it never
/// connects again.
pub proof fn law_scout_is_over<E>(
    own: Seq<u8>,
    iface_idx: u32,
    states: Seq<ScoutStateData<E>>,
    events: Seq<ScoutEventData<E>>,
    n: int,
)
    requires
        states.len() == events.len() + 1,
        forall|i: int|
            0 <= i < events.len() ==> is_next(
                own,
                iface_idx,
                states[i],
                #[trigger] events[i],
                states[i + 1],
            ),
        states[0] is Finished || states[0] is Failed,
        0 <= n < states.len(),
    ensures
        states[n] == states[0],
    decreases n,
{
    if n > 0 {
        law_scout_is_over(own, iface_idx, states, events, n - 1);
        assert(is_next(own, iface_idx, states[n - 1], events[n - 1], states[n - 1 + 1]));
    }
}

/// A locator that is not link-local is passed over: a peer all of whose locators
/// are such does not end the scout.
pub proof fn law_other_locators_do_no_harm<E>(
    own: Seq<u8>,
    iface_idx: u32,
    zid: Seq<u8>,
    locators: Seq<ScoutedLocator>,
    after: ScoutStateData<E>,
)
    requires
        forall|i: int|
            0 <= i < locators.len() ==> (#[trigger] locators[i]).appended(iface_idx) is None,
        is_next(
            own,
            iface_idx,
            ScoutStateData::Listening,
            ScoutEventData::Heard { zid, locators },
            after,
        ),
    ensures
        !(after is Failed),
{
    crate::locators::law_no_link_local_no_locator(locators, iface_idx);
}

/// What a scout does when all goes well: once started it listens; a peer that is the
/// node itself is passed over; to any other it connects, under the id that the peer
/// gave and at all its scoped locators; and then it listens again, until there is
/// nothing more to hear.
pub proof fn law_scout_goes_on<E>(
    own: Seq<u8>,
    iface_idx: u32,
    state: ScoutStateData<E>,
    event: ScoutEventData<E>,
    after: ScoutStateData<E>,
)
    requires
        is_next(own, iface_idx, state, event, after),
    ensures
        state is Starting && event is Started ==> after is Listening,
        state is Listening && event is Heard && event->zid == own ==> after is Listening,
        state is Listening && event is Heard && event->zid != own
            && crate::locators::scoped(event->locators, iface_idx) is Some ==> after
            == (ScoutStateData::<E>::Connecting {
            zid: event->zid,
            locators: crate::locators::scoped(event->locators, iface_idx)->0,
        }),
        state is Connecting && event is Connected ==> after is Listening,
        state is Listening && event is Ended ==> after is Finished,
        state is Starting ==> (event matches ScoutEventData::StartFailed(e) ==> after
            == ScoutStateData::Failed(ScoutErrorData::Start(e))),
{
}

/// An event that does not belong to what a scout was doing changes nothing.
pub proof fn law_other_events_change_no_scout<E>(
    own: Seq<u8>,
    iface_idx: u32,
    state: ScoutStateData<E>,
    event: ScoutEventData<E>,
    after: ScoutStateData<E>,
)
    requires
        is_next(own, iface_idx, state, event, after),
        state is Starting ==> !(event is Started || event is StartFailed),
        state is Listening ==> !(event is Heard || event is Ended),
        state is Connecting ==> !(event is Connected),
    ensures
        after == state,
{
}

/// What a scout starts with: a configuration that holds what the name of its interface
/// makes of a default one; or it fails with what Zenoh may say of that name.
pub proof fn law_scout_starts_with_its_interface<E>(
    tree: Map<Seq<char>, Seq<char>>,
    name: Seq<char>,
    state: ScoutStateData<E>,
)
    requires
        is_first(tree, name, state),
    ensures
        match crate::settings::tree_with(
            tree,
            "scouting/multicast/interface"@,
            seq!['"'] + name + seq!['"'],
        ) {
            Some(t) => state matches ScoutStateData::Starting(config)
                && crate::settings::config_tree(config) == t,
            None => state matches ScoutStateData::Failed(ScoutErrorData::Config(message))
                && crate::settings::is_refusal(
                tree,
                "scouting/multicast/interface"@,
                seq!['"'] + name + seq!['"'],
                message,
            ),
        },
{
    let pair = ("scouting/multicast/interface"@, seq!['"'] + name + seq!['"']);
    let settings = crate::settings::scout_pairs(name);
    crate::settings::law_scout_settings(name);
    crate::settings::law_settings_are_put_in_one_by_one(tree, Seq::empty(), pair);
    assert(Seq::<(Seq<char>, Seq<char>)>::empty().push(pair) =~= settings);
    assert(settings.take(0) =~= Seq::empty());
    if let ScoutStateData::Failed(ScoutErrorData::Config(message)) = state {
        let n = choose|n: int|
            0 <= n < settings.len() && match crate::settings::tree_after(
                tree,
                #[trigger] settings.take(n),
            ) {
                Some(t) => crate::settings::tree_with(t, settings[n].0, settings[n].1) is None
                    && crate::settings::is_refusal(t, settings[n].0, settings[n].1, message),
                None => false,
            };
        assert(n == 0);
    }
}

} // verus!
