use networking::locators::{ScoutedLocator, ScoutedPeer};
use networking::scout::{Scout, ScoutError, ScoutEvent, ScoutState};
use networking::zid::ZenohId;

fn id(byte: u8) -> ZenohId {
    ZenohId::from_le_slice(&[byte]).unwrap()
}

fn scout() -> Scout {
    Scout { own: id(1), iface_idx: 3 }
}

fn link_local(protocol: &str) -> ScoutedLocator {
    ScoutedLocator {
        protocol: protocol.to_string(),
        address: "[fe80::1]:7447".to_string(),
        metadata: String::new(),
    }
}

fn unparsed() -> ScoutedLocator {
    ScoutedLocator {
        protocol: "tcp".to_string(),
        address: String::new(),
        metadata: String::new(),
    }
}

fn heard(byte: u8, locators: Vec<ScoutedLocator>) -> ScoutEvent<String> {
    ScoutEvent::Heard(ScoutedPeer { zid: id(byte), locators })
}

#[test]
fn a_scout_starts_with_its_configuration() {
    match Scout::begin::<String>("br-lan.1") {
        ScoutState::Starting(config) => {
            assert_eq!(config.get_json("scouting/multicast/interface").unwrap(), "\"br-lan.1\"");
        }
        _ => panic!("does not start"),
    }
}

#[test]
fn a_refused_name_fails_a_scout() {
    match Scout::begin::<String>("eth\"0") {
        ScoutState::Failed(ScoutError::Config(e)) => assert!(!e.message.is_empty()),
        _ => panic!("no failure"),
    }
}

#[test]
fn a_scout_that_cannot_start_fails() {
    let state = scout().step(Scout::begin("eth0"), ScoutEvent::StartFailed("no".to_string()));
    match state {
        ScoutState::Failed(ScoutError::Start(e)) => assert_eq!(e, "no"),
        _ => panic!("no failure"),
    }
}

#[test]
fn a_scout_connects_to_peers() {
    let scout = scout();
    let state = scout.step(Scout::begin("eth0"), ScoutEvent::Started);
    assert!(matches!(state, ScoutState::Listening));
    let state = scout.step(state, heard(2, vec![unparsed(), link_local("tcp")]));
    match &state {
        ScoutState::Connecting { zid, locators } => {
            assert!(*zid == id(2));
            assert_eq!(locators.len(), 1);
            assert_eq!(locators[0].as_str(), "tcp/[fe80::1%3]:7447");
        }
        _ => panic!("does not connect"),
    }
    let state = scout.step(state, ScoutEvent::Connected);
    assert!(matches!(state, ScoutState::Listening));
    let state = scout.step(state, ScoutEvent::Ended);
    assert!(matches!(state, ScoutState::Finished));
    let state = scout.step(state, heard(2, vec![link_local("tcp")]));
    assert!(matches!(state, ScoutState::Finished));
}

#[test]
fn a_scout_passes_over_the_node_itself() {
    let state = scout().step(ScoutState::Listening, heard(1, vec![link_local("")]));
    assert!(matches!(state, ScoutState::Listening));
}

#[test]
fn a_locator_that_is_not_link_local_does_no_harm() {
    match scout().step(ScoutState::Listening, heard(2, vec![unparsed()])) {
        ScoutState::Connecting { locators, .. } => assert!(locators.is_empty()),
        _ => panic!("does not connect"),
    }
}

#[test]
fn a_refused_scoped_locator_fails_a_scout_for_good() {
    let scout = scout();
    let state = scout.step(ScoutState::Listening, heard(2, vec![link_local("")]));
    assert!(matches!(state, ScoutState::Failed(ScoutError::Locator(_))));
    let state = scout.step(state, heard(3, vec![link_local("tcp")]));
    assert!(matches!(state, ScoutState::Failed(ScoutError::Locator(_))));
}

#[test]
fn events_that_do_not_belong_change_nothing_for_a_scout() {
    let scout = scout();
    let state: ScoutState<String> = scout.step(ScoutState::Listening, ScoutEvent::Connected);
    assert!(matches!(state, ScoutState::Listening));
    let state = scout.step(Scout::begin::<String>("eth0"), ScoutEvent::Ended);
    assert!(matches!(state, ScoutState::Starting(_)));
}
