use networking::addr::{IpAddr, Ipv4Addr, Ipv6Addr};
use networking::watchers::{
    is_valid_v6, Interface, IpRecord, ScoutExit, ScoutFault, Update, UpdateDiff, WatchCommand,
    WatchEvent, WatchState, Watchers,
};

const FE80_1: u128 = 0xfe80_0000_0000_0000_0000_0000_0000_0001;

fn v6(bits: u128) -> IpRecord {
    IpRecord { ip: IpAddr::V6(Ipv6Addr { bits }), prefix_len: 64 }
}

fn v4(bits: u32) -> IpRecord {
    IpRecord { ip: IpAddr::V4(Ipv4Addr { bits }), prefix_len: 24 }
}

fn watchable(index: u32, name: &str) -> Interface {
    Interface { index, name: name.to_string(), ips: vec![v4(0xc0a8_0001), v6(FE80_1)] }
}

fn unwatchable(index: u32, name: &str) -> Interface {
    Interface { index, name: name.to_string(), ips: vec![v4(0xc0a8_0001), v6(1)] }
}

fn update(interfaces: Vec<Interface>, added: &[u32], modified: &[u32], removed: &[u32]) -> Update {
    Update {
        interfaces: interfaces.into_iter().map(|i| (i.index, i)).collect(),
        diff: UpdateDiff {
            added: added.to_vec(),
            modified: modified.to_vec(),
            removed: removed.to_vec(),
        },
    }
}

fn texts(commands: &[WatchCommand]) -> Vec<String> {
    commands
        .iter()
        .map(|command| match command {
            WatchCommand::Abort(index) => format!("-{index}"),
            WatchCommand::Spawn { index, name } => format!("+{index} {name}"),
        })
        .collect()
}

#[test]
fn usable_addresses() {
    assert!(is_valid_v6(&v6(FE80_1)));
    assert!(is_valid_v6(&v6(0)));
    assert!(is_valid_v6(&v6(2)));
    assert!(is_valid_v6(&v6((0xff00 << 112) - 1)));
    assert!(!is_valid_v6(&v6(1)));
    assert!(!is_valid_v6(&v6(0xff00 << 112)));
    assert!(!is_valid_v6(&v6(u128::MAX)));
    assert!(!is_valid_v6(&v4(0xc0a8_0001)));
}

#[test]
fn loopback_and_multicast_in_ipv4() {
    let ip = |bits: u32| IpAddr::V4(Ipv4Addr { bits });
    assert!(ip(0x7f00_0001).is_loopback());
    assert!(ip(0x7fff_ffff).is_loopback());
    assert!(!ip(0x7eff_ffff).is_loopback());
    assert!(!ip(0x8000_0000).is_loopback());
    assert!(!ip(0xdfff_ffff).is_multicast());
    assert!(ip(0xe000_0000).is_multicast());
    assert!(ip(0xefff_ffff).is_multicast());
    assert!(!ip(0xf000_0000).is_multicast());
}

#[test]
fn one_usable_address_is_enough() {
    assert!(watchable(1, "eth0").is_watchable());
    assert!(!unwatchable(1, "eth0").is_watchable());
    assert!(!Interface { index: 1, name: "eth0".to_string(), ips: vec![] }.is_watchable());
}

#[test]
fn new_interfaces_are_watched() {
    let mut watchers = Watchers::new();
    let commands = watchers.update(update(
        vec![watchable(1, "eth0"), unwatchable(2, "lo"), watchable(3, "wlan0")],
        &[3, 2, 1],
        &[],
        &[],
    ));
    assert_eq!(texts(&commands), vec!["+3 wlan0", "+1 eth0"]);
}

#[test]
fn an_interface_that_is_not_listed_as_changed_is_left_alone() {
    let mut watchers = Watchers::new();
    assert!(watchers.update(update(vec![watchable(1, "eth0")], &[], &[], &[])).is_empty());
}

#[test]
fn a_changed_interface_gets_a_new_scout() {
    let mut watchers = Watchers::new();
    watchers.update(update(vec![watchable(1, "eth0")], &[1], &[], &[]));
    let commands = watchers.update(update(vec![watchable(1, "eth0")], &[], &[1], &[]));
    assert_eq!(texts(&commands), vec!["-1", "+1 eth0"]);
}

#[test]
fn an_interface_that_lost_its_address_is_no_longer_watched() {
    let mut watchers = Watchers::new();
    watchers.update(update(vec![watchable(1, "eth0")], &[1], &[], &[]));
    let commands = watchers.update(update(vec![unwatchable(1, "eth0")], &[], &[1], &[]));
    assert_eq!(texts(&commands), vec!["-1"]);
    let commands = watchers.update(update(vec![], &[], &[], &[1]));
    assert!(commands.is_empty());
}

#[test]
fn an_interface_that_got_an_address_is_watched() {
    let mut watchers = Watchers::new();
    watchers.update(update(vec![unwatchable(1, "eth0")], &[1], &[], &[]));
    let commands = watchers.update(update(vec![watchable(1, "eth0")], &[], &[1], &[]));
    assert_eq!(texts(&commands), vec!["+1 eth0"]);
}

#[test]
fn removed_then_modified_then_added() {
    let mut watchers = Watchers::new();
    watchers.update(update(vec![watchable(1, "a"), watchable(2, "b")], &[1, 2], &[], &[]));
    let commands = watchers.update(update(
        vec![watchable(2, "b"), watchable(3, "c")],
        &[3],
        &[2],
        &[1],
    ));
    assert_eq!(texts(&commands), vec!["-1", "-2", "+2 b", "+3 c"]);
}

#[test]
fn an_interface_is_looked_at_once() {
    let mut watchers = Watchers::new();
    let commands = watchers.update(update(vec![watchable(1, "eth0")], &[1, 1], &[1], &[]));
    assert_eq!(texts(&commands), vec!["+1 eth0"]);
}

#[test]
fn changes_of_unknown_interfaces_are_passed_over() {
    let mut watchers = Watchers::new();
    assert!(watchers.update(update(vec![], &[1], &[2], &[3])).is_empty());
}

#[test]
fn which_are_watched_does_not_depend_on_the_order_of_changes() {
    let interfaces = || vec![watchable(1, "a"), watchable(2, "b"), unwatchable(3, "c")];
    let mut one = Watchers::new();
    let mut two = Watchers::new();
    one.update(update(interfaces(), &[1, 2, 3], &[], &[]));
    two.update(update(interfaces(), &[3, 2, 1], &[], &[]));
    let gone = || update(vec![], &[], &[], &[1, 2, 3]);
    assert_eq!(texts(&one.update(gone())), vec!["-1", "-2"]);
    assert_eq!(texts(&two.update(gone())), vec!["-1", "-2"]);
}

#[test]
fn a_round_of_the_watch() {
    let mut watchers = Watchers::new();
    let state: WatchState<String, String> = WatchState::Waiting;
    let event = WatchEvent::Updated(update(vec![watchable(1, "eth0")], &[1], &[], &[]));
    let state = watchers.step(state, event);
    match &state {
        WatchState::Commanding(commands) => assert_eq!(texts(commands), vec!["+1 eth0"]),
        other => panic!("{other:?}"),
    }
    let state = watchers.step(state, WatchEvent::Commanded);
    assert!(matches!(state, WatchState::Draining));
    let state = watchers.step(state, WatchEvent::Exited(ScoutExit::Finished));
    assert!(matches!(state, WatchState::Draining));
    let state = watchers.step(state, WatchEvent::Exited(ScoutExit::Aborted));
    assert!(matches!(state, WatchState::Draining));
    let state = watchers.step(state, WatchEvent::NoExit);
    assert!(matches!(state, WatchState::Waiting));
    let state = watchers.step(state, WatchEvent::Closed);
    assert!(matches!(state, WatchState::Finished));
    let state = watchers.step(state, WatchEvent::Commanded);
    assert!(matches!(state, WatchState::Finished));
}

#[test]
fn a_scout_that_failed_ends_the_watch() {
    let mut watchers = Watchers::new();
    let state: WatchState<i32, char> = WatchState::Draining;
    match watchers.step(state, WatchEvent::Exited(ScoutExit::Failed(5))) {
        WatchState::Faulted(ScoutFault::Failed(error)) => assert_eq!(error, 5),
        other => panic!("{other:?}"),
    }
}

#[test]
fn a_scout_that_panicked_ends_the_watch() {
    let mut watchers = Watchers::new();
    let state: WatchState<i32, char> = WatchState::Draining;
    match watchers.step(state, WatchEvent::Exited(ScoutExit::Panicked('p'))) {
        WatchState::Faulted(ScoutFault::Panicked(payload)) => assert_eq!(payload, 'p'),
        other => panic!("{other:?}"),
    }
}

#[test]
fn exits_and_the_faults_in_them() {
    assert!(ScoutExit::<i32, char>::Finished.into_fault().is_none());
    assert!(ScoutExit::<i32, char>::Aborted.into_fault().is_none());
    assert!(matches!(ScoutExit::<i32, char>::Failed(1).into_fault(), Some(ScoutFault::Failed(1))));
    assert!(matches!(
        ScoutExit::<i32, char>::Panicked('x').into_fault(),
        Some(ScoutFault::Panicked('x'))
    ));
}

#[test]
fn an_update_is_not_taken_while_commands_are_carried_out() {
    let mut watchers = Watchers::new();
    let state: WatchState<i32, char> = WatchState::Commanding(vec![]);
    let event = WatchEvent::Updated(update(vec![watchable(1, "eth0")], &[1], &[], &[]));
    assert!(matches!(watchers.step(state, event), WatchState::Commanding(_)));
    assert!(watchers.update(update(vec![], &[], &[], &[1])).is_empty());
}
