//! Which interfaces have a scout watching them.
//!
//! Each interface that has a usable IPv6 address is watched by one scout. When
//! the interfaces change, [`Watchers`] says which scouts to stop and which to
//! start, in which order; it neither stops nor starts them.

use std::collections::{HashMap, HashSet};

use vstd::prelude::*;

use crate::addr::IpAddr;

verus! {

/// An address of an interface, with the length of its network prefix.
#[derive(Debug, Clone, Copy, PartialEq, Eq, Structural)]
pub struct IpRecord {
    pub ip: IpAddr,
    pub prefix_len: u8,
}

/// A network interface.
#[derive(Debug)]
pub struct Interface {
    pub index: u32,
    pub name: String,
    pub ips: Vec<IpRecord>,
}

/// The indices of the interfaces that are new, that have changed and that are gone.
#[derive(Debug)]
pub struct UpdateDiff {
    pub added: Vec<u32>,
    pub modified: Vec<u32>,
    pub removed: Vec<u32>,
}

/// The interfaces as they are now, each under its index, and what has changed.
#[derive(Debug)]
pub struct Update {
    pub interfaces: HashMap<u32, Interface>,
    pub diff: UpdateDiff,
}

/// What to do with the scouts.
#[derive(Debug)]
pub enum WatchCommand {
    /// Stop the scout of the interface with this index.
    Abort(u32),
    /// Start a scout on the interface with this index and name.
    Spawn { index: u32, name: String },
}

impl IpRecord {
    /// The address is an IPv6 address, and neither the loopback address nor a
    /// multicast address.
    pub open spec fn valid_v6(self) -> bool {
        self.ip is V6 && !self.ip.loopback() && !self.ip.multicast()
    }
}

/// Whether the address is an IPv6 address, and neither the loopback address nor
/// a multicast address.
pub fn is_valid_v6(record: &IpRecord) -> (r: bool)
    ensures
        r == record.valid_v6(),
{
    record.ip.is_ipv6() && !record.ip.is_loopback() && !record.ip.is_multicast()
}

impl Interface {
    /// The interface has a usable IPv6 address.
    pub open spec fn watchable(self) -> bool {
        exists|i: int| 0 <= i < self.ips@.len() && (#[trigger] self.ips@[i]).valid_v6()
    }

    /// Whether the interface has a usable IPv6 address.
    pub fn is_watchable(&self) -> (r: bool)
        ensures
            r == self.watchable(),
    {
        let mut i: usize = 0;
        while i < self.ips.len()
            invariant
                i <= self.ips@.len(),
                forall|j: int| 0 <= j < i ==> !(#[trigger] self.ips@[j]).valid_v6(),
            decreases self.ips@.len() - i,
        {
            if is_valid_v6(&self.ips[i]) {
                return true;
            }
            i += 1;
        }
        false
    }
}

/// Where the handling of an update stands.
#[verifier::ext_equal]
pub ghost struct Plan {
    /// The interfaces that have not been looked at yet.
    pub interfaces: Map<u32, Interface>,
    /// The indices of the interfaces that are watched once the commands are done.
    pub watched: Set<u32>,
    /// What to do, in this order.
    pub commands: Seq<WatchCommand>,
}

impl Plan {
    /// Stops the scout with this index, if there is one.
    pub open spec fn stop(self, index: u32) -> Plan {
        if self.watched.contains(index) {
            Plan {
                watched: self.watched.remove(index),
                commands: self.commands.push(WatchCommand::Abort(index)),
                ..self
            }
        } else {
            self
        }
    }

    /// Starts a scout on the interface, if the interface can be watched.
    pub open spec fn start(self, interface: Interface) -> Plan {
        if interface.watchable() {
            Plan {
                watched: self.watched.insert(interface.index),
                commands: self.commands.push(
                    WatchCommand::Spawn { index: interface.index, name: interface.name },
                ),
                ..self
            }
        } else {
            self
        }
    }

    /// Stops the scout of the interface, if there is one, and starts a new one
    /// if the interface can be watched.
    pub open spec fn restart(self, interface: Interface) -> Plan {
        self.stop(interface.index).start(interface)
    }

    /// Looks at the interface under this key, if it is there and has not been
    /// looked at: its scout is stopped, and a new one started.
    pub open spec fn renew(self, key: u32) -> Plan {
        if self.interfaces.dom().contains(key) {
            Plan { interfaces: self.interfaces.remove(key), ..self }.restart(self.interfaces[key])
        } else {
            self
        }
    }

    /// Stops the scouts with these indices, in their order.
    pub open spec fn stop_all(self, indices: Seq<u32>) -> Plan
        decreases indices.len(),
    {
        if indices.len() == 0 {
            self
        } else {
            self.stop_all(indices.drop_last()).stop(indices.last())
        }
    }

    /// Looks at the interfaces under these keys, in their order.
    pub open spec fn renew_all(self, keys: Seq<u32>) -> Plan
        decreases keys.len(),
    {
        if keys.len() == 0 {
            self
        } else {
            self.renew_all(keys.drop_last()).renew(keys.last())
        }
    }
}

/// How an update is handled when these interfaces are watched: first the scouts
/// of interfaces that are gone are stopped, then the interfaces that have changed
/// are looked at, and last those that are new.
pub open spec fn plan(
    watched: Set<u32>,
    interfaces: Map<u32, Interface>,
    removed: Seq<u32>,
    modified: Seq<u32>,
    added: Seq<u32>,
) -> Plan {
    Plan { interfaces, watched, commands: Seq::empty() }.stop_all(removed).renew_all(
        modified,
    ).renew_all(added)
}

/// The handling of an update.
struct Handling {
    interfaces: HashMap<u32, Interface>,
    watched: HashSet<u32>,
    commands: Vec<WatchCommand>,
}

impl View for Handling {
    type V = Plan;

    closed spec fn view(&self) -> Plan {
        Plan {
            interfaces: self.interfaces@,
            watched: self.watched@,
            commands: self.commands@,
        }
    }
}

impl Handling {
    /// Stops the scout with this index, if there is one.
    fn stop(&mut self, index: u32)
        ensures
            final(self)@ == old(self)@.stop(index),
    {
        broadcast use vstd::std_specs::hash::group_hash_axioms;

        if self.watched.remove(&index) {
            self.commands.push(WatchCommand::Abort(index));
        }
        assert(self@ =~= old(self)@.stop(index));
    }

    /// Stops the scout of the interface, if there is one, and starts a new one
    /// if the interface can be watched.
    fn restart(&mut self, interface: Interface)
        ensures
            final(self)@ == old(self)@.restart(interface),
    {
        broadcast use vstd::std_specs::hash::group_hash_axioms;

        self.stop(interface.index);
        let ghost stopped: Plan = self@;
        if interface.is_watchable() {
            self.watched.insert(interface.index);
            self.commands.push(
                WatchCommand::Spawn { index: interface.index, name: interface.name },
            );
        }
        assert(self@ =~= stopped.start(interface));
    }

    /// Stops the scouts with these indices, in their order.
    fn stop_all(&mut self, indices: &Vec<u32>)
        ensures
            final(self)@ == old(self)@.stop_all(indices@),
    {
        let ghost first: Plan = self@;
        let mut i: usize = 0;
        while i < indices.len()
            invariant
                i <= indices@.len(),
                self@ == first.stop_all(indices@.take(i as int)),
            decreases indices@.len() - i,
        {
            assert(indices@.take(i + 1).drop_last() =~= indices@.take(i as int));
            self.stop(indices[i]);
            i += 1;
        }
        assert(indices@.take(i as int) =~= indices@);
    }

    /// Looks at the interfaces under these keys, in their order.
    fn renew_all(&mut self, keys: &Vec<u32>)
        ensures
            final(self)@ == old(self)@.renew_all(keys@),
    {
        broadcast use vstd::std_specs::hash::group_hash_axioms;

        let ghost first: Plan = self@;
        let mut i: usize = 0;
        while i < keys.len()
            invariant
                i <= keys@.len(),
                self@ == first.renew_all(keys@.take(i as int)),
            decreases keys@.len() - i,
        {
            let ghost before: Plan = self@;
            let key: u32 = keys[i];
            assert(keys@.take(i + 1).drop_last() =~= keys@.take(i as int));
            if let Some(interface) = self.interfaces.remove(&key) {
                assert(self@ =~= Plan { interfaces: before.interfaces.remove(key), ..before });
                self.restart(interface);
            }
            assert(self@ =~= before.renew(key));
            i += 1;
        }
        assert(keys@.take(i as int) =~= keys@);
    }
}

/// The interfaces that are watched. A scout that has come to its end by itself
/// counts as watching until it is stopped or the interface is gone.
pub struct Watchers {
    watched: HashSet<u32>,
}

impl View for Watchers {
    type V = Set<u32>;

    /// The indices of the interfaces that are watched.
    closed spec fn view(&self) -> Set<u32> {
        self.watched@
    }
}

impl Update {
    /// How the update is handled when these interfaces are watched.
    pub open spec fn plan(self, watched: Set<u32>) -> Plan {
        plan(
            watched,
            self.interfaces@,
            self.diff.removed@,
            self.diff.modified@,
            self.diff.added@,
        )
    }
}

impl Watchers {
    /// No interface is watched.
    pub fn new() -> (r: Watchers)
        ensures
            r@ == Set::<u32>::empty(),
    {
        Watchers { watched: HashSet::new() }
    }

    /// Takes note of an update, and says what to do with the scouts.
    pub fn update(&mut self, update: Update) -> (commands: Vec<WatchCommand>)
        ensures
            final(self)@ == update.plan(old(self)@).watched,
            commands@ == update.plan(old(self)@).commands,
            final(self)@ == plan(
                old(self)@,
                update.interfaces@,
                update.diff.removed@,
                update.diff.modified@,
                update.diff.added@,
            ).watched,
            commands@ == plan(
                old(self)@,
                update.interfaces@,
                update.diff.removed@,
                update.diff.modified@,
                update.diff.added@,
            ).commands,
    {
        let mut watched: HashSet<u32> = HashSet::new();
        std::mem::swap(&mut watched, &mut self.watched);
        let mut handling = Handling {
            interfaces: update.interfaces,
            watched,
            commands: Vec::new(),
        };
        handling.stop_all(&update.diff.removed);
        handling.renew_all(&update.diff.modified);
        handling.renew_all(&update.diff.added);
        self.watched = handling.watched;
        handling.commands
    }
}

/// How a scout has come to its end.
#[derive(Debug)]
pub enum ScoutExit<E, P> {
    /// It had nothing more to hear.
    Finished,
    /// It failed.
    Failed(E),
    /// It panicked.
    Panicked(P),
    /// It was stopped.
    Aborted,
}

/// What ends the watch.
#[derive(Debug)]
pub enum ScoutFault<E, P> {
    Failed(E),
    Panicked(P),
}

impl<E, P> ScoutExit<E, P> {
    /// The exit ends the watch: the scout failed or panicked.
    pub open spec fn fault(self) -> Option<ScoutFault<E, P>> {
        match self {
            ScoutExit::Failed(e) => Some(ScoutFault::Failed(e)),
            ScoutExit::Panicked(p) => Some(ScoutFault::Panicked(p)),
            _ => None,
        }
    }

    /// What of the exit ends the watch: that the scout failed, or that it panicked.
    pub fn into_fault(self) -> (r: Option<ScoutFault<E, P>>)
        ensures
            r == self.fault(),
    {
        match self {
            ScoutExit::Failed(e) => Some(ScoutFault::Failed(e)),
            ScoutExit::Panicked(p) => Some(ScoutFault::Panicked(p)),
            ScoutExit::Finished => None,
            ScoutExit::Aborted => None,
        }
    }
}

/// What the watch has to do next.
#[derive(Debug)]
pub enum WatchState<E, P> {
    /// Wait for an update.
    Waiting,
    /// Carry these commands out, in their order.
    Commanding(Vec<WatchCommand>),
    /// See whether a scout has come to its end, without waiting for one.
    Draining,
    /// End: there will be no more updates.
    Finished,
    /// End: a scout failed or panicked.
    Faulted(ScoutFault<E, P>),
}

/// What came of what the watch did.
#[derive(Debug)]
pub enum WatchEvent<E, P> {
    /// The interfaces have changed.
    Updated(Update),
    /// There will be no more updates.
    Closed,
    /// The commands have been carried out.
    Commanded,
    /// A scout has come to its end.
    Exited(ScoutExit<E, P>),
    /// No scout has come to its end.
    NoExit,
}

impl Watchers {
    /// What the watch has to do after the event. Scouts that have come to their
    /// end are looked at only after an update. An event that does not belong to
    /// what the watch was doing changes nothing.
    pub fn step<E, P>(&mut self, state: WatchState<E, P>, event: WatchEvent<E, P>) -> (r:
        WatchState<E, P>)
        ensures
            match (state, event) {
                (WatchState::Waiting, WatchEvent::Updated(update)) => {
                    &&& r matches WatchState::Commanding(commands)
                    &&& commands@ == update.plan(old(self)@).commands
                    &&& final(self)@ == update.plan(old(self)@).watched
                    &&& commands@ == plan(
                        old(self)@,
                        update.interfaces@,
                        update.diff.removed@,
                        update.diff.modified@,
                        update.diff.added@,
                    ).commands
                    &&& final(self)@ == plan(
                        old(self)@,
                        update.interfaces@,
                        update.diff.removed@,
                        update.diff.modified@,
                        update.diff.added@,
                    ).watched
                },
                (WatchState::Waiting, WatchEvent::Closed) => r == WatchState::<E, P>::Finished
                    && final(self)@ == old(self)@,
                (WatchState::Commanding(_), WatchEvent::Commanded) => r == WatchState::<
                    E,
                    P,
                >::Draining && final(self)@ == old(self)@,
                (WatchState::Draining, WatchEvent::Exited(exit)) => {
                    &&& final(self)@ == old(self)@
                    &&& r == match exit.fault() {
                        Some(fault) => WatchState::Faulted(fault),
                        None => WatchState::Draining,
                    }
                },
                (WatchState::Draining, WatchEvent::NoExit) => r == WatchState::<E, P>::Waiting
                    && final(self)@ == old(self)@,
                _ => r == state && final(self)@ == old(self)@,
            },
    {
        match (state, event) {
            (WatchState::Waiting, WatchEvent::Updated(update)) => WatchState::Commanding(
                self.update(update),
            ),
            (WatchState::Waiting, WatchEvent::Closed) => WatchState::Finished,
            (WatchState::Commanding(_), WatchEvent::Commanded) => WatchState::Draining,
            (WatchState::Draining, WatchEvent::Exited(exit)) => match exit.into_fault() {
                Some(fault) => WatchState::Faulted(fault),
                None => WatchState::Draining,
            },
            (WatchState::Draining, WatchEvent::NoExit) => WatchState::Waiting,
            (state, _) => state,
        }
    }
}

/// The interfaces that are watched after the commands have been carried out, if
/// they can be: a scout is stopped only where one is running, and started only
/// where none is.
pub open spec fn running_after(running: Set<u32>, commands: Seq<WatchCommand>) -> Option<Set<u32>>
    decreases commands.len(),
{
    if commands.len() == 0 {
        Some(running)
    } else {
        match (running_after(running, commands.drop_last()), commands.last()) {
            (Some(r), WatchCommand::Abort(index)) => if r.contains(index) {
                Some(r.remove(index))
            } else {
                None
            },
            (Some(r), WatchCommand::Spawn { index, .. }) => if r.contains(index) {
                None
            } else {
                Some(r.insert(index))
            },
            (None, _) => None,
        }
    }
}

/// The commands can be carried out, and lead to what the plan says is watched.
spec fn faithful(running: Set<u32>, plan: Plan) -> bool {
    running_after(running, plan.commands) == Some(plan.watched)
}

proof fn lemma_stop_is_faithful(running: Set<u32>, plan: Plan, index: u32)
    requires
        faithful(running, plan),
    ensures
        faithful(running, plan.stop(index)),
        !plan.stop(index).watched.contains(index),
{
    let commands = plan.commands.push(WatchCommand::Abort(index));
    assert(commands.drop_last() =~= plan.commands);
}

proof fn lemma_renew_is_faithful(running: Set<u32>, plan: Plan, key: u32)
    requires
        faithful(running, plan),
    ensures
        faithful(running, plan.renew(key)),
{
    if plan.interfaces.dom().contains(key) {
        let interface = plan.interfaces[key];
        let looked = Plan { interfaces: plan.interfaces.remove(key), ..plan };
        lemma_stop_is_faithful(running, looked, interface.index);
        let stopped = looked.stop(interface.index);
        let commands = stopped.commands.push(
            WatchCommand::Spawn { index: interface.index, name: interface.name },
        );
        assert(commands.drop_last() =~= stopped.commands);
    }
}

proof fn lemma_stop_all_is_faithful(running: Set<u32>, plan: Plan, indices: Seq<u32>)
    requires
        faithful(running, plan),
    ensures
        faithful(running, plan.stop_all(indices)),
    decreases indices.len(),
{
    if indices.len() > 0 {
        lemma_stop_all_is_faithful(running, plan, indices.drop_last());
        lemma_stop_is_faithful(running, plan.stop_all(indices.drop_last()), indices.last());
    }
}

proof fn lemma_renew_all_is_faithful(running: Set<u32>, plan: Plan, keys: Seq<u32>)
    requires
        faithful(running, plan),
    ensures
        faithful(running, plan.renew_all(keys)),
    decreases keys.len(),
{
    if keys.len() > 0 {
        lemma_renew_all_is_faithful(running, plan, keys.drop_last());
        lemma_renew_is_faithful(running, plan.renew_all(keys.drop_last()), keys.last());
    }
}

/// Whatever the update, its commands can be carried out where the watched
/// interfaces have one scout each and the others none: no scout is started beside
/// another one, none is stopped that is not there, and afterwards again the
/// watched interfaces have one scout each and the others none.
pub proof fn law_one_scout_each(
    watched: Set<u32>,
    interfaces: Map<u32, Interface>,
    removed: Seq<u32>,
    modified: Seq<u32>,
    added: Seq<u32>,
)
    ensures
        running_after(watched, plan(watched, interfaces, removed, modified, added).commands)
            == Some(plan(watched, interfaces, removed, modified, added).watched),
{
    let first = Plan { interfaces, watched, commands: Seq::empty() };
    lemma_stop_all_is_faithful(watched, first, removed);
    lemma_renew_all_is_faithful(watched, first.stop_all(removed), modified);
    lemma_renew_all_is_faithful(watched, first.stop_all(removed).renew_all(modified), added);
}

/// Every interface stands under its own index.
pub open spec fn under_own_index(interfaces: Map<u32, Interface>) -> bool {
    forall|key: u32| #[trigger] interfaces.dom().contains(key) ==> interfaces[key].index == key
}

proof fn lemma_stop_all_watched(plan: Plan, indices: Seq<u32>, index: u32)
    ensures
        plan.stop_all(indices).interfaces == plan.interfaces,
        plan.stop_all(indices).watched.contains(index) <==> plan.watched.contains(index)
            && !indices.contains(index),
    decreases indices.len(),
{
    if indices.len() > 0 {
        let rest = indices.drop_last();
        lemma_stop_all_watched(plan, rest, index);
        lemma_contains_last(indices, index);
    }
}

/// What a sequence contains is its last element and what the rest of it contains.
proof fn lemma_contains_last(s: Seq<u32>, x: u32)
    requires
        s.len() > 0,
    ensures
        s.contains(x) <==> s.drop_last().contains(x) || s.last() == x,
{
    if s.contains(x) {
        let i = choose|i: int| 0 <= i < s.len() && s[i] == x;
        if i < s.len() - 1 {
            assert(s.drop_last()[i] == x);
        }
    }
    if s.drop_last().contains(x) {
        let i = choose|i: int| 0 <= i < s.drop_last().len() && s.drop_last()[i] == x;
        assert(s[i] == x);
    }
    if s.last() == x {
        assert(s[s.len() - 1] == x);
    }
}

proof fn lemma_renew_all_watched(plan: Plan, keys: Seq<u32>, index: u32)
    requires
        under_own_index(plan.interfaces),
    ensures
        under_own_index(plan.renew_all(keys).interfaces),
        plan.renew_all(keys).interfaces.dom().contains(index) <==> plan.interfaces.dom().contains(
            index,
        ) && !keys.contains(index),
        plan.renew_all(keys).interfaces.dom().contains(index) ==> plan.renew_all(
            keys,
        ).interfaces[index] == plan.interfaces[index],
        plan.renew_all(keys).watched.contains(index) <==> if keys.contains(index)
            && plan.interfaces.dom().contains(index) {
            plan.interfaces[index].watchable()
        } else {
            plan.watched.contains(index)
        },
    decreases keys.len(),
{
    if keys.len() > 0 {
        let rest = keys.drop_last();
        lemma_renew_all_watched(plan, rest, index);
        lemma_renew_all_watched(plan, rest, keys.last());
        lemma_contains_last(keys, index);
    }
}

/// Which interfaces are watched after an update, if every interface stands under
/// its own index: of those that are new or have changed, the ones that can be
/// watched; and of the others, those that were watched and are not gone.
pub proof fn law_watched_after_update(
    watched: Set<u32>,
    interfaces: Map<u32, Interface>,
    removed: Seq<u32>,
    modified: Seq<u32>,
    added: Seq<u32>,
    index: u32,
)
    requires
        under_own_index(interfaces),
    ensures
        plan(watched, interfaces, removed, modified, added).watched.contains(index) <==> if (
        modified.contains(index) || added.contains(index)) && interfaces.dom().contains(index) {
            interfaces[index].watchable()
        } else {
            watched.contains(index) && !removed.contains(index)
        },
{
    let first = Plan { interfaces, watched, commands: Seq::empty() };
    let stopped = first.stop_all(removed);
    lemma_stop_all_watched(first, removed, index);
    lemma_renew_all_watched(stopped, modified, index);
    lemma_renew_all_watched(stopped.renew_all(modified), added, index);
}

/// The order in which changes are listed does not matter for which interfaces
/// are watched, if every interface stands under its own index.
pub proof fn law_order_of_changes_is_free(
    watched: Set<u32>,
    interfaces: Map<u32, Interface>,
    removed: Seq<u32>,
    modified: Seq<u32>,
    added: Seq<u32>,
    removed2: Seq<u32>,
    modified2: Seq<u32>,
    added2: Seq<u32>,
)
    requires
        under_own_index(interfaces),
        removed.to_set() == removed2.to_set(),
        modified.to_set() == modified2.to_set(),
        added.to_set() == added2.to_set(),
    ensures
        plan(watched, interfaces, removed, modified, added).watched == plan(
            watched,
            interfaces,
            removed2,
            modified2,
            added2,
        ).watched,
{
    let one = plan(watched, interfaces, removed, modified, added).watched;
    let two = plan(watched, interfaces, removed2, modified2, added2).watched;
    assert forall|index: u32| one.contains(index) <==> two.contains(index) by {
        law_watched_after_update(watched, interfaces, removed, modified, added, index);
        law_watched_after_update(watched, interfaces, removed2, modified2, added2, index);
        assert(removed.contains(index) <==> removed.to_set().contains(index));
        assert(removed2.contains(index) <==> removed2.to_set().contains(index));
        assert(modified.contains(index) <==> modified.to_set().contains(index));
        assert(modified2.contains(index) <==> modified2.to_set().contains(index));
        assert(added.contains(index) <==> added.to_set().contains(index));
        assert(added2.contains(index) <==> added2.to_set().contains(index));
    }
    assert(one =~= two);
}

/// The command starts a scout on one of the interfaces, under its index and its
/// name, and the interface can be watched.
pub open spec fn starts_on(interfaces: Map<u32, Interface>, command: WatchCommand) -> bool {
    command matches WatchCommand::Spawn { index, name } && exists|key: u32|
        #[trigger] interfaces.dom().contains(key) && interfaces[key].watchable()
            && interfaces[key].index == index && interfaces[key].name == name
}

/// The interfaces that are left are among the given ones, and every scout that
/// is started is started on one of the given ones.
spec fn starts_soundly(interfaces: Map<u32, Interface>, plan: Plan) -> bool {
    &&& forall|key: u32| #[trigger]
        plan.interfaces.dom().contains(key) ==> interfaces.dom().contains(key)
            && plan.interfaces[key] == interfaces[key]
    &&& forall|i: int|
        0 <= i < plan.commands.len() && (#[trigger] plan.commands[i]) is Spawn ==> starts_on(
            interfaces,
            plan.commands[i],
        )
}

proof fn lemma_stop_all_starts_soundly(
    interfaces: Map<u32, Interface>,
    plan: Plan,
    indices: Seq<u32>,
)
    requires
        starts_soundly(interfaces, plan),
    ensures
        starts_soundly(interfaces, plan.stop_all(indices)),
    decreases indices.len(),
{
    if indices.len() > 0 {
        lemma_stop_all_starts_soundly(interfaces, plan, indices.drop_last());
    }
}

proof fn lemma_renew_all_starts_soundly(interfaces: Map<u32, Interface>, plan: Plan, keys: Seq<u32>)
    requires
        starts_soundly(interfaces, plan),
    ensures
        starts_soundly(interfaces, plan.renew_all(keys)),
    decreases keys.len(),
{
    if keys.len() > 0 {
        lemma_renew_all_starts_soundly(interfaces, plan, keys.drop_last());
        let before = plan.renew_all(keys.drop_last());
        let key = keys.last();
        if before.interfaces.dom().contains(key) {
            let interface = before.interfaces[key];
            assert(interfaces.dom().contains(key) && interfaces[key] == interface);
            let looked = Plan { interfaces: before.interfaces.remove(key), ..before };
            let stopped = looked.stop(interface.index);
            assert(starts_soundly(interfaces, stopped));
            if interface.watchable() {
                assert(starts_on(
                    interfaces,
                    WatchCommand::Spawn { index: interface.index, name: interface.name },
                ));
            }
        }
    }
}

/// A scout is started only on an interface of the update that can be watched, and
/// under the index and the name that the interface has.
pub proof fn law_starts_only_on_watchable(
    watched: Set<u32>,
    interfaces: Map<u32, Interface>,
    removed: Seq<u32>,
    modified: Seq<u32>,
    added: Seq<u32>,
    i: int,
)
    requires
        0 <= i < plan(watched, interfaces, removed, modified, added).commands.len(),
        plan(watched, interfaces, removed, modified, added).commands[i] is Spawn,
    ensures
        starts_on(interfaces, plan(watched, interfaces, removed, modified, added).commands[i]),
{
    let first = Plan { interfaces, watched, commands: Seq::empty() };
    lemma_stop_all_starts_soundly(interfaces, first, removed);
    lemma_renew_all_starts_soundly(interfaces, first.stop_all(removed), modified);
    lemma_renew_all_starts_soundly(
        interfaces,
        first.stop_all(removed).renew_all(modified),
        added,
    );
}

/// An address is usable exactly if it is an IPv6 address below `ff00::`, where
/// multicast begins, and not `::1`.
pub proof fn law_usable_addresses(record: IpRecord)
    ensures
        record.valid_v6() <==> match record.ip {
            IpAddr::V6(v6) => v6.bits != 1 && v6.bits
                < 0xff00_0000_0000_0000_0000_0000_0000_0000,
            IpAddr::V4(_) => false,
        },
{
    crate::addr::law_loopback(record.ip);
    crate::addr::law_multicast(record.ip);
}

/// An interface can be watched exactly if one of its addresses is usable, whichever
/// and however many the others are.
pub proof fn law_one_usable_address_is_enough(interface: Interface)
    ensures
        interface.watchable() <==> exists|i: int|
            0 <= i < interface.ips@.len() && match (#[trigger] interface.ips@[i]).ip {
                IpAddr::V6(v6) => v6.bits != 1 && v6.bits
                    < 0xff00_0000_0000_0000_0000_0000_0000_0000,
                IpAddr::V4(_) => false,
            },
{
    assert forall|i: int| 0 <= i < interface.ips@.len() implies (
    #[trigger] interface.ips@[i]).valid_v6() == match interface.ips@[i].ip {
        IpAddr::V6(v6) => v6.bits != 1 && v6.bits < 0xff00_0000_0000_0000_0000_0000_0000_0000,
        IpAddr::V4(_) => false,
    } by {
        law_usable_addresses(interface.ips@[i]);
    }
}

/// Which exits end the watch, and with what: that a scout failed, and that one
/// panicked, with what it failed or panicked with.
pub proof fn law_faults<E, P>(e: E, p: P)
    ensures
        ScoutExit::<E, P>::Failed(e).fault() == Some(ScoutFault::<E, P>::Failed(e)),
        ScoutExit::<E, P>::Panicked(p).fault() == Some(ScoutFault::<E, P>::Panicked(p)),
        ScoutExit::<E, P>::Finished.fault() is None,
        ScoutExit::<E, P>::Aborted.fault() is None,
{
}

/// The command concerns the interface with this index.
pub open spec fn concerns(command: WatchCommand, index: u32) -> bool {
    match command {
        WatchCommand::Abort(i) => i == index,
        WatchCommand::Spawn { index: i, .. } => i == index,
    }
}

/// The commands that concern the interface with this index, in their order.
pub open spec fn concerning(commands: Seq<WatchCommand>, index: u32) -> Seq<WatchCommand> {
    commands.filter(|command: WatchCommand| concerns(command, index))
}

proof fn lemma_concerning_push(commands: Seq<WatchCommand>, command: WatchCommand, index: u32)
    ensures
        concerning(commands.push(command), index) == if concerns(command, index) {
            concerning(commands, index).push(command)
        } else {
            concerning(commands, index)
        },
{
    reveal(Seq::filter);
    assert(commands.push(command).drop_last() =~= commands);
}

/// What a stop adds to the commands that concern an interface.
spec fn stopping(stopped: bool, index: u32) -> Seq<WatchCommand> {
    if stopped {
        seq![WatchCommand::Abort(index)]
    } else {
        Seq::empty()
    }
}

/// What a start adds to the commands that concern an interface.
spec fn starting(started: bool, interface: Interface, index: u32) -> Seq<WatchCommand> {
    if started {
        seq![WatchCommand::Spawn { index, name: interface.name }]
    } else {
        Seq::empty()
    }
}

proof fn lemma_stop_all_concerning(plan: Plan, indices: Seq<u32>, index: u32)
    ensures
        concerning(plan.stop_all(indices).commands, index) == concerning(plan.commands, index)
            + stopping(plan.watched.contains(index) && indices.contains(index), index),
    decreases indices.len(),
{
    if indices.len() == 0 {
        assert(concerning(plan.commands, index) =~= concerning(plan.commands, index) + stopping(
            false,
            index,
        ));
    } else {
        let rest = indices.drop_last();
        let before = plan.stop_all(rest);
        lemma_stop_all_concerning(plan, rest, index);
        lemma_stop_all_watched(plan, rest, index);
        lemma_contains_last(indices, index);
        lemma_concerning_push(before.commands, WatchCommand::Abort(indices.last()), index);
        assert(concerning(plan.stop_all(indices).commands, index) =~= concerning(
            plan.commands,
            index,
        ) + stopping(plan.watched.contains(index) && indices.contains(index), index));
    }
}

proof fn lemma_renew_all_concerning(plan: Plan, keys: Seq<u32>, index: u32)
    requires
        under_own_index(plan.interfaces),
    ensures
        concerning(plan.renew_all(keys).commands, index) == concerning(plan.commands, index) + (
        if keys.contains(index) && plan.interfaces.dom().contains(index) {
            stopping(plan.watched.contains(index), index) + starting(
                plan.interfaces[index].watchable(),
                plan.interfaces[index],
                index,
            )
        } else {
            Seq::empty()
        }),
    decreases keys.len(),
{
    let old_commands = concerning(plan.commands, index);
    if keys.len() == 0 {
        assert(old_commands =~= old_commands + Seq::<WatchCommand>::empty());
    } else {
        let rest = keys.drop_last();
        let key = keys.last();
        let before = plan.renew_all(rest);
        lemma_renew_all_concerning(plan, rest, index);
        lemma_renew_all_watched(plan, rest, index);
        lemma_renew_all_watched(plan, rest, key);
        lemma_contains_last(keys, index);
        if before.interfaces.dom().contains(key) {
            let interface = before.interfaces[key];
            assert(interface.index == key);
            let looked = Plan { interfaces: before.interfaces.remove(key), ..before };
            let stopped = looked.stop(key);
            let abort = WatchCommand::Abort(key);
            let spawn = WatchCommand::Spawn { index: key, name: interface.name };
            lemma_concerning_push(looked.commands, abort, index);
            lemma_concerning_push(stopped.commands, spawn, index);
            if key == index {
                assert(concerning(before.commands, index) =~= old_commands);
                assert(concerning(plan.renew_all(keys).commands, index) =~= old_commands + (
                stopping(plan.watched.contains(index), index) + starting(
                    interface.watchable(),
                    interface,
                    index,
                )));
            }
        }
    }
}

/// What an update commands of one interface, if every interface stands under its own
/// index. Its scout is stopped exactly if it has one and the interface is gone, has
/// changed or is new; and behind that, one scout is started, under the index and the
/// name that the interface has now, exactly if it has changed or is new and can be
/// watched. So an interface that has changed never keeps its scout, whatever of it
/// has changed, and one that has not keeps it.
pub proof fn law_commands_for_an_interface(
    watched: Set<u32>,
    interfaces: Map<u32, Interface>,
    removed: Seq<u32>,
    modified: Seq<u32>,
    added: Seq<u32>,
    index: u32,
)
    requires
        forall|key: u32| #[trigger]
            interfaces.dom().contains(key) ==> interfaces[key].index == key,
    ensures
        ({
            let changed = (modified.contains(index) || added.contains(index))
                && interfaces.dom().contains(index);
            let aborts = if watched.contains(index) && (removed.contains(index) || changed) {
                seq![WatchCommand::Abort(index)]
            } else {
                Seq::empty()
            };
            let spawns = if changed && interfaces[index].watchable() {
                seq![WatchCommand::Spawn { index, name: interfaces[index].name }]
            } else {
                Seq::empty()
            };
            plan(watched, interfaces, removed, modified, added).commands.filter(
                |command: WatchCommand|
                    match command {
                        WatchCommand::Abort(i) => i == index,
                        WatchCommand::Spawn { index: i, .. } => i == index,
                    },
            ) == aborts + spawns
        }),
{
    let first = Plan { interfaces, watched, commands: Seq::empty() };
    let stopped = first.stop_all(removed);
    let renewed = stopped.renew_all(modified);
    assert(concerning(first.commands, index) =~= Seq::empty()) by {
        reveal(Seq::filter);
    }
    lemma_stop_all_concerning(first, removed, index);
    lemma_stop_all_watched(first, removed, index);
    lemma_renew_all_concerning(stopped, modified, index);
    lemma_renew_all_watched(stopped, modified, index);
    lemma_renew_all_concerning(renewed, added, index);
    let changed = (modified.contains(index) || added.contains(index)) && interfaces.dom().contains(
        index,
    );
    let aborts = if watched.contains(index) && (removed.contains(index) || changed) {
        seq![WatchCommand::Abort(index)]
    } else {
        Seq::empty()
    };
    let spawns = if changed && interfaces[index].watchable() {
        seq![WatchCommand::Spawn { index, name: interfaces[index].name }]
    } else {
        Seq::empty()
    };
    let commands = plan(watched, interfaces, removed, modified, added).commands;
    assert(concerning(commands, index) =~= aborts + spawns);
    assert((|command: WatchCommand| concerns(command, index)) =~= (|command: WatchCommand|
        match command {
            WatchCommand::Abort(i) => i == index,
            WatchCommand::Spawn { index: i, .. } => i == index,
        }));
}

/// The commands that two updates add: nothing has changed, nothing is commanded;
/// and one more interface at the end of a list adds its commands at the end. So
/// commands come in the order of the lists, those for what is gone first, then those
/// for what has changed, then those for what is new.
pub proof fn law_commands_come_in_order(
    watched: Set<u32>,
    interfaces: Map<u32, Interface>,
    removed: Seq<u32>,
    modified: Seq<u32>,
    added: Seq<u32>,
    index: u32,
)
    requires
        forall|key: u32| #[trigger]
            interfaces.dom().contains(key) ==> interfaces[key].index == key,
    ensures
        plan(watched, interfaces, Seq::empty(), Seq::empty(), Seq::empty()).commands
            == Seq::<WatchCommand>::empty(),
        plan(watched, interfaces, removed.push(index), Seq::empty(), Seq::empty()).commands
            == plan(watched, interfaces, removed, Seq::empty(), Seq::empty()).commands + (
        if watched.contains(index) && !removed.contains(index) {
            seq![WatchCommand::Abort(index)]
        } else {
            Seq::empty()
        }),
        plan(watched, interfaces, removed, modified.push(index), Seq::empty()).commands == plan(
            watched,
            interfaces,
            removed,
            modified,
            Seq::empty(),
        ).commands + (if interfaces.dom().contains(index) && !modified.contains(index) {
            (if watched.contains(index) && !removed.contains(index) {
                seq![WatchCommand::Abort(index)]
            } else {
                Seq::empty()
            }) + (if interfaces[index].watchable() {
                seq![WatchCommand::Spawn { index, name: interfaces[index].name }]
            } else {
                Seq::empty()
            })
        } else {
            Seq::empty()
        }),
        plan(watched, interfaces, removed, modified, added.push(index)).commands == plan(
            watched,
            interfaces,
            removed,
            modified,
            added,
        ).commands + (if interfaces.dom().contains(index) && !modified.contains(index)
            && !added.contains(index) {
            (if watched.contains(index) && !removed.contains(index) {
                seq![WatchCommand::Abort(index)]
            } else {
                Seq::empty()
            }) + (if interfaces[index].watchable() {
                seq![WatchCommand::Spawn { index, name: interfaces[index].name }]
            } else {
                Seq::empty()
            })
        } else {
            Seq::empty()
        }),
{
    let first = Plan { interfaces, watched, commands: Seq::empty() };
    let stopped = first.stop_all(removed);
    let renewed = stopped.renew_all(modified);
    let finished = renewed.renew_all(added);
    assert(removed.push(index).drop_last() =~= removed);
    assert(modified.push(index).drop_last() =~= modified);
    assert(added.push(index).drop_last() =~= added);
    lemma_stop_all_watched(first, removed, index);
    lemma_renew_all_watched(stopped, modified, index);
    lemma_renew_all_watched(renewed, added, index);
    lemma_renew_adds(stopped, modified, index);
    lemma_renew_adds(renewed, added, index);
    assert(plan(watched, interfaces, removed, Seq::empty(), Seq::empty()).commands
        == stopped.commands);
    assert(stopped.stop(index).commands =~= stopped.commands + (if stopped.watched.contains(
        index,
    ) {
        seq![WatchCommand::Abort(index)]
    } else {
        Seq::empty()
    }));
}

/// What one more interface adds to the commands.
proof fn lemma_renew_adds(plan: Plan, keys: Seq<u32>, index: u32)
    requires
        under_own_index(plan.interfaces),
    ensures
        plan.renew_all(keys.push(index)).commands == plan.renew_all(keys).commands + (
        if plan.interfaces.dom().contains(index) && !keys.contains(index) {
            stopping(plan.watched.contains(index), index) + starting(
                plan.interfaces[index].watchable(),
                plan.interfaces[index],
                index,
            )
        } else {
            Seq::empty()
        }),
{
    lemma_renew_all_watched(plan, keys, index);
    assert(keys.push(index).drop_last() =~= keys);
    let before = plan.renew_all(keys);
    let after = plan.renew_all(keys.push(index));
    assert(after == before.renew(index));
    if before.interfaces.dom().contains(index) {
        assert(after.commands =~= before.commands + (stopping(plan.watched.contains(index), index)
            + starting(plan.interfaces[index].watchable(), plan.interfaces[index], index)));
    } else {
        assert(after.commands =~= before.commands + Seq::<WatchCommand>::empty());
    }
}

/// What looking at an interface comes to, wherever it stands: the interface is looked
/// at once; its scout is stopped if it has one; and then one is started under its
/// index and its name, if it can be watched.
spec fn looks_at(before: Plan, key: u32, after: Plan) -> bool {
    if before.interfaces.dom().contains(key) {
        let interface = before.interfaces[key];
        let index = interface.index;
        &&& after.interfaces == before.interfaces.remove(key)
        &&& after.commands == before.commands + (if before.watched.contains(index) {
            seq![WatchCommand::Abort(index)]
        } else {
            Seq::empty()
        }) + (if interface.watchable() {
            seq![WatchCommand::Spawn { index, name: interface.name }]
        } else {
            Seq::empty()
        })
        &&& forall|i: u32| #[trigger]
            after.watched.contains(i) <==> if i == index {
                interface.watchable()
            } else {
                before.watched.contains(i)
            }
    } else {
        after == before
    }
}

proof fn lemma_renew_looks_at(before: Plan, key: u32)
    ensures
        looks_at(before, key, before.renew(key)),
{
    if before.interfaces.dom().contains(key) {
        let interface = before.interfaces[key];
        let after = before.renew(key);
        assert(after.commands =~= before.commands + (if before.watched.contains(
            interface.index,
        ) {
            seq![WatchCommand::Abort(interface.index)]
        } else {
            Seq::empty()
        }) + (if interface.watchable() {
            seq![WatchCommand::Spawn { index: interface.index, name: interface.name }]
        } else {
            Seq::empty()
        }));
    }
}

/// What one more new interface comes to, under whatever key it stands: its scout, if it
/// has one, is stopped, and then one is started under its own index and its name if it
/// can be watched; and it is not looked at again.
pub proof fn law_one_more_new_interface(
    watched: Set<u32>,
    interfaces: Map<u32, Interface>,
    removed: Seq<u32>,
    modified: Seq<u32>,
    added: Seq<u32>,
    key: u32,
)
    requires
        plan(watched, interfaces, removed, modified, added).interfaces.dom().contains(key),
    ensures
        ({
            let before = plan(watched, interfaces, removed, modified, added);
            let after = plan(watched, interfaces, removed, modified, added.push(key));
            let interface = before.interfaces[key];
            let index = interface.index;
            &&& after.interfaces == before.interfaces.remove(key)
            &&& after.commands == before.commands + (if before.watched.contains(index) {
                seq![WatchCommand::Abort(index)]
            } else {
                Seq::empty()
            }) + (if interface.watchable() {
                seq![WatchCommand::Spawn { index, name: interface.name }]
            } else {
                Seq::empty()
            })
            &&& forall|i: u32| #[trigger]
                after.watched.contains(i) <==> if i == index {
                    interface.watchable()
                } else {
                    before.watched.contains(i)
                }
        }),
{
    assert(added.push(key).drop_last() =~= added);
    lemma_renew_looks_at(plan(watched, interfaces, removed, modified, added), key);
}

} // verus!
