//! The adapter that packets are read from, and the loop that reads them.
use vstd::prelude::*;
use crate::router::flow::live_flows;
use crate::router::packet::ProxyDirection;
use crate::router::{RouterError, SocksLocalRouter};
use crate::text;

verus! {

/// How many packets are read at a time.
pub const PACKET_NUMBER: usize = 510;

/// How many batches of packets go by between two cleanups.
pub const CLEANUP_INTERVAL: u32 = 20;

/// How long to wait for a missing adapter, in milliseconds.
pub const RETRY_MILLIS: u64 = 200;

/// What happened to the packet loop.
#[derive(Clone, Copy, Debug, PartialEq, Eq, Structural)]
pub enum LoopEvent {
    /// It begins, or has waited for a missing adapter.
    Begin,
    /// The adapter is not there.
    AdapterMissing,
    /// The adapter was opened, and shows its packets.
    AdapterOpened,
    /// Reading failed.
    ReadFailed,
    /// This many packets were read.
    Read(usize),
    /// The packets that were read have been sent on.
    BatchSent,
    /// The adapter no longer shows its packets.
    ModeReset,
}

/// What the packet loop does next.
#[derive(Clone, Copy, Debug, PartialEq, Eq, Structural)]
pub enum LoopAction {
    /// Open the router's adapter.
    Open,
    /// Wait this many milliseconds.
    Sleep(u64),
    /// Read packets.
    Read,
    /// Process this many packets and send them on.
    Handle(usize),
    /// Let the adapter no longer show its packets.
    ResetMode,
    /// End.
    Exit,
}

/// The counter of the packet loop: batches since the last cleanup.
#[derive(Clone, Copy, Debug, PartialEq, Eq, Structural)]
pub struct PacketLoop {
    pub cleanup_counter: u32,
}

impl PacketLoop {
    /// A loop that has not begun.
    pub fn new() -> (r: Self)
        ensures
            r.cleanup_counter == 0,
    {
        PacketLoop { cleanup_counter: 0 }
    }
}

/// The loop goes on reading unless the router is shut down or to be started over.
pub open spec fn poll_action(shutdown: bool, restart: bool) -> LoopAction {
    if shutdown || restart {
        LoopAction::ResetMode
    } else {
        LoopAction::Read
    }
}

/// The loop looks at the router's flags after this event.
pub open spec fn polls(event: LoopEvent) -> bool {
    event is AdapterOpened || event is ReadFailed || event is BatchSent || event
        == LoopEvent::Read(0)
}

/// What the loop does after an event.
pub open spec fn loop_action(shutdown: bool, restart: bool, event: LoopEvent) -> LoopAction {
    if polls(event) {
        poll_action(shutdown, restart)
    } else {
        match event {
            LoopEvent::Begin => LoopAction::Open,
            LoopEvent::AdapterMissing => if shutdown {
                LoopAction::Exit
            } else {
                LoopAction::Sleep(RETRY_MILLIS)
            },
            LoopEvent::Read(n) => LoopAction::Handle(n),
            LoopEvent::ModeReset => if shutdown {
                LoopAction::Exit
            } else {
                LoopAction::Open
            },
            _ => LoopAction::Exit,
        }
    }
}

/// The batches since the last cleanup, after an event.
pub open spec fn counter_after(counter: u32, event: LoopEvent) -> u32 {
    match event {
        LoopEvent::AdapterOpened => 0,
        LoopEvent::BatchSent => if counter + 1 >= CLEANUP_INTERVAL {
            0
        } else {
            (counter + 1) as u32
        },
        _ => counter,
    }
}

/// This event brings a cleanup.
pub open spec fn cleans_up(counter: u32, event: LoopEvent) -> bool {
    event is BatchSent && counter + 1 >= CLEANUP_INTERVAL
}

/// Whether the router is still to be started over after an event: a request is answered when the
/// loop looks at it, unless the router is shut down.
pub open spec fn restart_after(shutdown: bool, restart: bool, event: LoopEvent) -> bool {
    restart && (shutdown || !polls(event))
}

/// A packet of this direction goes out through the adapter rather than up to the machine
/// itself. A redirected packet turns round.
pub open spec fn goes_to_adapter(redirected: bool, is_send: bool) -> bool {
    redirected != is_send
}

/// `n` more octets on a counter that starts over at its end.
pub open spec fn counted(counter: u64, n: u32) -> u64 {
    ((counter + n) % 0x1_0000_0000_0000_0000) as u64
}

/// The counter of one direction after a packet of `length` octets that goes in `direction`, if it
/// is redirected.
pub open spec fn counted_one_way(
    counter: u64,
    way: ProxyDirection,
    direction: Option<ProxyDirection>,
    length: u32,
) -> u64 {
    if direction == Some(way) {
        counted(counter, length)
    } else {
        counter
    }
}

/// The places in `routing` that say `wanted`, in order.
pub open spec fn places(routing: Seq<bool>, wanted: bool) -> Seq<usize>
    decreases routing.len(),
{
    if routing.len() == 0 {
        Seq::empty()
    } else if routing.last() == wanted {
        places(routing.drop_last(), wanted).push((routing.len() - 1) as usize)
    } else {
        places(routing.drop_last(), wanted)
    }
}

/// Splits a batch: the places of the packets for the adapter, and of those for the machine
/// itself, each in the order in which they were read.
pub fn split_batch(routing: &Vec<bool>) -> (r: (Vec<usize>, Vec<usize>))
    ensures
        r.0@ == places(routing@, true),
        r.1@ == places(routing@, false),
{
    let mut to_adapter: Vec<usize> = Vec::new();
    let mut to_mstcp: Vec<usize> = Vec::new();
    let mut i: usize = 0;
    assert(routing@.take(0) =~= Seq::<bool>::empty());
    while i < routing.len()
        invariant
            i <= routing@.len(),
            to_adapter@ == places(routing@.take(i as int), true),
            to_mstcp@ == places(routing@.take(i as int), false),
        decreases routing@.len() - i,
    {
        assert(routing@.take(i + 1).drop_last() =~= routing@.take(i as int));
        if routing[i] {
            to_adapter.push(i);
        } else {
            to_mstcp.push(i);
        }
        i += 1;
    }
    assert(routing@.take(i as int) =~= routing@);
    (to_adapter, to_mstcp)
}

impl SocksLocalRouter {
    /// Takes what happened to the packet loop, and tells what it does next. After every
    /// twentieth batch the stale UDP flows are dropped.
    pub fn packet_loop_step(&mut self, state: &mut PacketLoop, event: LoopEvent, now: u64) -> (r:
        LoopAction)
        requires
            old(self).wf(),
            old(state).cleanup_counter < CLEANUP_INTERVAL,
        ensures
            final(self).wf(),
            final(state).cleanup_counter < CLEANUP_INTERVAL,
            r == loop_action(old(self).shutdown, old(self).restart, event),
            final(state).cleanup_counter == counter_after(old(state).cleanup_counter, event),
            *final(self) == (SocksLocalRouter {
                restart: final(self).restart,
                udp_endpoints: final(self).udp_endpoints,
                ..*old(self)
            }),
            final(self).restart == (old(self).restart && (!polls(event) || old(self).shutdown)),
            final(self).restart == restart_after(old(self).shutdown, old(self).restart, event),
            final(self).udp_endpoints.by_flow@ == if cleans_up(
                old(state).cleanup_counter,
                event,
            ) {
                live_flows(old(self).udp_endpoints.by_flow@, now)
            } else {
                old(self).udp_endpoints.by_flow@
            },
    {
        match event {
            LoopEvent::Begin => LoopAction::Open,
            LoopEvent::AdapterMissing => if self.shutdown {
                LoopAction::Exit
            } else {
                LoopAction::Sleep(RETRY_MILLIS)
            },
            LoopEvent::AdapterOpened => {
                state.cleanup_counter = 0;
                self.poll()
            },
            LoopEvent::ReadFailed => self.poll(),
            LoopEvent::Read(n) => if n == 0 {
                self.poll()
            } else {
                LoopAction::Handle(n)
            },
            LoopEvent::BatchSent => {
                let count: u32 = state.cleanup_counter + 1;
                if count >= CLEANUP_INTERVAL {
                    state.cleanup_counter = 0;
                    self.cleanup_stale_udp_endpoints(now);
                } else {
                    state.cleanup_counter = count;
                }
                self.poll()
            },
            LoopEvent::ModeReset => if self.shutdown {
                LoopAction::Exit
            } else {
                LoopAction::Open
            },
        }
    }

    /// Looks at the flags of the router. A restart that is noticed is no longer due.
    fn poll(&mut self) -> (r: LoopAction)
        requires
            old(self).wf(),
        ensures
            final(self).wf(),
            r == poll_action(old(self).shutdown, old(self).restart),
            *final(self) == (SocksLocalRouter {
                restart: old(self).restart && old(self).shutdown,
                ..*old(self)
            }),
    {
        if self.shutdown {
            return LoopAction::ResetMode;
        }
        if self.restart {
            self.restart = false;
            return LoopAction::ResetMode;
        }
        LoopAction::Read
    }

    /// Counts a packet of `length` octets that was redirected or not, and tells whether it goes
    /// out through the adapter.
    pub fn route_packet(
        &mut self,
        direction: Option<ProxyDirection>,
        is_send: bool,
        length: u32,
    ) -> (r: bool)
        ensures
            old(self).wf() ==> final(self).wf(),
            r == goes_to_adapter(direction is Some, is_send),
            *final(self) == (SocksLocalRouter {
                bytes_sent: if direction == Some(ProxyDirection::ToProxy) {
                    counted(old(self).bytes_sent, length)
                } else {
                    old(self).bytes_sent
                },
                bytes_received: if direction == Some(ProxyDirection::FromProxy) {
                    counted(old(self).bytes_received, length)
                } else {
                    old(self).bytes_received
                },
                ..*old(self)
            }),
            final(self).bytes_sent == counted_one_way(
                old(self).bytes_sent,
                ProxyDirection::ToProxy,
                direction,
                length,
            ),
            final(self).bytes_received == counted_one_way(
                old(self).bytes_received,
                ProxyDirection::FromProxy,
                direction,
                length,
            ),
    {
        match direction {
            Some(ProxyDirection::ToProxy) => {
                self.bytes_sent = self.bytes_sent.wrapping_add(length as u64);
                !is_send
            },
            Some(ProxyDirection::FromProxy) => {
                self.bytes_received = self.bytes_received.wrapping_add(length as u64);
                !is_send
            },
            None => is_send,
        }
    }
}

/// What is known of an adapter that the driver lists.
#[derive(Debug, PartialEq, Eq)]
pub struct AdapterInfo {
    pub name: String,
    pub hw_address: Vec<u8>,
}

/// A network interface of the machine: its hardware address and its number.
#[derive(Clone, Copy, Debug, PartialEq, Eq)]
pub struct InterfaceInfo {
    pub mac: [u8; 6],
    pub if_index: u32,
}

/// The adapter has the hardware address `mac` as its first six octets.
pub open spec fn has_mac(hw_address: Seq<u8>, mac: [u8; 6]) -> bool {
    hw_address.len() >= 6 && hw_address.take(6) == mac@
}

/// Interface `k` is the one that counts for a hardware address: the last one that has it.
pub open spec fn interface_of(
    interfaces: Seq<InterfaceInfo>,
    hw_address: Seq<u8>,
    k: int,
) -> bool {
    &&& 0 <= k < interfaces.len()
    &&& has_mac(hw_address, interfaces[k].mac)
    &&& forall|j: int| k < j < interfaces.len() ==> !has_mac(hw_address, (#[trigger] interfaces[j]).mac)
}

/// The interface with this hardware address has number `index`.
pub open spec fn is_interface(
    interfaces: Seq<InterfaceInfo>,
    hw_address: Seq<u8>,
    index: u32,
) -> bool {
    exists|k: int| #[trigger]
        interface_of(interfaces, hw_address, k) && interfaces[k].if_index == index
}

/// Adapter `i` is the first whose interface has number `index`.
pub open spec fn first_on_interface(
    adapters: Seq<AdapterInfo>,
    interfaces: Seq<InterfaceInfo>,
    index: u32,
    i: int,
) -> bool {
    &&& 0 <= i < adapters.len()
    &&& is_interface(interfaces, adapters[i].hw_address@, index)
    &&& forall|j: int|
        0 <= j < i ==> !is_interface(interfaces, (#[trigger] adapters[j]).hw_address@, index)
}

/// Adapter `i` is the best one: the first on the interface with the best route if there is
/// one, else the first of all.
pub open spec fn is_best_adapter(
    adapters: Seq<AdapterInfo>,
    interfaces: Seq<InterfaceInfo>,
    best_index: Option<u32>,
    i: int,
) -> bool {
    let known = |index: u32|
        exists|k: int| first_on_interface(adapters, interfaces, index, k);
    match best_index {
        Some(index) if known(index) => first_on_interface(adapters, interfaces, index, i),
        _ => i == 0,
    }
}

fn check_mac(hw_address: &Vec<u8>, mac: &[u8; 6]) -> (r: bool)
    ensures
        r == has_mac(hw_address@, *mac),
{
    if hw_address.len() < 6 {
        return false;
    }
    let mut i: usize = 0;
    while i < 6
        invariant
            i <= 6,
            hw_address@.len() >= 6,
            forall|k: int| 0 <= k < i ==> hw_address@[k] == mac@[k],
        decreases 6 - i,
    {
        if hw_address[i] != mac[i] {
            assert(hw_address@.take(6)[i as int] != mac@[i as int]);
            return false;
        }
        i += 1;
    }
    assert(hw_address@.take(6) =~= mac@);
    true
}

fn on_interface(interfaces: &Vec<InterfaceInfo>, hw_address: &Vec<u8>, index: u32) -> (r: bool)
    ensures
        r == is_interface(interfaces@, hw_address@, index),
{
    let mut k: usize = interfaces.len();
    while k > 0
        invariant
            k <= interfaces@.len(),
            forall|j: int|
                k <= j < interfaces@.len() ==> !has_mac(
                    hw_address@,
                    (#[trigger] interfaces@[j]).mac,
                ),
        decreases k,
    {
        k -= 1;
        if check_mac(hw_address, &interfaces[k].mac) {
            assert(interface_of(interfaces@, hw_address@, k as int));
            assert forall|o: int| interface_of(interfaces@, hw_address@, o) implies o == k by {
                if o < k {
                    assert(!has_mac(hw_address@, interfaces@[k as int].mac));
                }
            }
            return interfaces[k].if_index == index;
        }
    }
    false
}

/// Picks the adapter to read packets from, and gives its name.
pub fn select_best_adapter_name(
    adapters: &Vec<AdapterInfo>,
    best_index: Option<u32>,
    interfaces: &Vec<InterfaceInfo>,
) -> (r: Result<String, RouterError>)
    ensures
        match r {
            Ok(name) => exists|i: int|
                0 <= i < adapters@.len() && #[trigger] is_best_adapter(
                    adapters@,
                    interfaces@,
                    best_index,
                    i,
                ) && name@ == adapters@[i].name@,
            Err(e) => adapters@.len() == 0 && e == RouterError::NoAdapters,
        },
        r is Ok <==> adapters@.len() > 0,
{
    if adapters.len() == 0 {
        return Err(RouterError::NoAdapters);
    }
    if let Some(index) = best_index {
        let mut i: usize = 0;
        while i < adapters.len()
            invariant
                i <= adapters@.len(),
                best_index == Some(index),
                forall|j: int|
                    0 <= j < i ==> !is_interface(
                        interfaces@,
                        (#[trigger] adapters@[j]).hw_address@,
                        index,
                    ),
            decreases adapters@.len() - i,
        {
            if on_interface(interfaces, &adapters[i].hw_address, index) {
                assert(first_on_interface(adapters@, interfaces@, index, i as int));
                assert(is_best_adapter(adapters@, interfaces@, best_index, i as int));
                return Ok(adapters[i].name.clone());
            }
            i += 1;
        }
        assert(!exists|k: int| first_on_interface(adapters@, interfaces@, index, k));
    }
    assert(is_best_adapter(adapters@, interfaces@, best_index, 0));
    Ok(adapters[0].name.clone())
}

/// An adapter that the driver lists, and the number by which the driver knows it.
#[derive(Debug, PartialEq, Eq)]
pub struct AdapterHandle {
    pub name: String,
    pub handle: u64,
}

/// Adapter `i` is the first of that name.
pub open spec fn first_named(adapters: Seq<AdapterHandle>, name: Seq<char>, i: int) -> bool {
    &&& 0 <= i < adapters.len()
    &&& adapters[i].name@ == name
    &&& forall|j: int| 0 <= j < i ==> (#[trigger] adapters[j]).name@ != name
}

/// The number by which the driver knows the adapter of that name.
pub open spec fn handle_of(adapters: Seq<AdapterHandle>, name: Seq<char>) -> Option<u64> {
    if exists|i: int| first_named(adapters, name, i) {
        Some(adapters[choose|i: int| first_named(adapters, name, i)].handle)
    } else {
        None
    }
}

/// Finds the adapter of that name.
pub fn find_adapter_handle(adapters: &Vec<AdapterHandle>, adapter_name: &str) -> (r: Result<
    u64,
    RouterError,
>)
    ensures
        match r {
            Ok(handle) => exists|i: int| #[trigger]
                first_named(adapters@, adapter_name@, i) && handle == adapters@[i].handle,
            Err(e) => (e matches RouterError::AdapterNotFound(n) && n@ == adapter_name@)
                && forall|i: int|
                0 <= i < adapters@.len() ==> (#[trigger] adapters@[i]).name@ != adapter_name@,
        },
        handle_of(adapters@, adapter_name@) == match r {
            Ok(handle) => Some(handle),
            Err(_) => None,
        },
{
    let mut i: usize = 0;
    while i < adapters.len()
        invariant
            i <= adapters@.len(),
            forall|j: int| 0 <= j < i ==> (#[trigger] adapters@[j]).name@ != adapter_name@,
        decreases adapters@.len() - i,
    {
        if text::same_text(adapters[i].name.as_str(), adapter_name) {
            proof {
                assert(first_named(adapters@, adapter_name@, i as int));
                let k = choose|k: int| first_named(adapters@, adapter_name@, k);
                assert(first_named(adapters@, adapter_name@, k));
                assert(k == i) by {
                    if k < i {
                        assert(adapters@[k].name@ != adapter_name@);
                    }
                    if i < k {
                        assert(adapters@[i as int].name@ != adapter_name@);
                    }
                }
            }
            return Ok(adapters[i].handle);
        }
        i += 1;
    }
    Err(RouterError::AdapterNotFound(adapter_name.to_owned()))
}

/// The number of the interface with the best route, if the system found one: `status` is zero
/// on success.
pub fn get_best_interface_index(status: u32, index: u32) -> (r: Option<u32>)
    ensures
        r == if status == 0 {
            Some(index)
        } else {
            None
        },
{
    if status == 0 {
        Some(index)
    } else {
        None
    }
}

/// Every packet of a batch is sent on, exactly once, and the packets of each kind stay in
/// order.
pub proof fn law_batch_is_split(routing: Seq<bool>, i: usize)
    requires
        routing.len() <= usize::MAX,
    ensures
        places(routing, true).len() + places(routing, false).len() == routing.len(),
        i < routing.len() ==> places(routing, routing[i as int]).contains(i) && !places(
            routing,
            !routing[i as int],
        ).contains(i),
        forall|w: bool, a: int, b: int|
            0 <= a < b < places(routing, w).len() ==> #[trigger] places(routing, w)[a]
                < #[trigger] places(routing, w)[b],
    decreases routing.len(),
{
    lemma_places(routing, true);
    lemma_places(routing, false);
    if routing.len() > 0 {
        law_batch_is_split(routing.drop_last(), i);
        if i < routing.len() {
            let w = routing[i as int];
            if i == routing.len() - 1 {
                let p = places(routing, w);
                assert(p[p.len() - 1] == i);
            } else {
                let fewer = places(routing.drop_last(), w);
                let k = choose|k: int| 0 <= k < fewer.len() && fewer[k] == i;
                assert(places(routing, w)[k] == i);
            }
            assert(!places(routing, !w).contains(i)) by {
                let others = places(routing, !w);
                if others.contains(i) {
                    let k = choose|k: int| 0 <= k < others.len() && others[k] == i;
                    assert(routing[places(routing, !w)[k] as int] == !w);
                }
            }
        }
    }
}

proof fn lemma_places(routing: Seq<bool>, w: bool)
    requires
        routing.len() <= usize::MAX,
    ensures
        forall|k: int|
            0 <= k < places(routing, w).len() ==> (#[trigger] places(routing, w)[k])
                < routing.len() && routing[places(routing, w)[k] as int] == w,
        forall|a: int, b: int|
            0 <= a < b < places(routing, w).len() ==> #[trigger] places(routing, w)[a]
                < #[trigger] places(routing, w)[b],
    decreases routing.len(),
{
    if routing.len() > 0 {
        let fewer = routing.drop_last();
        lemma_places(fewer, w);
        assert forall|k: int| 0 <= k < places(routing, w).len() implies (
        #[trigger] places(routing, w)[k]) < routing.len() && routing[places(routing, w)[k] as int]
            == w by {
            if k < places(fewer, w).len() {
                assert(places(routing, w)[k] == places(fewer, w)[k]);
                assert(fewer[places(fewer, w)[k] as int] == w);
            }
        }
        assert forall|a: int, b: int| 0 <= a < b < places(routing, w).len() implies #[trigger] places(
            routing,
            w,
        )[a] < #[trigger] places(routing, w)[b] by {
            assert(places(routing, w)[a] == places(fewer, w)[a]);
            if b < places(fewer, w).len() {
                assert(places(routing, w)[b] == places(fewer, w)[b]);
            }
        }
    }
}

/// A router that is shut down leaves its packet loop: whatever happens next, no packet is read
/// again, and the mode of the adapter is taken back before the loop ends.
pub proof fn law_shutdown_ends_loop(restart: bool, event: LoopEvent)
    ensures
        !(loop_action(true, restart, event) is Read),
        polls(event) ==> loop_action(true, restart, event) is ResetMode,
        event is ModeReset || event is AdapterMissing ==> loop_action(true, restart, event)
            is Exit,
{
}

/// Another adapter is opened anew without ending the loop.
pub proof fn law_restart_reopens_adapter(event: LoopEvent)
    requires
        polls(event),
    ensures
        loop_action(false, true, event) is ResetMode,
        loop_action(false, false, LoopEvent::ModeReset) is Open,
{
}

/// Redirecting a packet turns it round: what a client sends goes up to the machine itself,
/// where the proxy is, and what the proxy sends goes there too, where the client is.
pub proof fn law_redirected_packets_turn(is_send: bool)
    ensures
        goes_to_adapter(true, is_send) == !goes_to_adapter(false, is_send),
        !goes_to_adapter(true, true),
{
}

} // verus!
