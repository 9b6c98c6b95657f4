//! What the packet loop does, and which adapter it reads from.
use vstd::prelude::*;
use crate::router::adapter::{
    cleans_up, counted, counted_one_way, counter_after, first_named, first_on_interface,
    goes_to_adapter, handle_of, has_mac, interface_of, is_best_adapter, is_interface, loop_action,
    places, polls, restart_after, AdapterHandle, AdapterInfo, InterfaceInfo, LoopAction, LoopEvent,
    CLEANUP_INTERVAL, PACKET_NUMBER,
};
use crate::router::packet::ProxyDirection;

verus! {

/// What the loop does: it opens the adapter, and again after the mode was reset; waits 200
/// milliseconds for one that is missing; and reads until it is to end or to start over, when it
/// resets the mode first. Packets that were read are handled before anything else.
pub proof fn law_what_the_loop_does(shutdown: bool, restart: bool, n: usize)
    ensures
        loop_action(shutdown, restart, LoopEvent::Begin) == LoopAction::Open,
        loop_action(true, restart, LoopEvent::AdapterMissing) == LoopAction::Exit,
        loop_action(false, restart, LoopEvent::AdapterMissing) == LoopAction::Sleep(200),
        loop_action(true, restart, LoopEvent::ModeReset) == LoopAction::Exit,
        loop_action(false, restart, LoopEvent::ModeReset) == LoopAction::Open,
        n > 0 ==> loop_action(shutdown, restart, LoopEvent::Read(n)) == LoopAction::Handle(n),
        ({
            let next = if shutdown || restart {
                LoopAction::ResetMode
            } else {
                LoopAction::Read
            };
            &&& loop_action(shutdown, restart, LoopEvent::AdapterOpened) == next
            &&& loop_action(shutdown, restart, LoopEvent::ReadFailed) == next
            &&& loop_action(shutdown, restart, LoopEvent::Read(0)) == next
            &&& loop_action(shutdown, restart, LoopEvent::BatchSent) == next
        }),
{
}

/// The flags of the router are looked at before each read, and at no other time.
pub proof fn law_when_the_flags_are_looked_at(n: usize)
    ensures
        polls(LoopEvent::AdapterOpened),
        polls(LoopEvent::ReadFailed),
        polls(LoopEvent::Read(0)),
        polls(LoopEvent::BatchSent),
        !polls(LoopEvent::Begin),
        !polls(LoopEvent::AdapterMissing),
        !polls(LoopEvent::ModeReset),
        n > 0 ==> !polls(LoopEvent::Read(n)),
{
}

/// Each batch counts one, the twentieth since the last cleanup brings the next, and the count
/// starts over then and when an adapter is opened.
pub proof fn law_every_twentieth_batch_cleans_up(counter: u32, event: LoopEvent)
    ensures
        counter < 19 ==> counter_after(counter, LoopEvent::BatchSent) == counter + 1 && !cleans_up(
            counter,
            LoopEvent::BatchSent,
        ),
        counter >= 19 ==> counter_after(counter, LoopEvent::BatchSent) == 0 && cleans_up(
            counter,
            LoopEvent::BatchSent,
        ),
        counter_after(counter, LoopEvent::AdapterOpened) == 0,
        !(event is BatchSent) ==> !cleans_up(counter, event),
        !(event is BatchSent) && !(event is AdapterOpened) ==> counter_after(counter, event)
            == counter,
        CLEANUP_INTERVAL == 20,
        PACKET_NUMBER == 510,
{
}

/// A packet that is not redirected goes on the way it went, and one that is redirected goes back.
pub proof fn law_which_way_packets_go(is_send: bool)
    ensures
        goes_to_adapter(false, is_send) == is_send,
        goes_to_adapter(true, is_send) == !is_send,
{
}

/// Octets are added to a counter of 64 bits that starts over at its end.
pub proof fn law_octets_are_counted(counter: u64, n: u32)
    ensures
        counter + n <= u64::MAX ==> counted(counter, n) == counter + n,
        counter + n > u64::MAX ==> counted(counter, n) == counter + n - u64::MAX - 1,
{
}

/// The packets of a batch are split by where they go, and each part keeps their order.
pub proof fn law_places_in_a_batch(routing: Seq<bool>, next: bool)
    ensures
        places(Seq::empty(), true) == Seq::<usize>::empty(),
        places(Seq::empty(), false) == Seq::<usize>::empty(),
        routing.len() <= usize::MAX ==> places(routing.push(next), next) == places(
            routing,
            next,
        ).push(routing.len() as usize),
        places(routing.push(next), !next) == places(routing, !next),
{
    assert(routing.push(next).drop_last() =~= routing);
}

/// An adapter has a hardware address if its own begins with those six octets.
pub proof fn law_hardware_address_of_an_adapter(hw_address: Seq<u8>, mac: [u8; 6])
    ensures
        has_mac(hw_address, mac) <==> hw_address.len() >= 6 && forall|k: int|
            0 <= k < 6 ==> #[trigger] mac@[k] == hw_address[k],
{
    if hw_address.len() >= 6 {
        let first = hw_address.take(6);
        assert(forall|k: int| 0 <= k < 6 ==> first[k] == hw_address[k]);
        if forall|k: int| 0 <= k < 6 ==> #[trigger] mac@[k] == hw_address[k] {
            assert(first =~= mac@);
        }
    }
}

/// The hardware address begins with the six octets of the interface.
pub open spec fn same_address(hw_address: Seq<u8>, interface: InterfaceInfo) -> bool {
    hw_address.len() >= 6 && forall|k: int|
        0 <= k < 6 ==> #[trigger] interface.mac@[k] == hw_address[k]
}

/// Of the interfaces with a hardware address the last one counts: the address has its number and no
/// other.
pub proof fn law_last_interface_counts(
    interfaces: Seq<InterfaceInfo>,
    hw_address: Seq<u8>,
    index: u32,
    k: int,
)
    ensures
        0 <= k < interfaces.len() && same_address(hw_address, interfaces[k]) && (forall|j: int|
            k < j < interfaces.len() ==> !same_address(hw_address, #[trigger] interfaces[j])) ==> (
        is_interface(interfaces, hw_address, index) <==> interfaces[k].if_index == index),
        (forall|j: int|
            0 <= j < interfaces.len() ==> !same_address(hw_address, #[trigger] interfaces[j]))
            ==> !is_interface(interfaces, hw_address, index),
{
    assert forall|j: int| 0 <= j < interfaces.len() implies same_address(
        hw_address,
        #[trigger] interfaces[j],
    ) == has_mac(hw_address, interfaces[j].mac) by {
        law_hardware_address_of_an_adapter(hw_address, interfaces[j].mac);
    }
    if 0 <= k < interfaces.len() && same_address(hw_address, interfaces[k]) && (forall|j: int|
        k < j < interfaces.len() ==> !same_address(hw_address, #[trigger] interfaces[j])) {
        assert(interface_of(interfaces, hw_address, k));
        assert forall|o: int| interface_of(interfaces, hw_address, o) implies o == k by {
            if o < k {
                assert(!has_mac(hw_address, interfaces[k].mac));
            }
            if k < o {
                assert(!same_address(hw_address, interfaces[o]));
            }
        }
    }
}

/// The best adapter is the first one on the interface with the best route; if there is none, or no
/// best route, it is the first of all.
pub proof fn law_best_adapter(
    adapters: Seq<AdapterInfo>,
    interfaces: Seq<InterfaceInfo>,
    index: u32,
    i: int,
    k: int,
)
    ensures
        is_best_adapter(adapters, interfaces, None, k) <==> k == 0,
        (forall|j: int|
            0 <= j < adapters.len() ==> !is_interface(
                interfaces,
                (#[trigger] adapters[j]).hw_address@,
                index,
            )) ==> (is_best_adapter(adapters, interfaces, Some(index), k) <==> k == 0),
        0 <= i < adapters.len() && is_interface(interfaces, adapters[i].hw_address@, index) && (
        forall|j: int|
            0 <= j < i ==> !is_interface(interfaces, (#[trigger] adapters[j]).hw_address@, index))
            ==> (is_best_adapter(adapters, interfaces, Some(index), k) <==> k == i),
{
    if 0 <= i < adapters.len() && is_interface(interfaces, adapters[i].hw_address@, index) && (
    forall|j: int|
        0 <= j < i ==> !is_interface(interfaces, (#[trigger] adapters[j]).hw_address@, index)) {
        assert(first_on_interface(adapters, interfaces, index, i));
        if first_on_interface(adapters, interfaces, index, k) {
            if k < i {
                assert(!is_interface(interfaces, adapters[k].hw_address@, index));
            }
            if i < k {
                assert(!is_interface(interfaces, adapters[i].hw_address@, index));
            }
        }
    }
}

/// An adapter is found under its name, the first one if several have it.
pub proof fn law_adapter_of_a_name(
    adapters: Seq<AdapterHandle>,
    name: Seq<char>,
    i: int,
    k: int,
)
    requires
        0 <= i < adapters.len(),
        adapters[i].name@ == name,
        forall|j: int| 0 <= j < i ==> (#[trigger] adapters[j]).name@ != name,
    ensures
        first_named(adapters, name, k) <==> k == i,
{
    if first_named(adapters, name, k) && i < k {
        assert(adapters[i].name@ != name);
    }
}

/// A request to start over is answered once, by the next look at it; while the router is shut down,
/// and at every other event, it stays as it is.
pub proof fn law_requests_are_answered_once(shutdown: bool, restart: bool, event: LoopEvent)
    ensures
        polls(event) && !shutdown ==> !restart_after(shutdown, restart, event),
        !polls(event) || shutdown ==> restart_after(shutdown, restart, event) == restart,
        polls(event) && !shutdown ==> loop_action(
            shutdown,
            restart_after(shutdown, restart, event),
            event,
        ) == LoopAction::Read,
{
}

/// A packet to a proxy counts as sent and one from a proxy as received, with all its octets; one
/// that is not redirected does not count.
pub proof fn law_redirected_octets_are_counted(counter: u64, n: u32)
    requires
        counter + n <= u64::MAX,
    ensures
        counted_one_way(
            counter,
            ProxyDirection::ToProxy,
            Some(ProxyDirection::ToProxy),
            n,
        ) == counter + n,
        counted_one_way(
            counter,
            ProxyDirection::FromProxy,
            Some(ProxyDirection::FromProxy),
            n,
        ) == counter + n,
        counted_one_way(counter, ProxyDirection::ToProxy, Some(ProxyDirection::FromProxy), n)
            == counter,
        counted_one_way(counter, ProxyDirection::FromProxy, Some(ProxyDirection::ToProxy), n)
            == counter,
        counted_one_way(counter, ProxyDirection::ToProxy, None, n) == counter,
        counted_one_way(counter, ProxyDirection::FromProxy, None, n) == counter,
{
}

/// The number of the first adapter with the name is found, and none if no adapter has it.
pub proof fn law_number_of_an_adapter(adapters: Seq<AdapterHandle>, name: Seq<char>, i: int)
    ensures
        0 <= i < adapters.len() && adapters[i].name@ == name && (forall|j: int|
            0 <= j < i ==> (#[trigger] adapters[j]).name@ != name) ==> handle_of(adapters, name)
            == Some(adapters[i].handle),
        (forall|j: int| 0 <= j < adapters.len() ==> (#[trigger] adapters[j]).name@ != name)
            ==> handle_of(adapters, name) is None,
{
    if 0 <= i < adapters.len() && adapters[i].name@ == name && (forall|j: int|
        0 <= j < i ==> (#[trigger] adapters[j]).name@ != name) {
        assert(first_named(adapters, name, i));
        let k = choose|k: int| first_named(adapters, name, k);
        law_adapter_of_a_name(adapters, name, i, k);
    }
}

} // verus!
