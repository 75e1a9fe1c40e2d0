use hci_adapter::adapter::Adapter;
use hci_adapter::connected::{ConnectedAdapter, StartingScan};
use hci_adapter::device::HCIDevInfo;
use hci_adapter::events::{retain_marked, tell_all, Event, Listener};
use hci_adapter::hci::{BDAddr, Message};
use hci_adapter::peripherals::PeripheralTable;

fn addr(n: u8) -> BDAddr {
    BDAddr { address: [n, 0, 0, 0, 0, 0] }
}

fn connected() -> ConnectedAdapter {
    let adapter = Adapter::from_device_info(&HCIDevInfo::request(0));
    ConnectedAdapter::new(&adapter, 11)
}

fn advertise(n: u8) -> Message {
    Message::LEAdvertisingReport { bdaddr: addr(n) }
}

fn sorted(mut list: Vec<BDAddr>) -> Vec<[u8; 6]> {
    list.sort_by_key(|a| a.key());
    list.into_iter().map(|a| a.address).collect()
}

#[test]
fn new_adapters_are_idle() {
    let connected = connected();
    assert_eq!(connected.adapter_fd(), 11);
    assert!(!connected.scan_enabled);
    assert!(!connected.scan_enabled());
    assert!(!connected.should_stop());
    assert_eq!(connected.adapter().name, "");
    assert_eq!(connected.adapter.name, "");
}

#[test]
fn scan_parameters_are_sent() {
    assert_eq!(
        ConnectedAdapter::set_scan_params(),
        vec![0x01, 0x0b, 0x20, 0x07, 0x01, 0x10, 0x00, 0x10, 0x00, 0x00, 0x00]
    );
}

fn packet(stage: &StartingScan) -> Option<Vec<u8>> {
    match stage {
        StartingScan::Params { packet } => Some(packet.clone()),
        StartingScan::Enable { packet } => Some(packet.clone()),
        StartingScan::Started => None,
    }
}

#[test]
fn scanning_is_started_and_stopped() {
    let mut connected = connected();
    let params = connected.start_scan();
    assert_eq!(packet(&params), Some(ConnectedAdapter::set_scan_params()));
    assert!(!connected.scan_enabled);
    let enable = connected.advance_scan(params, Ok::<(), u8>(())).unwrap();
    assert_eq!(packet(&enable), Some(vec![0x01, 0x0c, 0x20, 0x02, 0x01, 0x01]));
    assert!(connected.scan_enabled);
    let started = connected.advance_scan(enable, Ok::<(), u8>(())).unwrap();
    assert!(matches!(started, StartingScan::Started));
    assert!(connected.scan_enabled);
    let stop = connected.stop_scan();
    assert_eq!(stop, vec![0x01, 0x0c, 0x20, 0x02, 0x00, 0x01]);
    assert!(!connected.scan_enabled);
}

#[test]
fn scanning_is_not_started_without_parameters() {
    let mut connected = connected();
    let params = connected.start_scan();
    assert_eq!(connected.advance_scan(params, Err::<(), u8>(5)).err(), Some(5));
    assert!(!connected.scan_enabled);
}

#[test]
fn scanning_stays_noted_where_the_switch_fails() {
    let mut connected = connected();
    let params = connected.start_scan();
    let enable = connected.advance_scan(params, Ok::<(), u8>(())).unwrap();
    assert_eq!(connected.advance_scan(enable, Err::<(), u8>(5)).err(), Some(5));
    assert!(connected.scan_enabled);
}

#[test]
fn events_of_messages_are_told() {
    let mut connected = connected();
    let rx = connected.event_stream();
    for message in [
        advertise(1),
        Message::ACLDataPacket,
        advertise(1),
        Message::LEConnComplete { bdaddr: addr(2) },
        Message::Other,
    ] {
        let handled = connected.handle(&message);
        connected.emit_handled(&handled);
    }
    assert_eq!(
        rx.try_iter().collect::<Vec<Event>>(),
        vec![
            Event::DeviceDiscovered(addr(1)),
            Event::DeviceUpdated(addr(1)),
            Event::DeviceConnected(addr(2)),
        ]
    );
}

#[test]
fn first_advertisement_discovers() {
    let mut connected = connected();
    let handled = connected.handle(&advertise(1));
    assert_eq!(handled.created, Some(addr(1)));
    assert_eq!(handled.recipients, vec![addr(1)]);
    assert_eq!(handled.event, Some(Event::DeviceDiscovered(addr(1))));
}

#[test]
fn later_advertisements_update() {
    let mut connected = connected();
    connected.handle(&advertise(1));
    connected.handle(&advertise(2));
    let handled = connected.handle(&advertise(1));
    assert_eq!(handled.created, None);
    assert_eq!(handled.recipients, vec![addr(1)]);
    assert_eq!(handled.event, Some(Event::DeviceUpdated(addr(1))));
}

#[test]
fn connections_of_known_devices_are_handed_on() {
    let mut connected = connected();
    connected.handle(&advertise(1));
    let handled = connected.handle(&Message::LEConnComplete { bdaddr: addr(1) });
    assert_eq!(handled.created, None);
    assert_eq!(handled.recipients, vec![addr(1)]);
    assert_eq!(handled.event, Some(Event::DeviceConnected(addr(1))));
}

#[test]
fn connections_of_unknown_devices_are_told_only() {
    let mut connected = connected();
    let handled = connected.handle(&Message::LEConnComplete { bdaddr: addr(1) });
    assert_eq!(handled.created, None);
    assert!(handled.recipients.is_empty());
    assert_eq!(handled.event, Some(Event::DeviceConnected(addr(1))));
    let handled = connected.handle(&advertise(1));
    assert_eq!(handled.event, Some(Event::DeviceDiscovered(addr(1))));
}

#[test]
fn data_goes_to_every_known_device() {
    let mut connected = connected();
    assert!(connected.handle(&Message::ACLDataPacket).recipients.is_empty());
    for n in [3, 1, 2, 3, 1] {
        connected.handle(&advertise(n));
    }
    let handled = connected.handle(&Message::ACLDataPacket);
    assert_eq!(handled.created, None);
    assert_eq!(handled.event, None);
    assert_eq!(
        sorted(handled.recipients),
        vec![addr(1).address, addr(2).address, addr(3).address]
    );
}

#[test]
fn other_messages_are_skipped() {
    let mut connected = connected();
    connected.handle(&advertise(1));
    for message in [Message::DisconnectComplete { handle: 64 }, Message::Other] {
        let handled = connected.handle(&message);
        assert_eq!(handled.created, None);
        assert!(handled.recipients.is_empty());
        assert_eq!(handled.event, None);
    }
    let handled = connected.handle(&advertise(1));
    assert_eq!(handled.event, Some(Event::DeviceUpdated(addr(1))));
}

#[test]
fn each_device_is_discovered_once() {
    let mut connected = connected();
    let mut discovered: Vec<BDAddr> = vec![];
    for n in [1, 2, 1, 3, 2, 2, 1, 4, 3] {
        match connected.handle(&advertise(n)).event {
            Some(Event::DeviceDiscovered(a)) => {
                assert!(!discovered.contains(&a));
                discovered.push(a);
            }
            Some(Event::DeviceUpdated(a)) => assert!(discovered.contains(&a)),
            _ => panic!("no event"),
        }
    }
    assert_eq!(discovered, vec![addr(1), addr(2), addr(3), addr(4)]);
}

#[test]
fn events_reach_every_listener() {
    let mut connected = connected();
    let first = connected.event_stream();
    connected.emit(Event::DeviceDiscovered(addr(1)));
    let second = connected.event_stream();
    connected.emit(Event::DeviceUpdated(addr(1)));
    let heard: Vec<Event> = first.try_iter().collect();
    assert_eq!(
        heard,
        vec![Event::DeviceDiscovered(addr(1)), Event::DeviceUpdated(addr(1))]
    );
    let heard: Vec<Event> = second.try_iter().collect();
    assert_eq!(heard, vec![Event::DeviceUpdated(addr(1))]);
}

#[test]
fn listeners_that_hang_up_are_dropped() {
    let mut connected = connected();
    let first = connected.event_stream();
    let second = connected.event_stream();
    let third = connected.event_stream();
    drop(second);
    connected.emit(Event::DeviceConnected(addr(1)));
    connected.emit(Event::DeviceConnected(addr(2)));
    for rx in [first, third] {
        let heard: Vec<Event> = rx.try_iter().collect();
        assert_eq!(
            heard,
            vec![Event::DeviceConnected(addr(1)), Event::DeviceConnected(addr(2))]
        );
    }
}

#[test]
fn two_streams_yield_all_events_in_order() {
    let mut connected = connected();
    let first = connected.event_stream();
    let second = connected.event_stream();
    let events: Vec<Event> = (0..5).map(|n| Event::DeviceUpdated(addr(n))).collect();
    for event in &events {
        connected.emit(*event);
    }
    assert_eq!(first.try_iter().collect::<Vec<Event>>(), events);
    assert_eq!(second.try_iter().collect::<Vec<Event>>(), events);
    assert!(first.try_recv().is_err());
}

#[test]
fn streams_do_not_replay() {
    let mut connected = connected();
    let first = connected.event_stream();
    connected.emit(Event::DeviceUpdated(addr(1)));
    let second = connected.event_stream();
    assert!(second.try_recv().is_err());
    assert_eq!(first.try_iter().count(), 1);
}

#[test]
fn adapters_share_nothing() {
    let mut one = connected();
    let mut other = connected();
    let rx = other.event_stream();
    one.set_scan_enabled(true);
    one.emit(Event::DeviceConnected(addr(1)));
    one.handle(&advertise(1));
    assert!(!other.scan_enabled());
    assert!(rx.try_recv().is_err());
    assert_eq!(
        other.handle(&advertise(1)).event,
        Some(Event::DeviceDiscovered(addr(1)))
    );
}

#[test]
fn listeners_tell_whether_their_end_is_there() {
    let mut listeners: Vec<Listener> = vec![];
    let (listener, kept_rx) = Listener::new(&listeners);
    listeners.push(listener);
    let (listener, dropped_rx) = Listener::new(&listeners);
    listeners.push(listener);
    drop(dropped_rx);
    let open = tell_all(&mut listeners, Event::DeviceConnected(addr(1)));
    assert_eq!(open, vec![true, false]);
    assert_eq!(kept_rx.try_recv(), Ok(Event::DeviceConnected(addr(1))));
}

#[test]
fn streams_end_with_the_adapter() {
    let mut connected = connected();
    let rx = connected.event_stream();
    connected.emit(Event::DeviceConnected(addr(1)));
    drop(connected);
    assert_eq!(rx.recv(), Ok(Event::DeviceConnected(addr(1))));
    assert!(rx.recv().is_err());
}

#[test]
fn marked_items_stay_in_order() {
    let mut items = vec!["a", "b", "c", "d"];
    retain_marked(&mut items, &vec![true, false, false, true]);
    assert_eq!(items, vec!["a", "d"]);
    retain_marked(&mut items, &vec![true, true]);
    assert_eq!(items, vec!["a", "d"]);
    retain_marked(&mut items, &vec![false, false]);
    assert!(items.is_empty());
}

#[test]
fn tables_hold_each_address_once() {
    let mut table = PeripheralTable::new();
    assert!(!table.contains(&addr(1)));
    assert!(table.insert(addr(1)));
    assert!(!table.insert(addr(1)));
    assert!(table.insert(BDAddr { address: [0, 0, 0, 0, 0, 1] }));
    assert!(table.contains(&addr(1)));
    assert!(!table.contains(&addr(2)));
    assert_eq!(
        sorted(table.addresses()),
        vec![[1, 0, 0, 0, 0, 0], [0, 0, 0, 0, 0, 1]]
    );
}
