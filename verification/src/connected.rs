//! An adapter with an open socket: scanning for devices, following what the
//! controller says, and telling listeners.

use std::sync::mpsc::Receiver;

use bytes::BytesMut;
use vstd::prelude::*;

use crate::adapter::Adapter;
use crate::buffer;
use crate::constants::{LE_SET_SCAN_ENABLE_CMD, LE_SET_SCAN_PARAMETERS_CMD};
use crate::device::SockaddrHCI;
use crate::events;
use crate::events::{Event, Listener, ListenerStep};
use crate::hci;
use crate::hci::{BDAddr, Message};
use crate::peripherals::PeripheralTable;

verus! {

/// An adapter with an open socket.
pub struct ConnectedAdapter {
    pub adapter: Adapter,
    adapter_fd: i32,
    should_stop: bool,
    pub scan_enabled: bool,
    event_txs: Vec<Listener>,
    peripherals: PeripheralTable,
}

/// What is to be done about a message, in this order: make a peripheral for the device
/// in `created`, hand the message to the peripherals of the devices in `recipients`,
/// and emit `event`.
#[derive(Debug)]
pub struct Handled {
    pub created: Option<BDAddr>,
    pub recipients: Vec<BDAddr>,
    pub event: Option<Event>,
}

/// The devices known after a message: an advertisement makes its sender known.
pub open spec fn known_after(known: Set<BDAddr>, message: Message) -> Set<BDAddr> {
    match message {
        Message::LEAdvertisingReport { bdaddr } => known.insert(bdaddr),
        _ => known,
    }
}

/// The device that a message makes known.
pub open spec fn created_by(known: Set<BDAddr>, message: Message) -> Option<BDAddr> {
    match message {
        Message::LEAdvertisingReport { bdaddr } => if known.contains(bdaddr) {
            None
        } else {
            Some(bdaddr)
        },
        _ => None,
    }
}

/// The devices whose peripherals get a message: the sender of an advertisement; a
/// connected device, if it is known; every known device for data, whose connection
/// tells no device.
pub open spec fn recipients_of(known: Set<BDAddr>, message: Message) -> Set<BDAddr> {
    match message {
        Message::LEAdvertisingReport { bdaddr } => set![bdaddr],
        Message::LEConnComplete { bdaddr } => if known.contains(bdaddr) {
            set![bdaddr]
        } else {
            Set::empty()
        },
        Message::ACLDataPacket => known,
        _ => Set::empty(),
    }
}

/// The event that a message brings about.
pub open spec fn event_of(known: Set<BDAddr>, message: Message) -> Option<Event> {
    match message {
        Message::LEAdvertisingReport { bdaddr } => Some(
            if known.contains(bdaddr) {
                Event::DeviceUpdated(bdaddr)
            } else {
                Event::DeviceDiscovered(bdaddr)
            },
        ),
        Message::LEConnComplete { bdaddr } => Some(Event::DeviceConnected(bdaddr)),
        _ => None,
    }
}

/// A message brings a connection about just where it tells of one, and then of the same
/// device, whichever devices are known; an advertisement brings its sender's discovery
/// or update about, by whether the sender was known; no other message brings an event.
pub proof fn law_event_of_message(known: Set<BDAddr>, message: Message, a: BDAddr)
    ensures
        event_of(known, message) == Some(Event::DeviceConnected(a)) <==> message
            == (Message::LEConnComplete { bdaddr: a }),
        event_of(known, message) == Some(Event::DeviceDiscovered(a)) <==> message
            == (Message::LEAdvertisingReport { bdaddr: a }) && !known.contains(a),
        event_of(known, message) == Some(Event::DeviceUpdated(a)) <==> message
            == (Message::LEAdvertisingReport { bdaddr: a }) && known.contains(a),
        event_of(known, message) is None <==> {
            &&& !(message is LEAdvertisingReport)
            &&& !(message is LEConnComplete)
        },
{
}

/// Whom a message goes to: an advertisement to its sender, known or not, and to nobody
/// else; a connection to the connected device, if that is known, and to nobody else;
/// data to every known device and to no other; any other message to nobody.
pub proof fn law_recipients_of_message(known: Set<BDAddr>, message: Message, a: BDAddr)
    ensures
        recipients_of(known, message).contains(a) <==> {
            ||| message == (Message::LEAdvertisingReport { bdaddr: a })
            ||| message == (Message::LEConnComplete { bdaddr: a }) && known.contains(a)
            ||| message == Message::ACLDataPacket && known.contains(a)
        },
{
}

/// A peripheral is made for a device just where it advertises itself and was not known.
pub proof fn law_created_by_message(known: Set<BDAddr>, message: Message, a: BDAddr)
    ensures
        created_by(known, message) == Some(a) <==> message == (Message::LEAdvertisingReport {
            bdaddr: a,
        }) && !known.contains(a),
        created_by(known, message) is None <==> (message matches Message::LEAdvertisingReport {
            bdaddr,
        } ==> known.contains(bdaddr)),
{
}

/// After a message a device is known just where it was known or the message is its
/// advertisement.
pub proof fn law_known_after_message(known: Set<BDAddr>, message: Message, a: BDAddr)
    ensures
        known_after(known, message).contains(a) <==> known.contains(a) || message
            == (Message::LEAdvertisingReport { bdaddr: a }),
{
}

/// A second advertisement makes no peripheral and is an update, whatever was known
/// before the first.
pub proof fn law_second_advertisement_updates(known: Set<BDAddr>, a: BDAddr)
    ensures
        ({
            let report = Message::LEAdvertisingReport { bdaddr: a };
            let later = known_after(known, report);
            &&& created_by(later, report) is None
            &&& event_of(later, report) == Some(Event::DeviceUpdated(a))
            &&& known_after(later, report) == later
        }),
{
    let report = Message::LEAdvertisingReport { bdaddr: a };
    let later = known_after(known, report);
    assert(known_after(later, report) =~= later);
}

/// The parameters of a scan: active, an interval and a window of 0x10 units, from the
/// public address, with no filter on the senders.
pub open spec fn scan_parameters() -> Seq<u8> {
    seq![1u8, 0x10u8, 0u8, 0x10u8, 0u8, 0u8, 0u8]
}

/// The parameters that switch scanning on or off, with duplicates filtered.
pub open spec fn scan_enable(enabled: bool) -> Seq<u8> {
    seq![if enabled { 1u8 } else { 0u8 }, 1u8]
}

impl ConnectedAdapter {
    /// The adapter.
    pub closed spec fn of(self) -> Adapter {
        self.adapter
    }

    /// Whether scanning has been switched on.
    pub closed spec fn scanning(self) -> bool {
        self.scan_enabled
    }

    /// The socket.
    pub closed spec fn fd(self) -> i32 {
        self.adapter_fd
    }

    /// Whether the reader of the socket is to stop.
    pub closed spec fn stopping(self) -> bool {
        self.should_stop
    }

    /// The listeners, in the order in which they came.
    pub closed spec fn listeners(self) -> Seq<Listener> {
        self.event_txs@
    }

    /// The devices heard of.
    pub closed spec fn known(self) -> Set<BDAddr> {
        self.peripherals@
    }

    /// The same adapter on the same socket.
    pub open spec fn same_socket(self, other: ConnectedAdapter) -> bool {
        &&& self.of() == other.of()
        &&& self.fd() == other.fd()
        &&& self.stopping() == other.stopping()
    }

    /// `adapter` on the socket `fd`, with nothing having happened yet.
    pub open spec fn fresh(self, adapter: Adapter, fd: i32) -> bool {
        &&& self.of().same(adapter)
        &&& self.fd() == fd
        &&& !self.stopping()
        &&& !self.scanning()
        &&& self.listeners() == Seq::<Listener>::empty()
        &&& self.known() == Set::<BDAddr>::empty()
    }

    /// An adapter on a socket that has just been bound.
    pub fn new(adapter: &Adapter, adapter_fd: i32) -> (connected: ConnectedAdapter)
        ensures
            connected.fresh(*adapter, adapter_fd),
            connected.of().addr == adapter.addr,
            connected.of().dev_id == adapter.dev_id,
            connected.fd() == adapter_fd,
            !connected.stopping(),
            !connected.scanning(),
            connected.listeners().len() == 0,
            forall|a: BDAddr| !(#[trigger] connected.known().contains(a)),
    {
        ConnectedAdapter {
            adapter: adapter.clone(),
            adapter_fd,
            should_stop: false,
            scan_enabled: false,
            event_txs: Vec::new(),
            peripherals: PeripheralTable::new(),
        }
    }

    /// The adapter.
    pub fn adapter(&self) -> (adapter: &Adapter)
        ensures
            *adapter == self.of(),
    {
        &self.adapter
    }

    /// Whether scanning has been switched on.
    pub fn scan_enabled(&self) -> (on: bool)
        ensures
            on == self.scanning(),
    {
        self.scan_enabled
    }

    /// The socket.
    pub fn adapter_fd(&self) -> (fd: i32)
        ensures
            fd == self.fd(),
    {
        self.adapter_fd
    }

    /// Whether the reader of the socket is to stop.
    pub fn should_stop(&self) -> (stop: bool)
        ensures
            stop == self.stopping(),
    {
        self.should_stop
    }

    /// The command that sets the parameters of a scan.
    pub fn set_scan_params() -> (packet: Vec<u8>)
        ensures
            packet@ == hci::command_packet(LE_SET_SCAN_PARAMETERS_CMD, scan_parameters()),
    {
        let mut data: BytesMut = buffer::with_capacity(7);
        buffer::put_u8(&mut data, 1);  // active
        buffer::put_u16_le(&mut data, 0x0010);  // interval
        buffer::put_u16_le(&mut data, 0x0010);  // window
        buffer::put_u8(&mut data, 0);  // own address: public
        buffer::put_u8(&mut data, 0);  // filter policy: public
        let params = buffer::as_slice(&data);
        assert(params@ =~= scan_parameters());
        hci::hci_command(LE_SET_SCAN_PARAMETERS_CMD, params)
    }

    /// Notes that scanning is on or off, and returns the command that makes it so.
    pub fn set_scan_enabled(&mut self, enabled: bool) -> (packet: Vec<u8>)
        ensures
            packet@ == hci::command_packet(LE_SET_SCAN_ENABLE_CMD, scan_enable(enabled)),
            final(self).scanning() == enabled,
            final(self).same_socket(*old(self)),
            final(self).listeners() == old(self).listeners(),
            final(self).known() == old(self).known(),
    {
        let mut data: BytesMut = buffer::with_capacity(2);
        buffer::put_u8(
            &mut data,
            if enabled {
                1
            } else {
                0
            },
        );
        buffer::put_u8(&mut data, 1);  // filter duplicates
        self.scan_enabled = enabled;
        let params = buffer::as_slice(&data);
        assert(params@ =~= scan_enable(enabled));
        hci::hci_command(LE_SET_SCAN_ENABLE_CMD, params)
    }

    /// Sets out to start a scan.
    pub fn start_scan(&self) -> (start: StartingScan)
        ensures
            start.first(),
    {
        StartingScan::Params { packet: ConnectedAdapter::set_scan_params() }
    }

    /// Takes the result of writing a stage's packet, and goes on to the next stage.
    /// Scanning is noted as on before the packet that switches it on is written. Where
    /// a write failed, nothing changes and the error is handed on.
    pub fn advance_scan<E>(&mut self, stage: StartingScan, written: Result<(), E>) -> (next: Result<
        StartingScan,
        E,
    >)
        ensures
            match written {
                Ok(_) => {
                    &&& next matches Ok(n) && stage.followed_by(n)
                    &&& final(self).scanning() == (stage is Params || old(self).scanning())
                    &&& final(self).same_socket(*old(self))
                    &&& final(self).listeners() == old(self).listeners()
                    &&& final(self).known() == old(self).known()
                },
                Err(e) => next == Err::<StartingScan, E>(e) && *final(self) == *old(self),
            },
    {
        match written {
            Ok(_) => Ok(
                match stage {
                    StartingScan::Params { .. } => StartingScan::Enable {
                        packet: self.set_scan_enabled(true),
                    },
                    StartingScan::Enable { .. } => StartingScan::Started,
                    StartingScan::Started => StartingScan::Started,
                },
            ),
            Err(e) => Err(e),
        }
    }

    /// Stops a scan: returns the command to write.
    pub fn stop_scan(&mut self) -> (packet: Vec<u8>)
        ensures
            packet@ == hci::command_packet(LE_SET_SCAN_ENABLE_CMD, scan_enable(false)),
            !final(self).scanning(),
            final(self).same_socket(*old(self)),
            final(self).listeners() == old(self).listeners(),
            final(self).known() == old(self).known(),
    {
        self.set_scan_enabled(false)
    }

    /// Adds a listener, and returns the receiving end of its channel, over which every
    /// later event is told.
    pub fn event_stream(&mut self) -> (rx: Receiver<Event>)
        ensures
            events::stepped(
                old(self).listeners(),
                ListenerStep::Stream { listener: final(self).listeners().last() },
                final(self).listeners(),
            ),
            final(self).listeners().len() == old(self).listeners().len() + 1,
            final(self).listeners().drop_last() == old(self).listeners(),
            final(self).listeners().last().record() == Seq::<(Event, bool)>::empty(),
            final(self).listeners().last().channel() == events::receiver_channel(rx),
            forall|i: int|
                0 <= i < old(self).listeners().len() ==> (#[trigger] old(
                    self,
                ).listeners()[i]).channel() != events::receiver_channel(rx),
            final(self).same_socket(*old(self)),
            final(self).scanning() == old(self).scanning(),
            final(self).known() == old(self).known(),
    {
        let (listener, rx) = Listener::new(&self.event_txs);
        self.event_txs.push(listener);
        assert(self.listeners().drop_last() =~= old(self).listeners());
        rx
    }

    /// Sends `event` to every listener once, in their order, and drops exactly those
    /// whose receiving end was gone.
    pub fn emit(&mut self, event: Event)
        ensures
            exists|told: Seq<Listener>, open: Seq<bool>| #[trigger]
                events::stepped(
                    old(self).listeners(),
                    ListenerStep::Emit { event, told, open },
                    final(self).listeners(),
                ),
            final(self).same_socket(*old(self)),
            final(self).scanning() == old(self).scanning(),
            final(self).known() == old(self).known(),
    {
        let open = events::tell_all(&mut self.event_txs, event);
        let ghost told = self.event_txs@;
        events::retain_marked(&mut self.event_txs, &open);
        assert(events::stepped(
            old(self).listeners(),
            ListenerStep::Emit { event, told, open: open@ },
            self.listeners(),
        ));
    }

    /// Emits the event that came of a message, if there is one.
    pub fn emit_handled(&mut self, handled: &Handled)
        ensures
            exists|told: Seq<Listener>, open: Seq<bool>| #[trigger]
                events::told_of(
                    old(self).listeners(),
                    handled.event,
                    told,
                    open,
                    final(self).listeners(),
                ),
            handled.event is None ==> final(self).listeners() == old(self).listeners(),
            handled.event matches Some(event) ==> exists|told: Seq<Listener>, open: Seq<bool>|
                #[trigger] events::stepped(
                    old(self).listeners(),
                    ListenerStep::Emit { event, told, open },
                    final(self).listeners(),
                ),
            final(self).same_socket(*old(self)),
            final(self).scanning() == old(self).scanning(),
            final(self).known() == old(self).known(),
    {
        let ghost before = self.listeners();
        match handled.event {
            Some(event) => {
                self.emit(event);
                proof {
                    let (told, open): (Seq<Listener>, Seq<bool>) = choose|
                        told: Seq<Listener>,
                        open: Seq<bool>,
                    | #[trigger]
                        events::stepped(
                            before,
                            ListenerStep::Emit { event, told, open },
                            self.listeners(),
                        );
                    assert(events::told_of(
                        before,
                        handled.event,
                        told,
                        open,
                        self.listeners(),
                    ));
                }
            },
            None => {
                assert(events::told_of(
                    before,
                    handled.event,
                    Seq::empty(),
                    Seq::empty(),
                    self.listeners(),
                ));
            },
        }
    }

    /// Follows a message from the controller, and tells what is to be done about it.
    pub fn handle(&mut self, message: &Message) -> (handled: Handled)
        ensures
            final(self).known() == known_after(old(self).known(), *message),
            handled.created == created_by(old(self).known(), *message),
            handled.recipients@.to_set() == recipients_of(old(self).known(), *message),
            handled.recipients@.no_duplicates(),
            handled.event == event_of(old(self).known(), *message),
            *message matches Message::LEAdvertisingReport { bdaddr } ==> {
                &&& final(self).known() == old(self).known().insert(bdaddr)
                &&& handled.recipients@ == seq![bdaddr]
                &&& handled.created == (if old(self).known().contains(bdaddr) {
                    None
                } else {
                    Some(bdaddr)
                })
            },
            *message matches Message::LEConnComplete { bdaddr } ==> {
                &&& handled.event == Some(Event::DeviceConnected(bdaddr))
                &&& handled.recipients@ == (if old(self).known().contains(bdaddr) {
                    seq![bdaddr]
                } else {
                    Seq::empty()
                })
                &&& handled.created is None
            },
            message is ACLDataPacket ==> handled.recipients@.to_set() == old(self).known(),
            !(message is LEAdvertisingReport) ==> final(self).known() == old(self).known(),
            final(self).same_socket(*old(self)),
            final(self).scanning() == old(self).scanning(),
            final(self).listeners() == old(self).listeners(),
    {
        match *message {
            Message::LEAdvertisingReport { bdaddr } => {
                let new = self.peripherals.insert(bdaddr);
                let recipients: Vec<BDAddr> = vec![bdaddr];
                assert(recipients@.to_set() =~= set![bdaddr]) by {
                    assert(recipients@[0] == bdaddr);
                }
                Handled {
                    created: if new {
                        Some(bdaddr)
                    } else {
                        None
                    },
                    recipients,
                    event: Some(
                        if new {
                            Event::DeviceDiscovered(bdaddr)
                        } else {
                            Event::DeviceUpdated(bdaddr)
                        },
                    ),
                }
            },
            Message::LEConnComplete { bdaddr } => {
                let mut recipients: Vec<BDAddr> = Vec::new();
                if self.peripherals.contains(&bdaddr) {
                    recipients.push(bdaddr);
                    assert(recipients@.to_set() =~= set![bdaddr]) by {
                        assert(recipients@[0] == bdaddr);
                    }
                } else {
                    assert(recipients@.to_set() =~= Set::empty());
                }
                Handled { created: None, recipients, event: Some(Event::DeviceConnected(bdaddr)) }
            },
            Message::ACLDataPacket => {
                // the packet's handle names a connection, not a device: all get it, and
                // leave what is not theirs
                Handled { created: None, recipients: self.peripherals.addresses(), event: None }
            },
            _ => {
                let recipients: Vec<BDAddr> = Vec::new();
                assert(recipients@.to_set() =~= Set::empty());
                Handled { created: None, recipients, event: None }
            },
        }
    }
}

/// What is said of a connected adapter is said of its fields.
proof fn law_connected_fields(connected: ConnectedAdapter)
    ensures
        connected.of() == connected.adapter,
        connected.fd() == connected.adapter_fd,
        connected.stopping() == connected.should_stop,
        connected.scanning() == connected.scan_enabled,
        connected.listeners() == connected.event_txs@,
        connected.known() == connected.peripherals@,
{
}

/// A fresh connected adapter is the given adapter on the given socket. It is not to
/// stop, does not scan, has no listeners and knows no device.
pub proof fn law_fresh_adapter(connected: ConnectedAdapter, adapter: Adapter, fd: i32)
    requires
        connected.fresh(adapter, fd),
    ensures
        connected.of().name@ == adapter.name@,
        connected.of().dev_id == adapter.dev_id,
        connected.of().addr == adapter.addr,
        connected.of().typ == adapter.typ,
        connected.of().states@ == adapter.states@,
        connected.fd() == fd,
        !connected.stopping(),
        !connected.scanning(),
        connected.listeners().len() == 0,
        forall|a: BDAddr| !(#[trigger] connected.known().contains(a)),
{
}

/// On the same socket the adapter, the socket's number and whether to stop are the same.
pub proof fn law_same_socket(a: ConnectedAdapter, b: ConnectedAdapter)
    ensures
        a.same_socket(b) <==> a.of() == b.of() && a.fd() == b.fd() && a.stopping() == b.stopping(),
{
}

/// The way to a running scan: each stage holds the packet to write next, and
/// `ConnectedAdapter::advance_scan` takes the result of the write.
#[derive(Debug)]
pub enum StartingScan {
    /// Write the command that sets the parameters.
    Params { packet: Vec<u8> },
    /// Write the command that switches scanning on.
    Enable { packet: Vec<u8> },
    /// Nothing: the scan is running.
    Started,
}

impl StartingScan {
    /// The packet to write, if there is one left.
    pub open spec fn to_write(self) -> Option<Seq<u8>> {
        match self {
            StartingScan::Params { packet } => Some(packet@),
            StartingScan::Enable { packet } => Some(packet@),
            StartingScan::Started => None,
        }
    }

    /// The stage at which a scan is set out for: the parameters are to be written.
    pub open spec fn first(self) -> bool {
        self matches StartingScan::Params { packet } && packet@ == hci::command_packet(
            LE_SET_SCAN_PARAMETERS_CMD,
            scan_parameters(),
        )
    }

    /// `next` is the stage behind this one, whose packet has been written.
    pub open spec fn followed_by(self, next: StartingScan) -> bool {
        match self {
            StartingScan::Params { .. } => next matches StartingScan::Enable { packet }
                && packet@ == hci::command_packet(LE_SET_SCAN_ENABLE_CMD, scan_enable(true)),
            _ => next is Started,
        }
    }
}

/// Starting a scan writes two packets: the parameters first, then the switch, and the
/// switch only once the parameters have been written.
pub proof fn law_scan_packets_in_order(s0: StartingScan, s1: StartingScan, s2: StartingScan)
    requires
        s0.first(),
        s0.followed_by(s1),
        s1.followed_by(s2),
    ensures
        s0.to_write() == Some(
            hci::command_packet(LE_SET_SCAN_PARAMETERS_CMD, scan_parameters()),
        ),
        s1.to_write() == Some(hci::command_packet(LE_SET_SCAN_ENABLE_CMD, scan_enable(true))),
        s2.to_write() is None,
{
}

/// Whatever packet was written at a stage: behind the parameters comes the switch, with
/// the packet that switches scanning on, and behind the switch the end, which stays.
pub proof fn law_scan_stages(stage: StartingScan, next: StartingScan)
    requires
        stage.followed_by(next),
    ensures
        stage is Params <==> next is Enable,
        stage is Params <==> !(next is Started),
        stage is Params ==> next.to_write() == Some(
            seq![0x01u8, 0x0cu8, 0x20u8, 0x02u8, 0x01u8, 0x01u8],
        ),
        stage is Enable || stage is Started ==> next.to_write() is None,
{
    law_scan_switch_bytes(true);
}

/// What is written at a stage is the packet that the stage holds.
pub proof fn law_scan_stage_packet(packet: Vec<u8>)
    ensures
        (StartingScan::Params { packet }).to_write() == Some(packet@),
        (StartingScan::Enable { packet }).to_write() == Some(packet@),
        StartingScan::Started.to_write() is None,
{
}

/// A scan is set out for by writing its parameters: active, every 0x0010 units for
/// 0x0010 units, from the public address and with no filter.
pub proof fn law_scan_first_bytes(stage: StartingScan)
    requires
        stage.first(),
    ensures
        stage is Params,
        stage.to_write() == Some(
            seq![
                0x01u8,
                0x0bu8,
                0x20u8,
                0x07u8,
                0x01u8,
                0x10u8,
                0x00u8,
                0x10u8,
                0x00u8,
                0x00u8,
                0x00u8,
            ],
        ),
{
    assert(hci::command_packet(LE_SET_SCAN_PARAMETERS_CMD, scan_parameters()) =~= seq![
        0x01u8,
        0x0bu8,
        0x20u8,
        0x07u8,
        0x01u8,
        0x10u8,
        0x00u8,
        0x10u8,
        0x00u8,
        0x00u8,
        0x00u8,
    ]);
}

/// The command that switches scanning on or off holds 1 or 0, and always 1 behind it.
pub proof fn law_scan_switch_bytes(enabled: bool)
    ensures
        hci::command_packet(LE_SET_SCAN_ENABLE_CMD, scan_enable(enabled)) == seq![
            0x01u8,
            0x0cu8,
            0x20u8,
            0x02u8,
            if enabled {
                0x01u8
            } else {
                0x00u8
            },
            0x01u8,
        ],
{
}

/// The commands that switch scanning on and off differ.
pub proof fn law_scan_switch_is_told(e1: bool, e2: bool)
    requires
        hci::command_packet(LE_SET_SCAN_ENABLE_CMD, scan_enable(e1)) == hci::command_packet(
            LE_SET_SCAN_ENABLE_CMD,
            scan_enable(e2),
        ),
    ensures
        e1 == e2,
{
    hci::law_command_packet_injective(
        LE_SET_SCAN_ENABLE_CMD,
        scan_enable(e1),
        LE_SET_SCAN_ENABLE_CMD,
        scan_enable(e2),
    );
    assert(scan_enable(e1)[0] == scan_enable(e2)[0]);
}

/// The devices known after a row of messages.
pub open spec fn known_after_all(known: Set<BDAddr>, messages: Seq<Message>) -> Set<BDAddr>
    decreases messages.len(),
{
    if messages.len() == 0 {
        known
    } else {
        known_after(known_after_all(known, messages.drop_last()), messages.last())
    }
}

/// The events that a row of messages brings about, in order.
pub open spec fn events_of_all(known: Set<BDAddr>, messages: Seq<Message>) -> Seq<Event>
    decreases messages.len(),
{
    if messages.len() == 0 {
        Seq::empty()
    } else {
        let before = events_of_all(known, messages.drop_last());
        match event_of(known_after_all(known, messages.drop_last()), messages.last()) {
            Some(event) => before.push(event),
            None => before,
        }
    }
}

/// A device is known exactly if it was known at first or has advertised itself since:
/// nothing is forgotten, and nothing else makes a device known.
pub proof fn law_known_devices(known: Set<BDAddr>, messages: Seq<Message>, a: BDAddr)
    ensures
        known_after_all(known, messages).contains(a) <==> known.contains(a) || messages.contains(
            Message::LEAdvertisingReport { bdaddr: a },
        ),
    decreases messages.len(),
{
    let report = Message::LEAdvertisingReport { bdaddr: a };
    if messages.len() > 0 {
        law_known_devices(known, messages.drop_last(), a);
        if messages.contains(report) {
            let i = choose|i: int| 0 <= i < messages.len() && messages[i] == report;
            if i < messages.len() - 1 {
                assert(messages.drop_last()[i] == report);
            }
        }
        if messages.drop_last().contains(report) {
            let i = choose|i: int|
                0 <= i < messages.drop_last().len() && messages.drop_last()[i] == report;
            assert(messages[i] == report);
        }
        if messages.last() == report {
            assert(messages[messages.len() - 1] == report);
        }
    }
}

/// A device's discovery is told if and only if the device was not known at first and
/// is known in the end.
pub proof fn law_discovery_is_told(known: Set<BDAddr>, messages: Seq<Message>, a: BDAddr)
    ensures
        events_of_all(known, messages).contains(Event::DeviceDiscovered(a))
            <==> !known.contains(a) && known_after_all(known, messages).contains(a),
    decreases messages.len(),
{
    let event = Event::DeviceDiscovered(a);
    let events = events_of_all(known, messages);
    if messages.len() > 0 {
        law_discovery_is_told(known, messages.drop_last(), a);
        law_known_devices(known, messages.drop_last(), a);
        let before = events_of_all(known, messages.drop_last());
        if events.contains(event) {
            let i = choose|i: int| 0 <= i < events.len() && events[i] == event;
            if i < before.len() {
                assert(before[i] == event);
            }
        }
        if before.contains(event) {
            let i = choose|i: int| 0 <= i < before.len() && before[i] == event;
            assert(events[i] == event);
        }
        if events.len() > before.len() && events.last() == event {
            assert(events[before.len() as int] == event);
        }
    }
}

/// No device's discovery is told twice.
pub proof fn law_discovered_once(
    known: Set<BDAddr>,
    messages: Seq<Message>,
    i: int,
    j: int,
    a: BDAddr,
)
    requires
        0 <= i < j < events_of_all(known, messages).len(),
        events_of_all(known, messages)[i] == Event::DeviceDiscovered(a),
    ensures
        events_of_all(known, messages)[j] != Event::DeviceDiscovered(a),
    decreases messages.len(),
{
    let events = events_of_all(known, messages);
    let before = events_of_all(known, messages.drop_last());
    if j < before.len() {
        law_discovered_once(known, messages.drop_last(), i, j, a);
    } else {
        assert(before[i] == Event::DeviceDiscovered(a));
        law_discovery_is_told(known, messages.drop_last(), a);
    }
}

/// An update of a device that was not known at first is told after its discovery.
pub proof fn law_updated_after_discovered(
    known: Set<BDAddr>,
    messages: Seq<Message>,
    j: int,
    a: BDAddr,
)
    requires
        !known.contains(a),
        0 <= j < events_of_all(known, messages).len(),
        events_of_all(known, messages)[j] == Event::DeviceUpdated(a),
    ensures
        exists|i: int|
            0 <= i < j && #[trigger] events_of_all(known, messages)[i] == Event::DeviceDiscovered(
                a,
            ),
    decreases messages.len(),
{
    let events = events_of_all(known, messages);
    let before = events_of_all(known, messages.drop_last());
    if j < before.len() {
        law_updated_after_discovered(known, messages.drop_last(), j, a);
        let i = choose|i: int| 0 <= i < j && #[trigger] before[i] == Event::DeviceDiscovered(a);
        assert(events[i] == Event::DeviceDiscovered(a));
    } else {
        law_discovery_is_told(known, messages.drop_last(), a);
        let i = choose|i: int| 0 <= i < before.len() && before[i] == Event::DeviceDiscovered(a);
        assert(events[i] == Event::DeviceDiscovered(a));
    }
}

/// A connection to a device is told just as often as a message tells of one, whichever
/// devices are known.
pub proof fn law_connections_are_told(known: Set<BDAddr>, messages: Seq<Message>, a: BDAddr)
    ensures
        events_of_all(known, messages).to_multiset().count(Event::DeviceConnected(a))
            == messages.to_multiset().count(Message::LEConnComplete { bdaddr: a }),
        events_of_all(known, messages).contains(Event::DeviceConnected(a)) <==> messages.contains(
            Message::LEConnComplete { bdaddr: a },
        ),
    decreases messages.len(),
{
    let events = events_of_all(known, messages);
    events.to_multiset_ensures();
    messages.to_multiset_ensures();
    if messages.len() > 0 {
        let early = messages.drop_last();
        law_connections_are_told(known, early, a);
        lemma_one_more_message(known, messages);
    }
}

/// Every advertisement of a device is told once: one as its discovery, if the device
/// was not known at first, and all others as updates.
pub proof fn law_advertisements_are_told(known: Set<BDAddr>, messages: Seq<Message>, a: BDAddr)
    ensures
        events_of_all(known, messages).to_multiset().count(Event::DeviceDiscovered(a))
            + events_of_all(known, messages).to_multiset().count(Event::DeviceUpdated(a))
            == messages.to_multiset().count(Message::LEAdvertisingReport { bdaddr: a }),
        events_of_all(known, messages).to_multiset().count(Event::DeviceDiscovered(a)) == (
        if !known.contains(a) && messages.contains(Message::LEAdvertisingReport { bdaddr: a }) {
            1nat
        } else {
            0nat
        }),
    decreases messages.len(),
{
    let events = events_of_all(known, messages);
    events.to_multiset_ensures();
    messages.to_multiset_ensures();
    if messages.len() > 0 {
        let early = messages.drop_last();
        early.to_multiset_ensures();
        law_advertisements_are_told(known, early, a);
        law_known_devices(known, early, a);
        lemma_one_more_message(known, messages);
    }
}

/// There are as many events as messages that are an advertisement or tell of a
/// connection.
pub proof fn law_events_are_counted(known: Set<BDAddr>, messages: Seq<Message>)
    ensures
        events_of_all(known, messages).len() == messages.filter(
            |m: Message| m is LEAdvertisingReport || m is LEConnComplete,
        ).len(),
    decreases messages.len(),
{
    reveal(Seq::filter);
    if messages.len() > 0 {
        law_events_are_counted(known, messages.drop_last());
    }
}

/// A row of messages may be followed in two parts: the second part brings about what it
/// does for the devices known after the first.
pub proof fn law_rows_are_joined(known: Set<BDAddr>, first: Seq<Message>, second: Seq<Message>)
    ensures
        known_after_all(known, first + second) == known_after_all(
            known_after_all(known, first),
            second,
        ),
        events_of_all(known, first + second) == events_of_all(known, first) + events_of_all(
            known_after_all(known, first),
            second,
        ),
    decreases second.len(),
{
    if second.len() == 0 {
        assert(first + second =~= first);
        assert(events_of_all(known, first) + Seq::<Event>::empty() =~= events_of_all(known, first));
    } else {
        law_rows_are_joined(known, first, second.drop_last());
        assert((first + second).drop_last() =~= first + second.drop_last());
        assert(events_of_all(known, first + second) =~= events_of_all(known, first)
            + events_of_all(known_after_all(known, first), second));
    }
}

/// Of no message nothing comes; of a row of one, what comes of that message.
pub proof fn law_row_of_one(known: Set<BDAddr>, message: Message)
    ensures
        known_after_all(known, Seq::<Message>::empty()) == known,
        events_of_all(known, Seq::<Message>::empty()).len() == 0,
        known_after_all(known, seq![message]) == known_after(known, message),
        match event_of(known, message) {
            Some(event) => events_of_all(known, seq![message]) == seq![event],
            None => events_of_all(known, seq![message]).len() == 0,
        },
{
    assert(seq![message].drop_last() =~= Seq::<Message>::empty());
    reveal_with_fuel(known_after_all, 2);
    reveal_with_fuel(events_of_all, 2);
}

/// One more message adds itself to the messages, and its event, if any, to the events.
proof fn lemma_one_more_message(known: Set<BDAddr>, messages: Seq<Message>)
    requires
        messages.len() > 0,
    ensures
        ({
            let early = messages.drop_last();
            let before = events_of_all(known, early).to_multiset();
            &&& messages.to_multiset() == early.to_multiset().insert(messages.last())
            &&& events_of_all(known, messages).to_multiset() == (match event_of(
                known_after_all(known, early),
                messages.last(),
            ) {
                Some(event) => before.insert(event),
                None => before,
            })
        }),
{
    let early = messages.drop_last();
    assert(messages =~= early.push(messages.last()));
    vstd::seq_lib::to_multiset_build(early, messages.last());
    if let Some(event) = event_of(known_after_all(known, early), messages.last()) {
        vstd::seq_lib::to_multiset_build(events_of_all(known, early), event);
    }
}

/// `lists` are the lists of listeners before, between and after the handling of
/// `messages`, each of which was followed by telling its event; `told` and `open` hold
/// the listeners and the answers each time.
pub open spec fn messages_told(
    known: Set<BDAddr>,
    messages: Seq<Message>,
    lists: Seq<Seq<Listener>>,
    told: Seq<Seq<Listener>>,
    open: Seq<Seq<bool>>,
) -> bool {
    &&& lists.len() == messages.len() + 1
    &&& told.len() == messages.len()
    &&& open.len() == messages.len()
    &&& forall|i: int|
        0 <= i < messages.len() ==> events::told_of(
            lists[i],
            event_of(known_after_all(known, messages.take(i)), messages[i]),
            #[trigger] told[i],
            open[i],
            lists[i + 1],
        )
}

/// The record of one to whom `events` were told, with its receiving end there each
/// time.
pub open spec fn delivered(events: Seq<Event>) -> Seq<(Event, bool)> {
    events.map_values(|event: Event| (event, true))
}

/// The event of the message with the number `k` was told to one on the channel
/// `channel` who had been told all events before it, behind `record`, and whose
/// receiving end was gone.
pub open spec fn gone_at(
    known: Set<BDAddr>,
    messages: Seq<Message>,
    told: Seq<Seq<Listener>>,
    k: int,
    channel: int,
    record: Seq<(Event, bool)>,
) -> bool {
    &&& 0 <= k < messages.len()
    &&& event_of(known_after_all(known, messages.take(k)), messages[k]) matches Some(event)
        && events::listens(
        told[k],
        channel,
        (record + delivered(events_of_all(known, messages.take(k)))).push((event, false)),
    )
}

/// Whoever listens is told the events of the messages that follow, all of them, each
/// once and in order, until its receiving end is gone.
pub proof fn law_listener_follows_messages(
    known: Set<BDAddr>,
    messages: Seq<Message>,
    lists: Seq<Seq<Listener>>,
    told: Seq<Seq<Listener>>,
    open: Seq<Seq<bool>>,
    listener: Listener,
)
    requires
        messages_told(known, messages, lists, told, open),
        lists[0].contains(listener),
    ensures
        ({
            ||| events::listens(
                lists.last(),
                listener.channel(),
                listener.record() + delivered(events_of_all(known, messages)),
            )
            ||| exists|k: int| #[trigger]
                gone_at(known, messages, told, k, listener.channel(), listener.record())
        }),
    decreases messages.len(),
{
    let channel = listener.channel();
    let record = listener.record();
    if messages.len() == 0 {
        assert(record + delivered(events_of_all(known, messages)) =~= record);
        let i = choose|i: int| 0 <= i < lists[0].len() && lists[0][i] == listener;
        assert(lists.last()[i].channel() == channel);
    } else {
        let n = messages.len() - 1;
        let early = messages.drop_last();
        assert(early =~= messages.take(n));
        assert forall|i: int| 0 <= i < early.len() implies events::told_of(
            lists.drop_last()[i],
            event_of(known_after_all(known, early.take(i)), early[i]),
            #[trigger] told.drop_last()[i],
            open.drop_last()[i],
            lists.drop_last()[i + 1],
        ) by {
            assert(early.take(i) =~= messages.take(i));
            assert(told.drop_last()[i] == told[i]);
        }
        law_listener_follows_messages(
            known,
            early,
            lists.drop_last(),
            told.drop_last(),
            open.drop_last(),
            listener,
        );
        let sent = record + delivered(events_of_all(known, early));
        let event = event_of(known_after_all(known, early), messages[n]);
        assert(events::told_of(lists[n], event, told[n], open[n], lists[n + 1]));
        if events::listens(lists[n], channel, sent) {
            if let Some(e) = event {
                events::law_told_or_gone(
                    lists[n],
                    e,
                    told[n],
                    open[n],
                    lists.last(),
                    channel,
                    sent,
                );
                assert(record + delivered(events_of_all(known, messages)) =~= sent.push(
                    (e, true),
                ));
                if events::listens(told[n], channel, sent.push((e, false))) {
                    assert(gone_at(known, messages, told, n, channel, record));
                }
            }
        } else {
            let k = choose|k: int| #[trigger]
                gone_at(known, early, told.drop_last(), k, channel, record);
            assert(early.take(k) =~= messages.take(k));
            assert(gone_at(known, messages, told, k, channel, record));
        }
    }
}

/// A message only ever goes to devices that are known by then.
pub proof fn law_recipients_are_known(known: Set<BDAddr>, message: Message)
    ensures
        recipients_of(known, message).subset_of(known_after(known, message)),
{
}

/// A peripheral is made for a device just when its discovery is told.
pub proof fn law_created_is_discovered(known: Set<BDAddr>, message: Message, a: BDAddr)
    ensures
        created_by(known, message) == Some(a) <==> event_of(known, message) == Some(
            Event::DeviceDiscovered(a),
        ),
{
}

/// The way to a connected adapter: each stage says what is to be done next, and
/// `advance` takes its result.
#[derive(Debug, Copy, Clone)]
pub enum Connecting {
    /// Open a raw HCI socket, to reach the device `dev_id`.
    Socket { dev_id: u16 },
    /// Bind the socket `fd` to `addr`.
    Bind { fd: i32, addr: SockaddrHCI },
    /// Make a `ConnectedAdapter` on `fd`, start reading, and set the socket filter.
    Filter { fd: i32 },
    /// Nothing: the adapter is connected.
    Connected { fd: i32 },
}

impl Connecting {
    /// The stage behind this one, whose work has ended in `value`.
    pub open spec fn next(self, value: i32) -> Connecting {
        match self {
            Connecting::Socket { dev_id } => Connecting::Bind {
                fd: value,
                addr: SockaddrHCI { hci_family: 31, hci_dev: dev_id, hci_channel: 0 },
            },
            Connecting::Bind { fd, .. } => Connecting::Filter { fd },
            Connecting::Filter { fd } => Connecting::Connected { fd },
            Connecting::Connected { fd } => Connecting::Connected { fd },
        }
    }

    /// Takes the result of a stage's work. An error is handed on.
    pub fn advance<E>(self, result: Result<i32, E>) -> (next: Result<Connecting, E>)
        ensures
            next == (match result {
                Ok(value) => Ok::<Connecting, E>(self.next(value)),
                Err(e) => Err(e),
            }),
    {
        match result {
            Ok(value) => Ok(
                match self {
                    Connecting::Socket { dev_id } => Connecting::Bind {
                        fd: value,
                        addr: SockaddrHCI::raw_channel(dev_id),
                    },
                    Connecting::Bind { fd, .. } => Connecting::Filter { fd },
                    Connecting::Filter { fd } => Connecting::Connected { fd },
                    Connecting::Connected { fd } => Connecting::Connected { fd },
                },
            ),
            Err(e) => Err(e),
        }
    }
}

/// Where the socket is opened, bound and given its filter, in that order, the adapter
/// is connected on that socket, which was bound to the raw channel of its device.
pub proof fn law_connect_in_three(dev_id: u16, fd: i32, bound: i32, filtered: i32)
    ensures
        (Connecting::Socket { dev_id }).next(fd) == (Connecting::Bind {
            fd,
            addr: SockaddrHCI { hci_family: 31, hci_dev: dev_id, hci_channel: 0 },
        }),
        (Connecting::Socket { dev_id }).next(fd).next(bound).next(filtered)
            == (Connecting::Connected { fd }),
{
}

/// Each stage is followed by the next, and by no other, whatever the socket, the device,
/// the address or the results: opening by binding the opened socket to the raw channel
/// of the device, binding by setting the filter on the socket that was bound, setting
/// the filter by the end, which stays.
pub proof fn law_connecting_stages(
    dev_id: u16,
    fd: i32,
    addr: SockaddrHCI,
    opened: i32,
    bound: i32,
    filtered: i32,
)
    ensures
        (Connecting::Socket { dev_id }).next(opened) == (Connecting::Bind {
            fd: opened,
            addr: SockaddrHCI { hci_family: 31, hci_dev: dev_id, hci_channel: 0 },
        }),
        (Connecting::Socket { dev_id }).next(opened).next(bound) == (Connecting::Filter {
            fd: opened,
        }),
        (Connecting::Bind { fd, addr }).next(bound) == (Connecting::Filter { fd }),
        (Connecting::Filter { fd }).next(filtered) == (Connecting::Connected { fd }),
        (Connecting::Connected { fd }).next(filtered) == (Connecting::Connected { fd }),
{
}

/// The adapter is connected only once the filter has been set, on the same socket; the
/// filter is set only once the socket is bound, and on that socket; a socket is bound
/// only once it has been opened.
pub proof fn law_connected_through_filter(stage: Connecting, value: i32)
    ensures
        stage.next(value) matches Connecting::Connected { fd } ==> {
            ||| stage == (Connecting::Filter { fd })
            ||| stage == (Connecting::Connected { fd })
        },
        stage.next(value) matches Connecting::Filter { fd } ==> stage is Bind && stage->Bind_fd
            == fd,
        stage.next(value) matches Connecting::Bind { fd, addr } ==> stage is Socket && fd == value
            && addr.hci_dev == stage->dev_id,
        !(stage.next(value) is Socket),
{
}

/// The result of binding or of setting the filter decides nothing but success.
pub proof fn law_later_results_do_not_matter(stage: Connecting, v: i32, w: i32)
    requires
        !(stage is Socket),
    ensures
        stage.next(v) == stage.next(w),
{
}

impl Adapter {
    /// Sets out to connect this adapter.
    pub fn connect(&self) -> (start: Connecting)
        ensures
            start == (Connecting::Socket { dev_id: self.dev_id }),
    {
        Connecting::Socket { dev_id: self.dev_id }
    }
}

} // verus!
