//! Packets of the host controller interface: addresses, received messages and
//! commands to send.

use bytes::BytesMut;
use vstd::prelude::*;

use crate::buffer;
use crate::constants::HCI_COMMAND_PKT;

verus! {

/// The address of a Bluetooth device.
#[derive(Debug, Copy, Clone, PartialEq, Eq, Hash)]
pub struct BDAddr {
    pub address: [u8; 6],
}

impl BDAddr {
    /// The address as a number: its bytes are the digits, the first the lowest.
    pub open spec fn spec_key(self) -> int {
        self.address@[0] + 0x100 * self.address@[1] + 0x1_0000 * self.address@[2]
            + 0x100_0000 * self.address@[3] + 0x1_0000_0000 * self.address@[4]
            + 0x100_0000_0000 * self.address@[5]
    }

    /// The number that stands for this address.
    pub fn key(&self) -> (key: u64)
        ensures
            key == self.spec_key(),
    {
        self.address[0] as u64 + 0x100 * self.address[1] as u64 + 0x1_0000
            * self.address[2] as u64 + 0x100_0000 * self.address[3] as u64 + 0x1_0000_0000
            * self.address[4] as u64 + 0x100_0000_0000 * self.address[5] as u64
    }
}

/// Different addresses have different numbers.
pub proof fn law_key_injective(a: BDAddr, b: BDAddr)
    requires
        a.spec_key() == b.spec_key(),
    ensures
        a == b,
{
    let (x, y) = (a.address@, b.address@);
    let x5 = x[5] as int;
    let y5 = y[5] as int;
    let x4 = x[4] + 256 * x5;
    let y4 = y[4] + 256 * y5;
    let x3 = x[3] + 256 * x4;
    let y3 = y[3] + 256 * y4;
    let x2 = x[2] + 256 * x3;
    let y2 = y[2] + 256 * y3;
    let x1 = x[1] + 256 * x2;
    let y1 = y[1] + 256 * y2;
    lemma_low_digit(x[0], x1, y[0], y1);
    lemma_low_digit(x[1], x2, y[1], y2);
    lemma_low_digit(x[2], x3, y[2], y3);
    lemma_low_digit(x[3], x4, y[3], y4);
    lemma_low_digit(x[4], x5, y[4], y5);
    assert(a.address@ =~= b.address@);
    assert(a.address =~= b.address);
}

/// The lowest digit of a number in base 256, and the rest, are the number's own.
proof fn lemma_low_digit(x: u8, rest_x: int, y: u8, rest_y: int)
    requires
        x + 256 * rest_x == y + 256 * rest_y,
    ensures
        x == y,
        rest_x == rest_y,
{
}

/// The bytes of an address are the digits of its number in base 256, the first the
/// lowest.
pub proof fn law_key_digits(a: BDAddr)
    ensures
        a.spec_key() % 0x100 == a.address@[0],
        a.spec_key() / 0x100 % 0x100 == a.address@[1],
        a.spec_key() / 0x1_0000 % 0x100 == a.address@[2],
        a.spec_key() / 0x100_0000 % 0x100 == a.address@[3],
        a.spec_key() / 0x1_0000_0000 % 0x100 == a.address@[4],
        a.spec_key() / 0x100_0000_0000 == a.address@[5],
{
    let x = a.address@;
    let k0 = a.spec_key();
    let k5 = x[5] as int;
    let k4 = x[4] + 256 * k5;
    let k3 = x[3] + 256 * k4;
    let k2 = x[2] + 256 * k3;
    let k1 = x[1] + 256 * k2;
    assert(k0 == x[0] + 256 * k1);
    lemma_split_digit(x[0], k1);
    lemma_split_digit(x[1], k2);
    lemma_split_digit(x[2], k3);
    lemma_split_digit(x[3], k4);
    lemma_split_digit(x[4], k5);
    vstd::arithmetic::div_mod::lemma_div_denominator(k0, 0x100, 0x100);
    vstd::arithmetic::div_mod::lemma_div_denominator(k0, 0x1_0000, 0x100);
    vstd::arithmetic::div_mod::lemma_div_denominator(k0, 0x100_0000, 0x100);
    vstd::arithmetic::div_mod::lemma_div_denominator(k0, 0x1_0000_0000, 0x100);
}

/// A digit put below a number in base 256 can be taken off again.
proof fn lemma_split_digit(x: u8, rest: int)
    ensures
        (x + 256 * rest) % 256 == x,
        (x + 256 * rest) / 256 == rest,
{
}

/// An address's number fits in 48 bits.
pub proof fn lemma_key_range(a: BDAddr)
    ensures
        0 <= a.spec_key() < 0x1_0000_0000_0000,
{
}

/// A message from the controller, as far as the adapter looks into it.
#[derive(Debug, Copy, Clone)]
pub enum Message {
    /// A device advertised itself.
    LEAdvertisingReport { bdaddr: BDAddr },
    /// A connection to a device was made.
    LEConnComplete { bdaddr: BDAddr },
    /// Data arrived on a connection.
    ACLDataPacket,
    /// A connection was closed.
    DisconnectComplete { handle: u16 },
    /// Anything else.
    Other,
}

/// The bytes of a command: the packet indicator, the opcode, the number of parameter
/// bytes, the parameters.
pub open spec fn command_packet(command: u16, data: Seq<u8>) -> Seq<u8> {
    seq![HCI_COMMAND_PKT] + buffer::le_u16(command) + seq![data.len() as u8] + data
}

/// Frames the parameters `data` of an HCI command.
pub fn hci_command(command: u16, data: &[u8]) -> (packet: Vec<u8>)
    requires
        data@.len() <= 255,
    ensures
        packet@ == command_packet(command, data@),
{
    let mut buf: BytesMut = buffer::with_capacity(4 + data.len());
    buffer::put_u8(&mut buf, HCI_COMMAND_PKT);
    buffer::put_u16_le(&mut buf, command);
    buffer::put_u8(&mut buf, data.len() as u8);
    buffer::put_bytes(&mut buf, data);
    let packet = vstd::slice::slice_to_vec(buffer::as_slice(&buf));
    assert(packet@ =~= command_packet(command, data@));
    packet
}

/// A command packet tells its opcode and its parameters: no two commands share one.
pub proof fn law_command_packet_injective(c1: u16, d1: Seq<u8>, c2: u16, d2: Seq<u8>)
    requires
        command_packet(c1, d1) == command_packet(c2, d2),
    ensures
        c1 == c2,
        d1 == d2,
{
    let p1 = command_packet(c1, d1);
    let p2 = command_packet(c2, d2);
    assert(p1[1] == (c1 % 256) as u8 && p1[2] == (c1 / 256) as u8);
    assert(p2[1] == (c2 % 256) as u8 && p2[2] == (c2 / 256) as u8);
    assert(p1.skip(4) =~= d1);
    assert(p2.skip(4) =~= d2);
}

/// A command packet can be read: behind the indicator stand the opcode, the low byte
/// first, the number of parameter bytes, and these bytes as they are.
pub proof fn law_command_packet_is_readable(command: u16, data: Seq<u8>)
    requires
        data.len() <= 255,
    ensures
        ({
            let p = command_packet(command, data);
            &&& p.len() == 4 + data.len()
            &&& p[0] == 1
            &&& p[1] + 0x100 * p[2] == command
            &&& p[3] == data.len()
            &&& forall|i: int| 0 <= i < data.len() ==> #[trigger] data[i] == p[4 + i]
        }),
{
    buffer::law_le_u16_digits(command);
}

} // verus!
