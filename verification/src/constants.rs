//! Numbers of the Bluetooth host controller interface and of the Linux HCI sockets.

use vstd::prelude::*;

verus! {

/// Packet indicator of a command.
pub const HCI_COMMAND_PKT: u8 = 0x01;

/// Packet indicator of asynchronous data.
pub const HCI_ACLDATA_PKT: u8 = 0x02;

/// Packet indicator of an event.
pub const HCI_EVENT_PKT: u8 = 0x04;

/// Event code: a connection was closed.
pub const EVT_DISCONN_COMPLETE: u8 = 0x05;

/// Event code: the encryption of a connection changed.
pub const EVT_ENCRYPT_CHANGE: u8 = 0x08;

/// Event code: a command was completed.
pub const EVT_CMD_COMPLETE: u8 = 0x0e;

/// Event code: a command was accepted or refused.
pub const EVT_CMD_STATUS: u8 = 0x0f;

/// Event code: a low energy event, told apart by a sub-event code.
pub const EVT_LE_META_EVENT: u8 = 0x3e;

/// Opcode of "LE Set Scan Parameters": group 0x08, command 0x000b.
pub const LE_SET_SCAN_PARAMETERS_CMD: u16 = 0x200b;

/// Opcode of "LE Set Scan Enable": group 0x08, command 0x000c.
pub const LE_SET_SCAN_ENABLE_CMD: u16 = 0x200c;

/// Socket option level of HCI sockets.
pub const SOL_HCI: i32 = 0;

/// Socket option that sets the packet filter.
pub const HCI_FILTER: i32 = 2;

/// Protocol number of HCI in the Bluetooth protocol family.
pub const BTPROTO_HCI: i32 = 1;

/// The number of bytes that are read from the socket at once.
pub const READ_LEN: usize = 2048;

/// Request number of the `HCIGETDEVINFO` ioctl, `_IOR('H', 211, int)`.
pub const HCI_GET_DEV_MAGIC: usize = 0x8004_48d3;

/// A request number that reads: direction 2 in the top two bits, the argument's size
/// in the fourteen below, then the type and the number, eight bits each.
pub open spec fn ior(typ: u8, nr: u8, size: u32) -> u32 {
    (2u32 << 30) | (size << 16) | ((typ as u32) << 8) | (nr as u32)
}

/// `HCI_GET_DEV_MAGIC` is `_IOR('H', 211, int)`, with an `int` of four bytes.
pub proof fn law_get_dev_magic()
    ensures
        HCI_GET_DEV_MAGIC == ior(0x48, 211, 4),
        0x48 == 'H' as int,
{
    assert(ior(0x48, 211, 4) == 0x8004_48d3) by (bit_vector);
}

} // verus!
