//! The packet filter of the adapter's socket: which packets the kernel hands on.

use bytes::BytesMut;
use vstd::prelude::*;

use crate::buffer;
use crate::constants::{
    EVT_CMD_COMPLETE, EVT_CMD_STATUS, EVT_DISCONN_COMPLETE, EVT_ENCRYPT_CHANGE,
    EVT_LE_META_EVENT, HCI_ACLDATA_PKT, HCI_COMMAND_PKT, HCI_EVENT_PKT,
};

verus! {

/// The bytes of a filter: the wanted packet types, the wanted events below 32 and
/// from 32 on, one bit each, and the opcode that command events are narrowed to.
pub open spec fn filter_bytes(types: u32, events1: u32, events2: u32, opcode: u32) -> Seq<u8> {
    buffer::le_u32(types) + buffer::le_u32(events1) + buffer::le_u32(events2) + buffer::le_u32(
        opcode,
    )
}

/// The packet types that the adapter wants: commands, events and data.
pub open spec fn wanted_types() -> u32 {
    (1u32 << HCI_COMMAND_PKT) | (1u32 << HCI_EVENT_PKT) | (1u32 << HCI_ACLDATA_PKT)
}

/// The events below 32 that the adapter wants.
pub open spec fn wanted_events1() -> u32 {
    (1u32 << EVT_DISCONN_COMPLETE) | (1u32 << EVT_ENCRYPT_CHANGE) | (1u32 << EVT_CMD_COMPLETE)
        | (1u32 << EVT_CMD_STATUS)
}

/// The events from 32 on that the adapter wants.
pub open spec fn wanted_events2() -> u32 {
    1u32 << ((EVT_LE_META_EVENT - 32) as u8)
}

/// The filter that the adapter sets on its socket.
pub open spec fn adapter_filter() -> Seq<u8> {
    filter_bytes(wanted_types(), wanted_events1(), wanted_events2(), 0)
}

/// Makes the filter that the adapter sets on its socket.
pub fn socket_filter() -> (filter: Vec<u8>)
    ensures
        filter@ == adapter_filter(),
{
    let mut filter: BytesMut = buffer::with_capacity(16);
    let type_mask: u32 = (1u32 << HCI_COMMAND_PKT) | (1u32 << HCI_EVENT_PKT) | (1u32
        << HCI_ACLDATA_PKT);
    let event_mask1: u32 = (1u32 << EVT_DISCONN_COMPLETE) | (1u32 << EVT_ENCRYPT_CHANGE) | (1u32
        << EVT_CMD_COMPLETE) | (1u32 << EVT_CMD_STATUS);
    let event_mask2: u32 = 1u32 << (EVT_LE_META_EVENT - 32);
    let opcode: u32 = 0;
    buffer::put_u32_le(&mut filter, type_mask);
    buffer::put_u32_le(&mut filter, event_mask1);
    buffer::put_u32_le(&mut filter, event_mask2);
    buffer::put_u32_le(&mut filter, opcode);
    let bytes = vstd::slice::slice_to_vec(buffer::as_slice(&filter));
    assert(bytes@ =~= adapter_filter());
    bytes
}

/// The number that the four bytes of `filter` from `at` on stand for, the lowest
/// first.
pub open spec fn word_at(filter: Seq<u8>, at: int) -> u32 {
    (filter[at] + 0x100 * filter[at + 1] + 0x1_0000 * filter[at + 2] + 0x100_0000 * filter[at
        + 3]) as u32
}

/// Whether `filter` lets packets of the type `typ` pass.
pub open spec fn passes_type(filter: Seq<u8>, typ: u8) -> bool {
    typ < 32 && word_at(filter, 0) & (1u32 << typ) != 0
}

/// Whether `filter` lets the event `code` pass.
pub open spec fn passes_event(filter: Seq<u8>, code: u8) -> bool {
    ||| code < 32 && word_at(filter, 4) & (1u32 << code) != 0
    ||| 32 <= code < 64 && word_at(filter, 8) & (1u32 << ((code - 32) as u8)) != 0
}

/// The adapter's filter lets commands, events and data pass, and no other packets.
pub proof fn law_filter_types(typ: u8)
    ensures
        passes_type(adapter_filter(), typ) <==> {
            ||| typ == HCI_COMMAND_PKT
            ||| typ == HCI_EVENT_PKT
            ||| typ == HCI_ACLDATA_PKT
        },
{
    lemma_filter_words();
    assert(typ < 32 ==> ((0x16u32 & (1u32 << typ) != 0) == (typ == 1 || typ == 4 || typ == 2)))
        by (bit_vector);
}

/// The adapter's filter lets these five events pass, and no others.
pub proof fn law_filter_events(code: u8)
    ensures
        passes_event(adapter_filter(), code) <==> {
            ||| code == EVT_DISCONN_COMPLETE
            ||| code == EVT_ENCRYPT_CHANGE
            ||| code == EVT_CMD_COMPLETE
            ||| code == EVT_CMD_STATUS
            ||| code == EVT_LE_META_EVENT
        },
{
    lemma_filter_words();
    assert(code < 32 ==> ((0xc120u32 & (1u32 << code) != 0) == (code == 5 || code == 8 || code
        == 14 || code == 15))) by (bit_vector);
    if 32 <= code < 64 {
        let high = (code - 32) as u8;
        assert((0x4000_0000u32 & (1u32 << high) != 0) == (high == 30)) by (bit_vector)
            requires
                high < 32,
        ;
    }
}

/// The adapter's filter is sixteen bytes long, and narrows command events to no opcode.
pub proof fn law_filter_opcode()
    ensures
        adapter_filter().len() == 16,
        word_at(adapter_filter(), 12) == 0,
{
    law_filter_words(wanted_types(), wanted_events1(), wanted_events2(), 0);
}

/// The adapter's filter, byte by byte: three words of bits and the opcode, each with
/// its lowest byte first.
pub proof fn law_filter_bytes()
    ensures
        adapter_filter() == seq![
            0x16u8, 0x00u8, 0x00u8, 0x00u8,
            0x20u8, 0xc1u8, 0x00u8, 0x00u8,
            0x00u8, 0x00u8, 0x00u8, 0x40u8,
            0x00u8, 0x00u8, 0x00u8, 0x00u8,
        ],
{
    assert(wanted_types() == 0x16) by (bit_vector);
    assert(wanted_events1() == 0xc120) by (bit_vector);
    assert(wanted_events2() == 0x4000_0000) by (bit_vector);
}

/// The words that a filter is made of can be read back.
pub proof fn law_filter_words(types: u32, events1: u32, events2: u32, opcode: u32)
    ensures
        word_at(filter_bytes(types, events1, events2, opcode), 0) == types,
        word_at(filter_bytes(types, events1, events2, opcode), 4) == events1,
        word_at(filter_bytes(types, events1, events2, opcode), 8) == events2,
        word_at(filter_bytes(types, events1, events2, opcode), 12) == opcode,
{
    lemma_word_digits(types);
    lemma_word_digits(events1);
    lemma_word_digits(events2);
    lemma_word_digits(opcode);
}

proof fn lemma_word_digits(n: u32)
    ensures
        n == n % 256 + 0x100 * (n / 256 % 256) + 0x1_0000 * (n / 65536 % 256) + 0x100_0000 * (n
            / 16777216),
{
}

proof fn lemma_filter_words()
    ensures
        word_at(adapter_filter(), 0) == 0x16,
        word_at(adapter_filter(), 4) == 0xc120,
        word_at(adapter_filter(), 8) == 0x4000_0000,
{
    law_filter_words(wanted_types(), wanted_events1(), wanted_events2(), 0);
    assert(wanted_types() == 0x16) by (bit_vector);
    assert(wanted_events1() == 0xc120) by (bit_vector);
    assert(wanted_events2() == 0x4000_0000) by (bit_vector);
}

} // verus!
