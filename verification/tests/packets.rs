use hci_adapter::constants::HCI_GET_DEV_MAGIC;
use hci_adapter::filter::socket_filter;
use hci_adapter::hci::{hci_command, BDAddr};

#[test]
fn commands_are_framed() {
    assert_eq!(hci_command(0x0c03, &[]), vec![0x01, 0x03, 0x0c, 0x00]);
    assert_eq!(
        hci_command(0x2001, &[9, 8, 7]),
        vec![0x01, 0x01, 0x20, 0x03, 9, 8, 7]
    );
}

#[test]
fn longest_command_is_framed() {
    let data = vec![0xabu8; 255];
    let packet = hci_command(0xffff, &data);
    assert_eq!(packet.len(), 259);
    assert_eq!(&packet[..4], &[0x01, 0xff, 0xff, 0xff]);
    assert_eq!(&packet[4..], &data[..]);
}

#[test]
fn different_commands_differ() {
    assert_ne!(hci_command(1, &[2]), hci_command(2, &[2]));
    assert_ne!(hci_command(1, &[2]), hci_command(1, &[3]));
    assert_ne!(hci_command(1, &[2]), hci_command(1, &[2, 0]));
}

#[test]
fn filter_has_four_words() {
    assert_eq!(
        socket_filter(),
        vec![0x16, 0, 0, 0, 0x20, 0xc1, 0, 0, 0, 0, 0, 0x40, 0, 0, 0, 0]
    );
}

#[test]
fn filter_passes_wanted_events_only() {
    let filter = socket_filter();
    let passed: Vec<usize> = (0..64)
        .filter(|e| filter[4 + e / 8] & (1 << (e % 8)) != 0)
        .collect();
    assert_eq!(passed, vec![0x05, 0x08, 0x0e, 0x0f, 0x3e]);
    let types: Vec<usize> = (0..32)
        .filter(|t| filter[t / 8] & (1 << (t % 8)) != 0)
        .collect();
    assert_eq!(types, vec![1, 2, 4]);
}

#[test]
fn request_number_is_a_read_of_an_int() {
    let expected = (2usize << 30) | (4 << 16) | ((b'H' as usize) << 8) | 211;
    assert_eq!(HCI_GET_DEV_MAGIC, expected);
}

#[test]
fn addresses_have_numbers() {
    assert_eq!(BDAddr { address: [0; 6] }.key(), 0);
    assert_eq!(BDAddr { address: [1, 2, 3, 4, 5, 6] }.key(), 0x0605_0403_0201);
    assert_eq!(BDAddr { address: [255; 6] }.key(), 0xffff_ffff_ffff);
}
