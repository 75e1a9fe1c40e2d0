use hci_adapter::adapter::{c_str_to_text, Adapter, AdapterState, AdapterType};
use hci_adapter::connected::Connecting;
use hci_adapter::device::{HCIDevInfo, HCIDevStats, SockaddrHCI};
use hci_adapter::hci::BDAddr;

fn name(text: &[u8]) -> [i8; 8] {
    let mut chars = [0i8; 8];
    for i in 0..text.len() {
        chars[i] = text[i] as i8;
    }
    chars
}

#[test]
fn types_are_read_from_numbers() {
    assert_eq!(AdapterType::parse(0), AdapterType::BrEdr);
    assert_eq!(AdapterType::parse(1), AdapterType::Amp);
    assert_eq!(AdapterType::parse(7), AdapterType::Unknown(7));
}

#[test]
fn type_numbers_round_trip() {
    for n in 0..=255u8 {
        assert_eq!(AdapterType::parse(n).num(), n);
    }
    assert_eq!(AdapterType::Amp.num(), 1);
    assert_eq!(AdapterType::parse(AdapterType::Unknown(0).num()), AdapterType::BrEdr);
}

#[test]
fn no_flags_no_states() {
    assert!(AdapterState::parse(0).to_vec().is_empty());
    assert!(AdapterState::parse(0xffff_fe00).to_vec().is_empty());
}

#[test]
fn each_flag_is_a_state() {
    let all = [
        AdapterState::Up,
        AdapterState::Init,
        AdapterState::Running,
        AdapterState::Raw,
        AdapterState::PScan,
        AdapterState::IScan,
        AdapterState::Inquiry,
        AdapterState::Auth,
        AdapterState::Encrypt,
    ];
    for i in 0..9 {
        let set = AdapterState::parse(1 << i);
        assert_eq!(set.to_vec(), vec![all[i]]);
        for j in 0..9 {
            assert_eq!(set.contains(&all[j]), i == j);
        }
    }
    assert_eq!(AdapterState::parse(0x1ff).to_vec().len(), 9);
    assert_eq!(AdapterState::parse(u32::MAX).to_vec().len(), 9);
}

#[test]
fn states_are_cloned() {
    let set = AdapterState::parse(0b101);
    let copy = set.clone();
    assert!(copy.contains(&AdapterState::Up));
    assert!(!copy.contains(&AdapterState::Init));
    assert!(copy.contains(&AdapterState::Running));
}

#[test]
fn default_description_is_zero() {
    let info = HCIDevInfo::default();
    assert_eq!(info.dev_id, 0);
    assert_eq!(info.name, [0i8; 8]);
    assert_eq!(info.bdaddr, BDAddr { address: [0; 6] });
    assert_eq!(info.features, [0u8; 8]);
    assert_eq!(info.flags, 0);
    assert_eq!(info.type_, 0);
    assert_eq!((info.pkt_type, info.link_policy, info.link_mode), (0, 0, 0));
    assert_eq!((info.acl_mtu, info.acl_pkts, info.sco_mtu, info.sco_pkts), (0, 0, 0, 0));
    assert_eq!(info.stat.byte_tx, 0);
    let stats = HCIDevStats::default();
    assert_eq!((stats.err_rx, stats.err_tx, stats.cmd_tx, stats.evt_rx), (0, 0, 0, 0));
    assert_eq!((stats.acl_tx, stats.acl_rx, stats.sco_tx, stats.sco_rx), (0, 0, 0, 0));
    assert_eq!((stats.byte_rx, stats.byte_tx), (0, 0));
}

#[test]
fn request_names_the_device() {
    let info = HCIDevInfo::request(3);
    assert_eq!(info.dev_id, 3);
    assert_eq!(info.name, [0i8; 8]);
    assert_eq!(info.flags, 0);
}

#[test]
fn c_strings_end_at_the_first_zero() {
    assert_eq!(c_str_to_text(&name(b"hci0")), Some("hci0".to_string()));
    assert_eq!(c_str_to_text(&name(b"")), Some("".to_string()));
    assert_eq!(c_str_to_text(&name(b"a\0b")), Some("a".to_string()));
    assert_eq!(c_str_to_text(&name(b"sevench")), Some("sevench".to_string()));
}

#[test]
fn c_strings_hold_utf8() {
    assert_eq!(c_str_to_text(&name("h\u{e9}".as_bytes())), Some("h\u{e9}".to_string()));
    assert_eq!(c_str_to_text(&name(&[0xff])), None);
    assert_eq!(c_str_to_text(&name(&[0xc3])), None);
    assert_eq!(c_str_to_text(&name(&[b'a', 0, 0xff])), Some("a".to_string()));
}

#[test]
fn c_strings_without_an_end_have_no_text() {
    assert_eq!(c_str_to_text(&name(b"eightchr")), None);
}

fn described() -> HCIDevInfo {
    let mut di = HCIDevInfo::request(5);
    di.name = name(b"hci5");
    di.bdaddr = BDAddr { address: [1, 2, 3, 4, 5, 6] };
    di.flags = 0b1_0000_0101;
    di.type_ = 0x1f;
    di
}

#[test]
fn adapter_is_read_from_its_description() {
    let adapter = Adapter::from_device_info(&described());
    assert_eq!(adapter.name, "hci5");
    assert_eq!(adapter.dev_id, 0);
    assert_eq!(adapter.addr, BDAddr { address: [1, 2, 3, 4, 5, 6] });
    assert_eq!(adapter.typ, AdapterType::Amp);
    assert_eq!(adapter.states.to_vec().len(), 3);
    assert!(adapter.states.contains(&AdapterState::Encrypt));
    assert!(adapter.is_up());
}

#[test]
fn type_is_in_two_bits_of_the_description() {
    let mut di = described();
    for (type_, typ) in [
        (0x00, AdapterType::BrEdr),
        (0xcf, AdapterType::BrEdr),
        (0x10, AdapterType::Amp),
        (0x20, AdapterType::Unknown(2)),
        (0xff, AdapterType::Unknown(3)),
    ] {
        di.type_ = type_;
        assert_eq!(Adapter::from_device_info(&di).typ, typ);
    }
}

#[test]
fn adapter_is_down_without_the_lowest_flag() {
    let mut di = described();
    di.flags = 0xffff_fffe;
    assert!(!Adapter::from_device_info(&di).is_up());
}

#[test]
fn answers_are_read_and_errors_handed_on() {
    let ok: Result<HCIDevInfo, u8> = Ok(described());
    assert_eq!(Adapter::from_dev_id(ok).ok().map(|a| a.name), Some("hci5".to_string()));
    let err: Result<HCIDevInfo, u8> = Err(19);
    assert_eq!(Adapter::from_dev_id(err).err(), Some(19));
}

#[test]
fn adapters_are_cloned() {
    let adapter = Adapter::from_device_info(&described());
    let copy = adapter.clone();
    assert_eq!(copy.name, adapter.name);
    assert_eq!(copy.dev_id, adapter.dev_id);
    assert_eq!(copy.addr, adapter.addr);
    assert_eq!(copy.typ, adapter.typ);
    assert_eq!(copy.states.to_vec(), adapter.states.to_vec());
}

#[test]
fn socket_addresses_are_of_the_bluetooth_family() {
    let addr = SockaddrHCI::raw_channel(4);
    assert_eq!(addr.hci_family as i32, libc::AF_BLUETOOTH);
    assert_eq!(addr.hci_family, 31);
    assert_eq!(addr.hci_dev, 4);
    assert_eq!(addr.hci_channel, 0);
}

#[test]
fn connecting_takes_three_steps() {
    let mut adapter = Adapter::from_device_info(&described());
    adapter.dev_id = 2;
    let ok = |v: i32| -> Result<i32, String> { Ok(v) };
    let socket = adapter.connect();
    assert!(matches!(socket, Connecting::Socket { dev_id: 2 }));
    let bind = socket.advance(ok(9)).unwrap();
    match bind {
        Connecting::Bind { fd, addr } => {
            assert_eq!(fd, 9);
            assert_eq!((addr.hci_family, addr.hci_dev, addr.hci_channel), (31, 2, 0));
        }
        _ => panic!("not the second stage"),
    }
    let filter = bind.advance(ok(0)).unwrap();
    assert!(matches!(filter, Connecting::Filter { fd: 9 }));
    let connected = filter.advance(ok(0)).unwrap();
    assert!(matches!(connected, Connecting::Connected { fd: 9 }));
    assert!(matches!(connected.advance(ok(1)), Ok(Connecting::Connected { fd: 9 })));
}

#[test]
fn connecting_fails_at_any_step() {
    let adapter = Adapter::from_device_info(&described());
    let socket = adapter.connect();
    let bind = socket.advance(Ok::<i32, u8>(9)).unwrap();
    let filter = bind.advance(Ok::<i32, u8>(0)).unwrap();
    for stage in [socket, bind, filter] {
        assert_eq!(stage.advance(Err::<i32, u8>(13)).err(), Some(13));
    }
}
