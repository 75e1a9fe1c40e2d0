//! What the kernel's HCI interface exchanges about devices.

use vstd::prelude::*;

use crate::hci::BDAddr;

verus! {

/// A request about one device, with an option.
#[derive(Debug, Copy, Clone)]
pub struct HCIDevReq {
    pub dev_id: u16,
    pub dev_opt: u32,
}

/// Traffic counters of a device.
#[derive(Debug, Copy, Clone)]
pub struct HCIDevStats {
    pub err_rx: u32,
    pub err_tx: u32,
    pub cmd_tx: u32,
    pub evt_rx: u32,
    pub acl_tx: u32,
    pub acl_rx: u32,
    pub sco_tx: u32,
    pub sco_rx: u32,
    pub byte_rx: u32,
    pub byte_tx: u32,
}

impl HCIDevStats {
    /// Counters that have counted nothing.
    pub fn default() -> (stats: HCIDevStats)
        ensures
            stats == (HCIDevStats {
                err_rx: 0,
                err_tx: 0,
                cmd_tx: 0,
                evt_rx: 0,
                acl_tx: 0,
                acl_rx: 0,
                sco_tx: 0,
                sco_rx: 0,
                byte_rx: 0,
                byte_tx: 0,
            }),
    {
        HCIDevStats {
            err_rx: 0u32,
            err_tx: 0u32,
            cmd_tx: 0u32,
            evt_rx: 0u32,
            acl_tx: 0u32,
            acl_rx: 0u32,
            sco_tx: 0u32,
            sco_rx: 0u32,
            byte_rx: 0u32,
            byte_tx: 0u32,
        }
    }
}

/// The description of a device.
#[derive(Debug, Copy, Clone)]
pub struct HCIDevInfo {
    pub dev_id: u16,
    /// The device's name as a C string.
    pub name: [i8; 8],
    pub bdaddr: BDAddr,
    pub flags: u32,
    pub type_: u8,
    pub features: [u8; 8],
    pub pkt_type: u32,
    pub link_policy: u32,
    pub link_mode: u32,
    pub acl_mtu: u16,
    pub acl_pkts: u16,
    pub sco_mtu: u16,
    pub sco_pkts: u16,
    pub stat: HCIDevStats,
}

impl HCIDevInfo {
    /// Nothing is set but, possibly, the device's number.
    pub open spec fn blank(self) -> bool {
        &&& self.name@ == seq![0i8, 0i8, 0i8, 0i8, 0i8, 0i8, 0i8, 0i8]
        &&& self.bdaddr.address@ == seq![0u8, 0u8, 0u8, 0u8, 0u8, 0u8]
        &&& self.flags == 0
        &&& self.type_ == 0
        &&& self.features@ == seq![0u8, 0u8, 0u8, 0u8, 0u8, 0u8, 0u8, 0u8]
        &&& self.pkt_type == 0
        &&& self.link_policy == 0
        &&& self.link_mode == 0
        &&& self.acl_mtu == 0
        &&& self.acl_pkts == 0
        &&& self.sco_mtu == 0
        &&& self.sco_pkts == 0
        &&& self.stat == HCIDevStats {
            err_rx: 0,
            err_tx: 0,
            cmd_tx: 0,
            evt_rx: 0,
            acl_tx: 0,
            acl_rx: 0,
            sco_tx: 0,
            sco_rx: 0,
            byte_rx: 0,
            byte_tx: 0,
        }
    }

    /// A description with every field zero.
    pub fn default() -> (info: HCIDevInfo)
        ensures
            info.dev_id == 0,
            info.blank(),
    {
        let info = HCIDevInfo {
            dev_id: 0,
            name: [0i8; 8],
            bdaddr: BDAddr { address: [0u8; 6] },
            flags: 0u32,
            type_: 0u8,
            features: [0u8; 8],
            pkt_type: 0u32,
            link_policy: 0u32,
            link_mode: 0u32,
            acl_mtu: 0u16,
            acl_pkts: 0u16,
            sco_mtu: 0u16,
            sco_pkts: 0u16,
            stat: HCIDevStats::default(),
        };
        assert(info.name@ =~= seq![0i8, 0i8, 0i8, 0i8, 0i8, 0i8, 0i8, 0i8]);
        assert(info.bdaddr.address@ =~= seq![0u8, 0u8, 0u8, 0u8, 0u8, 0u8]);
        assert(info.features@ =~= seq![0u8, 0u8, 0u8, 0u8, 0u8, 0u8, 0u8, 0u8]);
        info
    }

    /// The argument with which the kernel is asked for the description of `dev_id`.
    pub fn request(dev_id: u16) -> (info: HCIDevInfo)
        ensures
            info.dev_id == dev_id,
            info.blank(),
    {
        let mut info = HCIDevInfo::default();
        info.dev_id = dev_id;
        info
    }
}

/// In a blank description every byte of every field but the device's number is zero.
pub proof fn law_blank_is_zero(info: HCIDevInfo)
    requires
        info.blank(),
    ensures
        forall|i: int| 0 <= i < 8 ==> #[trigger] info.name@[i] == 0,
        forall|i: int| 0 <= i < 6 ==> #[trigger] info.bdaddr.address@[i] == 0,
        forall|i: int| 0 <= i < 8 ==> #[trigger] info.features@[i] == 0,
        info.flags == 0,
        info.type_ == 0,
        info.pkt_type == 0,
        info.link_policy == 0,
        info.link_mode == 0,
        info.acl_mtu == 0,
        info.acl_pkts == 0,
        info.sco_mtu == 0,
        info.sco_pkts == 0,
        info.stat.err_rx == 0,
        info.stat.err_tx == 0,
        info.stat.cmd_tx == 0,
        info.stat.evt_rx == 0,
        info.stat.acl_tx == 0,
        info.stat.acl_rx == 0,
        info.stat.sco_tx == 0,
        info.stat.sco_rx == 0,
        info.stat.byte_rx == 0,
        info.stat.byte_tx == 0,
{
}

/// The address of an HCI socket.
#[derive(Debug, Copy, Clone)]
pub struct SockaddrHCI {
    pub hci_family: u16,
    pub hci_dev: u16,
    pub hci_channel: u16,
}

/// `libc::AF_BLUETOOTH`, which is 31 on Linux, as the kernel's `sa_family_t`.
#[verifier::external_body]
fn af_bluetooth() -> (family: u16)
    ensures
        family == 31,
{
    libc::AF_BLUETOOTH as u16
}

impl SockaddrHCI {
    /// The raw channel of the device `dev_id`.
    pub fn raw_channel(dev_id: u16) -> (addr: SockaddrHCI)
        ensures
            addr == (SockaddrHCI { hci_family: 31, hci_dev: dev_id, hci_channel: 0 }),
    {
        SockaddrHCI { hci_family: af_bluetooth(), hci_dev: dev_id, hci_channel: 0 }
    }
}

} // verus!
