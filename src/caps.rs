//! The virtio-pci capability list: vendor-specific capabilities in a
//! device's PCI config space that locate the common, notify, ISR and
//! device-specific configuration structures inside its BARs.
//!
//! Config space is handed in as the bytes read from it, from offset 0. A
//! walk follows at most `MAX_CAPS` nodes, so a list that loops ends.
use vstd::prelude::*;
use crate::pci::{PciDevice, PCI_CAP_PTR, PCI_STATUS};

verus! {

/// Capability ID of vendor-specific (virtio) capabilities.
pub const PCI_CAP_ID_VNDR: u8 = 0x09;

/// Status register bit: the device has a capability list.
pub const PCI_STATUS_CAP_LIST: u16 = 0x10;

pub const VIRTIO_PCI_CAP_COMMON_CFG: u8 = 1;

pub const VIRTIO_PCI_CAP_NOTIFY_CFG: u8 = 2;

pub const VIRTIO_PCI_CAP_ISR_CFG: u8 = 3;

pub const VIRTIO_PCI_CAP_DEVICE_CFG: u8 = 4;

pub const VIRTIO_PCI_CAP_PCI_CFG: u8 = 5;

/// Most nodes that a walk of the capability list follows.
pub const MAX_CAPS: u8 = 48;

/// One virtio capability, as it stands in config space.
#[derive(Clone, Copy)]
pub struct VirtioCap {
    pub cfg_type: u8,
    pub bar: u8,
    pub offset: u32,
    pub length: u32,
    /// Only for notify capabilities; 0 for the others.
    pub notify_off_multiplier: u32,
}

/// Absolute addresses of a device's virtio configuration structures
/// (0 where absent) and the notify offset multiplier.
#[derive(Clone, Copy)]
pub struct VirtioModern {
    pub common: u64,
    pub notify: u64,
    pub isr: u64,
    pub device: u64,
    pub notify_mult: u32,
}

/// A device's virtio configuration structures, resolved with the fallback
/// table for a BAR 0 that the hypervisor left unmapped.
pub struct VirtioModernDevice {
    pub common_cfg: u64,
    pub notify_cfg: u64,
    pub notify_off_multiplier: u32,
    pub isr_cfg: u64,
    pub device_cfg: u64,
    pub device_id: u16,
}

/// The offsets of the capabilities with a given ID, one at a time.
pub struct CapabilityIter {
    pub cap_id: u8,
    pub next_offset: u8,
    /// Nodes that the walk may still follow.
    pub budget: u8,
}

/// Little-endian 16-bit word at `i`.
pub open spec fn le16(c: Seq<u8>, i: int) -> int {
    c[i] + c[i + 1] * 0x100
}

/// Little-endian 32-bit word at `i`.
pub open spec fn le32(c: Seq<u8>, i: int) -> int {
    c[i] + c[i + 1] * 0x100 + c[i + 2] * 0x1_0000 + c[i + 3] * 0x100_0000
}

/// The capability at `off`, where its bytes lie within `c`.
pub open spec fn cap_at(c: Seq<u8>, off: int) -> Option<VirtioCap> {
    if off + 16 > c.len() {
        None
    } else if c[off + 3] == VIRTIO_PCI_CAP_NOTIFY_CFG {
        if off + 20 > c.len() {
            None
        } else {
            Some(
                VirtioCap {
                    cfg_type: c[off + 3],
                    bar: c[off + 4],
                    offset: le32(c, off + 8) as u32,
                    length: le32(c, off + 12) as u32,
                    notify_off_multiplier: le32(c, off + 16) as u32,
                },
            )
        }
    } else {
        Some(
            VirtioCap {
                cfg_type: c[off + 3],
                bar: c[off + 4],
                offset: le32(c, off + 8) as u32,
                length: le32(c, off + 12) as u32,
                notify_off_multiplier: 0,
            },
        )
    }
}

/// The config space advertises a capability list.
pub open spec fn has_cap_list(c: Seq<u8>) -> bool {
    c.len() > PCI_CAP_PTR && (le16(c, PCI_STATUS as int) / 0x10) % 2 == 1
}

/// The node at `off` is one that a walk visits: not the end marker, and its
/// ID and next pointer lie within `c`.
pub open spec fn is_node(c: Seq<u8>, off: int) -> bool {
    off != 0 && off != 0xFF && off + 2 <= c.len()
}

/// Offsets of the nodes with ID `id`, walking from `off` for at most `fuel` nodes.
pub open spec fn cap_offsets(c: Seq<u8>, off: int, fuel: nat, id: u8) -> Seq<u8>
    decreases fuel,
{
    if fuel == 0 || !is_node(c, off) {
        Seq::empty()
    } else if c[off] == id {
        seq![off as u8] + cap_offsets(c, c[off + 1] as int, (fuel - 1) as nat, id)
    } else {
        cap_offsets(c, c[off + 1] as int, (fuel - 1) as nat, id)
    }
}

/// The structures found so far, after the capability `cap`: where its BAR
/// index is below 6, that BAR is mapped and the sum fits, the address
/// `bars[bar] + offset` goes to the slot that its type names.
pub open spec fn apply_cap(m: VirtioModern, cap: VirtioCap, bars: Seq<u64>) -> VirtioModern {
    if cap.bar < 6 && bars[cap.bar as int] != 0 && bars[cap.bar as int] + cap.offset <= u64::MAX {
        let a = (bars[cap.bar as int] + cap.offset) as u64;
        if cap.cfg_type == VIRTIO_PCI_CAP_COMMON_CFG {
            VirtioModern { common: a, ..m }
        } else if cap.cfg_type == VIRTIO_PCI_CAP_NOTIFY_CFG {
            VirtioModern { notify: a, notify_mult: cap.notify_off_multiplier, ..m }
        } else if cap.cfg_type == VIRTIO_PCI_CAP_ISR_CFG {
            VirtioModern { isr: a, ..m }
        } else if cap.cfg_type == VIRTIO_PCI_CAP_DEVICE_CFG {
            VirtioModern { device: a, ..m }
        } else {
            m
        }
    } else {
        m
    }
}

/// The structures found by walking the list from `off` for at most `fuel`
/// nodes, starting from `m`; vendor nodes whose bytes leave `c` are passed over.
pub open spec fn resolve_from(c: Seq<u8>, bars: Seq<u64>, off: int, fuel: nat, m: VirtioModern) -> VirtioModern
    decreases fuel,
{
    if fuel == 0 || !is_node(c, off) {
        m
    } else {
        let m2 = if c[off] == PCI_CAP_ID_VNDR {
            match cap_at(c, off) {
                Some(cap) => apply_cap(m, cap, bars),
                None => m,
            }
        } else {
            m
        };
        resolve_from(c, bars, c[off + 1] as int, (fuel - 1) as nat, m2)
    }
}

pub open spec fn no_structures() -> VirtioModern {
    VirtioModern { common: 0, notify: 0, isr: 0, device: 0, notify_mult: 0 }
}

/// The structures that the capability list of `c` locates in `bars`.
pub open spec fn resolved(c: Seq<u8>, bars: Seq<u64>) -> VirtioModern {
    if has_cap_list(c) {
        resolve_from(c, bars, c[PCI_CAP_PTR as int] as int, MAX_CAPS as nat, no_structures())
    } else {
        no_structures()
    }
}

/// Fallback BAR 0 addresses, by device ID, for hypervisors that ignore the
/// guest's BAR writes.
pub open spec fn ghost_bar0(device_id: u16) -> u64 {
    if device_id == 0x1041 {
        0x5110_0000
    } else if device_id == 0x1042 {
        0x5000_4000
    } else if device_id == 0x1043 {
        0x5000_C000
    } else if device_id == 0x1044 {
        0x5001_0000
    } else if device_id == 0x1045 {
        0x5120_0000
    } else if device_id == 0x1050 {
        0x5000_8000
    } else {
        0
    }
}

/// The BAR table with an unmapped BAR 0 replaced by its fallback address.
pub open spec fn with_ghost_bar0(bars: Seq<u64>, device_id: u16) -> Seq<u64> {
    if bars[0] == 0 {
        bars.update(0, ghost_bar0(device_id))
    } else {
        bars
    }
}

fn read_le16(c: &[u8], at: usize) -> (r: u16)
    requires
        at + 2 <= c@.len(),
    ensures
        r == le16(c@, at as int),
{
    (c[at] as u16) + (c[at + 1] as u16) * 0x100
}

fn read_le32(c: &[u8], at: usize) -> (r: u32)
    requires
        at + 4 <= c@.len(),
    ensures
        r == le32(c@, at as int),
{
    (c[at] as u32) + (c[at + 1] as u32) * 0x100 + (c[at + 2] as u32) * 0x1_0000 + (c[at + 3] as u32) * 0x100_0000
}

/// The first node of the capability list, or 0 where the device has none.
fn list_head(cfg: &[u8]) -> (r: u8)
    ensures
        r == (if has_cap_list(cfg@) { cfg@[PCI_CAP_PTR as int] } else { 0 }),
{
    if cfg.len() <= PCI_CAP_PTR as usize {
        return 0;
    }
    let status = read_le16(cfg, PCI_STATUS as usize);
    if (status / 0x10) % 2 == 1 {
        cfg[PCI_CAP_PTR as usize]
    } else {
        0
    }
}

/// Reads the virtio capability at `cap_offset` of config space; `None` where
/// its bytes (20 for a notify capability, else 16) do not all lie in `cfg`.
pub fn parse_virtio_cap(cfg: &[u8], cap_offset: u8) -> (r: Option<VirtioCap>)
    ensures
        r == cap_at(cfg@, cap_offset as int),
{
    let off = cap_offset as usize;
    if cfg.len() < 16 || off > cfg.len() - 16 {
        return None;
    }
    let cfg_type = cfg[off + 3];
    let notify_off_multiplier = if cfg_type == VIRTIO_PCI_CAP_NOTIFY_CFG {
        if cfg.len() < 20 || off > cfg.len() - 20 {
            return None;
        }
        read_le32(cfg, off + 16)
    } else {
        0
    };
    Some(
        VirtioCap {
            cfg_type,
            bar: cfg[off + 4],
            offset: read_le32(cfg, off + 8),
            length: read_le32(cfg, off + 12),
            notify_off_multiplier,
        },
    )
}

/// Walks the capability list and resolves each virtio capability against `bars`.
fn resolve_caps(cfg: &[u8], bars: &[u64; 6]) -> (r: VirtioModern)
    ensures
        r == resolved(cfg@, bars@),
{
    let mut m = VirtioModern { common: 0, notify: 0, isr: 0, device: 0, notify_mult: 0 };
    let mut off = list_head(cfg);
    let mut fuel: u8 = if has_cap_list_exec(cfg) { MAX_CAPS } else { 0 };
    assert(resolve_from(cfg@, bars@, off as int, fuel as nat, m) == resolved(cfg@, bars@));
    while fuel > 0 && off != 0 && off != 0xFF && (off as usize) + 2 <= cfg.len()
        invariant
            resolve_from(cfg@, bars@, off as int, fuel as nat, m) == resolved(cfg@, bars@),
        decreases fuel,
    {
        let o = off as usize;
        if cfg[o] == PCI_CAP_ID_VNDR {
            if let Some(cap) = parse_virtio_cap(cfg, off) {
                if cap.bar < 6 {
                    let base = bars[cap.bar as usize];
                    if base != 0 && base <= u64::MAX - cap.offset as u64 {
                        let a = base + cap.offset as u64;
                        if cap.cfg_type == VIRTIO_PCI_CAP_COMMON_CFG {
                            m.common = a;
                        } else if cap.cfg_type == VIRTIO_PCI_CAP_NOTIFY_CFG {
                            m.notify = a;
                            m.notify_mult = cap.notify_off_multiplier;
                        } else if cap.cfg_type == VIRTIO_PCI_CAP_ISR_CFG {
                            m.isr = a;
                        } else if cap.cfg_type == VIRTIO_PCI_CAP_DEVICE_CFG {
                            m.device = a;
                        }
                    }
                }
            }
        }
        off = cfg[o + 1];
        fuel = fuel - 1;
    }
    m
}

fn has_cap_list_exec(cfg: &[u8]) -> (r: bool)
    ensures
        r == has_cap_list(cfg@),
{
    cfg.len() > PCI_CAP_PTR as usize && (read_le16(cfg, PCI_STATUS as usize) / 0x10) % 2 == 1
}

/// Fallback BAR 0 address for a device whose BAR 0 the hypervisor left
/// unmapped and would not let the guest program; 0 for unknown devices.
pub fn ghost_map_bar0(device_id: u16) -> (r: u64)
    ensures
        r == ghost_bar0(device_id),
{
    match device_id {
        0x1041 => 0x5110_0000,
        0x1042 => 0x5000_4000,
        0x1043 => 0x5000_C000,
        0x1044 => 0x5001_0000,
        0x1045 => 0x5120_0000,
        0x1050 => 0x5000_8000,
        _ => 0,
    }
}

impl VirtioModern {
    /// Resolves a device's virtio structures from its config space `cfg` and
    /// its BAR table. A capability whose BAR is unmapped is passed over.
    /// `None` unless both the common and the notify structure are found.
    pub fn probe(dev: &PciDevice, cfg: &[u8]) -> (r: Option<Self>)
        ensures
            match r {
                Some(m) => m == resolved(cfg@, dev.bars@) && m.common != 0 && m.notify != 0,
                None => resolved(cfg@, dev.bars@).common == 0 || resolved(cfg@, dev.bars@).notify == 0,
            },
    {
        let m = resolve_caps(cfg, &dev.bars);
        if m.common != 0 && m.notify != 0 {
            Some(m)
        } else {
            None
        }
    }
}

impl VirtioModernDevice {
    /// Resolves a device's virtio structures as `VirtioModern::probe` does,
    /// with an unmapped BAR 0 taken from the fallback table. `None` unless
    /// both the common and the notify structure are found.
    pub fn new(pci: &PciDevice, cfg: &[u8]) -> (r: Option<Self>)
        ensures
            ({
                let m = resolved(cfg@, with_ghost_bar0(pci.bars@, pci.device_id));
                match r {
                    Some(d) => m.common != 0 && m.notify != 0 && d.common_cfg == m.common && d.notify_cfg == m.notify
                        && d.notify_off_multiplier == m.notify_mult && d.isr_cfg == m.isr
                        && d.device_cfg == m.device && d.device_id == pci.device_id,
                    None => m.common == 0 || m.notify == 0,
                }
            }),
    {
        let mut bars = pci.bars;
        if bars[0] == 0 {
            bars[0] = ghost_map_bar0(pci.device_id);
        }
        assert(bars@ == with_ghost_bar0(pci.bars@, pci.device_id));
        let m = resolve_caps(cfg, &bars);
        if m.common == 0 || m.notify == 0 {
            return None;
        }
        Some(
            VirtioModernDevice {
                common_cfg: m.common,
                notify_cfg: m.notify,
                notify_off_multiplier: m.notify_mult,
                isr_cfg: m.isr,
                device_cfg: m.device,
                device_id: pci.device_id,
            },
        )
    }
}

impl PciDevice {
    /// Offset of the first capability with ID `cap_id` in config space `cfg`.
    pub fn find_capability(&self, cfg: &[u8], cap_id: u8) -> (r: Option<u8>)
        ensures
            ({
                let offs = cap_offsets(cfg@, cfg@[PCI_CAP_PTR as int] as int, MAX_CAPS as nat, cap_id);
                r == (if has_cap_list(cfg@) && offs.len() > 0 { Some(offs[0]) } else { None })
            }),
    {
        if !has_cap_list_exec(cfg) {
            return None;
        }
        let mut it = CapabilityIter { cap_id, next_offset: cfg[PCI_CAP_PTR as usize], budget: MAX_CAPS };
        it.next(cfg)
    }

    /// The offsets of all capabilities with ID `cap_id`, in list order.
    pub fn iter_capabilities(&self, cfg: &[u8], cap_id: u8) -> (r: CapabilityIter)
        ensures
            r.offsets(cfg@) == (if has_cap_list(cfg@) {
                cap_offsets(cfg@, cfg@[PCI_CAP_PTR as int] as int, MAX_CAPS as nat, cap_id)
            } else {
                Seq::empty()
            }),
    {
        let head = list_head(cfg);
        CapabilityIter { cap_id, next_offset: head, budget: if head == 0 { 0 } else { MAX_CAPS } }
    }
}

impl CapabilityIter {
    /// The offsets that are still to come, over config space `c`.
    pub open spec fn offsets(&self, c: Seq<u8>) -> Seq<u8> {
        cap_offsets(c, self.next_offset as int, self.budget as nat, self.cap_id)
    }

    /// The next matching offset, if any; the rest stay to come.
    pub fn next(&mut self, cfg: &[u8]) -> (r: Option<u8>)
        ensures
            old(self).offsets(cfg@).len() == 0 ==> r is None && final(self).offsets(cfg@).len() == 0,
            old(self).offsets(cfg@).len() > 0 ==> r == Some(old(self).offsets(cfg@)[0])
                && final(self).offsets(cfg@) == old(self).offsets(cfg@).drop_first(),
            final(self).cap_id == old(self).cap_id,
    {
        while self.budget > 0 && self.next_offset != 0 && self.next_offset != 0xFF
            && (self.next_offset as usize) + 2 <= cfg.len()
            invariant
                self.cap_id == old(self).cap_id,
                self.offsets(cfg@) == old(self).offsets(cfg@),
            decreases self.budget,
        {
            let o = self.next_offset as usize;
            let id = cfg[o];
            self.next_offset = cfg[o + 1];
            self.budget = self.budget - 1;
            if id == self.cap_id {
                return Some(o as u8);
            }
        }
        None
    }
}

} // verus!
