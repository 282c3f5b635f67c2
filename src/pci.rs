//! PCI devices over ECAM: config addresses, BAR decoding and sizing, the
//! acceptance check after programming a BAR, and the reservation and
//! allocation of BAR addresses in the authorized window.
use vstd::prelude::*;
use crate::allocator::{MmioWindow, reserve_range, allocate, reserved, allocation, allocated};

verus! {

/// Vendor ID of virtio devices.
pub const VIRTIO_VENDOR_ID: u16 = 0x1af4;

pub const PCI_COMMAND: u64 = 0x04;

pub const PCI_STATUS: u64 = 0x06;

pub const PCI_BAR0: u64 = 0x10;

pub const PCI_CAP_PTR: u64 = 0x34;

/// Virtio device types.
pub const VIRTIO_ID_NET: u16 = 1;

pub const VIRTIO_ID_BLOCK: u16 = 2;

pub const VIRTIO_ID_CONSOLE: u16 = 3;

pub const VIRTIO_ID_ENTROPY: u16 = 4;

pub const VIRTIO_ID_BALLOON: u16 = 5;

pub const VIRTIO_ID_GPU: u16 = 16;

/// The virtio device type of a PCI device: modern IDs are 0x1040 plus the
/// type; transitional IDs 0x1000..=0x1009 have a fixed table.
pub open spec fn virtio_type(vendor_id: u16, device_id: u16) -> Option<u16> {
    if vendor_id != VIRTIO_VENDOR_ID {
        None
    } else if 0x1041 <= device_id <= 0x107F {
        Some((device_id - 0x1040) as u16)
    } else if device_id == 0x1000 {
        Some(1)
    } else if device_id == 0x1001 {
        Some(2)
    } else if device_id == 0x1002 {
        Some(5)
    } else if device_id == 0x1003 {
        Some(3)
    } else if device_id == 0x1004 {
        Some(8)
    } else if device_id == 0x1005 {
        Some(4)
    } else if device_id == 0x1009 {
        Some(9)
    } else {
        None
    }
}

/// Number of BAR registers in a type-0 header.
pub const BAR_COUNT: usize = 6;

/// A device found on the bus: where its config space lies, its IDs, and the
/// absolute address of each memory BAR (0 where unknown or unmapped).
pub struct PciDevice {
    pub ecam_addr: u64,
    pub vendor_id: u16,
    pub device_id: u16,
    pub bars: [u64; 6],
}

/// ECAM address of the config space of `bus:slot.func`.
pub open spec fn config_addr(ecam_base: u64, bus: u8, slot: u8, func: u8) -> int {
    ecam_base + bus * 0x10_0000 + slot * 0x8000 + func * 0x1000
}

/// A BAR dword with bit 0 set describes I/O space.
pub open spec fn bar_is_io(v: u32) -> bool {
    v % 2 == 1
}

/// A memory BAR dword with bit 2 set is the low half of a 64-bit BAR.
pub open spec fn bar_is_64(v: u32) -> bool {
    (v / 4) % 2 == 1
}

/// A BAR dword without its four type bits.
pub open spec fn bar_base(v: u32) -> int {
    v - v % 16
}

/// The address that BAR `i` holds, given the six BAR dwords: 0 for an I/O
/// BAR; the low dword without its type bits, joined with the next dword for
/// a 64-bit BAR (where one follows).
pub open spec fn bar_address(regs: Seq<u32>, i: int) -> u64 {
    if bar_is_io(regs[i]) {
        0
    } else if bar_is_64(regs[i]) && i < 5 {
        (bar_base(regs[i]) + regs[i + 1] * 0x1_0000_0000) as u64
    } else {
        bar_base(regs[i]) as u64
    }
}

/// The BAR table after reading BARs `i..6`: an I/O BAR is left as it was, a
/// memory BAR gets its address, and the high dword of a 64-bit BAR is skipped.
pub open spec fn bars_read_from(bars: Seq<u64>, regs: Seq<u32>, i: int) -> Seq<u64>
    decreases 7 - i,
{
    if i >= 6 || i < 0 {
        bars
    } else if bar_is_io(regs[i]) {
        bars_read_from(bars, regs, i + 1)
    } else if bar_is_64(regs[i]) {
        bars_read_from(bars.update(i, bar_address(regs, i)), regs, i + 2)
    } else {
        bars_read_from(bars.update(i, bar_address(regs, i)), regs, i + 1)
    }
}

/// The size that a BAR decodes, given the size mask read back after writing
/// all ones: 0 for an unimplemented BAR (mask 0 or all ones), else the two's
/// complement of the mask without its type bits, in 32 bits.
pub open spec fn bar_size(mask: u32) -> u64 {
    if mask == 0 || mask == 0xFFFF_FFFF {
        0
    } else {
        ((0x1_0000_0000 - bar_base(mask)) % 0x1_0000_0000) as u64
    }
}

/// Whether a write of `addr` to BAR `idx` stuck, given the dwords read back.
pub open spec fn bar_write_accepted(idx: int, addr: u64, orig: u32, back_lo: u32, back_hi: u32) -> bool {
    &&& bar_base(back_lo) == bar_base((addr % 0x1_0000_0000) as u32)
    &&& (bar_is_64(orig) && idx < 5 ==> back_hi == addr / 0x1_0000_0000)
}

/// ECAM address of the config space of `bus:slot.func`; `None` where it
/// does not fit in 64 bits.
pub fn config_address(ecam_base: u64, bus: u8, slot: u8, func: u8) -> (r: Option<u64>)
    ensures
        config_addr(ecam_base, bus, slot, func) <= u64::MAX ==> r == Some(config_addr(ecam_base, bus, slot, func) as u64),
        config_addr(ecam_base, bus, slot, func) > u64::MAX ==> r is None,
{
    let offset: u64 = (bus as u64) * 0x10_0000 + (slot as u64) * 0x8000 + (func as u64) * 0x1000;
    ecam_base.checked_add(offset)
}

/// The virtio device type of a device with these IDs; `None` for a device
/// that is not virtio.
pub fn virtio_device_type(vendor_id: u16, device_id: u16) -> (r: Option<u16>)
    ensures
        r == virtio_type(vendor_id, device_id),
{
    if vendor_id != VIRTIO_VENDOR_ID {
        return None;
    }
    if device_id >= 0x1041 && device_id <= 0x107F {
        return Some(device_id - 0x1040);
    }
    match device_id {
        0x1000 => Some(1),
        0x1001 => Some(2),
        0x1002 => Some(5),
        0x1003 => Some(3),
        0x1004 => Some(8),
        0x1005 => Some(4),
        0x1009 => Some(9),
        _ => None,
    }
}

impl PciDevice {
    /// The device at `bus:slot.func`, given the first dword of its config
    /// space; `None` for an empty slot (vendor 0 or 0xFFFF) or an address
    /// that does not fit in 64 bits. Its BAR table starts out all zero.
    pub fn new(ecam_base: u64, bus: u8, slot: u8, func: u8, header: u32) -> (r: Option<Self>)
        ensures
            match r {
                Some(d) => {
                    &&& config_addr(ecam_base, bus, slot, func) <= u64::MAX
                    &&& d.ecam_addr == config_addr(ecam_base, bus, slot, func)
                    &&& d.vendor_id == header % 0x1_0000
                    &&& d.device_id == header / 0x1_0000
                    &&& d.vendor_id != 0 && d.vendor_id != 0xFFFF
                    &&& d.bars@ == seq![0u64; 6]
                },
                None => config_addr(ecam_base, bus, slot, func) > u64::MAX || header % 0x1_0000 == 0
                    || header % 0x1_0000 == 0xFFFF,
            },
    {
        let ecam_addr = match config_address(ecam_base, bus, slot, func) {
            None => return None,
            Some(a) => a,
        };
        let vendor = (header % 0x1_0000) as u16;
        if vendor == 0 || vendor == 0xFFFF {
            return None;
        }
        let bars: [u64; 6] = [0, 0, 0, 0, 0, 0];
        assert(bars@ =~= seq![0u64; 6]);
        Some(PciDevice { ecam_addr, vendor_id: vendor, device_id: (header / 0x1_0000) as u16, bars })
    }

    /// The address that BAR `idx` holds, given the six BAR dwords; 0 for an
    /// index past the table or an I/O BAR.
    pub fn read_bar(bar_regs: &[u32; 6], idx: usize) -> (r: u64)
        ensures
            r == (if idx < 6 { bar_address(bar_regs@, idx as int) } else { 0 }),
    {
        if idx >= BAR_COUNT {
            return 0;
        }
        let val = bar_regs[idx];
        if val % 2 == 1 {
            return 0;
        }
        let low = (val - val % 16) as u64;
        if (val / 4) % 2 == 1 && idx < 5 {
            low + (bar_regs[idx + 1] as u64) * 0x1_0000_0000
        } else {
            low
        }
    }

    /// Fills the BAR table from the six BAR dwords: each memory BAR gets its
    /// address, I/O BARs and the high halves of 64-bit BARs are left alone.
    pub fn read_bars(&mut self, bar_regs: &[u32; 6])
        ensures
            final(self).bars@ == bars_read_from(old(self).bars@, bar_regs@, 0),
            final(self).ecam_addr == old(self).ecam_addr,
            final(self).vendor_id == old(self).vendor_id,
            final(self).device_id == old(self).device_id,
    {
        let mut i: usize = 0;
        while i < BAR_COUNT
            invariant
                i <= 7,
                bars_read_from(self.bars@, bar_regs@, i as int) == bars_read_from(old(self).bars@, bar_regs@, 0),
                self.ecam_addr == old(self).ecam_addr,
                self.vendor_id == old(self).vendor_id,
                self.device_id == old(self).device_id,
            decreases 7 - i,
        {
            let val = bar_regs[i];
            if val % 2 == 1 {
                i = i + 1;
            } else {
                let addr = Self::read_bar(bar_regs, i);
                self.bars[i] = addr;
                i = i + if (val / 4) % 2 == 1 { 2 } else { 1 };
            }
        }
    }

    /// Size and width of a BAR from the size mask read back after writing all
    /// ones to it (`orig` is the value it held before): `(0, false)` for an
    /// unimplemented BAR.
    pub fn get_bar_size(orig: u32, mask: u32) -> (r: (u64, bool))
        ensures
            r.0 == bar_size(mask),
            r.1 == (mask != 0 && mask != 0xFFFF_FFFF && bar_is_64(orig)),
    {
        if mask == 0 || mask == 0xFFFF_FFFF {
            return (0, false);
        }
        let base = mask - mask % 16;
        let size: u64 = if base == 0 { 0 } else { 0x1_0000_0000u64 - base as u64 };
        (size, (orig / 4) % 2 == 1)
    }

    /// The dwords to write to program `addr` into a BAR that held `orig`:
    /// the low dword keeps the four type bits of `orig`; a 64-bit BAR below
    /// the last index also gets the high dword.
    pub fn bar_program_words(idx: usize, addr: u64, orig: u32) -> (r: (u32, Option<u32>))
        ensures
            r.0 == bar_base((addr % 0x1_0000_0000) as u32) + orig % 16,
            r.1 == (if bar_is_64(orig) && idx < 5 { Some((addr / 0x1_0000_0000) as u32) } else { None }),
    {
        let low = (addr % 0x1_0000_0000) as u32;
        let word = (low - low % 16) + orig % 16;
        let high = if (orig / 4) % 2 == 1 && idx < 5 { Some((addr / 0x1_0000_0000) as u32) } else { None };
        (word, high)
    }

    /// Records the outcome of programming `addr` into BAR `idx` (which held
    /// `orig`), given the dwords read back afterwards: where the device kept
    /// the address, the BAR table holds it and the result is `true`; where it
    /// did not (a hypervisor that ignores BAR writes), the entry is 0 and the
    /// result `false`. An index past the table changes nothing.
    pub fn program_bar(&mut self, idx: usize, addr: u64, orig: u32, back_lo: u32, back_hi: u32) -> (r: bool)
        ensures
            r == (idx < 6 && bar_write_accepted(idx as int, addr, orig, back_lo, back_hi)),
            idx < 6 ==> final(self).bars@ == old(self).bars@.update(idx as int, if r { addr } else { 0 }),
            idx >= 6 ==> final(self).bars@ == old(self).bars@,
            final(self).ecam_addr == old(self).ecam_addr,
            final(self).vendor_id == old(self).vendor_id,
            final(self).device_id == old(self).device_id,
    {
        if idx >= BAR_COUNT {
            return false;
        }
        let want = (addr % 0x1_0000_0000) as u32;
        let mut accepted = back_lo - back_lo % 16 == want - want % 16;
        if (orig / 4) % 2 == 1 && idx < 5 && accepted {
            accepted = back_hi as u64 == addr / 0x1_0000_0000;
        }
        self.bars[idx] = if accepted { addr } else { 0 };
        accepted
    }

    /// The command register value that enables memory decoding and bus
    /// mastering, from its current value.
    pub fn enable(cmd: u16) -> (r: u16)
        ensures
            r == cmd | 0x06,
    {
        cmd | 0x06
    }

    /// The command register value with memory and I/O decoding off, as a
    /// BAR must be while it is probed or programmed.
    pub fn decode_disabled(cmd: u16) -> (r: u16)
        ensures
            r == cmd & !0x03u16,
    {
        cmd & !0x03u16
    }
}

/// Indices of the memory BARs among BARs `i..6`, in order: an I/O BAR is
/// passed over and the high dword of a 64-bit BAR is no BAR of its own.
pub open spec fn memory_bars_from(regs: Seq<u32>, i: int) -> Seq<usize>
    decreases 7 - i,
{
    if i >= 6 || i < 0 {
        Seq::empty()
    } else if bar_is_io(regs[i]) {
        memory_bars_from(regs, i + 1)
    } else if bar_is_64(regs[i]) {
        seq![i as usize] + memory_bars_from(regs, i + 2)
    } else {
        seq![i as usize] + memory_bars_from(regs, i + 1)
    }
}

impl PciDevice {
    /// Indices of the memory BARs, given the six BAR dwords: the ones to size
    /// and, where unmapped, to program.
    pub fn memory_bar_indices(bar_regs: &[u32; 6]) -> (r: Vec<usize>)
        ensures
            r@ == memory_bars_from(bar_regs@, 0),
    {
        let mut out: Vec<usize> = Vec::new();
        let mut i: usize = 0;
        while i < BAR_COUNT
            invariant
                i <= 7,
                out@ + memory_bars_from(bar_regs@, i as int) == memory_bars_from(bar_regs@, 0),
            decreases 7 - i,
        {
            let val = bar_regs[i];
            if val % 2 == 1 {
                i = i + 1;
            } else {
                let ghost before = out@;
                out.push(i);
                let step: usize = if (val / 4) % 2 == 1 { 2 } else { 1 };
                proof {
                    assert(before + memory_bars_from(bar_regs@, i as int) =~= out@ + memory_bars_from(
                        bar_regs@,
                        i + step,
                    ));
                }
                i = i + step;
            }
        }
        assert(out@ + Seq::<usize>::empty() =~= out@);
        out
    }
}

/// The window after reserving BARs `i..6` of `bars`, each with its size from
/// `sizes`: only BARs with an address and a size count.
pub open spec fn reserved_from(w: MmioWindow, bars: Seq<u64>, sizes: Seq<u64>, i: int) -> MmioWindow
    decreases 6 - i,
{
    if i >= 6 || i < 0 {
        w
    } else if bars[i] != 0 && sizes[i] != 0 {
        reserved_from(reserved(w, bars[i], sizes[i]), bars, sizes, i + 1)
    } else {
        reserved_from(w, bars, sizes, i + 1)
    }
}

/// Reserves, in the window, every BAR of `dev` that the hypervisor already
/// mapped (a non-zero address) and that decodes a non-zero size in `sizes`.
pub fn reserve_device(window: &mut MmioWindow, dev: &PciDevice, sizes: &[u64; 6])
    requires
        old(window).wf(),
    ensures
        *final(window) == reserved_from(*old(window), dev.bars@, sizes@, 0),
        final(window).wf(),
{
    let mut i: usize = 0;
    while i < BAR_COUNT
        invariant
            i <= 6,
            window.wf(),
            reserved_from(*window, dev.bars@, sizes@, i as int) == reserved_from(*old(window), dev.bars@, sizes@, 0),
        decreases 6 - i,
    {
        if dev.bars[i] != 0 && sizes[i] != 0 {
            reserve_range(window, dev.bars[i], sizes[i]);
        }
        i = i + 1;
    }
}

/// The `(index, address)` pairs that allocating BARs `i..6` hands out, and the
/// window after it: a BAR with no address and a non-zero size asks for its size.
pub open spec fn allocations_from(w: MmioWindow, bars: Seq<u64>, sizes: Seq<u64>, i: int) -> (
    MmioWindow,
    Seq<(usize, u64)>,
)
    decreases 6 - i,
{
    if i >= 6 || i < 0 {
        (w, Seq::empty())
    } else if bars[i] == 0 && sizes[i] != 0 {
        let rest = allocations_from(allocated(w, sizes[i]), bars, sizes, i + 1);
        match allocation(w, sizes[i]) {
            Some(a) => (rest.0, seq![(i as usize, a)] + rest.1),
            None => rest,
        }
    } else {
        allocations_from(w, bars, sizes, i + 1)
    }
}

/// Allocates an address for every BAR of `dev` that has none yet and decodes
/// a non-zero size in `sizes`, in index order; returns each BAR's index with
/// its address. A BAR whose allocation fails is left out.
pub fn plan_allocations(window: &mut MmioWindow, dev: &PciDevice, sizes: &[u64; 6]) -> (r: Vec<(usize, u64)>)
    requires
        old(window).wf(),
    ensures
        (*final(window), r@) == allocations_from(*old(window), dev.bars@, sizes@, 0),
        final(window).wf(),
{
    let mut out: Vec<(usize, u64)> = Vec::new();
    let mut i: usize = 0;
    while i < BAR_COUNT
        invariant
            i <= 6,
            window.wf(),
            ({
                let rest = allocations_from(*window, dev.bars@, sizes@, i as int);
                (rest.0, out@ + rest.1) == allocations_from(*old(window), dev.bars@, sizes@, 0)
            }),
        decreases 6 - i,
    {
        if dev.bars[i] == 0 && sizes[i] != 0 {
            let ghost before = *window;
            let ghost old_out = out@;
            let got = allocate(window, sizes[i]);
            match got {
                Some(a) => {
                    out.push((i, a));
                    proof {
                        let rest = allocations_from(*window, dev.bars@, sizes@, i + 1);
                        assert(old_out + (seq![(i as usize, a)] + rest.1) =~= out@ + rest.1);
                    }
                },
                None => {},
            }
        }
        i = i + 1;
    }
    assert(out@ + Seq::<(usize, u64)>::empty() =~= out@);
    out
}

proof fn lemma_plan_from(w: MmioWindow, bars: Seq<u64>, sizes: Seq<u64>, i: int)
    requires
        w.wf(),
        0 <= i <= 6,
        sizes.len() == 6,
        bars.len() == 6,
    ensures
        ({
            let (w2, p) = allocations_from(w, bars, sizes, i);
            &&& w2.wf() && w2.base == w.base && w2.limit == w.limit && w.cursor <= w2.cursor
            &&& forall|k: int| 0 <= k < p.len() ==> {
                &&& i <= #[trigger] p[k].0 < 6
                &&& bars[p[k].0 as int] == 0 && sizes[p[k].0 as int] != 0
                &&& w.cursor <= p[k].1 && p[k].1 + sizes[p[k].0 as int] <= w2.cursor
            }
            &&& forall|a: int, b: int| 0 <= a < b < p.len() ==> #[trigger] p[a].1 + sizes[p[a].0 as int]
                <= #[trigger] p[b].1
        }),
    decreases 6 - i,
{
    if i < 6 {
        if bars[i] == 0 && sizes[i] != 0 {
            crate::allocator::lemma_allocation_bounds(w, sizes[i]);
            let w1 = allocated(w, sizes[i]);
            lemma_plan_from(w1, bars, sizes, i + 1);
            let rest = allocations_from(w1, bars, sizes, i + 1);
            match allocation(w, sizes[i]) {
                Some(a) => {
                    let p = seq![(i as usize, a)] + rest.1;
                    assert(allocations_from(w, bars, sizes, i) == (rest.0, p));
                    assert forall|k: int| 0 <= k < p.len() implies {
                        &&& i <= #[trigger] p[k].0 < 6
                        &&& bars[p[k].0 as int] == 0 && sizes[p[k].0 as int] != 0
                        &&& w.cursor <= p[k].1 && p[k].1 + sizes[p[k].0 as int] <= rest.0.cursor
                    } by {
                        if k > 0 {
                            assert(p[k] == rest.1[k - 1]);
                        }
                    }
                    assert forall|x: int, y: int| 0 <= x < y < p.len() implies #[trigger] p[x].1 + sizes[p[x].0 as int]
                        <= #[trigger] p[y].1 by {
                        assert(p[y] == rest.1[y - 1]);
                        if x > 0 {
                            assert(p[x] == rest.1[x - 1]);
                        } else {
                            assert(i <= rest.1[y - 1].0 < 6);
                            assert(w1.cursor <= p[y].1);
                        }
                    }
                },
                None => {
                    assert(allocations_from(w, bars, sizes, i) == rest);
                },
            }
        } else {
            lemma_plan_from(w, bars, sizes, i + 1);
        }
    }
}

/// The BAR addresses that `plan_allocations` hands out for a device lie
/// within the window, go only to BARs that had no address and decode a
/// size, and no two of them overlap.
pub proof fn lemma_planned_bars_disjoint(w: MmioWindow, bars: Seq<u64>, sizes: Seq<u64>)
    requires
        w.wf(),
        sizes.len() == 6,
        bars.len() == 6,
    ensures
        ({
            let p = allocations_from(w, bars, sizes, 0).1;
            &&& forall|k: int| 0 <= k < p.len() ==> {
                &&& #[trigger] p[k].0 < 6
                &&& bars[p[k].0 as int] == 0 && sizes[p[k].0 as int] != 0
                &&& w.base <= p[k].1 && p[k].1 + sizes[p[k].0 as int] <= w.limit
            }
            &&& forall|a: int, b: int|
                0 <= a < p.len() && 0 <= b < p.len() && a != b ==> #[trigger] p[a].1 + sizes[p[a].0 as int]
                    <= #[trigger] p[b].1 || p[b].1 + sizes[p[b].0 as int] <= p[a].1
        }),
{
    lemma_plan_from(w, bars, sizes, 0);
    let p = allocations_from(w, bars, sizes, 0).1;
    assert forall|a: int, b: int|
        0 <= a < p.len() && 0 <= b < p.len() && a != b implies #[trigger] p[a].1 + sizes[p[a].0 as int]
            <= #[trigger] p[b].1 || p[b].1 + sizes[p[b].0 as int] <= p[a].1 by {
        if a < b {
            assert(p[a].1 + sizes[p[a].0 as int] <= p[b].1);
        } else {
            assert(p[b].1 + sizes[p[b].0 as int] <= p[a].1);
        }
    }
}

} // verus!
