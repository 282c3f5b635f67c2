use my_unikernel::allocator::{align_up, allocate, get_allocator_state, init_allocator, reserve_range, MIB};
use my_unikernel::caps::{ghost_map_bar0, parse_virtio_cap, VirtioModern, VirtioModernDevice, PCI_CAP_ID_VNDR};
use my_unikernel::fdt::{find_ecam_base, find_pci_mmio_window};
use my_unikernel::pci::{config_address, plan_allocations, reserve_device, virtio_device_type, PciDevice};

fn be(out: &mut Vec<u8>, v: u32) {
    out.extend_from_slice(&v.to_be_bytes());
}

fn name(out: &mut Vec<u8>, s: &str) {
    out.extend_from_slice(s.as_bytes());
    out.push(0);
    while out.len() % 4 != 0 {
        out.push(0);
    }
}

/// A blob with a root node holding one `pcie@...` node whose `ranges` has an
/// I/O entry and then a 32-bit memory entry, and whose `reg` names the ECAM.
fn blob(node: &str, magic: u32) -> Vec<u8> {
    let strings: Vec<u8> = b"ranges\0reg\0".to_vec();
    let mut st = Vec::new();
    be(&mut st, 1);
    name(&mut st, "");
    be(&mut st, 1);
    name(&mut st, node);
    be(&mut st, 3);
    be(&mut st, 56);
    be(&mut st, 0);
    for v in [0x0100_0000u32, 0, 0, 0, 0x3eff_0000, 0, 0x1_0000] {
        be(&mut st, v);
    }
    for v in [0x0200_0000u32, 0, 0x5000_0000, 0, 0x5000_0000, 0, 0x2000_0000] {
        be(&mut st, v);
    }
    be(&mut st, 3);
    be(&mut st, 16);
    be(&mut st, 7);
    for v in [0u32, 0x4000_0000, 0, 0x1000_0000] {
        be(&mut st, v);
    }
    be(&mut st, 2);
    be(&mut st, 2);
    be(&mut st, 9);
    let off_struct = 40u32;
    let off_strings = off_struct + st.len() as u32;
    let total = off_strings + strings.len() as u32;
    let mut b = Vec::new();
    for v in [magic, total, off_struct, off_strings, 40, 17, 16, 0, strings.len() as u32, st.len() as u32] {
        be(&mut b, v);
    }
    b.extend_from_slice(&st);
    b.extend_from_slice(&strings);
    b
}

#[test]
fn dtb_window_round_trip() {
    let b = blob("pcie@40000000", 0xd00d_feed);
    assert_eq!(find_pci_mmio_window(&b), Some((0x5000_0000, 0x2000_0000)));
}

#[test]
fn dtb_bad_magic_gives_none() {
    let b = blob("pcie@40000000", 0xdead_beef);
    assert_eq!(find_pci_mmio_window(&b), None);
    assert_eq!(find_ecam_base(&b), None);
}

#[test]
fn dtb_without_pci_node_gives_none() {
    let b = blob("soc@0", 0xd00d_feed);
    assert_eq!(find_pci_mmio_window(&b), None);
    assert_eq!(find_ecam_base(&b), None);
}

#[test]
fn dtb_truncated_gives_none() {
    let b = blob("pcie@40000000", 0xd00d_feed);
    assert_eq!(find_pci_mmio_window(&b[..60]), None);
    assert_eq!(find_pci_mmio_window(&[]), None);
}

#[test]
fn dtb_ecam_base() {
    let b = blob("pcie@40000000", 0xd00d_feed);
    assert_eq!(find_ecam_base(&b), Some(0x4000_0000));
}

#[test]
fn allocator_never_overlaps() {
    let mut w = init_allocator(0x5000_0000, 0x2000_0000).unwrap();
    reserve_range(&mut w, 0x5000_0000, 0x4000);
    let a = allocate(&mut w, 0x1_0000).unwrap();
    reserve_range(&mut w, 0x5030_0000, 0x1000);
    let b = allocate(&mut w, 0x20_0000).unwrap();
    let c = allocate(&mut w, 0x1000).unwrap();
    let ranges = [(a, a + 0x1_0000), (b, b + 0x20_0000), (c, c + 0x1000)];
    for (i, x) in ranges.iter().enumerate() {
        assert!(x.0 >= 0x5000_0000 && x.1 <= 0x7000_0000);
        assert_eq!(x.0 % MIB, 0);
        for (j, y) in ranges.iter().enumerate() {
            if i != j {
                assert!(x.1 <= y.0 || y.1 <= x.0);
            }
        }
    }
    assert_eq!(a, 0x5010_0000);
    assert_eq!(b, 0x5040_0000);
    assert_eq!(c, 0x5060_0000);
}

#[test]
fn allocator_exhaustion_keeps_cursor() {
    let mut w = init_allocator(0x5000_0000, 0x20_0000).unwrap();
    assert_eq!(allocate(&mut w, 0x1000), Some(0x5000_0000));
    let before = get_allocator_state(&w);
    assert_eq!(allocate(&mut w, 0x20_0000), None);
    assert_eq!(get_allocator_state(&w), before);
    assert_eq!(allocate(&mut w, 0), None);
    assert_eq!(get_allocator_state(&w), before);
}

#[test]
fn allocator_init_overflow() {
    assert!(init_allocator(u64::MAX, 2).is_none());
    assert_eq!(get_allocator_state(&init_allocator(16, 32).unwrap()), (16, 16, 48));
}

#[test]
fn end_to_end_reserve_then_allocate() {
    let mut w = init_allocator(0x5000_0000, 0x2000_0000).unwrap();
    let mut a = PciDevice::new(0x4000_0000, 0, 1, 0, 0x1043_1af4).unwrap();
    a.read_bars(&[0x5000_0000, 0, 0, 0, 0, 0]);
    reserve_device(&mut w, &a, &[0x4000, 0, 0, 0, 0, 0]);
    let b = PciDevice::new(0x4000_0000, 0, 2, 0, 0x1041_1af4).unwrap();
    let plan = plan_allocations(&mut w, &b, &[0x1_0000, 0, 0, 0, 0, 0]);
    assert_eq!(plan.len(), 1);
    let (idx, addr) = plan[0];
    assert_eq!(idx, 0);
    assert!(addr >= 0x5010_0000);
    assert_eq!(addr % MIB, 0);
    assert!(addr >= 0x5000_4000 || addr + 0x1_0000 <= 0x5000_0000);
}

#[test]
fn bar_size_decoding() {
    assert_eq!(PciDevice::get_bar_size(0, 0xFFFF_FFF0), (0x10, false));
    assert_eq!(PciDevice::get_bar_size(0x4, 0xFFFF_C00C), (0x4000, true));
    assert_eq!(PciDevice::get_bar_size(0, 0), (0, false));
    assert_eq!(PciDevice::get_bar_size(0, 0xFFFF_FFFF), (0, false));
}

#[test]
fn device_new_and_empty_slots() {
    let d = PciDevice::new(0x4000_0000, 1, 3, 2, 0x1050_1af4).unwrap();
    assert_eq!(d.ecam_addr, 0x4000_0000 + (1 << 20) + (3 << 15) + (2 << 12));
    assert_eq!((d.vendor_id, d.device_id), (0x1af4, 0x1050));
    assert_eq!(d.bars, [0; 6]);
    assert!(PciDevice::new(0x4000_0000, 0, 0, 0, 0xFFFF_FFFF).is_none());
    assert!(PciDevice::new(0x4000_0000, 0, 0, 0, 0x1234_0000).is_none());
}

#[test]
fn bar_decoding_skips_io_and_joins_64bit() {
    let regs = [0x5000_000C, 0x0000_0001, 0x0000_C001, 0x6000_0000, 0, 0];
    assert_eq!(PciDevice::read_bar(&regs, 0), 0x1_5000_0000);
    assert_eq!(PciDevice::read_bar(&regs, 2), 0);
    assert_eq!(PciDevice::read_bar(&regs, 3), 0x6000_0000);
    assert_eq!(PciDevice::read_bar(&regs, 6), 0);
    let mut d = PciDevice::new(0, 0, 0, 0, 0x1000_1af4).unwrap();
    d.read_bars(&regs);
    assert_eq!(d.bars, [0x1_5000_0000, 0, 0, 0x6000_0000, 0, 0]);
    assert_eq!(PciDevice::memory_bar_indices(&regs), vec![0, 3, 4, 5]);
}

#[test]
fn program_bar_accepts_and_rejects() {
    let mut d = PciDevice::new(0, 0, 0, 0, 0x1041_1af4).unwrap();
    assert_eq!(PciDevice::bar_program_words(0, 0x1_5010_0000, 0x4), (0x5010_0004, Some(1)));
    assert!(d.program_bar(0, 0x1_5010_0000, 0x4, 0x5010_0004, 1));
    assert_eq!(d.bars[0], 0x1_5010_0000);
    assert!(!d.program_bar(2, 0x5020_0000, 0x0, 0x0, 0));
    assert_eq!(d.bars[2], 0);
    assert!(!d.program_bar(6, 0x5020_0000, 0x0, 0x5020_0000, 0));
    assert_eq!(PciDevice::enable(0x0001), 0x0007);
    assert_eq!(PciDevice::decode_disabled(0x0407), 0x0404);
}

/// Config space with a capability list: a power-management node at 0x40,
/// then virtio common (BAR 0 + 0), notify (BAR 0 + 0x3000, multiplier 4),
/// ISR (BAR 2 + 0x10) and device (BAR 0 + 0x2000) capabilities.
fn config_space() -> Vec<u8> {
    let mut c = vec![0u8; 256];
    c[6] = 0x10;
    c[0x34] = 0x40;
    c[0x40] = 0x01;
    c[0x41] = 0x50;
    let caps: [(usize, u8, u8, u8, u32); 4] =
        [(0x50, 0x64, 1, 0, 0), (0x64, 0x7C, 2, 0, 0x3000), (0x7C, 0x90, 3, 2, 0x10), (0x90, 0x00, 4, 0, 0x2000)];
    for (at, next, ty, bar, off) in caps {
        c[at] = PCI_CAP_ID_VNDR;
        c[at + 1] = next;
        c[at + 2] = 16;
        c[at + 3] = ty;
        c[at + 4] = bar;
        c[at + 8..at + 12].copy_from_slice(&off.to_le_bytes());
        c[at + 12..at + 16].copy_from_slice(&0x1000u32.to_le_bytes());
    }
    c[0x74..0x78].copy_from_slice(&4u32.to_le_bytes());
    c
}

#[test]
fn capability_resolution() {
    let cfg = config_space();
    let mut d = PciDevice::new(0, 0, 0, 0, 0x1041_1af4).unwrap();
    d.bars[0] = 0x5000_0000;
    let m = VirtioModern::probe(&d, &cfg).unwrap();
    assert_eq!(m.notify, 0x5000_3000);
    assert_eq!(m.common, 0x5000_0000);
    assert_eq!(m.device, 0x5000_2000);
    assert_eq!(m.isr, 0);
    assert_eq!(m.notify_mult, 4);
}

#[test]
fn capability_with_unmapped_bar_is_skipped() {
    let cfg = config_space();
    let d = PciDevice::new(0, 0, 0, 0, 0x1041_1af4).unwrap();
    assert!(VirtioModern::probe(&d, &cfg).is_none());
    let mut no_list = cfg.clone();
    no_list[6] = 0;
    let mut mapped = d;
    mapped.bars[0] = 0x5000_0000;
    assert!(VirtioModern::probe(&mapped, &no_list).is_none());
}

#[test]
fn modern_device_uses_ghost_map() {
    let cfg = config_space();
    let d = PciDevice::new(0, 0, 0, 0, 0x1041_1af4).unwrap();
    let m = VirtioModernDevice::new(&d, &cfg).unwrap();
    assert_eq!(ghost_map_bar0(0x1041), 0x5110_0000);
    assert_eq!(ghost_map_bar0(0x9999), 0);
    assert_eq!(m.common_cfg, 0x5110_0000);
    assert_eq!(m.notify_cfg, 0x5110_3000);
    assert_eq!(m.notify_off_multiplier, 4);
    assert_eq!(m.device_id, 0x1041);
    let unknown = PciDevice::new(0, 0, 0, 0, 0x1234_1af4).unwrap();
    assert!(VirtioModernDevice::new(&unknown, &cfg).is_none());
}

#[test]
fn capability_lookup_and_iteration() {
    let cfg = config_space();
    let d = PciDevice::new(0, 0, 0, 0, 0x1041_1af4).unwrap();
    assert_eq!(d.find_capability(&cfg, 0x01), Some(0x40));
    assert_eq!(d.find_capability(&cfg, PCI_CAP_ID_VNDR), Some(0x50));
    assert_eq!(d.find_capability(&cfg, 0x05), None);
    let mut it = d.iter_capabilities(&cfg, PCI_CAP_ID_VNDR);
    let mut seen = Vec::new();
    while let Some(o) = it.next(&cfg) {
        seen.push(o);
    }
    assert_eq!(seen, vec![0x50, 0x64, 0x7C, 0x90]);
    let cap = parse_virtio_cap(&cfg, 0x64).unwrap();
    assert_eq!((cap.cfg_type, cap.bar, cap.offset, cap.length, cap.notify_off_multiplier), (2, 0, 0x3000, 0x1000, 4));
    assert!(parse_virtio_cap(&cfg, 0xF8).is_none());
}

#[test]
fn looping_capability_list_ends() {
    let mut cfg = config_space();
    cfg[0x91] = 0x50;
    let mut d = PciDevice::new(0, 0, 0, 0, 0x1041_1af4).unwrap();
    d.bars[0] = 0x5000_0000;
    let m = VirtioModern::probe(&d, &cfg).unwrap();
    assert_eq!(m.notify, 0x5000_3000);
    assert_eq!(d.find_capability(&cfg, 0x05), None);
}

#[test]
fn align_up_rounds() {
    assert_eq!(align_up(0x5000_4000, MIB), Some(0x5010_0000));
    assert_eq!(align_up(0x5010_0000, MIB), Some(0x5010_0000));
    assert_eq!(align_up(10, 3), Some(12));
    assert_eq!(align_up(u64::MAX - 1, 3), Some(u64::MAX));
    assert_eq!(align_up(u64::MAX, MIB), None);
}

#[test]
fn reserve_clamps_to_limit() {
    let mut w = init_allocator(0x5000_0000, 0x8_0000).unwrap();
    reserve_range(&mut w, 0x5000_0000, 0x4000);
    assert_eq!(get_allocator_state(&w), (0x5000_0000, 0x5008_0000, 0x5008_0000));
    assert_eq!(allocate(&mut w, 1), None);
    let mut v = init_allocator(0x5000_0000, 0x2000_0000).unwrap();
    reserve_range(&mut v, 0x6000_0000, 0x2000_0000);
    assert_eq!(get_allocator_state(&v).1, 0x5000_0000);
    reserve_range(&mut v, u64::MAX, 2);
    assert_eq!(get_allocator_state(&v).1, 0x5000_0000);
}

#[test]
fn virtio_device_types() {
    assert_eq!(virtio_device_type(0x1af4, 0x1041), Some(1));
    assert_eq!(virtio_device_type(0x1af4, 0x1050), Some(16));
    assert_eq!(virtio_device_type(0x1af4, 0x1001), Some(2));
    assert_eq!(virtio_device_type(0x1af4, 0x1005), Some(4));
    assert_eq!(virtio_device_type(0x1af4, 0x1040), None);
    assert_eq!(virtio_device_type(0x8086, 0x1041), None);
    assert_eq!(config_address(0x4000_0000, 0, 2, 0), Some(0x4001_0000));
    assert_eq!(config_address(u64::MAX, 0, 1, 0), None);
}

/// A blob whose `pci` node has no `reg` of its own, while its child does.
fn blob_with_child_reg() -> Vec<u8> {
    let strings: Vec<u8> = b"ranges\0reg\0".to_vec();
    let mut st = Vec::new();
    be(&mut st, 1);
    name(&mut st, "");
    be(&mut st, 1);
    name(&mut st, "pcie@40000000");
    be(&mut st, 1);
    name(&mut st, "a");
    be(&mut st, 3);
    be(&mut st, 16);
    be(&mut st, 7);
    for v in [0u32, 0x4000_0000, 0, 0x1000_0000] {
        be(&mut st, v);
    }
    be(&mut st, 3);
    be(&mut st, 28);
    be(&mut st, 0);
    for v in [0x0200_0000u32, 0, 0x5000_0000, 0, 0x5000_0000, 0, 0x2000_0000] {
        be(&mut st, v);
    }
    be(&mut st, 2);
    be(&mut st, 2);
    be(&mut st, 2);
    be(&mut st, 9);
    let off_struct = 40u32;
    let off_strings = off_struct + st.len() as u32;
    let total = off_strings + strings.len() as u32;
    let mut b = Vec::new();
    for v in [0xd00d_feed, total, off_struct, off_strings, 40, 17, 16, 0, strings.len() as u32, st.len() as u32] {
        be(&mut b, v);
    }
    b.extend_from_slice(&st);
    b.extend_from_slice(&strings);
    b
}

#[test]
fn dtb_child_properties_do_not_count() {
    let b = blob_with_child_reg();
    assert_eq!(find_ecam_base(&b), None);
    assert_eq!(find_pci_mmio_window(&b), None);
}

#[test]
fn modern_device_needs_notify() {
    let mut cfg = config_space();
    // Drop the notify capability from the list: common links straight to ISR.
    cfg[0x51] = 0x7C;
    let mut d = PciDevice::new(0, 0, 0, 0, 0x1041_1af4).unwrap();
    d.bars[0] = 0x5000_0000;
    assert!(VirtioModernDevice::new(&d, &cfg).is_none());
    assert!(VirtioModern::probe(&d, &cfg).is_none());
}
