use my_unikernel::console::{
    find_virtio_pci_console, print_dec, print_hex, TxChannel, VirtioConsole, VirtioPciConsole,
};
use my_unikernel::drivers::{
    find_virtio_gpu_at_ecam, parse_display_info, VirtioBalloon, VirtioBlock, VirtioEntropy, VirtioGpu, VirtioGpuMmio,
    VirtioNet,
};
use my_unikernel::transport::{
    driver_features, init_action, init_advance, negotiate_queue_size, notify_address, DeviceState, InitAction,
    RESET_POLLS,
};
use my_unikernel::virtqueue::{Buffer, UsedElem, Virtqueue, VRING_DESC_F_NEXT, VRING_DESC_F_WRITE};

#[test]
fn handshake_runs_in_order() {
    let mut s = DeviceState::Start;
    let mut writes = Vec::new();
    let mut reads = 0;
    loop {
        match init_action(s) {
            InitAction::WriteStatus(v) | InitAction::NegotiateFeatures(v) => {
                writes.push(v);
                s = init_advance(s, v, true);
            }
            InitAction::ReadStatus => {
                reads += 1;
                s = init_advance(s, 0, true);
            }
            InitAction::SetupQueues => s = init_advance(s, 0, true),
            InitAction::Done => break,
            InitAction::Abort => panic!("handshake failed"),
        }
    }
    assert_eq!(writes, vec![0x00, 0x01, 0x03, 0x0B, 0x0F]);
    assert_eq!(reads, 0);
    assert_eq!(s, DeviceState::DriverOk);
    assert_eq!(driver_features(0), 0);
    assert_eq!(driver_features(1), 1);
}

#[test]
fn handshake_waits_for_reset() {
    let s = init_advance(DeviceState::Start, 0, true);
    assert_eq!(s, DeviceState::Reset);
    assert_eq!(init_action(DeviceState::Start), InitAction::WriteStatus(0));
    let mut s = init_advance(DeviceState::Start, 0x0F, true);
    assert_eq!(s, DeviceState::Resetting(RESET_POLLS));
    assert_eq!(init_action(s), InitAction::ReadStatus);
    s = init_advance(s, 0x0F, true);
    assert_eq!(s, DeviceState::Resetting(RESET_POLLS - 1));
    s = init_advance(s, 0, true);
    assert_eq!(s, DeviceState::Reset);
    let mut polls = 0;
    let mut t = DeviceState::Resetting(RESET_POLLS);
    while t != DeviceState::Reset {
        t = init_advance(t, 0x0F, true);
        polls += 1;
    }
    assert_eq!(polls, RESET_POLLS as u32 + 1);
}

#[test]
fn handshake_fails_when_features_rejected() {
    let s = init_advance(DeviceState::DriverSet, 0x03, true);
    assert_eq!(s, DeviceState::Failed);
    assert_eq!(init_action(s), InitAction::Abort);
    assert_eq!(init_advance(DeviceState::FeaturesNegotiated, 0x0B, false), DeviceState::Failed);
    assert_eq!(init_advance(DeviceState::Failed, 0x0F, true), DeviceState::Failed);
}

#[test]
fn queue_size_and_notify_address() {
    assert_eq!(negotiate_queue_size(16, 0), None);
    assert_eq!(negotiate_queue_size(16, 256), Some(16));
    assert_eq!(negotiate_queue_size(16, 8), Some(8));
    assert_eq!(notify_address(0x5000_3000, 1, 4), Some(0x5000_3004));
    assert_eq!(notify_address(u64::MAX, 1, 1), None);
}

#[test]
fn queue_submit_and_complete() {
    assert!(Virtqueue::new(0, 12).is_none());
    assert!(Virtqueue::new(0, 0).is_none());
    let mut q = Virtqueue::new(1, 4).unwrap();
    let s = q.submit(&[Buffer { addr: 0x8000, len: 1, device_writable: false }]).unwrap();
    assert_eq!((s.head, s.count, s.ring_slot, s.avail_idx), (0, 1, 0, 1));
    assert_eq!(q.avail_ring[0], 0);
    assert_eq!(q.descriptors[0].addr, 0x8000);
    assert_eq!(q.poll_used(0), None);
    assert_eq!(q.poll_used(1), Some(0));
    assert_eq!(q.last_seen_used_idx, 1);
    assert_eq!(q.poll_used(1), None);
    assert_eq!(q.last_seen_used_idx, 1);
}

#[test]
fn queue_chain_wraps_around() {
    let mut q = Virtqueue::new(0, 4).unwrap();
    q.submit(&[Buffer { addr: 1, len: 1, device_writable: false }; 3]).unwrap();
    let chain = [
        Buffer { addr: 0x10, len: 16, device_writable: false },
        Buffer { addr: 0x20, len: 512, device_writable: true },
    ];
    let s = q.submit(&chain).unwrap();
    assert_eq!((s.head, s.ring_slot, s.avail_idx), (3, 1, 2));
    assert_eq!(q.descriptors[3].flags, VRING_DESC_F_NEXT);
    assert_eq!(q.descriptors[3].next, 0);
    assert_eq!(q.descriptors[0].flags, VRING_DESC_F_WRITE);
    assert_eq!(q.descriptors[0].addr, 0x20);
    assert_eq!(q.next_desc, 5);
    assert_eq!(q.chain_slot(3, 1), 0);
    assert!(q.submit(&[]).is_none());
    assert!(q.submit(&[Buffer { addr: 0, len: 0, device_writable: false }; 5]).is_none());
}

fn console() -> VirtioConsole {
    VirtioConsole::new(
        0x5000_3000,
        4,
        0,
        1,
        Virtqueue::new(0, 4).unwrap(),
        0x8001_7000,
        Virtqueue::new(1, 16).unwrap(),
        0x8001_6000,
    )
    .unwrap()
}

#[test]
fn console_stages_text() {
    let mut c = console();
    assert_eq!(c.tx_notify_address(), Some(0x5000_3004));
    let s = c.putc(b'A').unwrap();
    assert_eq!(s.head, 0);
    assert_eq!(c.tx.staged, vec![b'A']);
    assert_eq!(c.tx.queue.descriptors[0].len, 1);
    assert!(c.tx_complete(1));
    assert!(!c.tx_complete(1));
    c.write_str("hi").unwrap();
    assert_eq!(c.tx.staged, b"hi".to_vec());
    c.puts("a\nb").unwrap();
    assert_eq!(c.tx.staged, b"a\r\nb".to_vec());
    assert!(c.write(&[]).is_none());
    let long: Vec<u8> = (0..1100u32).map(|i| i as u8).collect();
    c.write(&long).unwrap();
    assert_eq!(c.tx.staged.len(), 512);
    assert_eq!(c.tx.pending.len(), 588);
    let mut sent = c.tx.staged.clone();
    while let Some(s) = c.write_more() {
        assert!(s.count == 1);
        sent.extend_from_slice(&c.tx.staged);
    }
    assert_eq!(sent, long);
    assert!(c.tx.pending.is_empty());
    assert!(VirtioConsole::new(0, 0, 0, 1, Virtqueue::new(0, 4).unwrap(), 0, Virtqueue::new(0, 16).unwrap(), 0)
        .is_none());
}

#[test]
fn console_number_formatting() {
    let mut c = console();
    print_hex(&mut c, 0x1234_abcd).unwrap();
    assert_eq!(c.tx.staged, b"0x000000001234abcd".to_vec());
    print_dec(&mut c, 0).unwrap();
    assert_eq!(c.tx.staged, b"0".to_vec());
    print_dec(&mut c, 1_234_567).unwrap();
    assert_eq!(c.tx.staged, b"1234567".to_vec());
    print_dec(&mut c, u64::MAX).unwrap();
    assert_eq!(c.tx.staged, b"18446744073709551615".to_vec());
    my_unikernel::console::println(&mut c, "ok").unwrap();
    assert_eq!(c.tx.staged, b"ok\n".to_vec());
    let line = "x".repeat(600);
    my_unikernel::console::println(&mut c, &line).unwrap();
    assert_eq!(c.tx.staged.len(), 512);
    assert_eq!(c.tx.pending.len(), 89);
    assert_eq!(c.tx.pending.last(), Some(&b'\n'));
    let text = "a\n".repeat(300);
    c.puts(&text).unwrap();
    assert_eq!(c.tx.staged.len() + c.tx.pending.len(), 900);
}

#[test]
fn pci_console_stages_text() {
    let tx = TxChannel::new(Virtqueue::new(1, 16).unwrap(), 0x9000, 256).unwrap();
    assert!(TxChannel::new(Virtqueue::new(1, 16).unwrap(), 0x9000, 0).is_none());
    let mut c = VirtioPciConsole {
        bar0: 0x5000_0000,
        common_cfg_offset: 0,
        notify_cfg_offset: 0x3000,
        notify_off_multiplier: 4,
        queue_notify_off: 1,
        tx,
    };
    assert_eq!(c.notify_address(), Some(0x5000_3004));
    c.putc(b'x').unwrap();
    assert_eq!(c.tx.staged, vec![b'x']);
    c.puts("line\n").unwrap();
    assert_eq!(c.tx.staged, b"line\n".to_vec());
    c.write(&vec![1u8; 300]).unwrap();
    assert_eq!(c.tx.staged.len(), 256);
}

#[test]
fn finds_console_and_gpu_slots() {
    let headers = [0xFFFF_FFFF, 0x1050_1af4, 0x1003_1af4, 0x1043_1af4];
    assert_eq!(find_virtio_pci_console(&headers, 0), Some(2));
    assert_eq!(find_virtio_pci_console(&headers, 3), Some(3));
    assert_eq!(find_virtio_pci_console(&headers, 4), None);
    assert_eq!(find_virtio_gpu_at_ecam(&headers, 0), Some(1));
    assert_eq!(find_virtio_gpu_at_ecam(&headers, 2), None);
}

fn block() -> VirtioBlock {
    assert!(VirtioBlock::new(Virtqueue::new(0, 2).unwrap(), 0, 0, 0, 0).is_none());
    VirtioBlock::new(Virtqueue::new(0, 16).unwrap(), 2048, 0x100, 0x200, 0x400).unwrap()
}

#[test]
fn block_requests() {
    let mut b = block();
    assert_eq!(b.capacity(), 2048);
    let s = b.read_sector(0x0102).unwrap();
    assert_eq!(s.count, 3);
    assert_eq!(b.header, vec![0, 0, 0, 0, 0, 0, 0, 0, 0x02, 0x01, 0, 0, 0, 0, 0, 0]);
    assert_eq!(b.queue.descriptors[1].flags, VRING_DESC_F_NEXT | VRING_DESC_F_WRITE);
    assert_eq!(b.queue.descriptors[2].flags, VRING_DESC_F_WRITE);
    b.write_sector(7).unwrap();
    assert_eq!(b.header[0], 1);
    assert_eq!(b.header[8], 7);
    assert_eq!(b.queue.descriptors[4].flags, VRING_DESC_F_NEXT);
}

#[test]
fn block_check_result() {
    let b = block();
    let pattern = VirtioBlock::test_pattern();
    assert_eq!(pattern[0], 13);
    assert_eq!(pattern[1], 20);
    let ok = b.test_read_write(true, true, &pattern);
    assert_eq!(ok.data_matches, 512);
    assert!(ok.test_passed);
    let mut bad = pattern.clone();
    bad[5] ^= 0xFF;
    let r = b.test_read_write(true, true, &bad);
    assert_eq!(r.data_matches, 511);
    assert!(!r.test_passed);
    assert!(!b.test_read_write(false, true, &pattern).test_passed);
    assert!(VirtioBlock::request_ok(true, 0));
    assert!(!VirtioBlock::request_ok(true, 1));
    assert!(!VirtioBlock::request_ok(false, 0));
}

#[test]
fn entropy_statistics() {
    let s = VirtioEntropy::test_entropy(&[]);
    assert_eq!((s.bytes_read, s.zeros, s.ones, s.unique_bytes, s.looks_random), (0, 0, 0, 0, false));
    let s = VirtioEntropy::test_entropy(&[0x0F, 0xF0, 0x33, 0x55]);
    assert_eq!((s.zeros, s.ones, s.unique_bytes), (16, 16, 4));
    assert!(s.looks_random);
    let s = VirtioEntropy::test_entropy(&[0u8; 64]);
    assert_eq!((s.zeros, s.ones, s.unique_bytes), (512, 0, 1));
    assert!(!s.looks_random);
    let mut e = VirtioEntropy::new(Virtqueue::new(0, 8).unwrap(), 0x7000);
    assert!(e.read(0).is_none());
    e.read(64).unwrap();
    assert_eq!(e.queue.descriptors[0].flags, VRING_DESC_F_WRITE);
    assert_eq!(e.queue.descriptors[0].len, 64);
}

#[test]
fn network_frames() {
    let mut n = VirtioNet::new(Virtqueue::new(1, 16).unwrap(), 0xA000, Virtqueue::new(0, 16).unwrap(), 0xC000, [2, 0, 0, 0, 0, 9]);
    assert_eq!(n.mac(), [2, 0, 0, 0, 0, 9]);
    let arp = n.arp_probe();
    assert_eq!(arp.len(), 42);
    assert_eq!(&arp[0..6], &[0xFF; 6]);
    assert_eq!(&arp[6..12], &[2, 0, 0, 0, 0, 9]);
    assert_eq!(&arp[12..14], &[0x08, 0x06]);
    assert_eq!(&arp[38..42], &[10, 0, 0, 1]);
    n.send(&arp).unwrap();
    assert_eq!(n.tx.staged.len(), 52);
    assert_eq!(&n.tx.staged[0..10], &[0; 10]);
    assert_eq!(n.tx.queue.descriptors[0].len, 52);
    assert!(n.send(&vec![0u8; 1515]).is_none());
    let r = n.test_network(true, false);
    assert!(r.send_ok && !r.received_response && r.init_ok);
    assert_eq!(r.mac, [2, 0, 0, 0, 0, 9]);
}

#[test]
fn balloon_page_lists() {
    let mut b = VirtioBalloon::new(Virtqueue::new(0, 8).unwrap(), 0xB000, Virtqueue::new(1, 8).unwrap(), 0xB100);
    b.inflate(&[0x8100_0000, 0x1_0000_2000]).unwrap();
    assert_eq!(b.inflate_tx.staged, vec![0x00, 0x10, 0x08, 0x00, 0x02, 0x00, 0x10, 0x00]);
    assert!(b.inflate(&[]).is_none());
    assert!(b.deflate(&[0u64; 17]).is_none());
    b.deflate(&[0x8100_0000]).unwrap();
    assert_eq!(b.deflate_tx.staged, vec![0x00, 0x10, 0x08, 0x00]);
    b.update_config(32);
    b.inflate_completed(3);
    b.deflate_completed(1);
    assert_eq!((b.num_pages(), b.actual()), (32, 2));
    b.deflate_completed(5);
    assert_eq!(b.actual(), 0);
    b.inflate_completed(1);
    let r = b.test_balloon(true, false);
    assert!(r.inflate_ok && !r.deflate_ok && r.init_ok);
    assert_eq!((r.num_pages, r.actual_pages), (32, 1));
    assert_eq!(b.inflate_tx.queue.descriptors[0].len, 8);
}

#[test]
fn gpu_display_info() {
    let mut g = VirtioGpu::new(0x5000_3000, 4, 0);
    assert_eq!((g.width(), g.height()), (1280, 720));
    let mut resp = vec![0u8; 408];
    resp[0..4].copy_from_slice(&0x1101u32.to_le_bytes());
    resp[32..36].copy_from_slice(&1024u32.to_le_bytes());
    resp[36..40].copy_from_slice(&768u32.to_le_bytes());
    assert_eq!(parse_display_info(&resp), None);
    resp[40] = 1;
    assert_eq!(parse_display_info(&resp), Some((1024, 768)));
    g.apply_display_info(&resp);
    assert_eq!((g.width(), g.height()), (1024, 768));
    let q = VirtioGpu::display_info_request();
    assert_eq!(q.len(), 24);
    assert_eq!(&q[0..4], &[0x00, 0x01, 0, 0]);
    assert!(q[4..].iter().all(|b| *b == 0));
    g.apply_display_info(&resp[..20]);
    assert_eq!((g.width(), g.height()), (1024, 768));
    let m = VirtioGpuMmio { base: 0x0a00_0000, width: 800, height: 600, resource_id: 1 };
    assert_eq!((m.width(), m.height()), (800, 600));
}

#[test]
fn console_receive_path() {
    let mut c = console();
    assert_eq!(c.rx_notify_address(), Some(0x5000_3000));
    assert!(c.rx_post_all());
    assert_eq!(c.rx.avail_idx, 4);
    assert_eq!(c.rx.avail_ring, vec![0, 1, 2, 3]);
    assert_eq!(c.rx.descriptors[2].addr, 0x8001_7000 + 2 * 512);
    assert_eq!(c.rx.descriptors[2].flags, VRING_DESC_F_WRITE);
    assert_eq!(c.rx.poll_used(0), None);
    assert_eq!(c.rx.poll_used(1), Some(0));
    let chunk = c.poll_read(UsedElem { id: 2, len: 40 }, 16).unwrap();
    assert_eq!((chunk.addr, chunk.len), (0x8001_7000 + 1024, 16));
    assert_eq!((chunk.repost.head, chunk.repost.ring_slot, chunk.repost.avail_idx), (2, 0, 5));
    assert_eq!(c.rx.avail_ring[0], 2);
    assert_eq!((c.rx.avail_idx, c.rx.last_seen_used_idx, c.rx.next_desc), (5, 1, 4));
    assert!(c.poll_read(UsedElem { id: 9, len: 1 }, 16).is_none());
}

#[test]
fn network_receive_path() {
    let mut n = VirtioNet::new(Virtqueue::new(1, 16).unwrap(), 0xA000, Virtqueue::new(0, 16).unwrap(), 0xC000, [0; 6]);
    let s = n.post_rx_buffer().unwrap();
    assert_eq!((s.head, s.avail_idx), (0, 1));
    assert_eq!(n.rx.descriptors[0].len, 1524);
    assert_eq!(n.rx.descriptors[0].flags, VRING_DESC_F_WRITE);
    let (len, again) = n.recv(70, 64);
    assert_eq!(len, 60);
    assert_eq!(again.unwrap().head, 1);
    assert_eq!(n.recv(10, 64).0, 0);
    assert_eq!(n.recv(200, 64).0, 64);
}

#[test]
fn mmio_console_probe() {
    let headers = [(0, 0, 0), (0x7472_6976, 2, 16), (0x7472_6976, 3, 3), (0x7472_6976, 1, 3), (0x7472_6976, 2, 3)];
    assert_eq!(VirtioConsole::probe(&headers, 0), Some(3));
    assert_eq!(VirtioConsole::probe(&headers, 4), Some(4));
    assert_eq!(VirtioConsole::probe(&headers, 5), None);
    assert_eq!(VirtioConsole::probe(&headers[..3], 0), None);
}
