//! Device drivers over the virtio transport: block, network, entropy,
//! balloon and GPU. Each stages its requests in its queues; the caller moves
//! the staged bytes to the device-visible buffers, publishes, notifies and
//! polls as for the console.
use vstd::prelude::*;
use crate::console::TxChannel;
use crate::virtqueue::{Buffer, Submission, Virtqueue, submit_post};

verus! {

pub const SECTOR_SIZE: usize = 512;

pub const VIRTIO_BLK_T_IN: u32 = 0;

pub const VIRTIO_BLK_T_OUT: u32 = 1;

/// Status byte of a block request that succeeded.
pub const VIRTIO_BLK_S_OK: u8 = 0;

/// Bytes of a block request header: type, reserved word, sector.
pub const BLK_HEADER_LEN: usize = 16;

/// Largest Ethernet frame that is sent.
pub const MTU: usize = 1514;

/// Bytes of the virtio-net header in front of every frame.
pub const NET_HDR_SIZE: usize = 10;

/// Bytes of the ARP request that the network check sends.
pub const ARP_FRAME_LEN: usize = 42;

pub const PAGE_SIZE: u64 = 4096;

/// Most pages that one balloon request names.
pub const MAX_BALLOON_PAGES: usize = 16;

/// Command type of a GPU display-info query.
pub const VIRTIO_GPU_CMD_GET_DISPLAY_INFO: u32 = 0x0100;

/// Bytes of a GPU control header.
pub const GPU_HDR_LEN: usize = 24;

/// Bytes of a display-info response.
pub const GPU_DISPLAY_INFO_LEN: usize = 408;

/// Response type of a GPU display-info query.
pub const VIRTIO_GPU_RESP_OK_DISPLAY_INFO: u32 = 0x1101;

/// `n` little-endian bytes of `x`.
pub open spec fn le_bytes(x: nat, n: nat) -> Seq<u8>
    decreases n,
{
    if n == 0 {
        Seq::empty()
    } else {
        seq![(x % 256) as u8] + le_bytes(x / 256, (n - 1) as nat)
    }
}

/// Appends the `n` low bytes of `x` to `out`, least significant first.
fn push_le(out: &mut Vec<u8>, x: u64, n: usize)
    requires
        n <= 8,
    ensures
        final(out)@ == old(out)@ + le_bytes(x as nat, n as nat),
{
    let mut v = x;
    let mut k: usize = 0;
    while k < n
        invariant
            k <= n,
            old(out)@ + le_bytes(x as nat, n as nat) == out@ + le_bytes(v as nat, (n - k) as nat),
        decreases n - k,
    {
        let ghost before = out@;
        out.push((v % 256) as u8);
        proof {
            assert(le_bytes(v as nat, (n - k) as nat) == seq![(v % 256) as u8] + le_bytes(
                (v / 256) as nat,
                (n - k - 1) as nat,
            ));
            assert(before + (seq![(v % 256) as u8] + le_bytes((v / 256) as nat, (n - k - 1) as nat)) =~= out@
                + le_bytes((v / 256) as nat, (n - k - 1) as nat));
        }
        v = v / 256;
        k = k + 1;
    }
    assert(out@ + le_bytes(v as nat, 0) =~= out@);
}

// ---------------------------------------------------------------- block

/// A block device: one request queue and the device-visible addresses of the
/// request header, the sector buffer and the status byte.
pub struct VirtioBlock {
    pub queue: Virtqueue,
    /// Disk size in sectors.
    pub capacity: u64,
    pub header_addr: u64,
    pub data_addr: u64,
    pub status_addr: u64,
    /// What the request header must hold for the last submission.
    pub header: Vec<u8>,
}

/// Outcome of the block device's write-and-read-back check.
pub struct BlockTestResult {
    pub capacity: u64,
    pub write_ok: bool,
    pub read_ok: bool,
    pub data_matches: usize,
    pub test_passed: bool,
}

/// The request header for a request of type `t` on `sector`.
pub open spec fn blk_header(t: u32, sector: u64) -> Seq<u8> {
    le_bytes(t as nat, 4) + le_bytes(0, 4) + le_bytes(sector as nat, 8)
}

/// The three-descriptor chain of a block request: header (read by the
/// device), sector buffer (written by the device for a read), status byte.
pub open spec fn blk_chain(b: VirtioBlock, device_writes_data: bool) -> Seq<Buffer> {
    seq![
        Buffer { addr: b.header_addr, len: BLK_HEADER_LEN as u32, device_writable: false },
        Buffer { addr: b.data_addr, len: SECTOR_SIZE as u32, device_writable: device_writes_data },
        Buffer { addr: b.status_addr, len: 1, device_writable: true },
    ]
}

/// Byte `i` of the check pattern.
pub open spec fn pattern_byte(i: int) -> u8 {
    ((i * 7 + 13) % 256) as u8
}

/// Number of positions below `n` where `a` holds the check pattern.
pub open spec fn pattern_matches(a: Seq<u8>, n: int) -> nat
    decreases n,
{
    if n <= 0 {
        0
    } else {
        pattern_matches(a, n - 1) + (if n - 1 < a.len() && a[n - 1] == pattern_byte(n - 1) { 1nat } else { 0nat })
    }
}

impl VirtioBlock {
    pub open spec fn wf(&self) -> bool {
        self.queue.wf() && self.queue.size >= 3
    }

    /// A block device on `queue`, which must hold a three-descriptor chain;
    /// `None` for a smaller queue.
    pub fn new(queue: Virtqueue, capacity: u64, header_addr: u64, data_addr: u64, status_addr: u64) -> (r: Option<Self>)
        requires
            queue.wf(),
        ensures
            match r {
                Some(b) => b.wf() && b.queue == queue && b.capacity == capacity && b.header_addr == header_addr
                    && b.data_addr == data_addr && b.status_addr == status_addr,
                None => queue.size < 3,
            },
    {
        if queue.size < 3 {
            return None;
        }
        Some(VirtioBlock { queue, capacity, header_addr, data_addr, status_addr, header: Vec::new() })
    }

    /// Disk size in sectors.
    pub fn capacity(&self) -> (r: u64)
        ensures
            r == self.capacity,
    {
        self.capacity
    }

    fn request(&mut self, req_type: u32, sector: u64, device_writes_data: bool) -> (r: Option<Submission>)
        requires
            old(self).wf(),
        ensures
            final(self).wf(),
            final(self).capacity == old(self).capacity,
            final(self).header_addr == old(self).header_addr,
            final(self).data_addr == old(self).data_addr,
            final(self).status_addr == old(self).status_addr,
            final(self).header@ == blk_header(req_type, sector),
            r is Some,
            submit_post(old(self).queue, final(self).queue, blk_chain(*old(self), device_writes_data), r),
    {
        let mut header: Vec<u8> = Vec::new();
        push_le(&mut header, req_type as u64, 4);
        push_le(&mut header, 0, 4);
        push_le(&mut header, sector, 8);
        assert(header@ =~= blk_header(req_type, sector));
        self.header = header;
        let chain = [
            Buffer { addr: self.header_addr, len: BLK_HEADER_LEN as u32, device_writable: false },
            Buffer { addr: self.data_addr, len: SECTOR_SIZE as u32, device_writable: device_writes_data },
            Buffer { addr: self.status_addr, len: 1, device_writable: true },
        ];
        assert(chain@ =~= blk_chain(*old(self), device_writes_data));
        self.queue.submit(chain.as_slice())
    }

    /// Stages a read of `sector` into the sector buffer.
    pub fn read_sector(&mut self, sector: u64) -> (r: Option<Submission>)
        requires
            old(self).wf(),
        ensures
            final(self).wf(),
            final(self).capacity == old(self).capacity,
            final(self).header@ == blk_header(VIRTIO_BLK_T_IN, sector),
            r is Some,
            submit_post(old(self).queue, final(self).queue, blk_chain(*old(self), true), r),
    {
        self.request(VIRTIO_BLK_T_IN, sector, true)
    }

    /// Stages a write of the sector buffer to `sector`.
    pub fn write_sector(&mut self, sector: u64) -> (r: Option<Submission>)
        requires
            old(self).wf(),
        ensures
            final(self).wf(),
            final(self).capacity == old(self).capacity,
            final(self).header@ == blk_header(VIRTIO_BLK_T_OUT, sector),
            r is Some,
            submit_post(old(self).queue, final(self).queue, blk_chain(*old(self), false), r),
    {
        self.request(VIRTIO_BLK_T_OUT, sector, false)
    }

    /// A request succeeded when the device completed it and wrote the OK
    /// status byte.
    pub fn request_ok(completed: bool, status: u8) -> (r: bool)
        ensures
            r == (completed && status == VIRTIO_BLK_S_OK),
    {
        completed && status == VIRTIO_BLK_S_OK
    }

    /// The sector that the check writes: byte `i` is `(7 i + 13) mod 256`.
    pub fn test_pattern() -> (r: Vec<u8>)
        ensures
            r@.len() == SECTOR_SIZE,
            forall|i: int| 0 <= i < SECTOR_SIZE ==> r@[i] == pattern_byte(i),
    {
        let mut out: Vec<u8> = Vec::new();
        let mut i: usize = 0;
        while i < SECTOR_SIZE
            invariant
                i <= SECTOR_SIZE,
                out@.len() == i,
                forall|j: int| 0 <= j < i ==> out@[j] == pattern_byte(j),
            decreases SECTOR_SIZE - i,
        {
            out.push(((i * 7 + 13) % 256) as u8);
            i = i + 1;
        }
        out
    }

    /// Judges the write-and-read-back check: `read_back` is the sector read
    /// after writing the pattern; the check passes when both requests
    /// succeeded and all 512 bytes came back.
    pub fn test_read_write(&self, write_ok: bool, read_ok: bool, read_back: &[u8]) -> (r: BlockTestResult)
        ensures
            r.capacity == self.capacity,
            r.write_ok == write_ok,
            r.read_ok == read_ok,
            r.data_matches == pattern_matches(read_back@, SECTOR_SIZE as int),
            r.test_passed == (write_ok && read_ok && r.data_matches == SECTOR_SIZE),
    {
        let mut matches: usize = 0;
        let mut i: usize = 0;
        while i < SECTOR_SIZE
            invariant
                i <= SECTOR_SIZE,
                matches == pattern_matches(read_back@, i as int),
                matches <= i,
            decreases SECTOR_SIZE - i,
        {
            if i < read_back.len() && read_back[i] == ((i * 7 + 13) % 256) as u8 {
                matches = matches + 1;
            }
            i = i + 1;
        }
        BlockTestResult {
            capacity: self.capacity,
            write_ok,
            read_ok,
            data_matches: matches,
            test_passed: write_ok && read_ok && matches == SECTOR_SIZE,
        }
    }
}

// ---------------------------------------------------------------- network

/// A network device: the transmit channel (header and frame in one buffer),
/// the receive queue with its one buffer, and the MAC address read from its
/// configuration.
pub struct VirtioNet {
    pub tx: TxChannel,
    pub rx: Virtqueue,
    /// Device-visible address of the receive buffer (header, then frame).
    pub rx_buf_addr: u64,
    pub mac: [u8; 6],
}

/// Bytes of a received frame to take, given the length the device wrote
/// (header included) and the room in the caller's buffer.
pub open spec fn frame_len(used_len: int, room: int) -> int {
    if used_len <= NET_HDR_SIZE {
        0
    } else if used_len - NET_HDR_SIZE <= room {
        used_len - NET_HDR_SIZE
    } else {
        room
    }
}

/// The receive buffer as one device-writable descriptor.
pub open spec fn rx_buffer(addr: u64) -> Buffer {
    Buffer { addr, len: (NET_HDR_SIZE + MTU) as u32, device_writable: true }
}

/// Outcome of the network check.
pub struct NetTestResult {
    pub mac: [u8; 6],
    pub send_ok: bool,
    pub received_response: bool,
    pub init_ok: bool,
}

/// The ARP request that the network check broadcasts: from `mac` at
/// 10.0.0.2, asking for 10.0.0.1.
pub open spec fn arp_request(mac: Seq<u8>) -> Seq<u8> {
    seq![0xFFu8, 0xFF, 0xFF, 0xFF, 0xFF, 0xFF] + mac + seq![0x08u8, 0x06, 0x00, 0x01, 0x08, 0x00, 6, 4, 0x00, 0x01]
        + mac + seq![10u8, 0, 0, 2] + seq![0u8, 0, 0, 0, 0, 0] + seq![10u8, 0, 0, 1]
}

impl VirtioNet {
    pub open spec fn wf(&self) -> bool {
        self.tx.wf() && self.tx.cap == NET_HDR_SIZE + MTU && self.rx.wf()
    }

    /// Posts the receive buffer to the device.
    pub fn post_rx_buffer(&mut self) -> (r: Option<Submission>)
        requires
            old(self).wf(),
        ensures
            final(self).wf(),
            final(self).tx == old(self).tx,
            final(self).rx_buf_addr == old(self).rx_buf_addr,
            final(self).mac == old(self).mac,
            r is Some,
            submit_post(old(self).rx, final(self).rx, seq![rx_buffer(old(self).rx_buf_addr)], r),
    {
        let bufs = [Buffer { addr: self.rx_buf_addr, len: (NET_HDR_SIZE + MTU) as u32, device_writable: true }];
        assert(bufs@ =~= seq![rx_buffer(self.rx_buf_addr)]);
        self.rx.submit(bufs.as_slice())
    }

    /// Takes a received frame whose used entry reports `used_len` bytes
    /// (header included) into a buffer with room for `room` bytes: returns how
    /// many frame bytes to copy from behind the header, and re-posts the
    /// receive buffer. A completion no longer than the header carries no frame.
    pub fn recv(&mut self, used_len: u32, room: usize) -> (r: (usize, Option<Submission>))
        requires
            old(self).wf(),
        ensures
            final(self).wf(),
            final(self).tx == old(self).tx,
            final(self).mac == old(self).mac,
            r.0 == frame_len(used_len as int, room as int),
            r.1 is Some,
            submit_post(old(self).rx, final(self).rx, seq![rx_buffer(old(self).rx_buf_addr)], r.1),
    {
        let total = used_len as usize;
        let n = if total <= NET_HDR_SIZE {
            0
        } else if total - NET_HDR_SIZE <= room {
            total - NET_HDR_SIZE
        } else {
            room
        };
        (n, self.post_rx_buffer())
    }

    /// A network device sending from the buffer at `tx_buf_addr` on
    /// `tx_queue` and receiving into the buffer at `rx_buf_addr` on `rx_queue`.
    pub fn new(tx_queue: Virtqueue, tx_buf_addr: u64, rx_queue: Virtqueue, rx_buf_addr: u64, mac: [u8; 6]) -> (r: Self)
        requires
            tx_queue.wf(),
            rx_queue.wf(),
        ensures
            r.wf(),
            r.tx.queue == tx_queue && r.tx.buf_addr == tx_buf_addr && r.rx == rx_queue,
            r.rx_buf_addr == rx_buf_addr && r.mac == mac,
    {
        let tx = TxChannel { queue: tx_queue, buf_addr: tx_buf_addr, cap: NET_HDR_SIZE + MTU, staged: Vec::new(), pending: Vec::new() };
        VirtioNet { tx, rx: rx_queue, rx_buf_addr, mac }
    }

    /// The MAC address.
    pub fn mac(&self) -> (r: [u8; 6])
        ensures
            r == self.mac,
    {
        self.mac
    }

    /// Stages `data` behind a zeroed virtio-net header as one buffer.
    /// `None`, with nothing changed, for a frame longer than the MTU.
    pub fn send(&mut self, data: &[u8]) -> (r: Option<Submission>)
        requires
            old(self).wf(),
        ensures
            final(self).wf(),
            final(self).mac == old(self).mac,
            final(self).rx == old(self).rx,
            data@.len() > MTU ==> r is None && final(self).tx == old(self).tx,
            data@.len() <= MTU ==> r is Some && final(self).tx.staged@ == Seq::new(NET_HDR_SIZE as nat, |i: int| 0u8)
                + data@ && submit_post(
                old(self).tx.queue,
                final(self).tx.queue,
                seq![Buffer { addr: old(self).tx.buf_addr, len: (NET_HDR_SIZE + data@.len()) as u32, device_writable: false }],
                r,
            ),
    {
        if data.len() > MTU {
            return None;
        }
        let mut frame: Vec<u8> = Vec::new();
        let mut i: usize = 0;
        while i < NET_HDR_SIZE
            invariant
                i <= NET_HDR_SIZE,
                frame@ == Seq::new(i as nat, |j: int| 0u8),
            decreases NET_HDR_SIZE - i,
        {
            frame.push(0);
            i = i + 1;
            assert(frame@ =~= Seq::new(i as nat, |j: int| 0u8));
        }
        let mut k: usize = 0;
        while k < data.len()
            invariant
                k <= data@.len(),
                data@.len() <= MTU,
                frame@ == Seq::new(NET_HDR_SIZE as nat, |j: int| 0u8) + data@.subrange(0, k as int),
            decreases data.len() - k,
        {
            frame.push(data[k]);
            k = k + 1;
            assert(frame@ =~= Seq::new(NET_HDR_SIZE as nat, |j: int| 0u8) + data@.subrange(0, k as int));
        }
        assert(data@.subrange(0, data@.len() as int) =~= data@);
        let r = self.tx.send(frame.as_slice());
        assert(frame@.subrange(0, frame@.len() as int) =~= frame@);
        r
    }

    /// The ARP request that the network check sends.
    pub fn arp_probe(&self) -> (r: Vec<u8>)
        ensures
            r@ == arp_request(self.mac@),
    {
        let mut f: Vec<u8> = Vec::new();
        let mut i: usize = 0;
        while i < 6
            invariant
                i <= 6,
                f@ == Seq::new(i as nat, |j: int| 0xFFu8),
            decreases 6 - i,
        {
            f.push(0xFF);
            i = i + 1;
            assert(f@ =~= Seq::new(i as nat, |j: int| 0xFFu8));
        }
        let ghost p0 = f@;
        push_mac(&mut f, &self.mac);
        let tail1: [u8; 10] = [0x08, 0x06, 0x00, 0x01, 0x08, 0x00, 6, 4, 0x00, 0x01];
        push_all(&mut f, tail1.as_slice());
        push_mac(&mut f, &self.mac);
        let tail2: [u8; 14] = [10, 0, 0, 2, 0, 0, 0, 0, 0, 0, 10, 0, 0, 1];
        push_all(&mut f, tail2.as_slice());
        assert(p0 =~= seq![0xFFu8, 0xFF, 0xFF, 0xFF, 0xFF, 0xFF]);
        assert(tail1@ =~= seq![0x08u8, 0x06, 0x00, 0x01, 0x08, 0x00, 6, 4, 0x00, 0x01]);
        assert(tail2@ =~= seq![10u8, 0, 0, 2] + seq![0u8, 0, 0, 0, 0, 0] + seq![10u8, 0, 0, 1]);
        assert(f@ =~= arp_request(self.mac@));
        f
    }

    /// Records the outcome of the network check: whether the ARP request was
    /// sent and whether anything came back.
    pub fn test_network(&self, send_ok: bool, received_response: bool) -> (r: NetTestResult)
        ensures
            r.mac == self.mac,
            r.send_ok == send_ok,
            r.received_response == received_response,
            r.init_ok,
    {
        NetTestResult { mac: self.mac, send_ok, received_response, init_ok: true }
    }
}

fn push_all(out: &mut Vec<u8>, bytes: &[u8])
    ensures
        final(out)@ == old(out)@ + bytes@,
{
    let mut i: usize = 0;
    while i < bytes.len()
        invariant
            i <= bytes@.len(),
            out@ == old(out)@ + bytes@.subrange(0, i as int),
        decreases bytes.len() - i,
    {
        out.push(bytes[i]);
        i = i + 1;
        assert(out@ =~= old(out)@ + bytes@.subrange(0, i as int));
    }
    assert(bytes@.subrange(0, bytes@.len() as int) =~= bytes@);
}

fn push_mac(out: &mut Vec<u8>, mac: &[u8; 6])
    ensures
        final(out)@ == old(out)@ + mac@,
{
    push_all(out, mac.as_slice());
}

// ---------------------------------------------------------------- entropy

/// An entropy device: one request queue whose buffer the device fills.
pub struct VirtioEntropy {
    pub queue: Virtqueue,
    pub buf_addr: u64,
}

/// Statistics of a sample of bytes from the entropy device.
pub struct EntropyStats {
    pub bytes_read: usize,
    pub zeros: u32,
    pub ones: u32,
    pub unique_bytes: u32,
    pub looks_random: bool,
}

/// Number of set bits in `b`.
pub open spec fn popcount(b: nat) -> nat
    decreases b,
{
    if b == 0 {
        0
    } else {
        b % 2 + popcount(b / 2)
    }
}

/// Number of set bits in the first `n` bytes of `s`.
pub open spec fn ones_in(s: Seq<u8>, n: int) -> nat
    decreases n,
{
    if n <= 0 {
        0
    } else {
        ones_in(s, n - 1) + popcount(s[n - 1] as nat)
    }
}

/// Number of byte values below `v` that occur in `s`.
pub open spec fn values_present(s: Seq<u8>, v: int) -> nat
    decreases v,
{
    if v <= 0 {
        0
    } else {
        values_present(s, v - 1) + (if s.contains((v - 1) as u8) { 1nat } else { 0nat })
    }
}

/// The balance of zeros and ones in percent: the smaller count over the larger.
pub open spec fn balance(zeros: int, ones: int) -> int {
    if zeros > ones {
        ones * 100 / zeros
    } else if ones > 0 {
        zeros * 100 / ones
    } else {
        0
    }
}

proof fn lemma_popcount_bits(b: nat, k: nat)
    requires
        b < pow2(k),
    ensures
        popcount(b) <= k,
    decreases k,
{
    if k > 0 && b > 0 {
        assert(b / 2 < pow2((k - 1) as nat));
        lemma_popcount_bits(b / 2, (k - 1) as nat);
    } else if k == 0 {
        assert(b == 0);
    }
}

spec fn pow2(k: nat) -> nat
    decreases k,
{
    if k == 0 { 1 } else { 2 * pow2((k - 1) as nat) }
}

impl VirtioEntropy {
    pub open spec fn wf(&self) -> bool {
        self.queue.wf()
    }

    /// An entropy device on `queue` whose buffer lies at `buf_addr`.
    pub fn new(queue: Virtqueue, buf_addr: u64) -> (r: Self)
        requires
            queue.wf(),
        ensures
            r.wf() && r.queue == queue && r.buf_addr == buf_addr,
    {
        VirtioEntropy { queue, buf_addr }
    }

    /// Stages a request for `len` random bytes into the device-filled buffer.
    /// `None`, with nothing changed, for an empty request.
    pub fn read(&mut self, len: u32) -> (r: Option<Submission>)
        requires
            old(self).wf(),
        ensures
            final(self).wf(),
            final(self).buf_addr == old(self).buf_addr,
            len == 0 ==> r is None && final(self).queue == old(self).queue,
            len > 0 ==> r is Some && submit_post(
                old(self).queue,
                final(self).queue,
                seq![Buffer { addr: old(self).buf_addr, len, device_writable: true }],
                r,
            ),
    {
        if len == 0 {
            return None;
        }
        let bufs = [Buffer { addr: self.buf_addr, len, device_writable: true }];
        assert(bufs@ =~= seq![Buffer { addr: self.buf_addr, len, device_writable: true }]);
        self.queue.submit(bufs.as_slice())
    }

    /// Statistics of a sample read from the device: its bit counts, how many
    /// distinct byte values it holds, and whether it looks random (some
    /// bytes, a balance of at least 40% between zero and one bits, and at
    /// least half as many distinct values as bytes).
    pub fn test_entropy(sample: &[u8]) -> (r: EntropyStats)
        requires
            sample@.len() * 8 <= u32::MAX,
        ensures
            r.bytes_read == sample@.len(),
            r.ones == ones_in(sample@, sample@.len() as int),
            r.zeros == 8 * sample@.len() - ones_in(sample@, sample@.len() as int),
            r.unique_bytes == values_present(sample@, 256),
            r.looks_random == (sample@.len() > 0 && balance(r.zeros as int, r.ones as int) >= 40
                && r.unique_bytes >= sample@.len() / 2),
    {
        let n = sample.len();
        let mut ones: u32 = 0;
        let mut zeros: u32 = 0;
        let mut seen: Vec<bool> = Vec::new();
        let mut v: usize = 0;
        while v < 256
            invariant
                v <= 256,
                seen@ == Seq::new(v as nat, |j: int| false),
            decreases 256 - v,
        {
            seen.push(false);
            v = v + 1;
            assert(seen@ =~= Seq::new(v as nat, |j: int| false));
        }
        let mut i: usize = 0;
        while i < n
            invariant
                n == sample@.len(),
                n * 8 <= u32::MAX,
                i <= n,
                ones == ones_in(sample@, i as int),
                ones + zeros == 8 * i,
                seen@.len() == 256,
                forall|b: int| 0 <= b < 256 ==> (seen@[b] <==> sample@.subrange(0, i as int).contains(b as u8)),
            decreases n - i,
        {
            let b = sample[i];
            let mut x: u8 = b;
            let mut k: usize = 0;
            let ghost ones0 = ones;
            let ghost zeros0 = zeros;
            proof {
                reveal_with_fuel(pow2, 9);
                assert(pow2(8) == 256);
            }
            while k < 8
                invariant
                    k <= 8,
                    ones0 == ones_in(sample@, i as int),
                    ones0 + zeros0 == 8 * i,
                    i < n,
                    n * 8 <= u32::MAX,
                    x < pow2((8 - k) as nat),
                    ones - ones0 + popcount(x as nat) == popcount(b as nat),
                    ones >= ones0,
                    zeros >= zeros0,
                    (ones - ones0) + (zeros - zeros0) == k,
                decreases 8 - k,
            {
                proof {
                    lemma_popcount_bits(x as nat, (8 - k) as nat);
                    assert(popcount(x as nat) == x as nat % 2 + popcount((x / 2) as nat));
                    assert((x / 2) < pow2((8 - k - 1) as nat));
                }
                if x % 2 == 1 {
                    ones = ones + 1;
                } else {
                    zeros = zeros + 1;
                }
                x = x / 2;
                k = k + 1;
            }
            proof {
                assert(x == 0);
            }
            let ghost before = sample@.subrange(0, i as int);
            seen.set(b as usize, true);
            proof {
                let after = sample@.subrange(0, i + 1);
                assert(after =~= before.push(b));
                assert forall|c: int| 0 <= c < 256 implies (seen@[c] <==> after.contains(c as u8)) by {
                    if after.contains(c as u8) && c as u8 != b {
                        let j = choose|j: int| 0 <= j < after.len() && after[j] == c as u8;
                        assert(before[j] == c as u8);
                    }
                    if before.contains(c as u8) {
                        let j = choose|j: int| 0 <= j < before.len() && before[j] == c as u8;
                        assert(after[j] == c as u8);
                    }
                    if c as u8 == b {
                        assert(after[i as int] == b);
                    }
                }
            }
            i = i + 1;
        }
        assert(sample@.subrange(0, n as int) =~= sample@);
        let mut unique: u32 = 0;
        let mut c: usize = 0;
        while c < 256
            invariant
                c <= 256,
                seen@.len() == 256,
                forall|b: int| 0 <= b < 256 ==> (seen@[b] <==> sample@.contains(b as u8)),
                unique == values_present(sample@, c as int),
                unique <= c,
            decreases 256 - c,
        {
            if seen[c] {
                unique = unique + 1;
            }
            c = c + 1;
        }
        let ratio: u64 = if zeros > ones {
            (ones as u64) * 100 / (zeros as u64)
        } else if ones > 0 {
            (zeros as u64) * 100 / (ones as u64)
        } else {
            0
        };
        let looks_random = n > 0 && ratio >= 40 && unique as usize >= n / 2;
        EntropyStats { bytes_read: n, zeros, ones, unique_bytes: unique, looks_random }
    }
}

// ---------------------------------------------------------------- balloon

/// A memory balloon: the inflate and deflate channels (each sends a list of
/// page frame numbers) and the sizes read from its configuration.
pub struct VirtioBalloon {
    pub inflate_tx: TxChannel,
    pub deflate_tx: TxChannel,
    pub num_pages: u32,
    pub actual_pages: u32,
}

/// Outcome of the balloon check.
pub struct BalloonTestResult {
    pub inflate_ok: bool,
    pub deflate_ok: bool,
    pub num_pages: u32,
    pub actual_pages: u32,
    pub init_ok: bool,
}

/// The page frame numbers of `addrs`, each as a 32-bit little-endian word.
pub open spec fn pfn_list(addrs: Seq<u64>) -> Seq<u8>
    decreases addrs.len(),
{
    if addrs.len() == 0 {
        Seq::empty()
    } else {
        pfn_list(addrs.drop_last()) + le_bytes(((addrs.last() as nat / PAGE_SIZE as nat) % 0x1_0000_0000) as nat, 4)
    }
}

proof fn lemma_le_bytes_len(x: nat, n: nat)
    ensures
        le_bytes(x, n).len() == n,
    decreases n,
{
    if n > 0 {
        lemma_le_bytes_len(x / 256, (n - 1) as nat);
    }
}

proof fn lemma_pfn_list_len(addrs: Seq<u64>)
    ensures
        pfn_list(addrs).len() == 4 * addrs.len(),
    decreases addrs.len(),
{
    if addrs.len() > 0 {
        lemma_pfn_list_len(addrs.drop_last());
        lemma_le_bytes_len(((addrs.last() as nat / PAGE_SIZE as nat) % 0x1_0000_0000) as nat, 4);
    }
}

/// The PFN list for `page_addrs`, or `None` for an empty list or one of more
/// than 16 pages.
fn pfn_bytes(page_addrs: &[u64]) -> (r: Option<Vec<u8>>)
    ensures
        (page_addrs@.len() == 0 || page_addrs@.len() > MAX_BALLOON_PAGES) ==> r is None,
        (0 < page_addrs@.len() <= MAX_BALLOON_PAGES) ==> r is Some && r->0@ == pfn_list(page_addrs@)
            && r->0@.len() == 4 * page_addrs@.len(),
{
    if page_addrs.len() == 0 || page_addrs.len() > MAX_BALLOON_PAGES {
        return None;
    }
    let mut out: Vec<u8> = Vec::new();
    let mut i: usize = 0;
    while i < page_addrs.len()
        invariant
            i <= page_addrs@.len(),
            out@ == pfn_list(page_addrs@.subrange(0, i as int)),
        decreases page_addrs.len() - i,
    {
        let ghost pre = page_addrs@.subrange(0, i as int);
        push_le(&mut out, (page_addrs[i] / PAGE_SIZE) % 0x1_0000_0000, 4);
        proof {
            let post = page_addrs@.subrange(0, i + 1);
            assert(post.drop_last() =~= pre);
        }
        i = i + 1;
    }
    assert(page_addrs@.subrange(0, i as int) =~= page_addrs@);
    proof {
        lemma_pfn_list_len(page_addrs@);
    }
    Some(out)
}

impl VirtioBalloon {
    pub open spec fn wf(&self) -> bool {
        &&& self.inflate_tx.wf() && self.inflate_tx.cap == 4 * MAX_BALLOON_PAGES
        &&& self.deflate_tx.wf() && self.deflate_tx.cap == 4 * MAX_BALLOON_PAGES
    }

    /// A balloon whose inflate and deflate queues send page lists from the
    /// buffers at `inflate_buf` and `deflate_buf`, with both sizes zero.
    pub fn new(inflate_queue: Virtqueue, inflate_buf: u64, deflate_queue: Virtqueue, deflate_buf: u64) -> (r: Self)
        requires
            inflate_queue.wf(),
            deflate_queue.wf(),
        ensures
            r.wf(),
            r.inflate_tx.queue == inflate_queue && r.inflate_tx.buf_addr == inflate_buf,
            r.deflate_tx.queue == deflate_queue && r.deflate_tx.buf_addr == deflate_buf,
            r.num_pages == 0 && r.actual_pages == 0,
    {
        VirtioBalloon {
            inflate_tx: TxChannel {
                queue: inflate_queue,
                buf_addr: inflate_buf,
                cap: 4 * MAX_BALLOON_PAGES,
                staged: Vec::new(),
                pending: Vec::new(),
            },
            deflate_tx: TxChannel {
                queue: deflate_queue,
                buf_addr: deflate_buf,
                cap: 4 * MAX_BALLOON_PAGES,
                staged: Vec::new(),
                pending: Vec::new(),
            },
            num_pages: 0,
            actual_pages: 0,
        }
    }

    /// Pages the host asks the balloon to hold.
    pub fn num_pages(&self) -> (r: u32)
        ensures
            r == self.num_pages,
    {
        self.num_pages
    }

    /// Pages the balloon holds.
    pub fn actual(&self) -> (r: u32)
        ensures
            r == self.actual_pages,
    {
        self.actual_pages
    }

    /// Records the balloon size that the device configuration asks for.
    pub fn update_config(&mut self, num_pages: u32)
        ensures
            final(self).num_pages == num_pages,
            final(self).actual_pages == old(self).actual_pages,
            final(self).inflate_tx == old(self).inflate_tx,
            final(self).deflate_tx == old(self).deflate_tx,
    {
        self.num_pages = num_pages;
    }

    /// Records that the device used an inflate request of `pages` pages:
    /// the balloon holds that many more (at most `u32::MAX`).
    pub fn inflate_completed(&mut self, pages: u32)
        ensures
            final(self).actual_pages == (if old(self).actual_pages + pages <= u32::MAX {
                old(self).actual_pages + pages
            } else {
                u32::MAX as int
            }),
            final(self).num_pages == old(self).num_pages,
            final(self).inflate_tx == old(self).inflate_tx,
            final(self).deflate_tx == old(self).deflate_tx,
    {
        self.actual_pages = self.actual_pages.saturating_add(pages);
    }

    /// Records that the device used a deflate request of `pages` pages: the
    /// balloon holds that many fewer (at least none).
    pub fn deflate_completed(&mut self, pages: u32)
        ensures
            final(self).actual_pages == (if old(self).actual_pages >= pages {
                old(self).actual_pages - pages
            } else {
                0
            }),
            final(self).num_pages == old(self).num_pages,
            final(self).inflate_tx == old(self).inflate_tx,
            final(self).deflate_tx == old(self).deflate_tx,
    {
        self.actual_pages = self.actual_pages.saturating_sub(pages);
    }

    /// Stages the gift of the pages at `page_addrs` to the host. `None`, with
    /// nothing changed, for no pages or more than 16.
    pub fn inflate(&mut self, page_addrs: &[u64]) -> (r: Option<Submission>)
        requires
            old(self).wf(),
        ensures
            final(self).wf(),
            final(self).deflate_tx == old(self).deflate_tx,
            (page_addrs@.len() == 0 || page_addrs@.len() > MAX_BALLOON_PAGES) ==> r is None
                && final(self).inflate_tx == old(self).inflate_tx,
            (0 < page_addrs@.len() <= MAX_BALLOON_PAGES) ==> r is Some && final(self).inflate_tx.staged@
                == pfn_list(page_addrs@) && submit_post(
                old(self).inflate_tx.queue,
                final(self).inflate_tx.queue,
                seq![Buffer { addr: old(self).inflate_tx.buf_addr, len: (4 * page_addrs@.len()) as u32, device_writable: false }],
                r,
            ),
            final(self).num_pages == old(self).num_pages,
            final(self).actual_pages == old(self).actual_pages,
    {
        match pfn_bytes(page_addrs) {
            None => None,
            Some(list) => {
                let r = self.inflate_tx.send(list.as_slice());
                assert(list@.subrange(0, list@.len() as int) =~= list@);
                r
            },
        }
    }

    /// Stages the return of the pages at `page_addrs` from the host, as
    /// `inflate` does on the deflate queue.
    pub fn deflate(&mut self, page_addrs: &[u64]) -> (r: Option<Submission>)
        requires
            old(self).wf(),
        ensures
            final(self).wf(),
            final(self).inflate_tx == old(self).inflate_tx,
            (page_addrs@.len() == 0 || page_addrs@.len() > MAX_BALLOON_PAGES) ==> r is None
                && final(self).deflate_tx == old(self).deflate_tx,
            (0 < page_addrs@.len() <= MAX_BALLOON_PAGES) ==> r is Some && final(self).deflate_tx.staged@
                == pfn_list(page_addrs@) && submit_post(
                old(self).deflate_tx.queue,
                final(self).deflate_tx.queue,
                seq![Buffer { addr: old(self).deflate_tx.buf_addr, len: (4 * page_addrs@.len()) as u32, device_writable: false }],
                r,
            ),
            final(self).num_pages == old(self).num_pages,
            final(self).actual_pages == old(self).actual_pages,
    {
        match pfn_bytes(page_addrs) {
            None => None,
            Some(list) => {
                let r = self.deflate_tx.send(list.as_slice());
                assert(list@.subrange(0, list@.len() as int) =~= list@);
                r
            },
        }
    }

    /// Records the outcome of the balloon check, with the requested size as
    /// last read and the held pages as counted by completed requests.
    pub fn test_balloon(&self, inflate_ok: bool, deflate_ok: bool) -> (r: BalloonTestResult)
        ensures
            r.inflate_ok == inflate_ok,
            r.deflate_ok == deflate_ok,
            r.num_pages == self.num_pages,
            r.actual_pages == self.actual_pages,
            r.init_ok,
    {
        BalloonTestResult {
            inflate_ok,
            deflate_ok,
            num_pages: self.num_pages,
            actual_pages: self.actual_pages,
            init_ok: true,
        }
    }
}

// ---------------------------------------------------------------- GPU

/// A virtio-pci GPU: its control queue's notify location and the display size.
pub struct VirtioGpu {
    pub notify_base: u64,
    pub notify_off_multiplier: u32,
    pub queue_notify_off: u16,
    pub width: u32,
    pub height: u32,
}

/// A virtio-mmio GPU: its register base and the display size.
pub struct VirtioGpuMmio {
    pub base: u64,
    pub width: u32,
    pub height: u32,
    pub resource_id: u32,
}

/// Display size that a GPU starts with, before the device reports its own.
pub const DEFAULT_WIDTH: u32 = 1280;

pub const DEFAULT_HEIGHT: u32 = 720;

/// Little-endian 32-bit word at `i`.
pub open spec fn le32_at(s: Seq<u8>, i: int) -> int {
    s[i] + s[i + 1] * 0x100 + s[i + 2] * 0x1_0000 + s[i + 3] * 0x100_0000
}

/// The size of the first scanout in a display-info response, where the
/// response is one and that scanout is enabled.
pub open spec fn display_size(resp: Seq<u8>) -> Option<(u32, u32)> {
    if resp.len() >= 44 && le32_at(resp, 0) == VIRTIO_GPU_RESP_OK_DISPLAY_INFO as int && le32_at(resp, 40) != 0 {
        Some((le32_at(resp, 32) as u32, le32_at(resp, 36) as u32))
    } else {
        None
    }
}

fn read_le32_at(s: &[u8], i: usize) -> (r: u32)
    requires
        i + 4 <= s@.len(),
    ensures
        r == le32_at(s@, i as int),
{
    (s[i] as u32) + (s[i + 1] as u32) * 0x100 + (s[i + 2] as u32) * 0x1_0000 + (s[i + 3] as u32) * 0x100_0000
}

/// The first scanout's size from a display-info response, if it reports one.
pub fn parse_display_info(resp: &[u8]) -> (r: Option<(u32, u32)>)
    ensures
        r == display_size(resp@),
{
    if resp.len() < 44 {
        return None;
    }
    if read_le32_at(resp, 0) != VIRTIO_GPU_RESP_OK_DISPLAY_INFO || read_le32_at(resp, 40) == 0 {
        return None;
    }
    Some((read_le32_at(resp, 32), read_le32_at(resp, 36)))
}

/// The control header of a display-info query: its command type, then
/// flags, fence, context and padding all zero.
pub open spec fn display_info_query() -> Seq<u8> {
    le_bytes(VIRTIO_GPU_CMD_GET_DISPLAY_INFO as nat, 4) + Seq::new(20, |i: int| 0u8)
}

impl VirtioGpu {
    /// The command that asks the device for its display sizes; the device
    /// answers with `GPU_DISPLAY_INFO_LEN` bytes for `apply_display_info`.
    pub fn display_info_request() -> (r: Vec<u8>)
        ensures
            r@ == display_info_query(),
            r@.len() == GPU_HDR_LEN,
    {
        let mut out: Vec<u8> = Vec::new();
        push_le(&mut out, VIRTIO_GPU_CMD_GET_DISPLAY_INFO as u64, 4);
        let ghost head = out@;
        let mut i: usize = 0;
        while i < 20
            invariant
                i <= 20,
                out@ == head + Seq::new(i as nat, |j: int| 0u8),
            decreases 20 - i,
        {
            out.push(0);
            i = i + 1;
            assert(out@ =~= head + Seq::new(i as nat, |j: int| 0u8));
        }
        proof {
            lemma_le_bytes_len(VIRTIO_GPU_CMD_GET_DISPLAY_INFO as nat, 4);
        }
        assert(out@ =~= display_info_query());
        out
    }

    /// A GPU with the default display size.
    pub fn new(notify_base: u64, notify_off_multiplier: u32, queue_notify_off: u16) -> (r: Self)
        ensures
            r.notify_base == notify_base,
            r.notify_off_multiplier == notify_off_multiplier,
            r.queue_notify_off == queue_notify_off,
            r.width == DEFAULT_WIDTH,
            r.height == DEFAULT_HEIGHT,
    {
        VirtioGpu { notify_base, notify_off_multiplier, queue_notify_off, width: DEFAULT_WIDTH, height: DEFAULT_HEIGHT }
    }

    /// Takes the display size from a display-info response where it reports
    /// one; otherwise keeps the current size.
    pub fn apply_display_info(&mut self, resp: &[u8])
        ensures
            match display_size(resp@) {
                Some((w, h)) => final(self).width == w && final(self).height == h,
                None => final(self).width == old(self).width && final(self).height == old(self).height,
            },
            final(self).notify_base == old(self).notify_base,
            final(self).notify_off_multiplier == old(self).notify_off_multiplier,
            final(self).queue_notify_off == old(self).queue_notify_off,
    {
        if let Some((w, h)) = parse_display_info(resp) {
            self.width = w;
            self.height = h;
        }
    }

    pub fn width(&self) -> (r: u32)
        ensures
            r == self.width,
    {
        self.width
    }

    pub fn height(&self) -> (r: u32)
        ensures
            r == self.height,
    {
        self.height
    }
}

impl VirtioGpuMmio {
    pub fn width(&self) -> (r: u32)
        ensures
            r == self.width,
    {
        self.width
    }

    pub fn height(&self) -> (r: u32)
        ensures
            r == self.height,
    {
        self.height
    }
}

/// A slot header (the first config dword) names a modern virtio GPU.
pub open spec fn is_gpu_header(h: u32) -> bool {
    h % 0x1_0000 == 0x1af4 && h / 0x1_0000 == 0x1050
}

/// Index of the first slot at or after `start` whose header names a virtio
/// GPU, among the headers of the slots scanned behind one ECAM base. Where
/// bringing that GPU up fails, the caller asks again from the next index.
pub fn find_virtio_gpu_at_ecam(headers: &[u32], start: usize) -> (r: Option<usize>)
    ensures
        match r {
            Some(i) => start <= i < headers@.len() && is_gpu_header(headers@[i as int])
                && forall|j: int| start <= j < i ==> !is_gpu_header(#[trigger] headers@[j]),
            None => forall|j: int| start <= j < headers@.len() ==> !is_gpu_header(#[trigger] headers@[j]),
        },
{
    let mut i = start;
    while i < headers.len()
        invariant
            start <= i,
            forall|j: int| start <= j < i && j < headers@.len() ==> !is_gpu_header(#[trigger] headers@[j]),
        decreases headers.len() - i,
    {
        let h = headers[i];
        if h % 0x1_0000 == 0x1af4 && h / 0x1_0000 == 0x1050 {
            return Some(i);
        }
        i = i + 1;
    }
    None
}

} // verus!
