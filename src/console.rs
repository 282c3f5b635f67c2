//! Console output over virtio: staging text in a transmit queue, and the
//! hex and decimal renderings used for diagnostics.
//!
//! Each write stages its first chunk of bytes and one descriptor; the caller
//! copies the staged bytes to the transmit buffer, publishes the submission,
//! notifies the queue, and reports the used index it reads back to
//! `tx_complete`. Text longer than the buffer stays pending and goes out a
//! chunk at a time through `write_more`.
use vstd::prelude::*;
use vstd::string::StringSliceAdditionalSpecFns;
use crate::pci::VIRTIO_VENDOR_ID;
use crate::transport::notify_address;
use crate::virtqueue::{
    Buffer, Descriptor, Submission, UsedElem, Virtqueue, VRING_DESC_F_WRITE, submit_post, polled,
};

verus! {

/// Bytes that one console write sends at most.
pub const CONSOLE_TX_MAX: usize = 512;

/// Bytes that one write of the transitional PCI console sends at most.
pub const PCI_CONSOLE_TX_MAX: usize = 256;

/// Queue index of a console's transmit queue.
pub const CONSOLE_TX_QUEUE: u16 = 1;

/// Queue index of a console's receive queue.
pub const CONSOLE_RX_QUEUE: u16 = 0;

/// A transmit queue with its one buffer.
pub struct TxChannel {
    pub queue: Virtqueue,
    /// Device-visible address of the transmit buffer.
    pub buf_addr: u64,
    /// Size of the transmit buffer: a write sends at most this many bytes.
    pub cap: usize,
    /// What the transmit buffer must hold for the last submission.
    pub staged: Vec<u8>,
    /// What is still to be sent after it, in later submissions.
    pub pending: Vec<u8>,
}

impl TxChannel {
    pub open spec fn wf(&self) -> bool {
        self.queue.wf() && 0 < self.cap <= u32::MAX
    }

    /// A channel on `queue` whose buffer of `cap` bytes lies at `buf_addr`;
    /// `None` for an empty buffer or one whose size does not fit a descriptor.
    pub fn new(queue: Virtqueue, buf_addr: u64, cap: usize) -> (r: Option<Self>)
        requires
            queue.wf(),
        ensures
            match r {
                Some(c) => c.wf() && c.queue == queue && c.buf_addr == buf_addr && c.cap == cap
                    && c.staged@.len() == 0 && c.pending@.len() == 0,
                None => cap == 0 || cap > u32::MAX,
            },
    {
        if cap == 0 || cap > u32::MAX as usize {
            return None;
        }
        Some(TxChannel { queue, buf_addr, cap, staged: Vec::new(), pending: Vec::new() })
    }

    /// How many of `len` bytes a write sends.
    pub open spec fn sent_len(&self, len: int) -> int {
        if len <= self.cap { len } else { self.cap as int }
    }

    /// The channel is sending `text`: the first chunk of at most `cap` bytes
    /// is staged, the rest is pending.
    pub open spec fn holds(&self, text: Seq<u8>) -> bool {
        &&& self.staged@ == text.subrange(0, self.sent_len(text.len() as int))
        &&& self.pending@ == text.subrange(self.sent_len(text.len() as int), text.len() as int)
    }

    /// Stages the first `cap` bytes of `bytes` (all of them where fewer) as
    /// one device-readable descriptor and keeps the rest pending for
    /// `send_more`. Nothing is sent for an empty write.
    pub fn send(&mut self, bytes: &[u8]) -> (r: Option<Submission>)
        requires
            old(self).wf(),
        ensures
            final(self).wf(),
            final(self).buf_addr == old(self).buf_addr,
            final(self).cap == old(self).cap,
            bytes@.len() == 0 ==> r is None && *final(self) == *old(self),
            bytes@.len() > 0 ==> ({
                let n = old(self).sent_len(bytes@.len() as int);
                &&& final(self).holds(bytes@)
                &&& submit_post(
                    old(self).queue,
                    final(self).queue,
                    seq![Buffer { addr: old(self).buf_addr, len: n as u32, device_writable: false }],
                    r,
                )
                &&& r is Some
            }),
    {
        if bytes.len() == 0 {
            return None;
        }
        let n = if bytes.len() <= self.cap { bytes.len() } else { self.cap };
        let mut staged: Vec<u8> = Vec::new();
        let mut i: usize = 0;
        while i < n
            invariant
                n <= bytes@.len(),
                i <= n,
                staged@ == bytes@.subrange(0, i as int),
            decreases n - i,
        {
            staged.push(bytes[i]);
            i = i + 1;
            assert(staged@ =~= bytes@.subrange(0, i as int));
        }
        let mut pending: Vec<u8> = Vec::new();
        let mut j: usize = n;
        while j < bytes.len()
            invariant
                n <= j <= bytes@.len(),
                pending@ == bytes@.subrange(n as int, j as int),
            decreases bytes.len() - j,
        {
            pending.push(bytes[j]);
            j = j + 1;
            assert(pending@ =~= bytes@.subrange(n as int, j as int));
        }
        self.staged = staged;
        self.pending = pending;
        let bufs = [Buffer { addr: self.buf_addr, len: n as u32, device_writable: false }];
        assert(bufs@ =~= seq![Buffer { addr: self.buf_addr, len: n as u32, device_writable: false }]);
        self.queue.submit(bufs.as_slice())
    }

    /// Stages the next chunk of what is pending, once the last submission
    /// has been consumed; `None`, with nothing changed, when nothing is pending.
    pub fn send_more(&mut self) -> (r: Option<Submission>)
        requires
            old(self).wf(),
        ensures
            final(self).wf(),
            final(self).buf_addr == old(self).buf_addr,
            final(self).cap == old(self).cap,
            old(self).pending@.len() == 0 ==> r is None && *final(self) == *old(self),
            old(self).pending@.len() > 0 ==> ({
                let n = old(self).sent_len(old(self).pending@.len() as int);
                &&& final(self).holds(old(self).pending@)
                &&& submit_post(
                    old(self).queue,
                    final(self).queue,
                    seq![Buffer { addr: old(self).buf_addr, len: n as u32, device_writable: false }],
                    r,
                )
                &&& r is Some
            }),
    {
        let mut rest: Vec<u8> = Vec::new();
        let mut i: usize = 0;
        while i < self.pending.len()
            invariant
                i <= self.pending@.len(),
                self.pending@ == old(self).pending@,
                rest@ == self.pending@.subrange(0, i as int),
            decreases self.pending.len() - i,
        {
            rest.push(self.pending[i]);
            i = i + 1;
            assert(rest@ =~= self.pending@.subrange(0, i as int));
        }
        assert(rest@ =~= old(self).pending@);
        self.send(rest.as_slice())
    }

    /// Reports a reading of the transmit queue's used index: `true` once the
    /// device has consumed a submission not yet seen.
    pub fn complete(&mut self, used_idx: u16) -> (r: bool)
        requires
            old(self).wf(),
        ensures
            final(self).wf(),
            r == (used_idx != old(self).queue.last_seen_used_idx),
            final(self).queue == polled(old(self).queue, used_idx),
            final(self).staged == old(self).staged,
            final(self).pending == old(self).pending,
            final(self).buf_addr == old(self).buf_addr,
            final(self).cap == old(self).cap,
    {
        self.queue.poll_used(used_idx).is_some()
    }
}

/// Magic value of a virtio-mmio register block ("virt").
pub const VIRTIO_MMIO_MAGIC: u32 = 0x7472_6976;

/// A virtio-mmio register header `(magic, version, device ID)` belongs to a console.
pub open spec fn is_mmio_console(h: (u32, u32, u32)) -> bool {
    h.0 == VIRTIO_MMIO_MAGIC && (h.1 == 1 || h.1 == 2) && h.2 == 3
}

/// Bytes of each receive buffer of a console.
pub const CONSOLE_RX_BUF: u32 = 512;

/// Console on a modern virtio-pci device.
pub struct VirtioConsole {
    pub notify_base: u64,
    pub notify_mult: u32,
    pub rx_notify_off: u16,
    pub tx_notify_off: u16,
    pub tx: TxChannel,
    pub rx: Virtqueue,
    /// Device-visible address of the receive buffers, one per slot.
    pub rx_bufs: u64,
}

/// A chunk of console input: where it lies, how many bytes to take, and the
/// re-posting of its buffer to publish afterwards.
pub struct RxChunk {
    pub addr: u64,
    pub len: usize,
    pub repost: Submission,
}

/// Console on a transitional virtio-pci device, all of whose structures
/// lie in BAR 0.
pub struct VirtioPciConsole {
    pub bar0: u64,
    pub common_cfg_offset: u32,
    pub notify_cfg_offset: u32,
    pub notify_off_multiplier: u32,
    pub queue_notify_off: u16,
    pub tx: TxChannel,
}

/// ASCII digit for a value below 16, in lower case.
pub open spec fn hex_char(d: int) -> u8 {
    if d < 10 {
        (0x30 + d) as u8
    } else {
        (0x61 + d - 10) as u8
    }
}

/// The last `n` hexadecimal digits of `x`, most significant first.
pub open spec fn hex_digits(x: nat, n: nat) -> Seq<u8>
    decreases n,
{
    if n == 0 {
        Seq::empty()
    } else {
        hex_digits(x / 16, (n - 1) as nat).push(hex_char((x % 16) as int))
    }
}

/// `0x` and the sixteen hexadecimal digits of `x`.
pub open spec fn hex_text(x: u64) -> Seq<u8> {
    seq![0x30u8, 0x78u8] + hex_digits(x as nat, 16)
}

/// The decimal digits of `x`, most significant first, without leading zeros.
pub open spec fn dec_text(x: nat) -> Seq<u8>
    decreases x,
{
    if x < 10 {
        seq![(0x30 + x) as u8]
    } else {
        dec_text(x / 10).push((0x30 + x % 10) as u8)
    }
}

/// `s` with each line feed preceded by a carriage return.
pub open spec fn crlf(s: Seq<u8>) -> Seq<u8>
    decreases s.len(),
{
    if s.len() == 0 {
        Seq::empty()
    } else {
        let head = if s[0] == 0x0a { seq![0x0du8, 0x0au8] } else { seq![s[0]] };
        head + crlf(s.drop_first())
    }
}

/// `0x` followed by the sixteen lower-case hexadecimal digits of `x`.
pub fn hex_bytes(x: u64) -> (r: Vec<u8>)
    ensures
        r@ == hex_text(x),
{
    let mut out: Vec<u8> = Vec::new();
    let mut v: u64 = x;
    let mut k: usize = 0;
    while k < 16
        invariant
            k <= 16,
            hex_digits(x as nat, 16) == hex_digits(v as nat, (16 - k) as nat) + out@,
        decreases 16 - k,
    {
        let d = v % 16;
        let c: u8 = if d < 10 { 0x30 + d as u8 } else { 0x61 + (d - 10) as u8 };
        let ghost old_out = out@;
        out.insert(0, c);
        proof {
            assert(hex_digits(v as nat, (16 - k) as nat) == hex_digits((v / 16) as nat, (16 - k - 1) as nat).push(c));
            assert(hex_digits((v / 16) as nat, (16 - k - 1) as nat).push(c) + old_out =~= hex_digits(
                (v / 16) as nat,
                (16 - k - 1) as nat,
            ) + out@);
        }
        v = v / 16;
        k = k + 1;
    }
    out.insert(0, 0x78);
    out.insert(0, 0x30);
    assert(out@ =~= hex_text(x));
    out
}

/// The decimal digits of `x`, without leading zeros (`0` for zero).
pub fn dec_bytes(x: u64) -> (r: Vec<u8>)
    ensures
        r@ == dec_text(x as nat),
{
    let mut out: Vec<u8> = Vec::new();
    let mut v: u64 = x;
    while v >= 10
        invariant
            dec_text(x as nat) == dec_text(v as nat) + out@,
        decreases v,
    {
        let c: u8 = 0x30 + (v % 10) as u8;
        let ghost old_out = out@;
        out.insert(0, c);
        proof {
            assert(dec_text(v as nat) == dec_text((v / 10) as nat).push(c));
            assert(dec_text((v / 10) as nat).push(c) + old_out =~= dec_text((v / 10) as nat) + out@);
        }
        v = v / 10;
    }
    let ghost old_out = out@;
    out.insert(0, 0x30 + v as u8);
    assert(out@ =~= dec_text(v as nat) + old_out);
    out
}

/// `bytes` with each line feed preceded by a carriage return.
pub fn crlf_bytes(bytes: &[u8]) -> (r: Vec<u8>)
    ensures
        r@ == crlf(bytes@),
{
    let mut out: Vec<u8> = Vec::new();
    let mut i: usize = 0;
    assert(bytes@.subrange(0, bytes@.len() as int) =~= bytes@);
    assert(out@ + crlf(bytes@) =~= crlf(bytes@));
    while i < bytes.len()
        invariant
            i <= bytes@.len(),
            crlf(bytes@) == out@ + crlf(bytes@.subrange(i as int, bytes@.len() as int)),
        decreases bytes.len() - i,
    {
        let ghost rest = bytes@.subrange(i as int, bytes@.len() as int);
        assert(rest.drop_first() =~= bytes@.subrange(i + 1, bytes@.len() as int));
        let ghost old_out = out@;
        if bytes[i] == 0x0a {
            out.push(0x0d);
            out.push(0x0a);
        } else {
            out.push(bytes[i]);
        }
        proof {
            let head = if rest[0] == 0x0a { seq![0x0du8, 0x0au8] } else { seq![rest[0]] };
            assert(crlf(rest) == head + crlf(rest.drop_first()));
            assert(out@ =~= old_out + head);
            assert(old_out + (head + crlf(rest.drop_first())) =~= out@ + crlf(rest.drop_first()));
        }
        i = i + 1;
    }
    assert(bytes@.subrange(i as int, bytes@.len() as int) =~= Seq::<u8>::empty());
    assert(out@ + Seq::<u8>::empty() =~= out@);
    out
}

impl VirtioConsole {
    pub open spec fn wf(&self) -> bool {
        &&& self.tx.wf() && self.tx.cap == CONSOLE_TX_MAX && self.tx.queue.queue_index == CONSOLE_TX_QUEUE
        &&& self.rx.wf() && self.rx.queue_index == CONSOLE_RX_QUEUE
    }

    /// A console whose receive queue is `rx_queue` (queue 0), with its
    /// buffers from `rx_bufs` on, and whose transmit queue is `tx_queue`
    /// (queue 1), with its buffer at `tx_buf_addr`. `None` where a queue has
    /// the wrong index.
    pub fn new(
        notify_base: u64,
        notify_mult: u32,
        rx_notify_off: u16,
        tx_notify_off: u16,
        rx_queue: Virtqueue,
        rx_bufs: u64,
        tx_queue: Virtqueue,
        tx_buf_addr: u64,
    ) -> (r: Option<Self>)
        requires
            tx_queue.wf(),
            rx_queue.wf(),
        ensures
            match r {
                Some(c) => c.wf() && c.notify_base == notify_base && c.notify_mult == notify_mult
                    && c.rx_notify_off == rx_notify_off && c.tx_notify_off == tx_notify_off
                    && c.tx.queue == tx_queue && c.tx.buf_addr == tx_buf_addr && c.tx.staged@.len() == 0 && c.tx.pending@.len() == 0
                    && c.rx == rx_queue && c.rx_bufs == rx_bufs,
                None => tx_queue.queue_index != CONSOLE_TX_QUEUE || rx_queue.queue_index != CONSOLE_RX_QUEUE,
            },
    {
        if tx_queue.queue_index != CONSOLE_TX_QUEUE || rx_queue.queue_index != CONSOLE_RX_QUEUE {
            return None;
        }
        Some(
            VirtioConsole {
                notify_base,
                notify_mult,
                rx_notify_off,
                tx_notify_off,
                tx: TxChannel { queue: tx_queue, buf_addr: tx_buf_addr, cap: CONSOLE_TX_MAX, staged: Vec::new(), pending: Vec::new() },
                rx: rx_queue,
                rx_bufs,
            },
        )
    }

    /// Index of the first virtio-mmio console at or after `start` among the
    /// register headers read at the candidate addresses, each `(magic,
    /// version, device ID)`: the magic is "virt", the version 1 (legacy) or 2
    /// (modern), the device a console. Where bringing that one up fails, the
    /// caller asks again from the next index.
    pub fn probe(headers: &[(u32, u32, u32)], start: usize) -> (r: Option<usize>)
        ensures
            match r {
                Some(i) => start <= i < headers@.len() && is_mmio_console(headers@[i as int])
                    && forall|j: int| start <= j < i ==> !is_mmio_console(#[trigger] headers@[j]),
                None => forall|j: int| start <= j < headers@.len() ==> !is_mmio_console(#[trigger] headers@[j]),
            },
    {
        let mut i: usize = start;
        while i < headers.len()
            invariant
                start <= i,
                forall|j: int| start <= j < i && j < headers@.len() ==> !is_mmio_console(#[trigger] headers@[j]),
            decreases headers.len() - i,
        {
            let (magic, version, device_id) = headers[i];
            if magic == VIRTIO_MMIO_MAGIC && (version == 1 || version == 2) && device_id == 3 {
                return Some(i);
            }
            i = i + 1;
        }
        None
    }

    /// Address of the receive queue's notify register.
    pub fn rx_notify_address(&self) -> (r: Option<u64>)
        ensures
            self.notify_base + self.rx_notify_off * self.notify_mult <= u64::MAX ==> r == Some(
                (self.notify_base + self.rx_notify_off * self.notify_mult) as u64,
            ),
            self.notify_base + self.rx_notify_off * self.notify_mult > u64::MAX ==> r is None,
    {
        notify_address(self.notify_base, self.rx_notify_off, self.notify_mult)
    }

    /// Posts one 512-byte receive buffer per slot of the receive queue;
    /// `false`, with nothing changed, where they would pass the end of the
    /// address space.
    pub fn rx_post_all(&mut self) -> (r: bool)
        requires
            old(self).wf(),
        ensures
            final(self).wf(),
            r == (old(self).rx_bufs + old(self).rx.size * CONSOLE_RX_BUF <= u64::MAX),
            r ==> final(self).rx.descriptors@ == Seq::new(
                old(self).rx.size as nat,
                |i: int| Descriptor {
                    addr: (old(self).rx_bufs + i * CONSOLE_RX_BUF) as u64,
                    len: CONSOLE_RX_BUF,
                    flags: VRING_DESC_F_WRITE,
                    next: 0,
                },
            ) && final(self).rx.avail_ring@ == Seq::new(old(self).rx.size as nat, |i: int| i as u16)
                && final(self).rx.avail_idx == old(self).rx.size && final(self).rx.next_desc == old(self).rx.size,
            final(self).rx.size == old(self).rx.size,
            final(self).rx.queue_index == old(self).rx.queue_index,
            final(self).rx.last_seen_used_idx == old(self).rx.last_seen_used_idx,
            !r ==> final(self).rx == old(self).rx,
            final(self).tx == old(self).tx,
            final(self).rx_bufs == old(self).rx_bufs,
    {
        self.rx.post_all(self.rx_bufs, CONSOLE_RX_BUF)
    }

    /// Takes the input that the device reported in used entry `used` (read
    /// from the slot that `rx.poll_used` named): at most `out_len` bytes from
    /// the buffer of descriptor `used.id`, which goes back to the device.
    /// `None`, with nothing changed, for an id past the queue.
    pub fn poll_read(&mut self, used: UsedElem, out_len: usize) -> (r: Option<RxChunk>)
        requires
            old(self).wf(),
            old(self).rx_bufs + old(self).rx.size * CONSOLE_RX_BUF <= u64::MAX,
        ensures
            final(self).wf(),
            final(self).tx == old(self).tx,
            final(self).rx_bufs == old(self).rx_bufs,
            used.id >= old(self).rx.size ==> r is None && final(self).rx == old(self).rx,
            used.id < old(self).rx.size ==> ({
                let slot = old(self).rx.avail_idx as int % old(self).rx.size as int;
                &&& r is Some
                &&& r->0.addr == old(self).rx_bufs + used.id * CONSOLE_RX_BUF
                &&& r->0.len == (if used.len <= out_len { used.len as int } else { out_len as int })
                &&& r->0.repost == Submission {
                    head: used.id as u16,
                    count: 1,
                    ring_slot: slot as u16,
                    avail_idx: ((old(self).rx.avail_idx + 1) % 0x1_0000) as u16,
                }
                &&& final(self).rx.avail_ring@ == old(self).rx.avail_ring@.update(slot, used.id as u16)
                &&& final(self).rx.avail_idx == (old(self).rx.avail_idx + 1) % 0x1_0000
                &&& final(self).rx.descriptors == old(self).rx.descriptors
                &&& final(self).rx.last_seen_used_idx == old(self).rx.last_seen_used_idx
                &&& final(self).rx.next_desc == old(self).rx.next_desc
                &&& final(self).rx.queue_index == old(self).rx.queue_index
                &&& final(self).rx.size == old(self).rx.size
            }),
    {
        if used.id >= self.rx.size as u32 {
            return None;
        }
        let id = used.id as u16;
        let size = self.rx.size;
        proof {
            assert(id * CONSOLE_RX_BUF <= size * CONSOLE_RX_BUF) by (nonlinear_arith)
                requires id < size;
        }
        let addr = self.rx_bufs + (id as u64) * (CONSOLE_RX_BUF as u64);
        let len = if (used.len as usize) <= out_len { used.len as usize } else { out_len };
        let repost = self.rx.repost(id);
        Some(RxChunk { addr, len, repost })
    }

    /// Address of the transmit queue's notify register.
    pub fn tx_notify_address(&self) -> (r: Option<u64>)
        ensures
            self.notify_base + self.tx_notify_off * self.notify_mult <= u64::MAX ==> r == Some(
                (self.notify_base + self.tx_notify_off * self.notify_mult) as u64,
            ),
            self.notify_base + self.tx_notify_off * self.notify_mult > u64::MAX ==> r is None,
    {
        notify_address(self.notify_base, self.tx_notify_off, self.notify_mult)
    }

    /// Stages the first 512 bytes of `bytes` for transmission; the rest stays
    /// pending for `write_more`.
    pub fn write(&mut self, bytes: &[u8]) -> (r: Option<Submission>)
        requires
            old(self).wf(),
        ensures
            final(self).wf(),
            bytes@.len() == 0 ==> r is None && final(self).tx == old(self).tx,
            bytes@.len() > 0 ==> r is Some && final(self).tx.holds(bytes@) && submit_post(
                old(self).tx.queue,
                final(self).tx.queue,
                seq![Buffer { addr: old(self).tx.buf_addr, len: old(self).tx.sent_len(bytes@.len() as int) as u32, device_writable: false }],
                r,
            ),
    {
        self.tx.send(bytes)
    }

    /// Stages the next chunk of text left pending by an earlier write, once
    /// the device has consumed the last one; `None` when nothing is pending.
    pub fn write_more(&mut self) -> (r: Option<Submission>)
        requires
            old(self).wf(),
        ensures
            final(self).wf(),
            final(self).rx == old(self).rx,
            old(self).tx.pending@.len() == 0 ==> r is None && final(self).tx == old(self).tx,
            old(self).tx.pending@.len() > 0 ==> r is Some && final(self).tx.holds(old(self).tx.pending@)
                && submit_post(
                old(self).tx.queue,
                final(self).tx.queue,
                seq![Buffer { addr: old(self).tx.buf_addr, len: old(self).tx.sent_len(old(self).tx.pending@.len() as int) as u32, device_writable: false }],
                r,
            ),
    {
        self.tx.send_more()
    }

    /// Stages one byte for transmission.
    pub fn putc(&mut self, ch: u8) -> (r: Option<Submission>)
        requires
            old(self).wf(),
        ensures
            final(self).wf(),
            r is Some,
            final(self).tx.holds(seq![ch]),
            submit_post(
                old(self).tx.queue,
                final(self).tx.queue,
                seq![Buffer { addr: old(self).tx.buf_addr, len: 1, device_writable: false }],
                r,
            ),
    {
        let buf = [ch];
        assert(buf@ =~= seq![ch]);
        self.write(buf.as_slice())
    }

    /// Stages the bytes of `s` for transmission, as `write` does.
    pub fn write_str(&mut self, s: &str) -> (r: Option<Submission>)
        requires
            old(self).wf(),
        ensures
            final(self).wf(),
            s.spec_bytes().len() == 0 ==> r is None && final(self).tx == old(self).tx,
            s.spec_bytes().len() > 0 ==> r is Some && final(self).tx.holds(s.spec_bytes()) && submit_post(
                old(self).tx.queue,
                final(self).tx.queue,
                seq![Buffer { addr: old(self).tx.buf_addr, len: old(self).tx.sent_len(s.spec_bytes().len() as int) as u32, device_writable: false }],
                r,
            ),
    {
        self.write(s.as_bytes())
    }

    /// Stages `s` with each line feed turned into a carriage return and a
    /// line feed, as a terminal expects.
    pub fn puts(&mut self, s: &str) -> (r: Option<Submission>)
        requires
            old(self).wf(),
        ensures
            final(self).wf(),
            crlf(s.spec_bytes()).len() == 0 ==> r is None && final(self).tx == old(self).tx,
            crlf(s.spec_bytes()).len() > 0 ==> r is Some && final(self).tx.holds(crlf(s.spec_bytes())) && submit_post(
                old(self).tx.queue,
                final(self).tx.queue,
                seq![Buffer { addr: old(self).tx.buf_addr, len: old(self).tx.sent_len(crlf(s.spec_bytes()).len() as int) as u32, device_writable: false }],
                r,
            ),
    {
        let text = crlf_bytes(s.as_bytes());
        self.write(text.as_slice())
    }

    /// Reports a reading of the transmit queue's used index; `true` once the
    /// last submission has been consumed.
    pub fn tx_complete(&mut self, used_idx: u16) -> (r: bool)
        requires
            old(self).wf(),
        ensures
            final(self).wf(),
            r == (used_idx != old(self).tx.queue.last_seen_used_idx),
            final(self).tx.queue == polled(old(self).tx.queue, used_idx),
    {
        self.tx.complete(used_idx)
    }
}

/// Stages `0x` and the sixteen hexadecimal digits of `x` on the console.
pub fn print_hex(con: &mut VirtioConsole, x: u64) -> (r: Option<Submission>)
    requires
        old(con).wf(),
    ensures
        final(con).wf(),
        r is Some,
        final(con).tx.holds(hex_text(x)),
        submit_post(
            old(con).tx.queue,
            final(con).tx.queue,
            seq![Buffer { addr: old(con).tx.buf_addr, len: 18, device_writable: false }],
            r,
        ),
{
    let text = hex_bytes(x);
    proof {
        lemma_hex_digits_len(x as nat, 16);
    }
    let r = con.write(text.as_slice());
    assert(text@.subrange(0, 18) =~= text@);
    r
}

/// Stages the decimal digits of `x` on the console.
pub fn print_dec(con: &mut VirtioConsole, x: u64) -> (r: Option<Submission>)
    requires
        old(con).wf(),
    ensures
        final(con).wf(),
        r is Some,
        final(con).tx.holds(dec_text(x as nat)),
        final(con).tx.staged@ == dec_text(x as nat),
        submit_post(
            old(con).tx.queue,
            final(con).tx.queue,
            seq![Buffer { addr: old(con).tx.buf_addr, len: dec_text(x as nat).len() as u32, device_writable: false }],
            r,
        ),
{
    let text = dec_bytes(x);
    proof {
        lemma_dec_text_len(x as nat);
    }
    let r = con.write(text.as_slice());
    assert(text@.subrange(0, text@.len() as int) =~= text@);
    r
}

proof fn lemma_hex_digits_len(x: nat, n: nat)
    ensures
        hex_digits(x, n).len() == n,
    decreases n,
{
    if n > 0 {
        lemma_hex_digits_len(x / 16, (n - 1) as nat);
    }
}

spec fn pow10(k: nat) -> nat
    decreases k,
{
    if k == 0 { 1 } else { 10 * pow10((k - 1) as nat) }
}

proof fn lemma_dec_text_len_bound(x: nat, k: nat)
    requires
        x < pow10(k),
        k >= 1,
    ensures
        1 <= dec_text(x).len() <= k,
    decreases x,
{
    if x >= 10 {
        let p = pow10((k - 1) as nat);
        assert(k >= 2) by {
            if k == 1 {
                assert(pow10(0) == 1);
            }
        }
        assert(x / 10 < p) by (nonlinear_arith)
            requires x < 10 * p;
        lemma_dec_text_len_bound(x / 10, (k - 1) as nat);
    }
}

proof fn lemma_dec_text_len(x: nat)
    requires
        x <= u64::MAX,
    ensures
        1 <= dec_text(x).len() <= 20,
{
    reveal_with_fuel(pow10, 21);
    assert(pow10(20) == 100_000_000_000_000_000_000);
    lemma_dec_text_len_bound(x, 20);
}

/// Stages `s` and a line feed on the console; beyond the first 512 bytes
/// the text stays pending for `write_more`, so the line feed is never lost.
pub fn println(con: &mut VirtioConsole, s: &str) -> (r: Option<Submission>)
    requires
        old(con).wf(),
    ensures
        final(con).wf(),
        r is Some,
        final(con).tx.holds(s.spec_bytes().push(0x0a)),
        submit_post(
            old(con).tx.queue,
            final(con).tx.queue,
            seq![Buffer { addr: old(con).tx.buf_addr, len: old(con).tx.sent_len(s.spec_bytes().len() as int + 1) as u32, device_writable: false }],
            r,
        ),
{
    let bytes = s.as_bytes();
    let mut line: Vec<u8> = Vec::new();
    let mut i: usize = 0;
    while i < bytes.len()
        invariant
            i <= bytes@.len(),
            line@ == bytes@.subrange(0, i as int),
        decreases bytes.len() - i,
    {
        line.push(bytes[i]);
        i = i + 1;
        assert(line@ =~= bytes@.subrange(0, i as int));
    }
    line.push(0x0a);
    assert(line@ =~= s.spec_bytes().push(0x0a));
    con.write(line.as_slice())
}

impl VirtioPciConsole {
    pub open spec fn wf(&self) -> bool {
        self.tx.wf() && self.tx.cap == PCI_CONSOLE_TX_MAX && self.tx.queue.queue_index == CONSOLE_TX_QUEUE
    }

    /// Address of the transmit queue's notify register: BAR 0 plus the
    /// notify structure's offset plus the queue's notify offset times the
    /// multiplier; `None` where it does not fit.
    pub fn notify_address(&self) -> (r: Option<u64>)
        ensures
            ({
                let a = self.bar0 + self.notify_cfg_offset + self.queue_notify_off * self.notify_off_multiplier;
                &&& a <= u64::MAX ==> r == Some(a as u64)
                &&& a > u64::MAX ==> r is None
            }),
    {
        match self.bar0.checked_add(self.notify_cfg_offset as u64) {
            None => None,
            Some(base) => notify_address(base, self.queue_notify_off, self.notify_off_multiplier),
        }
    }

    /// Stages the first 256 bytes of `data` for transmission; the rest stays
    /// pending on the channel (`tx.send_more`).
    pub fn write(&mut self, data: &[u8]) -> (r: Option<Submission>)
        requires
            old(self).wf(),
        ensures
            final(self).wf(),
            data@.len() == 0 ==> r is None && final(self).tx == old(self).tx,
            data@.len() > 0 ==> r is Some && final(self).tx.holds(data@) && submit_post(
                old(self).tx.queue,
                final(self).tx.queue,
                seq![Buffer { addr: old(self).tx.buf_addr, len: old(self).tx.sent_len(data@.len() as int) as u32, device_writable: false }],
                r,
            ),
    {
        self.tx.send(data)
    }

    /// Stages one byte for transmission.
    pub fn putc(&mut self, c: u8) -> (r: Option<Submission>)
        requires
            old(self).wf(),
        ensures
            final(self).wf(),
            r is Some,
            final(self).tx.holds(seq![c]),
            submit_post(
                old(self).tx.queue,
                final(self).tx.queue,
                seq![Buffer { addr: old(self).tx.buf_addr, len: 1, device_writable: false }],
                r,
            ),
    {
        let buf = [c];
        assert(buf@ =~= seq![c]);
        self.write(buf.as_slice())
    }

    /// Stages the bytes of `s` for transmission, as `write` does.
    pub fn puts(&mut self, s: &str) -> (r: Option<Submission>)
        requires
            old(self).wf(),
        ensures
            final(self).wf(),
            s.spec_bytes().len() > 0 ==> r is Some && final(self).tx.holds(s.spec_bytes()) && submit_post(
                old(self).tx.queue,
                final(self).tx.queue,
                seq![Buffer { addr: old(self).tx.buf_addr, len: old(self).tx.sent_len(s.spec_bytes().len() as int) as u32, device_writable: false }],
                r,
            ),
            s.spec_bytes().len() == 0 ==> r is None && final(self).tx == old(self).tx,
    {
        self.write(s.as_bytes())
    }
}

/// A slot header (the first config dword) names a virtio console: vendor
/// 0x1af4 with device 0x1003 (transitional) or 0x1043 (modern).
pub open spec fn is_console_header(h: u32) -> bool {
    h % 0x1_0000 == 0x1af4 && (h / 0x1_0000 == 0x1003 || h / 0x1_0000 == 0x1043)
}

/// Whether a device with these IDs is a virtio console.
pub fn is_virtio_console(vendor_id: u16, device_id: u16) -> (r: bool)
    ensures
        r == (vendor_id == 0x1af4 && (device_id == 0x1003 || device_id == 0x1043)),
{
    vendor_id == VIRTIO_VENDOR_ID && (device_id == 0x1003 || device_id == 0x1043)
}

/// Index of the first slot at or after `start` whose header names a virtio
/// console, among the headers of the slots scanned (buses in order, 32
/// slots each); `None` where there is none. Where bringing that console up
/// fails, the caller asks again from the next index.
pub fn find_virtio_pci_console(headers: &[u32], start: usize) -> (r: Option<usize>)
    ensures
        match r {
            Some(i) => start <= i < headers@.len() && is_console_header(headers@[i as int])
                && forall|j: int| start <= j < i ==> !is_console_header(#[trigger] headers@[j]),
            None => forall|j: int| start <= j < headers@.len() ==> !is_console_header(#[trigger] headers@[j]),
        },
{
    let mut i = start;
    while i < headers.len()
        invariant
            start <= i,
            forall|j: int| start <= j < i && j < headers@.len() ==> !is_console_header(#[trigger] headers@[j]),
        decreases headers.len() - i,
    {
        let h = headers[i];
        if is_virtio_console((h % 0x1_0000) as u16, (h / 0x1_0000) as u16) {
            return Some(i);
        }
        i = i + 1;
    }
    None
}

} // verus!
