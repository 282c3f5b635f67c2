//! Split virtqueues: the driver's side of the descriptor table and the
//! available ring, and the tracking of how far the device's used ring has
//! been consumed.
//!
//! A `Virtqueue` holds what the driver writes. After `submit` the caller
//! copies the new descriptors and ring entry to the device-visible rings,
//! fences, publishes the new available index, fences, and writes the queue
//! index to the queue's notify register. It then reads the used index and
//! hands each reading to `poll_used` until one reports a completion or its
//! own bound on attempts runs out.
use vstd::prelude::*;

verus! {

/// Descriptor flag: the chain continues at `next`.
pub const VRING_DESC_F_NEXT: u16 = 1;

/// Descriptor flag: the device writes this buffer.
pub const VRING_DESC_F_WRITE: u16 = 2;

/// Largest queue size that virtio allows.
pub const MAX_QUEUE_SIZE: u16 = 0x8000;

/// One entry of the descriptor table.
#[derive(Clone, Copy, PartialEq, Eq, Structural, Debug)]
pub struct Descriptor {
    pub addr: u64,
    pub len: u32,
    pub flags: u16,
    pub next: u16,
}

/// One buffer of a request.
#[derive(Clone, Copy, PartialEq, Eq, Structural, Debug)]
pub struct Buffer {
    pub addr: u64,
    pub len: u32,
    pub device_writable: bool,
}

/// One entry of the used ring, as the device writes it.
#[derive(Clone, Copy, PartialEq, Eq, Structural, Debug)]
pub struct UsedElem {
    pub id: u32,
    pub len: u32,
}

/// What a submission changed, for the caller to publish.
#[derive(Clone, Copy, PartialEq, Eq, Structural, Debug)]
pub struct Submission {
    /// Descriptor slot where the chain starts.
    pub head: u16,
    /// Number of descriptors in the chain.
    pub count: u16,
    /// Available-ring slot that now holds `head`.
    pub ring_slot: u16,
    /// Available index to publish after the ring entry.
    pub avail_idx: u16,
}

pub struct Virtqueue {
    pub queue_index: u16,
    pub size: u16,
    pub descriptors: Vec<Descriptor>,
    pub avail_ring: Vec<u16>,
    pub avail_idx: u16,
    /// Running count of descriptors handed out; the next chain starts at
    /// this count modulo the size.
    pub next_desc: u16,
    pub last_seen_used_idx: u16,
}

/// `n` is a power of two.
pub open spec fn is_pow2(n: u16) -> bool {
    n > 0 && n & ((n - 1) as u16) == 0
}

/// Descriptor slot of buffer `k` of a chain that starts at `head`.
pub open spec fn slot_of(head: int, k: int, size: int) -> int {
    (head + k) % size
}

/// The descriptor for buffer `k` of a chain of `n` that starts at `head`.
pub open spec fn chain_desc(b: Buffer, k: int, n: int, head: int, size: int) -> Descriptor {
    Descriptor {
        addr: b.addr,
        len: b.len,
        flags: ((if k + 1 < n { VRING_DESC_F_NEXT } else { 0 }) + (if b.device_writable {
            VRING_DESC_F_WRITE
        } else {
            0
        })) as u16,
        next: (if k + 1 < n { (head + k + 1) % size } else { 0 }) as u16,
    }
}

impl Virtqueue {
    pub open spec fn wf(&self) -> bool {
        &&& is_pow2(self.size)
        &&& self.size <= MAX_QUEUE_SIZE
        &&& self.descriptors@.len() == self.size
        &&& self.avail_ring@.len() == self.size
    }

    /// An empty queue of `size` entries; `None` unless the size is a power
    /// of two no larger than virtio allows.
    pub fn new(queue_index: u16, size: u16) -> (r: Option<Self>)
        ensures
            match r {
                Some(q) => q.wf() && q.queue_index == queue_index && q.size == size && q.avail_idx == 0
                    && q.next_desc == 0 && q.last_seen_used_idx == 0
                    && q.descriptors@ == Seq::new(size as nat, |i: int| Descriptor { addr: 0, len: 0, flags: 0, next: 0 })
                    && q.avail_ring@ == Seq::new(size as nat, |i: int| 0u16),
                None => !(is_pow2(size) && size <= MAX_QUEUE_SIZE),
            },
    {
        if size == 0 || size > MAX_QUEUE_SIZE || size & (size - 1) != 0 {
            return None;
        }
        let mut descriptors: Vec<Descriptor> = Vec::new();
        let mut avail_ring: Vec<u16> = Vec::new();
        let mut i: u16 = 0;
        while i < size
            invariant
                i <= size,
                descriptors@ == Seq::new(i as nat, |j: int| Descriptor { addr: 0, len: 0, flags: 0, next: 0 }),
                avail_ring@ == Seq::new(i as nat, |j: int| 0u16),
            decreases size - i,
        {
            descriptors.push(Descriptor { addr: 0, len: 0, flags: 0, next: 0 });
            avail_ring.push(0);
            i = i + 1;
            assert(descriptors@ =~= Seq::new(i as nat, |j: int| Descriptor { addr: 0, len: 0, flags: 0, next: 0 }));
            assert(avail_ring@ =~= Seq::new(i as nat, |j: int| 0u16));
        }
        Some(Virtqueue { queue_index, size, descriptors, avail_ring, avail_idx: 0, next_desc: 0, last_seen_used_idx: 0 })
    }

    /// Places `bufs` as one chain in the descriptor table, starting at the
    /// running count modulo the size and linked with NEXT in consecutive
    /// slots, and appends its head to the available ring. `None`, with
    /// nothing changed, for an empty chain or one longer than the queue.
    pub fn submit(&mut self, bufs: &[Buffer]) -> (r: Option<Submission>)
        requires
            old(self).wf(),
        ensures
            final(self).wf(),
            submit_post(*old(self), *final(self), bufs@, r),
    {
        let n = bufs.len();
        if n == 0 || n > self.size as usize {
            return None;
        }
        let size = self.size;
        let head = self.next_desc % size;
        let mut k: usize = 0;
        while k < n
            invariant
                self.wf(),
                self.size == size,
                n == bufs@.len(),
                0 < n <= size,
                head as int == old(self).next_desc as int % size as int,
                k <= n,
                self.queue_index == old(self).queue_index,
                self.avail_idx == old(self).avail_idx,
                self.next_desc == old(self).next_desc,
                self.last_seen_used_idx == old(self).last_seen_used_idx,
                self.avail_ring@ == old(self).avail_ring@,
                forall|q: int| 0 <= q < k ==> #[trigger] self.descriptors@[slot_of(head as int, q, size as int)]
                    == chain_desc(bufs@[q], q, n as int, head as int, size as int),
                forall|j: int|
                    0 <= j < size && !(exists|q: int| 0 <= q < k && j == #[trigger] slot_of(head as int, q, size as int))
                        ==> #[trigger] self.descriptors@[j] == old(self).descriptors@[j],
            decreases n - k,
        {
            let b = bufs[k];
            let slot = ((head as usize + k) % (size as usize)) as u16;
            let more = k + 1 < n;
            let flags: u16 = (if more { VRING_DESC_F_NEXT } else { 0 }) + (if b.device_writable {
                VRING_DESC_F_WRITE
            } else {
                0
            });
            let next: u16 = if more { ((head as usize + k + 1) % (size as usize)) as u16 } else { 0 };
            let d = Descriptor { addr: b.addr, len: b.len, flags, next };
            assert(d == chain_desc(bufs@[k as int], k as int, n as int, head as int, size as int));
            let ghost before = self.descriptors@;
            self.descriptors.set(slot as usize, d);
            proof {
                assert forall|q: int| 0 <= q < k + 1 implies #[trigger] self.descriptors@[slot_of(head as int, q, size as int)]
                    == chain_desc(bufs@[q], q, n as int, head as int, size as int) by {
                    if q < k {
                        lemma_distinct_slots(head as int, q, k as int, size as int);
                    }
                }
                assert forall|j: int|
                    0 <= j < size && !(exists|q: int| 0 <= q < k + 1 && j == #[trigger] slot_of(head as int, q, size as int))
                        implies #[trigger] self.descriptors@[j] == old(self).descriptors@[j] by {
                    assert(j != slot_of(head as int, k as int, size as int));
                    if exists|q: int| 0 <= q < k && j == #[trigger] slot_of(head as int, q, size as int) {
                        let q = choose|q: int| 0 <= q < k && j == #[trigger] slot_of(head as int, q, size as int);
                        assert(0 <= q < k + 1 && j == slot_of(head as int, q, size as int));
                    }
                }
            }
            k = k + 1;
        }
        let ring_slot = self.avail_idx % size;
        self.avail_ring.set(ring_slot as usize, head);
        self.avail_idx = self.avail_idx.wrapping_add(1);
        self.next_desc = ((self.next_desc as usize + n) % 0x1_0000) as u16;
        Some(Submission { head, count: n as u16, ring_slot, avail_idx: self.avail_idx })
    }

    /// Descriptor slot of the `k`-th descriptor of a chain that starts at
    /// slot `head`: chains take consecutive slots, wrapping at the size.
    pub fn chain_slot(&self, head: u16, k: u16) -> (r: u16)
        requires
            self.wf(),
        ensures
            r == slot_of(head as int, k as int, self.size as int),
    {
        ((head as u32 + k as u32) % (self.size as u32)) as u16
    }

    /// Posts one device-writable buffer per slot, for a receive queue: slot
    /// `i` describes `buf_len` bytes at `base + i * buf_len`, the available
    /// ring lists every slot in order, and the available index is the size.
    /// `false`, with nothing changed, where the buffers would pass the end of
    /// the address space.
    pub fn post_all(&mut self, base: u64, buf_len: u32) -> (r: bool)
        requires
            old(self).wf(),
        ensures
            final(self).wf(),
            r == (base + old(self).size * buf_len <= u64::MAX),
            !r ==> *final(self) == *old(self),
            r ==> {
                &&& final(self).descriptors@ == Seq::new(
                    old(self).size as nat,
                    |i: int| Descriptor { addr: (base + i * buf_len) as u64, len: buf_len, flags: VRING_DESC_F_WRITE, next: 0 },
                )
                &&& final(self).avail_ring@ == Seq::new(old(self).size as nat, |i: int| i as u16)
                &&& final(self).avail_idx == old(self).size
                &&& final(self).next_desc == old(self).size
                &&& final(self).size == old(self).size
                &&& final(self).queue_index == old(self).queue_index
                &&& final(self).last_seen_used_idx == old(self).last_seen_used_idx
            },
    {
        let size = self.size;
        proof {
            assert(size * buf_len <= 0x8000 * 0xFFFF_FFFF) by (nonlinear_arith)
                requires size <= 0x8000, buf_len <= 0xFFFF_FFFF;
        }
        let span = (size as u64) * (buf_len as u64);
        if base > u64::MAX - span {
            return false;
        }
        let ghost want_d = Seq::new(
            size as nat,
            |i: int| Descriptor { addr: (base + i * buf_len) as u64, len: buf_len, flags: VRING_DESC_F_WRITE, next: 0 },
        );
        let ghost want_r = Seq::new(size as nat, |i: int| i as u16);
        let mut i: u16 = 0;
        while i < size
            invariant
                self.wf(),
                self.size == size,
                i <= size,
                base + size * buf_len <= u64::MAX,
                want_d == Seq::new(
                    size as nat,
                    |i: int| Descriptor { addr: (base + i * buf_len) as u64, len: buf_len, flags: VRING_DESC_F_WRITE, next: 0 },
                ),
                want_r == Seq::new(size as nat, |i: int| i as u16),
                self.queue_index == old(self).queue_index,
                self.last_seen_used_idx == old(self).last_seen_used_idx,
                forall|j: int| 0 <= j < i ==> #[trigger] self.descriptors@[j] == want_d[j],
                forall|j: int| 0 <= j < i ==> #[trigger] self.avail_ring@[j] == want_r[j],
            decreases size - i,
        {
            proof {
                assert(i * buf_len <= size * buf_len) by (nonlinear_arith)
                    requires i < size;
            }
            let addr = base + (i as u64) * (buf_len as u64);
            self.descriptors.set(i as usize, Descriptor { addr, len: buf_len, flags: VRING_DESC_F_WRITE, next: 0 });
            self.avail_ring.set(i as usize, i);
            i = i + 1;
        }
        assert(self.descriptors@ =~= want_d);
        assert(self.avail_ring@ =~= want_r);
        self.avail_idx = size;
        self.next_desc = size;
        true
    }

    /// Hands the chain at slot `id` back to the device: appends `id` to the
    /// available ring. The descriptors stay as they are.
    pub fn repost(&mut self, id: u16) -> (r: Submission)
        requires
            old(self).wf(),
            id < old(self).size,
        ensures
            final(self).wf(),
            ({
                let slot = old(self).avail_idx as int % old(self).size as int;
                &&& r == Submission {
                    head: id,
                    count: 1,
                    ring_slot: slot as u16,
                    avail_idx: ((old(self).avail_idx + 1) % 0x1_0000) as u16,
                }
                &&& final(self).avail_ring@ == old(self).avail_ring@.update(slot, id)
                &&& final(self).avail_idx == (old(self).avail_idx + 1) % 0x1_0000
                &&& final(self).descriptors == old(self).descriptors
                &&& final(self).next_desc == old(self).next_desc
                &&& final(self).size == old(self).size
                &&& final(self).queue_index == old(self).queue_index
                &&& final(self).last_seen_used_idx == old(self).last_seen_used_idx
            }),
    {
        let ring_slot = self.avail_idx % self.size;
        self.avail_ring.set(ring_slot as usize, id);
        self.avail_idx = self.avail_idx.wrapping_add(1);
        Submission { head: id, count: 1, ring_slot, avail_idx: self.avail_idx }
    }

    /// Takes a reading of the device's used index. Where it differs from the
    /// last one seen, the completion is consumed: the last seen index moves
    /// to the reading and the result is the used-ring slot of the first new
    /// entry. Otherwise nothing changes and the result is `None`.
    pub fn poll_used(&mut self, used_idx: u16) -> (r: Option<u16>)
        requires
            old(self).wf(),
        ensures
            *final(self) == polled(*old(self), used_idx),
            r == poll_result(*old(self), used_idx),
            final(self).wf(),
    {
        if used_idx == self.last_seen_used_idx {
            return None;
        }
        let slot = self.last_seen_used_idx % self.size;
        self.last_seen_used_idx = used_idx;
        Some(slot)
    }
}

/// What `submit` of `bufs` does to queue `q`, giving `q2` and result `r`.
pub open spec fn submit_post(q: Virtqueue, q2: Virtqueue, bufs: Seq<Buffer>, r: Option<Submission>) -> bool {
    &&& q2.size == q.size
    &&& q2.queue_index == q.queue_index
    &&& q2.last_seen_used_idx == q.last_seen_used_idx
    &&& (bufs.len() == 0 || bufs.len() > q.size) ==> r is None && q2 == q
    &&& (0 < bufs.len() <= q.size) ==> ({
        let size = q.size as int;
        let head = q.next_desc as int % size;
        let n = bufs.len() as int;
        let slot = q.avail_idx as int % size;
        &&& r == Some(Submission {
            head: head as u16,
            count: n as u16,
            ring_slot: slot as u16,
            avail_idx: ((q.avail_idx + 1) % 0x1_0000) as u16,
        })
        &&& q2.avail_idx == (q.avail_idx + 1) % 0x1_0000
        &&& q2.next_desc == (q.next_desc + n) % 0x1_0000
        &&& q2.avail_ring@ == q.avail_ring@.update(slot, head as u16)
        &&& forall|k: int| 0 <= k < n ==> #[trigger] q2.descriptors@[slot_of(head, k, size)]
            == chain_desc(bufs[k], k, n, head, size)
        &&& forall|j: int|
            0 <= j < size && !(exists|k: int| 0 <= k < n && j == #[trigger] slot_of(head, k, size))
                ==> #[trigger] q2.descriptors@[j] == q.descriptors@[j]
    })
}

/// What a reading `used_idx` of the used index reports: the used-ring slot
/// of the first new entry, where there is one.
pub open spec fn poll_result(q: Virtqueue, used_idx: u16) -> Option<u16> {
    if used_idx != q.last_seen_used_idx {
        Some((q.last_seen_used_idx % q.size) as u16)
    } else {
        None
    }
}

/// The queue after a reading `used_idx` of the used index.
pub open spec fn polled(q: Virtqueue, used_idx: u16) -> Virtqueue {
    if used_idx != q.last_seen_used_idx {
        Virtqueue { last_seen_used_idx: used_idx, ..q }
    } else {
        q
    }
}

proof fn lemma_distinct_slots(head: int, q: int, k: int, size: int)
    requires
        0 <= q < k < size,
        0 <= head,
    ensures
        (head + q) % size != (head + k) % size,
{
    assert((head + q) % size != (head + k) % size) by (nonlinear_arith)
        requires 0 <= q < k < size, 0 <= head;
}

/// A completion is consumed once: a reading of the used index that differs
/// from the last one seen reports a completion and makes the reading the last
/// one seen; the same reading again reports nothing and changes nothing.
pub proof fn lemma_completion_consumed_once(q: Virtqueue, used_idx: u16)
    requires
        used_idx != q.last_seen_used_idx,
    ensures
        poll_result(q, used_idx) is Some,
        polled(q, used_idx).last_seen_used_idx == used_idx,
        poll_result(polled(q, used_idx), used_idx) is None,
        polled(polled(q, used_idx), used_idx) == polled(q, used_idx),
{
}

} // verus!
