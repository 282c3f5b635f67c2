//! Bump allocator over the single MMIO window that the hypervisor authorizes
//! for PCI BARs.
use vstd::prelude::*;
use vstd::arithmetic::div_mod::{lemma_fundamental_div_mod, lemma_fundamental_div_mod_converse};

verus! {

/// Granularity of every address handed out, and of the cursor after a reservation.
pub const MIB: u64 = 0x10_0000;

/// The authorized window `[base, limit)` and the allocation cursor.
pub struct MmioWindow {
    pub base: u64,
    pub limit: u64,
    pub cursor: u64,
}

/// `x` rounded up to a multiple of `a`.
pub open spec fn align_to(x: int, a: int) -> int {
    ((x + (a - 1)) / a) * a
}

/// Rounds `x` up to the next multiple of 1 MiB.
pub open spec fn align_mib(x: int) -> int {
    align_to(x, MIB as int)
}

impl MmioWindow {
    /// `base <= cursor <= limit`.
    pub open spec fn wf(&self) -> bool {
        self.base <= self.cursor <= self.limit
    }
}

/// The window after `reserve_range(w, addr, size)`.
pub open spec fn reserved(w: MmioWindow, addr: u64, size: u64) -> MmioWindow {
    let end = addr + size;
    if end <= u64::MAX && end > w.cursor && end <= w.limit {
        let a = align_mib(end);
        MmioWindow { cursor: (if a <= w.limit { a } else { w.limit as int }) as u64, ..w }
    } else {
        w
    }
}

/// The address that `allocate(w, size)` hands out, if any.
pub open spec fn allocation(w: MmioWindow, size: u64) -> Option<u64> {
    let start = align_mib(w.cursor as int);
    if size > 0 && start + size <= w.limit {
        Some(start as u64)
    } else {
        None
    }
}

/// The window after `allocate(w, size)`.
pub open spec fn allocated(w: MmioWindow, size: u64) -> MmioWindow {
    match allocation(w, size) {
        Some(start) => MmioWindow { cursor: (start + size) as u64, ..w },
        None => w,
    }
}

/// Rounds `x` up to a multiple of `a`, or `None` where the result does not
/// fit in 64 bits.
pub fn align_up(x: u64, a: u64) -> (r: Option<u64>)
    requires
        a > 0,
    ensures
        align_to(x as int, a as int) <= u64::MAX ==> r == Some(align_to(x as int, a as int) as u64),
        align_to(x as int, a as int) > u64::MAX ==> r is None,
{
    let rem = x % a;
    let q = x / a;
    proof {
        lemma_fundamental_div_mod(x as int, a as int);
        assert(x == q * a + rem) by (nonlinear_arith)
            requires x == a * q + rem;
        if rem == 0 {
            lemma_fundamental_div_mod_converse((x + (a - 1)) as int, a as int, q as int, (a - 1) as int);
        } else {
            assert((q + 1) * a == q * a + a) by (nonlinear_arith);
            lemma_fundamental_div_mod_converse((x + (a - 1)) as int, a as int, q + 1, (rem - 1) as int);
        }
    }
    if rem == 0 {
        return Some(x);
    }
    let add = a - rem;
    if x > u64::MAX - add {
        None
    } else {
        Some(x + add)
    }
}

/// Creates the allocator over `[base, base + size)`, with the cursor at `base`;
/// `None` where `base + size` does not fit in 64 bits.
pub fn init_allocator(base: u64, size: u64) -> (r: Option<MmioWindow>)
    ensures
        match r {
            Some(w) => w.base == base && w.limit == base + size && w.cursor == base && w.wf(),
            None => base + size > u64::MAX,
        },
{
    match base.checked_add(size) {
        Some(limit) => Some(MmioWindow { base, limit, cursor: base }),
        None => None,
    }
}

/// Records that `[addr, addr + size)` is already occupied by a device that
/// the hypervisor mapped: where that range ends past the cursor and within
/// the window, the cursor moves to the next 1 MiB boundary after it (never
/// past the limit).
pub fn reserve_range(window: &mut MmioWindow, addr: u64, size: u64)
    requires
        old(window).wf(),
    ensures
        *final(window) == reserved(*old(window), addr, size),
        final(window).wf(),
{
    if addr > u64::MAX - size {
        return;
    }
    let end = addr + size;
    if end > window.cursor && end <= window.limit {
        match align_up(end, MIB) {
            Some(a) if a <= window.limit => {
                window.cursor = a;
            },
            _ => {
                window.cursor = window.limit;
            },
        }
    }
}

/// Hands out `size` bytes at the cursor rounded up to 1 MiB, where they fit
/// below the limit, and moves the cursor to their end. A request of zero
/// bytes, or one that does not fit, gets `None` and changes nothing.
pub fn allocate(window: &mut MmioWindow, size: u64) -> (r: Option<u64>)
    requires
        old(window).wf(),
    ensures
        r == allocation(*old(window), size),
        *final(window) == allocated(*old(window), size),
        final(window).wf(),
        r is Some ==> r->0 % MIB == 0 && old(window).cursor <= r->0,
{
    if size == 0 {
        return None;
    }
    match align_up(window.cursor, MIB) {
        None => None,
        Some(start) => {
            proof {
                lemma_align_mib_bounds(window.cursor as int);
            }
            if start > window.limit || size > window.limit - start {
                None
            } else {
                window.cursor = start + size;
                Some(start)
            }
        },
    }
}

/// The allocator's `(base, cursor, limit)`.
pub fn get_allocator_state(window: &MmioWindow) -> (r: (u64, u64, u64))
    ensures
        r == (window.base, window.cursor, window.limit),
{
    (window.base, window.cursor, window.limit)
}

/// One call on the allocator.
pub enum AllocRequest {
    Reserve { addr: u64, size: u64 },
    Allocate { size: u64 },
}

/// The ranges `[start, end)` that a run of `reqs` from `w` hands out, in order.
pub open spec fn grants(w: MmioWindow, reqs: Seq<AllocRequest>) -> Seq<(int, int)>
    decreases reqs.len(),
{
    if reqs.len() == 0 {
        Seq::empty()
    } else {
        let rest = reqs.drop_first();
        match reqs[0] {
            AllocRequest::Reserve { addr, size } => grants(reserved(w, addr, size), rest),
            AllocRequest::Allocate { size } => match allocation(w, size) {
                Some(start) => seq![(start as int, start + size)] + grants(allocated(w, size), rest),
                None => grants(w, rest),
            },
        }
    }
}

proof fn lemma_grants_above_cursor(w: MmioWindow, reqs: Seq<AllocRequest>)
    requires
        w.wf(),
    ensures
        forall|k: int|
            0 <= k < grants(w, reqs).len() ==> w.cursor <= #[trigger] grants(w, reqs)[k].0
                < grants(w, reqs)[k].1 <= w.limit,
        forall|i: int, j: int|
            0 <= i < j < grants(w, reqs).len() ==> #[trigger] grants(w, reqs)[i].1
                <= #[trigger] grants(w, reqs)[j].0,
    decreases reqs.len(),
{
    if reqs.len() > 0 {
        let rest = reqs.drop_first();
        match reqs[0] {
            AllocRequest::Reserve { addr, size } => {
                lemma_align_mib_bounds(addr + size);
                lemma_grants_above_cursor(reserved(w, addr, size), rest);
                assert(grants(w, reqs) == grants(reserved(w, addr, size), rest));
            },
            AllocRequest::Allocate { size } => {
                lemma_align_mib_bounds(w.cursor as int);
                lemma_grants_above_cursor(allocated(w, size), rest);
                match allocation(w, size) {
                    Some(start) => {
                        let g = grants(w, reqs);
                        let tail = grants(allocated(w, size), rest);
                        assert(g == seq![(start as int, start + size)] + tail);
                        assert forall|i: int, j: int| 0 <= i < j < g.len() implies #[trigger] g[i].1
                            <= #[trigger] g[j].0 by {
                            assert(g[j] == tail[j - 1]);
                            if i > 0 {
                                assert(g[i] == tail[i - 1]);
                            }
                        }
                        assert forall|k: int| 0 <= k < g.len() implies w.cursor <= #[trigger] g[k].0
                            < g[k].1 <= w.limit by {
                            if k > 0 {
                                assert(g[k] == tail[k - 1]);
                            }
                        }
                    },
                    None => {
                        assert(grants(w, reqs) == grants(w, rest));
                    },
                }
            },
        }
    }
}

proof fn lemma_align_mib_bounds(x: int)
    requires
        x >= 0,
    ensures
        x <= align_mib(x) < x + MIB,
        align_mib(x) % MIB as int == 0,
{
    assert(((x + (MIB - 1)) / MIB as int) * MIB > x + (MIB - 1) - MIB) by (nonlinear_arith);
    assert(((x + (MIB - 1)) / MIB as int) * MIB <= x + (MIB - 1)) by (nonlinear_arith);
    assert((((x + (MIB - 1)) / MIB as int) * MIB) % MIB as int == 0) by (nonlinear_arith);
}

/// Whatever mix of reservations and allocations is made on a well-formed
/// window, every range handed out lies within `[base, limit)`, and no two of
/// them overlap.
pub proof fn lemma_allocations_disjoint(w: MmioWindow, reqs: Seq<AllocRequest>)
    requires
        w.wf(),
    ensures
        forall|k: int|
            0 <= k < grants(w, reqs).len() ==> w.base <= #[trigger] grants(w, reqs)[k].0
                < grants(w, reqs)[k].1 <= w.limit,
        forall|i: int, j: int|
            0 <= i < grants(w, reqs).len() && 0 <= j < grants(w, reqs).len() && i != j
                ==> #[trigger] grants(w, reqs)[i].1 <= #[trigger] grants(w, reqs)[j].0
                || grants(w, reqs)[j].1 <= grants(w, reqs)[i].0,
{
    lemma_grants_above_cursor(w, reqs);
    let g = grants(w, reqs);
    assert forall|i: int, j: int|
        0 <= i < g.len() && 0 <= j < g.len() && i != j implies #[trigger] g[i].1 <= #[trigger] g[j].0
        || g[j].1 <= g[i].0 by {
        if i < j {
            assert(g[i].1 <= g[j].0);
        } else {
            assert(g[j].1 <= g[i].0);
        }
    }
}

/// Once a range that ends within the window has been reserved, nothing that
/// any later mix of reservations and allocations hands out reaches below its end.
pub proof fn lemma_reserved_range_kept(w: MmioWindow, addr: u64, size: u64, reqs: Seq<AllocRequest>)
    requires
        w.wf(),
        addr + size <= w.limit,
    ensures
        forall|k: int|
            0 <= k < grants(reserved(w, addr, size), reqs).len() ==> addr + size <= #[trigger] grants(
                reserved(w, addr, size),
                reqs,
            )[k].0,
{
    lemma_align_mib_bounds(addr + size);
    lemma_grants_above_cursor(reserved(w, addr, size), reqs);
}

/// Where an allocation succeeds it lies between the cursor and the limit,
/// and the cursor moves to its end.
pub proof fn lemma_allocation_bounds(w: MmioWindow, size: u64)
    requires
        w.wf(),
    ensures
        allocated(w, size).wf(),
        allocated(w, size).base == w.base && allocated(w, size).limit == w.limit,
        allocated(w, size).cursor >= w.cursor,
        allocation(w, size) is Some ==> {
            let a = allocation(w, size)->0;
            &&& w.cursor <= a && a + size == allocated(w, size).cursor && size > 0
        },
{
    lemma_align_mib_bounds(w.cursor as int);
}

/// A request for more than what lies between the cursor and the limit gets
/// `None` and leaves the window as it was.
pub proof fn lemma_exhaustion(w: MmioWindow, size: u64)
    requires
        w.wf(),
        size > w.limit - w.cursor,
    ensures
        allocation(w, size) is None,
        allocated(w, size) == w,
{
    lemma_align_mib_bounds(w.cursor as int);
}

} // verus!
