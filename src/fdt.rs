//! Flattened device-tree reader: finds the PCI host bridge's 32-bit
//! non-prefetchable MMIO window (its `ranges`) and its ECAM base (its `reg`).
//!
//! Every multi-byte field of a blob is big-endian. Reads that would leave the
//! blob make the search fail.
use vstd::prelude::*;

verus! {

/// Magic number at the start of every blob.
pub const FDT_MAGIC: u32 = 0xd00d_feed;

pub const FDT_BEGIN_NODE: u32 = 0x1;

pub const FDT_END_NODE: u32 = 0x2;

pub const FDT_PROP: u32 = 0x3;

pub const FDT_END: u32 = 0x9;

/// Longest node name that is read.
pub const NODE_NAME_MAX: u64 = 128;

/// Longest property name that is read.
pub const PROP_NAME_MAX: u64 = 64;

/// Bytes in one PCI `ranges` entry: seven cells.
pub const RANGES_ENTRY_LEN: u64 = 28;

/// The big-endian 32-bit word at `i`.
pub open spec fn be32(b: Seq<u8>, i: int) -> int {
    b[i] * 0x100_0000 + b[i + 1] * 0x1_0000 + b[i + 2] * 0x100 + b[i + 3]
}

/// The big-endian 64-bit word at `i` (two cells, high first).
pub open spec fn be64(b: Seq<u8>, i: int) -> int {
    be32(b, i) * 0x1_0000_0000 + be32(b, i + 4)
}

/// `x` rounded up to a multiple of four.
pub open spec fn align4(x: int) -> int {
    x + (4 - x % 4) % 4
}

/// Length of the zero-terminated string at `start`, counting from `k`, read
/// for at most `cap` bytes (`cap` where no zero comes first); `None` where
/// the blob ends first.
pub open spec fn cstr_len_from(b: Seq<u8>, start: int, k: nat, cap: nat) -> Option<nat>
    decreases cap - k,
{
    if k >= cap {
        Some(cap)
    } else if start + k < 0 || start + k >= b.len() {
        None
    } else if b[start + k] == 0 {
        Some(k)
    } else {
        cstr_len_from(b, start, k + 1, cap)
    }
}

pub open spec fn cstr_len(b: Seq<u8>, start: int, cap: nat) -> Option<nat> {
    cstr_len_from(b, start, 0, cap)
}

/// The zero-terminated string at `at` (read for at most 64 bytes) is `name`.
pub open spec fn names(b: Seq<u8>, at: int, name: Seq<u8>) -> bool {
    &&& cstr_len(b, at, PROP_NAME_MAX as nat) == Some(name.len())
    &&& forall|j: int| 0 <= j < name.len() ==> b[at + j] == name[j]
}

/// A node whose name starts at `at` and is `n` bytes long is a PCI node:
/// its name begins with `pci`.
pub open spec fn is_pci_name(b: Seq<u8>, at: int, n: int) -> bool {
    n >= 3 && b[at] == 0x70 && b[at + 1] == 0x63 && b[at + 2] == 0x69
}

pub open spec fn ranges_name() -> Seq<u8> {
    seq![0x72u8, 0x61, 0x6e, 0x67, 0x65, 0x73]
}

pub open spec fn reg_name() -> Seq<u8> {
    seq![0x72u8, 0x65, 0x67]
}

/// The entry at `e` of a PCI `ranges` property describes 32-bit
/// non-prefetchable memory: the space code of its first cell is `0b10`.
pub open spec fn is_mem32_entry(b: Seq<u8>, e: int) -> bool {
    b[e] % 4 == 2
}

/// The first of the `n` entries at `at`, from the `i`-th on, that describes
/// 32-bit memory with a non-zero parent address and size: that
/// `(address, size)`.
pub open spec fn first_window_from(b: Seq<u8>, at: int, i: int, n: int) -> Option<(u64, u64)>
    decreases n - i,
{
    if i >= n {
        None
    } else {
        let e = at + i * 28;
        let base = be64(b, e + 12);
        let size = be64(b, e + 20);
        if is_mem32_entry(b, e) && base != 0 && size != 0 {
            Some((base as u64, size as u64))
        } else {
            first_window_from(b, at, i + 1, n)
        }
    }
}

/// Number of whole `ranges` entries of a property of `len` bytes at `at`
/// that lie within the blob.
pub open spec fn entries_in_blob(b: Seq<u8>, at: int, len: int) -> int {
    let room = if at <= b.len() { (b.len() - at) / 28 } else { 0 };
    if len / 28 <= room { len / 28 } else { room }
}

/// Header fields of a blob: `(offset of the structure block, offset of the
/// strings block, length of the structure block)`; `None` for a blob too
/// short for a header, with the wrong magic, or whose structure block
/// starts past its declared size.
pub open spec fn fdt_header(b: Seq<u8>) -> Option<(int, int, int)> {
    if b.len() < 16 || be32(b, 0) != FDT_MAGIC || be32(b, 4) < be32(b, 8) {
        None
    } else {
        Some((be32(b, 8), be32(b, 12), be32(b, 4) - be32(b, 8)))
    }
}

/// The structure-block walk that looks for the MMIO window, resumed at
/// offset `pos` of the block (which starts at `st`; the strings block at
/// `strs`; the block is `max` bytes long). `in_pci` tells whether the walk is
/// inside a PCI node, entered at nesting depth `pci_depth`; `depth` is the
/// current nesting depth.
pub open spec fn window_walk(
    b: Seq<u8>,
    st: int,
    strs: int,
    max: int,
    pos: int,
    in_pci: bool,
    depth: int,
    pci_depth: int,
) -> Option<(u64, u64)>
    decreases if pos < max { max - pos } else { 0 },
{
    if pos >= max || pos < 0 || st + pos + 4 > b.len() {
        None
    } else {
        let tok = be32(b, st + pos);
        if tok == FDT_BEGIN_NODE {
            match cstr_len(b, st + pos + 4, NODE_NAME_MAX as nat) {
                None => None,
                Some(n) => {
                    let next = pos + 4 + align4(n as int + 1);
                    if is_pci_name(b, st + pos + 4, n as int) {
                        window_walk(b, st, strs, max, next, true, depth + 1, depth + 1)
                    } else {
                        window_walk(b, st, strs, max, next, in_pci, depth + 1, pci_depth)
                    }
                },
            }
        } else if tok == FDT_END_NODE {
            let leaves = in_pci && depth == pci_depth;
            let d = if depth > 0 { depth - 1 } else { 0 };
            window_walk(b, st, strs, max, pos + 4, in_pci && !leaves, d, pci_depth)
        } else if tok == FDT_PROP {
            if st + pos + 12 > b.len() {
                None
            } else {
                let len = be32(b, st + pos + 4);
                let body = st + pos + 12;
                let found = if in_pci && depth == pci_depth && len >= 28 && names(b, strs + be32(b, st + pos + 8), ranges_name()) {
                    first_window_from(b, body, 0, entries_in_blob(b, body, len))
                } else {
                    None
                };
                match found {
                    Some(w) => Some(w),
                    None => window_walk(b, st, strs, max, pos + 12 + align4(len), in_pci, depth, pci_depth),
                }
            }
        } else if tok == FDT_END {
            None
        } else {
            window_walk(b, st, strs, max, pos + 4, in_pci, depth, pci_depth)
        }
    }
}

/// The 32-bit non-prefetchable MMIO window that a blob declares for PCI.
pub open spec fn pci_mmio_window(b: Seq<u8>) -> Option<(u64, u64)> {
    match fdt_header(b) {
        None => None,
        Some((st, strs, max)) => window_walk(b, st, strs, max, 0, false, 0, 0),
    }
}

/// The structure-block walk that looks for the ECAM base, resumed at `pos`,
/// with the same nesting state as `window_walk`: only a `reg` property of the
/// PCI node itself counts, not one of its children.
pub open spec fn ecam_walk(
    b: Seq<u8>,
    st: int,
    strs: int,
    max: int,
    pos: int,
    in_pci: bool,
    depth: int,
    pci_depth: int,
) -> Option<u64>
    decreases if pos < max { max - pos } else { 0 },
{
    if pos >= max || pos < 0 || st + pos + 4 > b.len() {
        None
    } else {
        let tok = be32(b, st + pos);
        if tok == FDT_BEGIN_NODE {
            match cstr_len(b, st + pos + 4, NODE_NAME_MAX as nat) {
                None => None,
                Some(n) => {
                    let next = pos + 4 + align4(n as int + 1);
                    if is_pci_name(b, st + pos + 4, n as int) {
                        ecam_walk(b, st, strs, max, next, true, depth + 1, depth + 1)
                    } else {
                        ecam_walk(b, st, strs, max, next, in_pci, depth + 1, pci_depth)
                    }
                },
            }
        } else if tok == FDT_END_NODE {
            let leaves = in_pci && depth == pci_depth;
            let d = if depth > 0 { depth - 1 } else { 0 };
            ecam_walk(b, st, strs, max, pos + 4, in_pci && !leaves, d, pci_depth)
        } else if tok == FDT_PROP {
            if st + pos + 12 > b.len() {
                None
            } else {
                let len = be32(b, st + pos + 4);
                let body = st + pos + 12;
                if in_pci && depth == pci_depth && len >= 16 && body + 8 <= b.len() && names(
                    b,
                    strs + be32(b, st + pos + 8),
                    reg_name(),
                ) && be64(b, body) != 0 {
                    Some(be64(b, body) as u64)
                } else {
                    ecam_walk(b, st, strs, max, pos + 12 + align4(len), in_pci, depth, pci_depth)
                }
            }
        } else if tok == FDT_END {
            None
        } else {
            ecam_walk(b, st, strs, max, pos + 4, in_pci, depth, pci_depth)
        }
    }
}

/// The ECAM base that a blob declares: the first two cells of the PCI node's `reg`.
pub open spec fn pci_ecam_base(b: Seq<u8>) -> Option<u64> {
    match fdt_header(b) {
        None => None,
        Some((st, strs, max)) => ecam_walk(b, st, strs, max, 0, false, 0, 0),
    }
}

/// A blob too short for a header or without the magic number yields neither
/// a window nor an ECAM base.
pub proof fn lemma_bad_magic(b: Seq<u8>)
    requires
        b.len() < 16 || be32(b, 0) != FDT_MAGIC,
    ensures
        pci_mmio_window(b) is None,
        pci_ecam_base(b) is None,
{
}

/// The big-endian word at `at`, where four bytes lie there.
fn read_be32(b: &[u8], at: u64) -> (r: Option<u32>)
    ensures
        match r {
            Some(v) => at + 4 <= b@.len() && v == be32(b@, at as int),
            None => at + 4 > b@.len(),
        },
{
    let len = b.len() as u64;
    if at > len || len - at < 4 {
        return None;
    }
    let i = at as usize;
    Some((b[i] as u32) * 0x100_0000 + (b[i + 1] as u32) * 0x1_0000 + (b[i + 2] as u32) * 0x100 + (b[i + 3] as u32))
}

/// The big-endian 64-bit word at `at`, where eight bytes lie there.
fn read_be64(b: &[u8], at: u64) -> (r: Option<u64>)
    requires
        at <= u64::MAX - 8,
    ensures
        match r {
            Some(v) => at + 8 <= b@.len() && v == be64(b@, at as int),
            None => at + 8 > b@.len(),
        },
{
    match read_be32(b, at) {
        None => None,
        Some(hi) => match read_be32(b, at + 4) {
            None => None,
            Some(lo) => Some((hi as u64) * 0x1_0000_0000 + lo as u64),
        },
    }
}

/// Length of the zero-terminated string at `start`, read for at most `cap` bytes.
fn read_cstr_len(b: &[u8], start: u64, cap: u64) -> (r: Option<u64>)
    requires
        start + cap <= u64::MAX,
    ensures
        match r {
            Some(n) => cstr_len(b@, start as int, cap as nat) == Some(n as nat) && n <= cap
                && (n > 0 ==> start + n <= b@.len()),
            None => cstr_len(b@, start as int, cap as nat) is None,
        },
{
    let len = b.len() as u64;
    let mut k: u64 = 0;
    while k < cap
        invariant
            k <= cap,
            start + cap <= u64::MAX,
            len == b@.len(),
            k > 0 ==> start + k <= len,
            cstr_len_from(b@, start as int, k as nat, cap as nat) == cstr_len(b@, start as int, cap as nat),
        decreases cap - k,
    {
        if start + k >= len {
            return None;
        }
        if b[(start + k) as usize] == 0 {
            return Some(k);
        }
        k = k + 1;
    }
    Some(cap)
}

/// Whether the zero-terminated string at `at` (read for at most 64 bytes) is `name`.
fn read_names(b: &[u8], at: u64, name: &[u8]) -> (r: bool)
    requires
        at + PROP_NAME_MAX <= u64::MAX,
    ensures
        r == names(b@, at as int, name@),
{
    let blen = b.len();
    match read_cstr_len(b, at, PROP_NAME_MAX) {
        None => false,
        Some(n) => {
            if n != name.len() as u64 {
                return false;
            }
            let mut j: usize = 0;
            while j < name.len()
                invariant
                    n == name@.len(),
                    blen == b@.len(),
                    n > 0 ==> at + n <= blen,
                    forall|q: int| 0 <= q < j ==> b@[at + q] == name@[q],
                decreases name.len() - j,
            {
                if b[(at + j as u64) as usize] != name[j] {
                    return false;
                }
                j = j + 1;
            }
            true
        },
    }
}

proof fn lemma_cstr_prefix(b: Seq<u8>, start: int, k: nat, cap: nat, n: nat, j: int)
    requires
        cstr_len_from(b, start, k, cap) == Some(n),
        k <= j < n,
    ensures
        0 <= start + j < b.len(),
    decreases cap - k,
{
    if k < cap && start + k >= 0 && start + k < b.len() && b[start + k] != 0 && k < j {
        lemma_cstr_prefix(b, start, k + 1, cap, n, j);
    }
}

/// Whether the node name of `n` bytes at `at` begins with `pci`.
fn read_is_pci_name(b: &[u8], at: u64, n: u64) -> (r: bool)
    requires
        n >= 3 ==> at + 3 <= b@.len(),
    ensures
        r == is_pci_name(b@, at as int, n as int),
{
    n >= 3 && b[at as usize] == 0x70 && b[(at + 1) as usize] == 0x63 && b[(at + 2) as usize] == 0x69
}

/// The `(address, size)` of the first 32-bit non-prefetchable entry of a
/// `ranges` property of `len` bytes at `at`.
fn scan_ranges(b: &[u8], at: u64, len: u64) -> (r: Option<(u64, u64)>)
    requires
        at <= u32::MAX * 3,
        len <= u32::MAX,
    ensures
        r == first_window_from(b@, at as int, 0, entries_in_blob(b@, at as int, len as int)),
{
    let blen = b.len() as u64;
    let room: u64 = if at <= blen { (blen - at) / RANGES_ENTRY_LEN } else { 0 };
    let n: u64 = if len / RANGES_ENTRY_LEN <= room { len / RANGES_ENTRY_LEN } else { room };
    assert(n == entries_in_blob(b@, at as int, len as int));
    let mut i: u64 = 0;
    while i < n
        invariant
            i <= n,
            n <= room,
            blen == b@.len(),
            room == (if at <= blen { (blen - at) / 28 } else { 0 }),
            at <= u32::MAX * 3,
            n == entries_in_blob(b@, at as int, len as int),
            first_window_from(b@, at as int, i as int, n as int) == first_window_from(b@, at as int, 0, n as int),
        decreases n - i,
    {
        proof {
            assert(at + (i + 1) * 28 <= blen) by (nonlinear_arith)
                requires i < n, n <= room, room == (blen - at) / 28, at <= blen;
        }
        let e = at + i * RANGES_ENTRY_LEN;
        let base = read_be64(b, e + 12).unwrap();
        let size = read_be64(b, e + 20).unwrap();
        if b[e as usize] % 4 == 2 && base != 0 && size != 0 {
            return Some((base, size));
        }
        i = i + 1;
    }
    None
}

/// Reads the header: `(structure offset, strings offset, structure length)`.
fn read_header(b: &[u8]) -> (r: Option<(u64, u64, u64)>)
    ensures
        match r {
            Some((st, strs, max)) => fdt_header(b@) == Some((st as int, strs as int, max as int))
                && st <= u32::MAX && strs <= u32::MAX && max <= u32::MAX,
            None => fdt_header(b@) is None,
        },
{
    if b.len() < 16 {
        return None;
    }
    let magic = read_be32(b, 0).unwrap();
    let total = read_be32(b, 4).unwrap();
    let st = read_be32(b, 8).unwrap();
    let strs = read_be32(b, 12).unwrap();
    if magic != FDT_MAGIC || total < st {
        return None;
    }
    Some((st as u64, strs as u64, (total - st) as u64))
}

/// Finds the PCI host bridge's 32-bit non-prefetchable MMIO window in a
/// device-tree blob: the parent address and size of the first such entry of
/// the `ranges` property of a node whose name begins with `pci` (its own
/// property, not one of a child node). `None` for a
/// blob with a bad header, one where no such entry comes before the end of the
/// structure block, or one whose walk leaves the blob.
pub fn find_pci_mmio_window(blob: &[u8]) -> (r: Option<(u64, u64)>)
    ensures
        r == pci_mmio_window(blob@),
{
    let (st, strs, max) = match read_header(blob) {
        None => return None,
        Some(h) => h,
    };
    let ghost b = blob@;
    let mut pos: u64 = 0;
    let mut in_pci = false;
    let mut depth: u64 = 0;
    let mut pci_depth: u64 = 0;
    while pos < max
        invariant
            st <= u32::MAX,
            strs <= u32::MAX,
            max <= u32::MAX,
            b == blob@,
            depth <= pos,
            pci_depth <= pos,
            fdt_header(b) == Some((st as int, strs as int, max as int)),
            window_walk(b, st as int, strs as int, max as int, pos as int, in_pci, depth as int, pci_depth as int)
                == pci_mmio_window(b),
        decreases if pos < max { max - pos } else { 0 },
    {
        let tok = match read_be32(blob, st + pos) {
            None => return None,
            Some(t) => t,
        };
        if tok == FDT_BEGIN_NODE {
            let name_at = st + pos + 4;
            let n = match read_cstr_len(blob, name_at, NODE_NAME_MAX) {
                None => return None,
                Some(n) => n,
            };
            proof {
                if n >= 3 {
                    lemma_cstr_prefix(b, name_at as int, 0, NODE_NAME_MAX as nat, n as nat, 2);
                }
            }
            let next = pos + 4 + (n + 1) + (4 - (n + 1) % 4) % 4;
            depth = depth + 1;
            if read_is_pci_name(blob, name_at, n) {
                in_pci = true;
                pci_depth = depth;
            }
            pos = next;
        } else if tok == FDT_END_NODE {
            if in_pci && depth == pci_depth {
                in_pci = false;
            }
            depth = if depth > 0 { depth - 1 } else { 0 };
            pos = pos + 4;
        } else if tok == FDT_PROP {
            let len = match read_be32(blob, st + pos + 4) {
                None => return None,
                Some(v) => v as u64,
            };
            let nameoff = match read_be32(blob, st + pos + 8) {
                None => return None,
                Some(v) => v as u64,
            };
            let body = st + pos + 12;
            if in_pci && depth == pci_depth && len >= RANGES_ENTRY_LEN {
                let ranges: [u8; 6] = [0x72, 0x61, 0x6e, 0x67, 0x65, 0x73];
                assert(ranges@ == ranges_name());
                if read_names(blob, strs + nameoff, ranges.as_slice()) {
                    let found = scan_ranges(blob, body, len);
                    if found.is_some() {
                        return found;
                    }
                }
            }
            pos = body - st + len + (4 - len % 4) % 4;
        } else if tok == FDT_END {
            return None;
        } else {
            pos = pos + 4;
        }
    }
    None
}

/// Finds the ECAM base in a device-tree blob: the first two cells of the
/// `reg` property of a node whose name begins with `pci` (its own property,
/// not one of a child node), where they are not zero. `None` for a blob with a bad header or where no such property comes
/// before the end of the structure block.
pub fn find_ecam_base(blob: &[u8]) -> (r: Option<u64>)
    ensures
        r == pci_ecam_base(blob@),
{
    let (st, strs, max) = match read_header(blob) {
        None => return None,
        Some(h) => h,
    };
    let ghost b = blob@;
    let mut pos: u64 = 0;
    let mut in_pci = false;
    let mut depth: u64 = 0;
    let mut pci_depth: u64 = 0;
    while pos < max
        invariant
            st <= u32::MAX,
            strs <= u32::MAX,
            max <= u32::MAX,
            b == blob@,
            depth <= pos,
            pci_depth <= pos,
            fdt_header(b) == Some((st as int, strs as int, max as int)),
            ecam_walk(b, st as int, strs as int, max as int, pos as int, in_pci, depth as int, pci_depth as int)
                == pci_ecam_base(b),
        decreases if pos < max { max - pos } else { 0 },
    {
        let tok = match read_be32(blob, st + pos) {
            None => return None,
            Some(t) => t,
        };
        if tok == FDT_BEGIN_NODE {
            let name_at = st + pos + 4;
            let n = match read_cstr_len(blob, name_at, NODE_NAME_MAX) {
                None => return None,
                Some(n) => n,
            };
            proof {
                if n >= 3 {
                    lemma_cstr_prefix(b, name_at as int, 0, NODE_NAME_MAX as nat, n as nat, 2);
                }
            }
            depth = depth + 1;
            if read_is_pci_name(blob, name_at, n) {
                in_pci = true;
                pci_depth = depth;
            }
            pos = pos + 4 + (n + 1) + (4 - (n + 1) % 4) % 4;
        } else if tok == FDT_END_NODE {
            if in_pci && depth == pci_depth {
                in_pci = false;
            }
            depth = if depth > 0 { depth - 1 } else { 0 };
            pos = pos + 4;
        } else if tok == FDT_PROP {
            let len = match read_be32(blob, st + pos + 4) {
                None => return None,
                Some(v) => v as u64,
            };
            let nameoff = match read_be32(blob, st + pos + 8) {
                None => return None,
                Some(v) => v as u64,
            };
            let body = st + pos + 12;
            if in_pci && depth == pci_depth && len >= 16 {
                if let Some(ecam) = read_be64(blob, body) {
                    let reg: [u8; 3] = [0x72, 0x65, 0x67];
                    assert(reg@ == reg_name());
                    if read_names(blob, strs + nameoff, reg.as_slice()) && ecam != 0 {
                        return Some(ecam);
                    }
                }
            }
            pos = body - st + len + (4 - len % 4) % 4;
        } else if tok == FDT_END {
            return None;
        } else {
            pos = pos + 4;
        }
    }
    None
}

} // verus!
