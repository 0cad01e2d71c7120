//! The boot-time physical memory map: adding free regions and cutting
//! reserved ones out of it, at page granularity.
use vstd::prelude::*;

verus! {

/// Number of entries in the memory map.
pub const MAXMEMMAP: usize = 128;

/// One contiguous region of free physical memory, `[base, base + length)`.
/// An entry of length zero is an empty slot.
#[derive(Debug, Clone, Copy, Default)]
pub struct MemMapEntry {
    /// Physical base address (page-aligned).
    pub base: u64,
    /// Length in bytes (page-aligned).
    pub length: u64,
}

impl MemMapEntry {
    /// The empty entry.
    pub fn zero() -> (r: MemMapEntry)
        ensures
            r.base == 0,
            r.length == 0,
    {
        MemMapEntry { base: 0, length: 0 }
    }

    /// Whether this slot is free for a new region.
    pub fn is_empty(&self) -> (r: bool)
        ensures
            r == (self.length == 0),
    {
        self.length == 0
    }
}

/// Why a region could not be added.
#[derive(Debug, Clone, Copy, PartialEq, Eq, Structural)]
pub enum MemMapError {
    /// After page alignment the region holds no whole page.
    ZeroLength,
    /// Every slot of the map is in use.
    NoSlots,
}

/// `x` rounded down to a page boundary.
pub open spec fn page_floor(x: int) -> int {
    x - x % 4096
}

/// `x` is a multiple of the page size.
pub open spec fn page_aligned(x: int) -> bool {
    x % 4096 == 0
}

/// The entry `e` holds address `a`.
pub open spec fn piece_cover(e: MemMapEntry, a: int) -> bool {
    e.length > 0 && e.base <= a < e.base + e.length
}

/// Some entry of `s` holds address `a`.
pub open spec fn covers(s: Seq<MemMapEntry>, a: int) -> bool {
    exists|j: int| 0 <= j < s.len() && #[trigger] piece_cover(s[j], a)
}

/// The entry ends at least a page below the top of the address space, as
/// every entry that `add_memmap` writes does.
pub open spec fn entry_in_range(e: MemMapEntry) -> bool {
    e.length == 0 || e.base + e.length <= u64::MAX - 4095
}

/// The index of the first empty slot of `s` at or after `i`, or `s.len()`
/// when there is none.
pub open spec fn first_empty(s: Seq<MemMapEntry>, i: int) -> int
    decreases s.len() - i,
{
    if i < 0 || i >= s.len() {
        s.len() as int
    } else if s[i].length == 0 {
        i
    } else {
        first_empty(s, i + 1)
    }
}

/// The map and the result after adding `[addr, addr + len)`: the region
/// shrunk to whole pages goes into the first empty slot.
pub open spec fn add_spec(s: Seq<MemMapEntry>, addr: u64, len: u64) -> (Seq<MemMapEntry>, Result<usize, MemMapError>) {
    let b = page_floor(addr + 4095);
    let e = page_floor(addr + len);
    if e <= b {
        (s, Err(MemMapError::ZeroLength))
    } else {
        let k = first_empty(s, 0);
        if k < s.len() {
            (s.update(k, MemMapEntry { base: b as u64, length: (e - b) as u64 }), Ok(k as usize))
        } else {
            (s, Err(MemMapError::NoSlots))
        }
    }
}

proof fn lemma_first_empty(s: Seq<MemMapEntry>, k: int)
    requires
        0 <= k <= s.len(),
    ensures
        k <= first_empty(s, k) <= s.len(),
        first_empty(s, k) < s.len() ==> s[first_empty(s, k)].length == 0,
        forall|j: int| k <= j < first_empty(s, k) ==> #[trigger] s[j].length != 0,
    decreases s.len() - k,
{
    if k < s.len() && s[k].length != 0 {
        lemma_first_empty(s, k + 1);
    }
}

proof fn lemma_page_mask(x: u64)
    ensures
        x & !4095u64 == x - x % 4096,
        (x & !4095u64) % 4096 == 0,
{
    assert(x & !4095u64 == x - x % 4096) by (bit_vector);
    assert((x & !4095u64) % 4096 == 0) by (bit_vector);
}

/// Add the physical region `[addr, addr + len)` to the map: its start is
/// rounded up and its end rounded down to page boundaries, and the
/// resulting region goes into the first empty slot, whose index is
/// returned. A region with no whole page is refused with `ZeroLength`, a
/// full map with `NoSlots`; the map is then unchanged.
pub fn add_memmap(mmap: &mut [MemMapEntry; MAXMEMMAP], addr: u64, len: u64) -> (r: Result<usize, MemMapError>)
    requires
        addr + 4095 <= u64::MAX,
        addr + len <= u64::MAX,
    ensures
        (final(mmap)@, r) == add_spec(old(mmap)@, addr, len),
        r is Ok ==> entry_in_range(final(mmap)@[r->Ok_0 as int]),
        r is Ok ==> page_aligned(final(mmap)@[r->Ok_0 as int].base as int)
            && page_aligned(final(mmap)@[r->Ok_0 as int].length as int),
{
    let page_size = 4096u64;
    let aligned_base = (addr + (page_size - 1)) & !4095u64;
    let aligned_end = (addr + len) & !4095u64;
    proof {
        lemma_page_mask((addr + 4095) as u64);
        lemma_page_mask((addr + len) as u64);
    }
    let aligned_len = if aligned_end > aligned_base { aligned_end - aligned_base } else { 0 };
    if aligned_len == 0 {
        return Err(MemMapError::ZeroLength);
    }
    let ghost s = mmap@;
    proof {
        let t = (addr + len) as u64;
        assert(t - t % 4096 <= u64::MAX - 4095);
    }
    let mut i: usize = 0;
    while i < MAXMEMMAP
        invariant
            0 <= i <= MAXMEMMAP,
            mmap@ == s,
            s == old(mmap)@,
            s.len() == MAXMEMMAP,
            forall|j: int| 0 <= j < i ==> #[trigger] s[j].length != 0,
            aligned_base == page_floor(addr + 4095),
            aligned_end == page_floor(addr + len),
            aligned_end > aligned_base,
            aligned_len == aligned_end - aligned_base,
            aligned_end <= u64::MAX - 4095,
            page_aligned(aligned_base as int),
            page_aligned(aligned_end as int),
        decreases MAXMEMMAP - i,
    {
        if mmap[i].is_empty() {
            proof {
                lemma_first_empty(s, 0);
                let k = first_empty(s, 0);
                if k < i {
                    assert(s[k].length != 0);
                }
                if k > i {
                    assert(s[i as int].length != 0);
                }
            }
            mmap[i] = MemMapEntry { base: aligned_base, length: aligned_len };
            proof {
                assert(first_empty(s, 0) == i);
                assert(mmap@ =~= s.update(i as int, MemMapEntry { base: aligned_base, length: aligned_len }));
                let sp = add_spec(s, addr, len);
                assert(page_floor(addr + len) > page_floor(addr + 4095));
                assert(sp.1 == Ok::<usize, MemMapError>(i));
                assert(sp.0 == mmap@);
            }
            return Ok(i);
        }
        i = i + 1;
    }
    proof {
        lemma_first_empty(s, 0);
        let k = first_empty(s, 0);
        if k < MAXMEMMAP {
            assert(s[k].length != 0);
        }
    }
    Err(MemMapError::NoSlots)
}

/// Record the free regions `regions` (base and length) reported at boot:
/// region `i` goes into slot `i`, for the first `MAXMEMMAP` regions; a
/// region of length zero leaves its slot as it was, and so do the slots
/// past the last region.
pub fn fill_memmap(mmap: &mut [MemMapEntry; MAXMEMMAP], regions: &[(u64, u64)])
    ensures
        forall|i: int| 0 <= i < MAXMEMMAP ==> #[trigger] final(mmap)@[i] == (if i < regions@.len() && regions@[i].1 > 0 {
            MemMapEntry { base: regions@[i].0, length: regions@[i].1 }
        } else {
            old(mmap)@[i]
        }),
{
    let n = regions.len();
    let mut i: usize = 0;
    while i < n && i < MAXMEMMAP
        invariant
            0 <= i <= n,
            i <= MAXMEMMAP,
            n == regions@.len(),
            mmap@.len() == MAXMEMMAP,
            forall|j: int| 0 <= j < MAXMEMMAP ==> #[trigger] mmap@[j] == (if j < i && regions@[j].1 > 0 {
                MemMapEntry { base: regions@[j].0, length: regions@[j].1 }
            } else {
                old(mmap)@[j]
            }),
        decreases n - i,
    {
        let (base, len) = regions[i];
        if len > 0 {
            mmap[i] = MemMapEntry { base, length: len };
        }
        i = i + 1;
    }
}

/// The page-aligned cut range `(cut_start, cut_end)` for `[start, start +
/// len)`: the start is rounded down, the end rounded up; an end that would
/// pass the top of the address space becomes `u64::MAX`.
pub open spec fn cut_bounds(start: u64, len: u64) -> (u64, u64) {
    let raw: int = if start + len > u64::MAX { u64::MAX as int } else { start + len };
    let cut_end: int = if raw > u64::MAX - 4095 { u64::MAX as int } else { page_floor(raw + 4095) };
    (page_floor(start as int) as u64, cut_end as u64)
}

/// The end of entry `e`, saturated at `u64::MAX`.
pub open spec fn entry_end(e: MemMapEntry) -> int {
    if e.base + e.length > u64::MAX { u64::MAX as int } else { e.base + e.length }
}

/// Cut `[cs, ce)` out of slot `i` of `s`: when they overlap the slot is
/// cleared and the parts before and after the cut are added back. The
/// second component is the error of adding the part after the cut.
pub open spec fn cut_step(s: Seq<MemMapEntry>, i: int, cs: u64, ce: u64) -> (Seq<MemMapEntry>, Option<MemMapError>) {
    let memaddr = s[i].base;
    let memend = entry_end(s[i]);
    let substart: int = if cs > memaddr { cs as int } else { memaddr as int };
    let subend: int = if ce < memend { ce as int } else { memend };
    if substart >= subend {
        (s, None)
    } else {
        let s1 = s.update(i, MemMapEntry { base: 0, length: 0 });
        let s2 = if substart > memaddr { add_spec(s1, memaddr, (substart - memaddr) as u64).0 } else { s1 };
        if subend < memend {
            let r = add_spec(s2, subend as u64, (memend - subend) as u64);
            (r.0, match r.1 { Ok(_) => None, Err(e) => Some(e) })
        } else {
            (s2, None)
        }
    }
}

/// The map after cutting `[cs, ce)` out of the first `n` slots that were
/// in use in `orig`, and the error that stopped the cut, if one did.
pub open spec fn cut_upto(orig: Seq<MemMapEntry>, cs: u64, ce: u64, n: int) -> (Seq<MemMapEntry>, Option<MemMapError>)
    decreases n,
{
    if n <= 0 {
        (orig, None)
    } else {
        let prev = cut_upto(orig, cs, ce, n - 1);
        if prev.1.is_some() || orig[n - 1].length == 0 {
            prev
        } else {
            cut_step(prev.0, n - 1, cs, ce)
        }
    }
}

/// The map and the result after `cut_memmap(orig, start, len)`.
pub open spec fn cut_spec(orig: Seq<MemMapEntry>, start: u64, len: u64) -> (Seq<MemMapEntry>, Result<(), MemMapError>) {
    let (cs, ce) = cut_bounds(start, len);
    if len == 0 || cs >= ce {
        (orig, Ok(()))
    } else {
        let r = cut_upto(orig, cs, ce, MAXMEMMAP as int);
        (r.0, match r.1 { None => Ok(()), Some(e) => Err(e) })
    }
}

proof fn lemma_cut_error_sticks(orig: Seq<MemMapEntry>, cs: u64, ce: u64, n: int, m: int)
    requires
        0 <= n <= m,
        cut_upto(orig, cs, ce, n).1.is_some(),
    ensures
        cut_upto(orig, cs, ce, m) == cut_upto(orig, cs, ce, n),
    decreases m - n,
{
    if n < m {
        lemma_cut_error_sticks(orig, cs, ce, n, m - 1);
    }
}

proof fn lemma_add_in_range(s: Seq<MemMapEntry>, addr: u64, len: u64)
    requires
        forall|j: int| 0 <= j < s.len() ==> entry_in_range(#[trigger] s[j]),
        addr + len <= u64::MAX,
    ensures
        add_spec(s, addr, len).0.len() == s.len(),
        forall|j: int| 0 <= j < s.len() ==> entry_in_range(#[trigger] add_spec(s, addr, len).0[j]),
{
    lemma_first_empty(s, 0);
    let t = (addr + len) as int;
    assert(page_floor(t) <= u64::MAX - 4095);
}

/// Cut `[cut_start, cut_end)` out of slot `i`, as `cut_step` says.
fn cut_entry(mmap: &mut [MemMapEntry; MAXMEMMAP], i: usize, cut_start: u64, cut_end: u64) -> (r: Option<MemMapError>)
    requires
        i < MAXMEMMAP,
        forall|j: int| 0 <= j < MAXMEMMAP ==> entry_in_range(#[trigger] old(mmap)@[j]),
    ensures
        (final(mmap)@, r) == cut_step(old(mmap)@, i as int, cut_start, cut_end),
        forall|j: int| 0 <= j < MAXMEMMAP ==> entry_in_range(#[trigger] final(mmap)@[j]),
{
    let ghost s = mmap@;
    let memaddr = mmap[i].base;
    let memend = memaddr.saturating_add(mmap[i].length);
    let substart = if cut_start > memaddr { cut_start } else { memaddr };
    let subend = if cut_end < memend { cut_end } else { memend };
    if substart >= subend {
        return None;
    }
    assert(entry_in_range(s[i as int]));
    mmap[i] = MemMapEntry { base: 0, length: 0 };
    let ghost s1 = mmap@;
    assert(s1 =~= s.update(i as int, MemMapEntry { base: 0, length: 0 }));
    if substart > memaddr {
        proof {
            lemma_add_in_range(s1, memaddr, (substart - memaddr) as u64);
        }
        let _ = add_memmap(mmap, memaddr, substart - memaddr);
    }
    if subend < memend {
        proof {
            lemma_add_in_range(mmap@, subend, (memend - subend) as u64);
        }
        match add_memmap(mmap, subend, memend - subend) {
            Ok(_) => {},
            Err(e) => {
                return Some(e);
            },
        }
    }
    None
}

/// Cut the physical region `[start, start + len)`, widened to whole pages,
/// out of every entry of the map that it overlaps: such an entry is
/// cleared, and its parts before and after the cut are added back with
/// `add_memmap`. Slots are visited in order, each entry in use when the
/// call began once. The call stops with `NoSlots` when the part after a
/// cut finds no free slot.
pub fn cut_memmap(mmap: &mut [MemMapEntry; MAXMEMMAP], start: u64, len: u64) -> (r: Result<(), MemMapError>)
    requires
        forall|j: int| 0 <= j < MAXMEMMAP ==> entry_in_range(#[trigger] old(mmap)@[j]),
    ensures
        (final(mmap)@, r) == cut_spec(old(mmap)@, start, len),
        forall|j: int| 0 <= j < MAXMEMMAP ==> entry_in_range(#[trigger] final(mmap)@[j]),
{
    if len == 0 {
        return Ok(());
    }
    let page_size = 4096u64;
    let cut_start = start & !4095u64;
    let cut_end_raw = start.saturating_add(len);
    let mut cut_end: u64;
    proof {
        lemma_page_mask(start);
    }
    if cut_end_raw > u64::MAX - (page_size - 1) {
        cut_end = u64::MAX;
    } else {
        cut_end = (cut_end_raw + (page_size - 1)) & !4095u64;
        proof {
            lemma_page_mask((cut_end_raw + 4095) as u64);
        }
    }
    if cut_start >= cut_end {
        return Ok(());
    }
    let ghost orig = mmap@;
    let mut in_use: Vec<bool> = Vec::new();
    let mut k: usize = 0;
    while k < MAXMEMMAP
        invariant
            0 <= k <= MAXMEMMAP,
            mmap@ == orig,
            in_use@.len() == k,
            forall|j: int| 0 <= j < k ==> #[trigger] in_use@[j] == (orig[j].length != 0),
        decreases MAXMEMMAP - k,
    {
        in_use.push(!mmap[k].is_empty());
        k = k + 1;
    }
    let mut i: usize = 0;
    while i < MAXMEMMAP
        invariant
            0 <= i <= MAXMEMMAP,
            orig == old(mmap)@,
            orig.len() == MAXMEMMAP,
            in_use@.len() == MAXMEMMAP,
            forall|j: int| 0 <= j < MAXMEMMAP ==> #[trigger] in_use@[j] == (orig[j].length != 0),
            (cut_start, cut_end) == cut_bounds(start, len),
            len != 0,
            cut_start < cut_end,
            cut_upto(orig, cut_start, cut_end, i as int).1.is_none(),
            mmap@ == cut_upto(orig, cut_start, cut_end, i as int).0,
            forall|j: int| 0 <= j < MAXMEMMAP ==> entry_in_range(#[trigger] mmap@[j]),
        decreases MAXMEMMAP - i,
    {
        if in_use[i] {
            if let Some(e) = cut_entry(mmap, i, cut_start, cut_end) {
                proof {
                    lemma_cut_error_sticks(orig, cut_start, cut_end, i + 1, MAXMEMMAP as int);
                }
                return Err(e);
            }
        }
        i = i + 1;
    }
    Ok(())
}

/// Slot `j` is no longer waiting to be visited after `n` steps of a cut
/// over `orig`: it was visited, or it was empty when the cut began.
pub open spec fn processed(orig: Seq<MemMapEntry>, n: int, j: int) -> bool {
    !(n <= j && orig[j].length != 0)
}

/// Some slot of `t` that is no longer waiting holds address `a`.
pub open spec fn cov_proc(orig: Seq<MemMapEntry>, n: int, t: Seq<MemMapEntry>, a: int) -> bool {
    exists|j: int| 0 <= j < t.len() && processed(orig, n, j) && #[trigger] piece_cover(t[j], a)
}

/// One of the first `n` entries of `orig` holds address `a`.
pub open spec fn covers_before(orig: Seq<MemMapEntry>, n: int, a: int) -> bool {
    exists|i: int| 0 <= i < n && #[trigger] piece_cover(orig[i], a)
}

/// An empty entry, or a page-aligned one that ends at least a page below
/// the top of the address space.
pub open spec fn wf_entry(e: MemMapEntry) -> bool {
    e.length == 0 || (entry_in_range(e) && page_aligned(e.base as int) && page_aligned(e.length as int))
}

/// Every entry of the map in use is page-aligned and in range.
pub open spec fn wf_map(s: Seq<MemMapEntry>) -> bool {
    forall|j: int| 0 <= j < s.len() ==> #[trigger] wf_entry(s[j])
}

spec fn cut_inv(orig: Seq<MemMapEntry>, s: Seq<MemMapEntry>, n: int, cs: u64, ce: u64) -> bool {
    &&& s.len() == orig.len()
    &&& forall|j: int| 0 <= j < s.len() && !processed(orig, n, j) ==> #[trigger] s[j] == orig[j]
    &&& forall|a: int| #![trigger cov_proc(orig, n, s, a)] #![trigger covers_before(orig, n, a)]
        cov_proc(orig, n, s, a) <==> (covers_before(orig, n, a) && !(cs <= a < ce))
    &&& wf_map(s)
}

proof fn lemma_add_exact(s: Seq<MemMapEntry>, addr: u64, len: u64)
    requires
        page_aligned(addr as int),
        page_aligned(len as int),
        len > 0,
        addr + len <= u64::MAX - 4095,
    ensures
        ({
            let r = add_spec(s, addr, len);
            let k = first_empty(s, 0);
            &&& k < s.len() ==> r.0 == s.update(k, MemMapEntry { base: addr, length: len }) && r.1 == Ok::<usize, MemMapError>(k as usize)
                && s[k].length == 0
            &&& k >= s.len() ==> r.0 == s && r.1 == Err::<usize, MemMapError>(MemMapError::NoSlots)
        }),
{
    lemma_first_empty(s, 0);
    assert(page_floor(addr + 4095) == addr);
    assert(page_floor(addr + len) == addr + len);
}

proof fn lemma_put_piece(orig: Seq<MemMapEntry>, n: int, t: Seq<MemMapEntry>, k: int, p: MemMapEntry)
    requires
        0 <= k < t.len(),
        t[k].length == 0,
        t.len() == orig.len(),
        forall|j: int| 0 <= j < t.len() && !processed(orig, n, j) ==> #[trigger] t[j] == orig[j],
    ensures
        processed(orig, n, k),
        forall|a: int| #![trigger cov_proc(orig, n, t.update(k, p), a)]
            cov_proc(orig, n, t.update(k, p), a) <==> (cov_proc(orig, n, t, a) || piece_cover(p, a)),
        forall|j: int| 0 <= j < t.len() && !processed(orig, n, j) ==> #[trigger] t.update(k, p)[j] == orig[j],
{
    let t2 = t.update(k, p);
    assert(processed(orig, n, k)) by {
        if !processed(orig, n, k) {
            assert(t[k] == orig[k]);
        }
    }
    assert forall|a: int| #![trigger cov_proc(orig, n, t2, a)]
        cov_proc(orig, n, t2, a) <==> (cov_proc(orig, n, t, a) || piece_cover(p, a)) by {
        if cov_proc(orig, n, t2, a) {
            let j = choose|j: int| 0 <= j < t2.len() && processed(orig, n, j) && #[trigger] piece_cover(t2[j], a);
            if j != k {
                assert(piece_cover(t[j], a));
            }
        }
        if cov_proc(orig, n, t, a) {
            let j = choose|j: int| 0 <= j < t.len() && processed(orig, n, j) && #[trigger] piece_cover(t[j], a);
            assert(j != k);
            assert(piece_cover(t2[j], a));
        }
        if piece_cover(p, a) {
            assert(piece_cover(t2[k], a));
        }
    }
}

proof fn lemma_covers_before_succ(orig: Seq<MemMapEntry>, n: int)
    requires
        0 <= n < orig.len(),
    ensures
        forall|a: int| #![trigger covers_before(orig, n + 1, a)]
            covers_before(orig, n + 1, a) <==> (covers_before(orig, n, a) || piece_cover(orig[n], a)),
{
    assert forall|a: int| #![trigger covers_before(orig, n + 1, a)]
        covers_before(orig, n + 1, a) <==> (covers_before(orig, n, a) || piece_cover(orig[n], a)) by {
        if covers_before(orig, n + 1, a) {
            let i = choose|i: int| 0 <= i < n + 1 && #[trigger] piece_cover(orig[i], a);
            if i < n {
                assert(piece_cover(orig[i], a));
            }
        }
        if covers_before(orig, n, a) {
            let i = choose|i: int| 0 <= i < n && #[trigger] piece_cover(orig[i], a);
            assert(piece_cover(orig[i], a));
        }
    }
}

proof fn lemma_visit_slot(orig: Seq<MemMapEntry>, t: Seq<MemMapEntry>, n: int)
    requires
        0 <= n < orig.len(),
        t.len() == orig.len(),
    ensures
        forall|a: int| #![trigger cov_proc(orig, n + 1, t, a)]
            cov_proc(orig, n + 1, t, a) <==> (cov_proc(orig, n, t, a) || piece_cover(t[n], a)),
        forall|j: int| 0 <= j < t.len() && !processed(orig, n + 1, j) ==> #[trigger] processed(orig, n, j) == false,
{
    assert forall|a: int| #![trigger cov_proc(orig, n + 1, t, a)]
        cov_proc(orig, n + 1, t, a) <==> (cov_proc(orig, n, t, a) || piece_cover(t[n], a)) by {
        if cov_proc(orig, n + 1, t, a) {
            let j = choose|j: int| 0 <= j < t.len() && processed(orig, n + 1, j) && #[trigger] piece_cover(t[j], a);
            if j != n {
                assert(processed(orig, n, j));
            }
        }
        if cov_proc(orig, n, t, a) {
            let j = choose|j: int| 0 <= j < t.len() && processed(orig, n, j) && #[trigger] piece_cover(t[j], a);
            assert(processed(orig, n + 1, j));
        }
        if piece_cover(t[n], a) {
            assert(processed(orig, n + 1, n));
        }
    }
}

proof fn lemma_change_unvisited(orig: Seq<MemMapEntry>, t: Seq<MemMapEntry>, n: int, x: MemMapEntry)
    requires
        0 <= n < orig.len(),
        t.len() == orig.len(),
        !processed(orig, n, n),
    ensures
        forall|a: int| #![trigger cov_proc(orig, n, t.update(n, x), a)]
            cov_proc(orig, n, t.update(n, x), a) <==> cov_proc(orig, n, t, a),
{
    let t1 = t.update(n, x);
    assert forall|a: int| #![trigger cov_proc(orig, n, t1, a)]
        cov_proc(orig, n, t1, a) <==> cov_proc(orig, n, t, a) by {
        if cov_proc(orig, n, t1, a) {
            let j = choose|j: int| 0 <= j < t1.len() && processed(orig, n, j) && #[trigger] piece_cover(t1[j], a);
            assert(piece_cover(t[j], a));
        }
        if cov_proc(orig, n, t, a) {
            let j = choose|j: int| 0 <= j < t.len() && processed(orig, n, j) && #[trigger] piece_cover(t[j], a);
            assert(piece_cover(t1[j], a));
        }
    }
}

/// The overlapping case of one cut step keeps the invariant.
proof fn lemma_cut_inv_overlap(orig: Seq<MemMapEntry>, s: Seq<MemMapEntry>, cs: u64, ce: u64, n: int)
    requires
        orig.len() == MAXMEMMAP,
        0 <= n < MAXMEMMAP,
        page_aligned(cs as int),
        page_aligned(ce as int) || ce == u64::MAX,
        cs < ce,
        cut_inv(orig, s, n, cs, ce),
        orig[n].length != 0,
        cut_step(s, n, cs, ce).1.is_none(),
    ensures
        cut_inv(orig, cut_step(s, n, cs, ce).0, n + 1, cs, ce),
{
    let s_next = cut_step(s, n, cs, ce).0;
    let e = orig[n];
    assert(!processed(orig, n, n));
    assert(s[n] == e);
    assert(wf_entry(e));
    let memaddr = e.base;
    let memend = entry_end(e);
    let substart: int = if cs > memaddr { cs as int } else { memaddr as int };
    let subend: int = if ce < memend { ce as int } else { memend };
    lemma_covers_before_succ(orig, n);
    lemma_visit_slot(orig, s, n);
    if substart >= subend {
        assert(s_next == s);
        assert forall|a: int| piece_cover(e, a) implies !(cs <= a < ce) by {}
        return;
    }
    let zero = MemMapEntry { base: 0, length: 0 };
    let s1 = s.update(n, zero);
    lemma_visit_slot(orig, s1, n);
    lemma_change_unvisited(orig, s, n, zero);
    let pre = MemMapEntry { base: memaddr, length: (substart - memaddr) as u64 };
    let s2 = if substart > memaddr { add_spec(s1, memaddr, (substart - memaddr) as u64).0 } else { s1 };
    if substart > memaddr {
        lemma_add_exact(s1, memaddr, (substart - memaddr) as u64);
        lemma_first_empty(s1, 0);
        let k1 = first_empty(s1, 0);
        assert(k1 <= n) by {
            if k1 > n {
                assert(s1[n].length != 0);
            }
        }
        lemma_put_piece(orig, n + 1, s1, k1, pre);
    }
    let suf = MemMapEntry { base: subend as u64, length: (memend - subend) as u64 };
    if subend < memend {
        lemma_add_exact(s2, subend as u64, (memend - subend) as u64);
        lemma_first_empty(s2, 0);
        let k2 = first_empty(s2, 0);
        lemma_put_piece(orig, n + 1, s2, k2, suf);
    }
    assert forall|a: int| (substart > memaddr && piece_cover(pre, a)) || (subend < memend && piece_cover(suf, a))
        <==> (piece_cover(e, a) && !(cs <= a < ce)) by {}
}

proof fn lemma_cut_inv_step(orig: Seq<MemMapEntry>, cs: u64, ce: u64, n: int)
    requires
        orig.len() == MAXMEMMAP,
        0 <= n < MAXMEMMAP,
        page_aligned(cs as int),
        page_aligned(ce as int) || ce == u64::MAX,
        cs < ce,
        cut_upto(orig, cs, ce, n).1.is_none(),
        cut_upto(orig, cs, ce, n + 1).1.is_none(),
        cut_inv(orig, cut_upto(orig, cs, ce, n).0, n, cs, ce),
    ensures
        cut_inv(orig, cut_upto(orig, cs, ce, n + 1).0, n + 1, cs, ce),
{
    let s = cut_upto(orig, cs, ce, n).0;
    if orig[n].length == 0 {
        lemma_covers_before_succ(orig, n);
        lemma_visit_slot(orig, s, n);
    } else {
        lemma_cut_inv_overlap(orig, s, cs, ce, n);
    }
}

proof fn lemma_cut_inv_upto(orig: Seq<MemMapEntry>, cs: u64, ce: u64, n: int)
    requires
        orig.len() == MAXMEMMAP,
        wf_map(orig),
        0 <= n <= MAXMEMMAP,
        page_aligned(cs as int),
        page_aligned(ce as int) || ce == u64::MAX,
        cs < ce,
        cut_upto(orig, cs, ce, n).1.is_none(),
    ensures
        cut_inv(orig, cut_upto(orig, cs, ce, n).0, n, cs, ce),
    decreases n,
{
    if n == 0 {
        assert forall|a: int| #![trigger cov_proc(orig, 0, orig, a)] !cov_proc(orig, 0, orig, a) by {
            if cov_proc(orig, 0, orig, a) {
                let j = choose|j: int| 0 <= j < orig.len() && processed(orig, 0, j) && #[trigger] piece_cover(orig[j], a);
            }
        }
    } else {
        let prev = cut_upto(orig, cs, ce, n - 1);
        assert(prev.1.is_none());
        lemma_cut_inv_upto(orig, cs, ce, n - 1);
        lemma_cut_inv_step(orig, cs, ce, n - 1);
    }
}

/// Sum of the lengths of the first `n` entries of `s`.
pub open spec fn total_len(s: Seq<MemMapEntry>, n: int) -> int
    decreases n,
{
    if n <= 0 { 0 } else { total_len(s, n - 1) + s[n - 1].length }
}

/// Number of empty slots among the first `n` of `s`.
pub open spec fn empty_count(s: Seq<MemMapEntry>, n: int) -> int
    decreases n,
{
    if n <= 0 { 0 } else { empty_count(s, n - 1) + (if s[n - 1].length == 0 { 1int } else { 0int }) }
}

/// Bytes that entry `e` shares with `[cs, ce)`.
pub open spec fn overlap(e: MemMapEntry, cs: int, ce: int) -> int {
    let ss = if cs > e.base { cs } else { e.base as int };
    let se = if ce < e.base + e.length { ce } else { e.base + e.length };
    if e.length == 0 || ss >= se { 0 } else { se - ss }
}

/// Bytes that the first `n` entries of `s` share with `[cs, ce)`.
pub open spec fn overlap_sum(s: Seq<MemMapEntry>, cs: int, ce: int, n: int) -> int
    decreases n,
{
    if n <= 0 { 0 } else { overlap_sum(s, cs, ce, n - 1) + overlap(s[n - 1], cs, ce) }
}

/// No two entries in use share an address.
pub open spec fn disjoint_map(s: Seq<MemMapEntry>) -> bool {
    forall|i: int, j: int| 0 <= i < s.len() && 0 <= j < s.len() && i != j
        && (#[trigger] s[i]).length > 0 && (#[trigger] s[j]).length > 0
        ==> s[i].base + s[i].length <= s[j].base || s[j].base + s[j].length <= s[i].base
}

/// Entry `e` holds `[cs, ce)` with room on both sides, so that cutting
/// leaves two pieces of it.
pub open spec fn holds_inside(e: MemMapEntry, cs: int, ce: int) -> bool {
    e.length > 0 && e.base < cs && ce < e.base + e.length
}

proof fn lemma_total_update(s: Seq<MemMapEntry>, k: int, x: MemMapEntry, n: int)
    requires
        0 <= k < s.len(),
        0 <= n <= s.len(),
    ensures
        total_len(s.update(k, x), n) == total_len(s, n) - (if k < n { s[k].length - x.length } else { 0 }),
        empty_count(s.update(k, x), n) == empty_count(s, n)
            - (if k < n { (if s[k].length == 0 { 1int } else { 0int }) - (if x.length == 0 { 1int } else { 0int }) } else { 0 }),
    decreases n,
{
    if n > 0 {
        lemma_total_update(s, k, x, n - 1);
    }
}

proof fn lemma_no_empty_count(s: Seq<MemMapEntry>, n: int)
    requires
        0 <= n <= s.len(),
        forall|j: int| 0 <= j < n ==> #[trigger] s[j].length != 0,
    ensures
        empty_count(s, n) == 0,
    decreases n,
{
    if n > 0 {
        lemma_no_empty_count(s, n - 1);
    }
}

proof fn lemma_count_nonneg(s: Seq<MemMapEntry>, n: int)
    ensures
        empty_count(s, n) >= 0,
    decreases n,
{
    if n > 0 {
        lemma_count_nonneg(s, n - 1);
    }
}

/// A map with an empty slot has a first empty slot.
proof fn lemma_count_first_empty(s: Seq<MemMapEntry>)
    requires
        empty_count(s, s.len() as int) >= 1,
    ensures
        first_empty(s, 0) < s.len(),
{
    lemma_first_empty(s, 0);
    if first_empty(s, 0) >= s.len() {
        lemma_no_empty_count(s, s.len() as int);
    }
}

/// One cut step on an entry in use, when the map has a free slot or the
/// entry does not hold the cut range inside: it succeeds, the total length
/// drops by the entry's overlap with the cut, and an empty slot is used up
/// only when the entry held the cut inside.
proof fn lemma_cut_step_counts(s: Seq<MemMapEntry>, n: int, cs: u64, ce: u64)
    requires
        s.len() == MAXMEMMAP,
        0 <= n < MAXMEMMAP,
        wf_map(s),
        s[n].length != 0,
        page_aligned(cs as int),
        page_aligned(ce as int),
        cs < ce,
        holds_inside(s[n], cs as int, ce as int) ==> empty_count(s, MAXMEMMAP as int) >= 1,
    ensures
        cut_step(s, n, cs, ce).1.is_none(),
        total_len(cut_step(s, n, cs, ce).0, MAXMEMMAP as int) == total_len(s, MAXMEMMAP as int) - overlap(s[n], cs as int, ce as int),
        empty_count(cut_step(s, n, cs, ce).0, MAXMEMMAP as int) >= empty_count(s, MAXMEMMAP as int)
            - (if holds_inside(s[n], cs as int, ce as int) { 1int } else { 0int }),
        cut_step(s, n, cs, ce).0.len() == MAXMEMMAP,
{
    let m = MAXMEMMAP as int;
    let e = s[n];
    assert(wf_entry(e));
    let memaddr = e.base;
    let memend = entry_end(e);
    assert(memend == e.base + e.length);
    let substart: int = if cs > memaddr { cs as int } else { memaddr as int };
    let subend: int = if ce < memend { ce as int } else { memend };
    if substart >= subend {
        return;
    }
    let zero = MemMapEntry { base: 0, length: 0 };
    let s1 = s.update(n, zero);
    lemma_total_update(s, n, zero, m);
    lemma_count_nonneg(s, m);
    assert(empty_count(s1, m) == empty_count(s, m) + 1);
    let s2 = if substart > memaddr { add_spec(s1, memaddr, (substart - memaddr) as u64).0 } else { s1 };
    if substart > memaddr {
        lemma_add_exact(s1, memaddr, (substart - memaddr) as u64);
        lemma_first_empty(s1, 0);
        let k1 = first_empty(s1, 0);
        assert(k1 < m) by {
            assert(s1[n].length == 0);
        }
        lemma_total_update(s1, k1, MemMapEntry { base: memaddr, length: (substart - memaddr) as u64 }, m);
        assert(s1[k1].length == 0);
        assert(empty_count(s2, m) == empty_count(s1, m) - 1);
    }
    if subend < memend {
        lemma_add_exact(s2, subend as u64, (memend - subend) as u64);
        lemma_first_empty(s2, 0);
        let k2 = first_empty(s2, 0);
        if substart > memaddr {
            assert(holds_inside(e, cs as int, ce as int));
        } else {
            assert(s2 == s1);
            assert(s1[n].length == 0);
        }
        lemma_count_first_empty(s2);
        lemma_total_update(s2, k2, MemMapEntry { base: subend as u64, length: (memend - subend) as u64 }, m);
    }
}

/// Progress of a cut over the first `n` slots of a well-formed,
/// disjoint map with a free slot: no error, the total length dropped by
/// the overlap of the visited entries, and a free slot remains while an
/// entry holding the cut inside is still to be visited.
proof fn lemma_cut_progress(orig: Seq<MemMapEntry>, cs: u64, ce: u64, n: int)
    requires
        orig.len() == MAXMEMMAP,
        wf_map(orig),
        disjoint_map(orig),
        empty_count(orig, MAXMEMMAP as int) >= 1,
        page_aligned(cs as int),
        page_aligned(ce as int),
        cs < ce,
        0 <= n <= MAXMEMMAP,
    ensures
        cut_upto(orig, cs, ce, n).1.is_none(),
        total_len(cut_upto(orig, cs, ce, n).0, MAXMEMMAP as int) == total_len(orig, MAXMEMMAP as int) - overlap_sum(orig, cs as int, ce as int, n),
        (exists|j: int| n <= j < MAXMEMMAP && #[trigger] holds_inside(orig[j], cs as int, ce as int))
            ==> empty_count(cut_upto(orig, cs, ce, n).0, MAXMEMMAP as int) >= 1,
    decreases n,
{
    if n > 0 {
        lemma_cut_progress(orig, cs, ce, n - 1);
        lemma_cut_inv_upto(orig, cs, ce, n - 1);
        let s = cut_upto(orig, cs, ce, n - 1).0;
        let k = n - 1;
        assert(!processed(orig, k, k) || orig[k].length == 0);
        if orig[k].length != 0 {
            assert(s[k] == orig[k]);
            if holds_inside(orig[k], cs as int, ce as int) {
                assert(exists|j: int| n - 1 <= j < MAXMEMMAP && #[trigger] holds_inside(orig[j], cs as int, ce as int));
                assert forall|j: int| n <= j < MAXMEMMAP implies !#[trigger] holds_inside(orig[j], cs as int, ce as int) by {
                    if holds_inside(orig[j], cs as int, ce as int) {
                        assert(orig[k].length > 0 && orig[j].length > 0);
                    }
                }
            } else {
                if exists|j: int| n <= j < MAXMEMMAP && #[trigger] holds_inside(orig[j], cs as int, ce as int) {
                    let j = choose|j: int| n <= j < MAXMEMMAP && #[trigger] holds_inside(orig[j], cs as int, ce as int);
                    assert(n - 1 <= j < MAXMEMMAP && holds_inside(orig[j], cs as int, ce as int));
                }
            }
            lemma_cut_step_counts(s, k, cs, ce);
        } else {
            assert(overlap(orig[k], cs as int, ce as int) == 0);
            if exists|j: int| n <= j < MAXMEMMAP && #[trigger] holds_inside(orig[j], cs as int, ce as int) {
                let j = choose|j: int| n <= j < MAXMEMMAP && #[trigger] holds_inside(orig[j], cs as int, ce as int);
                assert(n - 1 <= j < MAXMEMMAP && holds_inside(orig[j], cs as int, ce as int));
            }
        }
    } else {
        lemma_count_nonneg(orig, MAXMEMMAP as int);
    }
}

/// Piece `p` lies within entry `e`.
pub open spec fn within(p: MemMapEntry, e: MemMapEntry) -> bool {
    e.base <= p.base && p.base + p.length <= e.base + e.length
}

/// Entries `a` and `b` share no address.
pub open spec fn apart(a: MemMapEntry, b: MemMapEntry) -> bool {
    a.base + a.length <= b.base || b.base + b.length <= a.base
}

/// After `n` steps of a cut over `orig`, every entry in use of `t` lies
/// within a visited entry of `orig`, or is the unvisited entry of `orig`
/// in its own slot.
spec fn sourced(orig: Seq<MemMapEntry>, n: int, t: Seq<MemMapEntry>) -> bool {
    forall|j: int| 0 <= j < t.len() && (#[trigger] t[j]).length > 0 ==>
        (n <= j && t[j] == orig[j])
        || exists|i: int| 0 <= i < n && orig[i].length > 0 && #[trigger] within(t[j], orig[i])
}

proof fn lemma_apart_from_piece(orig: Seq<MemMapEntry>, n: int, t: Seq<MemMapEntry>, p: MemMapEntry)
    requires
        disjoint_map(orig),
        t.len() == orig.len(),
        0 <= n < orig.len(),
        orig[n].length > 0,
        t[n].length == 0,
        sourced(orig, n, t),
        within(p, orig[n]),
    ensures
        forall|j: int| 0 <= j < t.len() && (#[trigger] t[j]).length > 0 ==> apart(t[j], p),
{
    assert forall|j: int| 0 <= j < t.len() && (#[trigger] t[j]).length > 0 implies apart(t[j], p) by {
        if n <= j && t[j] == orig[j] {
            assert(j != n);
            assert(orig[j].length > 0 && orig[n].length > 0);
        } else {
            let i = choose|i: int| 0 <= i < n && orig[i].length > 0 && #[trigger] within(t[j], orig[i]);
            assert(orig[i].length > 0 && orig[n].length > 0);
        }
    }
}

proof fn lemma_put_apart(t: Seq<MemMapEntry>, k: int, p: MemMapEntry)
    requires
        0 <= k < t.len(),
        t[k].length == 0,
        disjoint_map(t),
        forall|j: int| 0 <= j < t.len() && (#[trigger] t[j]).length > 0 ==> apart(t[j], p),
    ensures
        disjoint_map(t.update(k, p)),
{
    let u = t.update(k, p);
    assert forall|i: int, j: int| 0 <= i < u.len() && 0 <= j < u.len() && i != j
        && (#[trigger] u[i]).length > 0 && (#[trigger] u[j]).length > 0
        implies u[i].base + u[i].length <= u[j].base || u[j].base + u[j].length <= u[i].base by {
        if i == k {
            assert(apart(t[j], p));
        } else if j == k {
            assert(apart(t[i], p));
        } else {
            assert(t[i].length > 0 && t[j].length > 0);
        }
    }
}

proof fn lemma_cut_disjoint_step(orig: Seq<MemMapEntry>, s: Seq<MemMapEntry>, cs: u64, ce: u64, k: int)
    requires
        orig.len() == MAXMEMMAP,
        wf_map(orig),
        disjoint_map(orig),
        page_aligned(cs as int),
        page_aligned(ce as int),
        cs < ce,
        0 <= k < MAXMEMMAP,
        orig[k].length != 0,
        cut_inv(orig, s, k, cs, ce),
        disjoint_map(s),
        sourced(orig, k, s),
        cut_step(s, k, cs, ce).1.is_none(),
    ensures
        disjoint_map(cut_step(s, k, cs, ce).0),
        sourced(orig, k + 1, cut_step(s, k, cs, ce).0),
{
    let n = k + 1;
    assert(!processed(orig, k, k));
    assert(s[k] == orig[k]);
    let e = orig[k];
    assert(wf_entry(e));
    let memaddr = e.base;
    let memend = entry_end(e);
    assert(memend == e.base + e.length);
    let substart: int = if cs > memaddr { cs as int } else { memaddr as int };
    let subend: int = if ce < memend { ce as int } else { memend };
    let r = cut_step(s, k, cs, ce);
    if substart >= subend {
        assert(r.0 == s);
        assert forall|j: int| 0 <= j < s.len() && (#[trigger] s[j]).length > 0 implies
            (n <= j && s[j] == orig[j]) || exists|i: int| 0 <= i < n && orig[i].length > 0 && #[trigger] within(s[j], orig[i]) by {
            if k <= j && s[j] == orig[j] {
                if j == k {
                    assert(within(s[j], orig[k]));
                }
            } else {
                let i = choose|i: int| 0 <= i < k && orig[i].length > 0 && #[trigger] within(s[j], orig[i]);
                assert(0 <= i < n);
            }
        }
        return;
    }
    let zero = MemMapEntry { base: 0, length: 0 };
    let s1 = s.update(k, zero);
    assert(disjoint_map(s1)) by {
        assert forall|i: int, j: int| 0 <= i < s1.len() && 0 <= j < s1.len() && i != j
            && (#[trigger] s1[i]).length > 0 && (#[trigger] s1[j]).length > 0
            implies s1[i].base + s1[i].length <= s1[j].base || s1[j].base + s1[j].length <= s1[i].base by {
            assert(s[i].length > 0 && s[j].length > 0);
        }
    }
    assert(sourced(orig, k, s1)) by {
        assert forall|j: int| 0 <= j < s1.len() && (#[trigger] s1[j]).length > 0 implies
            (k <= j && s1[j] == orig[j]) || exists|i: int| 0 <= i < k && orig[i].length > 0 && #[trigger] within(s1[j], orig[i]) by {
            assert(s1[j] == s[j]);
            assert(s[j].length > 0);
        }
    }
    let pre = MemMapEntry { base: memaddr, length: (substart - memaddr) as u64 };
    let suf = MemMapEntry { base: subend as u64, length: (memend - subend) as u64 };
    let s2 = if substart > memaddr { add_spec(s1, memaddr, (substart - memaddr) as u64).0 } else { s1 };
    let mut k1: int = -1;
    if substart > memaddr {
        lemma_add_exact(s1, memaddr, (substart - memaddr) as u64);
        lemma_first_empty(s1, 0);
        k1 = first_empty(s1, 0);
        if k1 < s1.len() {
            lemma_apart_from_piece(orig, k, s1, pre);
            lemma_put_apart(s1, k1, pre);
            assert(s2 == s1.update(k1, pre));
        } else {
            assert(s2 == s1);
        }
    }
    assert(disjoint_map(s2));
    let mut k2: int = -1;
    if subend < memend {
        lemma_add_exact(s2, subend as u64, (memend - subend) as u64);
        lemma_first_empty(s2, 0);
        k2 = first_empty(s2, 0);
        assert(k2 < s2.len());
        lemma_apart_from_piece(orig, k, s1, suf);
        assert forall|j: int| 0 <= j < s2.len() && (#[trigger] s2[j]).length > 0 implies apart(s2[j], suf) by {
            if 0 <= k1 < s1.len() && j == k1 {
                assert(s2[j] == pre);
            } else {
                assert(s2[j] == s1[j]);
            }
        }
        lemma_put_apart(s2, k2, suf);
        assert(r.0 == s2.update(k2, suf));
    } else {
        assert(r.0 == s2);
    }
    let t = r.0;
    assert forall|j: int| 0 <= j < t.len() && (#[trigger] t[j]).length > 0 implies
        (n <= j && t[j] == orig[j]) || exists|i: int| 0 <= i < n && orig[i].length > 0 && #[trigger] within(t[j], orig[i]) by {
        if subend < memend && j == k2 {
            assert(t[j] == suf);
            assert(within(t[j], orig[k]));
        } else if substart > memaddr && 0 <= k1 < s1.len() && j == k1 {
            assert(t[j] == pre);
            assert(within(t[j], orig[k]));
        } else {
            assert(t[j] == s1[j]);
            assert(s1[j].length > 0);
            if k <= j && s1[j] == orig[j] {
                assert(j != k);
            } else {
                let i = choose|i: int| 0 <= i < k && orig[i].length > 0 && #[trigger] within(s1[j], orig[i]);
                assert(0 <= i < n);
            }
        }
    }
}


proof fn lemma_cut_disjoint(orig: Seq<MemMapEntry>, cs: u64, ce: u64, n: int)
    requires
        orig.len() == MAXMEMMAP,
        wf_map(orig),
        disjoint_map(orig),
        page_aligned(cs as int),
        page_aligned(ce as int),
        cs < ce,
        0 <= n <= MAXMEMMAP,
        cut_upto(orig, cs, ce, n).1.is_none(),
    ensures
        disjoint_map(cut_upto(orig, cs, ce, n).0),
        sourced(orig, n, cut_upto(orig, cs, ce, n).0),
    decreases n,
{
    if n == 0 {
        return;
    }
    let k = n - 1;
    let prev = cut_upto(orig, cs, ce, k);
    assert(prev.1.is_none());
    lemma_cut_disjoint(orig, cs, ce, k);
    lemma_cut_inv_upto(orig, cs, ce, k);
    let s = prev.0;
    if orig[k].length != 0 {
        lemma_cut_disjoint_step(orig, s, cs, ce, k);
        return;
    }
    assert(cut_upto(orig, cs, ce, n).0 == s);
    assert forall|j: int| 0 <= j < s.len() && (#[trigger] s[j]).length > 0 implies
        (n <= j && s[j] == orig[j]) || exists|i: int| 0 <= i < n && orig[i].length > 0 && #[trigger] within(s[j], orig[i]) by {
        if k <= j && s[j] == orig[j] {
            assert(j != k);
        } else {
            let i = choose|i: int| 0 <= i < k && orig[i].length > 0 && #[trigger] within(s[j], orig[i]);
            assert(0 <= i < n);
        }
    }
}

/// The whole cut over a map with a free slot: no error, the summed length
/// drops by the overlaps, and the entries stay aligned and disjoint.
proof fn lemma_cut_whole(orig: Seq<MemMapEntry>, cs: u64, ce: u64)
    requires
        orig.len() == MAXMEMMAP,
        wf_map(orig),
        disjoint_map(orig),
        empty_count(orig, MAXMEMMAP as int) >= 1,
        page_aligned(cs as int),
        page_aligned(ce as int),
        cs < ce,
    ensures
        cut_upto(orig, cs, ce, MAXMEMMAP as int).1.is_none(),
        total_len(cut_upto(orig, cs, ce, MAXMEMMAP as int).0, MAXMEMMAP as int)
            == total_len(orig, MAXMEMMAP as int) - overlap_sum(orig, cs as int, ce as int, MAXMEMMAP as int),
        wf_map(cut_upto(orig, cs, ce, MAXMEMMAP as int).0),
        disjoint_map(cut_upto(orig, cs, ce, MAXMEMMAP as int).0),
{
    lemma_cut_progress(orig, cs, ce, MAXMEMMAP as int);
    lemma_cut_inv_upto(orig, cs, ce, MAXMEMMAP as int);
    lemma_cut_disjoint(orig, cs, ce, MAXMEMMAP as int);
}

/// A cut succeeds when the map has a free slot, and it frees exactly what
/// it overlapped: on a map of page-aligned, pairwise disjoint entries with
/// at least one empty slot, and a cut range that ends a page below the
/// top of the address space, `cut_memmap` returns `Ok`, and the summed
/// length of the entries drops by the sum of their overlaps with the
/// page-aligned cut range (the entries being disjoint, the size of the
/// part of the cut range that was free); nothing for a cut of length zero.
/// The entries stay page-aligned and pairwise disjoint, and an address is
/// held afterwards exactly when it was held before and lies outside the
/// cut range.
#[verifier::spinoff_prover]
pub proof fn law_cut_succeeds_and_shrinks(orig: Seq<MemMapEntry>, start: u64, len: u64)
    requires
        orig.len() == MAXMEMMAP,
        wf_map(orig),
        disjoint_map(orig),
        empty_count(orig, MAXMEMMAP as int) >= 1,
        len == 0 || start + len <= u64::MAX - 4095,
    ensures
        cut_spec(orig, start, len).1 is Ok,
        total_len(cut_spec(orig, start, len).0, MAXMEMMAP as int) == total_len(orig, MAXMEMMAP as int)
            - (if len == 0 { 0 } else { overlap_sum(orig, cut_bounds(start, len).0 as int, cut_bounds(start, len).1 as int, MAXMEMMAP as int) }),
        wf_map(cut_spec(orig, start, len).0),
        disjoint_map(cut_spec(orig, start, len).0),
        forall|a: int| #![trigger covers(cut_spec(orig, start, len).0, a)]
            covers(cut_spec(orig, start, len).0, a) <==> (covers(orig, a)
            && !(len != 0 && cut_bounds(start, len).0 <= a < cut_bounds(start, len).1)),
{
    if len == 0 {
        law_cut_removes_exactly_the_range(orig, start, len);
        return;
    }
    let (cs, ce) = cut_bounds(start, len);
    assert(page_aligned(cs as int));
    assert(page_aligned(ce as int));
    lemma_cut_whole(orig, cs, ce);
    law_cut_removes_exactly_the_range(orig, start, len);
}

/// Cutting removes exactly the cut range: when `cut_memmap` succeeds on a
/// map of page-aligned entries, an address is held by the new map if and
/// only if the old map held it and it lies outside the page-aligned cut
/// range `cut_bounds(start, len)` (empty when `len` is zero).
pub proof fn law_cut_removes_exactly_the_range(orig: Seq<MemMapEntry>, start: u64, len: u64)
    requires
        orig.len() == MAXMEMMAP,
        wf_map(orig),
        cut_spec(orig, start, len).1 is Ok,
    ensures
        forall|a: int| #![trigger covers(cut_spec(orig, start, len).0, a)]
            covers(cut_spec(orig, start, len).0, a) <==> (covers(orig, a)
            && !(len != 0 && cut_bounds(start, len).0 <= a < cut_bounds(start, len).1)),
{
    let (cs, ce) = cut_bounds(start, len);
    if len == 0 || cs >= ce {
        return;
    }
    assert(page_aligned(cs as int));
    assert(page_aligned(ce as int) || ce == u64::MAX);
    let n = MAXMEMMAP as int;
    lemma_cut_inv_upto(orig, cs, ce, n);
    let after = cut_upto(orig, cs, ce, n).0;
    assert forall|a: int| #![trigger covers(after, a)]
        covers(after, a) <==> (covers(orig, a) && !(cs <= a < ce)) by {
        if covers(after, a) {
            let j = choose|j: int| 0 <= j < after.len() && #[trigger] piece_cover(after[j], a);
            assert(processed(orig, n, j));
            assert(cov_proc(orig, n, after, a));
            let i = choose|i: int| 0 <= i < n && #[trigger] piece_cover(orig[i], a);
        }
        if covers(orig, a) && !(cs <= a < ce) {
            let i = choose|i: int| 0 <= i < orig.len() && #[trigger] piece_cover(orig[i], a);
            assert(covers_before(orig, n, a));
            let j = choose|j: int| 0 <= j < after.len() && processed(orig, n, j) && #[trigger] piece_cover(after[j], a);
        }
    }
}

/// Adding covers exactly the page-shrunk region: when `add_memmap`
/// succeeds, an address is held by the new map if and only if the old map
/// held it or it lies in `[addr, addr + len)` with both ends moved inward
/// to page boundaries. No other slot changes.
pub proof fn law_add_covers_the_region(orig: Seq<MemMapEntry>, addr: u64, len: u64)
    requires
        orig.len() == MAXMEMMAP,
        addr + 4095 <= u64::MAX,
        addr + len <= u64::MAX,
        add_spec(orig, addr, len).1 is Ok,
    ensures
        forall|a: int| #![trigger covers(add_spec(orig, addr, len).0, a)]
            covers(add_spec(orig, addr, len).0, a) <==> (covers(orig, a)
            || page_floor(addr + 4095) <= a < page_floor(addr + len)),
        forall|j: int| 0 <= j < orig.len() && j != add_spec(orig, addr, len).1->Ok_0
            ==> #[trigger] add_spec(orig, addr, len).0[j] == orig[j],
{
    lemma_first_empty(orig, 0);
    let k = first_empty(orig, 0);
    let after = add_spec(orig, addr, len).0;
    let b = page_floor(addr + 4095);
    let e = page_floor(addr + len);
    assert(after[k].base == b && after[k].length == e - b);
    assert(k == add_spec(orig, addr, len).1->Ok_0);
    assert forall|a: int| #![trigger covers(after, a)]
        covers(after, a) <==> (covers(orig, a) || b <= a < e) by {
        if covers(after, a) {
            let j = choose|j: int| 0 <= j < after.len() && #[trigger] piece_cover(after[j], a);
            if j != k {
                assert(piece_cover(orig[j], a));
            }
        }
        if covers(orig, a) {
            let j = choose|j: int| 0 <= j < orig.len() && #[trigger] piece_cover(orig[j], a);
            assert(j != k);
            assert(piece_cover(after[j], a));
        }
        if b <= a < e {
            assert(piece_cover(after[k], a));
        }
    }
}

} // verus!
