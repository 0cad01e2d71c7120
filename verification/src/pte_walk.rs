//! Decoding of x86-64 page-table entries and virtual addresses, and the
//! page-by-page plan of a copy between a user address space and a kernel
//! buffer.
use vstd::prelude::*;
use crate::types::{PhysBytes, VirBytes};

verus! {

/// Size of a page-table entry in bytes.
pub const PTE_SIZE: usize = 8;

/// Entries in one page-table page.
pub const PT_ENTRIES: usize = 512;

/// Mask of one 9-bit table index.
pub const PT_INDEX_MASK: u64 = 0x1FF;

/// Mask of the offset within a 4 KiB page.
pub const PAGE_OFFSET_MASK: u64 = 0xFFF;

/// Mask of the physical address field of an entry (bits 12 to 51).
pub const PTE_ADDR_MASK: u64 = 0x000F_FFFF_FFFF_F000;

/// Why a copy between user and kernel memory failed.
#[derive(Debug, Clone, Copy, PartialEq, Eq, Structural)]
pub enum UserCopyError {
    /// A page on the way is not present.
    Fault,
}

/// Kernel-level page attributes.
#[derive(Debug, Clone, Copy, PartialEq, Eq, Structural)]
pub struct PageFlags(pub u32);

impl PageFlags {
    /// The page is mapped.
    pub const PRESENT: u32 = 0x01;
    /// The page may be written.
    pub const WRITABLE: u32 = 0x02;
    /// User mode may access the page.
    pub const USER_ACCESSIBLE: u32 = 0x04;
    /// The page was accessed.
    pub const ACCESSED: u32 = 0x08;
    /// The page was written.
    pub const DIRTY: u32 = 0x10;
    /// The entry maps a large page.
    pub const HUGE_PAGE: u32 = 0x20;
    /// The mapping is global.
    pub const GLOBAL: u32 = 0x40;

    /// No attribute.
    pub fn empty() -> (r: PageFlags)
        ensures
            r.0 == 0,
    {
        PageFlags(0)
    }

    /// Whether every bit of `flag` is set.
    pub fn contains(self, flag: u32) -> (r: bool)
        ensures
            r == (self.0 & flag == flag),
    {
        self.0 & flag == flag
    }
}

/// The attribute bits of entry `pte`: bit 0 gives `PRESENT`, bit 1
/// `WRITABLE`, bit 2 `USER_ACCESSIBLE`, bit 5 `ACCESSED`, bit 6 `DIRTY`,
/// bit 7 `HUGE_PAGE`, bit 8 `GLOBAL`.
pub open spec fn page_flags_of(pte: u64) -> u32 {
    (if pte & 0x1 != 0 { PageFlags::PRESENT } else { 0u32 })
        | (if pte & 0x2 != 0 { PageFlags::WRITABLE } else { 0u32 })
        | (if pte & 0x4 != 0 { PageFlags::USER_ACCESSIBLE } else { 0u32 })
        | (if pte & 0x20 != 0 { PageFlags::ACCESSED } else { 0u32 })
        | (if pte & 0x40 != 0 { PageFlags::DIRTY } else { 0u32 })
        | (if pte & 0x80 != 0 { PageFlags::HUGE_PAGE } else { 0u32 })
        | (if pte & 0x100 != 0 { PageFlags::GLOBAL } else { 0u32 })
}

/// The page attributes of entry `pte`.
pub fn pte_to_page_flags(pte: u64) -> (r: PageFlags)
    ensures
        r.0 == page_flags_of(pte),
{
    let mut flags: u32 = 0;
    flags = flags | (if pte & 0x1 != 0 { PageFlags::PRESENT } else { 0u32 });
    flags = flags | (if pte & 0x2 != 0 { PageFlags::WRITABLE } else { 0u32 });
    flags = flags | (if pte & 0x4 != 0 { PageFlags::USER_ACCESSIBLE } else { 0u32 });
    flags = flags | (if pte & 0x20 != 0 { PageFlags::ACCESSED } else { 0u32 });
    flags = flags | (if pte & 0x40 != 0 { PageFlags::DIRTY } else { 0u32 });
    flags = flags | (if pte & 0x80 != 0 { PageFlags::HUGE_PAGE } else { 0u32 });
    flags = flags | (if pte & 0x100 != 0 { PageFlags::GLOBAL } else { 0u32 });
    proof {
        let a = if pte & 0x1 != 0 { PageFlags::PRESENT } else { 0u32 };
        assert(0u32 | a == a) by (bit_vector);
    }
    PageFlags(flags)
}

/// Each attribute of `pte_to_page_flags` is set exactly when its bit of
/// the entry is set.
pub proof fn law_page_flags_follow_bits(pte: u64)
    ensures
        (page_flags_of(pte) & PageFlags::PRESENT != 0) == (pte & 0x1 != 0),
        (page_flags_of(pte) & PageFlags::WRITABLE != 0) == (pte & 0x2 != 0),
        (page_flags_of(pte) & PageFlags::USER_ACCESSIBLE != 0) == (pte & 0x4 != 0),
        (page_flags_of(pte) & PageFlags::ACCESSED != 0) == (pte & 0x20 != 0),
        (page_flags_of(pte) & PageFlags::DIRTY != 0) == (pte & 0x40 != 0),
        (page_flags_of(pte) & PageFlags::HUGE_PAGE != 0) == (pte & 0x80 != 0),
        (page_flags_of(pte) & PageFlags::GLOBAL != 0) == (pte & 0x100 != 0),
{
    let p = (if pte & 0x1 != 0 { 1u32 } else { 0u32 });
    let w = (if pte & 0x2 != 0 { 2u32 } else { 0u32 });
    let u = (if pte & 0x4 != 0 { 4u32 } else { 0u32 });
    let a = (if pte & 0x20 != 0 { 8u32 } else { 0u32 });
    let d = (if pte & 0x40 != 0 { 16u32 } else { 0u32 });
    let h = (if pte & 0x80 != 0 { 32u32 } else { 0u32 });
    let g = (if pte & 0x100 != 0 { 64u32 } else { 0u32 });
    assert(page_flags_of(pte) == p | w | u | a | d | h | g);
    assert((p == 1u32 || p == 0u32) && (w == 2u32 || w == 0u32) && (u == 4u32 || u == 0u32) && (a == 8u32 || a == 0u32)
        && (d == 16u32 || d == 0u32) && (h == 32u32 || h == 0u32) && (g == 64u32 || g == 0u32) ==> {
        let x = p | w | u | a | d | h | g;
        &&& (x & 1u32 != 0u32) == (p != 0u32)
        &&& (x & 2u32 != 0u32) == (w != 0u32)
        &&& (x & 4u32 != 0u32) == (u != 0u32)
        &&& (x & 8u32 != 0u32) == (a != 0u32)
        &&& (x & 16u32 != 0u32) == (d != 0u32)
        &&& (x & 32u32 != 0u32) == (h != 0u32)
        &&& (x & 64u32 != 0u32) == (g != 0u32)
    }) by (bit_vector);
}

/// The physical address of a present entry (its bits 12 to 51), `None`
/// for an entry that is not present.
pub fn pte_to_phys(pte: u64) -> (r: Option<PhysBytes>)
    ensures
        r == (if pte & 0x1 == 0 { None } else { Some(PhysBytes(pte & PTE_ADDR_MASK)) }),
{
    if pte & 0x1 == 0 {
        return None;
    }
    Some(PhysBytes(pte & PTE_ADDR_MASK))
}

/// The four table indices of `v`, top level first: bits 39 to 47, 30 to
/// 38, 21 to 29 and 12 to 20.
pub open spec fn index_at(v: u64, shift: u64) -> usize {
    ((v >> shift) & 0x1FF) as usize
}

/// The table indices of `vaddr`, from the top level down.
pub fn vaddr_indices(vaddr: VirBytes) -> (r: [usize; 4])
    ensures
        r@ == seq![index_at(vaddr.0, 39), index_at(vaddr.0, 30), index_at(vaddr.0, 21), index_at(vaddr.0, 12)],
        forall|i: int| 0 <= i < 4 ==> #[trigger] r@[i] < PT_ENTRIES,
{
    let v = vaddr.0;
    proof {
        assert((v >> 39u64) & 0x1FF <= 0x1FF) by (bit_vector);
        assert((v >> 30u64) & 0x1FF <= 0x1FF) by (bit_vector);
        assert((v >> 21u64) & 0x1FF <= 0x1FF) by (bit_vector);
        assert((v >> 12u64) & 0x1FF <= 0x1FF) by (bit_vector);
    }
    let r = [
        ((v >> 39u64) & PT_INDEX_MASK) as usize,
        ((v >> 30u64) & PT_INDEX_MASK) as usize,
        ((v >> 21u64) & PT_INDEX_MASK) as usize,
        ((v >> 12u64) & PT_INDEX_MASK) as usize,
    ];
    assert(r@ =~= seq![index_at(vaddr.0, 39), index_at(vaddr.0, 30), index_at(vaddr.0, 21), index_at(vaddr.0, 12)]);
    r
}

/// One step of a copy: `len` bytes at user address `user_addr`, which is
/// offset `buf_offset` of the kernel buffer. It never crosses a page
/// boundary.
#[derive(Debug, Clone, Copy, PartialEq, Eq, Structural)]
pub struct UserChunk {
    /// User virtual address of the first byte.
    pub user_addr: u64,
    /// Offset of the first byte in the kernel buffer.
    pub buf_offset: usize,
    /// Number of bytes.
    pub len: usize,
}

/// The chunks that copy `remaining` bytes starting at user address `addr`
/// and buffer offset `off`: each runs to the end of its page or to the end
/// of the copy, whichever comes first.
pub open spec fn chunks_spec(addr: int, off: int, remaining: int) -> Seq<UserChunk>
    decreases remaining,
{
    if remaining <= 0 {
        Seq::empty()
    } else {
        let room = 4096 - addr % 4096;
        let c = if remaining < room { remaining } else { room };
        seq![UserChunk { user_addr: addr as u64, buf_offset: off as usize, len: c as usize }]
            + chunks_spec(addr + c, off + c, remaining - c)
    }
}

/// The page-by-page plan of a copy of `len` bytes between user address
/// `user_addr` and a kernel buffer: the caller translates each chunk's
/// user address and copies the chunk, and stops with
/// `UserCopyError::Fault` at the first address that does not translate.
pub fn user_copy_chunks(user_addr: VirBytes, len: usize) -> (r: Vec<UserChunk>)
    requires
        user_addr.0 + len <= u64::MAX,
    ensures
        r@ == chunks_spec(user_addr.0 as int, 0, len as int),
{
    let mut out: Vec<UserChunk> = Vec::new();
    let mut remaining = len;
    let mut src_offset = user_addr.0;
    let mut dst_offset: usize = 0;
    while remaining > 0
        invariant
            src_offset + remaining == user_addr.0 + len,
            dst_offset + remaining == len,
            user_addr.0 + len <= u64::MAX,
            out@ + chunks_spec(src_offset as int, dst_offset as int, remaining as int)
                == chunks_spec(user_addr.0 as int, 0, len as int),
        decreases remaining,
    {
        let page_offset = (src_offset & PAGE_OFFSET_MASK) as usize;
        proof {
            assert(src_offset & 0xFFFu64 == src_offset % 4096) by (bit_vector);
        }
        let room = 0x1000 - page_offset;
        let chunk = if remaining < room { remaining } else { room };
        let ghost rest = chunks_spec((src_offset + chunk) as int, (dst_offset + chunk) as int, (remaining - chunk) as int);
        let item = UserChunk { user_addr: src_offset, buf_offset: dst_offset, len: chunk };
        proof {
            assert(chunks_spec(src_offset as int, dst_offset as int, remaining as int) == seq![item] + rest);
            assert(out@.push(item) + rest =~= out@ + (seq![item] + rest));
        }
        out.push(item);
        src_offset = src_offset + chunk as u64;
        dst_offset = dst_offset + chunk;
        remaining = remaining - chunk;
    }
    assert(out@ + chunks_spec(src_offset as int, dst_offset as int, 0) =~= out@);
    out
}

/// The chunks of a copy tile it: they follow each other in the user
/// address space and in the buffer, none crosses a page boundary, and
/// their lengths add up to the length of the copy.
pub proof fn law_chunks_tile_the_copy(addr: int, off: int, remaining: int)
    requires
        0 <= addr,
        0 <= off,
        0 <= remaining,
        addr + remaining <= u64::MAX,
        off + remaining <= usize::MAX,
    ensures
        ({
            let cs = chunks_spec(addr, off, remaining);
            &&& remaining == 0 <==> cs.len() == 0
            &&& cs.len() > 0 ==> cs[0].user_addr == addr && cs[0].buf_offset == off
            &&& forall|i: int| 0 <= i < cs.len() ==> 0 < #[trigger] cs[i].len
                && cs[i].user_addr % 4096 + cs[i].len <= 4096
            &&& forall|i: int| 0 <= i < cs.len() - 1 ==> #[trigger] cs[i + 1].user_addr == cs[i].user_addr + cs[i].len
                && cs[i + 1].buf_offset == cs[i].buf_offset + cs[i].len
            &&& cs.len() > 0 ==> cs.last().user_addr + cs.last().len == addr + remaining
        }),
    decreases remaining,
{
    if remaining > 0 {
        let room = 4096 - addr % 4096;
        let c = if remaining < room { remaining } else { room };
        law_chunks_tile_the_copy(addr + c, off + c, remaining - c);
        let cs = chunks_spec(addr, off, remaining);
        let rest = chunks_spec(addr + c, off + c, remaining - c);
        assert(cs == seq![UserChunk { user_addr: addr as u64, buf_offset: off as usize, len: c as usize }] + rest);
        assert forall|i: int| 0 <= i < cs.len() - 1 implies #[trigger] cs[i + 1].user_addr == cs[i].user_addr + cs[i].len
            && cs[i + 1].buf_offset == cs[i].buf_offset + cs[i].len by {
            if i > 0 {
                let j = i - 1;
                assert(rest[j + 1].user_addr == rest[j].user_addr + rest[j].len);
                assert(cs[i] == rest[i - 1]);
                assert(cs[i + 1] == rest[i]);
            } else {
                assert(cs[1] == rest[0]);
            }
        }
        assert forall|i: int| 0 <= i < cs.len() implies 0 < #[trigger] cs[i].len && cs[i].user_addr % 4096 + cs[i].len <= 4096 by {
            if i > 0 {
                assert(cs[i] == rest[i - 1]);
            }
        }
    }
}

} // verus!
