//! The arithmetic of a bump allocator for WASM linear memory.
//!
//! Memory grows monotonically and is never freed. The allocator starts at the
//! heap base and asks for more linear memory, in whole pages, on demand. The
//! plan of one allocation is computed here; growing the memory is the
//! caller's part.
use vstd::prelude::*;

verus! {

/// Size of a WASM memory page in bytes (64 KiB).
pub const PAGE_SIZE: usize = 65536;

/// Alignment of raw allocations.
pub const ALIGN: usize = 8;

/// The smallest multiple of `align` that is at least `x`.
pub open spec fn align_up(x: int, align: int) -> int {
    if x % align == 0 {
        x
    } else {
        x + (align - x % align)
    }
}

/// Whole pages that hold `bytes` bytes.
pub open spec fn pages_for(bytes: int) -> int {
    (bytes + PAGE_SIZE - 1) / (PAGE_SIZE as int)
}

/// Where the next allocation starts looking: the cursor, or the heap base
/// before the first allocation (cursor zero).
pub open spec fn start_of(cursor: usize, heap_base: usize) -> int {
    if cursor == 0 {
        heap_base as int
    } else {
        cursor as int
    }
}

/// One planned allocation.
pub struct BumpPlan {
    /// Address of the allocated block.
    pub addr: usize,
    /// First address after the block; the cursor once the plan is committed.
    pub next: usize,
    /// Pages by which linear memory must grow first (zero when it is large
    /// enough).
    pub grow_pages: usize,
}

/// The plan for `size` bytes aligned to `align`, when the cursor is `cursor`
/// and memory has `mem_pages` pages; `None` when the end of the block does
/// not fit in an address.
pub open spec fn bump_plan(
    cursor: usize,
    heap_base: usize,
    size: usize,
    align: usize,
    mem_pages: usize,
) -> Option<BumpPlan> {
    let addr = align_up(start_of(cursor, heap_base), align as int);
    let next = addr + size;
    let mem_bytes = mem_pages * PAGE_SIZE;
    if next > usize::MAX {
        None
    } else if next > mem_bytes {
        Some(BumpPlan { addr: addr as usize, next: next as usize, grow_pages: pages_for(next - mem_bytes) as usize })
    } else {
        Some(BumpPlan { addr: addr as usize, next: next as usize, grow_pages: 0 })
    }
}

/// A bump allocator: a cursor into linear memory, zero before the first
/// allocation.
pub struct BumpAllocator {
    cursor: usize,
}

impl BumpAllocator {
    /// The next free address, or zero before the first allocation.
    pub closed spec fn cursor(&self) -> usize {
        self.cursor
    }

    /// An allocator that has not allocated yet.
    pub fn new() -> (a: BumpAllocator)
        ensures
            a.cursor() == 0,
    {
        BumpAllocator { cursor: 0 }
    }

    /// Whether the start of the next block, aligned to `align`, is still an
    /// address.
    pub fn can_align(&self, heap_base: usize, align: usize) -> (r: bool)
        requires
            align > 0,
        ensures
            r == (align_up(start_of(self.cursor(), heap_base), align as int) <= usize::MAX),
    {
        let current = if self.cursor == 0 {
            heap_base
        } else {
            self.cursor
        };
        let rem = current % align;
        rem == 0 || current <= usize::MAX - (align - rem)
    }

    /// Plans an allocation of `size` bytes aligned to `align` (a power of two,
    /// as every layout's alignment is), in memory of `mem_pages` pages whose
    /// heap starts at `heap_base`.
    ///
    /// Returns `None` when the end of the block overflows the address space.
    pub fn plan(&self, heap_base: usize, size: usize, align: usize, mem_pages: usize) -> (r: Option<BumpPlan>)
        requires
            align > 0,
            align_up(start_of(self.cursor(), heap_base), align as int) <= usize::MAX,
            mem_pages * PAGE_SIZE <= usize::MAX,
        ensures
            r == bump_plan(self.cursor(), heap_base, size, align, mem_pages),
    {
        let current = if self.cursor == 0 {
            heap_base
        } else {
            self.cursor
        };
        let rem = current % align;
        let aligned = if rem == 0 {
            current
        } else {
            current + (align - rem)
        };
        let next = match aligned.checked_add(size) {
            Some(n) => n,
            None => {
                return None;
            },
        };
        let mem_bytes = mem_pages * PAGE_SIZE;
        let grow_pages = if next > mem_bytes {
            let needed = next - mem_bytes;
            let pages = needed / PAGE_SIZE + if needed % PAGE_SIZE == 0 { 0 } else { 1 };
            assert(pages == pages_for(needed as int));
            pages
        } else {
            0
        };
        Some(BumpPlan { addr: aligned, next, grow_pages })
    }

    /// Records a planned allocation as made: the cursor moves past its block.
    pub fn commit(&mut self, plan: &BumpPlan)
        ensures
            final(self).cursor() == plan.next,
    {
        self.cursor = plan.next;
    }
}

/// Every planned block is aligned, starts at or after the cursor (or the heap
/// base before the first allocation), ends `size` bytes later, and lies inside
/// memory once it has grown by the planned pages.
pub proof fn lemma_plan_block(cursor: usize, heap_base: usize, size: usize, align: usize, mem_pages: usize)
    requires
        align > 0,
        bump_plan(cursor, heap_base, size, align, mem_pages) is Some,
    ensures
        ({
            let p = bump_plan(cursor, heap_base, size, align, mem_pages).unwrap();
            &&& p.addr % align == 0
            &&& start_of(cursor, heap_base) <= p.addr
            &&& p.next == p.addr + size
            &&& p.next <= mem_pages * PAGE_SIZE + p.grow_pages * PAGE_SIZE
        }),
{
    let p = bump_plan(cursor, heap_base, size, align, mem_pages).unwrap();
    let x = start_of(cursor, heap_base);
    let a = align as int;
    let addr = align_up(x, a);
    assert(addr % a == 0) by (nonlinear_arith)
        requires
            a > 0,
            addr == (if x % a == 0 { x } else { x + (a - x % a) }),
    {
        if x % a != 0 {
            assert(x == a * (x / a) + x % a);
            assert(addr == a * (x / a) + a);
            assert(addr == a * (x / a + 1));
        }
    }
    let mem_bytes = mem_pages * PAGE_SIZE;
    let next = addr + size;
    if next > mem_bytes {
        let needed = next - mem_bytes;
        assert(needed <= pages_for(needed) * PAGE_SIZE) by (nonlinear_arith)
            requires
                needed > 0,
        {
        }
    }
}

/// A plan takes the first aligned address at or after the start, and asks for
/// no more pages than the block needs: none when it fits, otherwise the fewest
/// whole pages that hold its end. A plan exists exactly when the block's end is
/// an address.
pub proof fn lemma_plan_tight(cursor: usize, heap_base: usize, size: usize, align: usize, mem_pages: usize)
    requires
        align > 0,
    ensures
        ({
            let x = start_of(cursor, heap_base);
            let addr = align_up(x, align as int);
            &&& x <= addr < x + align
            &&& addr % (align as int) == 0
            &&& bump_plan(cursor, heap_base, size, align, mem_pages) is Some <==> addr + size <= usize::MAX
        }),
        bump_plan(cursor, heap_base, size, align, mem_pages) is Some ==> ({
            let p = bump_plan(cursor, heap_base, size, align, mem_pages).unwrap();
            let mem_bytes = mem_pages * PAGE_SIZE;
            &&& p.next <= mem_bytes ==> p.grow_pages == 0
            &&& p.next > mem_bytes ==> p.grow_pages > 0 && (p.grow_pages - 1) * PAGE_SIZE < p.next - mem_bytes
                && p.next - mem_bytes <= p.grow_pages * PAGE_SIZE
        }),
{
    let x = start_of(cursor, heap_base);
    let a = align as int;
    let addr = align_up(x, a);
    assert(x <= addr < x + a && addr % a == 0) by (nonlinear_arith)
        requires
            a > 0,
            x >= 0,
            addr == (if x % a == 0 { x } else { x + (a - x % a) }),
    {
        if x % a != 0 {
            assert(x == a * (x / a) + x % a);
            assert(addr == a * (x / a + 1));
        }
    }
    if bump_plan(cursor, heap_base, size, align, mem_pages) is Some {
        let mem_bytes = mem_pages * PAGE_SIZE;
        let next = addr + size;
        if next > mem_bytes {
            let needed = next - mem_bytes;
            let g = pages_for(needed);
            assert(g > 0 && (g - 1) * 65536 < needed && needed <= g * 65536) by (nonlinear_arith)
                requires
                    needed > 0,
                    g == (needed + 65536 - 1) / 65536,
            {
            }
            assert(g <= usize::MAX) by (nonlinear_arith)
                requires
                    needed > 0,
                    needed <= usize::MAX,
                    g == (needed + 65536 - 1) / 65536,
            {
            }
        }
    }
}

/// Blocks of successive allocations do not overlap: after a plan is
/// committed, the next plan's block starts at or after the end of the first.
pub proof fn lemma_successive_blocks_disjoint(
    cursor: usize,
    heap_base: usize,
    size1: usize,
    align1: usize,
    pages1: usize,
    size2: usize,
    align2: usize,
    pages2: usize,
)
    requires
        align1 > 0,
        align2 > 0,
        bump_plan(cursor, heap_base, size1, align1, pages1) is Some,
        bump_plan(bump_plan(cursor, heap_base, size1, align1, pages1).unwrap().next, heap_base, size2, align2, pages2) is Some,
    ensures
        bump_plan(cursor, heap_base, size1, align1, pages1).unwrap().addr + size1
            <= bump_plan(bump_plan(cursor, heap_base, size1, align1, pages1).unwrap().next, heap_base, size2, align2, pages2).unwrap().addr,
{
    let first = bump_plan(cursor, heap_base, size1, align1, pages1).unwrap();
    lemma_plan_block(cursor, heap_base, size1, align1, pages1);
    lemma_plan_block(first.next, heap_base, size2, align2, pages2);
}

} // verus!
