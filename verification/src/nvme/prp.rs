//! Physical region pages, which tell a controller where data is.

use crate::error::{Errno, Result, EIO, ENOMEM};
use crate::nvme::NvmeCommand;
use vstd::prelude::*;

verus! {

/// Size of a page of the controller.
pub const NVME_CTRL_PAGE_SIZE: u32 = 4096;

/// Number of entries of a list of pages.
pub const PRP_LIST_LEN: usize = 512;

/// Memory that the device can reach.
#[derive(Debug, Clone, Copy, PartialEq, Eq, Structural)]
pub struct DmaSegment {
    /// First address.
    pub address: u64,
    /// Number of bytes.
    pub length: u32,
}

/// The memory of a request, and the segment at which an iteration is.
pub struct DmaSegments {
    /// The segments.
    pub segments: Vec<DmaSegment>,
    /// Number of the current segment.
    pub position: usize,
}

impl DmaSegments {
    /// There is a current segment, and no segment exceeds the address space.
    pub open spec fn inv(&self) -> bool {
        &&& self.position < self.segments@.len()
        &&& segments_ok(self.segments@)
    }

    /// Address of the current segment.
    pub fn address(&self) -> (r: u64)
        requires
            self.inv(),
        ensures
            r == self.segments@[self.position as int].address,
    {
        self.segments[self.position].address
    }

    /// Length of the current segment.
    pub fn length(&self) -> (r: u32)
        requires
            self.inv(),
        ensures
            r == self.segments@[self.position as int].length,
    {
        self.segments[self.position].length
    }

    /// Goes to the next segment.
    pub fn next(&mut self)
        requires
            old(self).inv(),
            old(self).position + 1 < old(self).segments@.len(),
        ensures
            final(self).position == old(self).position + 1,
            final(self).segments == old(self).segments,
            final(self).inv(),
    {
        assert(self.position + 1 < self.segments.len());
        self.position = self.position + 1;
    }
}

/// No segment exceeds the address space.
pub open spec fn segments_ok(segments: Seq<DmaSegment>) -> bool {
    forall|i: int|
        0 <= i < segments.len() ==> (#[trigger] segments[i]).address + segments[i].length
            <= u64::MAX
}

/// A list of pages.
pub struct PrpList {
    /// Where the driver finds the list.
    pub page: usize,
    /// Where the device finds the list.
    pub dma: u64,
    /// The entries.
    pub entries: Vec<u64>,
}

/// A source of lists.
pub struct DmaPool {
    /// The lists that can be allocated, the next one last.
    pub lists: Vec<PrpList>,
    /// The lists that were given back, as the driver and the device find them.
    pub freed: Vec<(usize, u64)>,
}

impl DmaPool {
    /// All lists have the right length.
    pub open spec fn inv(&self) -> bool {
        lists_ok(self.lists@)
    }

    /// Allocates a list.
    pub fn try_alloc(&mut self) -> (r: Result<PrpList>)
        requires
            old(self).inv(),
        ensures
            final(self).inv(),
            final(self).freed == old(self).freed,
            match r {
                Ok(list) => {
                    &&& old(self).lists@.len() > 0
                    &&& list == old(self).lists@.last()
                    &&& final(self).lists@ == old(self).lists@.drop_last()
                    &&& list.entries@.len() == PRP_LIST_LEN
                },
                Err(e) => {
                    &&& old(self).lists@.len() == 0
                    &&& final(self).lists@ == old(self).lists@
                    &&& e == Errno(ENOMEM)
                },
            },
    {
        match self.lists.pop() {
            Some(list) => Ok(list),
            None => Err(Errno(ENOMEM)),
        }
    }
}

/// All lists have the right length.
pub open spec fn lists_ok(lists: Seq<PrpList>) -> bool {
    forall|i: int| 0 <= i < lists.len() ==> (#[trigger] lists[i]).entries@.len() == PRP_LIST_LEN
}

/// The lists as the driver and the device find them.
pub open spec fn handles(lists: Seq<PrpList>) -> Seq<(usize, u64)> {
    Seq::new(lists.len(), |i: int| (lists[i].page, lists[i].dma))
}

/// The lists in the order in which a pool hands them out.
pub open spec fn handed_out(pool: Seq<PrpList>, n: int) -> Seq<(usize, u64)> {
    Seq::new(n as nat, |i: int| (pool[pool.len() - 1 - i].page, pool[pool.len() - 1 - i].dma))
}

/// The lists that are found by following the last entry of each list.
pub open spec fn followed(
    pages: Seq<usize>,
    first_dma: u64,
    lists: Seq<PrpList>,
    count: int,
) -> Seq<(usize, u64)> {
    Seq::new(
        count as nat,
        |i: int|
            (
                pages[i],
                if i == 0 {
                    first_dma
                } else {
                    lists[i - 1].entries@[511]
                },
            ),
    )
}

/// Gives lists back. Where the device finds a list is the last entry of the list before it.
pub fn free_prps(
    count: usize,
    pages: &Vec<usize>,
    first_dma: u64,
    lists: &Vec<PrpList>,
    pool: &mut DmaPool,
)
    requires
        count <= pages@.len(),
        count <= lists@.len(),
        lists_ok(lists@),
        forall|i: int| 0 <= i < count ==> #[trigger] lists@[i].page == pages@[i],
    ensures
        final(pool).lists == old(pool).lists,
        final(pool).freed@ == old(pool).freed@ + followed(
            pages@,
            first_dma,
            lists@,
            count as int,
        ),
{
    let mut dma_addr: u64 = first_dma;
    let mut i: usize = 0;
    assert(pool.freed@ =~= old(pool).freed@ + followed(pages@, first_dma, lists@, 0));
    while i < count
        invariant
            i <= count <= pages@.len(),
            count <= lists@.len(),
            lists_ok(lists@),
            pool.lists == old(pool).lists,
            dma_addr == (if i == 0 {
                first_dma
            } else {
                lists@[i - 1].entries@[511]
            }),
            pool.freed@ =~= old(pool).freed@ + followed(pages@, first_dma, lists@, i as int),
        decreases count - i,
    {
        pool.freed.push((pages[i], dma_addr));
        dma_addr = lists[i].entries[PRP_LIST_LEN - 1];
        i += 1;
    }
}

/// How the walk over the segments ends.
pub enum WalkEnd {
    /// All data is described, and this is the current segment.
    Done(int),
    /// A segment ends within a page.
    Broken,
    /// There are fewer segments than data.
    Short,
}

/// The pages of the data after the first page: their addresses, the segments they are in, and how the
/// walk ends.
pub struct Walk {
    /// The addresses.
    pub addrs: Seq<u64>,
    /// For each address the number of its segment.
    pub positions: Seq<int>,
    /// How the walk ends.
    pub end: WalkEnd,
}

/// The pages that describe `length` bytes from `addr` on, where `len` bytes of the current segment
/// are left.
pub open spec fn walk(
    segments: Seq<DmaSegment>,
    position: int,
    addr: int,
    len: int,
    length: int,
) -> Walk
    decreases length,
{
    let here = seq![addr as u64];
    let at = seq![position];
    if length <= NVME_CTRL_PAGE_SIZE {
        Walk { addrs: here, positions: at, end: WalkEnd::Done(position) }
    } else if len > NVME_CTRL_PAGE_SIZE {
        let rest = walk(segments, position, addr + 4096, len - 4096, length - 4096);
        Walk { addrs: here + rest.addrs, positions: at + rest.positions, end: rest.end }
    } else if len < NVME_CTRL_PAGE_SIZE {
        Walk { addrs: here, positions: at, end: WalkEnd::Broken }
    } else if position + 1 >= segments.len() {
        Walk { addrs: here, positions: at, end: WalkEnd::Short }
    } else {
        let next = segments[position + 1];
        let rest = walk(
            segments,
            position + 1,
            next.address as int,
            next.length as int,
            length - 4096,
        );
        Walk { addrs: here + rest.addrs, positions: at + rest.positions, end: rest.end }
    }
}

/// Number of bytes from an address to the end of its page.
pub open spec fn to_page_end(addr: u64) -> int {
    4096 - addr % 4096
}

/// What is left of the data after its first page.
pub open spec fn after_first(addr: u64, length: int) -> int {
    if length <= to_page_end(addr) {
        0
    } else {
        length - to_page_end(addr)
    }
}

/// Where the data after its first page is: the number of the segment, the address, and the number
/// of bytes that are left in the segment.
pub open spec fn second_page(segments: Seq<DmaSegment>, position: int) -> (int, int, int) {
    let first = segments[position];
    let consumed = to_page_end(first.address);
    if first.length > consumed {
        (position, first.address + consumed, first.length - consumed)
    } else {
        let next = segments[position + 1];
        (position + 1, next.address as int, next.length as int)
    }
}

/// The pages of the data after its first page.
pub open spec fn list_walk(segments: Seq<DmaSegment>, position: int, length: int) -> Walk {
    let (next, addr, len) = second_page(segments, position);
    walk(segments, next, addr, len, after_first(segments[position].address, length))
}

/// The pages of the data after its first page are in a list.
pub open spec fn needs_list(segments: Seq<DmaSegment>, position: int, length: int) -> bool {
    after_first(segments[position].address, length) > NVME_CTRL_PAGE_SIZE
}

/// There are enough segments for the data.
pub open spec fn long_enough(segments: Seq<DmaSegment>, position: int, length: int) -> bool {
    let first = segments[position];
    &&& after_first(first.address, length) > 0 && first.length <= to_page_end(first.address)
        ==> position + 1 < segments.len()
    &&& needs_list(segments, position, length) ==> !(list_walk(segments, position, length).end
        is Short)
}

/// Number of lists for a number of addresses: all lists but the last hold 511 of them.
pub open spec fn lists_needed(n: int) -> int {
    if n <= 512 {
        1
    } else {
        (n - 512 + 510) / 511 + 1
    }
}

/// Number of addresses that a number of lists can hold.
pub open spec fn lists_capacity(n: int) -> int {
    if n == 0 {
        0
    } else {
        511 * n + 1
    }
}

/// The pages of the first lists are noted in `pages`, and the rest of it is as it was.
pub open spec fn noted(before: Seq<usize>, pages: Seq<usize>, lists: Seq<(usize, u64)>) -> bool {
    &&& pages.len() == before.len()
    &&& lists.len() <= pages.len()
    &&& forall|i: int| 0 <= i < lists.len() ==> #[trigger] pages[i] == lists[i].0
    &&& forall|i: int| lists.len() <= i < pages.len() ==> #[trigger] pages[i] == before[i]
}

/// The lists hold the addresses: the last entry of a list leads to the next list.
pub open spec fn chained(lists: Seq<PrpList>, addrs: Seq<u64>) -> bool {
    let last = lists.len() - 1;
    &&& last >= 0
    &&& lists_ok(lists)
    &&& 511 * last <= addrs.len() <= 511 * last + 512
    &&& forall|m: int|
        0 <= m < last ==> (#[trigger] lists[m]).entries@[511] == lists[m + 1].dma
    &&& forall|m: int, t: int|
        0 <= m <= last && 0 <= t < 512 && (m < last ==> t < 511) && 511 * m + t < addrs.len()
            ==> #[trigger] lists[m].entries@[t] == addrs[511 * m + t]
}

/// The addresses that a device reads from list number `m` on, where `n` are left: all entries of
/// the last list, and all entries but the last one of the others.
pub open spec fn read_chain(lists: Seq<PrpList>, m: int, n: int) -> Seq<u64>
    decreases n,
{
    if n <= 512 {
        lists[m].entries@.take(n)
    } else {
        lists[m].entries@.take(511) + read_chain(lists, m + 1, n - 511)
    }
}

/// A device that reads the lists finds the addresses.
pub proof fn lemma_read_chain(lists: Seq<PrpList>, addrs: Seq<u64>)
    requires
        chained(lists, addrs),
        lists.len() == lists_needed(addrs.len() as int),
        addrs.len() > 0,
    ensures
        read_chain(lists, 0, addrs.len() as int) == addrs,
{
    lemma_read_chain_from(lists, addrs, 0);
    assert(addrs.skip(0) =~= addrs);
}

proof fn lemma_read_chain_from(lists: Seq<PrpList>, addrs: Seq<u64>, m: int)
    requires
        chained(lists, addrs),
        lists.len() == lists_needed(addrs.len() as int),
        0 <= m < lists.len(),
        511 * m < addrs.len(),
    ensures
        read_chain(lists, m, addrs.len() - 511 * m) == addrs.skip(511 * m),
    decreases lists.len() - m,
{
    let n = addrs.len() - 511 * m;
    let list = lists[m].entries@;
    if n <= 512 {
        assert(m == lists.len() - 1);
        assert forall|t: int| 0 <= t < n implies #[trigger] list[t] == addrs.skip(511 * m)[t] by {
            assert(lists[m].entries@[t] == addrs[511 * m + t]);
        }
        assert(list.take(n) =~= addrs.skip(511 * m));
    } else {
        assert(m < lists.len() - 1);
        lemma_read_chain_from(lists, addrs, m + 1);
        assert forall|t: int| 0 <= t < 511 implies #[trigger] list[t] == addrs.skip(511 * m)[t] by {
            assert(lists[m].entries@[t] == addrs[511 * m + t]);
        }
        assert(list.take(511) + addrs.skip(511 * (m + 1)) =~= addrs.skip(511 * m));
    }
}

/// Giving back the lists that hold the pages of a request gives back each of them as it was
/// allocated.
pub proof fn lemma_free_returns(lists: Seq<PrpList>, addrs: Seq<u64>, pages: Seq<usize>)
    requires
        chained(lists, addrs),
        lists.len() <= pages.len(),
        forall|i: int| 0 <= i < lists.len() ==> #[trigger] lists[i].page == pages[i],
    ensures
        followed(pages, lists[0].dma, lists, lists.len() as int) == handles(lists),
{
    let a = followed(pages, lists[0].dma, lists, lists.len() as int);
    let b = handles(lists);
    assert forall|i: int| 0 <= i < lists.len() implies a[i] == b[i] by {
        assert(lists[i].page == pages[i]);
        if i > 0 {
            assert(lists[i - 1].entries@[511] == lists[i].dma);
        }
    }
    assert(a =~= b);
}

/// Describes the data of a request in a command: its first page, and either its second page or
/// lists that hold the other pages. Returns these lists, with their addresses in `pages`; where
/// that fails all lists are given back.
#[verifier::rlimit(80)]
#[verifier::spinoff_prover]
pub fn setup_prps(
    pool: &mut DmaPool,
    cmd: &mut NvmeCommand,
    segments: &mut DmaSegments,
    pages: &mut Vec<usize>,
    length: u32,
) -> (r: Result<Vec<PrpList>>)
    requires
        old(pool).inv(),
        old(segments).inv(),
        long_enough(old(segments).segments@, old(segments).position as int, length as int),
        needs_list(old(segments).segments@, old(segments).position as int, length as int)
            ==> lists_needed(
            list_walk(
                old(segments).segments@,
                old(segments).position as int,
                length as int,
            ).addrs.len() as int,
        ) <= old(pages)@.len() || old(pool).lists@.len() <= old(pages)@.len(),
    ensures
        final(pool).inv(),
        final(segments).inv(),
        final(segments).segments@ == old(segments).segments@,
        final(pages)@.len() == old(pages)@.len(),
        *final(cmd) == (NvmeCommand {
            prp1: old(segments).segments@[old(segments).position as int].address,
            prp2: final(cmd).prp2,
            ..*old(cmd)
        }),
        ({
            let all = old(segments).segments@;
            let at = old(segments).position as int;
            let rest = after_first(all[at].address, length as int);
            let (next, addr, _) = second_page(all, at);
            let plan = list_walk(all, at, length as int);
            let needed = lists_needed(plan.addrs.len() as int);
            if rest <= NVME_CTRL_PAGE_SIZE {
                &&& r matches Ok(lists)
                &&& lists@.len() == 0
                &&& *final(pool) == *old(pool)
                &&& final(pages)@ == old(pages)@
                &&& final(cmd).prp2 == (if rest == 0 {
                    old(cmd).prp2
                } else {
                    addr as u64
                })
                &&& final(segments).position == (if rest == 0 {
                    at
                } else {
                    next
                })
            } else if needed > old(pool).lists@.len() {
                let size = old(pool).lists@.len() as int;
                let taken = handed_out(old(pool).lists@, size);
                &&& r == Err::<Vec<PrpList>, Errno>(Errno(ENOMEM))
                &&& final(pool).lists@.len() == 0
                &&& final(pool).freed@ == old(pool).freed@ + taken
                &&& final(cmd).prp2 == (if size == 0 {
                    old(cmd).prp2
                } else {
                    taken[0].1
                })
                &&& noted(old(pages)@, final(pages)@, taken)
                &&& final(segments).position == plan.positions[lists_capacity(size)]
            } else {
                let taken = handed_out(old(pool).lists@, needed);
                &&& final(pool).lists@ == old(pool).lists@.take(
                    old(pool).lists@.len() - needed,
                )
                &&& final(cmd).prp2 == taken[0].1
                &&& noted(old(pages)@, final(pages)@, taken)
                &&& final(segments).position == plan.positions.last()
                &&& if plan.end is Broken {
                    &&& r == Err::<Vec<PrpList>, Errno>(Errno(EIO))
                    &&& final(pool).freed@ == old(pool).freed@ + taken
                } else {
                    &&& r matches Ok(lists)
                    &&& lists@.len() == needed
                    &&& handles(lists@) == taken
                    &&& chained(lists@, plan.addrs)
                    &&& final(pool).freed@ == old(pool).freed@
                    &&& final(cmd).prp2 == lists@[0].dma
                    &&& WalkEnd::Done(final(segments).position as int) == plan.end
                    &&& forall|i: int|
                        0 <= i < needed ==> #[trigger] final(pages)@[i] == lists@[i].page
                    &&& forall|i: int|
                        needed <= i < old(pages)@.len() ==> #[trigger] final(pages)@[i] == old(
                            pages,
                        )@[i]
                }
            }
        }),
{
    let ghost all = segments.segments@;
    let ghost at = segments.position as int;
    let ghost total = length as int;
    let ghost plan = list_walk(all, at, total);
    let ghost needed = lists_needed(plan.addrs.len() as int);
    let mut left: u32 = length;
    let mut segment_addr: u64 = segments.address();
    let mut segment_len: u32 = segments.length();
    let offset: u64 = segment_addr & ((NVME_CTRL_PAGE_SIZE - 1) as u64);
    assert(segment_addr & 4095 == segment_addr % 4096) by (bit_vector);
    let consumed: u32 = (NVME_CTRL_PAGE_SIZE as u64 - offset) as u32;
    assert(consumed == to_page_end(all[at].address));
    cmd.prp1 = segment_addr;
    left = left.saturating_sub(consumed);
    if left == 0 {
        return Ok(Vec::new());
    }
    segment_len = segment_len.saturating_sub(consumed);
    if segment_len != 0 {
        segment_addr = segment_addr + consumed as u64;
    } else {
        segments.next();
        segment_addr = segments.address();
        segment_len = segments.length();
    }
    assert(left == after_first(all[at].address, total));
    assert(segments.position == second_page(all, at).0);
    assert(segment_addr == second_page(all, at).1);
    assert(segment_len == second_page(all, at).2);
    proof {
        let w = walk(all, segments.position as int, segment_addr as int, segment_len as int, left as int);
        assert(w.positions.len() >= 1 && w.positions[0] == segments.position);
    }
    if left <= NVME_CTRL_PAGE_SIZE {
        cmd.prp2 = segment_addr;
        return Ok(Vec::new());
    }
    let mut prp_list = match pool.try_alloc() {
        Ok(list) => list,
        Err(e) => {
            assert(pool.freed@ =~= old(pool).freed@ + handed_out(old(pool).lists@, 0));
            return Err(e);
        },
    };
    let first_dma: u64 = prp_list.dma;
    cmd.prp2 = first_dma;
    let mut lists: Vec<PrpList> = Vec::new();
    pages.set(0, prp_list.page);
    let mut page_count: usize = 1;
    let mut j: usize = 0;
    let mut last_dma_addr: u64 = 0;
    let ghost mut written: Seq<u64> = Seq::empty();
    let ghost mut visited: Seq<int> = Seq::empty();
    let ghost size = old(pool).lists@.len() as int;
    proof {
        assert(lists@.push(prp_list) =~= seq![prp_list]);
        assert(written + plan.addrs =~= plan.addrs);
        assert(visited + plan.positions =~= plan.positions);
        assert(pool.lists@ =~= old(pool).lists@.take(size - 1));
        assert(handles(lists@.push(prp_list)) =~= handed_out(old(pool).lists@, 1));
    }
    loop
        invariant_except_break
            left > 0,
            segment_addr + segment_len <= u64::MAX,
            plan.addrs == written + walk(
                all,
                segments.position as int,
                segment_addr as int,
                segment_len as int,
                left as int,
            ).addrs,
            plan.positions == visited + walk(
                all,
                segments.position as int,
                segment_addr as int,
                segment_len as int,
                left as int,
            ).positions,
            plan.end == walk(
                all,
                segments.position as int,
                segment_addr as int,
                segment_len as int,
                left as int,
            ).end,
            visited.len() == written.len(),
        invariant
            pool.inv(),
            segments.inv(),
            total == length,
            all == old(segments).segments@,
            at == old(segments).position,
            0 <= at < all.len(),
            plan == list_walk(all, at, total),
            after_first(all[at].address, total) > NVME_CTRL_PAGE_SIZE,
            segments.segments@ == all,
            pages@.len() == old(pages)@.len(),
            needed <= pages@.len() || size <= pages@.len(),
            !(plan.end is Short),
            needed == lists_needed(plan.addrs.len() as int),
            size == old(pool).lists@.len(),
            1 <= page_count == lists@.len() + 1 <= size,
            page_count <= needed,
            j <= 512,
            written.len() == 511 * (page_count - 1) + j,
            written.len() > 0 ==> last_dma_addr == written.last(),
            page_count > 1 ==> j > 1,
            chained(lists@.push(prp_list), written),
            handles(lists@.push(prp_list)) == handed_out(old(pool).lists@, page_count as int),
            pool.lists@ == old(pool).lists@.take(size - page_count),
            pool.freed@ == old(pool).freed@,
            first_dma == lists@.push(prp_list)[0].dma,
            *cmd == (NvmeCommand { prp1: all[at].address, prp2: first_dma, ..*old(cmd) }),
            page_count <= pages@.len(),
            forall|i: int|
                0 <= i < page_count ==> #[trigger] pages@[i] == lists@.push(prp_list)[i].page,
            forall|i: int|
                page_count <= i < old(pages)@.len() ==> #[trigger] pages@[i] == old(pages)@[i],
        ensures
            written == plan.addrs,
            plan.positions.last() == segments.position,
            plan.end == WalkEnd::Done(segments.position as int),
            page_count == needed,
        decreases left,
    {
        let ghost current = walk(
            all,
            segments.position as int,
            segment_addr as int,
            segment_len as int,
            left as int,
        );
        assert(current.addrs.len() >= 1 && current.addrs[0] == segment_addr);
        assert(current.positions.len() >= 1 && current.positions[0] == segments.position);
        assert(plan.positions[visited.len() as int] == segments.position);
        assert(lists@.push(prp_list)[page_count - 1] == prp_list);
        if j == PRP_LIST_LEN {
            let ghost old_lists = lists@.push(prp_list);
            let mut new_list = match pool.try_alloc() {
                Ok(list) => list,
                Err(e) => {
                    lists.push(prp_list);
                    assert(page_count == size);
                    proof {
                        lemma_free_returns(lists@, written, pages@);
                    }
                    free_prps(page_count, pages, first_dma, &lists, pool);
                    return Err(e);
                },
            };
            prp_list.entries.set(PRP_LIST_LEN - 1, new_list.dma);
            new_list.entries.set(0, last_dma_addr);
            pages.set(page_count, new_list.page);
            lists.push(prp_list);
            prp_list = new_list;
            assert(page_count < pages.len());
            page_count += 1;
            j = 1;
            proof {
                let new_lists = lists@.push(prp_list);
                assert forall|m: int| 0 <= m < new_lists.len() implies (
                #[trigger] new_lists[m]).entries@.len() == PRP_LIST_LEN by {
                    if m < old_lists.len() - 1 {
                        assert(new_lists[m] == old_lists[m]);
                    }
                }
                lemma_extended(old_lists, new_lists, written);
                let taken = handed_out(old(pool).lists@, page_count as int);
                assert forall|i: int| 0 <= i < page_count implies #[trigger] handles(new_lists)[i]
                    == taken[i] by {
                    if i < page_count - 1 {
                        assert(handles(old_lists)[i] == taken[i]);
                    }
                }
                assert(handles(new_lists) =~= taken);
                assert(pool.lists@ =~= old(pool).lists@.take(size - page_count));
            }
        }
        last_dma_addr = segment_addr;
        let ghost before = lists@.push(prp_list);
        prp_list.entries.set(j, segment_addr);
        j += 1;
        proof {
            let old_written = written;
            written = written.push(segment_addr);
            visited = visited.push(segments.position as int);
            let now = lists@.push(prp_list);
            lemma_entry_written(before, now, old_written, segment_addr);
            assert(handles(now) =~= handles(before));
        }
        left = left.saturating_sub(NVME_CTRL_PAGE_SIZE);
        if left == 0 {
            proof {
                assert(written =~= plan.addrs);
                assert(plan.positions =~= visited);
            }
            break;
        }
        let ghost here = seq![segment_addr];
        let ghost from = seq![segments.position as int];
        if segment_len > NVME_CTRL_PAGE_SIZE {
            segment_addr = segment_addr + NVME_CTRL_PAGE_SIZE as u64;
            segment_len = segment_len - NVME_CTRL_PAGE_SIZE;
        } else {
            if segment_len < NVME_CTRL_PAGE_SIZE {
                lists.push(prp_list);
                proof {
                    assert(written =~= plan.addrs);
                    assert(plan.positions =~= visited);
                    lemma_free_returns(lists@, written, pages@);
                }
                free_prps(page_count, pages, first_dma, &lists, pool);
                return Err(Errno(EIO));
            }
            segments.next();
            segment_addr = segments.address();
            segment_len = segments.length();
        }
        proof {
            let next = walk(
                all,
                segments.position as int,
                segment_addr as int,
                segment_len as int,
                left as int,
            );
            assert(current.addrs == here + next.addrs);
            assert(written + next.addrs =~= plan.addrs);
            assert(current.positions == from + next.positions);
            assert(visited + next.positions =~= plan.positions);
        }
    }
    lists.push(prp_list);
    Ok(lists)
}

/// A further list keeps what the lists hold.
proof fn lemma_extended(before: Seq<PrpList>, now: Seq<PrpList>, addrs: Seq<u64>)
    requires
        chained(before, addrs),
        addrs.len() == 511 * (before.len() - 1) + 512,
        lists_ok(now),
        now.len() == before.len() + 1,
        forall|m: int| 0 <= m < before.len() - 1 ==> #[trigger] now[m] == before[m],
        ({
            let last = before.len() - 1;
            &&& now[last].dma == before[last].dma
            &&& now[last].entries@ == before[last].entries@.update(511, now[last + 1].dma)
            &&& now[last + 1].entries@[0] == addrs.last()
        }),
    ensures
        chained(now, addrs),
{
    let last = before.len() - 1;
    assert forall|m: int| 0 <= m < now.len() - 1 implies (#[trigger] now[m]).entries@[511] == now[m
        + 1].dma by {
        if m < last {
            assert(before[m].entries@[511] == before[m + 1].dma);
            if m + 1 < last {
                assert(now[m + 1] == before[m + 1]);
            }
        }
    }
    assert forall|m: int, t: int|
        0 <= m <= now.len() - 1 && 0 <= t < 512 && (m < now.len() - 1 ==> t < 511) && 511 * m + t
            < addrs.len() implies #[trigger] now[m].entries@[t] == addrs[511 * m + t] by {
        if m <= last {
            assert(before[m].entries@[t] == addrs[511 * m + t]);
        } else {
            assert(t == 0);
        }
    }
}

/// A further entry of the last list keeps what the lists hold.
proof fn lemma_entry_written(before: Seq<PrpList>, now: Seq<PrpList>, addrs: Seq<u64>, addr: u64)
    requires
        chained(before, addrs),
        addrs.len() < 511 * (before.len() - 1) + 512,
        now.len() == before.len(),
        forall|m: int| 0 <= m < before.len() - 1 ==> #[trigger] now[m] == before[m],
        now.last().page == before.last().page,
        now.last().dma == before.last().dma,
        now.last().entries@ == before.last().entries@.update(
            addrs.len() - 511 * (before.len() - 1),
            addr,
        ),
    ensures
        chained(now, addrs.push(addr)),
{
    let last = before.len() - 1;
    let longer = addrs.push(addr);
    assert forall|m: int| 0 <= m < now.len() implies (#[trigger] now[m]).entries@.len()
        == PRP_LIST_LEN by {
        assert(before[m].entries@.len() == PRP_LIST_LEN);
    }
    assert forall|m: int| 0 <= m < last implies (#[trigger] now[m]).entries@[511] == now[m
        + 1].dma by {
        assert(before[m].entries@[511] == before[m + 1].dma);
        if m + 1 < last {
            assert(now[m + 1] == before[m + 1]);
        }
    }
    assert forall|m: int, t: int|
        0 <= m <= last && 0 <= t < 512 && (m < last ==> t < 511) && 511 * m + t
            < longer.len() implies #[trigger] now[m].entries@[t] == longer[511 * m + t] by {
        if 511 * m + t < addrs.len() {
            assert(before[m].entries@[t] == addrs[511 * m + t]);
        }
    }
}

/// The address of byte number `k` of the data, where `len` bytes of the current segment are left
/// at `addr`.
pub open spec fn byte_address(
    segments: Seq<DmaSegment>,
    position: int,
    addr: int,
    len: int,
    k: int,
) -> int
    decreases segments.len() - position,
{
    if k < len || position + 1 >= segments.len() {
        addr + k
    } else {
        let next = segments[position + 1];
        byte_address(
            segments,
            position + 1,
            next.address as int,
            next.length as int,
            k - len,
        )
    }
}

/// Number of bytes of the data, where `len` bytes of the current segment are left.
pub open spec fn bytes_left(segments: Seq<DmaSegment>, position: int, len: int) -> int
    decreases segments.len() - position,
{
    if position + 1 >= segments.len() {
        len
    } else {
        len + bytes_left(segments, position + 1, segments[position + 1].length as int)
    }
}

/// Segments that follow each other meet at the end of a page.
pub open spec fn meet_at_pages(segments: Seq<DmaSegment>) -> bool {
    forall|i: int|
        0 <= i < segments.len() ==> (#[trigger] segments[i]).length > 0 && (i > 0
            ==> segments[i].address % 4096 == 0) && (i < segments.len() - 1 ==> (
        segments[i].address + segments[i].length) % 4096 == 0)
}

/// The address at which a device finds byte number `k` of the data of a command.
pub open spec fn described_address(
    segments: Seq<DmaSegment>,
    position: int,
    length: int,
    k: int,
) -> int {
    let first = segments[position].address;
    let rest = k - to_page_end(first);
    if rest < 0 {
        first + k
    } else if !needs_list(segments, position, length) {
        second_page(segments, position).1 + rest
    } else {
        list_walk(segments, position, length).addrs[rest / 4096] + rest % 4096
    }
}

proof fn lemma_walk_covers(
    segments: Seq<DmaSegment>,
    position: int,
    addr: int,
    len: int,
    length: int,
    k: int,
)
    requires
        segments_ok(segments),
        meet_at_pages(segments),
        0 <= position < segments.len(),
        0 <= addr && 0 < len && addr + len <= u64::MAX,
        position < segments.len() - 1 ==> len % 4096 == 0,
        0 <= k < length <= bytes_left(segments, position, len),
        walk(segments, position, addr, len, length).end is Done,
    ensures
        k / 4096 < walk(segments, position, addr, len, length).addrs.len(),
        byte_address(segments, position, addr, len, k) == walk(
            segments,
            position,
            addr,
            len,
            length,
        ).addrs[k / 4096] + k % 4096,
    decreases length,
{
    let all = walk(segments, position, addr, len, length);
    if length <= 4096 {
        assert(k < len);
        assert(k / 4096 == 0);
    } else if len > 4096 {
        let rest = walk(segments, position, addr + 4096, len - 4096, length - 4096);
        if k >= 4096 {
            lemma_left_shift(segments, position, len);
            lemma_walk_covers(segments, position, addr + 4096, len - 4096, length - 4096, k - 4096);
            assert((k - 4096) / 4096 == k / 4096 - 1);
            assert(all.addrs[k / 4096] == rest.addrs[k / 4096 - 1]);
        }
    } else {
        let next = segments[position + 1];
        let rest = walk(
            segments,
            position + 1,
            next.address as int,
            next.length as int,
            length - 4096,
        );
        if k >= 4096 {
            lemma_walk_covers(
                segments,
                position + 1,
                next.address as int,
                next.length as int,
                length - 4096,
                k - 4096,
            );
            assert((k - 4096) / 4096 == k / 4096 - 1);
            assert(all.addrs[k / 4096] == rest.addrs[k / 4096 - 1]);
        }
    }
}

proof fn lemma_left_shift(segments: Seq<DmaSegment>, position: int, len: int)
    ensures
        bytes_left(segments, position, len - 4096) == bytes_left(segments, position, len) - 4096,
{
}

/// A device that follows a command finds the bytes of the request, one after the other, where its
/// segments meet at the ends of pages.
pub proof fn lemma_command_describes_data(
    segments: Seq<DmaSegment>,
    position: int,
    length: int,
    k: int,
)
    requires
        segments_ok(segments),
        meet_at_pages(segments),
        0 <= position < segments.len(),
        0 <= k < length <= bytes_left(segments, position, segments[position].length as int),
    ensures
        long_enough(segments, position, length),
        needs_list(segments, position, length) ==> list_walk(segments, position, length).end
            is Done,
        described_address(segments, position, length, k) == byte_address(
            segments,
            position,
            segments[position].address as int,
            segments[position].length as int,
            k,
        ),
{
    let first = segments[position];
    let consumed = to_page_end(first.address);
    let rest = after_first(first.address, length);
    assert(position < segments.len() - 1 ==> first.length >= consumed);
    if rest > 0 && first.length <= consumed {
        assert(position + 1 < segments.len());
        assert(first.length == consumed);
        assert(segments[position + 1].length > 0);
    }
    if rest > 0 {
        let (next, addr, len) = second_page(segments, position);
        assert(segments[next].length > 0);
        assert(next < segments.len() - 1 ==> len % 4096 == 0);
        assert(bytes_left(segments, next, len) == bytes_left(
            segments,
            position,
            first.length as int,
        ) - consumed);
        if needs_list(segments, position, length) {
            lemma_walk_ends(segments, next, addr, len, rest);
        }
        if k >= consumed {
            assert(byte_address(
                segments,
                position,
                first.address as int,
                first.length as int,
                k,
            ) == byte_address(segments, next, addr, len, k - consumed));
            if needs_list(segments, position, length) {
                lemma_walk_covers(segments, next, addr, len, rest, k - consumed);
            }
        }
    }
}

proof fn lemma_walk_ends(
    segments: Seq<DmaSegment>,
    position: int,
    addr: int,
    len: int,
    length: int,
)
    requires
        meet_at_pages(segments),
        0 <= position < segments.len(),
        0 < len,
        position < segments.len() - 1 ==> len % 4096 == 0,
        0 < length <= bytes_left(segments, position, len),
    ensures
        walk(segments, position, addr, len, length).end is Done,
    decreases length,
{
    if length <= 4096 {
    } else if len > 4096 {
        lemma_left_shift(segments, position, len);
        lemma_walk_ends(segments, position, addr + 4096, len - 4096, length - 4096);
    } else {
        let next = segments[position + 1];
        assert(position + 1 < segments.len());
        assert(len == 4096);
        assert(next.length > 0);
        lemma_walk_ends(
            segments,
            position + 1,
            next.address as int,
            next.length as int,
            length - 4096,
        );
    }
}

} // verus!
