//! The join of a present destination to its system pages.

use vstd::prelude::*;

verus! {

pub const PAGE: u64 = 4096;
/// The one allocation kind that a compositor reads with the processor.
pub const STANDARD_STAGING_KIND: u32 = 5;
/// The granularity at which the host backs processor-visible memory.
pub const HELIOS_CPU_BACKING_HOST_GRANULARITY: u64 = 65536;

/// A run of guest-physical memory.
#[derive(Debug, Clone, Copy, PartialEq, Eq, Structural)]
pub struct VirtioGpuMemEntry {
    pub addr: u64,
    pub length: u32,
    pub padding: u32,
}

#[derive(Debug, Clone, Copy, PartialEq, Eq, Structural)]
pub enum JoinRefusal {
    NotStaging,
    NoHostBlob,
    AlreadyJoined,
    Offset,
    Short,
    Runs,
    Pfn,
    NoMdl,
    Empty,
}

impl JoinRefusal {
    /// The number under which the refusal is counted.
    pub fn code(self) -> (n: u32)
        ensures
            n == (match self {
                JoinRefusal::NotStaging => 1u32,
                JoinRefusal::NoHostBlob => 2,
                JoinRefusal::AlreadyJoined => 3,
                JoinRefusal::Offset => 4,
                JoinRefusal::Short => 5,
                JoinRefusal::Runs => 6,
                JoinRefusal::Pfn => 7,
                JoinRefusal::NoMdl => 8,
                JoinRefusal::Empty => 9,
            }),
    {
        match self {
            JoinRefusal::NotStaging => 1,
            JoinRefusal::NoHostBlob => 2,
            JoinRefusal::AlreadyJoined => 3,
            JoinRefusal::Offset => 4,
            JoinRefusal::Short => 5,
            JoinRefusal::Runs => 6,
            JoinRefusal::Pfn => 7,
            JoinRefusal::NoMdl => 8,
            JoinRefusal::Empty => 9,
        }
    }
}

#[derive(Debug, Clone, Copy)]
pub struct JoinRequest {
    pub allocation_kind: u32,
    pub host_blob: bool,
    pub joined: bool,
    pub byte_size: u64,
    pub offset_in_pages: u64,
    pub number_of_pages: u64,
    pub pages_present: bool,
}

/// `bytes` rounded up to the host granularity.
pub open spec fn host_size(bytes: int) -> int {
    (bytes + 65535) / 65536 * 65536
}

/// Why the mapped pages cannot back the surface, if they cannot.
pub open spec fn join_refusal(req: JoinRequest) -> Option<JoinRefusal> {
    if req.allocation_kind != STANDARD_STAGING_KIND {
        Some(JoinRefusal::NotStaging)
    } else if !req.host_blob {
        Some(JoinRefusal::NoHostBlob)
    } else if req.joined {
        Some(JoinRefusal::AlreadyJoined)
    } else if !req.pages_present {
        Some(JoinRefusal::NoMdl)
    } else if req.byte_size == 0 {
        Some(JoinRefusal::Empty)
    } else if req.offset_in_pages != 0 {
        Some(JoinRefusal::Offset)
    } else if req.byte_size + 65535 > u64::MAX || req.number_of_pages * PAGE < host_size(
        req.byte_size as int,
    ) {
        Some(JoinRefusal::Short)
    } else {
        None
    }
}

/// The size of the blob that the mapped pages back, or why they back none. The
/// pages must start where the allocation does and cover all of it.
pub fn admit_join(req: &JoinRequest) -> (r: Result<u64, JoinRefusal>)
    ensures
        match join_refusal(*req) {
            Some(e) => r == Err::<u64, JoinRefusal>(e),
            None => r is Ok && r->Ok_0 == host_size(req.byte_size as int),
        },
{
    if req.allocation_kind != STANDARD_STAGING_KIND {
        return Err(JoinRefusal::NotStaging);
    }
    if !req.host_blob {
        return Err(JoinRefusal::NoHostBlob);
    }
    if req.joined {
        return Err(JoinRefusal::AlreadyJoined);
    }
    if !req.pages_present {
        return Err(JoinRefusal::NoMdl);
    }
    if req.byte_size == 0 {
        return Err(JoinRefusal::Empty);
    }
    if req.offset_in_pages != 0 {
        return Err(JoinRefusal::Offset);
    }
    let padded: u64 = match req.byte_size.checked_add(HELIOS_CPU_BACKING_HOST_GRANULARITY - 1) {
        Some(v) => v,
        None => {
            return Err(JoinRefusal::Short);
        },
    };
    let size: u64 = padded / HELIOS_CPU_BACKING_HOST_GRANULARITY
        * HELIOS_CPU_BACKING_HOST_GRANULARITY;
    if req.number_of_pages < size / PAGE {
        return Err(JoinRefusal::Short);
    }
    Ok(size)
}

/// The greatest page frame number whose address fits.
pub const MAX_PFN: u64 = 0x000F_FFFF_FFFF_FFFF;

/// A run that ends where `address` begins, and that can grow by a page.
pub open spec fn extends(run: VirtioGpuMemEntry, address: int) -> bool {
    run.addr + run.length == address && run.length + PAGE <= u32::MAX
}

/// The runs that the first `n` pages make: a page extends the run that ends where
/// it begins, and starts a new one otherwise.
pub open spec fn coalesced(pfns: Seq<u64>, n: int) -> Seq<VirtioGpuMemEntry>
    decreases n,
{
    if n <= 0 {
        Seq::empty()
    } else {
        let runs = coalesced(pfns, n - 1);
        let address = pfns[n - 1] * PAGE;
        if runs.len() > 0 && extends(runs.last(), address) {
            runs.update(
                runs.len() - 1,
                VirtioGpuMemEntry {
                    length: (runs.last().length + PAGE) as u32,
                    ..runs.last()
                },
            )
        } else {
            runs.push(
                VirtioGpuMemEntry { addr: address as u64, length: PAGE as u32, padding: 0 },
            )
        }
    }
}

/// What the page `i` is refused with, given room for `room` runs.
pub open spec fn page_refusal(pfns: Seq<u64>, room: nat, i: int) -> Option<JoinRefusal> {
    if pfns[i] > MAX_PFN {
        Some(JoinRefusal::Pfn)
    } else if coalesced(pfns, i + 1).len() > room {
        Some(JoinRefusal::Runs)
    } else {
        None
    }
}

/// The page `i` is the first that is refused, with `e`.
pub open spec fn first_refused(pfns: Seq<u64>, room: nat, i: int, e: JoinRefusal) -> bool {
    0 <= i < pfns.len() && page_refusal(pfns, room, i) == Some(e) && forall|j: int|
        0 <= j < i ==> (#[trigger] page_refusal(pfns, room, j)) is None
}

/// `out` with the runs of the first `n` pages at its front.
pub open spec fn with_runs(
    out: Seq<VirtioGpuMemEntry>,
    pfns: Seq<u64>,
    n: int,
) -> Seq<VirtioGpuMemEntry> {
    coalesced(pfns, n) + out.skip(coalesced(pfns, n).len() as int)
}

/// Coalesces pages into contiguous runs at the front of `out` and returns how many
/// there are. Refuses more runs than `out` holds, and a page whose address does
/// not fit.
pub fn coalesce(pfns: &[u64], out: &mut [VirtioGpuMemEntry]) -> (r: Result<usize, JoinRefusal>)
    ensures
        match r {
            Ok(n) => n == coalesced(pfns@, pfns@.len() as int).len() && (forall|i: int|
                0 <= i < pfns@.len() ==> (#[trigger] page_refusal(pfns@, old(out)@.len(), i))
                    is None) && final(out)@ == with_runs(old(out)@, pfns@, pfns@.len() as int),
            Err(e) => exists|i: int| #[trigger]
                first_refused(pfns@, old(out)@.len(), i, e) && final(out)@ == with_runs(
                    old(out)@,
                    pfns@,
                    i,
                ),
        },
{
    let mut runs: usize = 0;
    let mut i: usize = 0;
    assert(out@ =~= with_runs(old(out)@, pfns@, 0));
    while i < pfns.len()
        invariant
            i <= pfns@.len(),
            out@.len() == old(out)@.len(),
            runs == coalesced(pfns@, i as int).len() <= out@.len(),
            out@ == with_runs(old(out)@, pfns@, i as int),
            forall|j: int|
                0 <= j < i ==> (#[trigger] page_refusal(pfns@, old(out)@.len(), j)) is None,
        decreases pfns@.len() - i,
    {
        let pfn: u64 = pfns[i];
        if pfn > MAX_PFN {
            assert(first_refused(pfns@, old(out)@.len(), i as int, JoinRefusal::Pfn));
            return Err(JoinRefusal::Pfn);
        }
        let address: u64 = pfn * PAGE;
        let ghost before = coalesced(pfns@, i as int);
        let mut extended: bool = false;
        if runs != 0 {
            let last: VirtioGpuMemEntry = out[runs - 1];
            assert(last == before.last());
            if last.length <= u32::MAX - PAGE as u32 && last.addr <= u64::MAX - last.length as u64
                && last.addr + last.length as u64 == address {
                out[runs - 1] = VirtioGpuMemEntry {
                    addr: last.addr,
                    length: last.length + PAGE as u32,
                    padding: last.padding,
                };
                extended = true;
                assert(out@ =~= with_runs(old(out)@, pfns@, i + 1));
            }
        }
        if !extended {
            if runs == out.len() {
                assert(first_refused(pfns@, old(out)@.len(), i as int, JoinRefusal::Runs));
                return Err(JoinRefusal::Runs);
            }
            out[runs] = VirtioGpuMemEntry { addr: address, length: PAGE as u32, padding: 0 };
            runs = runs + 1;
            assert(out@ =~= with_runs(old(out)@, pfns@, i + 1));
        }
        assert(page_refusal(pfns@, old(out)@.len(), i as int) is None);
        i = i + 1;
    }
    Ok(runs)
}

/// The page addresses of a run.
pub open spec fn pages_of(run: VirtioGpuMemEntry) -> Seq<int> {
    Seq::new((run.length / 4096) as nat, |i: int| run.addr + i * PAGE)
}

/// The page addresses of runs, in order.
pub open spec fn pages_of_all(runs: Seq<VirtioGpuMemEntry>) -> Seq<int>
    decreases runs.len(),
{
    if runs.len() == 0 {
        Seq::empty()
    } else {
        pages_of_all(runs.drop_last()) + pages_of(runs.last())
    }
}

/// The runs hold exactly the pages they were made of, in the order in which they
/// were given.
pub proof fn law_runs_are_the_pages(pfns: Seq<u64>, n: int)
    requires
        0 <= n <= pfns.len(),
        forall|i: int| 0 <= i < pfns.len() ==> #[trigger] pfns[i] <= MAX_PFN,
    ensures
        pages_of_all(coalesced(pfns, n)) == Seq::new(n as nat, |i: int| pfns[i] * PAGE),
        forall|k: int|
            0 <= k < coalesced(pfns, n).len() ==> (#[trigger] coalesced(pfns, n)[k]).length % 4096
                == 0 && coalesced(pfns, n)[k].length > 0,
    decreases n,
{
    if n > 0 {
        law_runs_are_the_pages(pfns, n - 1);
        let runs = coalesced(pfns, n - 1);
        let after = coalesced(pfns, n);
        let address = pfns[n - 1] * PAGE;
        let shorter = Seq::new((n - 1) as nat, |i: int| pfns[i] * PAGE);
        assert(Seq::new(n as nat, |i: int| pfns[i] * PAGE) =~= shorter.push(address));
        if runs.len() > 0 && extends(runs.last(), address) {
            assert(after.drop_last() =~= runs.drop_last());
            assert(runs.last().length % 4096 == 0);
            assert(pages_of(after.last()) =~= pages_of(runs.last()).push(address));
            assert(pages_of_all(after) =~= pages_of_all(runs).push(address));
        } else {
            assert(after.drop_last() =~= runs);
            assert(pages_of(after.last()) =~= seq![address]);
            assert(pages_of_all(after) =~= pages_of_all(runs).push(address));
        }
    } else {
        assert(pages_of_all(coalesced(pfns, n)) =~= Seq::new(n as nat, |i: int| pfns[i] * PAGE));
    }
}

/// Pages are joined exactly to a staging allocation that the host backs and that has none
/// yet, if there are pages, they start where the allocation does, and cover it whole in
/// the host's granularity. The joined blob is the least multiple of that granularity
/// which holds the allocation.
pub proof fn law_pages_are_joined_if_they_cover_the_allocation(req: JoinRequest)
    ensures
        ({
            let r = join_refusal(req);
            let size = host_size(req.byte_size as int);
            &&& size % 65536 == 0 && req.byte_size <= size < req.byte_size + 65536
            &&& r is None <==> req.allocation_kind == 5 && req.host_blob && !req.joined
                && req.pages_present && req.byte_size > 0 && req.offset_in_pages == 0
                && req.byte_size <= u64::MAX - 65535 && 4096 * req.number_of_pages >= size
            &&& r matches Some(e) ==> match e {
                JoinRefusal::NotStaging => req.allocation_kind != 5,
                JoinRefusal::NoHostBlob => !req.host_blob,
                JoinRefusal::AlreadyJoined => req.joined,
                JoinRefusal::NoMdl => !req.pages_present,
                JoinRefusal::Empty => req.byte_size == 0,
                JoinRefusal::Offset => req.offset_in_pages != 0,
                JoinRefusal::Short => req.byte_size > u64::MAX - 65535 || 4096
                    * req.number_of_pages < size,
                _ => false,
            }
        }),
{
}

/// Runs are as long as they can be: one that ends where the next begins could not have
/// held another page. Every run begins with a page that was given, and its padding is
/// zero.
pub proof fn law_runs_are_not_split(pfns: Seq<u64>, n: int, k: int)
    requires
        0 <= n <= pfns.len(),
        forall|i: int| 0 <= i < pfns.len() ==> #[trigger] pfns[i] <= MAX_PFN,
        0 <= k < coalesced(pfns, n).len(),
    ensures
        ({
            let runs = coalesced(pfns, n);
            &&& runs[k].padding == 0
            &&& exists|i: int| 0 <= i < n && runs[k].addr == 4096 * #[trigger] pfns[i]
            &&& k + 1 < runs.len() && runs[k].addr + runs[k].length == runs[k + 1].addr
                ==> runs[k].length + 4096 > u32::MAX
        }),
    decreases n,
{
    if n > 0 {
        let before = coalesced(pfns, n - 1);
        let runs = coalesced(pfns, n);
        let address = pfns[n - 1] * PAGE;
        if k < before.len() {
            law_runs_are_not_split(pfns, n - 1, k);
            let i = choose|i: int| 0 <= i < n - 1 && before[k].addr == 4096 * #[trigger] pfns[i];
            assert(runs[k].addr == 4096 * pfns[i]);
        } else {
            assert(runs[k].addr == 4096 * pfns[n - 1]);
        }
    }
}

/// A page is refused for its address exactly if that does not fit in 64 bits, and for its
/// run exactly if the pages up to it make more runs than there is room for. What is refused
/// is the first such page: every page before it is good.
pub proof fn law_the_first_bad_page_is_refused(
    pfns: Seq<u64>,
    room: nat,
    i: int,
    e: JoinRefusal,
    j: int,
)
    requires
        0 <= j < i,
    ensures
        page_refusal(pfns, room, i) == Some(JoinRefusal::Pfn) <==> 4096 * pfns[i] > u64::MAX,
        page_refusal(pfns, room, i) == Some(JoinRefusal::Runs) <==> 4096 * pfns[i] <= u64::MAX
            && coalesced(pfns, i + 1).len() > room,
        first_refused(pfns, room, i, e) ==> i < pfns.len() && (e is Pfn || e is Runs)
            && page_refusal(pfns, room, i) == Some(e) && 4096 * pfns[j] <= u64::MAX && coalesced(
            pfns,
            j + 1,
        ).len() <= room,
{
    assert(first_refused(pfns, room, i, e) ==> page_refusal(pfns, room, j) is None);
}

} // verus!
