//! Per-process virtual memory: a set of virtual pages mapped with
//! permission bits, together with the page-granularity `mmap` / `munmap`
//! policy.
//!
//! The physical frame allocator and the raw page-table encoding are outside
//! collaborators of this core; an address space here records, for every
//! mapped virtual page number, the permission bits the page carries.  The
//! mathematical model of an address space is the map from virtual page
//! numbers to permission bits, `page_map`.

use vstd::prelude::*;

verus! {

/// Size in bytes of one virtual page.
pub const PAGE_SIZE: usize = 4096;

/// Virtual page number holding a virtual address (rounding down).
pub open spec fn spec_vpn_floor(va: int) -> int {
    va / (PAGE_SIZE as int)
}

/// First virtual page number at or above a virtual address (rounding up).
pub open spec fn spec_vpn_ceil(va: int) -> int {
    (va + (PAGE_SIZE - 1)) / (PAGE_SIZE as int)
}

/// Rounds a virtual address down to its page number.
pub fn vpn_floor(va: usize) -> (r: usize)
    ensures
        r == spec_vpn_floor(va as int),
{
    va / PAGE_SIZE
}

/// Rounds a virtual address up to the next page boundary's page number.
pub fn vpn_ceil(va: usize) -> (r: usize)
    requires
        va + PAGE_SIZE - 1 <= usize::MAX,
    ensures
        r == spec_vpn_ceil(va as int),
{
    (va + (PAGE_SIZE - 1)) / PAGE_SIZE
}

/// Internal permission bits for a mapped page: the read/write/execute bits
/// shifted one position up, plus the user-accessibility bit.
pub open spec fn perm_of_port(port: int) -> u8 {
    (port * 2 + 16) as u8
}

/// The map that sends every page number in `[lo, hi)` to `perm`.
pub open spec fn range_map(lo: int, hi: int, perm: u8) -> Map<int, u8> {
    Map::new(|v: int| lo <= v < hi, |v: int| perm)
}

/// The set of page numbers in `[lo, hi)`.
pub open spec fn range_set(lo: int, hi: int) -> Set<int> {
    Set::new(|v: int| lo <= v < hi)
}

/// One mapped virtual page: its page number and its permission bits.  The
/// backing physical frame is owned by the address space and is released
/// together with the mapping; the frame allocator itself is an outside
/// collaborator, so only the page's presence and permissions are recorded.
#[derive(Clone, Copy)]
pub struct MappedPage {
    pub vpn: usize,
    pub perm: u8,
}

/// One process's virtual address space: the pages currently mapped.
pub struct AddressSpace {
    pub pages: Vec<MappedPage>,
}

/// No virtual page number occurs twice.
pub open spec fn vpns_unique(s: Seq<MappedPage>) -> bool {
    forall|i: int, j: int|
        0 <= i < j < s.len() ==> (#[trigger] s[i]).vpn != (#[trigger] s[j]).vpn
}

impl AddressSpace {
    /// The map from page number to permission bits described by a sequence
    /// of mapped pages; a later entry for the same page number wins.
    pub open spec fn map_of(s: Seq<MappedPage>) -> Map<int, u8>
        decreases s.len(),
    {
        if s.len() == 0 {
            Map::empty()
        } else {
            Self::map_of(s.drop_last()).insert(s.last().vpn as int, s.last().perm)
        }
    }

    /// Mathematical model: which pages are mapped, and with what bits.
    pub open spec fn page_map(self) -> Map<int, u8> {
        Self::map_of(self.pages@)
    }

    /// Invariant: page numbers never repeat, so every page has one mapping.
    pub open spec fn wf(self) -> bool {
        vpns_unique(self.pages@)
    }

    /// Whether the page numbered `vpn` is currently mapped.
    pub open spec fn is_mapped(self, vpn: int) -> bool {
        self.page_map().dom().contains(vpn)
    }

    /// A fresh, empty address space.
    pub fn new() -> (r: AddressSpace)
        ensures
            r.wf(),
            r.page_map() == Map::<int, u8>::empty(),
    {
        AddressSpace { pages: Vec::new() }
    }

    /// Looks a virtual page number up; `None` means the page is unmapped,
    /// `Some(perm)` carries the permission bits of the mapping.  Lookup
    /// only: no allocation, no mutation.
    pub fn translate(&self, vpn: usize) -> (r: Option<u8>)
        requires
            self.wf(),
        ensures
            r.is_some() <==> self.is_mapped(vpn as int),
            r.is_some() ==> r.unwrap() == self.page_map()[vpn as int],
    {
        proof {
            lemma_map_of_dom(self.pages@);
        }
        let n = self.pages.len();
        let mut i: usize = 0;
        while i < n
            invariant
                n == self.pages@.len(),
                0 <= i <= n,
                self.wf(),
                forall|j: int| 0 <= j < i ==> (#[trigger] self.pages@[j]).vpn != vpn,
            decreases n - i,
        {
            if self.pages[i].vpn == vpn {
                proof {
                    lemma_map_of_value(self.pages@, i as int);
                }
                return Some(self.pages[i].perm);
            }
            i += 1;
        }
        None
    }

    /// Adds a framed area covering every page of the rounded range
    /// `[floor(start_va), ceil(end_va))`, each backed by a fresh frame and
    /// carrying `perm`.  Callers must have checked that the range is free:
    /// the operation itself does not.
    pub fn insert_framed_area(&mut self, start_va: usize, end_va: usize, perm: u8)
        requires
            old(self).wf(),
            start_va <= end_va,
            end_va + PAGE_SIZE - 1 <= usize::MAX,
            forall|v: int|
                spec_vpn_floor(start_va as int) <= v < spec_vpn_ceil(end_va as int)
                    ==> !old(self).is_mapped(v),
        ensures
            final(self).wf(),
            final(self).page_map() == old(self).page_map().union_prefer_right(
                range_map(spec_vpn_floor(start_va as int), spec_vpn_ceil(end_va as int), perm),
            ),
    {
        let lo = vpn_floor(start_va);
        let hi = vpn_ceil(end_va);
        proof {
            vstd::arithmetic::div_mod::lemma_div_is_ordered(
                start_va as int,
                end_va + PAGE_SIZE - 1,
                PAGE_SIZE as int,
            );
        }
        let mut v = lo;
        while v < hi
            invariant
                lo == spec_vpn_floor(start_va as int),
                hi == spec_vpn_ceil(end_va as int),
                lo <= v <= hi,
                self.wf(),
                self.page_map() == old(self).page_map().union_prefer_right(
                    range_map(lo as int, v as int, perm),
                ),
                forall|w: int| v <= w < hi ==> !old(self).is_mapped(w),
            decreases hi - v,
        {
            proof {
                lemma_map_of_dom(self.pages@);
                assert(!old(self).is_mapped(v as int));
                assert(!range_map(lo as int, v as int, perm).dom().contains(v as int));
                assert(!self.is_mapped(v as int));
            }
            let ghost before = self.pages@;
            self.pages.push(MappedPage { vpn: v, perm });
            proof {
                assert(self.pages@.drop_last() =~= before);
                assert(AddressSpace::map_of(self.pages@) == AddressSpace::map_of(before).insert(
                    v as int,
                    perm,
                ));
                assert forall|i: int, j: int| 0 <= i < j < self.pages@.len() implies (
                #[trigger] self.pages@[i]).vpn != (#[trigger] self.pages@[j]).vpn by {
                    if j == self.pages@.len() - 1 {
                        assert(before[i].vpn == self.pages@[i].vpn);
                    }
                }
                assert(AddressSpace::map_of(before).insert(v as int, perm) =~= old(
                    self,
                ).page_map().union_prefer_right(range_map(lo as int, v as int + 1, perm)));
            }
            v += 1;
        }
        proof {
            assert(self.page_map() =~= old(self).page_map().union_prefer_right(
                range_map(lo as int, hi as int, perm),
            ));
        }
    }

    /// Removes every mapping whose page lies in the rounded range
    /// `[floor(start_va), ceil(end_va))` and releases the backing frames.
    pub fn delete_frame_area(&mut self, start_va: usize, end_va: usize)
        requires
            old(self).wf(),
            end_va + PAGE_SIZE - 1 <= usize::MAX,
        ensures
            final(self).wf(),
            final(self).page_map() == old(self).page_map().remove_keys(
                range_set(spec_vpn_floor(start_va as int), spec_vpn_ceil(end_va as int)),
            ),
    {
        let lo = vpn_floor(start_va);
        let hi = vpn_ceil(end_va);
        let ghost r = range_set(lo as int, hi as int);
        let n = self.pages.len();
        let mut kept: Vec<MappedPage> = Vec::new();
        let mut i: usize = 0;
        while i < n
            invariant
                n == self.pages@.len(),
                0 <= i <= n,
                self.wf(),
                self.pages@ == old(self).pages@,
                r == range_set(lo as int, hi as int),
                AddressSpace::map_of(kept@) == AddressSpace::map_of(
                    self.pages@.take(i as int),
                ).remove_keys(r),
                forall|k: int|
                    0 <= k < kept@.len() ==> exists|j: int|
                        0 <= j < i && #[trigger] kept@[k] == self.pages@[j],
                vpns_unique(kept@),
            decreases n - i,
        {
            let ghost taken = self.pages@.take(i as int);
            let ghost kept_before = kept@;
            let e = self.pages[i];
            proof {
                assert(self.pages@.take(i + 1).drop_last() =~= taken);
                assert(self.pages@.take(i + 1).last() == e);
                assert(AddressSpace::map_of(self.pages@.take(i + 1)) == AddressSpace::map_of(
                    taken,
                ).insert(e.vpn as int, e.perm));
            }
            if e.vpn < lo || e.vpn >= hi {
                kept.push(e);
                proof {
                    assert(kept@.drop_last() =~= kept_before);
                    assert(AddressSpace::map_of(kept@) == AddressSpace::map_of(
                        kept_before,
                    ).insert(e.vpn as int, e.perm));
                    assert(AddressSpace::map_of(kept_before).insert(e.vpn as int, e.perm)
                        =~= AddressSpace::map_of(self.pages@.take(i + 1)).remove_keys(r));
                    assert forall|k: int| 0 <= k < kept@.len() implies exists|j: int|
                        0 <= j < i + 1 && #[trigger] kept@[k] == self.pages@[j] by {
                        if k < kept@.len() - 1 {
                            assert(kept@[k] == kept_before[k]);
                            let j = choose|j: int|
                                0 <= j < i && #[trigger] kept_before[k] == self.pages@[j];
                            assert(kept@[k] == self.pages@[j]);
                        } else {
                            assert(kept@[k] == self.pages@[i as int]);
                        }
                    }
                    assert forall|p: int, q: int| 0 <= p < q < kept@.len() implies (
                    #[trigger] kept@[p]).vpn != (#[trigger] kept@[q]).vpn by {
                        if q == kept@.len() - 1 {
                            let j = choose|j: int|
                                0 <= j < i && #[trigger] kept_before[p] == self.pages@[j];
                            assert(self.pages@[j].vpn != self.pages@[i as int].vpn);
                        }
                    }
                }
            } else {
                proof {
                    assert(r.contains(e.vpn as int));
                    assert(AddressSpace::map_of(self.pages@.take(i + 1)).remove_keys(r)
                        =~= AddressSpace::map_of(taken).remove_keys(r));
                }
            }
            i += 1;
        }
        self.pages = kept;
        proof {
            assert(old(self).pages@.take(n as int) =~= old(self).pages@);
        }
    }

    /// Releases every owned frame: the address space keeps its identity but
    /// maps nothing afterwards.
    pub fn recycle_data_pages(&mut self)
        ensures
            final(self).wf(),
            final(self).page_map() == Map::<int, u8>::empty(),
    {
        self.pages = Vec::new();
    }

    /// Page-level `mmap` policy: every page of the rounded range
    /// `[floor(start), ceil(start + len))` must currently be unmapped;
    /// if any is mapped the call returns `-1` and changes nothing
    /// (all-or-nothing), otherwise the whole range is mapped with the
    /// permission bits derived from `port` plus user access, and `0` is
    /// returned.  Alignment and permission-bit legality of the raw
    /// arguments are the syscall adapter's duty.
    pub fn mmap(&mut self, start: usize, len: usize, port: usize) -> (r: isize)
        requires
            old(self).wf(),
            0 < port <= 7,
            start + len + PAGE_SIZE - 1 <= usize::MAX,
        ensures
            final(self).wf(),
            r == 0 || r == -1,
            (r == 0) <==> (forall|v: int|
                spec_vpn_floor(start as int) <= v < spec_vpn_ceil(start as int + len)
                    ==> !old(self).is_mapped(v)),
            r == 0 ==> final(self).page_map() == old(self).page_map().union_prefer_right(
                range_map(
                    spec_vpn_floor(start as int),
                    spec_vpn_ceil(start as int + len),
                    perm_of_port(port as int),
                ),
            ),
            r == -1 ==> *final(self) == *old(self),
    {
        let end = start + len;
        let lo = vpn_floor(start);
        let hi = vpn_ceil(end);
        proof {
            vstd::arithmetic::div_mod::lemma_div_is_ordered(
                start as int,
                end + PAGE_SIZE - 1,
                PAGE_SIZE as int,
            );
        }
        let mut v = lo;
        while v < hi
            invariant
                lo == spec_vpn_floor(start as int),
                hi == spec_vpn_ceil(start as int + len),
                lo <= v <= hi,
                self == old(self),
                self.wf(),
                start + len + PAGE_SIZE - 1 <= usize::MAX,
                forall|w: int| lo <= w < v ==> !self.is_mapped(w),
            decreases hi - v,
        {
            if self.translate(v).is_some() {
                return -1;
            }
            v += 1;
        }
        let perm = (port * 2 + 16) as u8;
        self.insert_framed_area(start, end, perm);
        0
    }

    /// Page-level `munmap` policy: every page of the rounded range must
    /// currently be mapped; if any is unmapped the call returns `-1` and
    /// changes nothing, otherwise every page of the range is unmapped, its
    /// frames are freed, and `0` is returned.
    pub fn munmap(&mut self, start: usize, len: usize) -> (r: isize)
        requires
            old(self).wf(),
            start + len + PAGE_SIZE - 1 <= usize::MAX,
        ensures
            final(self).wf(),
            r == 0 || r == -1,
            (r == 0) <==> (forall|v: int|
                spec_vpn_floor(start as int) <= v < spec_vpn_ceil(start as int + len)
                    ==> old(self).is_mapped(v)),
            r == 0 ==> final(self).page_map() == old(self).page_map().remove_keys(
                range_set(spec_vpn_floor(start as int), spec_vpn_ceil(start as int + len)),
            ),
            r == -1 ==> *final(self) == *old(self),
    {
        let end = start + len;
        let lo = vpn_floor(start);
        let hi = vpn_ceil(end);
        let mut v = lo;
        while v < hi
            invariant
                lo == spec_vpn_floor(start as int),
                hi == spec_vpn_ceil(start as int + len),
                lo <= v <= hi || v == lo,
                self == old(self),
                self.wf(),
                start + len + PAGE_SIZE - 1 <= usize::MAX,
                forall|w: int| lo <= w < v ==> self.is_mapped(w),
            decreases hi - v,
        {
            if self.translate(v).is_none() {
                return -1;
            }
            v += 1;
        }
        self.delete_frame_area(start, end);
        0
    }
}

/// Law: `mmap` on a fresh range followed by `munmap` of the identical range
/// leaves the set of mapped pages, and every surviving mapping's permission
/// bits, exactly as they were before the `mmap`.  The hypotheses are the
/// postconditions of a successful `mmap` and `munmap` over one rounded
/// range, which is free beforehand.
pub proof fn lemma_mmap_munmap_round_trip(
    a0: AddressSpace,
    a1: AddressSpace,
    a2: AddressSpace,
    start: usize,
    len: usize,
    port: usize,
)
    requires
        len > 0,
        start % PAGE_SIZE == 0,
        0 < port <= 7,
        forall|v: int|
            spec_vpn_floor(start as int) <= v < spec_vpn_ceil(start as int + len)
                ==> !a0.is_mapped(v),
        a1.page_map() == a0.page_map().union_prefer_right(
            range_map(
                spec_vpn_floor(start as int),
                spec_vpn_ceil(start as int + len),
                perm_of_port(port as int),
            ),
        ),
        a2.page_map() == a1.page_map().remove_keys(
            range_set(spec_vpn_floor(start as int), spec_vpn_ceil(start as int + len)),
        ),
    ensures
        a2.page_map() == a0.page_map(),
{
    let lo = spec_vpn_floor(start as int);
    let hi = spec_vpn_ceil(start as int + len);
    assert forall|v: int| a0.page_map().dom().contains(v) implies !(lo <= v < hi) by {
        if lo <= v < hi {
            assert(!a0.is_mapped(v));
        }
    }
    assert(a2.page_map() =~= a0.page_map());
}

/// A page number is in the domain of `map_of(s)` exactly when some entry
/// carries it.
pub proof fn lemma_map_of_dom(s: Seq<MappedPage>)
    ensures
        forall|v: int|
            #[trigger] AddressSpace::map_of(s).dom().contains(v) <==> exists|i: int|
                0 <= i < s.len() && (#[trigger] s[i]).vpn == v,
    decreases s.len(),
{
    if s.len() > 0 {
        lemma_map_of_dom(s.drop_last());
        assert forall|v: int| #[trigger] AddressSpace::map_of(s).dom().contains(v) implies exists|
            i: int,
        | 0 <= i < s.len() && (#[trigger] s[i]).vpn == v by {
            if v == s.last().vpn as int {
                assert(s[s.len() - 1].vpn == v);
            } else {
                assert(AddressSpace::map_of(s.drop_last()).dom().contains(v));
                let i = choose|i: int| 0 <= i < s.drop_last().len() && (#[trigger] s.drop_last()[i]).vpn == v;
                assert(s.drop_last()[i] == s[i]);
                assert(s[i].vpn == v);
            }
        }
        assert forall|v: int|
            (exists|i: int| 0 <= i < s.len() && (#[trigger] s[i]).vpn == v) implies #[trigger] AddressSpace::map_of(
            s,
        ).dom().contains(v) by {
            let i = choose|i: int| 0 <= i < s.len() && (#[trigger] s[i]).vpn == v;
            if i < s.len() - 1 {
                assert(s.drop_last()[i].vpn == v);
                assert(AddressSpace::map_of(s.drop_last()).dom().contains(v));
            }
        }
    }
}

/// Under the uniqueness invariant, entry `i` gives the permission that
/// `map_of` records for its page number.
pub proof fn lemma_map_of_value(s: Seq<MappedPage>, i: int)
    requires
        vpns_unique(s),
        0 <= i < s.len(),
    ensures
        AddressSpace::map_of(s).dom().contains(s[i].vpn as int),
        AddressSpace::map_of(s)[s[i].vpn as int] == s[i].perm,
    decreases s.len(),
{
    if i == s.len() - 1 {
    } else {
        assert(vpns_unique(s.drop_last()));
        assert(s.drop_last()[i] == s[i]);
        lemma_map_of_value(s.drop_last(), i);
        assert(s[i].vpn != s[s.len() - 1].vpn);
    }
}

} // verus!

