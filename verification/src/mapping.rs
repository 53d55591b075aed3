//! The steps of `hmmap`: map, then bind the new mapping to the configured
//! NUMA nodes, and undo the mapping when the binding fails.
use vstd::prelude::*;
use vstd::arithmetic::power2::is_pow2;
use vstd::arithmetic::div_mod::{lemma_fundamental_div_mod, lemma_mod_mod, lemma_mod_multiples_basic};

verus! {

/// The NUMA binding that new mappings get.
#[derive(Clone, Copy, Debug, PartialEq, Eq, Structural)]
pub struct NumaPolicy {
    /// Node mask (0: no binding).
    pub nodemask: u64,
    /// Memory-policy mode handed to `mbind`.
    pub mpol_mode: i32,
    /// Highest node number the kernel can handle.
    pub maxnode: i32,
}

/// The arguments of the `mbind` call, besides the mapping itself; its
/// flags are 0.
#[derive(Clone, Copy, Debug, PartialEq, Eq, Structural)]
pub struct BindRequest {
    pub mode: i32,
    pub nodemask: u64,
    /// `maxnode` as the C `unsigned long` that `mbind` takes.
    pub maxnode: u64,
}

/// What has just happened.
#[derive(Clone, Copy, Debug, PartialEq, Eq, Structural)]
pub enum MapEvent {
    /// `mmap` returned; `failed` when it returned `MAP_FAILED`.
    Mapped { failed: bool },
    /// `mbind` returned this status.
    Bound { status: i64 },
}

/// What to do next.
#[derive(Clone, Copy, Debug, PartialEq, Eq, Structural)]
pub enum MapAction {
    /// Return `MAP_FAILED`.
    ReturnFailure,
    /// Call `mbind` on the new mapping.
    Bind { request: BindRequest },
    /// Return the new mapping.
    ReturnMapping,
    /// Unmap the new mapping (keeping `errno`) and return null.
    UnmapAndReturnNull,
}

pub open spec fn map_next_spec(policy: NumaPolicy, event: MapEvent) -> MapAction {
    match event {
        MapEvent::Mapped { failed } => if failed {
            MapAction::ReturnFailure
        } else if policy.nodemask > 0 {
            MapAction::Bind {
                request: BindRequest {
                    mode: policy.mpol_mode,
                    nodemask: policy.nodemask,
                    maxnode: policy.maxnode as u64,
                },
            }
        } else {
            MapAction::ReturnMapping
        },
        MapEvent::Bound { status } => if status == 0 {
            MapAction::ReturnMapping
        } else {
            MapAction::UnmapAndReturnNull
        },
    }
}

/// The next step of `hmmap` under `policy`.
pub fn map_next(policy: &NumaPolicy, event: MapEvent) -> (r: MapAction)
    ensures
        r == map_next_spec(*policy, event),
{
    match event {
        MapEvent::Mapped { failed } => {
            if failed {
                MapAction::ReturnFailure
            } else if policy.nodemask > 0 {
                MapAction::Bind {
                    request: BindRequest {
                        mode: policy.mpol_mode,
                        nodemask: policy.nodemask,
                        maxnode: policy.maxnode as u64,
                    },
                }
            } else {
                MapAction::ReturnMapping
            }
        },
        MapEvent::Bound { status } => {
            if status == 0 {
                MapAction::ReturnMapping
            } else {
                MapAction::UnmapAndReturnNull
            }
        },
    }
}

/// A mapping reaches the caller only unbound under an empty node mask, or
/// bound: with a nonempty mask, a successful `mmap` leads to `mbind`, and
/// only a successful `mbind` leads to returning the mapping.
pub proof fn lemma_mapping_is_bound_or_dropped(policy: NumaPolicy, status: i64)
    ensures
        map_next_spec(policy, MapEvent::Mapped { failed: false }) == MapAction::ReturnMapping
            <==> policy.nodemask == 0,
        map_next_spec(policy, MapEvent::Bound { status }) == MapAction::ReturnMapping <==> status == 0,
        map_next_spec(policy, MapEvent::Mapped { failed: true }) == MapAction::ReturnFailure,
{
}


/// How long a mapping must be for an extent of `size` bytes aligned to
/// `alignment` to be cut out of it, on pages of `page` bytes: the size itself
/// when page alignment suffices, else the size plus the alignment less one
/// page. `None` when jemalloc wants the extent at a fixed address (this
/// allocator does not map at fixed addresses, so the request fails) or when
/// the length does not fit in a `usize`.
pub open spec fn extent_map_len_spec(at_fixed_address: bool, size: usize, alignment: usize, page: usize) -> Option<usize> {
    if at_fixed_address {
        None
    } else if alignment <= page {
        Some(size)
    } else if size + (alignment - page) <= usize::MAX {
        Some((size + (alignment - page)) as usize)
    } else {
        None
    }
}

/// The length of the mapping that the extent hook makes.
pub fn extent_map_len(at_fixed_address: bool, size: usize, alignment: usize, page: usize) -> (r: Option<usize>)
    ensures
        r == extent_map_len_spec(at_fixed_address, size, alignment, page),
{
    if at_fixed_address {
        None
    } else if alignment <= page {
        Some(size)
    } else {
        size.checked_add(alignment - page)
    }
}

/// Where an aligned extent lies in a mapping: it starts at `start`; the
/// `head_len` bytes before it and the `tail_len` bytes from `tail_start`
/// on are given back.
#[derive(Clone, Copy, Debug, PartialEq, Eq, Structural)]
pub struct ExtentCut {
    pub start: usize,
    pub head_len: usize,
    pub tail_start: usize,
    pub tail_len: usize,
}

/// `addr` rounded up to a multiple of `alignment` (at least 1).
pub open spec fn align_up(addr: int, alignment: int) -> int {
    if addr % alignment == 0 {
        addr
    } else {
        addr + alignment - addr % alignment
    }
}

/// The extent of `size` bytes at the first multiple of `alignment` (1 for
/// an alignment of zero) in the mapping of `map_len` bytes at `addr`, if it
/// fits there.
pub open spec fn cut_extent_spec(addr: usize, map_len: usize, size: usize, alignment: usize) -> Option<ExtentCut> {
    let a: int = if alignment == 0 { 1 } else { alignment as int };
    let start = align_up(addr as int, a);
    if addr + map_len <= usize::MAX && start + size <= addr + map_len {
        Some(ExtentCut {
            start: start as usize,
            head_len: (start - addr) as usize,
            tail_start: (start + size) as usize,
            tail_len: (addr + map_len - start - size) as usize,
        })
    } else {
        None
    }
}

/// Cuts the aligned extent out of the mapping.
pub fn cut_extent(addr: usize, map_len: usize, size: usize, alignment: usize) -> (r: Option<ExtentCut>)
    ensures
        r == cut_extent_spec(addr, map_len, size, alignment),
{
    let a: usize = if alignment == 0 { 1 } else { alignment };
    let end = match addr.checked_add(map_len) {
        Some(e) => e,
        None => return None,
    };
    let rem = addr % a;
    let start = if rem == 0 {
        addr
    } else {
        match addr.checked_add(a - rem) {
            Some(s) => s,
            None => return None,
        }
    };
    if start > end || size > end - start {
        return None;
    }
    Some(ExtentCut {
        start,
        head_len: start - addr,
        tail_start: start + size,
        tail_len: end - start - size,
    })
}

proof fn lemma_pow2_divides(p: int, a: int)
    requires
        is_pow2(p),
        is_pow2(a),
        p <= a,
    ensures
        a % p == 0,
    decreases p,
{
    reveal(is_pow2);
    if p == 1 {
    } else {
        assert(a != 1);
        lemma_pow2_divides(p / 2, a / 2);
        let m = (a / 2) / (p / 2);
        lemma_fundamental_div_mod(a / 2, p / 2);
        assert(a / 2 == (p / 2) * m);
        assert(a == m * p) by (nonlinear_arith)
            requires
                a / 2 == (p / 2) * m,
                a % 2 == 0,
                p % 2 == 0,
        ;
        lemma_mod_multiples_basic(m, p);
    }
}

/// The extent hook always finds its extent: in a page-aligned mapping of
/// the length that `extent_map_len` gives, for a size in whole pages and
/// power-of-two page size and alignment, the aligned extent fits, starts on
/// the alignment, and the head and tail it leaves start and end on page
/// boundaries, so they can be unmapped.
pub proof fn lemma_extent_cut_fits(addr: usize, size: usize, alignment: usize, page: usize)
    requires
        is_pow2(page as int),
        is_pow2(alignment as int),
        addr % page == 0,
        size % page == 0,
        extent_map_len_spec(false, size, alignment, page) is Some,
        addr + extent_map_len_spec(false, size, alignment, page)->0 <= usize::MAX,
    ensures
        cut_extent_spec(addr, extent_map_len_spec(false, size, alignment, page)->0, size, alignment)
            matches Some(cut) && cut.start % alignment == 0 && cut.head_len % page == 0
            && cut.tail_start % page == 0,
{
    reveal(is_pow2);
    let al = alignment as int;
    let pg = page as int;
    let ad = addr as int;
    let sz = size as int;
    let rem = ad % al;
    if al <= pg {
        lemma_pow2_divides(al, pg);
        let k = pg / al;
        lemma_fundamental_div_mod(pg, al);
        assert(pg == al * k);
        assert(k > 0) by (nonlinear_arith)
            requires
                pg == al * k,
                pg > 0,
                al > 0,
        ;
        lemma_mod_mod(ad, al, k);
        assert(rem == 0);
    } else {
        lemma_pow2_divides(pg, al);
        let k = al / pg;
        lemma_fundamental_div_mod(al, pg);
        assert(al == pg * k);
        assert(k > 0) by (nonlinear_arith)
            requires
                al == pg * k,
                pg > 0,
                al > 0,
        ;
        lemma_mod_mod(ad, pg, k);
        assert(rem % pg == 0);
        if rem != 0 {
            lemma_fundamental_div_mod(rem, pg);
            assert(rem >= pg) by (nonlinear_arith)
                requires
                    rem == pg * (rem / pg),
                    rem > 0,
                    pg > 0,
            ;
            let q = k - rem / pg;
            assert(al - rem == q * pg) by (nonlinear_arith)
                requires
                    al == pg * k,
                    rem == pg * (rem / pg),
                    q == k - rem / pg,
            ;
            lemma_mod_multiples_basic(q, pg);
            assert((al - rem) % pg == 0);
        }
    }
    let start = align_up(ad, al);
    lemma_fundamental_div_mod(ad, al);
    if rem != 0 {
        let q = ad / al + 1;
        assert(start == q * al) by (nonlinear_arith)
            requires
                ad == al * (ad / al) + rem,
                start == ad + al - rem,
                q == ad / al + 1,
        ;
        lemma_mod_multiples_basic(q, al);
    }
    assert(start % al == 0);
    assert((start - ad) % pg == 0);
    lemma_fundamental_div_mod(ad, pg);
    lemma_fundamental_div_mod(sz, pg);
    lemma_fundamental_div_mod(start - ad, pg);
    let q2 = ad / pg + sz / pg + (start - ad) / pg;
    assert(start + sz == q2 * pg) by (nonlinear_arith)
        requires
            ad == pg * (ad / pg) + ad % pg,
            ad % pg == 0,
            sz == pg * (sz / pg) + sz % pg,
            sz % pg == 0,
            start - ad == pg * ((start - ad) / pg) + (start - ad) % pg,
            (start - ad) % pg == 0,
            q2 == ad / pg + sz / pg + (start - ad) / pg,
    ;
    lemma_mod_multiples_basic(q2, pg);
}


/// What `hmmap` does at each step: a failed `mmap` returns `MAP_FAILED`;
/// a new mapping is bound with `mbind` to exactly the configured node mask,
/// under the configured mode and node count, when the mask is not empty, and
/// is returned as it is when the mask is empty; a successful binding returns
/// the mapping and a failed one unmaps it and returns null.
pub proof fn lemma_map_step_law(policy: NumaPolicy, status: i64)
    ensures
        map_next_spec(policy, MapEvent::Mapped { failed: true }) == MapAction::ReturnFailure,
        policy.nodemask != 0 ==> map_next_spec(policy, MapEvent::Mapped { failed: false }) == (MapAction::Bind {
            request: BindRequest {
                mode: policy.mpol_mode,
                nodemask: policy.nodemask,
                maxnode: policy.maxnode as u64,
            },
        }),
        policy.nodemask == 0 ==> map_next_spec(policy, MapEvent::Mapped { failed: false }) == MapAction::ReturnMapping,
        status == 0 ==> map_next_spec(policy, MapEvent::Bound { status }) == MapAction::ReturnMapping,
        status != 0 ==> map_next_spec(policy, MapEvent::Bound { status }) == MapAction::UnmapAndReturnNull,
{
}

/// The mapping that the extent hook asks for: none for a fixed address;
/// exactly the extent's size when page alignment is enough; the size plus
/// the alignment less one page otherwise, when that fits in a `usize`.
pub proof fn lemma_extent_map_len_law(at_fixed_address: bool, size: usize, alignment: usize, page: usize)
    ensures
        at_fixed_address ==> extent_map_len_spec(at_fixed_address, size, alignment, page) is None,
        !at_fixed_address && alignment <= page ==> extent_map_len_spec(at_fixed_address, size, alignment, page)
            == Some(size),
        !at_fixed_address && alignment > page && size + alignment - page <= usize::MAX
            ==> extent_map_len_spec(at_fixed_address, size, alignment, page) == Some((size + alignment - page) as usize),
        !at_fixed_address && alignment > page && size + alignment - page > usize::MAX
            ==> extent_map_len_spec(at_fixed_address, size, alignment, page) is None,
{
}

/// `x` is a multiple of `a`.
pub open spec fn is_multiple_of(x: int, a: int) -> bool {
    x % a == 0
}

/// A cut extent is what jemalloc asked for: it starts on the alignment, at
/// the first such address of the mapping (less than one alignment in), it
/// lies inside the mapping, and the head before it, the extent and the tail
/// after it make up the whole mapping. There is no cut only when no aligned
/// extent fits there.
pub proof fn lemma_cut_extent_law(addr: usize, map_len: usize, size: usize, alignment: usize)
    requires
        alignment > 0,
    ensures
        cut_extent_spec(addr, map_len, size, alignment) matches Some(cut) ==> {
            &&& cut.start % alignment == 0
            &&& addr <= cut.start < addr + alignment
            &&& cut.head_len == cut.start - addr
            &&& cut.tail_start == cut.start + size
            &&& cut.head_len + size + cut.tail_len == map_len
        },
        cut_extent_spec(addr, map_len, size, alignment) is None ==> addr + map_len > usize::MAX
            || forall|start: int| addr <= start && #[trigger] is_multiple_of(start, alignment as int)
                ==> start + size > addr + map_len,
{
    let a = alignment as int;
    let ad = addr as int;
    let rem = ad % a;
    lemma_fundamental_div_mod(ad, a);
    let start = align_up(ad, a);
    if rem != 0 {
        let q = ad / a + 1;
        assert(start == q * a) by (nonlinear_arith)
            requires
                ad == a * (ad / a) + rem,
                start == ad + a - rem,
                q == ad / a + 1,
        ;
        lemma_mod_multiples_basic(q, a);
    }
    assert(start % a == 0);
    assert forall|st: int| ad <= st && #[trigger] is_multiple_of(st, a) implies start <= st by {
        lemma_fundamental_div_mod(st, a);
        if st < start {
            assert(false) by (nonlinear_arith)
                requires
                    ad <= st,
                    st < start,
                    st == a * (st / a),
                    ad == a * (ad / a) + rem,
                    0 <= rem < a,
                    rem == 0 ==> start == ad,
                    rem != 0 ==> start == ad + a - rem,
            ;
        }
    }
}

} // verus!
