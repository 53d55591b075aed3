//! What each entry point of the allocator does with a request: which back
//! end serves it, with which jemalloc flags, and which requests it refuses.
//! Pointers stay with the caller; a request is described by whether its
//! pointer is null and by its sizes.
use vstd::prelude::*;
use crate::jemalloc::{
    is_power_of_two, mallocx_align_flags, mallocx_align_flags_spec, mallocx_flags,
    mallocx_flags_spec,
};
use crate::state::{AllocState, StateModel};
use vstd::arithmetic::power2::is_pow2;

verus! {

/// `EINVAL` on the platforms the allocator runs on.
pub open spec fn einval_code() -> i32 {
    22
}

/// `ENOMEM` on the platforms the allocator runs on.
pub open spec fn enomem_code() -> i32 {
    12
}

/// Reads `libc::EINVAL`, 22 on Linux and on macOS.
#[verifier::external_body]
fn einval() -> (r: i32)
    ensures
        r == einval_code(),
{
    libc::EINVAL
}

/// Reads `libc::ENOMEM`, 12 on Linux and on macOS.
#[verifier::external_body]
fn enomem() -> (r: i32)
    ensures
        r == enomem_code(),
{
    libc::ENOMEM
}

/// Who serves an allocation of fresh memory.
#[derive(Clone, Copy, Debug, PartialEq, Eq, Structural)]
pub enum MallocRoute {
    /// The system allocator, with the caller's arguments.
    System,
    /// jemalloc's `mallocx` for this many bytes, with these flags.
    Mallocx { flags: i32, size: usize },
}

/// Who releases a block.
#[derive(Clone, Copy, Debug, PartialEq, Eq, Structural)]
pub enum FreeRoute {
    /// A null pointer: nothing to do.
    Nothing,
    /// The system allocator's `free`.
    System,
    /// jemalloc's `dallocx` with these flags.
    Dallocx { flags: i32 },
}

/// What a resize request becomes.
#[derive(Clone, Copy, Debug, PartialEq, Eq, Structural)]
pub enum ReallocRoute {
    /// The system allocator's `realloc`, with the caller's arguments.
    System,
    /// A null pointer: a fresh allocation by `mallocx` for this many bytes,
    /// with these flags.
    Mallocx { flags: i32, size: usize },
    /// A size of zero: the block is released by `dallocx` with these flags
    /// and null is returned.
    Dallocx { flags: i32 },
    /// jemalloc's `rallocx` to this many bytes, with these flags.
    Rallocx { flags: i32, size: usize },
}

/// What an aligned allocation becomes.
#[derive(Clone, Copy, Debug, PartialEq, Eq, Structural)]
pub enum AlignedRoute {
    /// The system allocator, with the caller's arguments.
    System,
    /// Refused: null is returned and `errno` is set to this code.
    Refused { errno: i32 },
    /// jemalloc's `mallocx` for this many bytes, with these flags.
    Mallocx { flags: i32, size: usize },
}

/// What a size query becomes.
#[derive(Clone, Copy, Debug, PartialEq, Eq, Structural)]
pub enum UsableSizeRoute {
    /// The system allocator's own query.
    System,
    /// A null pointer: the answer is 0.
    Zero,
    /// jemalloc's `sallocx` with these flags.
    Sallocx { flags: i32 },
}

/// The byte count that jemalloc is asked for: `mallocx` is undefined for a
/// size of zero, so a request for nothing asks for one byte, which gives a
/// unique block that can be freed.
pub open spec fn jemalloc_size(size: usize) -> usize {
    if size == 0 {
        1
    } else {
        size
    }
}

/// The byte count that jemalloc is asked for in place of `size`.
pub fn jemalloc_request_size(size: usize) -> (r: usize)
    ensures
        r == jemalloc_size(size),
        r > 0,
{
    if size == 0 {
        1
    } else {
        size
    }
}

/// The flags that every jemalloc request of a state carries.
pub open spec fn state_flags(s: StateModel) -> i32 {
    mallocx_flags_spec(s.arena_index)
}

pub open spec fn malloc_route_spec(s: StateModel, size: usize) -> MallocRoute {
    if s.use_jemalloc {
        MallocRoute::Mallocx { flags: state_flags(s), size: jemalloc_size(size) }
    } else {
        MallocRoute::System
    }
}

pub open spec fn free_route_spec(s: StateModel, ptr_is_null: bool) -> FreeRoute {
    if ptr_is_null {
        FreeRoute::Nothing
    } else if s.use_jemalloc {
        FreeRoute::Dallocx { flags: state_flags(s) }
    } else {
        FreeRoute::System
    }
}

pub open spec fn realloc_route_spec(s: StateModel, ptr_is_null: bool, size: usize) -> ReallocRoute {
    if !s.use_jemalloc {
        ReallocRoute::System
    } else if ptr_is_null {
        ReallocRoute::Mallocx { flags: state_flags(s), size: jemalloc_size(size) }
    } else if size == 0 {
        ReallocRoute::Dallocx { flags: state_flags(s) }
    } else {
        ReallocRoute::Rallocx { flags: state_flags(s), size }
    }
}

pub open spec fn aligned_alloc_route_spec(s: StateModel, alignment: usize, size: usize) -> AlignedRoute {
    if !s.use_jemalloc {
        AlignedRoute::System
    } else if !is_pow2(alignment as int) || size % alignment != 0 {
        AlignedRoute::Refused { errno: einval_code() }
    } else {
        AlignedRoute::Mallocx {
            flags: mallocx_align_flags_spec(s.arena_index, alignment),
            size: jemalloc_size(size),
        }
    }
}

/// The size of a pointer, the least alignment `posix_memalign` takes.
pub open spec fn pointer_size() -> nat {
    (usize::BITS / 8) as nat
}

pub open spec fn posix_memalign_route_spec(s: StateModel, alignment: usize, size: usize) -> AlignedRoute {
    if !s.use_jemalloc {
        AlignedRoute::System
    } else if alignment < pointer_size() || !is_pow2(alignment as int) {
        AlignedRoute::Refused { errno: einval_code() }
    } else {
        AlignedRoute::Mallocx {
            flags: mallocx_align_flags_spec(s.arena_index, alignment),
            size: jemalloc_size(size),
        }
    }
}

pub open spec fn usable_size_route_spec(s: StateModel, ptr_is_null: bool) -> UsableSizeRoute {
    if !s.use_jemalloc {
        UsableSizeRoute::System
    } else if ptr_is_null {
        UsableSizeRoute::Zero
    } else {
        UsableSizeRoute::Sallocx { flags: 0 }
    }
}

impl AllocState {
    /// Route of `hmalloc(size)`.
    pub fn malloc_route(&self, size: usize) -> (r: MallocRoute)
        ensures
            r == malloc_route_spec(self@, size),
    {
        if !self.use_jemalloc() {
            return MallocRoute::System;
        }
        MallocRoute::Mallocx {
            flags: mallocx_flags(self.arena_index()),
            size: jemalloc_request_size(size),
        }
    }

    /// Route of `hfree`.
    pub fn free_route(&self, ptr_is_null: bool) -> (r: FreeRoute)
        ensures
            r == free_route_spec(self@, ptr_is_null),
    {
        if ptr_is_null {
            return FreeRoute::Nothing;
        }
        if !self.use_jemalloc() {
            return FreeRoute::System;
        }
        FreeRoute::Dallocx { flags: mallocx_flags(self.arena_index()) }
    }

    /// Route of `hrealloc`.
    pub fn realloc_route(&self, ptr_is_null: bool, size: usize) -> (r: ReallocRoute)
        ensures
            r == realloc_route_spec(self@, ptr_is_null, size),
    {
        if !self.use_jemalloc() {
            return ReallocRoute::System;
        }
        let flags = mallocx_flags(self.arena_index());
        if ptr_is_null {
            return ReallocRoute::Mallocx { flags, size: jemalloc_request_size(size) };
        }
        if size == 0 {
            return ReallocRoute::Dallocx { flags };
        }
        ReallocRoute::Rallocx { flags, size }
    }

    /// Route of `haligned_alloc`: with jemalloc, an alignment that is not a
    /// power of two (zero included), or a size that is not a multiple of the
    /// alignment, is refused with `EINVAL` and nothing is allocated.
    pub fn aligned_alloc_route(&self, alignment: usize, size: usize) -> (r: AlignedRoute)
        ensures
            r == aligned_alloc_route_spec(self@, alignment, size),
    {
        if !self.use_jemalloc() {
            return AlignedRoute::System;
        }
        proof {
            reveal(is_pow2);
        }
        if alignment == 0 || !is_power_of_two(alignment) || size % alignment != 0 {
            return AlignedRoute::Refused { errno: einval() };
        }
        AlignedRoute::Mallocx {
            flags: mallocx_align_flags(self.arena_index(), alignment),
            size: jemalloc_request_size(size),
        }
    }

    /// Route of `hposix_memalign`: with jemalloc, an alignment below the
    /// size of a pointer or not a power of two is refused with `EINVAL`.
    pub fn posix_memalign_route(&self, alignment: usize, size: usize) -> (r: AlignedRoute)
        ensures
            r == posix_memalign_route_spec(self@, alignment, size),
    {
        if !self.use_jemalloc() {
            return AlignedRoute::System;
        }
        proof {
            broadcast use vstd::layout::layout_of_primitives;
        }
        let word = core::mem::size_of::<usize>();
        assert(word == pointer_size());
        if alignment < word || !is_power_of_two(alignment) {
            return AlignedRoute::Refused { errno: einval() };
        }
        AlignedRoute::Mallocx {
            flags: mallocx_align_flags(self.arena_index(), alignment),
            size: jemalloc_request_size(size),
        }
    }

    /// Route of `hmalloc_usable_size`.
    pub fn usable_size_route(&self, ptr_is_null: bool) -> (r: UsableSizeRoute)
        ensures
            r == usable_size_route_spec(self@, ptr_is_null),
    {
        if !self.use_jemalloc() {
            return UsableSizeRoute::System;
        }
        if ptr_is_null {
            return UsableSizeRoute::Zero;
        }
        UsableSizeRoute::Sallocx { flags: 0 }
    }
}

/// The byte count of `hcalloc(nmemb, size)`: the product, or `None` when it
/// does not fit in a `usize` (the request then fails with null).
pub fn calloc_total(nmemb: usize, size: usize) -> (r: Option<usize>)
    ensures
        r == (if nmemb * size <= usize::MAX {
            Some((nmemb * size) as usize)
        } else {
            None::<usize>
        }),
{
    nmemb.checked_mul(size)
}

/// The code `hposix_memalign` returns when jemalloc hands back null:
/// the `errno` that jemalloc left, or `ENOMEM` when it left none.
pub fn memalign_failure_code(errno_after: i32) -> (r: i32)
    ensures
        r == (if errno_after == 0 {
            enomem_code()
        } else {
            errno_after
        }),
{
    if errno_after == 0 {
        enomem()
    } else {
        errno_after
    }
}


/// A block that `hmalloc` hands out goes back through the same back end:
/// `hfree` releases it, and `hrealloc` resizes or releases it, with the very
/// flags (hence the very arena) that allocated it.
pub proof fn lemma_block_returns_to_its_arena(s: StateModel, size: usize, new_size: usize)
    ensures
        malloc_route_spec(s, size) == MallocRoute::System ==> free_route_spec(s, false) == FreeRoute::System
            && realloc_route_spec(s, false, new_size) == ReallocRoute::System,
        malloc_route_spec(s, size) matches MallocRoute::Mallocx { flags, .. } ==> {
            &&& free_route_spec(s, false) == (FreeRoute::Dallocx { flags })
            &&& realloc_route_spec(s, false, new_size) == (ReallocRoute::Rallocx { flags, size: new_size })
                || realloc_route_spec(s, false, new_size) == (ReallocRoute::Dallocx { flags })
        },
{
}

/// `hrealloc(NULL, size)` is `hmalloc(size)`, and with jemalloc
/// `hrealloc(ptr, 0)` is `hfree(ptr)` followed by a null result.
pub proof fn lemma_realloc_edge_cases(s: StateModel, size: usize)
    ensures
        realloc_route_spec(s, true, size) == (match malloc_route_spec(s, size) {
            MallocRoute::System => ReallocRoute::System,
            MallocRoute::Mallocx { flags, size } => ReallocRoute::Mallocx { flags, size },
        }),
        s.use_jemalloc ==> (match free_route_spec(s, false) {
            FreeRoute::Dallocx { flags } => realloc_route_spec(s, false, 0) == (ReallocRoute::Dallocx { flags }),
            _ => false,
        }),
{
}

/// jemalloc is never asked for zero bytes: every `mallocx` and `rallocx`
/// request of the entry points carries a positive size, at least the one
/// asked for.
pub proof fn lemma_jemalloc_sizes_are_positive(s: StateModel, ptr_is_null: bool, alignment: usize, size: usize)
    ensures
        malloc_route_spec(s, size) matches MallocRoute::Mallocx { size: n, .. } ==> n > 0 && n >= size,
        realloc_route_spec(s, ptr_is_null, size) matches ReallocRoute::Mallocx { size: n, .. } ==> n > 0 && n >= size,
        realloc_route_spec(s, ptr_is_null, size) matches ReallocRoute::Rallocx { size: n, .. } ==> n > 0 && n == size,
        aligned_alloc_route_spec(s, alignment, size) matches AlignedRoute::Mallocx { size: n, .. } ==> n > 0 && n >= size,
        posix_memalign_route_spec(s, alignment, size) matches AlignedRoute::Mallocx { size: n, .. } ==> n > 0 && n >= size,
{
}

/// Every alignment that `hposix_memalign` takes, `haligned_alloc` takes too
/// for a size that is a multiple of it, and both then ask jemalloc for the
/// same allocation; `haligned_alloc` never takes a size that is not such a
/// multiple.
pub proof fn lemma_memalign_agrees_with_aligned_alloc(s: StateModel, alignment: usize, size: usize)
    ensures
        (posix_memalign_route_spec(s, alignment, size) matches AlignedRoute::Mallocx { .. })
            && size % alignment == 0
            ==> aligned_alloc_route_spec(s, alignment, size) == posix_memalign_route_spec(s, alignment, size),
        (aligned_alloc_route_spec(s, alignment, size) matches AlignedRoute::Mallocx { .. })
            ==> alignment > 0 && size % alignment == 0,
{
    reveal(is_pow2);
}


/// jemalloc is asked for the size requested, and for one byte in place of
/// zero; a failed aligned allocation reports `errno` 22 (`EINVAL`), and a
/// failed `hposix_memalign` returns jemalloc's `errno`, or 12 (`ENOMEM`)
/// when that is 0.
pub proof fn lemma_sizes_and_codes_law(size: usize)
    ensures
        size == 0 ==> jemalloc_size(size) == 1,
        size > 0 ==> jemalloc_size(size) == size,
        einval_code() == 22,
        enomem_code() == 12,
{
}

/// What `hmalloc(size)` does: without jemalloc the system allocator serves
/// it; with jemalloc it is a `mallocx` in the state's arena without a
/// thread cache, for the size asked (one byte for zero).
pub proof fn lemma_malloc_route_law(s: StateModel, size: usize)
    ensures
        !s.use_jemalloc ==> malloc_route_spec(s, size) == MallocRoute::System,
        s.use_jemalloc ==> malloc_route_spec(s, size) == (MallocRoute::Mallocx {
            flags: mallocx_flags_spec(s.arena_index),
            size: if size == 0 { 1usize } else { size },
        }),
{
}

/// What `hfree(ptr)` does: nothing for a null pointer, whatever the back
/// end; otherwise the system allocator's `free`, or a `dallocx` in the
/// state's arena.
pub proof fn lemma_free_route_law(s: StateModel, ptr_is_null: bool)
    ensures
        ptr_is_null ==> free_route_spec(s, ptr_is_null) == FreeRoute::Nothing,
        !ptr_is_null && !s.use_jemalloc ==> free_route_spec(s, ptr_is_null) == FreeRoute::System,
        !ptr_is_null && s.use_jemalloc ==> free_route_spec(s, ptr_is_null) == (FreeRoute::Dallocx {
            flags: mallocx_flags_spec(s.arena_index),
        }),
{
}

/// What `hrealloc(ptr, size)` does: without jemalloc, the system
/// allocator's `realloc` for every pointer and size. With jemalloc, a null
/// pointer is a fresh `mallocx` of the size (one byte for zero); a live
/// block is released, and null returned, exactly when the size is zero;
/// every positive size resizes it with `rallocx` to exactly that size, in
/// the state's arena.
pub proof fn lemma_realloc_route_law(s: StateModel, ptr_is_null: bool, size: usize)
    ensures
        !s.use_jemalloc ==> realloc_route_spec(s, ptr_is_null, size) == ReallocRoute::System,
        s.use_jemalloc && ptr_is_null ==> realloc_route_spec(s, ptr_is_null, size) == (ReallocRoute::Mallocx {
            flags: mallocx_flags_spec(s.arena_index),
            size: if size == 0 { 1usize } else { size },
        }),
        s.use_jemalloc && !ptr_is_null ==> ((realloc_route_spec(s, ptr_is_null, size) is Dallocx) <==> size == 0),
        s.use_jemalloc && !ptr_is_null && size == 0 ==> realloc_route_spec(s, ptr_is_null, size) == (ReallocRoute::Dallocx {
            flags: mallocx_flags_spec(s.arena_index),
        }),
        s.use_jemalloc && !ptr_is_null && size > 0 ==> realloc_route_spec(s, ptr_is_null, size) == (ReallocRoute::Rallocx {
            flags: mallocx_flags_spec(s.arena_index),
            size,
        }),
{
}

/// What `haligned_alloc(alignment, size)` does with jemalloc: it is refused
/// with `EINVAL` (22) exactly when the alignment is not a power of two or
/// the size is not a multiple of it; otherwise it is a `mallocx` of the size
/// (one byte for zero) with the flags of an aligned request. Without
/// jemalloc the system allocator decides.
pub proof fn lemma_aligned_alloc_route_law(s: StateModel, alignment: usize, size: usize)
    ensures
        !s.use_jemalloc ==> aligned_alloc_route_spec(s, alignment, size) == AlignedRoute::System,
        s.use_jemalloc ==> ((aligned_alloc_route_spec(s, alignment, size) == AlignedRoute::Refused { errno: 22 })
            <==> (alignment == 0 || !is_pow2(alignment as int) || size % alignment != 0)),
        s.use_jemalloc && alignment > 0 && is_pow2(alignment as int) && size % alignment == 0
            ==> aligned_alloc_route_spec(s, alignment, size) == (AlignedRoute::Mallocx {
            flags: mallocx_align_flags_spec(s.arena_index, alignment),
            size: if size == 0 { 1usize } else { size },
        }),
{
    reveal(is_pow2);
}

/// What `hposix_memalign(p, alignment, size)` does with jemalloc: it is
/// refused with `EINVAL` (22) exactly when the alignment is below the size of
/// a pointer or not a power of two, whatever the size; every other request
/// is a `mallocx` of the size (one byte for zero) with the flags of an
/// aligned request. Without jemalloc the system allocator decides.
pub proof fn lemma_posix_memalign_route_law(s: StateModel, alignment: usize, size: usize)
    ensures
        !s.use_jemalloc ==> posix_memalign_route_spec(s, alignment, size) == AlignedRoute::System,
        s.use_jemalloc ==> ((posix_memalign_route_spec(s, alignment, size) == AlignedRoute::Refused { errno: 22 })
            <==> (alignment < usize::BITS / 8 || !is_pow2(alignment as int))),
        s.use_jemalloc && alignment >= usize::BITS / 8 && is_pow2(alignment as int)
            ==> posix_memalign_route_spec(s, alignment, size) == (AlignedRoute::Mallocx {
            flags: mallocx_align_flags_spec(s.arena_index, alignment),
            size: if size == 0 { 1usize } else { size },
        }),
{
}

/// What `hmalloc_usable_size(ptr)` does: without jemalloc the system
/// allocator answers for every pointer, null or not; with jemalloc a null
/// pointer has usable size 0 and a live block is measured by `sallocx`
/// with no flags.
pub proof fn lemma_usable_size_route_law(s: StateModel, ptr_is_null: bool)
    ensures
        !s.use_jemalloc ==> usable_size_route_spec(s, ptr_is_null) == UsableSizeRoute::System,
        s.use_jemalloc && ptr_is_null ==> usable_size_route_spec(s, ptr_is_null) == UsableSizeRoute::Zero,
        s.use_jemalloc && !ptr_is_null ==> usable_size_route_spec(s, ptr_is_null) == (UsableSizeRoute::Sallocx { flags: 0 }),
        (usable_size_route_spec(s, ptr_is_null) == UsableSizeRoute::Zero) <==> (s.use_jemalloc && ptr_is_null),
{
}

} // verus!
