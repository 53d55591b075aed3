//! The allocator's state, fixed once per process.
use vstd::prelude::*;
use once_cell::sync::OnceCell;
use crate::env::EnvSettings;

verus! {

#[verifier::external_type_specification]
#[verifier::external_body]
#[verifier::reject_recursive_types(T)]
pub struct ExOnceCell<T>(OnceCell<T>);

/// What a state holds, field by field.
pub struct StateModel {
    pub use_jemalloc: bool,
    pub nodemask: u64,
    pub mpol_mode: i32,
    pub arena_index: u32,
    pub maxnode: i32,
}

/// A state that serves from the system allocator has no jemalloc arena and
/// no NUMA node count.
pub open spec fn consistent(m: StateModel) -> bool {
    !m.use_jemalloc ==> m.arena_index == 0 && m.maxnode == 0
}

/// Settings read from the environment, together with the arena and the
/// NUMA node count of the jemalloc back end when it is on.
pub struct AllocState {
    use_jemalloc: bool,
    nodemask: u64,
    mpol_mode: i32,
    arena_index: u32,
    maxnode: i32,
}

impl View for AllocState {
    type V = StateModel;

    closed spec fn view(&self) -> StateModel {
        StateModel {
            use_jemalloc: self.use_jemalloc,
            nodemask: self.nodemask,
            mpol_mode: self.mpol_mode,
            arena_index: self.arena_index,
            maxnode: self.maxnode,
        }
    }
}

/// What the jemalloc back end brings once it is set up.
pub struct JemallocBackend {
    /// Highest NUMA node number the kernel can handle.
    pub maxnode: i32,
    /// Index of the arena created for this allocator.
    pub arena_index: u32,
}

impl AllocState {
    #[verifier::type_invariant]
    spec fn state_inv(self) -> bool {
        consistent(self@)
    }

    /// Whether requests go to the jemalloc back end.
    pub fn use_jemalloc(&self) -> (r: bool)
        ensures
            r == self@.use_jemalloc,
    {
        self.use_jemalloc
    }

    /// NUMA node mask that new mappings are bound to (0: no binding).
    pub fn nodemask(&self) -> (r: u64)
        ensures
            r == self@.nodemask,
    {
        self.nodemask
    }

    /// Memory-policy mode of that binding.
    pub fn mpol_mode(&self) -> (r: i32)
        ensures
            r == self@.mpol_mode,
    {
        self.mpol_mode
    }

    /// The jemalloc arena that serves requests.
    pub fn arena_index(&self) -> (r: u32)
        ensures
            r == self@.arena_index,
    {
        self.arena_index
    }

    /// Highest NUMA node number the kernel can handle.
    pub fn maxnode(&self) -> (r: i32)
        ensures
            r == self@.maxnode,
    {
        self.maxnode
    }

}

/// The state that `init_state` builds from `settings` and `backend`.
pub open spec fn init_state_model(settings: EnvSettings, backend: Option<JemallocBackend>) -> StateModel {
    StateModel {
        use_jemalloc: settings.use_jemalloc,
        nodemask: settings.nodemask,
        mpol_mode: settings.mpol_mode,
        arena_index: match backend {
            Some(b) => b.arena_index,
            None => 0,
        },
        maxnode: match backend {
            Some(b) => b.maxnode,
            None => 0,
        },
    }
}

/// Builds the state from the settings; the jemalloc back end is set up
/// exactly when the settings ask for it.
pub fn init_state(settings: EnvSettings, backend: Option<JemallocBackend>) -> (r: AllocState)
    requires
        settings.use_jemalloc <==> backend is Some,
    ensures
        r@ == init_state_model(settings, backend),
{
    match backend {
        Some(b) => AllocState {
            use_jemalloc: true,
            nodemask: settings.nodemask,
            mpol_mode: settings.mpol_mode,
            arena_index: b.arena_index,
            maxnode: b.maxnode,
        },
        None => AllocState {
            use_jemalloc: false,
            nodemask: settings.nodemask,
            mpol_mode: settings.mpol_mode,
            arena_index: 0,
            maxnode: 0,
        },
    }
}

/// What a cell holds over its life: the one state it is filled with.
pub uninterp spec fn cell_contents(cell: OnceCell<AllocState>) -> Seq<StateModel>;

/// Calls `once_cell::sync::OnceCell::get_or_init` with a closure that
/// calls the verified `init_state(settings, backend)` and records that it
/// ran. A cell is filled at most once, by the one closure that runs, and its
/// value never changes through a shared reference: every call on one cell
/// returns the one state of `cell_contents`, and when this call's closure
/// ran (the flag) that state is the one it built. Which caller's closure
/// runs is chance and is not stated. The closure cannot reach the cell
/// again and does not panic, so the call returns.
#[verifier::external_body]
fn cell_get_or_init<'a>(
    cell: &'a OnceCell<AllocState>,
    settings: EnvSettings,
    backend: Option<JemallocBackend>,
) -> (r: (&'a AllocState, Ghost<bool>))
    requires
        settings.use_jemalloc <==> backend is Some,
    ensures
        cell_contents(*cell) == seq![r.0@],
        r.1@ ==> r.0@ == init_state_model(settings, backend),
{
    let mut ran = false;
    let state = cell.get_or_init(|| {
        ran = true;
        init_state(settings, backend)
    });
    (state, Ghost(ran))
}

/// The process's state: the one in `cell`, built from `settings` and
/// `backend` when this call filled the cell (the flag it returns). Every
/// call on one cell gives back the same state, and that state is
/// consistent.
pub fn get<'a>(
    cell: &'a OnceCell<AllocState>,
    settings: EnvSettings,
    backend: Option<JemallocBackend>,
) -> (r: (&'a AllocState, Ghost<bool>))
    requires
        settings.use_jemalloc <==> backend is Some,
    ensures
        cell_contents(*cell).len() == 1,
        cell_contents(*cell)[0] == r.0@,
        r.1@ ==> r.0@ == init_state_model(settings, backend),
        consistent(r.0@),
{
    let (state, ran) = cell_get_or_init(cell, settings, backend);
    proof {
        use_type_invariant(state);
        assert(seq![state@][0] == state@);
    }
    (state, ran)
}

/// The state built from the environment keeps the three settings as they
/// were read, and carries the jemalloc arena and node count exactly when the
/// back end was set up (zero for both otherwise); every such state is
/// consistent.
pub proof fn lemma_init_state_law(settings: EnvSettings, backend: Option<JemallocBackend>)
    requires
        settings.use_jemalloc <==> backend is Some,
    ensures
        init_state_model(settings, backend).use_jemalloc == settings.use_jemalloc,
        init_state_model(settings, backend).nodemask == settings.nodemask,
        init_state_model(settings, backend).mpol_mode == settings.mpol_mode,
        backend matches Some(b) ==> init_state_model(settings, backend).arena_index == b.arena_index
            && init_state_model(settings, backend).maxnode == b.maxnode,
        backend is None ==> init_state_model(settings, backend).arena_index == 0
            && init_state_model(settings, backend).maxnode == 0,
        consistent(init_state_model(settings, backend)),
{
}

/// Two states that `get` gave back for one cell are the same state: the
/// allocator serves, releases and resizes every block under one state.
pub proof fn lemma_one_state_per_cell(cell: OnceCell<AllocState>, first: StateModel, second: StateModel)
    requires
        cell_contents(cell).len() == 1,
        cell_contents(cell)[0] == first,
        cell_contents(cell)[0] == second,
    ensures
        first == second,
{
}

} // verus!
