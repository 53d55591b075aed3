//! `hmctl`'s choice of memory policy, and the environment it hands to the
//! program that it runs under that policy.
use vstd::prelude::*;
use vstd::arithmetic::power2::pow2;
use crate::decimal::{decimal, format_i32, format_u64, signed_decimal, lemma_u64_text_round_trip,
    lemma_i32_text_round_trip};
use crate::env::{jemalloc_setting, mpol_mode_setting, nodemask_setting};

verus! {

/// `MPOL_PREFERRED` of the Linux kernel.
pub const MPOL_PREFERRED: i32 = 1;

/// `MPOL_BIND` of the Linux kernel.
pub const MPOL_BIND: i32 = 2;

/// `MPOL_INTERLEAVE` of the Linux kernel.
pub const MPOL_INTERLEAVE: i32 = 3;

/// `MPOL_PREFERRED_MANY` of the Linux kernel.
pub const MPOL_PREFERRED_MANY: i32 = 5;

/// `MPOL_WEIGHTED_INTERLEAVE` of the Linux kernel.
pub const MPOL_WEIGHTED_INTERLEAVE: i32 = 6;

/// The policy options of the command line.
pub struct PolicyArgs {
    /// Node list to bind to.
    pub membind: Option<String>,
    /// The one node to prefer.
    pub preferred: Option<i32>,
    /// Node list to prefer.
    pub preferred_many: Option<String>,
    /// Node list to interleave over.
    pub interleave: Option<String>,
    /// Node list to interleave over by weight.
    pub weighted_interleave: Option<String>,
}

/// The option that decides the policy.
#[derive(Clone, Copy, Debug, PartialEq, Eq, Structural)]
pub enum PolicySource {
    Membind,
    PreferredMany,
    Preferred { node: i32 },
    WeightedInterleave,
    Interleave,
}

/// Options take precedence in this order: membind, preferred-many,
/// preferred (a node number of 0 or more), weighted-interleave, interleave.
pub open spec fn select_policy_spec(args: PolicyArgs) -> Option<PolicySource> {
    if args.membind is Some {
        Some(PolicySource::Membind)
    } else if args.preferred_many is Some {
        Some(PolicySource::PreferredMany)
    } else if args.preferred matches Some(n) && n >= 0 {
        Some(PolicySource::Preferred { node: args.preferred->0 })
    } else if args.weighted_interleave is Some {
        Some(PolicySource::WeightedInterleave)
    } else if args.interleave is Some {
        Some(PolicySource::Interleave)
    } else {
        None
    }
}

/// The kernel's mode for each policy.
pub open spec fn policy_mode_spec(source: PolicySource) -> i32 {
    match source {
        PolicySource::Membind => MPOL_BIND,
        PolicySource::PreferredMany => MPOL_PREFERRED_MANY,
        PolicySource::Preferred { .. } => MPOL_PREFERRED,
        PolicySource::WeightedInterleave => MPOL_WEIGHTED_INTERLEAVE,
        PolicySource::Interleave => MPOL_INTERLEAVE,
    }
}

/// The option that decides the policy, if any.
pub fn select_policy(args: &PolicyArgs) -> (r: Option<PolicySource>)
    ensures
        r == select_policy_spec(*args),
{
    if args.membind.is_some() {
        return Some(PolicySource::Membind);
    }
    if args.preferred_many.is_some() {
        return Some(PolicySource::PreferredMany);
    }
    if let Some(node) = args.preferred {
        if node >= 0 {
            return Some(PolicySource::Preferred { node });
        }
    }
    if args.weighted_interleave.is_some() {
        return Some(PolicySource::WeightedInterleave);
    }
    if args.interleave.is_some() {
        return Some(PolicySource::Interleave);
    }
    None
}

/// The node list that a policy reads its mask from: the text of its own
/// option; the preferred policy names one node and has none.
pub open spec fn node_list_spec(args: PolicyArgs, source: PolicySource) -> Option<String> {
    match source {
        PolicySource::Membind => args.membind,
        PolicySource::PreferredMany => args.preferred_many,
        PolicySource::WeightedInterleave => args.weighted_interleave,
        PolicySource::Interleave => args.interleave,
        PolicySource::Preferred { .. } => None,
    }
}

/// The node list of the option that `source` stands for, to be parsed into
/// the policy's mask.
pub fn node_list<'a>(args: &'a PolicyArgs, source: PolicySource) -> (r: Option<&'a String>)
    ensures
        match r {
            Some(text) => node_list_spec(*args, source) == Some(*text),
            None => node_list_spec(*args, source) is None,
        },
{
    let list = match source {
        PolicySource::Membind => &args.membind,
        PolicySource::PreferredMany => &args.preferred_many,
        PolicySource::WeightedInterleave => &args.weighted_interleave,
        PolicySource::Interleave => &args.interleave,
        PolicySource::Preferred { .. } => return None,
    };
    match list {
        Some(text) => Some(text),
        None => None,
    }
}

impl PolicySource {
    /// The kernel's mode for this policy.
    pub fn mode(&self) -> (r: i32)
        ensures
            r == policy_mode_spec(*self),
    {
        match self {
            PolicySource::Membind => MPOL_BIND,
            PolicySource::PreferredMany => MPOL_PREFERRED_MANY,
            PolicySource::Preferred { .. } => MPOL_PREFERRED,
            PolicySource::WeightedInterleave => MPOL_WEIGHTED_INTERLEAVE,
            PolicySource::Interleave => MPOL_INTERLEAVE,
        }
    }
}

/// A policy with its node mask, when there is one.
#[derive(Clone, Copy, Debug, PartialEq, Eq, Structural)]
pub struct ResolvedPolicy {
    pub mode: i32,
    pub nodemask: Option<u64>,
}

/// The mask of the single node `node`.
pub fn single_node_mask(node: i32) -> (r: u64)
    requires
        0 <= node < 64,
    ensures
        r == pow2(node as nat),
{
    let shift = node as u64;
    proof {
        vstd::bits::lemma_u64_pow2_no_overflow(shift as nat);
        vstd::bits::lemma_u64_shl_is_mul(1, shift);
    }
    1u64 << shift
}

/// The policy that `source` selects. A node list (any option but
/// preferred) has its mask from `parsed_nodes`, the result of parsing the
/// option's node string (`None` when it did not parse); the preferred node
/// has the mask of that one node.
pub fn resolve_policy(source: PolicySource, parsed_nodes: Option<u64>) -> (r: ResolvedPolicy)
    requires
        source matches PolicySource::Preferred { node } ==> 0 <= node < 64,
    ensures
        r.mode == policy_mode_spec(source),
        r.nodemask == (match source {
            PolicySource::Preferred { node } => Some(pow2(node as nat) as u64),
            _ => parsed_nodes,
        }),
{
    let mode = source.mode();
    match source {
        PolicySource::Preferred { node } => ResolvedPolicy { mode, nodemask: Some(single_node_mask(node)) },
        _ => ResolvedPolicy { mode, nodemask: parsed_nodes },
    }
}

/// The values that `hmctl` gives the allocator's variables in the child's
/// environment; `None` leaves a variable as it is.
pub struct ChildEnvironment {
    /// Value of `HMALLOC_MPOL_MODE`.
    pub mpol_mode: Option<Vec<u8>>,
    /// Value of `HMALLOC_NODEMASK`.
    pub nodemask: Option<Vec<u8>>,
    /// Value of `HMALLOC_JEMALLOC`.
    pub jemalloc: Vec<u8>,
    /// Value of `LD_PRELOAD`: the allocator library's path.
    pub ld_preload: Option<Vec<u8>>,
}

/// The environment for the child under `policy`: the mode and the mask in
/// decimal, as `to_string` writes them, the jemalloc back end on, and the
/// allocator library preloaded from `lib_path`, the value of
/// `HMALLOC_LIB_PATH` (left as it is when that is unset).
pub fn setup_environ(policy: Option<ResolvedPolicy>, lib_path: Option<Vec<u8>>) -> (r: ChildEnvironment)
    ensures
        r.jemalloc@ == seq![0x31u8],
        r.ld_preload == lib_path,
        r.mpol_mode is Some <==> policy is Some,
        r.nodemask is Some <==> (policy matches Some(p) && p.nodemask is Some),
        policy matches Some(p) ==> r.mpol_mode->0@ == signed_decimal(p.mode as int),
        policy matches Some(p) ==> (match p.nodemask {
            Some(m) => r.nodemask->0@ == decimal(m as nat),
            None => true,
        }),
{
    let mut jemalloc: Vec<u8> = Vec::new();
    jemalloc.push(0x31);
    assert(jemalloc@ =~= seq![0x31u8]);
    match policy {
        Some(p) => {
            let nodemask = match p.nodemask {
                Some(m) => Some(format_u64(m)),
                None => None,
            };
            ChildEnvironment {
                mpol_mode: Some(format_i32(p.mode)),
                nodemask,
                jemalloc,
                ld_preload: lib_path,
            }
        },
        None => ChildEnvironment { mpol_mode: None, nodemask: None, jemalloc, ld_preload: lib_path },
    }
}

/// What `hmctl` writes, the allocator reads back: the program it runs
/// serves from jemalloc, under the mode and the node mask that `hmctl` chose.
pub proof fn lemma_child_reads_policy_back(policy: ResolvedPolicy)
    ensures
        jemalloc_setting(Some(seq![0x31u8])),
        mpol_mode_setting(Some(signed_decimal(policy.mode as int))) == policy.mode,
        policy.nodemask matches Some(m) ==> nodemask_setting(Some(decimal(m as nat))) == m,
{
    lemma_i32_text_round_trip(policy.mode);
    if let Some(m) = policy.nodemask {
        lemma_u64_text_round_trip(m);
    }
}


/// Which option decides the policy: `-m` (membind) over `-P`
/// (preferred-many) over `-p` (preferred, any node number of 0 or more) over
/// `-w` (weighted-interleave) over `-i` (interleave); a negative preferred
/// node counts as not given, and with none of them there is no policy.
pub proof fn lemma_policy_precedence(args: PolicyArgs)
    ensures
        args.membind is Some ==> select_policy_spec(args) == Some(PolicySource::Membind),
        args.membind is None && args.preferred_many is Some
            ==> select_policy_spec(args) == Some(PolicySource::PreferredMany),
        forall|n: i32|
            args.membind is None && args.preferred_many is None && args.preferred == Some(n) && n >= 0
                ==> select_policy_spec(args) == Some(PolicySource::Preferred { node: n }),
        args.membind is None && args.preferred_many is None
            && !(args.preferred matches Some(n) && n >= 0) && args.weighted_interleave is Some
            ==> select_policy_spec(args) == Some(PolicySource::WeightedInterleave),
        args.membind is None && args.preferred_many is None
            && !(args.preferred matches Some(n) && n >= 0) && args.weighted_interleave is None
            && args.interleave is Some
            ==> select_policy_spec(args) == Some(PolicySource::Interleave),
        args.membind is None && args.preferred_many is None
            && !(args.preferred matches Some(n) && n >= 0) && args.weighted_interleave is None
            && args.interleave is None
            ==> select_policy_spec(args) is None,
{
}

/// The kernel's policy modes: bind 2, preferred-many 5, preferred 1,
/// weighted-interleave 6, interleave 3; a preferred policy binds to exactly
/// its one node, and a node-list policy to the mask parsed from its own
/// option.
pub proof fn lemma_policy_modes_and_lists(args: PolicyArgs, node: i32)
    ensures
        policy_mode_spec(PolicySource::Membind) == 2,
        policy_mode_spec(PolicySource::PreferredMany) == 5,
        policy_mode_spec(PolicySource::Preferred { node }) == 1,
        policy_mode_spec(PolicySource::WeightedInterleave) == 6,
        policy_mode_spec(PolicySource::Interleave) == 3,
        node_list_spec(args, PolicySource::Membind) == args.membind,
        node_list_spec(args, PolicySource::PreferredMany) == args.preferred_many,
        node_list_spec(args, PolicySource::WeightedInterleave) == args.weighted_interleave,
        node_list_spec(args, PolicySource::Interleave) == args.interleave,
        node_list_spec(args, PolicySource::Preferred { node }) is None,
{
}

} // verus!
