//! The allocator's settings, as the environment spells them.
use vstd::prelude::*;
use vstd::string::StringSliceAdditionalSpecFns;
use crate::decimal::{
    decimal, lemma_i32_text_round_trip, lemma_u64_text_round_trip, parse_i32, parse_i32_spec,
    parse_u64, parse_u64_spec, signed_decimal,
};

verus! {

/// Name of the variable that switches the jemalloc back end on.
pub const JEMALLOC_VAR: &'static str = "HMALLOC_JEMALLOC";

/// Name of the variable that holds the NUMA node mask.
pub const NODEMASK_VAR: &'static str = "HMALLOC_NODEMASK";

/// Name of the variable that holds the memory-policy mode.
pub const MPOL_MODE_VAR: &'static str = "HMALLOC_MPOL_MODE";

/// Name of the variable through which `hmctl` learns the allocator
/// library's path.
pub const LIB_PATH_VAR: &'static str = "HMALLOC_LIB_PATH";

/// Name of the variable through which the dynamic loader preloads a library.
pub const PRELOAD_VAR: &'static str = "LD_PRELOAD";

/// The bytes of an environment value, if the variable is set.
pub open spec fn env_bytes(value: Option<&str>) -> Option<Seq<u8>> {
    match value {
        Some(v) => Some(v.spec_bytes()),
        None => None,
    }
}

/// The jemalloc back end is on exactly when the value is the text `1`.
pub open spec fn jemalloc_setting(value: Option<Seq<u8>>) -> bool {
    value == Some(seq![0x31u8])
}

/// The node mask: the value read as a `u64`, or 0 when it is unset or is
/// not such a number.
pub open spec fn nodemask_setting(value: Option<Seq<u8>>) -> u64 {
    match value {
        Some(b) => match parse_u64_spec(b) {
            Some(n) => n,
            None => 0,
        },
        None => 0,
    }
}

/// The policy mode: the value read as an `i32`, or 0 when it is unset or is
/// not such a number.
pub open spec fn mpol_mode_setting(value: Option<Seq<u8>>) -> i32 {
    match value {
        Some(b) => match parse_i32_spec(b) {
            Some(n) => n,
            None => 0,
        },
        None => 0,
    }
}

/// Whether the value of `HMALLOC_JEMALLOC` asks for the jemalloc back end.
pub fn read_jemalloc(value: Option<&str>) -> (r: bool)
    ensures
        r == jemalloc_setting(env_bytes(value)),
{
    match value {
        Some(v) => {
            let b = v.as_bytes();
            let r = b.len() == 1 && b[0] == 0x31;
            assert(r ==> b@ =~= seq![0x31u8]);
            r
        },
        None => false,
    }
}

/// The node mask that the value of `HMALLOC_NODEMASK` spells.
pub fn read_nodemask(value: Option<&str>) -> (r: u64)
    ensures
        r == nodemask_setting(env_bytes(value)),
{
    match value {
        Some(v) => match parse_u64(v.as_bytes()) {
            Some(n) => n,
            None => 0,
        },
        None => 0,
    }
}

/// The policy mode that the value of `HMALLOC_MPOL_MODE` spells.
pub fn read_mpol_mode(value: Option<&str>) -> (r: i32)
    ensures
        r == mpol_mode_setting(env_bytes(value)),
{
    match value {
        Some(v) => match parse_i32(v.as_bytes()) {
            Some(n) => n,
            None => 0,
        },
        None => 0,
    }
}

/// What the allocator takes from its environment.
pub struct EnvSettings {
    pub use_jemalloc: bool,
    pub nodemask: u64,
    pub mpol_mode: i32,
}

/// Reads the three settings from the values of `HMALLOC_JEMALLOC`,
/// `HMALLOC_NODEMASK` and `HMALLOC_MPOL_MODE`.
pub fn read_settings(jemalloc: Option<&str>, nodemask: Option<&str>, mpol_mode: Option<&str>) -> (r:
    EnvSettings)
    ensures
        r.use_jemalloc == jemalloc_setting(env_bytes(jemalloc)),
        r.nodemask == nodemask_setting(env_bytes(nodemask)),
        r.mpol_mode == mpol_mode_setting(env_bytes(mpol_mode)),
{
    EnvSettings {
        use_jemalloc: read_jemalloc(jemalloc),
        nodemask: read_nodemask(nodemask),
        mpol_mode: read_mpol_mode(mpol_mode),
    }
}


/// What the allocator takes from its variables: the jemalloc back end is
/// on exactly when `HMALLOC_JEMALLOC` is the text `1`; the mask and the mode
/// are the numbers their variables spell (the text `to_string` writes reads
/// back as that number), and 0 when the variable is unset or spells no
/// number.
pub proof fn lemma_settings_law(value: Option<Seq<u8>>, mask: u64, mode: i32)
    ensures
        jemalloc_setting(value) <==> value == Some(seq![0x31u8]),
        nodemask_setting(None) == 0,
        mpol_mode_setting(None) == 0,
        nodemask_setting(Some(decimal(mask as nat))) == mask,
        mpol_mode_setting(Some(signed_decimal(mode as int))) == mode,
        value matches Some(b) && parse_u64_spec(b) is None ==> nodemask_setting(value) == 0,
        value matches Some(b) && parse_i32_spec(b) is None ==> mpol_mode_setting(value) == 0,
        value is Some && parse_u64_spec(value->0) is Some
            ==> nodemask_setting(value) == parse_u64_spec(value->0)->0,
        value is Some && parse_i32_spec(value->0) is Some
            ==> mpol_mode_setting(value) == parse_i32_spec(value->0)->0,
{
    lemma_u64_text_round_trip(mask);
    lemma_i32_text_round_trip(mode);
}

} // verus!
