//! What the machine offers the engines: chip, memory, cores, the acceleration
//! backend, the recommended model size, and PyTorch MPS availability. The
//! values come from `sysctl` and a PyTorch probe, run by the caller.
use vstd::prelude::*;

use crate::text::{
    append_new, append_new_seq, contains, contains_seq, lowercase_of, parse_u64, parse_unsigned,
    parse_usize, same_text, string_views, to_lowercase, trim, trim_seq,
};

verus! {

/// The acceleration backend shared by both engines.
#[derive(Clone, Copy, Debug, PartialEq, Eq, Structural)]
pub enum AccelerationBackend {
    /// Apple CoreML and the Neural Engine (whisper.cpp on Apple Silicon).
    CoreML,
    /// Metal Performance Shaders (PyTorch on Apple Silicon).
    Mps,
    /// Metal GPU compute (whisper.cpp elsewhere).
    Metal,
    /// CPU only.
    Cpu,
}

/// What the machine offers.
pub struct PlatformInfo {
    pub apple_silicon: bool,
    /// Physical memory in bytes.
    pub memory_bytes: u64,
    pub physical_cores: usize,
    /// The best acceleration backend of the machine.
    pub acceleration: AccelerationBackend,
    /// The recommended model key (`base` or `small`).
    pub recommended_model: String,
    /// Whether PyTorch reports MPS as usable (needs torch installed).
    pub mps_available: bool,
}

/// Sixteen GiB, the memory from which the `small` model is recommended.
pub const SMALL_MODEL_MEMORY: u64 = 17179869184;

/// Apple Silicon: the CPU brand names Apple (any case), or the build targets
/// aarch64.
pub open spec fn apple_silicon_seq(brand: Seq<char>, arch: Seq<char>) -> bool {
    contains_seq(lowercase_of(brand), "apple"@) || arch == "aarch64"@
}

/// The memory reported by `sysctl hw.memsize`, 0 when unreadable.
pub open spec fn memory_seq(memsize: Seq<char>) -> nat {
    match parse_unsigned(trim_seq(memsize), u64::MAX as nat) {
        Some(n) => n,
        None => 0,
    }
}

/// The cores reported by `sysctl hw.physicalcpu`, 4 when unreadable, at least
/// one.
pub open spec fn cores_seq(physicalcpu: Seq<char>) -> nat {
    let n: nat = match parse_unsigned(trim_seq(physicalcpu), usize::MAX as nat) {
        Some(n) => n,
        None => 4,
    };
    if n >= 1 {
        n
    } else {
        1
    }
}

/// `small` from sixteen GiB of memory on, else `base`.
pub open spec fn recommended_model_seq(memory_bytes: nat) -> Seq<char> {
    if memory_bytes >= SMALL_MODEL_MEMORY {
        "small"@
    } else {
        "base"@
    }
}

/// CoreML on Apple Silicon, else Metal.
pub open spec fn acceleration_for(apple_silicon: bool) -> AccelerationBackend {
    if apple_silicon {
        AccelerationBackend::CoreML
    } else {
        AccelerationBackend::Metal
    }
}

/// Whether the CPU is Apple Silicon.
pub fn is_apple_silicon(brand: &str, arch: &str) -> (r: bool)
    ensures
        r == apple_silicon_seq(brand@, arch@),
{
    contains(to_lowercase(brand).as_str(), "apple") || same_text(arch, "aarch64")
}

/// The recommended model key for the memory.
pub fn recommended_model(memory_bytes: u64) -> (r: String)
    ensures
        r@ == recommended_model_seq(memory_bytes as nat),
{
    if memory_bytes >= SMALL_MODEL_MEMORY {
        "small".to_string()
    } else {
        "base".to_string()
    }
}

/// The platform from `sysctl` answers (`machdep.cpu.brand_string`,
/// `hw.memsize`, `hw.physicalcpu`), the build's architecture, and the PyTorch
/// MPS probe.
pub fn detect(
    cpu_brand: &str,
    arch: &str,
    memsize: &str,
    physicalcpu: &str,
    mps_available: bool,
) -> (p: PlatformInfo)
    ensures
        p.apple_silicon == apple_silicon_seq(cpu_brand@, arch@),
        p.memory_bytes as nat == memory_seq(memsize@),
        p.physical_cores as nat == cores_seq(physicalcpu@),
        p.acceleration == acceleration_for(p.apple_silicon),
        p.recommended_model@ == recommended_model_seq(p.memory_bytes as nat),
        p.mps_available == mps_available,
{
    let apple_silicon = is_apple_silicon(cpu_brand, arch);
    let memory_bytes = match parse_u64(trim(memsize).as_str()) {
        Some(n) => n,
        None => 0,
    };
    let cores = match parse_usize(trim(physicalcpu).as_str()) {
        Some(n) => n,
        None => 4,
    };
    let physical_cores = if cores >= 1 {
        cores
    } else {
        1
    };
    let acceleration = if apple_silicon {
        AccelerationBackend::CoreML
    } else {
        AccelerationBackend::Metal
    };
    PlatformInfo {
        apple_silicon,
        memory_bytes,
        physical_cores,
        acceleration,
        recommended_model: recommended_model(memory_bytes),
        mps_available,
    }
}

/// What a successful PyTorch probe printed means: MPS is usable when the
/// output, trimmed and lowercased, is `true`.
pub open spec fn mps_reported_seq(stdout: Seq<char>) -> bool {
    lowercase_of(trim_seq(stdout)) == "true"@
}

/// Whether a successful PyTorch probe reports MPS as usable.
pub fn mps_reported(stdout: &str) -> (r: bool)
    ensures
        r == mps_reported_seq(stdout@),
{
    same_text(to_lowercase(trim(stdout).as_str()).as_str(), "true")
}

/// The interpreters probed for MPS: all that `which` found for `python3` and
/// `python`, then the existing fallbacks not among them yet.
pub fn resolve_python_candidates(which_hits: Vec<String>, existing_fallbacks: &[String]) -> (r:
    Vec<String>)
    ensures
        string_views(r@) == append_new_seq(string_views(which_hits@), string_views(existing_fallbacks@)),
{
    append_new(which_hits, existing_fallbacks)
}

} // verus!
