//! Hardware profile: the detected GPU, RAM and CPU figures the launch logic
//! reads, and the rule that decides whether a usable GPU is present.

use vstd::prelude::*;

use nvml_wrapper::{Device, Nvml};
use sysinfo::System;

use crate::civil::{now_rfc3339_utc, spec_rfc3339_utc};
use crate::db::{spec_has_usable_gpu, HardwareProfileRow};

verus! {

/// The detected hardware, mirrored into the `hardware_profile` row plus the
/// derived `gpu_present` flag that the launch logic branches on.
pub struct HardwareProfile {
    /// GPU marketing name, or a `CPU-only (...)` placeholder.
    pub gpu_name: String,
    /// Total VRAM in MiB; `0` when CPU-only.
    pub total_vram_mb: i64,
    /// Total system RAM in MiB.
    pub total_system_ram_mb: i64,
    pub cpu_physical_cores: i64,
    pub cpu_logical_threads: i64,
    /// RFC 3339 UTC timestamp of the scan, e.g. `2026-07-08T04:21:11Z`.
    pub last_scanned_at: String,
    /// `true` when an NVIDIA GPU with VRAM was detected; `false` arms the
    /// CPU-only safety valve.
    pub gpu_present: bool,
}

impl HardwareProfile {
    /// The row stored for this profile (`gpu_present` is derived, not stored).
    pub fn to_row(&self) -> (r: HardwareProfileRow)
        ensures
            r.gpu_name@ == self.gpu_name@,
            r.total_vram_mb == self.total_vram_mb,
            r.total_system_ram_mb == self.total_system_ram_mb,
            r.cpu_physical_cores == self.cpu_physical_cores,
            r.cpu_logical_threads == self.cpu_logical_threads,
            r.last_scanned_at@ == self.last_scanned_at@,
    {
        HardwareProfileRow {
            gpu_name: self.gpu_name.clone(),
            total_vram_mb: self.total_vram_mb,
            total_system_ram_mb: self.total_system_ram_mb,
            cpu_physical_cores: self.cpu_physical_cores,
            cpu_logical_threads: self.cpu_logical_threads,
            last_scanned_at: self.last_scanned_at.clone(),
        }
    }

    /// The profile for a stored row, with `gpu_present` re-derived by the
    /// usable-GPU rule.
    pub fn from_row(row: &HardwareProfileRow) -> (r: HardwareProfile)
        ensures
            r.gpu_name@ == row.gpu_name@,
            r.total_vram_mb == row.total_vram_mb,
            r.total_system_ram_mb == row.total_system_ram_mb,
            r.cpu_physical_cores == row.cpu_physical_cores,
            r.cpu_logical_threads == row.cpu_logical_threads,
            r.last_scanned_at@ == row.last_scanned_at@,
            r.gpu_present == spec_has_usable_gpu(row.total_vram_mb, row.gpu_name@),
    {
        HardwareProfile {
            gpu_name: row.gpu_name.clone(),
            total_vram_mb: row.total_vram_mb,
            total_system_ram_mb: row.total_system_ram_mb,
            cpu_physical_cores: row.cpu_physical_cores,
            cpu_logical_threads: row.cpu_logical_threads,
            last_scanned_at: row.last_scanned_at.clone(),
            gpu_present: row.has_usable_gpu(),
        }
    }
}


// ───────────────────── Probing the machine ─────────────────────

#[verifier::external_type_specification]
#[verifier::external_body]
pub struct ExNvml(Nvml);

#[verifier::external_type_specification]
#[verifier::external_body]
pub struct ExNvmlDevice<'nvml>(Device<'nvml>);

#[verifier::external_type_specification]
#[verifier::external_body]
pub struct ExSystem(System);

/// `Nvml::init`: loads the NVIDIA management library from the driver;
/// `None` when it cannot be loaded or initialized. Nothing else is known.
#[verifier::external_body]
fn nvml_init() -> Option<Nvml> {
    Nvml::init().ok()
}

/// `Nvml::device_by_index`: the GPU at `index`, `None` on any NVML error.
#[verifier::external_body]
fn nvml_device<'a>(nvml: &'a Nvml, index: u32) -> Option<Device<'a>> {
    nvml.device_by_index(index).ok()
}

/// `Device::name`: the GPU's marketing name, `None` on any NVML error.
#[verifier::external_body]
fn nvml_device_name(device: &Device) -> Option<String> {
    device.name().ok()
}

/// `Device::memory_info`, its `total` field: installed VRAM in bytes, `None`
/// on any NVML error.
#[verifier::external_body]
fn nvml_total_memory(device: &Device) -> Option<u64> {
    device.memory_info().ok().map(|info| info.total)
}

/// `System::new_all`: a fully refreshed system snapshot, `None` when it
/// cannot be taken.
#[verifier::external_body]
fn system_new_all() -> Option<System> {
    System::new_all().ok()
}

/// `System::total_memory`: installed RAM in bytes.
#[verifier::external_body]
fn system_total_memory(sys: &System) -> u64 {
    sys.total_memory()
}

/// `System::cpus`, its length: the number of logical CPUs.
#[verifier::external_body]
fn system_cpu_count(sys: &System) -> usize {
    sys.cpus().len()
}

/// `System::physical_core_count`: `None` when it cannot be determined.
#[verifier::external_body]
fn system_physical_core_count() -> Option<usize> {
    System::physical_core_count().ok()
}

/// What the GPU probe found.
pub struct GpuInfo {
    pub name: String,
    pub total_vram_bytes: u64,
}

/// Probes the primary NVIDIA GPU (device 0); `None` on any failure, which
/// the caller treats as CPU-only.
fn scan_gpu() -> Option<GpuInfo> {
    let nvml = match nvml_init() {
        Some(n) => n,
        None => return None,
    };
    let device = match nvml_device(&nvml, 0) {
        Some(d) => d,
        None => return None,
    };
    let name = match nvml_device_name(&device) {
        Some(n) => n,
        None => return None,
    };
    let total_vram_bytes = match nvml_total_memory(&device) {
        Some(t) => t,
        None => return None,
    };
    Some(GpuInfo { name, total_vram_bytes })
}

/// The figures for one reading of the machine: RAM in whole MiB, physical
/// cores (the logical count when unknown), logical threads.
pub open spec fn cpu_ram_figures(ram_bytes: u64, logical: usize, physical: Option<usize>) -> (i64, i64, i64) {
    let ram_mb = (ram_bytes / 1048576u64) as i64;
    let logical_threads = logical as i64;
    let physical_cores = match physical {
        Some(p) => p as i64,
        None => logical_threads,
    };
    (ram_mb, physical_cores, logical_threads)
}

/// The figures for one reading of the machine: RAM in whole MiB, physical
/// cores (the logical count when unknown), logical threads.
pub fn cpu_ram_from_readings(ram_bytes: u64, logical: usize, physical: Option<usize>) -> (r: (i64, i64, i64))
    ensures
        r == cpu_ram_figures(ram_bytes, logical, physical),
        0 <= r.0,
{
    let ram_mb = (ram_bytes / 1024 / 1024) as i64;
    let logical_threads = logical as i64;
    let physical_cores = match physical {
        Some(p) => p as i64,
        None => logical_threads,
    };
    (ram_mb, physical_cores, logical_threads)
}

/// Total RAM in MiB, physical cores, logical threads, from a live snapshot.
/// A failed snapshot reads as no RAM and no CPUs.
fn scan_cpu_ram() -> (r: (i64, i64, i64))
    ensures
        0 <= r.0,
        exists|ram_bytes: u64, logical: usize, physical: Option<usize>|
            r == #[trigger] cpu_ram_figures(ram_bytes, logical, physical),
{
    let (ram_bytes, logical_count) = match system_new_all() {
        Some(sys) => (system_total_memory(&sys), system_cpu_count(&sys)),
        None => (0, 0),
    };
    let physical_count = system_physical_core_count();
    cpu_ram_from_readings(ram_bytes, logical_count, physical_count)
}

/// The placeholder GPU name used whenever no usable GPU was found.
pub open spec fn no_gpu_name() -> Seq<char> {
    "CPU-only (no NVIDIA GPU)"@
}

/// Name, VRAM in whole MiB and presence flag for one GPU probe result. A GPU
/// reporting under 1 MiB of VRAM counts as absent (CPU-only safety valve).
pub open spec fn gpu_fields(gpu: Option<GpuInfo>) -> (Seq<char>, i64, bool) {
    match gpu {
        Some(g) => {
            let vram_mb = (g.total_vram_bytes / 1048576u64) as i64;
            if vram_mb > 0 {
                (g.name@, vram_mb, true)
            } else {
                (no_gpu_name(), 0, false)
            }
        },
        None => (no_gpu_name(), 0, false),
    }
}

/// Builds the profile from the probe results.
pub fn profile_from_probe(gpu: Option<GpuInfo>, ram_mb: i64, physical: i64, logical: i64, scanned_at: String) -> (p: HardwareProfile)
    ensures
        (p.gpu_name@, p.total_vram_mb, p.gpu_present) == gpu_fields(gpu),
        p.total_system_ram_mb == ram_mb,
        p.cpu_physical_cores == physical,
        p.cpu_logical_threads == logical,
        p.last_scanned_at@ == scanned_at@,
{
    let (gpu_name, total_vram_mb, gpu_present) = match gpu {
        Some(g) => {
            let vram_mb = (g.total_vram_bytes / (1024 * 1024)) as i64;
            if vram_mb > 0 {
                (g.name, vram_mb, true)
            } else {
                (String::from_str("CPU-only (no NVIDIA GPU)"), 0, false)
            }
        },
        None => (String::from_str("CPU-only (no NVIDIA GPU)"), 0, false),
    };
    HardwareProfile {
        gpu_name,
        total_vram_mb,
        total_system_ram_mb: ram_mb,
        cpu_physical_cores: physical,
        cpu_logical_threads: logical,
        last_scanned_at: scanned_at,
        gpu_present,
    }
}

/// Runs a full hardware scan. GPU failures fall through to CPU-only mode so
/// the application still starts on a machine without a GPU. Every figure is
/// what `gpu_fields` and `cpu_ram_figures` give for some reading of the
/// machine.
pub fn scan() -> (p: HardwareProfile)
    ensures
        exists|gpu: Option<GpuInfo>|
            (p.gpu_name@, p.total_vram_mb, p.gpu_present) == #[trigger] gpu_fields(gpu),
        exists|ram_bytes: u64, logical: usize, physical: Option<usize>|
            (p.total_system_ram_mb, p.cpu_physical_cores, p.cpu_logical_threads)
                == #[trigger] cpu_ram_figures(ram_bytes, logical, physical),
        p.gpu_present == (p.total_vram_mb > 0),
        !p.gpu_present ==> p.total_vram_mb == 0 && p.gpu_name@ == no_gpu_name(),
        p.total_system_ram_mb >= 0,
        exists|secs: u64| p.last_scanned_at@ == spec_rfc3339_utc(secs),
{
    let gpu = scan_gpu();
    let ghost gpu_reading = gpu;
    let (ram_mb, physical, logical) = scan_cpu_ram();
    let p = profile_from_probe(gpu, ram_mb, physical, logical, now_rfc3339_utc());
    assert((p.gpu_name@, p.total_vram_mb, p.gpu_present) == gpu_fields(gpu_reading));
    p
}
} // verus!
