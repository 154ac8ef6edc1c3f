use omnilauncher::civil::{civil_from_days, format_rfc3339_utc, now_rfc3339_utc};
use omnilauncher::db::HardwareProfileRow;
use omnilauncher::hardware::{cpu_ram_from_readings, profile_from_probe, scan, GpuInfo, HardwareProfile};

#[test]
fn rfc3339_timestamp_is_well_formed() {
    let ts = now_rfc3339_utc();
    assert_eq!(ts.len(), 20, "expected YYYY-MM-DDTHH:MM:SSZ (20 chars)");
    assert_eq!(ts.as_bytes()[4], b'-');
    assert_eq!(ts.as_bytes()[7], b'-');
    assert_eq!(ts.as_bytes()[10], b'T');
    assert_eq!(ts.as_bytes()[13], b':');
    assert_eq!(ts.as_bytes()[16], b':');
    assert_eq!(ts.as_bytes()[19], b'Z');
    assert!(ts.starts_with("202"), "year looked wrong: {ts}");
}

#[test]
fn scan_does_not_panic() {
    let _ = scan();
}

#[test]
fn formats_known_instants() {
    assert_eq!(format_rfc3339_utc(0), "1970-01-01T00:00:00Z");
    assert_eq!(format_rfc3339_utc(951_782_400), "2000-02-29T00:00:00Z");
    assert_eq!(format_rfc3339_utc(1_783_484_471), "2026-07-08T04:21:11Z");
    assert_eq!(format_rfc3339_utc(4_102_444_799), "2099-12-31T23:59:59Z");
}

#[test]
fn civil_dates_from_day_numbers() {
    assert_eq!(civil_from_days(0), (1970, 1, 1));
    assert_eq!(civil_from_days(-1), (1969, 12, 31));
    assert_eq!(civil_from_days(11_016), (2000, 2, 29));
    assert_eq!(civil_from_days(11_017), (2000, 3, 1));
    assert_eq!(civil_from_days(-719_468), (0, 3, 1));
    assert_eq!(civil_from_days(-719_469), (0, 2, 29));
    assert_eq!(civil_from_days(-719_529), (-1, 12, 31));
}

#[test]
fn probe_without_gpu_is_cpu_only() {
    let p = profile_from_probe(None, 32000, 8, 16, "2026-07-09T00:00:00Z".to_string());
    assert!(!p.gpu_present);
    assert_eq!(p.total_vram_mb, 0);
    assert_eq!(p.gpu_name, "CPU-only (no NVIDIA GPU)");
    assert_eq!(p.total_system_ram_mb, 32000);
}

#[test]
fn probe_with_gpu_reports_whole_mib() {
    let gpu = GpuInfo { name: "RTX Test".to_string(), total_vram_bytes: 8 * 1024 * 1024 * 1024 + 5 };
    let p = profile_from_probe(Some(gpu), 1, 2, 4, "t".to_string());
    assert!(p.gpu_present);
    assert_eq!(p.total_vram_mb, 8192);
    assert_eq!(p.gpu_name, "RTX Test");
    let tiny = GpuInfo { name: "Tiny".to_string(), total_vram_bytes: 1000 };
    let q = profile_from_probe(Some(tiny), 1, 2, 4, "t".to_string());
    assert!(!q.gpu_present);
    assert_eq!(q.total_vram_mb, 0);
    assert_eq!(q.gpu_name, "CPU-only (no NVIDIA GPU)");
}

#[test]
fn cpu_and_ram_figures_from_readings() {
    assert_eq!(cpu_ram_from_readings(16 * 1024 * 1024 * 1024 + 7, 16, Some(8)), (16384, 8, 16));
    assert_eq!(cpu_ram_from_readings(3 * 1024 * 1024 - 1, 12, None), (2, 12, 12));
    assert_eq!(cpu_ram_from_readings(0, 0, None), (0, 0, 0));
}

#[test]
fn usable_gpu_rule() {
    let mut row = HardwareProfileRow {
        gpu_name: "RTX".to_string(),
        total_vram_mb: 8192,
        total_system_ram_mb: 1,
        cpu_physical_cores: 1,
        cpu_logical_threads: 1,
        last_scanned_at: String::new(),
    };
    assert!(row.has_usable_gpu());
    row.gpu_name = "CPU-only (no scan yet)".to_string();
    assert!(!row.has_usable_gpu());
    row.gpu_name = "RTX".to_string();
    row.total_vram_mb = 0;
    assert!(!row.has_usable_gpu());
}

#[test]
fn profile_row_round_trip() {
    let p = HardwareProfile {
        gpu_name: "RTX".to_string(),
        total_vram_mb: 4096,
        total_system_ram_mb: 16000,
        cpu_physical_cores: 4,
        cpu_logical_threads: 8,
        last_scanned_at: "2026-01-01T00:00:00Z".to_string(),
        gpu_present: true,
    };
    let row = p.to_row();
    assert_eq!(row.total_vram_mb, 4096);
    let back = HardwareProfile::from_row(&row);
    assert!(back.gpu_present);
    assert_eq!(back.gpu_name, "RTX");
    assert_eq!(back.cpu_logical_threads, 8);
}
