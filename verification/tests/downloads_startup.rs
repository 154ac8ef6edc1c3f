use omnilauncher::db::registry_ops::ModelSettings;
use omnilauncher::db::{cached_profile_usable, HardwareProfileRow};
use omnilauncher::downloads::DownloadIds;
use omnilauncher::hardware::HardwareProfile;
use omnilauncher::process::fit_target_ok;
use omnilauncher::proxy::master_port_from_setting;

#[test]
fn download_ids_are_fresh_and_cancellable() {
    let mut ids = DownloadIds::new();
    let a = ids.register();
    let b = ids.register();
    assert_eq!((a, b), (1, 2));
    assert!(ids.cancel(a));
    assert!(!ids.cancel(a));
    ids.finish(b);
    assert!(!ids.cancel(b));
    assert_eq!(ids.register(), 3);
}

#[test]
fn cancelling_an_unknown_download_reports_false() {
    let mut ids = DownloadIds::new();
    assert!(!ids.cancel(1));
    assert!(!ids.cancel(42));
    let a = ids.register();
    assert!(!ids.cancel(a + 100));
    assert!(ids.cancel(a));
}

#[test]
fn cached_profile_needs_a_scan() {
    assert!(!cached_profile_usable(&None));
    assert!(!cached_profile_usable(&Some(HardwareProfileRow::unscanned())));
    let scanned = HardwareProfileRow::from_columns(
        Some("CPU-only (no NVIDIA GPU)".into()),
        Some(0),
        Some(16000),
        Some(8),
        Some(16),
        None,
    );
    assert!(cached_profile_usable(&Some(scanned)));
}

#[test]
fn master_port_setting() {
    assert_eq!(master_port_from_setting(0), 1);
    assert_eq!(master_port_from_setting(-5), 1);
    assert_eq!(master_port_from_setting(52715), 52715);
    assert_eq!(master_port_from_setting(65536 + 80), 80);
}

#[test]
fn fit_target_overflow_check() {
    let hw = HardwareProfile {
        gpu_name: "GPU".into(),
        total_vram_mb: i64::MIN + 10,
        total_system_ram_mb: 0,
        cpu_physical_cores: 1,
        cpu_logical_threads: 1,
        last_scanned_at: String::new(),
        gpu_present: true,
    };
    let mut s = ModelSettings::default();
    s.vram_allocation_mb = Some(100);
    assert!(!fit_target_ok(&s, &hw));
    s.vram_allocation_mb = Some(5);
    assert!(fit_target_ok(&s, &hw));
    s.cpu_mode = Some(true);
    s.vram_allocation_mb = Some(100);
    assert!(fit_target_ok(&s, &hw));
}
