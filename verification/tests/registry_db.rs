use omnilauncher::commands::{
    find_model, model_dtos, search_defaults, AppSettings, HardwareProfileDto, HfAuthStatus, LaunchArgs, ProxyStatusDto,
    ResyncReportDto, SaveAppSettingsArgs,
};
use omnilauncher::db::registry_ops::{
    auto_role, stale_filenames, tally_reconcile, was_stored, ModelSettings, ModelSummary, ReconcileReport,
};
use omnilauncher::db::{AppSettingsUpdate, FullAppSettings, HardwareProfileRow};
use omnilauncher::gguf::GgufMetadata;
use omnilauncher::process::Role;
use omnilauncher::proxy::Routing;
use omnilauncher::registry::{is_unchanged, known_size, scan_with_report, ModelRecord, ScanOutcome};

fn meta(pooling: Option<&str>, template: Option<&str>) -> GgufMetadata {
    GgufMetadata {
        architecture: "llama".into(),
        model_name: "M".into(),
        context_length: 4096,
        layer_count: 32,
        quantization: "Q4_K_M".into(),
        chat_template: template.map(String::from),
        author: None,
        pooling_type: pooling.map(String::from),
    }
}

fn record(name: &str) -> ModelRecord {
    ModelRecord {
        filename: name.into(),
        filepath: format!("/models/{name}"),
        filesize_bytes: 10,
        metadata: meta(None, Some("t")),
    }
}

fn summary(id: i64) -> ModelSummary {
    ModelSummary {
        id,
        filename: format!("m{id}.gguf"),
        filepath: format!("/models/m{id}.gguf"),
        filesize_bytes: 1,
        architecture: "llama".into(),
        model_name: format!("M{id}"),
        context_length: 4096,
        layer_count: 32,
        quantization: "Q4_K_M".into(),
        chat_template: None,
        author: None,
        role: None,
        pooling_type: None,
    }
}

fn strings(v: &[&str]) -> Vec<String> {
    v.iter().map(|s| s.to_string()).collect()
}

#[test]
fn scan_missing_dir_is_empty_not_error() {
    let (records, names, report) = scan_with_report(Vec::new());
    assert!(records.is_empty());
    assert!(names.is_empty());
    assert_eq!(report.found, 0);
    assert!(report.failed.is_empty());
}

#[test]
fn scan_gathers_parsed_skipped_and_failed() {
    let outcomes = vec![
        ScanOutcome::Parsed(record("a.gguf")),
        ScanOutcome::Skipped("b.gguf".into()),
        ScanOutcome::Failed("/models/broken.gguf".into()),
        ScanOutcome::Parsed(record("a.gguf")),
    ];
    let (records, names, report) = scan_with_report(outcomes);
    assert_eq!(records.len(), 2);
    assert_eq!(names, strings(&["a.gguf", "b.gguf"]));
    assert_eq!(report.found, 2);
    assert_eq!(report.failed, strings(&["/models/broken.gguf"]));
}

#[test]
fn unchanged_files_are_skipped() {
    let known = vec![("a.gguf".to_string(), 100i64), ("b.gguf".to_string(), 5)];
    assert_eq!(known_size(&known, "b.gguf"), Some(5));
    assert_eq!(known_size(&known, "c.gguf"), None);
    assert!(is_unchanged(&known, "a.gguf", 100));
    assert!(!is_unchanged(&known, "a.gguf", 101));
    assert!(!is_unchanged(&known, "c.gguf", 100));
}

#[test]
fn auto_role_prefers_pooling_type() {
    assert_eq!(auto_role(&meta(Some("mean"), Some("t"))), Some(Role::Embedding));
    assert_eq!(auto_role(&meta(None, Some("t"))), Some(Role::Chat));
    assert_eq!(auto_role(&meta(None, None)), None);
}

#[test]
fn reconcile_removes_only_vanished_files() {
    let before = strings(&["a.gguf", "b.gguf", "c.gguf"]);
    let on_disk = strings(&["c.gguf", "a.gguf", "new.gguf"]);
    assert_eq!(stale_filenames(&before, &on_disk), strings(&["b.gguf"]));
    assert!(was_stored(&before, "a.gguf"));
    assert!(!was_stored(&before, "new.gguf"));
}

#[test]
fn reconcile_tally_counts_each_outcome() {
    let upserts = vec![(false, true), (true, true), (true, false), (false, true), (false, false)];
    let removals = vec![true, false, true];
    let r = tally_reconcile(&upserts, &removals);
    assert_eq!((r.added, r.updated, r.removed, r.failed), (2, 1, 2, 3));
    let dto = ResyncReportDto::from_report(&r, 4);
    assert_eq!((dto.added, dto.updated, dto.removed, dto.failed, dto.total), (2, 1, 2, 3, 4));
}

#[test]
fn update_sql_touches_only_given_fields() {
    let none = AppSettingsUpdate {
        models_directory: None,
        multimodal_directory: None,
        master_port: None,
        auto_port_increment: None,
    };
    assert_eq!(none.update_sql(), None);
    let some = AppSettingsUpdate {
        models_directory: Some("/m".into()),
        multimodal_directory: None,
        master_port: Some(8000),
        auto_port_increment: Some(false),
    };
    assert_eq!(
        some.update_sql().as_deref(),
        Some("UPDATE app_settings SET models_directory = ?, master_port = ?, auto_port_increment = ? WHERE id = 1")
    );
    let one = SaveAppSettingsArgs {
        models_directory: None,
        multimodal_directory: Some("/mm".into()),
        master_port: None,
        auto_port_increment: None,
    }
    .into_update();
    assert_eq!(one.update_sql().as_deref(), Some("UPDATE app_settings SET multimodal_directory = ? WHERE id = 1"));
}

#[test]
fn settings_row_defaults() {
    let s = FullAppSettings::from_columns(None, None, None, None, None);
    assert_eq!(s.master_port, 0);
    assert!(s.auto_port_increment);
    assert_eq!(s.theme, "dark");
    let t = FullAppSettings::from_columns(Some("/m".into()), None, Some(8000), Some(false), Some("light".into()));
    let ui = AppSettings::from_row(t);
    assert_eq!(ui.models_directory.as_deref(), Some("/m"));
    assert_eq!(ui.master_port, 8000);
    assert!(!ui.auto_port_increment);
    assert_eq!(ui.theme, "light");
}

#[test]
fn hardware_row_defaults_and_dto() {
    let row = HardwareProfileRow::from_columns(None, Some(8192), None, Some(4), None, None);
    assert_eq!(row.gpu_name, "");
    assert_eq!(row.total_system_ram_mb, 0);
    assert_eq!(row.cpu_physical_cores, 4);
    let dto = HardwareProfileDto::from_row(row);
    assert!(dto.gpu_present);
    let unscanned = HardwareProfileDto::from_row(HardwareProfileRow::unscanned());
    assert_eq!(unscanned.gpu_name, "CPU-only (no scan yet)");
    assert!(!unscanned.gpu_present);
}

#[test]
fn auth_status_from_keychain() {
    let off = HfAuthStatus::from_keychain(false, true, Some("me".into()));
    assert!(!off.connected && off.keychain_unavailable && off.username.is_none());
    let on = HfAuthStatus::from_keychain(true, true, Some("me".into()));
    assert!(on.connected && !on.keychain_unavailable);
    assert_eq!(on.username.as_deref(), Some("me"));
    assert!(on.expires_at.is_none());
    assert!(!HfAuthStatus::from_keychain(true, false, None).connected);
}

#[test]
fn launch_role_parsing() {
    let ok = LaunchArgs { model_id: 1, role: "embedding".into() };
    assert_eq!(ok.parse_role(), Ok(Role::Embedding));
    let bad = LaunchArgs { model_id: 1, role: "vision".into() };
    assert_eq!(bad.parse_role(), Err("invalid role 'vision': expected 'chat' or 'embedding'".to_string()));
}

#[test]
fn models_paired_with_saved_settings() {
    let dtos = model_dtos(vec![summary(1), summary(2), summary(3)], &vec![3, 1]);
    let flags: Vec<(i64, bool)> = dtos.iter().map(|d| (d.summary.id, d.has_settings)).collect();
    assert_eq!(flags, vec![(1, true), (2, false), (3, true)]);
}

#[test]
fn finding_a_model_by_id() {
    let found = find_model(vec![summary(1), summary(2)], 2);
    assert_eq!(found.map(|m| m.model_name), Ok("M2".to_string()));
    let missing = find_model(vec![summary(1)], 9);
    assert_eq!(missing.map(|m| m.id), Err("model id 9 not found".to_string()));
}

#[test]
fn proxy_status_and_search_defaults() {
    let settings = FullAppSettings::from_columns(None, None, Some(11434), None, None);
    let mut routing = Routing::new();
    routing.set_port(Role::Chat, 9000);
    let dto = ProxyStatusDto::from_parts(&settings, &routing);
    assert_eq!((dto.master_port, dto.auto_port_increment, dto.chat_port, dto.embedding_port), (11434, true, Some(9000), None));
    assert_eq!(search_defaults(None, None), ("downloads".to_string(), true));
    assert_eq!(search_defaults(Some("likes".into()), Some(false)), ("likes".to_string(), false));
}

#[test]
fn default_settings_are_all_auto() {
    let s = ModelSettings::default();
    assert!(s.vram_allocation_mb.is_none() && s.temp.is_none() && s.rerank.is_none());
    let r = ReconcileReport { added: 0, updated: 0, removed: 0, failed: 0 };
    assert_eq!(r.added + r.failed, 0);
}
