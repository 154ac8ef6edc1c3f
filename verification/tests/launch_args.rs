use omnilauncher::db::registry_ops::{ModelSettings, ModelSummary};
use omnilauncher::hardware::HardwareProfile;
use omnilauncher::process::{build_args, compute_default_settings, Role};

fn gpu_hw(vram_mb: i64) -> HardwareProfile {
    HardwareProfile {
        gpu_name: "Test GPU".into(),
        total_vram_mb: vram_mb,
        total_system_ram_mb: 32000,
        cpu_physical_cores: 8,
        cpu_logical_threads: 16,
        last_scanned_at: "2026-07-09T00:00:00Z".into(),
        gpu_present: vram_mb > 0,
    }
}

fn cpu_hw() -> HardwareProfile {
    HardwareProfile {
        gpu_name: "CPU-only (no NVIDIA GPU)".into(),
        total_vram_mb: 0,
        total_system_ram_mb: 32000,
        cpu_physical_cores: 8,
        cpu_logical_threads: 16,
        last_scanned_at: "2026-07-09T00:00:00Z".into(),
        gpu_present: false,
    }
}

fn model(ctx: i64) -> ModelSummary {
    ModelSummary {
        id: 1,
        filename: "test.gguf".into(),
        filepath: "/tmp/test.gguf".into(),
        filesize_bytes: 1000,
        architecture: "llama".into(),
        model_name: "Test".into(),
        context_length: ctx,
        layer_count: 32,
        quantization: "Q4_K_M".into(),
        chat_template: None,
        author: None,
        role: None,
        pooling_type: None,
    }
}

fn settings(vram: i64) -> ModelSettings {
    ModelSettings {
        vram_allocation_mb: Some(vram),
        ctx_size: Some(4096),
        flash_attn: Some(true),
        cpu_mode: Some(false),
        ..ModelSettings::default()
    }
}

fn val_after<'a>(args: &'a [String], flag: &str) -> Option<&'a str> {
    args.iter().position(|a| a == flag).and_then(|i| args.get(i + 1)).map(|s| s.as_str())
}

#[test]
fn gpu_defaults_allocate_80_percent_vram() {
    let m = model(4096);
    let hw = gpu_hw(6144);
    let s = compute_default_settings(&m, &hw);
    assert_eq!(s.vram_allocation_mb, Some(4915));
    assert_eq!(s.ctx_size, Some(4096));
    assert_eq!(s.flash_attn, Some(true));
}

#[test]
fn ctx_size_capped_when_model_context_is_huge() {
    let m = model(131072);
    let hw = gpu_hw(8192);
    let s = compute_default_settings(&m, &hw);
    assert_eq!(s.ctx_size, Some(4096));
}

#[test]
fn cpu_only_defaults_give_zero_vram() {
    let m = model(4096);
    let s = compute_default_settings(&m, &cpu_hw());
    assert_eq!(s.vram_allocation_mb, Some(0));
    assert_eq!(s.ctx_size, Some(4096));
    assert_eq!(s.flash_attn, Some(true));
}

#[test]
fn gpu_path_emits_fit_target_as_total_minus_allocation() {
    let hw = gpu_hw(6144);
    let s = settings(4096);
    let args = build_args("/models/test.gguf", &s, &hw, Role::Chat);
    assert_eq!(val_after(&args, "-ngl"), Some("auto"));
    assert_eq!(val_after(&args, "--fit"), Some("on"));
    assert_eq!(val_after(&args, "--fit-target"), Some("2048"));
}

#[test]
fn gpu_path_includes_model_host_port_and_context() {
    let hw = gpu_hw(8192);
    let s = settings(4096);
    let args = build_args("/path/to/model.gguf", &s, &hw, Role::Chat);
    assert_eq!(val_after(&args, "--model"), Some("/path/to/model.gguf"));
    assert_eq!(val_after(&args, "--host"), Some("127.0.0.1"));
    assert_eq!(val_after(&args, "--port"), Some("0"));
    assert_eq!(val_after(&args, "--ctx-size"), Some("4096"));
    assert!(!args.iter().any(|a| a == "--batch-size"));
    assert!(!args.iter().any(|a| a == "--ubatch-size"));
}

#[test]
fn flash_attn_emitted_as_on_off_not_bare_flag() {
    let hw = gpu_hw(8192);
    let mut s = settings(4096);
    s.flash_attn = Some(true);
    let args = build_args("/m.gguf", &s, &hw, Role::Chat);
    assert_eq!(val_after(&args, "--flash-attn"), Some("on"));

    s.flash_attn = Some(false);
    let args = build_args("/m.gguf", &s, &hw, Role::Chat);
    assert_eq!(val_after(&args, "--flash-attn"), Some("off"));
}

#[test]
fn cpu_only_safety_valve_forces_ngl_0_and_fit_off() {
    let s = settings(0);
    let args = build_args("/m.gguf", &s, &cpu_hw(), Role::Chat);
    assert_eq!(val_after(&args, "-ngl"), Some("0"));
    assert_eq!(val_after(&args, "--fit"), Some("off"));
    assert!(!args.iter().any(|a| a == "--fit-target"));
}

#[test]
fn gpu_present_but_zero_allocation_also_triggers_safety_valve() {
    let hw = gpu_hw(8192);
    let s = settings(0);
    let args = build_args("/m.gguf", &s, &hw, Role::Chat);
    assert_eq!(val_after(&args, "-ngl"), Some("0"));
    assert_eq!(val_after(&args, "--fit"), Some("off"));
    assert!(!args.iter().any(|a| a == "--fit-target"));
}

#[test]
fn fit_target_clamps_to_floor_when_allocation_exceeds_total() {
    let hw = gpu_hw(6144);
    let s = settings(8192);
    let args = build_args("/m.gguf", &s, &hw, Role::Chat);
    assert_eq!(val_after(&args, "--fit"), Some("on"));
    let margin: i64 = val_after(&args, "--fit-target").unwrap().parse().unwrap();
    assert!(margin >= 256);
}

#[test]
fn kv_cache_types_emitted_when_set() {
    let hw = gpu_hw(8192);
    let mut s = settings(4096);
    s.cache_type_k = Some("q8_0".into());
    s.cache_type_v = Some("q4_0".into());
    let args = build_args("/m.gguf", &s, &hw, Role::Chat);
    assert_eq!(val_after(&args, "--cache-type-k"), Some("q8_0"));
    assert_eq!(val_after(&args, "--cache-type-v"), Some("q4_0"));
}

#[test]
fn full_gpu_arg_vector_matches_expected_shape() {
    let hw = gpu_hw(6144);
    let s = settings(4915);
    let args = build_args("/home/ryan/models/test.gguf", &s, &hw, Role::Chat);
    let expected = vec![
        "--model", "/home/ryan/models/test.gguf",
        "--host", "127.0.0.1",
        "--port", "0",
        "--ctx-size", "4096",
        "--flash-attn", "on",
        "-ngl", "auto",
        "--fit", "on",
        "--fit-target", "1229",
    ];
    assert_eq!(args, expected);
}

#[test]
fn embedding_role_adds_embeddings_flag() {
    let hw = gpu_hw(8192);
    let s = settings(4096);
    let args = build_args("/m.gguf", &s, &hw, Role::Embedding);
    assert!(args.iter().any(|a| a == "--embeddings"));
}

#[test]
fn chat_role_does_not_add_embeddings_flag() {
    let hw = gpu_hw(8192);
    let s = settings(4096);
    let args = build_args("/m.gguf", &s, &hw, Role::Chat);
    assert!(!args.iter().any(|a| a == "--embeddings"));
    assert!(!args.iter().any(|a| a == "--pooling"));
    assert!(!args.iter().any(|a| a == "--embd-normalize"));
    assert!(!args.iter().any(|a| a == "--rerank"));
}

#[test]
fn embedding_specific_flags_emitted_when_set() {
    let hw = gpu_hw(8192);
    let mut s = settings(4096);
    s.pooling_type_override = Some("mean".into());
    s.embd_normalize = Some(2);
    s.rerank = Some(true);
    let args = build_args("/m.gguf", &s, &hw, Role::Embedding);
    assert_eq!(val_after(&args, "--pooling"), Some("mean"));
    assert_eq!(val_after(&args, "--embd-normalize"), Some("2"));
    assert!(args.iter().any(|a| a == "--rerank"));
}

#[test]
fn embedding_defaults_omit_pooling_and_normalize() {
    let hw = gpu_hw(8192);
    let s = settings(4096);
    let args = build_args("/m.gguf", &s, &hw, Role::Embedding);
    assert!(!args.iter().any(|a| a == "--pooling"));
    assert!(!args.iter().any(|a| a == "--embd-normalize"));
    assert!(!args.iter().any(|a| a == "--rerank"));
    assert!(args.iter().any(|a| a == "--embeddings"));
}

#[test]
fn cpu_mode_overrides_gpu_and_forces_safety_valve() {
    let hw = gpu_hw(8192);
    let mut s = settings(4096);
    s.cpu_mode = Some(true);
    let args = build_args("/m.gguf", &s, &hw, Role::Chat);
    assert_eq!(val_after(&args, "-ngl"), Some("0"));
    assert_eq!(val_after(&args, "--fit"), Some("off"));
    assert!(!args.iter().any(|a| a == "--fit-target"));
}

#[test]
fn mlock_and_no_mmap_emitted_when_enabled() {
    let hw = gpu_hw(8192);
    let mut s = settings(4096);
    s.mlock = Some(true);
    s.no_mmap = Some(true);
    let args = build_args("/m.gguf", &s, &hw, Role::Chat);
    assert!(args.iter().any(|a| a == "--mlock"));
    assert!(args.iter().any(|a| a == "--no-mmap"));
}

#[test]
fn threads_emitted_when_set() {
    let hw = gpu_hw(8192);
    let mut s = settings(4096);
    s.threads = Some(8);
    s.threads_batch = Some(12);
    let args = build_args("/m.gguf", &s, &hw, Role::Chat);
    assert_eq!(val_after(&args, "--threads"), Some("8"));
    assert_eq!(val_after(&args, "--threads-batch"), Some("12"));
}

#[test]
fn threads_omitted_when_none_or_zero() {
    let hw = gpu_hw(8192);
    let s = settings(4096);
    let args = build_args("/m.gguf", &s, &hw, Role::Chat);
    assert!(!args.iter().any(|a| a == "--threads"));
    let mut s2 = settings(4096);
    s2.threads = Some(0);
    let args2 = build_args("/m.gguf", &s2, &hw, Role::Chat);
    assert!(!args2.iter().any(|a| a == "--threads"));
}

#[test]
fn role_from_db_str_parses_known_values() {
    assert_eq!(Role::from_db_str("chat"), Some(Role::Chat));
    assert_eq!(Role::from_db_str("embedding"), Some(Role::Embedding));
    assert_eq!(Role::from_db_str(""), None);
    assert_eq!(Role::from_db_str("unknown"), None);
}

#[test]
fn role_tags_round_trip() {
    assert_eq!(Role::from_db_str(Role::Chat.as_db_str()), Some(Role::Chat));
    assert_eq!(Role::from_db_str(Role::Embedding.as_db_str()), Some(Role::Embedding));
}

#[test]
fn sampling_flags_only_for_chat() {
    let hw = gpu_hw(8192);
    let mut s = settings(4096);
    s.temp = Some("0.7".into());
    s.top_k = Some(40);
    s.seed = Some(-1);
    let chat = build_args("/m.gguf", &s, &hw, Role::Chat);
    assert_eq!(val_after(&chat, "--temp"), Some("0.7"));
    assert_eq!(val_after(&chat, "--top-k"), Some("40"));
    assert_eq!(val_after(&chat, "--seed"), Some("-1"));
    let emb = build_args("/m.gguf", &s, &hw, Role::Embedding);
    assert!(!emb.iter().any(|a| a == "--temp"));
    assert!(!emb.iter().any(|a| a == "--top-k"));
}

#[test]
fn server_flags_for_both_roles() {
    let hw = cpu_hw();
    let mut s = settings(0);
    s.parallel = Some(4);
    s.cont_batching = Some(true);
    s.rope_scaling = Some("yarn".into());
    for role in [Role::Chat, Role::Embedding] {
        let args = build_args("/m.gguf", &s, &hw, role);
        assert_eq!(val_after(&args, "--parallel"), Some("4"));
        assert!(args.iter().any(|a| a == "--cont-batching"));
        assert_eq!(val_after(&args, "--rope-scaling"), Some("yarn"));
    }
}

#[test]
fn negative_total_vram_defaults_to_zero_allocation() {
    let mut hw = gpu_hw(8192);
    hw.total_vram_mb = -5;
    let s = compute_default_settings(&model(2048), &hw);
    assert_eq!(s.vram_allocation_mb, Some(0));
    assert_eq!(s.ctx_size, Some(2048));
    assert_eq!(s.cpu_mode, Some(false));
    assert_eq!(s.threads, None);
}
