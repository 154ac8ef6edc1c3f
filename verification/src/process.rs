//! Launch logic: default settings for a model that has none saved yet, and
//! the VRAM translation engine that turns a model, its settings and the
//! hardware profile into the `llama-server` argument vector.
//!
//! GPU path (`gpu_present`, an allocation above zero, and CPU mode off):
//! `-ngl auto --fit on --fit-target <margin>`, where the margin left free is
//! the total VRAM minus the allocation, never below 256 MiB. Otherwise the
//! CPU-only safety valve: `-ngl 0 --fit off` and no `--fit-target`.

use vstd::prelude::*;

use crate::db::registry_ops::{all_auto, ModelSettings, ModelSummary};
use crate::hardware::HardwareProfile;
use crate::text::{i64_to_string, int_decimal};

verus! {

/// Upper bound of the default context size.
pub const DEFAULT_CTX_SIZE_CAP: i64 = 4096;

/// Default VRAM allocation: 8/10 of the total.
pub const VRAM_ALLOCATION_NUM: i64 = 8;

pub const VRAM_ALLOCATION_DENOM: i64 = 10;

/// Smallest `--fit-target` (MiB of VRAM left free).
pub const FIT_TARGET_FLOOR_MIB: i64 = 256;

/// Which proxy route a launched model serves.
#[derive(Debug, Clone, Copy, PartialEq, Eq, Structural)]
pub enum Role {
    Chat,
    Embedding,
}

/// The role named by a database tag: `chat` or `embedding`.
pub open spec fn spec_role_from_db(s: Seq<char>) -> Option<Role> {
    if s == "chat"@ {
        Some(Role::Chat)
    } else if s == "embedding"@ {
        Some(Role::Embedding)
    } else {
        None
    }
}

impl Role {
    /// Parses the role tag stored in the database (see
    /// [`spec_role_from_db`]).
    pub fn from_db_str(s: &str) -> (r: Option<Role>)
        ensures
            r == spec_role_from_db(s@),
    {
        let owned = String::from_str(s);
        if owned == String::from_str("chat") {
            Some(Role::Chat)
        } else if owned == String::from_str("embedding") {
            Some(Role::Embedding)
        } else {
            None
        }
    }

    /// The role's database tag.
    pub fn as_db_str(&self) -> (r: &'static str)
        ensures
            r@ == (match self {
                Role::Chat => "chat"@,
                Role::Embedding => "embedding"@,
            }),
    {
        match self {
            Role::Chat => "chat",
            Role::Embedding => "embedding",
        }
    }
}

/// Result of a successful launch.
pub struct LaunchReport {
    pub model_id: i64,
    pub model_name: String,
    pub role: Role,
    pub port: u16,
    pub pid: u32,
    pub args: Vec<String>,
}

// ───────────────────── Default settings ─────────────────────

/// Truncating division of `a` by 10, as Rust computes it.
pub open spec fn trunc_div10(a: int) -> int {
    if a >= 0 { a / 10 } else { -((-a) / 10) }
}

/// Defaults for a model the user has not customized: the context size is
/// the model's context length capped at 4096, the VRAM allocation is 80% of
/// the total when a GPU is present (else 0), flash attention on, CPU mode
/// off, everything else on "auto".
pub fn compute_default_settings(model: &ModelSummary, hw: &HardwareProfile) -> (s: ModelSettings)
    requires
        hw.gpu_present ==> i64::MIN <= hw.total_vram_mb * VRAM_ALLOCATION_NUM <= i64::MAX,
    ensures
        s.ctx_size == Some(if model.context_length < DEFAULT_CTX_SIZE_CAP {
            model.context_length
        } else {
            DEFAULT_CTX_SIZE_CAP
        }),
        s.vram_allocation_mb == Some((if hw.gpu_present {
            let a = trunc_div10(hw.total_vram_mb * VRAM_ALLOCATION_NUM);
            if a < 0 { 0 } else { a }
        } else {
            0
        }) as i64),
        s.flash_attn == Some(true),
        s.cpu_mode == Some(false),
        all_auto(ModelSettings { vram_allocation_mb: None, ctx_size: None, flash_attn: None, cpu_mode: None, ..s }),
{
    let ctx_size = if model.context_length < DEFAULT_CTX_SIZE_CAP {
        model.context_length
    } else {
        DEFAULT_CTX_SIZE_CAP
    };
    let vram_allocation_mb = if hw.gpu_present {
        let a = hw.total_vram_mb * VRAM_ALLOCATION_NUM / VRAM_ALLOCATION_DENOM;
        if a < 0 { 0 } else { a }
    } else {
        0
    };
    let base = ModelSettings::default();
    ModelSettings {
        vram_allocation_mb: Some(vram_allocation_mb),
        ctx_size: Some(ctx_size),
        flash_attn: Some(true),
        cpu_mode: Some(false),
        ..base
    }
}


// ───────────────────── The argument vector ─────────────────────

/// Mathematical model of an argument vector.
pub open spec fn args_view(v: Seq<String>) -> Seq<Seq<char>> {
    v.map_values(|a: String| a@)
}

/// `flag value` when an integer is set, nothing otherwise.
pub open spec fn int_arg(flag: Seq<char>, v: Option<i64>) -> Seq<Seq<char>> {
    match v {
        Some(n) => seq![flag, int_decimal(n as int)],
        None => seq![],
    }
}

/// `flag value` when an integer above zero is set, nothing otherwise.
pub open spec fn positive_int_arg(flag: Seq<char>, v: Option<i64>) -> Seq<Seq<char>> {
    match v {
        Some(n) => if n > 0 { seq![flag, int_decimal(n as int)] } else { seq![] },
        None => seq![],
    }
}

/// `flag value` when a text value is set, nothing otherwise.
pub open spec fn text_arg(flag: Seq<char>, v: Option<Seq<char>>) -> Seq<Seq<char>> {
    match v {
        Some(t) => seq![flag, t],
        None => seq![],
    }
}

/// The bare `flag` when switched on, nothing otherwise (unset means off).
pub open spec fn switch_arg(flag: Seq<char>, v: Option<bool>) -> Seq<Seq<char>> {
    if v == Some(true) { seq![flag] } else { seq![] }
}

/// The model file, and a loopback listener on an OS-assigned port.
pub open spec fn spec_base_args(path: Seq<char>) -> Seq<Seq<char>> {
    seq!["--model"@, path, "--host"@, "127.0.0.1"@, "--port"@, "0"@]
}

/// Embedding-only flags (nothing for the chat role).
pub open spec fn spec_embedding_args(s: ModelSettings, role: Role) -> Seq<Seq<char>> {
    if role == Role::Embedding {
        seq!["--embeddings"@] + text_arg("--pooling"@, s.pooling_type_override.deep_view())
            + int_arg("--embd-normalize"@, s.embd_normalize) + switch_arg("--rerank"@, s.rerank)
    } else {
        seq![]
    }
}

/// Context and batch sizes, flash attention (`on`/`off`), KV-cache types.
pub open spec fn spec_context_args(s: ModelSettings) -> Seq<Seq<char>> {
    int_arg("--ctx-size"@, s.ctx_size) + int_arg("--batch-size"@, s.batch_size)
        + int_arg("--ubatch-size"@, s.ubatch_size) + match s.flash_attn {
        Some(true) => seq!["--flash-attn"@, "on"@],
        Some(false) => seq!["--flash-attn"@, "off"@],
        None => seq![],
    } + text_arg("--cache-type-k"@, s.cache_type_k.deep_view())
        + text_arg("--cache-type-v"@, s.cache_type_v.deep_view())
}

/// The VRAM allocation in effect: unset or negative counts as zero.
pub open spec fn spec_allocation(s: ModelSettings) -> int {
    match s.vram_allocation_mb {
        Some(a) => if a < 0 { 0 } else { a as int },
        None => 0,
    }
}

/// Layers go to the GPU only when one is present, some VRAM is allocated,
/// and CPU mode is off.
pub open spec fn spec_gpu_mode(s: ModelSettings, hw: HardwareProfile) -> bool {
    s.cpu_mode != Some(true) && hw.gpu_present && spec_allocation(s) > 0
}

/// VRAM (MiB) left free for the fit engine: total minus allocation, at least
/// `FIT_TARGET_FLOOR_MIB`.
pub open spec fn spec_fit_target(s: ModelSettings, hw: HardwareProfile) -> int {
    let margin = hw.total_vram_mb - spec_allocation(s);
    if margin < FIT_TARGET_FLOOR_MIB { FIT_TARGET_FLOOR_MIB as int } else { margin }
}

/// The VRAM translation: fitted GPU offload, or the CPU-only safety valve.
pub open spec fn spec_memory_args(s: ModelSettings, hw: HardwareProfile) -> Seq<Seq<char>> {
    if spec_gpu_mode(s, hw) {
        seq!["-ngl"@, "auto"@, "--fit"@, "on"@, "--fit-target"@, int_decimal(spec_fit_target(s, hw))]
    } else {
        seq!["-ngl"@, "0"@, "--fit"@, "off"@]
    }
}

/// Thread counts (only when above zero) and the memory switches.
pub open spec fn spec_cpu_args(s: ModelSettings) -> Seq<Seq<char>> {
    positive_int_arg("--threads"@, s.threads) + positive_int_arg("--threads-batch"@, s.threads_batch)
        + switch_arg("--mlock"@, s.mlock) + switch_arg("--no-mmap"@, s.no_mmap)
        + switch_arg("--cache-prompt"@, s.cache_prompt)
}

/// Basic sampling: temperature, top-k/top-p/min-p, repetition, seed.
pub open spec fn spec_basic_sampling_args(s: ModelSettings) -> Seq<Seq<char>> {
    text_arg("--temp"@, s.temp.deep_view()) + int_arg("--top-k"@, s.top_k)
        + text_arg("--top-p"@, s.top_p.deep_view()) + text_arg("--min-p"@, s.min_p.deep_view())
        + text_arg("--repeat-penalty"@, s.repeat_penalty.deep_view())
        + int_arg("--repeat-last-n"@, s.repeat_last_n) + int_arg("--seed"@, s.seed)
}

/// Extended sampling: presence/frequency penalties, typical-p, XTC, mirostat.
pub open spec fn spec_extended_sampling_args(s: ModelSettings) -> Seq<Seq<char>> {
    text_arg("--presence-penalty"@, s.presence_penalty.deep_view())
        + text_arg("--frequency-penalty"@, s.frequency_penalty.deep_view())
        + text_arg("--typical-p"@, s.typical_p.deep_view())
        + text_arg("--xtc-probability"@, s.xtc_probability.deep_view())
        + text_arg("--xtc-threshold"@, s.xtc_threshold.deep_view())
        + int_arg("--mirostat"@, s.mirostat)
        + text_arg("--mirostat-lr"@, s.mirostat_lr.deep_view())
        + text_arg("--mirostat-ent"@, s.mirostat_ent.deep_view())
}

/// DRY sampling, prediction length, context shift, reasoning format.
pub open spec fn spec_generation_args(s: ModelSettings) -> Seq<Seq<char>> {
    text_arg("--dry-multiplier"@, s.dry_multiplier.deep_view())
        + text_arg("--dry-base"@, s.dry_base.deep_view())
        + int_arg("--dry-allowed-length"@, s.dry_allowed_length)
        + int_arg("--predict"@, s.predict) + switch_arg("--context-shift"@, s.context_shift)
        + text_arg("--reasoning-format"@, s.reasoning_format.deep_view())
}

/// Sampling, generation and reasoning flags (nothing for the embedding role).
pub open spec fn spec_sampling_args(s: ModelSettings, role: Role) -> Seq<Seq<char>> {
    if role == Role::Chat {
        spec_basic_sampling_args(s) + spec_extended_sampling_args(s) + spec_generation_args(s)
    } else {
        seq![]
    }
}

/// Server and RoPE flags (both roles).
pub open spec fn spec_server_args(s: ModelSettings) -> Seq<Seq<char>> {
    int_arg("--parallel"@, s.parallel) + switch_arg("--cont-batching"@, s.cont_batching)
        + int_arg("--timeout"@, s.timeout) + text_arg("--rope-scaling"@, s.rope_scaling.deep_view())
        + text_arg("--rope-freq-base"@, s.rope_freq_base.deep_view())
}

/// The full `llama-server` argument vector, section by section.
pub open spec fn spec_build_args(path: Seq<char>, s: ModelSettings, hw: HardwareProfile, role: Role) -> Seq<Seq<char>> {
    spec_base_args(path) + spec_embedding_args(s, role) + spec_context_args(s) + spec_memory_args(s, hw)
        + spec_cpu_args(s) + spec_sampling_args(s, role) + spec_server_args(s)
}

/// The total VRAM minus the allocation fits an `i64` whenever it is computed.
pub open spec fn fit_target_computable(s: ModelSettings, hw: HardwareProfile) -> bool {
    spec_gpu_mode(s, hw) ==> hw.total_vram_mb - spec_allocation(s) >= i64::MIN
}

fn push_str(args: &mut Vec<String>, a: &str)
    ensures
        args_view(final(args)@) == args_view(old(args)@).push(a@),
{
    args.push(String::from_str(a));
    proof {
        assert(args_view(final(args)@) =~= args_view(old(args)@).push(a@));
    }
}

fn push_string(args: &mut Vec<String>, a: String)
    ensures
        args_view(final(args)@) == args_view(old(args)@).push(a@),
{
    let ghost av = a@;
    args.push(a);
    proof {
        assert(args_view(final(args)@) =~= args_view(old(args)@).push(av));
    }
}

fn push_int(args: &mut Vec<String>, flag: &str, v: Option<i64>)
    ensures
        args_view(final(args)@) == args_view(old(args)@) + int_arg(flag@, v),
{
    let ghost start = args_view(args@);
    if let Some(n) = v {
        push_str(args, flag);
        push_string(args, i64_to_string(n));
    }
    proof {
        assert(args_view(args@) =~= start + int_arg(flag@, v));
    }
}

fn push_positive_int(args: &mut Vec<String>, flag: &str, v: Option<i64>)
    ensures
        args_view(final(args)@) == args_view(old(args)@) + positive_int_arg(flag@, v),
{
    let ghost start = args_view(args@);
    if let Some(n) = v {
        if n > 0 {
            push_str(args, flag);
            push_string(args, i64_to_string(n));
        }
    }
    proof {
        assert(args_view(args@) =~= start + positive_int_arg(flag@, v));
    }
}

fn push_text(args: &mut Vec<String>, flag: &str, v: &Option<String>)
    ensures
        args_view(final(args)@) == args_view(old(args)@) + text_arg(flag@, v.deep_view()),
{
    let ghost start = args_view(args@);
    if let Some(t) = v {
        push_str(args, flag);
        push_string(args, t.clone());
    }
    proof {
        assert(args_view(args@) =~= start + text_arg(flag@, v.deep_view()));
    }
}

fn push_switch(args: &mut Vec<String>, flag: &str, v: Option<bool>)
    ensures
        args_view(final(args)@) == args_view(old(args)@) + switch_arg(flag@, v),
{
    let ghost start = args_view(args@);
    let on = match v {
        Some(b) => b,
        None => false,
    };
    if on {
        push_str(args, flag);
    }
    proof {
        assert(args_view(args@) =~= start + switch_arg(flag@, v));
    }
}

fn push_embedding_args(args: &mut Vec<String>, s: &ModelSettings, role: Role)
    ensures
        args_view(final(args)@) == args_view(old(args)@) + spec_embedding_args(*s, role),
{
    let ghost start = args_view(args@);
    if role == Role::Embedding {
        push_str(args, "--embeddings");
        push_text(args, "--pooling", &s.pooling_type_override);
        push_int(args, "--embd-normalize", s.embd_normalize);
        push_switch(args, "--rerank", s.rerank);
    }
    proof {
        assert(args_view(args@) =~= start + spec_embedding_args(*s, role));
    }
}

fn push_context_args(args: &mut Vec<String>, s: &ModelSettings)
    ensures
        args_view(final(args)@) == args_view(old(args)@) + spec_context_args(*s),
{
    let ghost start = args_view(args@);
    push_int(args, "--ctx-size", s.ctx_size);
    push_int(args, "--batch-size", s.batch_size);
    push_int(args, "--ubatch-size", s.ubatch_size);
    match s.flash_attn {
        Some(true) => {
            push_str(args, "--flash-attn");
            push_str(args, "on");
        },
        Some(false) => {
            push_str(args, "--flash-attn");
            push_str(args, "off");
        },
        None => {},
    }
    push_text(args, "--cache-type-k", &s.cache_type_k);
    push_text(args, "--cache-type-v", &s.cache_type_v);
    proof {
        assert(args_view(args@) =~= start + spec_context_args(*s));
    }
}

fn push_memory_args(args: &mut Vec<String>, s: &ModelSettings, hw: &HardwareProfile)
    requires
        fit_target_computable(*s, *hw),
    ensures
        args_view(final(args)@) == args_view(old(args)@) + spec_memory_args(*s, *hw),
{
    let ghost start = args_view(args@);
    let allocation: i64 = match s.vram_allocation_mb {
        Some(a) => if a < 0 { 0 } else { a },
        None => 0,
    };
    let cpu_mode = match s.cpu_mode {
        Some(b) => b,
        None => false,
    };
    let gpu_mode = !cpu_mode && hw.gpu_present && allocation > 0;
    if gpu_mode {
        let diff = hw.total_vram_mb - allocation;
        let margin = if diff < FIT_TARGET_FLOOR_MIB { FIT_TARGET_FLOOR_MIB } else { diff };
        push_str(args, "-ngl");
        push_str(args, "auto");
        push_str(args, "--fit");
        push_str(args, "on");
        push_str(args, "--fit-target");
        push_string(args, i64_to_string(margin));
    } else {
        push_str(args, "-ngl");
        push_str(args, "0");
        push_str(args, "--fit");
        push_str(args, "off");
    }
    proof {
        assert(args_view(args@) =~= start + spec_memory_args(*s, *hw));
    }
}

fn push_cpu_args(args: &mut Vec<String>, s: &ModelSettings)
    ensures
        args_view(final(args)@) == args_view(old(args)@) + spec_cpu_args(*s),
{
    let ghost start = args_view(args@);
    push_positive_int(args, "--threads", s.threads);
    push_positive_int(args, "--threads-batch", s.threads_batch);
    push_switch(args, "--mlock", s.mlock);
    push_switch(args, "--no-mmap", s.no_mmap);
    push_switch(args, "--cache-prompt", s.cache_prompt);
    proof {
        assert(args_view(args@) =~= start + spec_cpu_args(*s));
    }
}

fn push_basic_sampling_args(args: &mut Vec<String>, s: &ModelSettings)
    ensures
        args_view(final(args)@) == args_view(old(args)@) + spec_basic_sampling_args(*s),
{
    let ghost start = args_view(args@);
    push_text(args, "--temp", &s.temp);
    push_int(args, "--top-k", s.top_k);
    push_text(args, "--top-p", &s.top_p);
    push_text(args, "--min-p", &s.min_p);
    push_text(args, "--repeat-penalty", &s.repeat_penalty);
    push_int(args, "--repeat-last-n", s.repeat_last_n);
    push_int(args, "--seed", s.seed);
    proof {
        assert(args_view(args@) =~= start + spec_basic_sampling_args(*s));
    }
}

#[verifier::rlimit(40)]
fn push_extended_sampling_args(args: &mut Vec<String>, s: &ModelSettings)
    ensures
        args_view(final(args)@) == args_view(old(args)@) + spec_extended_sampling_args(*s),
{
    let ghost start = args_view(args@);
    push_text(args, "--presence-penalty", &s.presence_penalty);
    push_text(args, "--frequency-penalty", &s.frequency_penalty);
    push_text(args, "--typical-p", &s.typical_p);
    push_text(args, "--xtc-probability", &s.xtc_probability);
    push_text(args, "--xtc-threshold", &s.xtc_threshold);
    push_int(args, "--mirostat", s.mirostat);
    push_text(args, "--mirostat-lr", &s.mirostat_lr);
    push_text(args, "--mirostat-ent", &s.mirostat_ent);
    proof {
        assert(args_view(args@) =~= start + spec_extended_sampling_args(*s));
    }
}

fn push_generation_args(args: &mut Vec<String>, s: &ModelSettings)
    ensures
        args_view(final(args)@) == args_view(old(args)@) + spec_generation_args(*s),
{
    let ghost start = args_view(args@);
    push_text(args, "--dry-multiplier", &s.dry_multiplier);
    push_text(args, "--dry-base", &s.dry_base);
    push_int(args, "--dry-allowed-length", s.dry_allowed_length);
    push_int(args, "--predict", s.predict);
    push_switch(args, "--context-shift", s.context_shift);
    push_text(args, "--reasoning-format", &s.reasoning_format);
    proof {
        assert(args_view(args@) =~= start + spec_generation_args(*s));
    }
}

fn push_sampling_args(args: &mut Vec<String>, s: &ModelSettings, role: Role)
    ensures
        args_view(final(args)@) == args_view(old(args)@) + spec_sampling_args(*s, role),
{
    let ghost start = args_view(args@);
    if role == Role::Chat {
        push_basic_sampling_args(args, s);
        push_extended_sampling_args(args, s);
        push_generation_args(args, s);
    }
    proof {
        assert(args_view(args@) =~= start + spec_sampling_args(*s, role));
    }
}

fn push_server_args(args: &mut Vec<String>, s: &ModelSettings)
    ensures
        args_view(final(args)@) == args_view(old(args)@) + spec_server_args(*s),
{
    let ghost start = args_view(args@);
    push_int(args, "--parallel", s.parallel);
    push_switch(args, "--cont-batching", s.cont_batching);
    push_int(args, "--timeout", s.timeout);
    push_text(args, "--rope-scaling", &s.rope_scaling);
    push_text(args, "--rope-freq-base", &s.rope_freq_base);
    proof {
        assert(args_view(args@) =~= start + spec_server_args(*s));
    }
}

/// Whether [`build_args`] can compute the fit target for these settings and
/// hardware without overflow (see [`fit_target_computable`]).
pub fn fit_target_ok(settings: &ModelSettings, hw: &HardwareProfile) -> (r: bool)
    ensures
        r == fit_target_computable(*settings, *hw),
{
    let allocation: i64 = match settings.vram_allocation_mb {
        Some(a) => if a < 0 { 0 } else { a },
        None => 0,
    };
    let gpu_mode = settings.cpu_mode != Some(true) && hw.gpu_present && allocation > 0;
    !gpu_mode || hw.total_vram_mb.checked_sub(allocation).is_some()
}

/// Assembles the `llama-server` argument vector for a model file, its
/// settings, the hardware profile and the route it will serve (see
/// [`spec_build_args`]).
pub fn build_args(model_filepath: &str, settings: &ModelSettings, hw: &HardwareProfile, role: Role) -> (args: Vec<String>)
    requires
        fit_target_computable(*settings, *hw),
    ensures
        args_view(args@) == spec_build_args(model_filepath@, *settings, *hw, role),
{
    let mut args: Vec<String> = Vec::new();
    push_str(&mut args, "--model");
    push_string(&mut args, String::from_str(model_filepath));
    push_str(&mut args, "--host");
    push_str(&mut args, "127.0.0.1");
    push_str(&mut args, "--port");
    push_str(&mut args, "0");
    proof {
        assert(args_view(args@) =~= spec_base_args(model_filepath@));
    }
    push_embedding_args(&mut args, settings, role);
    push_context_args(&mut args, settings);
    push_memory_args(&mut args, settings, hw);
    push_cpu_args(&mut args, settings);
    push_sampling_args(&mut args, settings, role);
    push_server_args(&mut args, settings);
    args
}

// ───────────────────── Laws ─────────────────────

/// Every launch command starts with the model file and a loopback listener
/// on an OS-assigned port, whatever the settings, hardware and role.
pub proof fn law_args_start_with_model_and_loopback(path: Seq<char>, s: ModelSettings, hw: HardwareProfile, role: Role)
    ensures
        spec_build_args(path, s, hw, role).len() >= 6,
        spec_build_args(path, s, hw, role).subrange(0, 6) == spec_base_args(path),
{
    let a = spec_build_args(path, s, hw, role);
    assert(a.subrange(0, 6) =~= spec_base_args(path));
}

/// The role only decides two sections: a chat model gets no embedding
/// flags, an embedding model no sampling flags; every other section is the
/// same for both roles.
pub proof fn law_role_sections(path: Seq<char>, s: ModelSettings, hw: HardwareProfile)
    ensures
        spec_build_args(path, s, hw, Role::Chat) == spec_base_args(path) + spec_context_args(s) + spec_memory_args(s, hw)
            + spec_cpu_args(s) + spec_basic_sampling_args(s) + spec_extended_sampling_args(s)
            + spec_generation_args(s) + spec_server_args(s),
        spec_build_args(path, s, hw, Role::Embedding) == spec_base_args(path) + seq!["--embeddings"@]
            + text_arg("--pooling"@, s.pooling_type_override.deep_view()) + int_arg("--embd-normalize"@, s.embd_normalize)
            + switch_arg("--rerank"@, s.rerank) + spec_context_args(s) + spec_memory_args(s, hw) + spec_cpu_args(s)
            + spec_server_args(s),
{
    assert(spec_build_args(path, s, hw, Role::Chat) =~= spec_base_args(path) + spec_context_args(s) + spec_memory_args(s, hw)
        + spec_cpu_args(s) + spec_basic_sampling_args(s) + spec_extended_sampling_args(s)
        + spec_generation_args(s) + spec_server_args(s));
    assert(spec_build_args(path, s, hw, Role::Embedding) =~= spec_base_args(path) + seq!["--embeddings"@]
        + text_arg("--pooling"@, s.pooling_type_override.deep_view()) + int_arg("--embd-normalize"@, s.embd_normalize)
        + switch_arg("--rerank"@, s.rerank) + spec_context_args(s) + spec_memory_args(s, hw) + spec_cpu_args(s)
        + spec_server_args(s));
}

/// `flag` stands somewhere in `args` directly followed by `value`.
pub open spec fn has_flag_value(args: Seq<Seq<char>>, flag: Seq<char>, value: Seq<char>) -> bool {
    exists|i: int| 0 <= i && i + 1 < args.len() && args[i] == flag && #[trigger] args[i + 1] == value
}

/// The chat arguments around the basic sampling section.
proof fn lemma_chat_args_split(path: Seq<char>, s: ModelSettings, hw: HardwareProfile)
    ensures
        spec_build_args(path, s, hw, Role::Chat) == (spec_base_args(path) + spec_context_args(s)
            + spec_memory_args(s, hw) + spec_cpu_args(s)) + spec_basic_sampling_args(s) + (spec_extended_sampling_args(s)
            + spec_generation_args(s) + spec_server_args(s)),
{
    law_role_sections(path, s, hw);
    assert(spec_build_args(path, s, hw, Role::Chat) =~= (spec_base_args(path) + spec_context_args(s)
        + spec_memory_args(s, hw) + spec_cpu_args(s)) + spec_basic_sampling_args(s) + (spec_extended_sampling_args(s)
        + spec_generation_args(s) + spec_server_args(s)));
}

/// A pair inside the middle section of `head + mid + tail` is a pair of the
/// whole.
proof fn lemma_pair_in_middle(head: Seq<Seq<char>>, mid: Seq<Seq<char>>, tail: Seq<Seq<char>>, flag: Seq<char>, value: Seq<char>)
    requires
        has_flag_value(mid, flag, value),
    ensures
        has_flag_value(head + mid + tail, flag, value),
{
    let i = choose|i: int| 0 <= i && i + 1 < mid.len() && mid[i] == flag && #[trigger] mid[i + 1] == value;
    let a = head + mid + tail;
    assert(a[head.len() + i] == flag);
    assert(a[head.len() + i + 1] == value);
}

/// The basic sampling section, spelled out field by field.
spec fn basic_parts(s: ModelSettings) -> (Seq<Seq<char>>, Seq<Seq<char>>, Seq<Seq<char>>, Seq<Seq<char>>, Seq<Seq<char>>, Seq<Seq<char>>, Seq<Seq<char>>) {
    (
        text_arg("--temp"@, s.temp.deep_view()),
        int_arg("--top-k"@, s.top_k),
        text_arg("--top-p"@, s.top_p.deep_view()),
        text_arg("--min-p"@, s.min_p.deep_view()),
        text_arg("--repeat-penalty"@, s.repeat_penalty.deep_view()),
        int_arg("--repeat-last-n"@, s.repeat_last_n),
        int_arg("--seed"@, s.seed),
    )
}

/// A text pair at position `i` of `a` stays at position `i` after
/// appending `b`.
proof fn lemma_pair_extend(a: Seq<Seq<char>>, b: Seq<Seq<char>>, i: int, flag: Seq<char>, value: Seq<char>)
    requires
        0 <= i,
        i + 1 < a.len(),
        a[i] == flag,
        a[i + 1] == value,
    ensures
        (a + b)[i] == flag,
        (a + b)[i + 1] == value,
        i + 1 < (a + b).len(),
{
}

/// Each text value of the basic sampling section follows its own flag.
proof fn lemma_basic_sampling_pairs(s: ModelSettings)
    ensures
        s.temp matches Some(t) ==> has_flag_value(spec_basic_sampling_args(s), "--temp"@, t@),
        s.top_p matches Some(t) ==> has_flag_value(spec_basic_sampling_args(s), "--top-p"@, t@),
        s.min_p matches Some(t) ==> has_flag_value(spec_basic_sampling_args(s), "--min-p"@, t@),
        s.repeat_penalty matches Some(t) ==> has_flag_value(spec_basic_sampling_args(s), "--repeat-penalty"@, t@),
{
    let (temp, top_k, top_p, min_p, rep, last_n, seed) = basic_parts(s);
    let x1 = temp + top_k;
    let x2 = x1 + top_p;
    let x3 = x2 + min_p;
    let x4 = x3 + rep;
    let x5 = x4 + last_n;
    let x6 = x5 + seed;
    assert(x6 == spec_basic_sampling_args(s));
    if let Some(t) = s.temp {
        let i = 0int;
        assert(temp[i] == "--temp"@ && temp[i + 1] == t@);
        lemma_pair_extend(temp, top_k, i, "--temp"@, t@);
        lemma_pair_extend(x1, top_p, i, "--temp"@, t@);
        lemma_pair_extend(x2, min_p, i, "--temp"@, t@);
        lemma_pair_extend(x3, rep, i, "--temp"@, t@);
        lemma_pair_extend(x4, last_n, i, "--temp"@, t@);
        lemma_pair_extend(x5, seed, i, "--temp"@, t@);
    }
    if let Some(t) = s.top_p {
        let i = x1.len() as int;
        assert(x2[i] == "--top-p"@ && x2[i + 1] == t@);
        lemma_pair_extend(x2, min_p, i, "--top-p"@, t@);
        lemma_pair_extend(x3, rep, i, "--top-p"@, t@);
        lemma_pair_extend(x4, last_n, i, "--top-p"@, t@);
        lemma_pair_extend(x5, seed, i, "--top-p"@, t@);
    }
    if let Some(t) = s.min_p {
        let i = x2.len() as int;
        assert(x3[i] == "--min-p"@ && x3[i + 1] == t@);
        lemma_pair_extend(x3, rep, i, "--min-p"@, t@);
        lemma_pair_extend(x4, last_n, i, "--min-p"@, t@);
        lemma_pair_extend(x5, seed, i, "--min-p"@, t@);
    }
    if let Some(t) = s.repeat_penalty {
        let i = x3.len() as int;
        assert(x4[i] == "--repeat-penalty"@ && x4[i + 1] == t@);
        lemma_pair_extend(x4, last_n, i, "--repeat-penalty"@, t@);
        lemma_pair_extend(x5, seed, i, "--repeat-penalty"@, t@);
    }
}

/// In a chat launch each basic sampling value that the settings give is
/// passed right after its own flag: the temperature after `--temp`, top-p
/// after `--top-p`, min-p after `--min-p`, the repeat penalty after
/// `--repeat-penalty`.
pub proof fn law_sampling_values_follow_their_flags(path: Seq<char>, s: ModelSettings, hw: HardwareProfile)
    ensures
        s.temp matches Some(t) ==> has_flag_value(spec_build_args(path, s, hw, Role::Chat), "--temp"@, t@),
        s.top_p matches Some(t) ==> has_flag_value(spec_build_args(path, s, hw, Role::Chat), "--top-p"@, t@),
        s.min_p matches Some(t) ==> has_flag_value(spec_build_args(path, s, hw, Role::Chat), "--min-p"@, t@),
        s.repeat_penalty matches Some(t) ==> has_flag_value(
            spec_build_args(path, s, hw, Role::Chat),
            "--repeat-penalty"@,
            t@,
        ),
{
    lemma_chat_args_split(path, s, hw);
    lemma_basic_sampling_pairs(s);
    let head = spec_base_args(path) + spec_context_args(s) + spec_memory_args(s, hw) + spec_cpu_args(s);
    let tail = spec_extended_sampling_args(s) + spec_generation_args(s) + spec_server_args(s);
    let basic = spec_basic_sampling_args(s);
    if let Some(t) = s.temp {
        lemma_pair_in_middle(head, basic, tail, "--temp"@, t@);
    }
    if let Some(t) = s.top_p {
        lemma_pair_in_middle(head, basic, tail, "--top-p"@, t@);
    }
    if let Some(t) = s.min_p {
        lemma_pair_in_middle(head, basic, tail, "--min-p"@, t@);
    }
    if let Some(t) = s.repeat_penalty {
        lemma_pair_in_middle(head, basic, tail, "--repeat-penalty"@, t@);
    }
}

/// The CPU-only safety valve: without a GPU, in CPU mode, or with nothing
/// allocated, no layer is offloaded and the fit engine is off.
pub proof fn law_cpu_safety_valve(s: ModelSettings, hw: HardwareProfile)
    requires
        !hw.gpu_present || s.cpu_mode == Some(true) || spec_allocation(s) == 0,
    ensures
        spec_memory_args(s, hw) == seq!["-ngl"@, "0"@, "--fit"@, "off"@],
{
}

/// On the GPU path the fit engine keeps free the VRAM left after the
/// allocation, never less than [`FIT_TARGET_FLOOR_MIB`].
pub proof fn law_fit_target(s: ModelSettings, hw: HardwareProfile)
    requires
        spec_gpu_mode(s, hw),
    ensures
        spec_memory_args(s, hw) == seq!["-ngl"@, "auto"@, "--fit"@, "on"@, "--fit-target"@, int_decimal(spec_fit_target(s, hw))],
        spec_fit_target(s, hw) >= FIT_TARGET_FLOOR_MIB,
        hw.total_vram_mb - spec_allocation(s) >= FIT_TARGET_FLOOR_MIB ==> spec_fit_target(s, hw) == hw.total_vram_mb
            - spec_allocation(s),
{
}

/// The default VRAM allocation, 80% of the total, never exceeds the VRAM.
pub proof fn law_default_allocation_within_vram(total_vram_mb: i64)
    requires
        0 <= total_vram_mb,
    ensures
        0 <= trunc_div10(total_vram_mb * VRAM_ALLOCATION_NUM) <= total_vram_mb,
{
}

/// With the defaults (CPU mode off, 80% allocated), a machine with a GPU
/// offloads layers as soon as that allocation is above zero, and a
/// machine without one takes the safety valve.
pub proof fn law_defaults_choose_memory_path(s: ModelSettings, hw: HardwareProfile)
    requires
        s.cpu_mode == Some(false),
        s.vram_allocation_mb == Some((if hw.gpu_present {
            let a = trunc_div10(hw.total_vram_mb * VRAM_ALLOCATION_NUM);
            if a < 0 { 0 } else { a }
        } else {
            0
        }) as i64),
        hw.gpu_present ==> i64::MIN <= hw.total_vram_mb * VRAM_ALLOCATION_NUM <= i64::MAX,
    ensures
        spec_gpu_mode(s, hw) == (hw.gpu_present && trunc_div10(hw.total_vram_mb * VRAM_ALLOCATION_NUM) > 0),
{
}

} // verus!
