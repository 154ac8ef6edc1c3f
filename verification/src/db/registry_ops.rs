//! Model-registry records (`ModelRegistry.db`) and the decisions around
//! them: the role a newly inserted model gets, and how a rescan is reconciled
//! with the rows already stored.

use vstd::prelude::*;

use crate::gguf::GgufMetadata;
use crate::process::Role;
use crate::text::{contains_text, strings_view};

verus! {

/// Lightweight view of a model row, for the UI and the launch logic.
pub struct ModelSummary {
    pub id: i64,
    pub filename: String,
    pub filepath: String,
    pub filesize_bytes: i64,
    pub architecture: String,
    pub model_name: String,
    pub context_length: i64,
    pub layer_count: i64,
    pub quantization: String,
    pub chat_template: Option<String>,
    pub author: Option<String>,
    /// `"chat"`, `"embedding"`, or `None` (untagged).
    pub role: Option<String>,
    /// Raw `{arch}.pooling_type` from the GGUF header.
    pub pooling_type: Option<String>,
}

/// Counts reported by a registry reconciliation.
pub struct ReconcileReport {
    pub added: usize,
    pub updated: usize,
    pub removed: usize,
    pub failed: usize,
}

/// The mutable per-model launch flags (the `model_settings` table).
///
/// `None` means "auto": the flag is left out of the launch command and
/// llama-server uses its own default. Sampling and RoPE values that the
/// database stores as floating point are held here as the decimal text they
/// are passed on the command line with.
pub struct ModelSettings {
    // Primary controls
    pub vram_allocation_mb: Option<i64>,
    pub ctx_size: Option<i64>,
    pub flash_attn: Option<bool>,
    pub cpu_mode: Option<bool>,
    // Performance
    pub batch_size: Option<i64>,
    pub ubatch_size: Option<i64>,
    pub threads: Option<i64>,
    pub threads_batch: Option<i64>,
    pub mlock: Option<bool>,
    pub no_mmap: Option<bool>,
    // KV cache
    pub cache_type_k: Option<String>,
    pub cache_type_v: Option<String>,
    pub cache_prompt: Option<bool>,
    // Sampling (chat only)
    pub temp: Option<String>,
    pub top_k: Option<i64>,
    pub top_p: Option<String>,
    pub min_p: Option<String>,
    pub repeat_penalty: Option<String>,
    pub repeat_last_n: Option<i64>,
    pub seed: Option<i64>,
    pub presence_penalty: Option<String>,
    pub frequency_penalty: Option<String>,
    pub typical_p: Option<String>,
    pub xtc_probability: Option<String>,
    pub xtc_threshold: Option<String>,
    pub mirostat: Option<i64>,
    pub mirostat_lr: Option<String>,
    pub mirostat_ent: Option<String>,
    pub dry_multiplier: Option<String>,
    pub dry_base: Option<String>,
    pub dry_allowed_length: Option<i64>,
    // Context and server
    pub predict: Option<i64>,
    pub context_shift: Option<bool>,
    pub parallel: Option<i64>,
    pub cont_batching: Option<bool>,
    pub timeout: Option<i64>,
    // RoPE
    pub rope_scaling: Option<String>,
    pub rope_freq_base: Option<String>,
    // Reasoning (chat only)
    pub reasoning_format: Option<String>,
    // Embedding only
    pub pooling_type_override: Option<String>,
    pub embd_normalize: Option<i64>,
    pub rerank: Option<bool>,
}

/// Every field is `None`.
pub open spec fn all_auto(s: ModelSettings) -> bool {
    &&& s.vram_allocation_mb is None
    &&& s.ctx_size is None
    &&& s.flash_attn is None
    &&& s.cpu_mode is None
    &&& s.batch_size is None
    &&& s.ubatch_size is None
    &&& s.threads is None
    &&& s.threads_batch is None
    &&& s.mlock is None
    &&& s.no_mmap is None
    &&& s.cache_type_k is None
    &&& s.cache_type_v is None
    &&& s.cache_prompt is None
    &&& s.temp is None
    &&& s.top_k is None
    &&& s.top_p is None
    &&& s.min_p is None
    &&& s.repeat_penalty is None
    &&& s.repeat_last_n is None
    &&& s.seed is None
    &&& s.presence_penalty is None
    &&& s.frequency_penalty is None
    &&& s.typical_p is None
    &&& s.xtc_probability is None
    &&& s.xtc_threshold is None
    &&& s.mirostat is None
    &&& s.mirostat_lr is None
    &&& s.mirostat_ent is None
    &&& s.dry_multiplier is None
    &&& s.dry_base is None
    &&& s.dry_allowed_length is None
    &&& s.predict is None
    &&& s.context_shift is None
    &&& s.parallel is None
    &&& s.cont_batching is None
    &&& s.timeout is None
    &&& s.rope_scaling is None
    &&& s.rope_freq_base is None
    &&& s.reasoning_format is None
    &&& s.pooling_type_override is None
    &&& s.embd_normalize is None
    &&& s.rerank is None
}

impl Default for ModelSettings {
    /// All flags on "auto".
    fn default() -> (s: Self)
        ensures
            all_auto(s),
    {
        ModelSettings {
            vram_allocation_mb: None,
            ctx_size: None,
            flash_attn: None,
            cpu_mode: None,
            batch_size: None,
            ubatch_size: None,
            threads: None,
            threads_batch: None,
            mlock: None,
            no_mmap: None,
            cache_type_k: None,
            cache_type_v: None,
            cache_prompt: None,
            temp: None,
            top_k: None,
            top_p: None,
            min_p: None,
            repeat_penalty: None,
            repeat_last_n: None,
            seed: None,
            presence_penalty: None,
            frequency_penalty: None,
            typical_p: None,
            xtc_probability: None,
            xtc_threshold: None,
            mirostat: None,
            mirostat_lr: None,
            mirostat_ent: None,
            dry_multiplier: None,
            dry_base: None,
            dry_allowed_length: None,
            predict: None,
            context_shift: None,
            parallel: None,
            cont_batching: None,
            timeout: None,
            rope_scaling: None,
            rope_freq_base: None,
            reasoning_format: None,
            pooling_type_override: None,
            embd_normalize: None,
            rerank: None,
        }
    }
}


/// The role a model gets when first stored: an embedding model when its
/// header names a pooling type, else a chat model when it carries a chat
/// template, else untagged. A rescan keeps the stored role.
pub open spec fn spec_auto_role(m: GgufMetadata) -> Option<Role> {
    if m.pooling_type is Some {
        Some(Role::Embedding)
    } else if m.chat_template is Some {
        Some(Role::Chat)
    } else {
        None
    }
}

/// The role of a newly stored model (see [`spec_auto_role`]).
pub fn auto_role(m: &GgufMetadata) -> (r: Option<Role>)
    ensures
        r == spec_auto_role(*m),
{
    if m.pooling_type.is_some() {
        Some(Role::Embedding)
    } else if m.chat_template.is_some() {
        Some(Role::Chat)
    } else {
        None
    }
}

/// Whether `filename` was stored before the rescan.
pub fn was_stored(before: &Vec<String>, filename: &str) -> (r: bool)
    ensures
        r == strings_view(before@).contains(filename@),
{
    contains_text(before, filename)
}

/// The stored file names that are no longer on disk, in stored order.
pub open spec fn spec_stale(before: Seq<Seq<char>>, on_disk: Seq<Seq<char>>) -> Seq<Seq<char>>
    decreases before.len(),
{
    if before.len() == 0 {
        seq![]
    } else if on_disk.contains(before.last()) {
        spec_stale(before.drop_last(), on_disk)
    } else {
        spec_stale(before.drop_last(), on_disk).push(before.last())
    }
}

/// The rows a rescan removes (see [`spec_stale`]): `on_disk` holds every
/// `.gguf` file name found, parsed or skipped, so unchanged models stay.
pub fn stale_filenames(before: &Vec<String>, on_disk: &Vec<String>) -> (r: Vec<String>)
    ensures
        strings_view(r@) == spec_stale(strings_view(before@), strings_view(on_disk@)),
{
    let mut out: Vec<String> = Vec::new();
    let mut i: usize = 0;
    while i < before.len()
        invariant
            i <= before@.len(),
            strings_view(out@) == spec_stale(strings_view(before@.subrange(0, i as int)), strings_view(on_disk@)),
        decreases before@.len() - i,
    {
        proof {
            assert(strings_view(before@.subrange(0, i + 1)).drop_last() =~= strings_view(before@.subrange(0, i as int)));
            assert(strings_view(before@.subrange(0, i + 1)).last() == before@[i as int]@);
        }
        if !contains_text(on_disk, before[i].as_str()) {
            let ghost prev = strings_view(out@);
            out.push(before[i].clone());
            assert(strings_view(out@) =~= prev.push(before@[i as int]@));
        }
        i = i + 1;
    }
    assert(before@.subrange(0, i as int) =~= before@);
    out
}

/// How many upserts have the outcome `(stored_before, succeeded)`.
pub open spec fn count_upserts(u: Seq<(bool, bool)>, stored_before: bool, succeeded: bool) -> nat
    decreases u.len(),
{
    if u.len() == 0 {
        0
    } else {
        count_upserts(u.drop_last(), stored_before, succeeded) + if u.last() == (stored_before, succeeded) {
            1nat
        } else {
            0nat
        }
    }
}

/// How many removals have the outcome `succeeded`.
pub open spec fn count_removals(r: Seq<bool>, succeeded: bool) -> nat
    decreases r.len(),
{
    if r.len() == 0 {
        0
    } else {
        count_removals(r.drop_last(), succeeded) + if r.last() == succeeded {
            1nat
        } else {
            0nat
        }
    }
}

proof fn lemma_upsert_counts_bounded(u: Seq<(bool, bool)>)
    ensures
        count_upserts(u, false, true) + count_upserts(u, true, true) + count_upserts(u, true, false)
            + count_upserts(u, false, false) == u.len(),
    decreases u.len(),
{
    if u.len() > 0 {
        lemma_upsert_counts_bounded(u.drop_last());
        let (a, b) = u.last();
        assert(u.last() == (a, b));
    }
}

proof fn lemma_removal_counts_bounded(r: Seq<bool>)
    ensures
        count_removals(r, true) + count_removals(r, false) == r.len(),
    decreases r.len(),
{
    if r.len() > 0 {
        lemma_removal_counts_bounded(r.drop_last());
    }
}

/// Tallies a reconciliation from the outcome of each upsert (whether the
/// file name was stored before, whether the write succeeded) and of each
/// removal of a stale row: a successful upsert of a new name is an
/// addition, of a stored one an update; a failed write of either kind is a
/// failure.
pub fn tally_reconcile(upserts: &Vec<(bool, bool)>, removals: &Vec<bool>) -> (r: ReconcileReport)
    requires
        upserts@.len() + removals@.len() <= usize::MAX,
    ensures
        r.added == count_upserts(upserts@, false, true),
        r.updated == count_upserts(upserts@, true, true),
        r.removed == count_removals(removals@, true),
        r.failed == count_upserts(upserts@, true, false) + count_upserts(upserts@, false, false) + count_removals(
            removals@,
            false,
        ),
{
    let mut added: usize = 0;
    let mut updated: usize = 0;
    let mut removed: usize = 0;
    let mut failed: usize = 0;
    let mut i: usize = 0;
    while i < upserts.len()
        invariant
            i <= upserts@.len(),
            upserts@.len() + removals@.len() <= usize::MAX,
            added == count_upserts(upserts@.subrange(0, i as int), false, true),
            updated == count_upserts(upserts@.subrange(0, i as int), true, true),
            failed == count_upserts(upserts@.subrange(0, i as int), true, false) + count_upserts(
                upserts@.subrange(0, i as int),
                false,
                false,
            ),
            removed == 0,
        decreases upserts@.len() - i,
    {
        proof {
            let p = upserts@.subrange(0, i + 1);
            assert(p.drop_last() =~= upserts@.subrange(0, i as int));
            lemma_upsert_counts_bounded(upserts@.subrange(0, i as int));
        }
        let (known, ok) = upserts[i];
        if ok {
            if known {
                updated = updated + 1;
            } else {
                added = added + 1;
            }
        } else {
            failed = failed + 1;
        }
        i = i + 1;
    }
    assert(upserts@.subrange(0, i as int) =~= upserts@);
    proof {
        lemma_upsert_counts_bounded(upserts@);
    }
    let mut j: usize = 0;
    while j < removals.len()
        invariant
            j <= removals@.len(),
            upserts@.len() + removals@.len() <= usize::MAX,
            added + updated + count_upserts(upserts@, true, false) + count_upserts(upserts@, false, false)
                == upserts@.len(),
            removed == count_removals(removals@.subrange(0, j as int), true),
            failed == count_upserts(upserts@, true, false) + count_upserts(upserts@, false, false)
                + count_removals(removals@.subrange(0, j as int), false),
        decreases removals@.len() - j,
    {
        proof {
            let p = removals@.subrange(0, j + 1);
            assert(p.drop_last() =~= removals@.subrange(0, j as int));
            lemma_removal_counts_bounded(removals@.subrange(0, j as int));
        }
        if removals[j] {
            removed = removed + 1;
        } else {
            failed = failed + 1;
        }
        j = j + 1;
    }
    assert(removals@.subrange(0, j as int) =~= removals@);
    ReconcileReport { added, updated, removed, failed }
}


/// Every successful or failed upsert is counted once: additions, updates
/// and failed writes add up to the records written.
pub proof fn law_upserts_all_counted(upserts: Seq<(bool, bool)>)
    ensures
        count_upserts(upserts, false, true) + count_upserts(upserts, true, true) + count_upserts(upserts, true, false)
            + count_upserts(upserts, false, false) == upserts.len(),
{
    lemma_upsert_counts_bounded(upserts);
}

/// Every attempted removal is counted once, as removed or failed.
pub proof fn law_removals_all_counted(removals: Seq<bool>)
    ensures
        count_removals(removals, true) + count_removals(removals, false) == removals.len(),
{
    lemma_removal_counts_bounded(removals);
}

/// A rescan removes exactly the stored names that are not on disk: a name
/// found on disk (parsed or skipped as unchanged) is never removed, and
/// every stored name that vanished is.
pub proof fn law_stale_exactly_vanished(before: Seq<Seq<char>>, on_disk: Seq<Seq<char>>, name: Seq<char>)
    ensures
        spec_stale(before, on_disk).contains(name) == (before.contains(name) && !on_disk.contains(name)),
    decreases before.len(),
{
    if before.len() > 0 {
        law_stale_exactly_vanished(before.drop_last(), on_disk, name);
        let rest = spec_stale(before.drop_last(), on_disk);
        assert(before =~= before.drop_last().push(before.last()));
        if before.contains(name) && !before.drop_last().contains(name) {
            assert(before.last() == name) by {
                let j = choose|j: int| 0 <= j < before.len() && before[j] == name;
                if j < before.len() - 1 {
                    assert(before.drop_last()[j] == name);
                }
            }
        }
        if before.drop_last().contains(name) {
            let j = choose|j: int| 0 <= j < before.drop_last().len() && before.drop_last()[j] == name;
            assert(before[j] == name);
        }
        if !on_disk.contains(before.last()) {
            assert(rest.push(before.last()).last() == before.last());
            if rest.contains(name) {
                let j = choose|j: int| 0 <= j < rest.len() && rest[j] == name;
                assert(rest.push(before.last())[j] == name);
            }
            if rest.push(before.last()).contains(name) && name != before.last() {
                let j = choose|j: int| 0 <= j < rest.len() + 1 && rest.push(before.last())[j] == name;
                assert(rest[j] == name);
            }
        }
    }
}
} // verus!
