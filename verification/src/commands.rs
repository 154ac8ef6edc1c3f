//! The shapes the UI exchanges with the backend, and how each is made from
//! the library's records: settings, the hardware profile, the HuggingFace
//! connection, model lists, launch requests, the proxy's state and rescan
//! reports.

use vstd::prelude::*;

use crate::db::registry_ops::{ModelSummary, ReconcileReport};
use crate::db::{spec_has_usable_gpu, AppSettingsUpdate, FullAppSettings, HardwareProfileRow};
use crate::huggingface::{HfFile, HfRepoGgufMeta};
use crate::process::{spec_role_from_db, Role};
use crate::proxy::Routing;
use crate::text::i64_to_string;

verus! {

/// The application settings shown in the UI.
pub struct AppSettings {
    pub models_directory: Option<String>,
    pub multimodal_directory: Option<String>,
    pub master_port: i64,
    pub auto_port_increment: bool,
    pub theme: String,
}

impl AppSettings {
    /// The settings of the stored row, field for field.
    pub fn from_row(row: FullAppSettings) -> (r: AppSettings)
        ensures
            r.models_directory == row.models_directory,
            r.multimodal_directory == row.multimodal_directory,
            r.master_port == row.master_port,
            r.auto_port_increment == row.auto_port_increment,
            r.theme == row.theme,
    {
        AppSettings {
            models_directory: row.models_directory,
            multimodal_directory: row.multimodal_directory,
            master_port: row.master_port,
            auto_port_increment: row.auto_port_increment,
            theme: row.theme,
        }
    }
}

/// The settings the UI saves; a missing field is left unchanged.
pub struct SaveAppSettingsArgs {
    pub models_directory: Option<String>,
    pub multimodal_directory: Option<String>,
    pub master_port: Option<i64>,
    pub auto_port_increment: Option<bool>,
}

impl SaveAppSettingsArgs {
    /// The update these arguments ask for, field for field.
    pub fn into_update(self) -> (r: AppSettingsUpdate)
        ensures
            r.models_directory == self.models_directory,
            r.multimodal_directory == self.multimodal_directory,
            r.master_port == self.master_port,
            r.auto_port_increment == self.auto_port_increment,
    {
        AppSettingsUpdate {
            models_directory: self.models_directory,
            multimodal_directory: self.multimodal_directory,
            master_port: self.master_port,
            auto_port_increment: self.auto_port_increment,
        }
    }
}

/// The hardware profile shown in the UI.
pub struct HardwareProfileDto {
    pub gpu_name: String,
    pub total_vram_mb: i64,
    pub total_system_ram_mb: i64,
    pub cpu_physical_cores: i64,
    pub cpu_logical_threads: i64,
    pub last_scanned_at: String,
    /// Whether a usable GPU is installed, by the one rule of
    /// [`HardwareProfileRow::has_usable_gpu`].
    pub gpu_present: bool,
}

impl HardwareProfileDto {
    /// The stored profile with its usable-GPU verdict.
    pub fn from_row(r: HardwareProfileRow) -> (d: HardwareProfileDto)
        ensures
            d.gpu_name == r.gpu_name,
            d.total_vram_mb == r.total_vram_mb,
            d.total_system_ram_mb == r.total_system_ram_mb,
            d.cpu_physical_cores == r.cpu_physical_cores,
            d.cpu_logical_threads == r.cpu_logical_threads,
            d.last_scanned_at == r.last_scanned_at,
            d.gpu_present == spec_has_usable_gpu(r.total_vram_mb, r.gpu_name@),
    {
        let gpu_present = r.has_usable_gpu();
        HardwareProfileDto {
            gpu_name: r.gpu_name,
            total_vram_mb: r.total_vram_mb,
            total_system_ram_mb: r.total_system_ram_mb,
            cpu_physical_cores: r.cpu_physical_cores,
            cpu_logical_threads: r.cpu_logical_threads,
            last_scanned_at: r.last_scanned_at,
            gpu_present,
        }
    }
}

/// The state of the HuggingFace connection.
pub struct HfAuthStatus {
    pub connected: bool,
    pub username: Option<String>,
    /// Not tracked: always `None`.
    pub expires_at: Option<u64>,
    /// The system keychain cannot be used, so no token can be kept.
    pub keychain_unavailable: bool,
}

impl HfAuthStatus {
    /// The connection state from what the keychain gives: whether it can be
    /// used, whether a token is stored, and the stored user name. Without a
    /// keychain nothing is connected and no name is shown.
    pub fn from_keychain(available: bool, has_token: bool, username: Option<String>) -> (r: HfAuthStatus)
        ensures
            r.connected == (available && has_token),
            r.username == (if available { username } else { None }),
            r.expires_at is None,
            r.keychain_unavailable == !available,
    {
        if !available {
            HfAuthStatus { connected: false, username: None, expires_at: None, keychain_unavailable: true }
        } else {
            HfAuthStatus { connected: has_token, username, expires_at: None, keychain_unavailable: false }
        }
    }
}

/// A repository's `.gguf` files and its GGUF metadata.
pub struct HfFilesResponse {
    pub files: Vec<HfFile>,
    pub meta: HfRepoGgufMeta,
}

/// A request to launch a model in a role.
pub struct LaunchArgs {
    pub model_id: i64,
    /// `"chat"` or `"embedding"`.
    pub role: String,
}

impl LaunchArgs {
    /// The requested role, or the error shown for an unknown tag.
    pub fn parse_role(&self) -> (r: Result<Role, String>)
        ensures
            match r {
                Ok(role) => spec_role_from_db(self.role@) == Some(role),
                Err(msg) => spec_role_from_db(self.role@) is None && msg@ == "invalid role '"@ + self.role@
                    + "': expected 'chat' or 'embedding'"@,
            },
    {
        match Role::from_db_str(self.role.as_str()) {
            Some(role) => Ok(role),
            None => Err(
                String::from_str("invalid role '").concat(self.role.as_str()).concat(
                    "': expected 'chat' or 'embedding'",
                ),
            ),
        }
    }
}

/// The state of the reverse proxy.
pub struct ProxyStatusDto {
    pub master_port: i64,
    pub auto_port_increment: bool,
    pub chat_port: Option<u16>,
    pub embedding_port: Option<u16>,
}

impl ProxyStatusDto {
    /// The configured master port and the current routes.
    pub fn from_parts(settings: &FullAppSettings, routing: &Routing) -> (r: ProxyStatusDto)
        ensures
            r.master_port == settings.master_port,
            r.auto_port_increment == settings.auto_port_increment,
            r.chat_port == routing.chat_port,
            r.embedding_port == routing.embedding_port,
    {
        ProxyStatusDto {
            master_port: settings.master_port,
            auto_port_increment: settings.auto_port_increment,
            chat_port: routing.chat_port,
            embedding_port: routing.embedding_port,
        }
    }
}

/// A stored model and whether the user saved settings for it.
pub struct ModelDto {
    pub summary: ModelSummary,
    pub has_settings: bool,
}

/// Pairs each model with whether its id is among those with saved settings,
/// keeping the models' order.
pub fn model_dtos(summaries: Vec<ModelSummary>, with_settings: &Vec<i64>) -> (r: Vec<ModelDto>)
    ensures
        r@.len() == summaries@.len(),
        forall|i: int| 0 <= i < r@.len() ==> (#[trigger] r@[i]).summary == summaries@[i] && r@[i].has_settings
            == with_settings@.contains(summaries@[i].id),
{
    let ghost all = summaries@;
    let mut rest = summaries;
    let mut out: Vec<ModelDto> = Vec::new();
    while rest.len() > 0
        invariant
            out@.len() + rest@.len() == all.len(),
            rest@ =~= all.subrange(out@.len() as int, all.len() as int),
            forall|i: int| 0 <= i < out@.len() ==> (#[trigger] out@[i]).summary == all[i] && out@[i].has_settings
                == with_settings@.contains(all[i].id),
        decreases rest@.len(),
    {
        let s = rest.remove(0);
        let mut has = false;
        let mut k: usize = 0;
        while k < with_settings.len()
            invariant
                k <= with_settings@.len(),
                has == exists|j: int| 0 <= j < k && with_settings@[j] == s.id,
            decreases with_settings@.len() - k,
        {
            if with_settings[k] == s.id {
                has = true;
            }
            k = k + 1;
        }
        let ghost n = out@.len();
        let ghost before = out@;
        out.push(ModelDto { summary: s, has_settings: has });
        assert forall|i: int| 0 <= i < out@.len() implies (#[trigger] out@[i]).summary == all[i] && out@[i].has_settings
            == with_settings@.contains(all[i].id) by {
            if i < n {
                assert(out@[i] == before[i]);
            }
        }
    }
    out
}

/// The report of a registry rescan shown in the UI.
pub struct ResyncReportDto {
    pub added: usize,
    pub updated: usize,
    pub removed: usize,
    pub failed: usize,
    /// How many models were parsed in the scan.
    pub total: usize,
}

impl ResyncReportDto {
    /// The reconciliation's counts and the number of parsed models.
    pub fn from_report(r: &ReconcileReport, total: usize) -> (d: ResyncReportDto)
        ensures
            d.added == r.added,
            d.updated == r.updated,
            d.removed == r.removed,
            d.failed == r.failed,
            d.total == total,
    {
        ResyncReportDto { added: r.added, updated: r.updated, removed: r.removed, failed: r.failed, total }
    }
}

/// `i` is the first position of a model with id `id`.
pub open spec fn first_with_id(s: Seq<ModelSummary>, id: i64, i: int) -> bool {
    0 <= i < s.len() && s[i].id == id && forall|k: int| 0 <= k < i ==> (#[trigger] s[k]).id != id
}

/// The first model with id `model_id`, or the error shown when none has it.
pub fn find_model(models: Vec<ModelSummary>, model_id: i64) -> (r: Result<ModelSummary, String>)
    ensures
        match r {
            Ok(m) => exists|i: int| #[trigger] first_with_id(models@, model_id, i) && models@[i] == m,
            Err(msg) => (forall|i: int| 0 <= i < models@.len() ==> (#[trigger] models@[i]).id != model_id) && msg@
                == "model id "@ + crate::text::int_decimal(model_id as int) + " not found"@,
        },
{
    let ghost all = models@;
    let mut rest = models;
    let ghost mut i: int = 0;
    while rest.len() > 0
        invariant
            all == models@,
            0 <= i <= all.len(),
            rest@ =~= all.subrange(i, all.len() as int),
            forall|k: int| 0 <= k < i ==> (#[trigger] all[k]).id != model_id,
        decreases rest@.len(),
    {
        let m = rest.remove(0);
        proof {
            assert(m == all[i]);
        }
        if m.id == model_id {
            assert(first_with_id(all, model_id, i) && all[i] == m);
            return Ok(m);
        }
        proof {
            i = i + 1;
        }
    }
    let id_text = i64_to_string(model_id);
    Err(String::from_str("model id ").concat(id_text.as_str()).concat(" not found"))
}

/// The sort key and GGUF filter of a search, defaulting to the most
/// downloaded GGUF repositories.
pub fn search_defaults(sort: Option<String>, gguf_only: Option<bool>) -> (r: (String, bool))
    ensures
        r.0@ == (match sort {
            Some(s) => s@,
            None => "downloads"@,
        }),
        r.1 == (match gguf_only {
            Some(g) => g,
            None => true,
        }),
{
    let s = match sort {
        Some(s) => s,
        None => String::from_str("downloads"),
    };
    let g = match gguf_only {
        Some(g) => g,
        None => true,
    };
    (s, g)
}

} // verus!
