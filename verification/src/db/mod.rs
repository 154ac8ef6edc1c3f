//! Database-facing records and the decisions made around them: the rows the
//! two SQLite databases hold, how missing columns are defaulted, and how a
//! partial settings update becomes a single `UPDATE` statement. The SQL is
//! executed elsewhere; this module only decides what to run and how to read
//! the answer.

pub mod registry_ops;

use vstd::prelude::*;

use crate::text::seq_starts_with;

verus! {

/// A flag-dictionary entry (tooltip data for the UI).
pub struct FlagEntry {
    pub category: String,
    pub flag_name: String,
    pub cli_argument: String,
    pub default_value: Option<String>,
    pub description: String,
}

/// The fields persisted in the `hardware_profile` singleton row.
pub struct HardwareProfileRow {
    pub gpu_name: String,
    pub total_vram_mb: i64,
    pub total_system_ram_mb: i64,
    pub cpu_physical_cores: i64,
    pub cpu_logical_threads: i64,
    pub last_scanned_at: String,
}

/// The usable-GPU rule: some VRAM was reported and the stored name is not one
/// of the `CPU-only` placeholders.
pub open spec fn spec_has_usable_gpu(total_vram_mb: i64, gpu_name: Seq<char>) -> bool {
    total_vram_mb > 0 && !seq_starts_with(gpu_name, "CPU-only"@)
}

impl HardwareProfileRow {
    /// Whether a usable CUDA GPU is installed (see [`spec_has_usable_gpu`]).
    pub fn has_usable_gpu(&self) -> (r: bool)
        ensures
            r == spec_has_usable_gpu(self.total_vram_mb, self.gpu_name@),
    {
        self.total_vram_mb > 0 && !crate::text::starts_with(self.gpu_name.as_str(), "CPU-only")
    }
}


impl HardwareProfileRow {
    /// Reads the row's columns, each of which may be `NULL` before the first
    /// scan: a missing text is empty and a missing number is 0.
    pub fn from_columns(
        gpu_name: Option<String>,
        total_vram_mb: Option<i64>,
        total_system_ram_mb: Option<i64>,
        cpu_physical_cores: Option<i64>,
        cpu_logical_threads: Option<i64>,
        last_scanned_at: Option<String>,
    ) -> (r: HardwareProfileRow)
        ensures
            r.gpu_name@ == text_or_empty(gpu_name.deep_view()),
            r.total_vram_mb == int_or_zero(total_vram_mb),
            r.total_system_ram_mb == int_or_zero(total_system_ram_mb),
            r.cpu_physical_cores == int_or_zero(cpu_physical_cores),
            r.cpu_logical_threads == int_or_zero(cpu_logical_threads),
            r.last_scanned_at@ == text_or_empty(last_scanned_at.deep_view()),
    {
        HardwareProfileRow {
            gpu_name: match gpu_name {
                Some(g) => g,
                None => String::new(),
            },
            total_vram_mb: match total_vram_mb {
                Some(v) => v,
                None => 0,
            },
            total_system_ram_mb: match total_system_ram_mb {
                Some(v) => v,
                None => 0,
            },
            cpu_physical_cores: match cpu_physical_cores {
                Some(v) => v,
                None => 0,
            },
            cpu_logical_threads: match cpu_logical_threads {
                Some(v) => v,
                None => 0,
            },
            last_scanned_at: match last_scanned_at {
                Some(t) => t,
                None => String::new(),
            },
        }
    }

    /// The profile assumed before any hardware scan: a CPU-only machine with
    /// nothing known.
    pub fn unscanned() -> (r: HardwareProfileRow)
        ensures
            r.gpu_name@ == "CPU-only (no scan yet)"@,
            r.total_vram_mb == 0,
            r.total_system_ram_mb == 0,
            r.cpu_physical_cores == 0,
            r.cpu_logical_threads == 0,
            r.last_scanned_at@ == Seq::<char>::empty(),
    {
        HardwareProfileRow {
            gpu_name: String::from_str("CPU-only (no scan yet)"),
            total_vram_mb: 0,
            total_system_ram_mb: 0,
            cpu_physical_cores: 0,
            cpu_logical_threads: 0,
            last_scanned_at: String::new(),
        }
    }
}

/// A text column's value, empty when `NULL`.
pub open spec fn text_or_empty(t: Option<Seq<char>>) -> Seq<char> {
    match t {
        Some(x) => x,
        None => seq![],
    }
}

/// An integer column's value, 0 when `NULL`.
pub open spec fn int_or_zero(v: Option<i64>) -> i64 {
    match v {
        Some(x) => x,
        None => 0,
    }
}

/// The theme used when none is stored.
pub const DEFAULT_THEME: &'static str = "dark";

/// The full `app_settings` row.
pub struct FullAppSettings {
    pub models_directory: Option<String>,
    pub multimodal_directory: Option<String>,
    pub master_port: i64,
    pub auto_port_increment: bool,
    pub theme: String,
}

impl FullAppSettings {
    /// Reads the row's columns: a missing port is 0, automatic port
    /// increments are on unless stored off, and the theme defaults to
    /// [`DEFAULT_THEME`].
    pub fn from_columns(
        models_directory: Option<String>,
        multimodal_directory: Option<String>,
        master_port: Option<i64>,
        auto_port_increment: Option<bool>,
        theme: Option<String>,
    ) -> (r: FullAppSettings)
        ensures
            r.models_directory == models_directory,
            r.multimodal_directory == multimodal_directory,
            r.master_port == int_or_zero(master_port),
            r.auto_port_increment == match auto_port_increment {
                Some(b) => b,
                None => true,
            },
            r.theme@ == match theme {
                Some(t) => t@,
                None => DEFAULT_THEME@,
            },
    {
        FullAppSettings {
            models_directory,
            multimodal_directory,
            master_port: match master_port {
                Some(p) => p,
                None => 0,
            },
            auto_port_increment: match auto_port_increment {
                Some(b) => b,
                None => true,
            },
            theme: match theme {
                Some(t) => t,
                None => String::from_str(DEFAULT_THEME),
            },
        }
    }
}

/// The writable app settings; `None` leaves a field unchanged.
pub struct AppSettingsUpdate {
    pub models_directory: Option<String>,
    pub multimodal_directory: Option<String>,
    pub master_port: Option<i64>,
    pub auto_port_increment: Option<bool>,
}

/// The assignments of an update, one per field given, in column order.
pub open spec fn spec_set_clauses(u: AppSettingsUpdate) -> Seq<Seq<char>> {
    (if u.models_directory is Some { seq!["models_directory = ?"@] } else { seq![] })
        + (if u.multimodal_directory is Some { seq!["multimodal_directory = ?"@] } else { seq![] })
        + (if u.master_port is Some { seq!["master_port = ?"@] } else { seq![] })
        + (if u.auto_port_increment is Some { seq!["auto_port_increment = ?"@] } else { seq![] })
}

/// The texts of `parts` joined with `sep` between neighbours.
pub open spec fn spec_join(parts: Seq<Seq<char>>, sep: Seq<char>) -> Seq<char>
    decreases parts.len(),
{
    if parts.len() == 0 {
        seq![]
    } else if parts.len() == 1 {
        parts[0]
    } else {
        spec_join(parts.drop_last(), sep) + sep + parts.last()
    }
}

fn push_clause(sql: &mut String, count: &mut usize, clause: &str, Ghost(done): Ghost<Seq<Seq<char>>>)
    requires
        *old(count) == done.len(),
        old(sql)@ == "UPDATE app_settings SET "@ + spec_join(done, ", "@),
        done.len() < 4,
    ensures
        *final(count) == done.len() + 1,
        final(sql)@ == "UPDATE app_settings SET "@ + spec_join(done.push(clause@), ", "@),
{
    let ghost d2 = done.push(clause@);
    assert(d2.drop_last() =~= done);
    if *count > 0 {
        sql.append(", ");
    } else {
        assert(d2.len() == 1);
    }
    sql.append(clause);
    *count = *count + 1;
}

impl AppSettingsUpdate {
    /// The statement that applies the update to the singleton row, with one
    /// `?` per field given, in column order; `None` when no field is given.
    pub fn update_sql(&self) -> (r: Option<String>)
        ensures
            spec_set_clauses(*self).len() == 0 ==> r is None,
            spec_set_clauses(*self).len() > 0 ==> (r matches Some(sql) && sql@ == "UPDATE app_settings SET "@
                + spec_join(spec_set_clauses(*self), ", "@) + " WHERE id = 1"@),
    {
        let mut sql = String::from_str("UPDATE app_settings SET ");
        let mut count: usize = 0;
        let ghost mut done: Seq<Seq<char>> = seq![];
        assert(sql@ == "UPDATE app_settings SET "@ + spec_join(done, ", "@));
        if self.models_directory.is_some() {
            push_clause(&mut sql, &mut count, "models_directory = ?", Ghost(done));
            proof { done = done.push("models_directory = ?"@); }
        }
        assert(done =~= (if self.models_directory is Some { seq!["models_directory = ?"@] } else { seq![] }));
        if self.multimodal_directory.is_some() {
            push_clause(&mut sql, &mut count, "multimodal_directory = ?", Ghost(done));
            proof { done = done.push("multimodal_directory = ?"@); }
        }
        if self.master_port.is_some() {
            push_clause(&mut sql, &mut count, "master_port = ?", Ghost(done));
            proof { done = done.push("master_port = ?"@); }
        }
        if self.auto_port_increment.is_some() {
            push_clause(&mut sql, &mut count, "auto_port_increment = ?", Ghost(done));
            proof { done = done.push("auto_port_increment = ?"@); }
        }
        assert(done =~= spec_set_clauses(*self));
        if count == 0 {
            return None;
        }
        sql.append(" WHERE id = 1");
        Some(sql)
    }
}


/// How many fields an update gives.
pub open spec fn given_fields(u: AppSettingsUpdate) -> nat {
    (if u.models_directory is Some { 1nat } else { 0nat }) + (if u.multimodal_directory is Some { 1nat } else { 0nat })
        + (if u.master_port is Some { 1nat } else { 0nat }) + (if u.auto_port_increment is Some { 1nat } else { 0nat })
}

/// An update assigns exactly the fields it gives, one placeholder each, so
/// its statement runs exactly when some field is given.
pub proof fn law_update_assigns_given_fields(u: AppSettingsUpdate)
    ensures
        spec_set_clauses(u).len() == given_fields(u),
        (spec_set_clauses(u).len() == 0) == (u.models_directory is None && u.multimodal_directory is None
            && u.master_port is None && u.auto_port_increment is None),
{
}


/// How many of the first `k` columns, in the order `models_directory`,
/// `multimodal_directory`, `master_port`, `auto_port_increment`, an update
/// gives a value for: the values are bound in that order, so this is the
/// placeholder number of column `k`.
pub open spec fn given_before(u: AppSettingsUpdate, k: int) -> int {
    (if k > 0 && u.models_directory is Some { 1int } else { 0int })
        + (if k > 1 && u.multimodal_directory is Some { 1int } else { 0int })
        + (if k > 2 && u.master_port is Some { 1int } else { 0int })
}

/// Each assignment of an update sits at the place of its value among the
/// values given, taken in column order (`models_directory`,
/// `multimodal_directory`, `master_port`, `auto_port_increment`), so the
/// i-th `?` of the statement is the column of the i-th value bound.
pub proof fn law_update_clauses_follow_column_order(u: AppSettingsUpdate)
    ensures
        u.models_directory is Some ==> spec_set_clauses(u)[given_before(u, 0)] == "models_directory = ?"@,
        u.multimodal_directory is Some ==> spec_set_clauses(u)[given_before(u, 1)] == "multimodal_directory = ?"@,
        u.master_port is Some ==> spec_set_clauses(u)[given_before(u, 2)] == "master_port = ?"@,
        u.auto_port_increment is Some ==> spec_set_clauses(u)[given_before(u, 3)] == "auto_port_increment = ?"@,
        spec_set_clauses(u).len() == given_before(u, 3) + (if u.auto_port_increment is Some { 1int } else { 0int }),
{
}

/// A stored hardware profile is used at startup, instead of a new scan, once
/// a scan has filled it in (it knows the physical core count); the scan is
/// otherwise repeated only on request.
pub fn cached_profile_usable(row: &Option<HardwareProfileRow>) -> (r: bool)
    ensures
        r == (row matches Some(p) && p.cpu_physical_cores > 0),
{
    match row {
        Some(p) => p.cpu_physical_cores > 0,
        None => false,
    }
}
} // verus!
