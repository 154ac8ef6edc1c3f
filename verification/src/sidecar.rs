//! Bookkeeping for the `llama-server` child processes: which models are
//! running (one process per model), and reading the listening port from the
//! server's log lines. Spawning, signalling and waiting happen in the
//! application.

use vstd::prelude::*;

use std::collections::HashMap;
use vstd::std_specs::hash::spec_hash_map_iter;
use vstd::std_specs::iter::IteratorSpec;

use crate::process::Role;
use crate::text::{
    append_decimal, i64_to_string, int_decimal, nat_decimal,
    contains_lowercase, digits_end, last_index_of, lemma_leading_digits, leading_digits,
    lower_contains, parse_u64_digits, rfind_char, spec_parse_u64, to_chars,
};

verus! {

/// Seconds to wait for the server to report its listening port.
pub const STARTUP_TIMEOUT_SECS: u64 = 120;

/// Seconds between the terminate and the kill signal on shutdown.
pub const SHUTDOWN_GRACE_SECS: u64 = 5;

/// The port announced by a server log line: the line must mention `listen`
/// (in any ASCII case); the port is the run of digits right after the last
/// `:` and must fit in a `u16`.
pub open spec fn spec_extract_port(line: Seq<char>) -> Option<u16> {
    if !lower_contains(line, "listen"@) {
        None
    } else {
        match last_index_of(line, ':') {
            None => None,
            Some(i) => match spec_parse_u64(leading_digits(line.subrange(i + 1, line.len() as int))) {
                Some(v) => if v <= u16::MAX { Some(v as u16) } else { None },
                None => None,
            },
        }
    }
}

/// Reads the listening port from one server log line (see
/// [`spec_extract_port`]), e.g. `listening on 127.0.0.1:8080` gives 8080.
pub fn extract_port_from_line(line: &str) -> (r: Option<u16>)
    ensures
        r == spec_extract_port(line@),
{
    let chars = to_chars(line);
    let pattern = to_chars("listen");
    if !contains_lowercase(&chars, &pattern) {
        return None;
    }
    let idx = match rfind_char(&chars, ':') {
        Some(i) => i,
        None => return None,
    };
    let n = chars.len();
    assert(idx < n);
    let start = idx + 1;
    let end = digits_end(&chars, start);
    proof {
        lemma_leading_digits(chars@, start as int, end as int);
    }
    match parse_u64_digits(&chars, start, end) {
        Some(v) => if v <= 65535 {
            Some(v as u16)
        } else {
            None
        },
        None => None,
    }
}


/// A running model server, as reported to the UI.
pub struct ProcessInfo {
    pub model_id: i64,
    pub model_name: String,
    pub role: Role,
    pub port: u16,
    pub pid: u32,
}

/// What is known of a running server.
pub struct ProcessView {
    pub model_name: Seq<char>,
    pub role: Role,
    pub port: u16,
    pub pid: u32,
}

/// The model of one process record.
pub open spec fn process_view(p: ProcessInfo) -> ProcessView {
    ProcessView { model_name: p.model_name@, role: p.role, port: p.port, pid: p.pid }
}

/// No two records are for the same model.
pub open spec fn unique_ids(s: Seq<ProcessInfo>) -> bool {
    forall|i: int, j: int| 0 <= i < s.len() && 0 <= j < s.len() && i != j ==> s[i].model_id != s[j].model_id
}

/// Some record is for model `id`.
pub open spec fn has_id(s: Seq<ProcessInfo>, id: i64) -> bool {
    exists|i: int| 0 <= i < s.len() && #[trigger] s[i].model_id == id
}

/// The servers this application started and that have not exited, one per
/// model, keyed by model id.
pub struct ProcessTable {
    entries: HashMap<i64, ProcessInfo>,
}

/// A copy of a record.
fn copy_info(e: &ProcessInfo) -> (r: ProcessInfo)
    ensures
        r.model_id == e.model_id,
        process_view(r) == process_view(*e),
{
    ProcessInfo { model_id: e.model_id, model_name: e.model_name.clone(), role: e.role, port: e.port, pid: e.pid }
}

impl ProcessTable {
    /// The running servers by model id.
    pub closed spec fn view(&self) -> Map<i64, ProcessView> {
        Map::new(|id: i64| self.entries@.contains_key(id), |id: i64| process_view(self.entries@[id]))
    }

    /// The table's internal invariant: each record is stored under its own
    /// model id.
    pub closed spec fn wf(&self) -> bool {
        forall|id: i64| #[trigger] self.entries@.contains_key(id) ==> self.entries@[id].model_id == id
    }

    /// An empty table.
    pub fn new() -> (r: ProcessTable)
        ensures
            r.wf(),
            r.view() == Map::<i64, ProcessView>::empty(),
    {
        let r = ProcessTable { entries: HashMap::new() };
        assert(r.view() =~= Map::<i64, ProcessView>::empty());
        r
    }

    /// Whether a server for `model_id` is running.
    pub fn contains(&self, model_id: i64) -> (r: bool)
        requires
            self.wf(),
        ensures
            r == self.view().dom().contains(model_id),
    {
        broadcast use vstd::std_specs::hash::group_hash_axioms;
        self.entries.contains_key(&model_id)
    }

    /// The record of the server for `model_id`.
    pub fn get(&self, model_id: i64) -> (r: Option<ProcessInfo>)
        requires
            self.wf(),
        ensures
            match r {
                Some(p) => self.view().dom().contains(model_id) && p.model_id == model_id && process_view(p)
                    == self.view()[model_id],
                None => !self.view().dom().contains(model_id),
            },
    {
        broadcast use vstd::std_specs::hash::group_hash_axioms;
        match self.entries.get(&model_id) {
            Some(e) => Some(copy_info(e)),
            None => None,
        }
    }

    /// Records the server for `info.model_id`, replacing an earlier record
    /// for that model.
    pub fn insert(&mut self, info: ProcessInfo)
        requires
            old(self).wf(),
        ensures
            final(self).wf(),
            final(self).view() == old(self).view().insert(info.model_id, process_view(info)),
    {
        broadcast use vstd::std_specs::hash::group_hash_axioms;
        let ghost old_view = self.view();
        let ghost pv = process_view(info);
        let id = info.model_id;
        let _ = self.entries.insert(id, info);
        assert(self.view() =~= old_view.insert(id, pv));
    }

    /// Drops the record for `model_id`, if any.
    pub fn remove(&mut self, model_id: i64)
        requires
            old(self).wf(),
        ensures
            final(self).wf(),
            final(self).view() == old(self).view().remove(model_id),
    {
        broadcast use vstd::std_specs::hash::group_hash_axioms;
        let ghost old_view = self.view();
        let _ = self.entries.remove(&model_id);
        assert(self.view() =~= old_view.remove(model_id));
    }

    /// Every running server, each once, in no particular order.
    pub fn status(&self) -> (r: Vec<ProcessInfo>)
        requires
            self.wf(),
        ensures
            unique_ids(r@),
            forall|id: i64| #[trigger] has_id(r@, id) <==> self.view().dom().contains(id),
            forall|i: int| 0 <= i < r@.len() ==> process_view(#[trigger] r@[i]) == self.view()[r@[i].model_id],
    {
        broadcast use vstd::std_specs::hash::group_hash_axioms;
        let mut out: Vec<ProcessInfo> = Vec::new();
        let ghost m = self.entries@;
        let ghost pairs = spec_hash_map_iter(&self.entries).remaining();
        for kv in it: self.entries.iter()
            invariant
                self.wf(),
                m == self.entries@,
                pairs == spec_hash_map_iter(&self.entries).remaining(),
                it.seq() == pairs,
                pairs.no_duplicates(),
                out@.len() == it.index(),
                forall|k: int| 0 <= k < out@.len() ==> #[trigger] out@[k].model_id == (*pairs[k].1).model_id
                    && process_view(out@[k]) == process_view(*pairs[k].1),
        {
            let (_, v) = kv;
            let ghost before = out@;
            out.push(copy_info(v));
            assert forall|k: int| 0 <= k < out@.len() implies #[trigger] out@[k].model_id == (*pairs[k].1).model_id
                && process_view(out@[k]) == process_view(*pairs[k].1) by {
                if k < before.len() {
                    assert(out@[k] == before[k]);
                }
            }
        }
        assert(out@.len() == pairs.len());
        proof {
            assert forall|i: int| 0 <= i < out@.len() implies #[trigger] out@[i].model_id == *pairs[i].0
                && m.contains_key(*pairs[i].0) && m[*pairs[i].0] == *pairs[i].1 by {
                assert(m.contains_key(*pairs[i].0));
            }
            assert forall|i: int, j: int| 0 <= i < out@.len() && 0 <= j < out@.len() && i != j implies out@[i].model_id
                != out@[j].model_id by {
                assert(out@[i].model_id == *pairs[i].0);
                assert(out@[j].model_id == *pairs[j].0);
                if out@[i].model_id == out@[j].model_id {
                    assert(pairs[i] == pairs[j]);
                }
            }
            assert forall|id: i64| #[trigger] has_id(out@, id) <==> self.view().dom().contains(id) by {
                if has_id(out@, id) {
                    let j = choose|j: int| 0 <= j < out@.len() && #[trigger] out@[j].model_id == id;
                    assert(out@[j].model_id == *pairs[j].0);
                }
                if m.contains_key(id) {
                    assert(pairs.contains((&id, &m[id])));
                    let j = choose|j: int| 0 <= j < pairs.len() && pairs[j] == (&id, &m[id]);
                    assert(out@[j].model_id == *pairs[j].0);
                }
            }
        }
        out
    }
}

/// Recording a server makes it the one reported for its model and leaves
/// every other model's record as it was.
pub proof fn law_insert_then_get(t: Map<i64, ProcessView>, info: ProcessInfo, other: i64)
    requires
        other != info.model_id,
    ensures
        t.insert(info.model_id, process_view(info)).dom().contains(info.model_id),
        t.insert(info.model_id, process_view(info))[info.model_id] == process_view(info),
        t.insert(info.model_id, process_view(info)).dom().contains(other) == t.dom().contains(other),
        t.dom().contains(other) ==> t.insert(info.model_id, process_view(info))[other] == t[other],
{
}

/// Once a server's record is dropped its model is no longer running, and
/// no other model is affected.
pub proof fn law_remove_then_absent(t: Map<i64, ProcessView>, id: i64, other: i64)
    requires
        other != id,
    ensures
        !t.remove(id).dom().contains(id),
        t.remove(id).dom().contains(other) == t.dom().contains(other),
        t.dom().contains(other) ==> t.remove(id)[other] == t[other],
{
}

/// The error when a model is launched while its server runs.
pub fn already_running_message(model_id: i64) -> (r: String)
    ensures
        r@ == "model "@ + int_decimal(model_id as int) + " is already running"@,
{
    String::from_str("model ").concat(i64_to_string(model_id).as_str()).concat(" is already running")
}

/// The error when a model is stopped while no server runs for it.
pub fn not_running_message(model_id: i64) -> (r: String)
    ensures
        r@ == "model "@ + int_decimal(model_id as int) + " is not running"@,
{
    String::from_str("model ").concat(i64_to_string(model_id).as_str()).concat(" is not running")
}

/// The error when the server reports no port within [`STARTUP_TIMEOUT_SECS`].
pub fn startup_timeout_message() -> (r: String)
    ensures
        r@ == "llama-server did not report a listening port within "@ + nat_decimal(STARTUP_TIMEOUT_SECS as nat) + "s"@,
{
    let mut m = String::from_str("llama-server did not report a listening port within ");
    append_decimal(&mut m, STARTUP_TIMEOUT_SECS);
    m.concat("s")
}

} // verus!
