//! Model discovery: the record kept for each `.gguf` file found under the
//! models directory, the rule that skips re-reading unchanged files, and how
//! the outcomes of one scan are gathered into records, the set of file names
//! still on disk, and a report. Walking the directory, reading file sizes and
//! headers happen in the application, file by file.

use vstd::prelude::*;

use crate::gguf::GgufMetadata;
use crate::db::registry_ops::{law_stale_exactly_vanished, spec_stale};
use crate::text::strings_view;

verus! {

/// One discovered model: where it is, how big it is, and its parsed header.
pub struct ModelRecord {
    pub filename: String,
    /// The full path, as text.
    pub filepath: String,
    pub filesize_bytes: i64,
    pub metadata: GgufMetadata,
}

/// Summary of a scan.
pub struct ScanReport {
    /// Files parsed successfully.
    pub found: usize,
    /// Paths of the files that failed to parse, in scan order.
    pub failed: Vec<String>,
}

/// What happened to one `.gguf` file of a scan.
pub enum ScanOutcome {
    /// Read and parsed.
    Parsed(ModelRecord),
    /// Known and unchanged, so not read again; its file name.
    Skipped(String),
    /// Could not be read or parsed; its path.
    Failed(String),
}

/// The size stored for `filename` among the known files (the first entry
/// with that name).
pub open spec fn spec_known_size(known: Seq<(String, i64)>, filename: Seq<char>) -> Option<i64>
    decreases known.len(),
{
    if known.len() == 0 {
        None
    } else if known[0].0@ == filename {
        Some(known[0].1)
    } else {
        spec_known_size(known.drop_first(), filename)
    }
}

/// The size stored for `filename` (see [`spec_known_size`]).
pub fn known_size(known: &Vec<(String, i64)>, filename: &str) -> (r: Option<i64>)
    ensures
        r == spec_known_size(known@, filename@),
{
    let name = String::from_str(filename);
    let mut i: usize = 0;
    assert(known@.subrange(0, known@.len() as int) =~= known@);
    while i < known.len()
        invariant
            i <= known@.len(),
            name@ == filename@,
            spec_known_size(known@, filename@) == spec_known_size(known@.subrange(i as int, known@.len() as int), filename@),
        decreases known@.len() - i,
    {
        let ghost rest = known@.subrange(i as int, known@.len() as int);
        assert(rest.drop_first() =~= known@.subrange(i + 1, known@.len() as int));
        if known[i].0 == name {
            return Some(known[i].1);
        }
        i = i + 1;
    }
    None
}

/// A file needs no new parse when a model of the same name is stored with
/// the same size: the header cannot have changed.
pub fn is_unchanged(known: &Vec<(String, i64)>, filename: &str, filesize_bytes: i64) -> (r: bool)
    ensures
        r == (spec_known_size(known@, filename@) == Some(filesize_bytes)),
{
    match known_size(known, filename) {
        Some(size) => size == filesize_bytes,
        None => false,
    }
}

/// The parsed records of a scan, in order.
pub open spec fn parsed_records(o: Seq<ScanOutcome>) -> Seq<ModelRecord>
    decreases o.len(),
{
    if o.len() == 0 {
        seq![]
    } else {
        match o.last() {
            ScanOutcome::Parsed(rec) => parsed_records(o.drop_last()).push(rec),
            _ => parsed_records(o.drop_last()),
        }
    }
}

/// The paths that failed to parse, in order.
pub open spec fn failed_paths(o: Seq<ScanOutcome>) -> Seq<Seq<char>>
    decreases o.len(),
{
    if o.len() == 0 {
        seq![]
    } else {
        match o.last() {
            ScanOutcome::Failed(p) => failed_paths(o.drop_last()).push(p@),
            _ => failed_paths(o.drop_last()),
        }
    }
}

/// The file name an outcome shows to be on disk: parsed and skipped files.
pub open spec fn present_name(o: ScanOutcome) -> Option<Seq<char>> {
    match o {
        ScanOutcome::Parsed(rec) => Some(rec.filename@),
        ScanOutcome::Skipped(n) => Some(n@),
        ScanOutcome::Failed(_) => None,
    }
}

/// `name` is on disk according to the first `n` outcomes.
pub open spec fn seen_within(o: Seq<ScanOutcome>, n: int, name: Seq<char>) -> bool {
    exists|j: int| 0 <= j < n && #[trigger] present_name(o[j]) == Some(name)
}

/// Adds `name` unless a string with the same text is already there.
fn push_unique(names: &mut Vec<String>, name: String)
    ensures
        strings_view(final(names)@) == if strings_view(old(names)@).contains(name@) {
            strings_view(old(names)@)
        } else {
            strings_view(old(names)@).push(name@)
        },
{
    let mut k: usize = 0;
    while k < names.len()
        invariant
            k <= names@.len(),
            forall|j: int| 0 <= j < k ==> names@[j]@ != name@,
        decreases names@.len() - k,
    {
        if names[k] == name {
            assert(strings_view(names@)[k as int] == name@);
            return;
        }
        k = k + 1;
    }
    let ghost before = strings_view(names@);
    assert(!before.contains(name@)) by {
        if before.contains(name@) {
            let j = choose|j: int| 0 <= j < before.len() && before[j] == name@;
            assert(names@[j]@ == name@);
        }
    }
    names.push(name);
    assert(strings_view(names@) =~= before.push(name@));
}

/// Gathers the outcomes of a scan, in scan order: the parsed records, the
/// names of the files still on disk (parsed or skipped; each once), and the
/// report of parsed and failed files. A stored model whose name is not among
/// the names is gone from disk.
pub fn scan_with_report(outcomes: Vec<ScanOutcome>) -> (r: (Vec<ModelRecord>, Vec<String>, ScanReport))
    ensures
        r.0@ == parsed_records(outcomes@),
        forall|name: Seq<char>| strings_view(r.1@).contains(name) <==> seen_within(outcomes@, outcomes@.len() as int, name),
        strings_view(r.1@).no_duplicates(),
        r.2.found == r.0@.len(),
        strings_view(r.2.failed@) == failed_paths(outcomes@),
{
    let ghost all = outcomes@;
    let mut rest = outcomes;
    let mut records: Vec<ModelRecord> = Vec::new();
    let mut names: Vec<String> = Vec::new();
    let mut failed: Vec<String> = Vec::new();
    let ghost mut i: int = 0;
    while rest.len() > 0
        invariant
            0 <= i <= all.len(),
            rest@ =~= all.subrange(i, all.len() as int),
            records@ == parsed_records(all.subrange(0, i)),
            strings_view(failed@) == failed_paths(all.subrange(0, i)),
            strings_view(names@).no_duplicates(),
            forall|name: Seq<char>| strings_view(names@).contains(name) <==> seen_within(all, i, name),
        decreases rest@.len(),
    {
        let o = rest.remove(0);
        let ghost prefix = all.subrange(0, i + 1);
        proof {
            assert(o == all[i]);
            assert(prefix.drop_last() =~= all.subrange(0, i));
            assert(prefix.last() == o);
        }
        let ghost old_names = strings_view(names@);
        match o {
            ScanOutcome::Parsed(rec) => {
                push_unique(&mut names, rec.filename.clone());
                records.push(rec);
            },
            ScanOutcome::Skipped(n) => {
                push_unique(&mut names, n);
            },
            ScanOutcome::Failed(p) => {
                let ghost before = strings_view(failed@);
                failed.push(p);
                assert(strings_view(failed@) =~= before.push(p@));
            },
        }
        proof {
            let nv = strings_view(names@);
            assert(nv.no_duplicates()) by {
                if nv.len() != old_names.len() {
                    assert(nv == old_names.push(present_name(all[i])->0));
                    assert forall|a: int, b: int| 0 <= a < nv.len() && 0 <= b < nv.len() && a != b implies nv[a] != nv[b] by {
                        if a < old_names.len() && b < old_names.len() {
                        } else if a == old_names.len() {
                            assert(!old_names.contains(nv[a]));
                            if nv[a] == nv[b] {
                                assert(old_names[b] == nv[a]);
                            }
                        } else {
                            assert(!old_names.contains(nv[b]));
                            if nv[a] == nv[b] {
                                assert(old_names[a] == nv[b]);
                            }
                        }
                    }
                }
            }
            assert forall|name: Seq<char>| nv.contains(name) <==> seen_within(all, i + 1, name) by {
                if seen_within(all, i + 1, name) {
                    let j = choose|j: int| 0 <= j < i + 1 && #[trigger] present_name(all[j]) == Some(name);
                    if j < i {
                        assert(seen_within(all, i, name));
                        assert(old_names.contains(name));
                        let k = choose|k: int| 0 <= k < old_names.len() && old_names[k] == name;
                        assert(nv[k] == name);
                    } else {
                        if old_names.contains(name) {
                            let k = choose|k: int| 0 <= k < old_names.len() && old_names[k] == name;
                            assert(nv[k] == name);
                        } else {
                            assert(nv[nv.len() - 1] == name);
                        }
                    }
                }
                if nv.contains(name) {
                    let k = choose|k: int| 0 <= k < nv.len() && nv[k] == name;
                    if k < old_names.len() {
                        assert(old_names[k] == name);
                        assert(old_names.contains(name));
                        assert(seen_within(all, i, name));
                        let j = choose|j: int| 0 <= j < i && #[trigger] present_name(all[j]) == Some(name);
                        assert(present_name(all[j]) == Some(name));
                    } else {
                        assert(present_name(all[i]) == Some(name));
                    }
                }
            }
            i = i + 1;
        }
    }
    proof {
        assert(all.subrange(0, i) =~= all);
    }
    let found = records.len();
    (records, names, ScanReport { found, failed })
}


/// A reconciliation fed the names of a scan never removes a model whose
/// file the scan found, whether it was parsed or skipped as unchanged.
pub proof fn law_scanned_files_kept(
    before: Seq<Seq<char>>,
    names: Seq<Seq<char>>,
    outcomes: Seq<ScanOutcome>,
    name: Seq<char>,
)
    requires
        forall|n: Seq<char>| names.contains(n) <==> seen_within(outcomes, outcomes.len() as int, n),
        seen_within(outcomes, outcomes.len() as int, name),
    ensures
        !spec_stale(before, names).contains(name),
{
    law_stale_exactly_vanished(before, names, name);
}

/// The same file name seen twice in a scan (in two subdirectories) is
/// listed once, and a skipped file's name is listed like a parsed one's.
pub proof fn law_skipped_names_listed(outcomes: Seq<ScanOutcome>, i: int)
    requires
        0 <= i < outcomes.len(),
        outcomes[i] matches ScanOutcome::Skipped(_),
    ensures
        seen_within(outcomes, outcomes.len() as int, present_name(outcomes[i])->0),
{
    assert(present_name(outcomes[i]) == Some(present_name(outcomes[i])->0));
}
} // verus!
