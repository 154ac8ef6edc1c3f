//! Interpreting HuggingFace Hub answers: search hits, repository file
//! lists and GGUF metadata, the pagination cursor of the `link` header, the
//! rate-limit reset of the `ratelimit` header, and the query of a search
//! request. The HTTP traffic itself happens in the application.

use vstd::prelude::*;
use vstd::utf8::*;

use crate::json::{
    as_str, as_u64, deref_opt, number_text, spec_as_str, spec_as_u64, spec_get, spec_number_text, JsonValue,
};
use crate::text::{
    append_decimal, nat_decimal,
    digits_end, ends_with, find_char, find_str, find_sub, first_index_of, is_digit, lemma_leading_digits,
    leading_digits, parse_u64_digits, seq_ends_with, spec_parse_u64, string_from_chars, to_chars,
};

verus! {

/// Base URL of the Hub.
pub const HF_BASE: &'static str = "https://huggingface.co";

/// Results per search page.
pub const SEARCH_PAGE_SIZE: &'static str = "30";

/// Seconds to wait when rate-limited and the reset time cannot be read.
pub const DEFAULT_RATELIMIT_RESET_SECS: u64 = 30;

/// Connect timeout for Hub requests, in seconds.
pub const HF_CONNECT_TIMEOUT_SECS: u64 = 15;

/// Download attempts before a rate limit is reported as an error.
pub const MAX_DOWNLOAD_ATTEMPTS: u32 = 3;

/// A repository's gating mode.
#[derive(Debug, Clone, Copy, PartialEq, Eq, Structural)]
pub enum Gated {
    /// Open access.
    No,
    /// Gated, approved automatically on request.
    Auto,
    /// Gated, approved manually.
    Manual,
    /// An unrecognized value.
    Unknown,
}

impl Gated {
    /// Any gating mode other than open access.
    pub fn is_gated(self) -> (r: bool)
        ensures
            r == (self != Gated::No),
    {
        match self {
            Gated::No => false,
            _ => true,
        }
    }
}

/// The `gated` field, which the Hub sends as a boolean or a string; an
/// absent field means open access.
pub open spec fn spec_parse_gated(v: Option<JsonValue>) -> Gated {
    match v {
        Some(JsonValue::Bool(b)) => if b { Gated::Manual } else { Gated::No },
        Some(JsonValue::Str(s)) => if s@ == "auto"@ {
            Gated::Auto
        } else if s@ == "manual"@ {
            Gated::Manual
        } else if s@ == "false"@ {
            Gated::No
        } else {
            Gated::Unknown
        },
        None => Gated::No,
        _ => Gated::Unknown,
    }
}

/// Normalizes the `gated` field (see [`spec_parse_gated`]).
pub fn parse_gated(v: Option<&JsonValue>) -> (r: Gated)
    ensures
        r == spec_parse_gated(deref_opt(v)),
{
    match v {
        Some(JsonValue::Bool(b)) => if *b { Gated::Manual } else { Gated::No },
        Some(JsonValue::Str(s)) => {
            if *s == String::from_str("auto") {
                Gated::Auto
            } else if *s == String::from_str("manual") {
                Gated::Manual
            } else if *s == String::from_str("false") {
                Gated::No
            } else {
                Gated::Unknown
            }
        },
        None => Gated::No,
        _ => Gated::Unknown,
    }
}

/// One search hit.
pub struct HfModelResult {
    pub id: String,
    pub author: Option<String>,
    pub downloads: Option<u64>,
    pub likes: Option<u64>,
    pub pipeline_tag: Option<String>,
    pub last_modified: Option<String>,
    /// The trending score as sent (a JSON number's text).
    pub trending_score: Option<String>,
    pub gated: Gated,
    /// The repository's `siblings` include at least one `.gguf` file.
    pub has_gguf_files: bool,
}

/// The repository id of a hit (empty when missing).
pub open spec fn spec_hit_id(v: JsonValue) -> Seq<char> {
    match spec_as_str(spec_get(v, "id"@)) {
        Some(s) => s,
        None => seq![],
    }
}

/// The author: the `author` field, else the part of the id before its first
/// `/`.
pub open spec fn spec_hit_author(v: JsonValue) -> Option<Seq<char>> {
    match spec_as_str(spec_get(v, "author"@)) {
        Some(a) => Some(a),
        None => match first_index_of(spec_hit_id(v), '/') {
            Some(i) => Some(spec_hit_id(v).subrange(0, i)),
            None => None,
        },
    }
}

/// A `siblings` entry naming a `.gguf` file.
pub open spec fn is_gguf_sibling(s: JsonValue) -> bool {
    match spec_as_str(spec_get(s, "rfilename"@)) {
        Some(n) => seq_ends_with(n, ".gguf"@),
        None => false,
    }
}

/// Whether a hit's `siblings` array lists a `.gguf` file.
pub open spec fn spec_has_gguf_files(v: JsonValue) -> bool {
    match spec_get(v, "siblings"@) {
        Some(JsonValue::Array(items)) => exists|i: int| 0 <= i < items@.len() && #[trigger] is_gguf_sibling(items@[i]),
        _ => false,
    }
}

/// Whether some entry of `items` names a `.gguf` file.
fn any_gguf_sibling(items: &Vec<JsonValue>) -> (r: bool)
    ensures
        r == exists|i: int| 0 <= i < items@.len() && #[trigger] is_gguf_sibling(items@[i]),
{
    let mut i: usize = 0;
    while i < items.len()
        invariant
            i <= items@.len(),
            forall|k: int| 0 <= k < i ==> !#[trigger] is_gguf_sibling(items@[k]),
        decreases items@.len() - i,
    {
        let field = items[i].get("rfilename");
        assert(deref_opt(field) == spec_get(items@[i as int], "rfilename"@));
        let name = as_str(field);
        let found = match name {
            Some(n) => ends_with(n.as_str(), ".gguf"),
            None => false,
        };
        assert(found == is_gguf_sibling(items@[i as int]));
        if found {
            return true;
        }
        i = i + 1;
    }
    false
}

/// `r` is what the search hit `v` says: its id, author, counts, pipeline
/// tag, modification time, trending score, gating and GGUF files.
pub open spec fn hit_matches(r: HfModelResult, v: JsonValue) -> bool {
    &&& r.id@ == spec_hit_id(v)
    &&& r.author.deep_view() == spec_hit_author(v)
    &&& r.downloads == spec_as_u64(spec_get(v, "downloads"@))
    &&& r.likes == spec_as_u64(spec_get(v, "likes"@))
    &&& r.pipeline_tag.deep_view() == spec_as_str(spec_get(v, "pipeline_tag"@))
    &&& r.last_modified.deep_view() == spec_as_str(spec_get(v, "lastModified"@))
    &&& r.trending_score.deep_view() == spec_number_text(spec_get(v, "trendingScore"@))
    &&& r.gated == spec_parse_gated(spec_get(v, "gated"@))
    &&& r.has_gguf_files == spec_has_gguf_files(v)
}

/// Interprets one search hit (see [`hit_matches`]); missing fields are
/// tolerated.
pub fn parse_model_result(v: &JsonValue) -> (r: HfModelResult)
    ensures
        hit_matches(r, *v),
{
    let id = match as_str(v.get("id")) {
        Some(s) => s.clone(),
        None => String::new(),
    };
    let author = match as_str(v.get("author")) {
        Some(a) => Some(a.clone()),
        None => {
            let chars = to_chars(id.as_str());
            match find_char(&chars, '/') {
                Some(i) => Some(string_from_chars(&chars, 0, i)),
                None => None,
            }
        },
    };
    let has_gguf_files = match v.get("siblings") {
        Some(JsonValue::Array(items)) => any_gguf_sibling(items),
        _ => false,
    };
    HfModelResult {
        id,
        author,
        downloads: as_u64(v.get("downloads")),
        likes: as_u64(v.get("likes")),
        pipeline_tag: match as_str(v.get("pipeline_tag")) {
            Some(s) => Some(s.clone()),
            None => None,
        },
        last_modified: match as_str(v.get("lastModified")) {
            Some(s) => Some(s.clone()),
            None => None,
        },
        trending_score: number_text(v.get("trendingScore")),
        gated: parse_gated(v.get("gated")),
        has_gguf_files,
    }
}

/// The hits that list a `.gguf` file, in order (the Hub's `tags=gguf`
/// filter lets through repositories without any).
pub open spec fn spec_gguf_hits(s: Seq<HfModelResult>) -> Seq<HfModelResult>
    decreases s.len(),
{
    if s.len() == 0 {
        seq![]
    } else if s.last().has_gguf_files {
        spec_gguf_hits(s.drop_last()).push(s.last())
    } else {
        spec_gguf_hits(s.drop_last())
    }
}

/// Keeps only the hits with `.gguf` files (see [`spec_gguf_hits`]).
pub fn retain_gguf_hits(results: Vec<HfModelResult>) -> (r: Vec<HfModelResult>)
    ensures
        r@ == spec_gguf_hits(results@),
{
    let mut out: Vec<HfModelResult> = Vec::new();
    let mut rest = results;
    let ghost all = rest@;
    let ghost mut i: int = 0;
    while rest.len() > 0
        invariant
            0 <= i <= all.len(),
            rest@ =~= all.subrange(i, all.len() as int),
            out@ == spec_gguf_hits(all.subrange(0, i)),
        decreases rest@.len(),
    {
        let hit = rest.remove(0);
        proof {
            assert(hit == all[i]);
            assert(all.subrange(0, i + 1).drop_last() =~= all.subrange(0, i));
            assert(all.subrange(0, i + 1).last() == hit);
        }
        if hit.has_gguf_files {
            out.push(hit);
        }
        proof {
            i = i + 1;
        }
    }
    assert(all.subrange(0, i) =~= all);
    out
}

/// One `.gguf` file of a repository; its size is fetched separately.
pub struct HfFile {
    pub filename: String,
    pub size_bytes: Option<u64>,
}

/// The `.gguf` file names listed in `siblings` entries, in order.
pub open spec fn spec_gguf_names(items: Seq<JsonValue>) -> Seq<Seq<char>>
    decreases items.len(),
{
    if items.len() == 0 {
        seq![]
    } else if is_gguf_sibling(items.last()) {
        spec_gguf_names(items.drop_last()).push(spec_as_str(spec_get(items.last(), "rfilename"@)).unwrap())
    } else {
        spec_gguf_names(items.drop_last())
    }
}

/// The file names of a list of files.
pub open spec fn file_names(files: Seq<HfFile>) -> Seq<Seq<char>> {
    files.map_values(|f: HfFile| f.filename@)
}

/// The `.gguf` file names that a repository answer lists.
pub open spec fn repo_gguf_names(repo: JsonValue) -> Seq<Seq<char>> {
    match spec_get(repo, "siblings"@) {
        Some(JsonValue::Array(items)) => spec_gguf_names(items@),
        _ => seq![],
    }
}

/// `files` are the `.gguf` files of the repository answer, in order, with
/// their sizes not yet known.
pub open spec fn files_listed(files: Seq<HfFile>, repo: JsonValue) -> bool {
    &&& file_names(files) == repo_gguf_names(repo)
    &&& forall|i: int| 0 <= i < files.len() ==> (#[trigger] files[i]).size_bytes is None
}

/// The `.gguf` files of a repository answer (see [`files_listed`]).
pub fn gguf_files_of(repo: &JsonValue) -> (r: Vec<HfFile>)
    ensures
        files_listed(r@, *repo),
{
    let mut files: Vec<HfFile> = Vec::new();
    match repo.get("siblings") {
        Some(JsonValue::Array(items)) => {
            let mut i: usize = 0;
            while i < items.len()
                invariant
                    i <= items@.len(),
                    file_names(files@) == spec_gguf_names(items@.subrange(0, i as int)),
                    forall|k: int| 0 <= k < files@.len() ==> (#[trigger] files@[k]).size_bytes is None,
                decreases items@.len() - i,
            {
                proof {
                    assert(items@.subrange(0, i + 1).drop_last() =~= items@.subrange(0, i as int));
                }
                let name = as_str(items[i].get("rfilename"));
                match name {
                    Some(n) => {
                        if ends_with(n.as_str(), ".gguf") {
                            let ghost before = file_names(files@);
                            files.push(HfFile { filename: n.clone(), size_bytes: None });
                            assert(file_names(files@) =~= before.push(n@));
                        }
                    },
                    None => {},
                }
                i = i + 1;
            }
            assert(items@.subrange(0, i as int) =~= items@);
        },
        _ => {
            assert(file_names(files@) =~= Seq::<Seq<char>>::empty());
        },
    }
    files
}

/// Repository-level GGUF metadata.
pub struct HfRepoGgufMeta {
    pub architecture: Option<String>,
    pub context_length: Option<u64>,
    pub total_file_size: Option<u64>,
}

/// `r` is what the `gguf` object `v` says: `architecture`, `context_length`,
/// and `totalFileSize` (else `total`); all `None` when the object is absent.
pub open spec fn meta_matches(r: HfRepoGgufMeta, v: Option<JsonValue>) -> bool {
    match v {
        None => r.architecture is None && r.context_length is None && r.total_file_size is None,
        Some(g) => {
            &&& r.architecture.deep_view() == spec_as_str(spec_get(g, "architecture"@))
            &&& r.context_length == spec_as_u64(spec_get(g, "context_length"@))
            &&& r.total_file_size == (match spec_as_u64(spec_get(g, "totalFileSize"@)) {
                Some(t) => Some(t),
                None => spec_as_u64(spec_get(g, "total"@)),
            })
        },
    }
}

/// Reads the `gguf` object of a repository answer: `architecture`,
/// `context_length`, and `totalFileSize` (else `total`); all `None` when the
/// object is absent.
pub fn parse_gguf_meta(v: Option<&JsonValue>) -> (r: HfRepoGgufMeta)
    ensures
        meta_matches(r, deref_opt(v)),
{
    match v {
        None => HfRepoGgufMeta { architecture: None, context_length: None, total_file_size: None },
        Some(g) => HfRepoGgufMeta {
            architecture: match as_str(g.get("architecture")) {
                Some(s) => Some(s.clone()),
                None => None,
            },
            context_length: as_u64(g.get("context_length")),
            total_file_size: match as_u64(g.get("totalFileSize")) {
                Some(t) => Some(t),
                None => as_u64(g.get("total")),
            },
        },
    }
}

/// The error text for a gated repository the user cannot access.
pub fn gated_error_message(repo_id: &str) -> (r: String)
    ensures
        r@ == "This model is gated. Visit https://huggingface.co/"@ + repo_id@
            + " to request access, then reconnect your HuggingFace account."@,
{
    String::from_str("This model is gated. Visit https://huggingface.co/").concat(repo_id).concat(
        " to request access, then reconnect your HuggingFace account.",
    )
}


/// The value of an ASCII hexadecimal digit.
pub open spec fn hex_value(b: u8) -> Option<u8> {
    if 48 <= b <= 57 {
        Some((b - 48) as u8)
    } else if 97 <= b <= 102 {
        Some((b - 87) as u8)
    } else if 65 <= b <= 70 {
        Some((b - 55) as u8)
    } else {
        None
    }
}

/// Percent-decoding of bytes: each `%` followed by two hexadecimal digits
/// becomes the byte they spell; every other byte stays.
pub open spec fn spec_percent_decode(b: Seq<u8>) -> Seq<u8>
    decreases b.len(),
{
    if b.len() == 0 {
        seq![]
    } else if b[0] == 37 && b.len() >= 3 && hex_value(b[1]) is Some && hex_value(b[2]) is Some {
        seq![(hex_value(b[1])->0 * 16 + hex_value(b[2])->0) as u8] + spec_percent_decode(b.subrange(3, b.len() as int))
    } else {
        seq![b[0]] + spec_percent_decode(b.drop_first())
    }
}

/// The text that `percent_encoding` gives for `raw` after percent-decoding
/// it and reading the bytes as UTF-8 lossily.
pub uninterp spec fn percent_decoded_lossy(raw: Seq<char>) -> Seq<char>;

/// Calls `percent_encoding::percent_decode_str(raw).decode_utf8_lossy()`.
/// Its result is named [`percent_decoded_lossy`]; where the decoded bytes
/// (see [`spec_percent_decode`]) are valid UTF-8 it is their text. How an
/// invalid sequence is replaced (by U+FFFD) is not stated.
#[verifier::external_body]
fn percent_decode_lossy(raw: &str) -> (r: String)
    ensures
        r@ == percent_decoded_lossy(raw@),
        valid_utf8(spec_percent_decode(encode_utf8(raw@))) ==> r@ == decode_utf8(
            spec_percent_decode(encode_utf8(raw@)),
        ),
{
    percent_encoding::percent_decode_str(raw).decode_utf8_lossy().into_owned()
}

/// A character that ends the cursor inside a `link` header.
pub open spec fn is_cursor_end(c: char) -> bool {
    c == '>' || c == '&' || c == ';'
}

/// The longest prefix of `s` without a cursor-ending character.
pub open spec fn cursor_prefix(s: Seq<char>) -> Seq<char>
    decreases s.len(),
{
    if s.len() == 0 || is_cursor_end(s[0]) {
        seq![]
    } else {
        seq![s[0]] + cursor_prefix(s.drop_first())
    }
}

proof fn lemma_cursor_prefix(s: Seq<char>, a: int, j: int)
    requires
        0 <= a <= j <= s.len(),
        forall|k: int| a <= k < j ==> !is_cursor_end(#[trigger] s[k]),
        j == s.len() || is_cursor_end(s[j]),
    ensures
        cursor_prefix(s.subrange(a, s.len() as int)) == s.subrange(a, j),
    decreases j - a,
{
    let t = s.subrange(a, s.len() as int);
    if a < j {
        lemma_cursor_prefix(s, a + 1, j);
        assert(t.drop_first() =~= s.subrange(a + 1, s.len() as int));
        assert(seq![t[0]] + s.subrange(a + 1, j) =~= s.subrange(a, j));
    } else {
        assert(s.subrange(a, j) =~= Seq::<char>::empty());
    }
}

/// The still-encoded cursor of a `link` header: only a header announcing
/// `rel="next"` has one; it starts after the first `cursor=` and runs to the
/// first `>`, `&` or `;`, or to the end.
pub open spec fn spec_raw_cursor(link: Seq<char>) -> Option<Seq<char>> {
    if find_sub(link, "rel=\"next\""@) is None {
        None
    } else {
        match find_sub(link, "cursor="@) {
            None => None,
            Some(i) => Some(cursor_prefix(link.subrange(i + "cursor="@.len(), link.len() as int))),
        }
    }
}

/// `r` is the cursor of the next page for the `link` header text `link`:
/// none without a header or a raw cursor (see [`spec_raw_cursor`]), else
/// the raw cursor percent-decoded.
pub open spec fn next_cursor_of(link: Option<Seq<char>>, r: Option<Seq<char>>) -> bool {
    match link {
        None => r is None,
        Some(l) => match spec_raw_cursor(l) {
            None => r is None,
            Some(raw) => r matches Some(c) && c == percent_decoded_lossy(raw) && (valid_utf8(
                spec_percent_decode(encode_utf8(raw)),
            ) ==> c == decode_utf8(spec_percent_decode(encode_utf8(raw)))),
        },
    }
}

/// The cursor of the next search page, read from the `link` header's text
/// (see [`spec_raw_cursor`]) and percent-decoded, so that encoding it again
/// as a query parameter encodes it once.
pub fn extract_next_cursor(link: Option<&str>) -> (r: Option<String>)
    ensures
        next_cursor_of(opt_str_view(link), r.deep_view()),
{
    let l = match link {
        Some(l) => l,
        None => return None,
    };
    let chars = to_chars(l);
    let next = to_chars("rel=\"next\"");
    if find_str(&chars, &next).is_none() {
        return None;
    }
    let key = to_chars("cursor=");
    let i = match find_str(&chars, &key) {
        Some(i) => i,
        None => return None,
    };
    let n = chars.len();
    let start = i + key.len();
    let mut j = start;
    while j < n && chars[j] != '>' && chars[j] != '&' && chars[j] != ';'
        invariant
            start <= j <= n,
            n == chars@.len(),
            forall|k: int| start <= k < j ==> !is_cursor_end(#[trigger] chars@[k]),
        decreases n - j,
    {
        j = j + 1;
    }
    proof {
        lemma_cursor_prefix(chars@, start as int, j as int);
    }
    let raw = string_from_chars(&chars, start, j);
    Some(percent_decode_lossy(raw.as_str()))
}

/// Seconds until the rate limit resets, from the `ratelimit` header's text
/// (`"resolvers";r=2998;t=225` gives 225): the digits after the first `t=`.
pub open spec fn spec_ratelimit_reset(h: Seq<char>) -> Option<u64> {
    match find_sub(h, "t="@) {
        None => None,
        Some(i) => spec_parse_u64(leading_digits(h.subrange(i + "t="@.len(), h.len() as int))),
    }
}

/// Reads the reset time of the `ratelimit` header (see
/// [`spec_ratelimit_reset`]).
pub fn parse_ratelimit_reset(header: Option<&str>) -> (r: Option<u64>)
    ensures
        r == match header {
            None => None,
            Some(h) => spec_ratelimit_reset(h@),
        },
{
    let h = match header {
        Some(h) => h,
        None => return None,
    };
    let chars = to_chars(h);
    let key = to_chars("t=");
    let i = match find_str(&chars, &key) {
        Some(i) => i,
        None => return None,
    };
    let n = chars.len();
    let start = i + key.len();
    let end = digits_end(&chars, start);
    proof {
        lemma_leading_digits(chars@, start as int, end as int);
    }
    parse_u64_digits(&chars, start, end)
}


/// The query parameters' texts, in order.
pub open spec fn pairs_view(v: Seq<(String, String)>) -> Seq<(Seq<char>, Seq<char>)> {
    v.map_values(|p: (String, String)| (p.0@, p.1@))
}

/// An optional text that is present and not empty.
pub open spec fn nonempty(t: Option<Seq<char>>) -> bool {
    t matches Some(x) && x.len() > 0
}

/// The query of a search request: full hits, the sort key, descending, one
/// page; then the search text when not empty, the pipeline tag and the
/// cursor when present and not empty, and `tags=gguf` when only GGUF
/// repositories are wanted.
pub open spec fn spec_search_query(
    query: Seq<char>,
    sort: Seq<char>,
    pipeline_tag: Option<Seq<char>>,
    gguf_only: bool,
    cursor: Option<Seq<char>>,
) -> Seq<(Seq<char>, Seq<char>)> {
    seq![("full"@, "true"@), ("sort"@, sort), ("direction"@, "-1"@), ("limit"@, SEARCH_PAGE_SIZE@)]
        + (if query.len() > 0 { seq![("search"@, query)] } else { seq![] })
        + (if nonempty(pipeline_tag) { seq![("pipeline_tag"@, pipeline_tag->0)] } else { seq![] })
        + (if gguf_only { seq![("tags"@, "gguf"@)] } else { seq![] })
        + (if nonempty(cursor) { seq![("cursor"@, cursor->0)] } else { seq![] })
}

fn push_pair(v: &mut Vec<(String, String)>, key: &str, value: &str)
    ensures
        pairs_view(final(v)@) == pairs_view(old(v)@).push((key@, value@)),
{
    let ghost before = pairs_view(v@);
    v.push((String::from_str(key), String::from_str(value)));
    assert(pairs_view(v@) =~= before.push((key@, value@)));
}

/// The text of an optional string.
pub open spec fn opt_str_view(t: Option<&str>) -> Option<Seq<char>> {
    match t {
        Some(x) => Some(x@),
        None => None,
    }
}

/// Builds the query of a search request (see [`spec_search_query`]).
pub fn search_query_params(
    query: &str,
    sort: &str,
    pipeline_tag: Option<&str>,
    gguf_only: bool,
    cursor: Option<&str>,
) -> (r: Vec<(String, String)>)
    ensures
        pairs_view(r@) == spec_search_query(query@, sort@, opt_str_view(pipeline_tag), gguf_only, opt_str_view(cursor)),
{
    let ghost tag = opt_str_view(pipeline_tag);
    let ghost cur = opt_str_view(cursor);
    let mut v: Vec<(String, String)> = Vec::new();
    push_pair(&mut v, "full", "true");
    push_pair(&mut v, "sort", sort);
    push_pair(&mut v, "direction", "-1");
    push_pair(&mut v, "limit", SEARCH_PAGE_SIZE);
    let ghost base = pairs_view(v@);
    assert(base =~= seq![("full"@, "true"@), ("sort"@, sort@), ("direction"@, "-1"@), ("limit"@, SEARCH_PAGE_SIZE@)]);
    if query.unicode_len() > 0 {
        push_pair(&mut v, "search", query);
    }
    let ghost a = pairs_view(v@);
    assert(a =~= base + (if query@.len() > 0 { seq![("search"@, query@)] } else { seq![] }));
    match pipeline_tag {
        Some(t) => if t.unicode_len() > 0 {
            push_pair(&mut v, "pipeline_tag", t);
        },
        None => {},
    }
    let ghost b = pairs_view(v@);
    assert(b =~= a + (if nonempty(tag) { seq![("pipeline_tag"@, tag->0)] } else { seq![] }));
    if gguf_only {
        push_pair(&mut v, "tags", "gguf");
    }
    let ghost c = pairs_view(v@);
    assert(c =~= b + (if gguf_only { seq![("tags"@, "gguf"@)] } else { seq![] }));
    match cursor {
        Some(t) => if t.unicode_len() > 0 {
            push_pair(&mut v, "cursor", t);
        },
        None => {},
    }
    assert(pairs_view(v@) =~= c + (if nonempty(cur) { seq![("cursor"@, cur->0)] } else { seq![] }));
    v
}


/// The hits of a search answer that list a `.gguf` file, in order.
pub open spec fn gguf_raw_hits(raw: Seq<JsonValue>) -> Seq<JsonValue>
    decreases raw.len(),
{
    if raw.len() == 0 {
        seq![]
    } else if spec_has_gguf_files(raw.last()) {
        gguf_raw_hits(raw.drop_last()).push(raw.last())
    } else {
        gguf_raw_hits(raw.drop_last())
    }
}

/// Each result is what the hit at its place says.
pub open spec fn hits_match(results: Seq<HfModelResult>, raw: Seq<JsonValue>) -> bool {
    results.len() == raw.len() && forall|i: int| 0 <= i < raw.len() ==> hit_matches(#[trigger] results[i], raw[i])
}

proof fn lemma_gguf_hits_match(parsed: Seq<HfModelResult>, raw: Seq<JsonValue>)
    requires
        hits_match(parsed, raw),
    ensures
        hits_match(spec_gguf_hits(parsed), gguf_raw_hits(raw)),
    decreases raw.len(),
{
    if raw.len() > 0 {
        assert(hits_match(parsed.drop_last(), raw.drop_last())) by {
            assert forall|i: int| 0 <= i < raw.len() - 1 implies hit_matches(
                #[trigger] parsed.drop_last()[i],
                raw.drop_last()[i],
            ) by {
                assert(hit_matches(parsed[i], raw[i]));
            }
        }
        lemma_gguf_hits_match(parsed.drop_last(), raw.drop_last());
        assert(hit_matches(parsed.last(), raw.last())) by {
            assert(hit_matches(parsed[raw.len() - 1], raw[raw.len() - 1]));
        }
        let a = spec_gguf_hits(parsed.drop_last());
        let b = gguf_raw_hits(raw.drop_last());
        if parsed.last().has_gguf_files {
            assert forall|i: int| 0 <= i < b.len() + 1 implies hit_matches(
                #[trigger] a.push(parsed.last())[i],
                b.push(raw.last())[i],
            ) by {
                if i < b.len() {
                    assert(hit_matches(a[i], b[i]));
                }
            }
        }
    }
}

/// One page of search results and the cursor of the next page.
pub struct HfSearchPage {
    pub results: Vec<HfModelResult>,
    pub next_cursor: Option<String>,
}

/// Interprets a search answer: the hits (only those with `.gguf` files when
/// `gguf_only`, since the Hub's tag filter lets others through) and the
/// cursor of the `link` header.
pub fn search_page(raw: &Vec<JsonValue>, gguf_only: bool, link: Option<&str>) -> (r: HfSearchPage)
    ensures
        hits_match(r.results@, if gguf_only { gguf_raw_hits(raw@) } else { raw@ }),
        next_cursor_of(opt_str_view(link), r.next_cursor.deep_view()),
{
    let next_cursor = extract_next_cursor(link);
    let mut parsed: Vec<HfModelResult> = Vec::new();
    let mut i: usize = 0;
    while i < raw.len()
        invariant
            i <= raw@.len(),
            hits_match(parsed@, raw@.subrange(0, i as int)),
        decreases raw@.len() - i,
    {
        let hit = parse_model_result(&raw[i]);
        parsed.push(hit);
        i = i + 1;
        assert forall|k: int| 0 <= k < i implies hit_matches(#[trigger] parsed@[k], raw@.subrange(0, i as int)[k]) by {
            if k < i - 1 {
                assert(raw@.subrange(0, i - 1)[k] == raw@.subrange(0, i as int)[k]);
            }
        }
    }
    assert(raw@.subrange(0, i as int) =~= raw@);
    let results = if gguf_only {
        proof {
            lemma_gguf_hits_match(parsed@, raw@);
        }
        retain_gguf_hits(parsed)
    } else {
        parsed
    };
    HfSearchPage { results, next_cursor }
}


/// Interprets a repository answer: its `.gguf` files and its GGUF metadata.
pub fn repo_listing(repo: &JsonValue) -> (r: (Vec<HfFile>, HfRepoGgufMeta))
    ensures
        files_listed(r.0@, *repo),
        meta_matches(r.1, spec_get(*repo, "gguf"@)),
{
    let files = gguf_files_of(repo);
    let g = repo.get("gguf");
    assert(deref_opt(g) == spec_get(*repo, "gguf"@));
    (files, parse_gguf_meta(g))
}

/// The digits of an unsigned decimal text: all of it, or what follows a
/// leading `+`.
pub open spec fn unsigned_digits(s: Seq<char>) -> Seq<char> {
    if s.len() > 0 && s[0] == '+' {
        s.drop_first()
    } else {
        s
    }
}

/// Every character of `d` is an ASCII digit.
pub open spec fn all_digits(d: Seq<char>) -> bool {
    forall|k: int| 0 <= k < d.len() ==> is_digit(#[trigger] d[k])
}

/// `str::parse::<u64>`: an optional `+`, then one or more ASCII digits whose
/// value fits in a `u64`.
pub open spec fn spec_parse_u64_text(s: Seq<char>) -> Option<u64> {
    if all_digits(unsigned_digits(s)) {
        spec_parse_u64(unsigned_digits(s))
    } else {
        None
    }
}

/// Parses an unsigned decimal integer (see [`spec_parse_u64_text`]).
pub fn parse_u64_text(s: &str) -> (r: Option<u64>)
    ensures
        r == spec_parse_u64_text(s@),
{
    let chars = to_chars(s);
    let n = chars.len();
    let start: usize = if n > 0 && chars[0] == '+' { 1 } else { 0 };
    let ghost d = unsigned_digits(s@);
    assert(d =~= chars@.subrange(start as int, n as int));
    let end = digits_end(&chars, start);
    if end < n {
        assert(d[end - start] == chars@[end as int]);
        assert(!all_digits(d));
        return None;
    }
    parse_u64_digits(&chars, start, end)
}

/// What a `HEAD` of a file's download URL tells.
pub enum HeadOutcome {
    /// 401 or 403: the repository is gated for this account.
    Gated,
    /// Another unsuccessful status other than the 302 redirect.
    Failed,
    /// The size read from the size header.
    Size(u64),
    /// No readable size header.
    NoSize,
}

/// Whether an HTTP status is a success (2xx).
pub open spec fn is_success(status: u16) -> bool {
    200 <= status <= 299
}

/// The size header's value: `x-linked-size` when present, else
/// `content-length`.
pub open spec fn spec_size_from_headers(linked: Option<Seq<char>>, content_length: Option<Seq<char>>) -> Option<u64> {
    match linked {
        Some(t) => spec_parse_u64_text(t),
        None => match content_length {
            Some(t) => spec_parse_u64_text(t),
            None => None,
        },
    }
}

/// Interprets the answer to a `HEAD` of a file: its status and the texts of
/// its `x-linked-size` and `content-length` headers.
pub fn head_outcome(status: u16, linked: Option<&str>, content_length: Option<&str>) -> (r: HeadOutcome)
    ensures
        (status == 401 || status == 403) <==> r is Gated,
        r is Failed <==> (status != 401 && status != 403 && !is_success(status) && status != 302),
        !(r is Gated) && !(r is Failed) ==> match spec_size_from_headers(opt_str_view(linked), opt_str_view(content_length)) {
            Some(n) => r == HeadOutcome::Size(n),
            None => r is NoSize,
        },
{
    if status == 401 || status == 403 {
        return HeadOutcome::Gated;
    }
    if !(200 <= status && status <= 299) && status != 302 {
        return HeadOutcome::Failed;
    }
    let size = match linked {
        Some(t) => parse_u64_text(t),
        None => match content_length {
            Some(t) => parse_u64_text(t),
            None => None,
        },
    };
    match size {
        Some(n) => HeadOutcome::Size(n),
        None => HeadOutcome::NoSize,
    }
}

/// What to do with the answer to a download request.
pub enum DownloadStep {
    /// 401 or 403 with `x-error-code: GatedRepo`.
    Gated,
    /// 401 or 403 otherwise.
    AccessDenied,
    /// 429 on the last allowed attempt.
    GiveUp,
    /// 429 before the last attempt: wait this many seconds and retry.
    RetryAfter(u64),
    /// Another unsuccessful status.
    Failed,
    /// Success: stream the body to disk.
    Stream,
}

/// Decides what to do with the answer to download attempt `attempt`
/// (counted from 1), given its status and the texts of its `x-error-code`
/// and `ratelimit` headers.
pub fn download_step(status: u16, attempt: u32, error_code: Option<&str>, ratelimit: Option<&str>) -> (r: DownloadStep)
    ensures
        (status == 401 || status == 403) ==> (if opt_str_view(error_code) == Some("GatedRepo"@) {
            r is Gated
        } else {
            r is AccessDenied
        }),
        status == 429 ==> (if attempt >= MAX_DOWNLOAD_ATTEMPTS {
            r is GiveUp
        } else {
            r == DownloadStep::RetryAfter(
                match spec_ratelimit_reset_opt(opt_str_view(ratelimit)) {
                    Some(t) => t,
                    None => DEFAULT_RATELIMIT_RESET_SECS,
                },
            )
        }),
        status != 401 && status != 403 && status != 429 ==> (if is_success(status) {
            r is Stream
        } else {
            r is Failed
        }),
{
    if status == 401 || status == 403 {
        let gated = match error_code {
            Some(c) => String::from_str(c) == String::from_str("GatedRepo"),
            None => false,
        };
        return if gated { DownloadStep::Gated } else { DownloadStep::AccessDenied };
    }
    if status == 429 {
        if attempt >= MAX_DOWNLOAD_ATTEMPTS {
            return DownloadStep::GiveUp;
        }
        let wait = match parse_ratelimit_reset(ratelimit) {
            Some(t) => t,
            None => DEFAULT_RATELIMIT_RESET_SECS,
        };
        return DownloadStep::RetryAfter(wait);
    }
    if 200 <= status && status <= 299 {
        DownloadStep::Stream
    } else {
        DownloadStep::Failed
    }
}

/// The reset time of an optional `ratelimit` header text.
pub open spec fn spec_ratelimit_reset_opt(h: Option<Seq<char>>) -> Option<u64> {
    match h {
        Some(t) => spec_ratelimit_reset(t),
        None => None,
    }
}

/// What to do with the answer to a model-card request.
pub enum ReadmeStep {
    /// 404: the repository has no model card; the text is empty.
    Empty,
    /// 401 or 403: gated for this account.
    Gated,
    /// Another unsuccessful status.
    Failed,
    /// Success: read the body.
    Read,
}

/// Decides what to do with the answer to a model-card request.
pub fn readme_step(status: u16) -> (r: ReadmeStep)
    ensures
        status == 404 <==> r is Empty,
        (status == 401 || status == 403) <==> r is Gated,
        r is Read <==> is_success(status),
        r is Failed <==> (status != 404 && status != 401 && status != 403 && !is_success(status)),
{
    if status == 404 {
        ReadmeStep::Empty
    } else if status == 401 || status == 403 {
        ReadmeStep::Gated
    } else if 200 <= status && status <= 299 {
        ReadmeStep::Read
    } else {
        ReadmeStep::Failed
    }
}


/// The longest error body quoted in an error message, in bytes.
pub const SNIPPET_BYTES: usize = 200;

/// The last character boundary of `bytes` at or before byte `k` (0 at the
/// latest).
pub open spec fn boundary_at_or_before(bytes: Seq<u8>, k: int) -> int
    decreases k,
{
    if k <= 0 {
        0
    } else if is_char_boundary(bytes, k) {
        k
    } else {
        boundary_at_or_before(bytes, k - 1)
    }
}

/// The part of an error body quoted in a message: the body when it is at
/// most [`SNIPPET_BYTES`] bytes long, else its longest start of at most
/// [`SNIPPET_BYTES`] bytes that ends between two characters, followed by `…`.
pub open spec fn spec_snippet(body: Seq<char>) -> Seq<char> {
    let bytes = encode_utf8(body);
    if bytes.len() > SNIPPET_BYTES {
        decode_utf8(bytes.subrange(0, boundary_at_or_before(bytes, SNIPPET_BYTES as int))) + "\u{2026}"@
    } else {
        body
    }
}

proof fn lemma_boundary_at_or_before(bytes: Seq<u8>, k: int)
    requires
        valid_utf8(bytes),
        0 <= k,
    ensures
        0 <= boundary_at_or_before(bytes, k) <= k,
        is_char_boundary(bytes, boundary_at_or_before(bytes, k)),
        forall|j: int| boundary_at_or_before(bytes, k) < j <= k ==> !is_char_boundary(bytes, j),
    decreases k,
{
    if k > 0 && !is_char_boundary(bytes, k) {
        lemma_boundary_at_or_before(bytes, k - 1);
    }
}

/// Cuts an error body for quoting (see [`spec_snippet`]): a long body is cut
/// at the last character boundary within [`SNIPPET_BYTES`] bytes, so no
/// character is split.
pub fn error_snippet(body: &str) -> (r: String)
    ensures
        r@ == spec_snippet(body@),
{
    let len = body.as_bytes().len();
    if len > SNIPPET_BYTES {
        let ghost bytes = encode_utf8(body@);
        proof {
            broadcast use vstd::utf8::encode_utf8_valid_utf8;
            assert(valid_utf8(bytes));
        }
        let mut cut: usize = SNIPPET_BYTES;
        while cut > 0 && !body.is_char_boundary(cut)
            invariant
                0 <= cut <= SNIPPET_BYTES,
                bytes == encode_utf8(body@),
                valid_utf8(bytes),
                boundary_at_or_before(bytes, cut as int) == boundary_at_or_before(bytes, SNIPPET_BYTES as int),
            decreases cut,
        {
            cut = cut - 1;
        }
        proof {
            assert(boundary_at_or_before(bytes, cut as int) == cut as int);
            lemma_boundary_at_or_before(bytes, cut as int);
        }
        let (head, _) = body.split_at(cut);
        proof {
            broadcast use vstd::utf8::encode_utf8_decode_utf8;
            assert(encode_utf8(head@) == bytes.subrange(0, cut as int));
            assert(decode_utf8(encode_utf8(head@)) == head@);
        }
        let r = String::from_str(head).concat("\u{2026}");
        assert(r@ == head@ + "\u{2026}"@);
        r
    } else {
        String::from_str(body)
    }
}

/// The message for an unsuccessful answer of the Hub, from the status as
/// displayed (`404 Not Found`) and the answer's body.
pub fn hf_error_message(status: &str, body: &str) -> (r: String)
    ensures
        r@ == "HuggingFace returned HTTP "@ + status@ + ": "@ + spec_snippet(body@),
{
    let snippet = error_snippet(body);
    String::from_str("HuggingFace returned HTTP ").concat(status).concat(": ").concat(snippet.as_str())
}

/// What happened while streaming a download body, before each chunk.
pub enum StreamEvent {
    /// The user asked to cancel the download.
    CancelRequested,
    /// A chunk of this many bytes arrived.
    Chunk(u64),
    /// The body ended.
    End,
    /// Reading the body failed.
    Failed,
}

/// What to do next while streaming a download body.
pub enum StreamAction {
    /// Delete the partial file and fail with [`cancelled_message`].
    AbortCancelled,
    /// Delete the partial file and fail with the stream error.
    AbortFailed,
    /// Write the chunk and report this many bytes downloaded so far.
    Progress(u64),
    /// Flush the file: the download is complete with this many bytes.
    Finish(u64),
}

/// One step of streaming a download body that has `downloaded` bytes so far.
/// A cancel is checked before each chunk is read.
pub fn stream_step(downloaded: u64, event: StreamEvent) -> (r: StreamAction)
    requires
        event matches StreamEvent::Chunk(n) ==> downloaded + n <= u64::MAX,
    ensures
        r == (match event {
            StreamEvent::CancelRequested => StreamAction::AbortCancelled,
            StreamEvent::Chunk(n) => StreamAction::Progress((downloaded + n) as u64),
            StreamEvent::End => StreamAction::Finish(downloaded),
            StreamEvent::Failed => StreamAction::AbortFailed,
        }),
{
    match event {
        StreamEvent::CancelRequested => StreamAction::AbortCancelled,
        StreamEvent::Chunk(n) => StreamAction::Progress(downloaded + n),
        StreamEvent::End => StreamAction::Finish(downloaded),
        StreamEvent::Failed => StreamAction::AbortFailed,
    }
}

/// The error of a cancelled download.
pub fn cancelled_message() -> (r: String)
    ensures
        r@ == "Cancelled"@,
{
    String::from_str("Cancelled")
}

/// The message for a download refused with 401 or 403 outside gating.
pub fn access_denied_message(status: &str) -> (r: String)
    ensures
        r@ == "Access denied (HTTP "@ + status@ + "). Check your HuggingFace connection in Settings."@,
{
    String::from_str("Access denied (HTTP ").concat(status).concat(
        "). Check your HuggingFace connection in Settings.",
    )
}

/// The message for a download still rate-limited on its last attempt.
pub fn rate_limited_message() -> (r: String)
    ensures
        r@ == "Rate limited by HuggingFace after "@ + nat_decimal(MAX_DOWNLOAD_ATTEMPTS as nat) + " retries"@,
{
    let mut m = String::from_str("Rate limited by HuggingFace after ");
    append_decimal(&mut m, MAX_DOWNLOAD_ATTEMPTS as u64);
    m.concat(" retries")
}


proof fn lemma_gguf_raw_hits_have_files(raw: Seq<JsonValue>)
    ensures
        forall|i: int| 0 <= i < gguf_raw_hits(raw).len() ==> spec_has_gguf_files(#[trigger] gguf_raw_hits(raw)[i]),
    decreases raw.len(),
{
    if raw.len() > 0 {
        lemma_gguf_raw_hits_have_files(raw.drop_last());
        let a = gguf_raw_hits(raw.drop_last());
        if spec_has_gguf_files(raw.last()) {
            assert forall|i: int| 0 <= i < a.len() + 1 implies spec_has_gguf_files(#[trigger] a.push(raw.last())[i]) by {
                if i < a.len() {
                    assert(spec_has_gguf_files(a[i]));
                }
            }
        }
    }
}

/// With the GGUF filter on, every hit of a search page lists a `.gguf`
/// file.
pub proof fn law_gguf_only_hits_have_files(results: Seq<HfModelResult>, raw: Seq<JsonValue>)
    requires
        hits_match(results, gguf_raw_hits(raw)),
    ensures
        forall|i: int| 0 <= i < results.len() ==> (#[trigger] results[i]).has_gguf_files,
{
    lemma_gguf_raw_hits_have_files(raw);
    assert forall|i: int| 0 <= i < results.len() implies (#[trigger] results[i]).has_gguf_files by {
        assert(hit_matches(results[i], gguf_raw_hits(raw)[i]));
        assert(spec_has_gguf_files(gguf_raw_hits(raw)[i]));
    }
}

/// Bytes without a `%` are left as they are by percent-decoding.
pub proof fn law_percent_decode_plain(b: Seq<u8>)
    requires
        forall|i: int| 0 <= i < b.len() ==> b[i] != 37,
    ensures
        spec_percent_decode(b) == b,
    decreases b.len(),
{
    if b.len() > 0 {
        law_percent_decode_plain(b.drop_first());
        assert(seq![b[0]] + b.drop_first() =~= b);
    }
}

/// A cursor with no percent-escape comes back exactly as the `link` header
/// carries it (decoding is then a no-op).
pub proof fn law_plain_cursor_unchanged(link: Seq<char>, raw: Seq<char>, c: Seq<char>)
    requires
        spec_raw_cursor(link) == Some(raw),
        next_cursor_of(Some(link), Some(c)),
        forall|i: int| 0 <= i < encode_utf8(raw).len() ==> encode_utf8(raw)[i] != 37,
    ensures
        c == raw,
{
    broadcast use vstd::utf8::encode_utf8_decode_utf8, vstd::utf8::encode_utf8_valid_utf8;
    law_percent_decode_plain(encode_utf8(raw));
    assert(valid_utf8(encode_utf8(raw)));
}
} // verus!
