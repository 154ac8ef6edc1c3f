use omnilauncher::huggingface::{
    cancelled_message, stream_step, StreamAction, StreamEvent,
    access_denied_message, download_step, error_snippet, extract_next_cursor, gated_error_message, head_outcome,
    hf_error_message, parse_gated, parse_gguf_meta, parse_model_result, parse_ratelimit_reset, parse_u64_text,
    rate_limited_message, readme_step, repo_listing, retain_gguf_hits, search_page, search_query_params, DownloadStep,
    Gated, HeadOutcome, ReadmeStep,
};
use omnilauncher::json::{JsonNumber, JsonValue};

fn s(v: &str) -> JsonValue {
    JsonValue::Str(v.to_string())
}

fn n(v: u64) -> JsonValue {
    JsonValue::Number(JsonNumber { as_u64: Some(v), text: v.to_string() })
}

fn obj(entries: Vec<(&str, JsonValue)>) -> JsonValue {
    JsonValue::Object(entries.into_iter().map(|(k, v)| (k.to_string(), v)).collect())
}

fn siblings(names: &[&str]) -> JsonValue {
    JsonValue::Array(names.iter().map(|f| obj(vec![("rfilename", s(f))])).collect())
}

#[test]
fn parses_minimal_search_hit() {
    let v = obj(vec![("id", s("user/model-gguf"))]);
    let m = parse_model_result(&v);
    assert_eq!(m.id, "user/model-gguf");
    assert_eq!(m.author.as_deref(), Some("user"));
    assert_eq!(m.gated, Gated::No);
    assert!(!m.has_gguf_files, "no siblings → has_gguf_files must be false");
}

#[test]
fn parses_full_search_hit_with_gated_string() {
    let v = obj(vec![
        ("id", s("meta-llama/Llama-3.2-1B")),
        ("author", s("meta-llama")),
        ("downloads", n(12345)),
        ("likes", n(67)),
        ("pipeline_tag", s("text-generation")),
        ("lastModified", s("2026-01-15T00:00:00.000Z")),
        ("trendingScore", n(194)),
        ("gated", s("manual")),
    ]);
    let m = parse_model_result(&v);
    assert_eq!(m.downloads, Some(12345));
    assert_eq!(m.gated, Gated::Manual);
    assert!(m.gated.is_gated());
    assert_eq!(m.trending_score.as_deref().map(|t| t.parse::<f64>().unwrap()), Some(194.0));
}

#[test]
fn detects_gguf_files_in_siblings() {
    let v = obj(vec![
        ("id", s("user/model-GGUF")),
        ("siblings", siblings(&["config.json", "model-Q4_K_M.gguf", "model-Q8_0.gguf"])),
    ]);
    let m = parse_model_result(&v);
    assert!(m.has_gguf_files, "siblings with .gguf files → must be true");
}

#[test]
fn detects_no_gguf_files_in_siblings() {
    let v = obj(vec![
        ("id", s("thinkingmachines/Inkling")),
        ("siblings", siblings(&["config.json", "model.safetensors", "tokenizer.json"])),
    ]);
    let m = parse_model_result(&v);
    assert!(!m.has_gguf_files, "no .gguf files → must be false (would be filtered out)");
}

#[test]
fn gated_false_bool_parses_as_no() {
    let v = obj(vec![("id", s("x")), ("gated", JsonValue::Bool(false))]);
    assert_eq!(parse_gated(v.get("gated")), Gated::No);
    assert!(!parse_gated(v.get("gated")).is_gated());
}

#[test]
fn gated_auto_parses_as_auto() {
    let v = obj(vec![("gated", s("auto"))]);
    assert_eq!(parse_gated(v.get("gated")), Gated::Auto);
    assert!(parse_gated(v.get("gated")).is_gated());
}

#[test]
fn extracts_cursor_from_link_header() {
    let link = "<https://huggingface.co/api/models?limit=30&cursor=eyJkb2xpbSI6dHJ1ZX0>; rel=\"next\"";
    assert_eq!(extract_next_cursor(Some(link)).as_deref(), Some("eyJkb2xpbSI6dHJ1ZX0"));
}

#[test]
fn extracts_and_decodes_percent_encoded_cursor() {
    let link = "<https://huggingface.co/api/models?limit=30&cursor=abc%2Bdef%2Fghi%3D>; rel=\"next\"";
    assert_eq!(extract_next_cursor(Some(link)).as_deref(), Some("abc+def/ghi="));
}

#[test]
fn no_next_link_returns_none() {
    assert_eq!(extract_next_cursor(Some("<https://x>; rel=\"prev\"")), None);
}

#[test]
fn missing_link_header_returns_none() {
    assert_eq!(extract_next_cursor(None), None);
}

#[test]
fn parses_ratelimit_reset_seconds() {
    assert_eq!(parse_ratelimit_reset(Some("\"resolvers\";r=2998;t=225")), Some(225));
}

#[test]
fn parses_gguf_meta_with_camelcase_keys() {
    let v = obj(vec![
        ("architecture", s("llama")),
        ("context_length", n(131072)),
        ("totalFileSize", n(43605014656)),
    ]);
    let m = parse_gguf_meta(Some(&v));
    assert_eq!(m.architecture.as_deref(), Some("llama"));
    assert_eq!(m.context_length, Some(131072));
    assert_eq!(m.total_file_size, Some(43605014656));
}

#[test]
fn gguf_meta_absent_returns_default() {
    let m = parse_gguf_meta(None);
    assert!(m.architecture.is_none());
    assert!(m.context_length.is_none());
}

#[test]
fn gguf_meta_falls_back_to_total() {
    let v = obj(vec![("total", n(1000))]);
    let m = parse_gguf_meta(Some(&v));
    assert_eq!(m.total_file_size, Some(1000));
    assert!(m.architecture.is_none());
}

#[test]
fn gated_true_bool_is_manual_and_other_values_unknown() {
    assert_eq!(parse_gated(Some(&JsonValue::Bool(true))), Gated::Manual);
    assert_eq!(parse_gated(Some(&s("false"))), Gated::No);
    assert_eq!(parse_gated(Some(&s("sometimes"))), Gated::Unknown);
    assert_eq!(parse_gated(Some(&JsonValue::Null)), Gated::Unknown);
    assert_eq!(parse_gated(None), Gated::No);
    assert!(Gated::Unknown.is_gated());
}

#[test]
fn cursor_without_cursor_parameter_is_none() {
    assert_eq!(extract_next_cursor(Some("<https://huggingface.co/api/models?limit=30>; rel=\"next\"")), None);
}

#[test]
fn cursor_runs_to_the_next_parameter() {
    let link = "<https://huggingface.co/api/models?cursor=abc&limit=30>; rel=\"next\"";
    assert_eq!(extract_next_cursor(Some(link)).as_deref(), Some("abc"));
}

#[test]
fn ratelimit_without_reset_or_digits_is_none() {
    assert_eq!(parse_ratelimit_reset(None), None);
    assert_eq!(parse_ratelimit_reset(Some("\"resolvers\";r=2998")), None);
    assert_eq!(parse_ratelimit_reset(Some("t=abc")), None);
    assert_eq!(parse_ratelimit_reset(Some("t=99999999999999999999999")), None);
}

#[test]
fn search_query_has_fixed_head_and_optional_tail() {
    let q = search_query_params("qwen", "likes", Some("text-generation"), true, Some("abc"));
    let pairs: Vec<(&str, &str)> = q.iter().map(|(k, v)| (k.as_str(), v.as_str())).collect();
    assert_eq!(
        pairs,
        vec![
            ("full", "true"),
            ("sort", "likes"),
            ("direction", "-1"),
            ("limit", "30"),
            ("search", "qwen"),
            ("pipeline_tag", "text-generation"),
            ("tags", "gguf"),
            ("cursor", "abc"),
        ]
    );
    let q = search_query_params("", "downloads", Some(""), false, Some(""));
    assert_eq!(q.len(), 4);
}

#[test]
fn search_page_filters_hits_without_gguf_files() {
    let raw = vec![
        obj(vec![("id", s("a/with")), ("siblings", siblings(&["m.gguf"]))]),
        obj(vec![("id", s("b/without")), ("siblings", siblings(&["m.safetensors"]))]),
        obj(vec![("id", s("c/with")), ("siblings", siblings(&["x.json", "y.gguf"]))]),
    ];
    let link = "<https://huggingface.co/api/models?cursor=next1>; rel=\"next\"";
    let page = search_page(&raw, true, Some(link));
    let ids: Vec<&str> = page.results.iter().map(|r| r.id.as_str()).collect();
    assert_eq!(ids, vec!["a/with", "c/with"]);
    assert_eq!(page.next_cursor.as_deref(), Some("next1"));
    let all = search_page(&raw, false, None);
    assert_eq!(all.results.len(), 3);
    assert!(all.next_cursor.is_none());
}

#[test]
fn retain_keeps_order_of_gguf_hits() {
    let hits = vec![
        parse_model_result(&obj(vec![("id", s("x/1")), ("siblings", siblings(&["a.gguf"]))])),
        parse_model_result(&obj(vec![("id", s("x/2"))])),
        parse_model_result(&obj(vec![("id", s("x/3")), ("siblings", siblings(&["b.gguf"]))])),
    ];
    let kept = retain_gguf_hits(hits);
    let ids: Vec<&str> = kept.iter().map(|r| r.id.as_str()).collect();
    assert_eq!(ids, vec!["x/1", "x/3"]);
}

#[test]
fn repo_listing_lists_gguf_files_and_meta() {
    let repo = obj(vec![
        ("siblings", siblings(&["README.md", "m-Q4.gguf", "m-Q8.gguf"])),
        ("gguf", obj(vec![("architecture", s("llama")), ("total", n(5))])),
    ]);
    let (files, meta) = repo_listing(&repo);
    let names: Vec<&str> = files.iter().map(|f| f.filename.as_str()).collect();
    assert_eq!(names, vec!["m-Q4.gguf", "m-Q8.gguf"]);
    assert!(files.iter().all(|f| f.size_bytes.is_none()));
    assert_eq!(meta.architecture.as_deref(), Some("llama"));
    assert_eq!(meta.total_file_size, Some(5));
}

#[test]
fn parse_u64_text_follows_str_parse() {
    assert_eq!(parse_u64_text("12345"), Some(12345));
    assert_eq!(parse_u64_text("+7"), Some(7));
    assert_eq!(parse_u64_text("+"), None);
    assert_eq!(parse_u64_text(""), None);
    assert_eq!(parse_u64_text("-1"), None);
    assert_eq!(parse_u64_text("12a"), None);
    assert_eq!(parse_u64_text("18446744073709551615"), Some(u64::MAX));
    assert_eq!(parse_u64_text("18446744073709551616"), None);
}

#[test]
fn head_outcome_prefers_linked_size() {
    assert!(matches!(head_outcome(302, Some("100"), Some("5")), HeadOutcome::Size(100)));
    assert!(matches!(head_outcome(200, None, Some("5")), HeadOutcome::Size(5)));
    assert!(matches!(head_outcome(302, Some("bad"), Some("5")), HeadOutcome::NoSize));
    assert!(matches!(head_outcome(200, None, None), HeadOutcome::NoSize));
    assert!(matches!(head_outcome(401, Some("100"), None), HeadOutcome::Gated));
    assert!(matches!(head_outcome(403, None, None), HeadOutcome::Gated));
    assert!(matches!(head_outcome(500, Some("100"), None), HeadOutcome::Failed));
}

#[test]
fn download_step_decisions() {
    assert!(matches!(download_step(401, 1, Some("GatedRepo"), None), DownloadStep::Gated));
    assert!(matches!(download_step(403, 1, None, None), DownloadStep::AccessDenied));
    assert!(matches!(download_step(429, 1, None, Some("t=12")), DownloadStep::RetryAfter(12)));
    assert!(matches!(download_step(429, 2, None, None), DownloadStep::RetryAfter(30)));
    assert!(matches!(download_step(429, 3, None, Some("t=12")), DownloadStep::GiveUp));
    assert!(matches!(download_step(200, 1, None, None), DownloadStep::Stream));
    assert!(matches!(download_step(404, 1, None, None), DownloadStep::Failed));
}

#[test]
fn readme_step_decisions() {
    assert!(matches!(readme_step(404), ReadmeStep::Empty));
    assert!(matches!(readme_step(401), ReadmeStep::Gated));
    assert!(matches!(readme_step(403), ReadmeStep::Gated));
    assert!(matches!(readme_step(200), ReadmeStep::Read));
    assert!(matches!(readme_step(500), ReadmeStep::Failed));
}

#[test]
fn error_messages() {
    assert_eq!(
        gated_error_message("org/model"),
        "This model is gated. Visit https://huggingface.co/org/model to request access, then reconnect your HuggingFace account."
    );
    assert_eq!(
        access_denied_message("401 Unauthorized"),
        "Access denied (HTTP 401 Unauthorized). Check your HuggingFace connection in Settings."
    );
    assert_eq!(rate_limited_message(), "Rate limited by HuggingFace after 3 retries");
    assert_eq!(hf_error_message("404 Not Found", "nope"), "HuggingFace returned HTTP 404 Not Found: nope");
}

#[test]
fn long_error_bodies_are_cut_at_200_bytes() {
    let body = "x".repeat(250);
    let snippet = error_snippet(&body);
    assert_eq!(snippet, format!("{}\u{2026}", "x".repeat(200)));
    assert_eq!(error_snippet("short"), "short");
    let exact = "y".repeat(200);
    assert_eq!(error_snippet(&exact), exact);
}

#[test]
fn long_error_bodies_are_cut_between_characters() {
    // 199 ASCII bytes, then a 2-byte character straddling byte 200.
    let body = format!("{}é{}", "a".repeat(199), "b".repeat(50));
    assert_eq!(error_snippet(&body), format!("{}\u{2026}", "a".repeat(199)));
    // A 4-byte character covering bytes 198..202 is dropped whole.
    let body = format!("{}\u{1F600}{}", "c".repeat(198), "d".repeat(10));
    assert_eq!(error_snippet(&body), format!("{}\u{2026}", "c".repeat(198)));
    let message = hf_error_message("500 Internal Server Error", &body);
    assert_eq!(message, format!("HuggingFace returned HTTP 500 Internal Server Error: {}\u{2026}", "c".repeat(198)));
}

#[test]
fn streaming_counts_bytes_and_stops_on_cancel() {
    assert!(matches!(stream_step(0, StreamEvent::Chunk(4096)), StreamAction::Progress(4096)));
    assert!(matches!(stream_step(4096, StreamEvent::Chunk(10)), StreamAction::Progress(4106)));
    assert!(matches!(stream_step(4106, StreamEvent::End), StreamAction::Finish(4106)));
    assert!(matches!(stream_step(4106, StreamEvent::CancelRequested), StreamAction::AbortCancelled));
    assert!(matches!(stream_step(7, StreamEvent::Failed), StreamAction::AbortFailed));
    assert_eq!(cancelled_message(), "Cancelled");
}
