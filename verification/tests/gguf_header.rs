use omnilauncher::gguf::{
    get_int, get_string, parse_bytes, quantization_from_file_type, GgufError, GgufValue, TYPE_ARRAY, TYPE_STRING, TYPE_UINT32, TYPE_UINT64,
};

const MAGIC: [u8; 4] = [b'G', b'G', b'U', b'F'];

fn push_str_kv(buf: &mut Vec<u8>, k: &str, v: &str) {
    buf.extend_from_slice(&(k.len() as u64).to_le_bytes());
    buf.extend_from_slice(k.as_bytes());
    buf.extend_from_slice(&TYPE_STRING.to_le_bytes());
    buf.extend_from_slice(&(v.len() as u64).to_le_bytes());
    buf.extend_from_slice(v.as_bytes());
}

fn push_u32_kv(buf: &mut Vec<u8>, k: &str, v: u32) {
    buf.extend_from_slice(&(k.len() as u64).to_le_bytes());
    buf.extend_from_slice(k.as_bytes());
    buf.extend_from_slice(&TYPE_UINT32.to_le_bytes());
    buf.extend_from_slice(&v.to_le_bytes());
}

fn push_u64_kv(buf: &mut Vec<u8>, k: &str, v: u64) {
    buf.extend_from_slice(&(k.len() as u64).to_le_bytes());
    buf.extend_from_slice(k.as_bytes());
    buf.extend_from_slice(&TYPE_UINT64.to_le_bytes());
    buf.extend_from_slice(&v.to_le_bytes());
}

fn header(version: u32, kv_count: u64) -> Vec<u8> {
    let mut buf = Vec::new();
    buf.extend_from_slice(&MAGIC);
    buf.extend_from_slice(&version.to_le_bytes());
    buf.extend_from_slice(&0u64.to_le_bytes());
    buf.extend_from_slice(&kv_count.to_le_bytes());
    buf
}

fn build_test_gguf() -> Vec<u8> {
    let mut buf = header(3, 7);
    push_str_kv(&mut buf, "general.architecture", "llama");
    push_str_kv(&mut buf, "general.name", "Test Llama");
    push_str_kv(&mut buf, "general.author", "tester");
    push_u32_kv(&mut buf, "llama.context_length", 4096);
    push_u32_kv(&mut buf, "llama.block_count", 32);
    push_u32_kv(&mut buf, "general.file_type", 15);
    push_str_kv(&mut buf, "tokenizer.chat_template", "{{ messages }}");
    buf
}

#[test]
fn parses_minimal_valid_gguf_v3() {
    let bytes = build_test_gguf();
    let m = parse_bytes(&bytes).expect("parse should succeed");
    assert_eq!(m.architecture, "llama");
    assert_eq!(m.model_name, "Test Llama");
    assert_eq!(m.author.as_deref(), Some("tester"));
    assert_eq!(m.context_length, 4096);
    assert_eq!(m.layer_count, 32);
    assert_eq!(m.quantization, "Q4_K_M");
    assert_eq!(m.chat_template.as_deref(), Some("{{ messages }}"));
    assert_eq!(m.pooling_type, None, "chat model should have no pooling_type");
}

#[test]
fn rejects_bad_magic() {
    let mut bytes = build_test_gguf();
    bytes[0] = b'X';
    let err = parse_bytes(&bytes).unwrap_err();
    assert!(err.message().contains("bad magic"));
}

#[test]
fn rejects_unsupported_version() {
    let mut bytes = build_test_gguf();
    bytes[4..8].copy_from_slice(&99u32.to_le_bytes());
    let err = parse_bytes(&bytes).unwrap_err();
    assert!(err.message().contains("unsupported GGUF version"));
}

#[test]
fn quant_table_covers_common_types() {
    assert_eq!(quantization_from_file_type(0), "F32");
    assert_eq!(quantization_from_file_type(1), "F16");
    assert_eq!(quantization_from_file_type(7), "Q8_0");
    assert_eq!(quantization_from_file_type(15), "Q4_K_M");
    assert_eq!(quantization_from_file_type(14), "Q4_K_S");
    assert_eq!(quantization_from_file_type(18), "Q6_K");
    assert_eq!(quantization_from_file_type(32), "BF16");
    assert_eq!(quantization_from_file_type(9999), "unknown");
}

#[test]
fn handles_u64_context_length() {
    let mut buf = header(3, 4);
    push_str_kv(&mut buf, "general.architecture", "llama");
    push_str_kv(&mut buf, "general.name", "U64 Test");
    push_u64_kv(&mut buf, "llama.context_length", 8192);
    push_u64_kv(&mut buf, "llama.block_count", 32);
    let m = parse_bytes(&buf).expect("parse should succeed");
    assert_eq!(m.context_length, 8192);
    assert_eq!(m.layer_count, 32);
}

#[test]
fn falls_back_to_legacy_chat_template_key() {
    let mut buf = header(3, 5);
    push_str_kv(&mut buf, "general.architecture", "mistral");
    push_str_kv(&mut buf, "general.name", "Legacy Test");
    push_u32_kv(&mut buf, "mistral.context_length", 32768);
    push_u32_kv(&mut buf, "mistral.block_count", 32);
    push_str_kv(&mut buf, "mistral.chat_template", "legacy template");
    let m = parse_bytes(&buf).expect("parse should succeed");
    assert_eq!(m.chat_template.as_deref(), Some("legacy template"));
}

#[test]
fn embedding_model_has_pooling_type() {
    let mut buf = header(3, 6);
    push_str_kv(&mut buf, "general.architecture", "qwen3");
    push_str_kv(&mut buf, "general.name", "Qwen3 Embedding");
    push_u32_kv(&mut buf, "qwen3.context_length", 32768);
    push_u32_kv(&mut buf, "qwen3.block_count", 28);
    push_u32_kv(&mut buf, "qwen3.pooling_type", 1);
    push_u32_kv(&mut buf, "general.file_type", 1);
    let m = parse_bytes(&buf).expect("parse should succeed");
    assert_eq!(m.pooling_type.as_deref(), Some("mean"));
}

#[test]
fn file_type_1024_guessed_falls_back_to_unknown() {
    let mut buf = header(3, 5);
    push_str_kv(&mut buf, "general.architecture", "llama");
    push_str_kv(&mut buf, "general.name", "Guessed");
    push_u32_kv(&mut buf, "llama.context_length", 4096);
    push_u32_kv(&mut buf, "llama.block_count", 8);
    push_u32_kv(&mut buf, "general.file_type", 1024);
    let m = parse_bytes(&buf).expect("parse should succeed");
    assert_eq!(m.quantization, "unknown");
}

#[test]
fn truncated_header_is_unexpected_eof() {
    let bytes = build_test_gguf();
    let err = parse_bytes(&bytes[..30]).unwrap_err();
    assert!(matches!(err, GgufError::UnexpectedEof));
    assert_eq!(err.message(), "failed to fill whole buffer");
}

#[test]
fn bad_magic_message_lists_the_bytes() {
    let mut bytes = build_test_gguf();
    bytes[0] = b'X';
    let err = parse_bytes(&bytes).unwrap_err();
    assert!(matches!(err, GgufError::BadMagic(88, 71, 85, 70)));
    assert_eq!(err.message(), "not a GGUF file (bad magic: [88, 71, 85, 70])");
}

#[test]
fn unsupported_version_message_names_it() {
    let mut bytes = build_test_gguf();
    bytes[4..8].copy_from_slice(&99u32.to_le_bytes());
    let err = parse_bytes(&bytes).unwrap_err();
    assert!(matches!(err, GgufError::UnsupportedVersion(99)));
    assert_eq!(err.message(), "unsupported GGUF version: 99 (expected 1, 2, or 3)");
}

#[test]
fn absurd_kv_count_is_rejected() {
    let buf = header(3, 2_000_000);
    let err = parse_bytes(&buf).unwrap_err();
    assert!(matches!(err, GgufError::AbsurdKvCount(2_000_000)));
}

#[test]
fn missing_architecture_is_rejected() {
    let mut buf = header(3, 1);
    push_str_kv(&mut buf, "general.name", "No Arch");
    let err = parse_bytes(&buf).unwrap_err();
    assert!(matches!(err, GgufError::MissingArchitecture));
}

#[test]
fn unknown_value_type_is_rejected() {
    let mut buf = header(3, 1);
    let k = "general.architecture";
    buf.extend_from_slice(&(k.len() as u64).to_le_bytes());
    buf.extend_from_slice(k.as_bytes());
    buf.extend_from_slice(&77u32.to_le_bytes());
    let err = parse_bytes(&buf).unwrap_err();
    assert!(matches!(err, GgufError::UnknownValueType(77)));
}

#[test]
fn version_one_uses_narrow_counts() {
    let mut buf = Vec::new();
    buf.extend_from_slice(&MAGIC);
    buf.extend_from_slice(&1u32.to_le_bytes());
    buf.extend_from_slice(&0u32.to_le_bytes());
    buf.extend_from_slice(&2u32.to_le_bytes());
    for (k, v) in [("general.architecture", "llama"), ("general.name", "V1")] {
        buf.extend_from_slice(&(k.len() as u32).to_le_bytes());
        buf.extend_from_slice(k.as_bytes());
        buf.extend_from_slice(&TYPE_STRING.to_le_bytes());
        buf.extend_from_slice(&(v.len() as u32).to_le_bytes());
        buf.extend_from_slice(v.as_bytes());
    }
    let err = parse_bytes(&buf).unwrap_err();
    // The context length is required once the architecture is known.
    assert!(matches!(err, GgufError::MissingKey(_)));
}

#[test]
fn arrays_are_skipped_and_later_keys_still_read() {
    let mut buf = header(3, 5);
    push_str_kv(&mut buf, "general.architecture", "llama");
    let k = "tokenizer.ggml.scores";
    buf.extend_from_slice(&(k.len() as u64).to_le_bytes());
    buf.extend_from_slice(k.as_bytes());
    buf.extend_from_slice(&TYPE_ARRAY.to_le_bytes());
    buf.extend_from_slice(&TYPE_UINT32.to_le_bytes());
    buf.extend_from_slice(&3u64.to_le_bytes());
    for v in [1u32, 2, 3] {
        buf.extend_from_slice(&v.to_le_bytes());
    }
    push_str_kv(&mut buf, "general.name", "Arrays");
    push_u32_kv(&mut buf, "llama.context_length", 2048);
    push_u32_kv(&mut buf, "llama.block_count", 16);
    let m = parse_bytes(&buf).expect("parse should succeed");
    assert_eq!(m.model_name, "Arrays");
    assert_eq!(m.context_length, 2048);
    assert_eq!(m.layer_count, 16);
}

#[test]
fn later_duplicate_key_wins() {
    let mut buf = header(3, 5);
    push_str_kv(&mut buf, "general.architecture", "llama");
    push_str_kv(&mut buf, "general.name", "First");
    push_str_kv(&mut buf, "general.name", "Second");
    push_u32_kv(&mut buf, "llama.context_length", 4096);
    push_u32_kv(&mut buf, "llama.block_count", 32);
    let m = parse_bytes(&buf).expect("parse should succeed");
    assert_eq!(m.model_name, "Second");
}

#[test]
fn wrongly_typed_keys_name_the_value() {
    let kvs = vec![
        ("general.name".to_string(), GgufValue::U32(7)),
        ("general.file_type".to_string(), GgufValue::Str("q\"4".to_string())),
        ("general.author".to_string(), GgufValue::I64(-3)),
    ];
    let err = get_string(&kvs, &"general.name".to_string()).unwrap_err();
    assert_eq!(err.message(), "key general.name expected string, got U32(7)");
    let err = get_string(&kvs, &"general.author".to_string()).unwrap_err();
    assert_eq!(err.message(), "key general.author expected string, got I64(-3)");
    let err = get_int(&kvs, &"general.file_type".to_string()).unwrap_err();
    assert_eq!(err.message(), "key general.file_type expected integer, got String(\"q\\\"4\")");
    let err = GgufError::ExpectedString("k".to_string(), GgufValue::I32(-12));
    assert_eq!(err.message(), "key k expected string, got I32(-12)");
}
