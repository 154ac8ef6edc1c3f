//! GGUF (GPT-Generated Unified Format) header parser.
//!
//! Reads only the metadata the model registry needs: the parser stops after
//! the metadata key/value section and never looks at tensor info or tensor
//! data. GGUF v1, v2 and v3 are accepted (v1 uses 32-bit counts and string
//! lengths, v2/v3 use 64-bit ones); all integers are little-endian. Every
//! count and length is bounded so that corrupt or hostile headers are
//! rejected instead of exhausting memory.
//!
//! The accepted format is written down as the spec function
//! [`spec_parse_gguf`]; [`parse_bytes`] is proved to compute exactly it.

use vstd::prelude::*;
use vstd::slice::{slice_subrange, slice_to_vec};
use vstd::utf8::*;

use crate::text::{append_decimal, decode_utf8_string, i64_to_string, int_decimal, nat_decimal, u64_to_string};

verus! {

/// Upper bound on the number of metadata entries.
pub const MAX_KV_COUNT: u64 = 1048576;

/// Upper bound on the byte length of one string.
pub const MAX_STRING_LEN: u64 = 16777216;

/// Upper bound on the number of elements of one array value.
pub const MAX_ARRAY_LEN: u64 = 16777216;

// Metadata value type tags. ARRAY (9) comes before the 64-bit types.
pub const TYPE_UINT8: u32 = 0;
pub const TYPE_INT8: u32 = 1;
pub const TYPE_UINT16: u32 = 2;
pub const TYPE_INT16: u32 = 3;
pub const TYPE_UINT32: u32 = 4;
pub const TYPE_INT32: u32 = 5;
pub const TYPE_FLOAT32: u32 = 6;
pub const TYPE_BOOL: u32 = 7;
pub const TYPE_STRING: u32 = 8;
pub const TYPE_ARRAY: u32 = 9;
pub const TYPE_UINT64: u32 = 10;
pub const TYPE_INT64: u32 = 11;
pub const TYPE_FLOAT64: u32 = 12;

/// The parsed metadata, in the shape the registry stores.
#[derive(Debug, Clone, PartialEq, Eq)]
pub struct GgufMetadata {
    pub architecture: String,
    pub model_name: String,
    pub context_length: i64,
    pub layer_count: i64,
    pub quantization: String,
    pub chat_template: Option<String>,
    pub author: Option<String>,
    /// `{arch}.pooling_type`: present on embedding models, absent on chat models.
    pub pooling_type: Option<String>,
}

/// Mathematical model of [`GgufMetadata`].
pub struct GgufMetadataView {
    pub architecture: Seq<char>,
    pub model_name: Seq<char>,
    pub context_length: i64,
    pub layer_count: i64,
    pub quantization: Seq<char>,
    pub chat_template: Option<Seq<char>>,
    pub author: Option<Seq<char>>,
    pub pooling_type: Option<Seq<char>>,
}

impl View for GgufMetadata {
    type V = GgufMetadataView;

    open spec fn view(&self) -> GgufMetadataView {
        GgufMetadataView {
            architecture: self.architecture@,
            model_name: self.model_name@,
            context_length: self.context_length,
            layer_count: self.layer_count,
            quantization: self.quantization@,
            chat_template: self.chat_template.deep_view(),
            author: self.author.deep_view(),
            pooling_type: self.pooling_type.deep_view(),
        }
    }
}

/// A metadata value. Only the kinds the registry reads are kept; every other
/// value is walked past and recorded as `Other`.
#[derive(Debug, Clone)]
pub enum GgufValue {
    U32(u32),
    U64(u64),
    I32(i32),
    I64(i64),
    Str(String),
    Other,
}

/// Mathematical model of [`GgufValue`].
pub enum GgufValueView {
    U32(u32),
    U64(u64),
    I32(i32),
    I64(i64),
    Str(Seq<char>),
    Other,
}

impl View for GgufValue {
    type V = GgufValueView;

    open spec fn view(&self) -> GgufValueView {
        match self {
            GgufValue::U32(v) => GgufValueView::U32(*v),
            GgufValue::U64(v) => GgufValueView::U64(*v),
            GgufValue::I32(v) => GgufValueView::I32(*v),
            GgufValue::I64(v) => GgufValueView::I64(*v),
            GgufValue::Str(s) => GgufValueView::Str(s@),
            GgufValue::Other => GgufValueView::Other,
        }
    }
}

/// Why a header was rejected.
#[derive(Debug, Clone)]
pub enum GgufError {
    /// The input ended before a field could be read.
    UnexpectedEof,
    /// The first four bytes are not `GGUF`.
    BadMagic(u8, u8, u8, u8),
    UnsupportedVersion(u32),
    AbsurdKvCount(u64),
    AbsurdStringLength(u64),
    AbsurdArrayLength(u64),
    InvalidUtf8,
    UnknownValueType(u32),
    /// `general.architecture` is absent.
    MissingArchitecture,
    /// A required key (named) is absent.
    MissingKey(String),
    /// The named key holds a value (given) that is neither a string nor
    /// skipped.
    ExpectedString(String, GgufValue),
    /// The named key holds a value (given) that is neither an integer nor
    /// skipped.
    ExpectedInteger(String, GgufValue),
}

/// Mathematical model of [`GgufError`].
pub enum GgufErrorView {
    UnexpectedEof,
    BadMagic(u8, u8, u8, u8),
    UnsupportedVersion(u32),
    AbsurdKvCount(u64),
    AbsurdStringLength(u64),
    AbsurdArrayLength(u64),
    InvalidUtf8,
    UnknownValueType(u32),
    MissingArchitecture,
    MissingKey(Seq<char>),
    ExpectedString(Seq<char>, GgufValueView),
    ExpectedInteger(Seq<char>, GgufValueView),
}

impl View for GgufError {
    type V = GgufErrorView;

    open spec fn view(&self) -> GgufErrorView {
        match self {
            GgufError::UnexpectedEof => GgufErrorView::UnexpectedEof,
            GgufError::BadMagic(a, b, c, d) => GgufErrorView::BadMagic(*a, *b, *c, *d),
            GgufError::UnsupportedVersion(v) => GgufErrorView::UnsupportedVersion(*v),
            GgufError::AbsurdKvCount(v) => GgufErrorView::AbsurdKvCount(*v),
            GgufError::AbsurdStringLength(v) => GgufErrorView::AbsurdStringLength(*v),
            GgufError::AbsurdArrayLength(v) => GgufErrorView::AbsurdArrayLength(*v),
            GgufError::InvalidUtf8 => GgufErrorView::InvalidUtf8,
            GgufError::UnknownValueType(v) => GgufErrorView::UnknownValueType(*v),
            GgufError::MissingArchitecture => GgufErrorView::MissingArchitecture,
            GgufError::MissingKey(k) => GgufErrorView::MissingKey(k@),
            GgufError::ExpectedString(k, v) => GgufErrorView::ExpectedString(k@, v@),
            GgufError::ExpectedInteger(k, v) => GgufErrorView::ExpectedInteger(k@, v@),
        }
    }
}

// ───────────────────── The format, as spec functions ─────────────────────

/// Little-endian u32 at `p`.
pub open spec fn le_u32(b: Seq<u8>, p: int) -> u32 {
    (b[p] + b[p + 1] * 0x100 + b[p + 2] * 0x10000 + b[p + 3] * 0x1000000) as u32
}

/// Little-endian u64 at `p`.
pub open spec fn le_u64(b: Seq<u8>, p: int) -> u64 {
    (le_u32(b, p) + le_u32(b, p + 4) * 0x100000000) as u64
}

/// Skip `n` bytes at `p`; the new position.
pub open spec fn spec_skip(b: Seq<u8>, p: int, n: int) -> Result<int, GgufErrorView> {
    if p + n <= b.len() {
        Ok(p + n)
    } else {
        Err(GgufErrorView::UnexpectedEof)
    }
}

pub open spec fn spec_read_u32(b: Seq<u8>, p: int) -> Result<(u32, int), GgufErrorView> {
    if 0 <= p && p + 4 <= b.len() {
        Ok((le_u32(b, p), p + 4))
    } else {
        Err(GgufErrorView::UnexpectedEof)
    }
}

pub open spec fn spec_read_u64(b: Seq<u8>, p: int) -> Result<(u64, int), GgufErrorView> {
    if 0 <= p && p + 8 <= b.len() {
        Ok((le_u64(b, p), p + 8))
    } else {
        Err(GgufErrorView::UnexpectedEof)
    }
}

/// A count or length field: u64 in v2/v3 (`wide`), u32 in v1.
pub open spec fn spec_read_count(b: Seq<u8>, p: int, wide: bool) -> Result<(u64, int), GgufErrorView> {
    if wide {
        spec_read_u64(b, p)
    } else {
        match spec_read_u32(b, p) {
            Ok((v, q)) => Ok((v as u64, q)),
            Err(e) => Err(e),
        }
    }
}

/// A length-prefixed UTF-8 string.
pub open spec fn spec_read_string(b: Seq<u8>, p: int, wide: bool) -> Result<(Seq<char>, int), GgufErrorView> {
    match spec_read_count(b, p, wide) {
        Err(e) => Err(e),
        Ok((len, q)) => if len > MAX_STRING_LEN {
            Err(GgufErrorView::AbsurdStringLength(len))
        } else if q + len > b.len() {
            Err(GgufErrorView::UnexpectedEof)
        } else if !valid_utf8(b.subrange(q, q + len)) {
            Err(GgufErrorView::InvalidUtf8)
        } else {
            Ok((decode_utf8(b.subrange(q, q + len)), q + len))
        },
    }
}

/// One metadata value of type `vtype` at `p`, and the position after it.
pub open spec fn spec_read_value(b: Seq<u8>, p: int, vtype: u32, wide: bool) -> Result<(GgufValueView, int), GgufErrorView>
    decreases b.len() - p, 0int,
{
    if vtype == TYPE_UINT8 || vtype == TYPE_INT8 || vtype == TYPE_BOOL {
        match spec_skip(b, p, 1) { Ok(q) => Ok((GgufValueView::Other, q)), Err(e) => Err(e) }
    } else if vtype == TYPE_UINT16 || vtype == TYPE_INT16 {
        match spec_skip(b, p, 2) { Ok(q) => Ok((GgufValueView::Other, q)), Err(e) => Err(e) }
    } else if vtype == TYPE_FLOAT32 {
        match spec_skip(b, p, 4) { Ok(q) => Ok((GgufValueView::Other, q)), Err(e) => Err(e) }
    } else if vtype == TYPE_FLOAT64 {
        match spec_skip(b, p, 8) { Ok(q) => Ok((GgufValueView::Other, q)), Err(e) => Err(e) }
    } else if vtype == TYPE_UINT32 {
        match spec_read_u32(b, p) { Ok((v, q)) => Ok((GgufValueView::U32(v), q)), Err(e) => Err(e) }
    } else if vtype == TYPE_INT32 {
        match spec_read_u32(b, p) { Ok((v, q)) => Ok((GgufValueView::I32(v as i32), q)), Err(e) => Err(e) }
    } else if vtype == TYPE_UINT64 {
        match spec_read_u64(b, p) { Ok((v, q)) => Ok((GgufValueView::U64(v), q)), Err(e) => Err(e) }
    } else if vtype == TYPE_INT64 {
        match spec_read_u64(b, p) { Ok((v, q)) => Ok((GgufValueView::I64(v as i64), q)), Err(e) => Err(e) }
    } else if vtype == TYPE_STRING {
        match spec_read_string(b, p, wide) { Ok((s, q)) => Ok((GgufValueView::Str(s), q)), Err(e) => Err(e) }
    } else if vtype == TYPE_ARRAY {
        // u32 element type, count, then `count` elements of that type.
        match spec_read_u32(b, p) {
            Err(e) => Err(e),
            Ok((elem_type, p1)) => match spec_read_count(b, p1, wide) {
                Err(e) => Err(e),
                Ok((len, p2)) => if len > MAX_ARRAY_LEN {
                    Err(GgufErrorView::AbsurdArrayLength(len))
                } else {
                    match spec_skip_values(b, p2, elem_type, len as nat, wide) {
                        Ok(q) => Ok((GgufValueView::Other, q)),
                        Err(e) => Err(e),
                    }
                },
            },
        }
    } else {
        Err(GgufErrorView::UnknownValueType(vtype))
    }
}

/// `n` consecutive values of type `vtype` starting at `p`; the position after
/// the last one. (Every value occupies at least one byte, so the position
/// after a value is always past `p`; see `lemma_read_value_advances`. The
/// guard below only makes the definition's termination evident.)
pub open spec fn spec_skip_values(b: Seq<u8>, p: int, vtype: u32, n: nat, wide: bool) -> Result<int, GgufErrorView>
    decreases b.len() - p, n + 1,
{
    if n == 0 {
        Ok(p)
    } else {
        match spec_read_value(b, p, vtype, wide) {
            Err(e) => Err(e),
            Ok((_, q)) => if p <= q <= b.len() {
                spec_skip_values(b, q, vtype, (n - 1) as nat, wide)
            } else {
                Err(GgufErrorView::UnexpectedEof)
            },
        }
    }
}

/// The first `n` key/value entries starting at `p`, in file order.
pub open spec fn spec_read_kvs(b: Seq<u8>, p: int, n: nat, wide: bool) -> Result<(Seq<(Seq<char>, GgufValueView)>, int), GgufErrorView>
    decreases n,
{
    if n == 0 {
        Ok((seq![], p))
    } else {
        match spec_read_kvs(b, p, (n - 1) as nat, wide) {
            Err(e) => Err(e),
            Ok((kvs, p1)) => match spec_read_string(b, p1, wide) {
                Err(e) => Err(e),
                Ok((key, p2)) => match spec_read_u32(b, p2) {
                    Err(e) => Err(e),
                    Ok((vtype, p3)) => match spec_read_value(b, p3, vtype, wide) {
                        Err(e) => Err(e),
                        Ok((v, p4)) => Ok((kvs.push((key, v)), p4)),
                    },
                },
            },
        }
    }
}

/// The value stored under `key`; when a key occurs more than once the last
/// occurrence wins.
pub open spec fn spec_lookup(kvs: Seq<(Seq<char>, GgufValueView)>, key: Seq<char>) -> Option<GgufValueView>
    decreases kvs.len(),
{
    if kvs.len() == 0 {
        None
    } else if kvs.last().0 == key {
        Some(kvs.last().1)
    } else {
        spec_lookup(kvs.drop_last(), key)
    }
}

/// A string-valued key: absent or skipped values read as `None`; any other
/// kind of value is an error.
pub open spec fn spec_get_string(kvs: Seq<(Seq<char>, GgufValueView)>, key: Seq<char>) -> Result<Option<Seq<char>>, GgufErrorView> {
    match spec_lookup(kvs, key) {
        Some(GgufValueView::Str(s)) => Ok(Some(s)),
        Some(GgufValueView::Other) => Ok(None),
        Some(v) => Err(GgufErrorView::ExpectedString(key, v)),
        None => Ok(None),
    }
}

/// An integer-valued key (u32, u64, i32 or i64, coerced to i64 as a cast
/// does); absent or skipped values read as `None`; a string is an error.
pub open spec fn spec_get_int(kvs: Seq<(Seq<char>, GgufValueView)>, key: Seq<char>) -> Result<Option<i64>, GgufErrorView> {
    match spec_lookup(kvs, key) {
        Some(GgufValueView::U32(v)) => Ok(Some(v as i64)),
        Some(GgufValueView::U64(v)) => Ok(Some(v as i64)),
        Some(GgufValueView::I32(v)) => Ok(Some(v as i64)),
        Some(GgufValueView::I64(v)) => Ok(Some(v)),
        Some(GgufValueView::Other) => Ok(None),
        Some(GgufValueView::Str(s)) => Err(GgufErrorView::ExpectedInteger(key, GgufValueView::Str(s))),
        None => Ok(None),
    }
}

/// Name of a llama.cpp pooling-type enum value.
pub open spec fn spec_pooling_name(v: u32) -> Seq<char> {
    if v == 0 {
        "none"@
    } else if v == 1 {
        "mean"@
    } else if v == 2 {
        "cls"@
    } else if v == 3 {
        "last"@
    } else if v == 4 {
        "rank"@
    } else {
        "unknown"@
    }
}

/// `{arch}.pooling_type`: a u32 enum becomes its name, a string is kept as
/// it is, any other present value reads as `"unknown"`, absence is `None`.
pub open spec fn spec_pooling_type(kvs: Seq<(Seq<char>, GgufValueView)>, arch: Seq<char>) -> Option<Seq<char>> {
    match spec_lookup(kvs, arch + ".pooling_type"@) {
        Some(GgufValueView::U32(v)) => Some(spec_pooling_name(v)),
        Some(GgufValueView::Str(s)) => Some(s),
        Some(_) => Some("unknown"@),
        None => None,
    }
}

/// Readable name of a `general.file_type` (llama.cpp `llama_ftype`) value.
pub open spec fn spec_quantization(ft: u32) -> Seq<char> {
    if ft == 0 { "F32"@ }
    else if ft == 1 { "F16"@ }
    else if ft == 2 { "Q4_0"@ }
    else if ft == 3 { "Q4_1"@ }
    else if ft == 7 { "Q8_0"@ }
    else if ft == 8 { "Q5_0"@ }
    else if ft == 9 { "Q5_1"@ }
    else if ft == 10 { "Q2_K"@ }
    else if ft == 11 { "Q3_K_S"@ }
    else if ft == 12 { "Q3_K_M"@ }
    else if ft == 13 { "Q3_K_L"@ }
    else if ft == 14 { "Q4_K_S"@ }
    else if ft == 15 { "Q4_K_M"@ }
    else if ft == 16 { "Q5_K_S"@ }
    else if ft == 17 { "Q5_K_M"@ }
    else if ft == 18 { "Q6_K"@ }
    else if ft == 19 { "IQ2_XXS"@ }
    else if ft == 20 { "IQ2_XS"@ }
    else if ft == 21 { "IQ3_XS"@ }
    else if ft == 22 { "IQ3_XXS"@ }
    else if ft == 23 { "IQ1_S"@ }
    else if ft == 24 { "IQ4_NL"@ }
    else if ft == 25 { "IQ3_S"@ }
    else if ft == 26 { "IQ3_M"@ }
    else if ft == 27 { "IQ2_S"@ }
    else if ft == 28 { "IQ2_M"@ }
    else if ft == 29 { "IQ4_XS"@ }
    else if ft == 30 { "IQ1_M"@ }
    else if ft == 32 { "BF16"@ }
    else if ft == 36 { "TQ1_0"@ }
    else if ft == 37 { "TQ2_0"@ }
    else { "unknown"@ }
}

/// The registry fields taken from a metadata list. `general.architecture`,
/// `{arch}.context_length` and `{arch}.block_count` are required; the name
/// defaults to `"(unnamed)"`; the chat template comes from
/// `tokenizer.chat_template`, else from `{arch}.chat_template` (where a wrongly
/// typed legacy value reads as absent); quantization comes from
/// `general.file_type` (absent or 1024, "guessed", give `"unknown"`).
pub open spec fn spec_extract(kvs: Seq<(Seq<char>, GgufValueView)>) -> Result<GgufMetadataView, GgufErrorView> {
    match spec_get_string(kvs, "general.architecture"@) {
        Err(e) => Err(e),
        Ok(None) => Err(GgufErrorView::MissingArchitecture),
        Ok(Some(arch)) => {
            let ctx_key = arch + ".context_length"@;
            let blk_key = arch + ".block_count"@;
            match spec_get_int(kvs, ctx_key) {
                Err(e) => Err(e),
                Ok(None) => Err(GgufErrorView::MissingKey(ctx_key)),
                Ok(Some(context_length)) => match spec_get_int(kvs, blk_key) {
                    Err(e) => Err(e),
                    Ok(None) => Err(GgufErrorView::MissingKey(blk_key)),
                    Ok(Some(layer_count)) => match spec_get_string(kvs, "general.name"@) {
                        Err(e) => Err(e),
                        Ok(name) => match spec_get_string(kvs, "general.author"@) {
                            Err(e) => Err(e),
                            Ok(author) => match spec_get_string(kvs, "tokenizer.chat_template"@) {
                                Err(e) => Err(e),
                                Ok(tmpl) => match spec_get_int(kvs, "general.file_type"@) {
                                    Err(e) => Err(e),
                                    Ok(ft) => Ok(GgufMetadataView {
                                        architecture: arch,
                                        model_name: match name { Some(n) => n, None => "(unnamed)"@ },
                                        context_length,
                                        layer_count,
                                        quantization: match ft {
                                            None => "unknown"@,
                                            Some(v) => if v == 1024 { "unknown"@ } else { spec_quantization(v as u32) },
                                        },
                                        chat_template: match tmpl {
                                            Some(t) => Some(t),
                                            None => match spec_get_string(kvs, arch + ".chat_template"@) {
                                                Ok(t) => t,
                                                Err(_) => None,
                                            },
                                        },
                                        author,
                                        pooling_type: spec_pooling_type(kvs, arch),
                                    }),
                                },
                            },
                        },
                    },
                },
            }
        },
    }
}

/// The whole header: magic `GGUF`, version (1, 2 or 3), tensor count,
/// metadata count (at most `MAX_KV_COUNT`), the metadata entries, and from
/// them the registry fields. Nothing after the metadata is read.
pub open spec fn spec_parse_gguf(b: Seq<u8>) -> Result<GgufMetadataView, GgufErrorView> {
    if b.len() < 4 {
        Err(GgufErrorView::UnexpectedEof)
    } else if !(b[0] == 0x47 && b[1] == 0x47 && b[2] == 0x55 && b[3] == 0x46) {
        Err(GgufErrorView::BadMagic(b[0], b[1], b[2], b[3]))
    } else {
        match spec_read_u32(b, 4) {
            Err(e) => Err(e),
            Ok((version, p0)) => if !(version == 1 || version == 2 || version == 3) {
                Err(GgufErrorView::UnsupportedVersion(version))
            } else {
                let wide = version >= 2;
                match spec_read_count(b, p0, wide) {
                    Err(e) => Err(e),
                    Ok((_tensors, p1)) => match spec_read_count(b, p1, wide) {
                        Err(e) => Err(e),
                        Ok((kv_count, p2)) => if kv_count > MAX_KV_COUNT {
                            Err(GgufErrorView::AbsurdKvCount(kv_count))
                        } else {
                            match spec_read_kvs(b, p2, kv_count as nat, wide) {
                                Err(e) => Err(e),
                                Ok((kvs, _)) => spec_extract(kvs),
                            }
                        },
                    },
                }
            },
        }
    }
}

// ───────────────────── Lemmas ─────────────────────

/// A successfully read value ends strictly after where it started and
/// within the input; the same holds (non-strictly) for a run of values.
pub proof fn lemma_read_value_advances(b: Seq<u8>, p: int, vtype: u32, wide: bool)
    requires
        0 <= p,
    ensures
        spec_read_value(b, p, vtype, wide) matches Ok((_, q)) ==> p < q <= b.len(),
    decreases b.len() - p, 0int,
{
    if vtype == TYPE_ARRAY {
        if let Ok((elem_type, p1)) = spec_read_u32(b, p) {
            if let Ok((len, p2)) = spec_read_count(b, p1, wide) {
                if len <= MAX_ARRAY_LEN {
                    lemma_skip_values_advances(b, p2, elem_type, len as nat, wide);
                }
            }
        }
    }
}

pub proof fn lemma_skip_values_advances(b: Seq<u8>, p: int, vtype: u32, n: nat, wide: bool)
    requires
        0 <= p <= b.len(),
    ensures
        spec_skip_values(b, p, vtype, n, wide) matches Ok(q) ==> p <= q <= b.len(),
    decreases b.len() - p, n + 1,
{
    if n > 0 {
        lemma_read_value_advances(b, p, vtype, wide);
        if let Ok((_, q)) = spec_read_value(b, p, vtype, wide) {
            lemma_skip_values_advances(b, q, vtype, (n - 1) as nat, wide);
        }
    }
}

/// Bytes after the read position do not change a successful fixed-width read.
proof fn lemma_ints_ext(b: Seq<u8>, t: Seq<u8>, p: int, wide: bool)
    ensures
        spec_read_u32(b, p) is Ok ==> spec_read_u32(b + t, p) == spec_read_u32(b, p),
        spec_read_u64(b, p) is Ok ==> spec_read_u64(b + t, p) == spec_read_u64(b, p),
        spec_read_count(b, p, wide) is Ok ==> spec_read_count(b + t, p, wide) == spec_read_count(b, p, wide),
{
    let bt = b + t;
    if 0 <= p && p + 4 <= b.len() {
        assert(bt[p] == b[p] && bt[p + 1] == b[p + 1] && bt[p + 2] == b[p + 2] && bt[p + 3] == b[p + 3]);
        assert(le_u32(bt, p) == le_u32(b, p));
    }
    if 0 <= p && p + 8 <= b.len() {
        assert(bt[p] == b[p] && bt[p + 1] == b[p + 1] && bt[p + 2] == b[p + 2] && bt[p + 3] == b[p + 3]);
        assert(bt[p + 4] == b[p + 4] && bt[p + 5] == b[p + 5] && bt[p + 6] == b[p + 6] && bt[p + 7] == b[p + 7]);
        assert(le_u32(bt, p) == le_u32(b, p));
        assert(le_u32(bt, p + 4) == le_u32(b, p + 4));
        assert(le_u64(bt, p) == le_u64(b, p));
    }
}

proof fn lemma_string_ext(b: Seq<u8>, t: Seq<u8>, p: int, wide: bool)
    requires
        spec_read_string(b, p, wide) is Ok,
    ensures
        spec_read_string(b + t, p, wide) == spec_read_string(b, p, wide),
{
    lemma_ints_ext(b, t, p, wide);
    if let Ok((len, q)) = spec_read_count(b, p, wide) {
        if q + len <= b.len() {
            assert((b + t).subrange(q, q + len) =~= b.subrange(q, q + len));
        }
    }
}

proof fn lemma_value_ext(b: Seq<u8>, t: Seq<u8>, p: int, vtype: u32, wide: bool)
    requires
        0 <= p,
        spec_read_value(b, p, vtype, wide) is Ok,
    ensures
        spec_read_value(b + t, p, vtype, wide) == spec_read_value(b, p, vtype, wide),
    decreases b.len() - p, 0int,
{
    lemma_ints_ext(b, t, p, wide);
    if vtype == TYPE_STRING {
        lemma_string_ext(b, t, p, wide);
    } else if vtype == TYPE_ARRAY {
        if let Ok((elem_type, p1)) = spec_read_u32(b, p) {
            lemma_ints_ext(b, t, p1, wide);
            if let Ok((len, p2)) = spec_read_count(b, p1, wide) {
                if len <= MAX_ARRAY_LEN {
                    lemma_skip_values_ext(b, t, p2, elem_type, len as nat, wide);
                }
            }
        }
    }
}

proof fn lemma_skip_values_ext(b: Seq<u8>, t: Seq<u8>, p: int, vtype: u32, n: nat, wide: bool)
    requires
        0 <= p <= b.len(),
        spec_skip_values(b, p, vtype, n, wide) is Ok,
    ensures
        spec_skip_values(b + t, p, vtype, n, wide) == spec_skip_values(b, p, vtype, n, wide),
    decreases b.len() - p, n + 1,
{
    if n > 0 {
        if let Ok((_, q)) = spec_read_value(b, p, vtype, wide) {
            lemma_value_ext(b, t, p, vtype, wide);
            if p <= q <= b.len() {
                lemma_skip_values_ext(b, t, q, vtype, (n - 1) as nat, wide);
            }
        }
    }
}

proof fn lemma_kvs_ext(b: Seq<u8>, t: Seq<u8>, p: int, n: nat, wide: bool)
    requires
        0 <= p,
        spec_read_kvs(b, p, n, wide) is Ok,
    ensures
        spec_read_kvs(b + t, p, n, wide) == spec_read_kvs(b, p, n, wide),
    decreases n,
{
    if n > 0 {
        if spec_read_kvs(b, p, (n - 1) as nat, wide) is Err {
            lemma_kvs_error_persists(b, p, (n - 1) as nat, n, wide);
        }
        lemma_kvs_ext(b, t, p, (n - 1) as nat, wide);
        if let Ok((kvs, p1)) = spec_read_kvs(b, p, (n - 1) as nat, wide) {
            lemma_kvs_position(b, p, (n - 1) as nat, wide);
            lemma_string_ext(b, t, p1, wide);
            if let Ok((key, p2)) = spec_read_string(b, p1, wide) {
                lemma_ints_ext(b, t, p2, wide);
                if let Ok((vtype, p3)) = spec_read_u32(b, p2) {
                    lemma_value_ext(b, t, p3, vtype, wide);
                }
            }
        }
    }
}

/// A successful run of entries ends at a position at or after its start.
proof fn lemma_kvs_position(b: Seq<u8>, p: int, n: nat, wide: bool)
    requires
        0 <= p,
    ensures
        spec_read_kvs(b, p, n, wide) matches Ok((_, q)) ==> p <= q,
    decreases n,
{
    if n > 0 {
        lemma_kvs_position(b, p, (n - 1) as nat, wide);
        if let Ok((_, p1)) = spec_read_kvs(b, p, (n - 1) as nat, wide) {
            if let Ok((_, p2)) = spec_read_string(b, p1, wide) {
                if let Ok((vtype, p3)) = spec_read_u32(b, p2) {
                    lemma_read_value_advances(b, p3, vtype, wide);
                }
            }
        }
    }
}

/// Only the header is read: bytes after the metadata (tensor information
/// and tensor data) never change the result of a successful parse.
pub proof fn law_trailing_bytes_ignored(b: Seq<u8>, t: Seq<u8>)
    requires
        spec_parse_gguf(b) is Ok,
    ensures
        spec_parse_gguf(b + t) == spec_parse_gguf(b),
{
    let bt = b + t;
    assert(bt[0] == b[0] && bt[1] == b[1] && bt[2] == b[2] && bt[3] == b[3]);
    lemma_ints_ext(b, t, 4, true);
    if let Ok((version, p0)) = spec_read_u32(b, 4) {
        let wide = version >= 2;
        lemma_ints_ext(b, t, p0, wide);
        if let Ok((_tensors, p1)) = spec_read_count(b, p0, wide) {
            lemma_ints_ext(b, t, p1, wide);
            if let Ok((kv_count, p2)) = spec_read_count(b, p1, wide) {
                if kv_count <= MAX_KV_COUNT {
                    lemma_kvs_ext(b, t, p2, kv_count as nat, wide);
                }
            }
        }
    }
}

/// The `llama_ftype` values that have a name: 0 to 3, 7 to 30, 32, 36 and
/// 37 (4 to 6, 31 and 33 to 35 were removed from llama.cpp).
pub open spec fn is_named_ftype(ft: u32) -> bool {
    ft <= 3 || (7 <= ft && ft <= 30) || ft == 32 || ft == 36 || ft == 37
}

/// Every named `llama_ftype` value has its own quantization name, different
/// from every other value's and from `"unknown"`; every other value reads
/// as `"unknown"`. So no two quantizations are ever reported alike.
pub proof fn law_quantization_names_distinct(a: u32, b: u32)
    ensures
        is_named_ftype(a) && is_named_ftype(b) && a != b ==> spec_quantization(a) != spec_quantization(b),
        is_named_ftype(a) ==> spec_quantization(a) != "unknown"@,
        !is_named_ftype(a) ==> spec_quantization(a) == "unknown"@,
{
    let qa = spec_quantization(a);
    let qb = spec_quantization(b);
    let u = "unknown"@;
    reveal_strlit("F32");
    reveal_strlit("F16");
    reveal_strlit("Q4_0");
    reveal_strlit("Q4_1");
    reveal_strlit("Q8_0");
    reveal_strlit("Q5_0");
    reveal_strlit("Q5_1");
    reveal_strlit("Q2_K");
    reveal_strlit("Q3_K_S");
    reveal_strlit("Q3_K_M");
    reveal_strlit("Q3_K_L");
    reveal_strlit("Q4_K_S");
    reveal_strlit("Q4_K_M");
    reveal_strlit("Q5_K_S");
    reveal_strlit("Q5_K_M");
    reveal_strlit("Q6_K");
    reveal_strlit("IQ2_XXS");
    reveal_strlit("IQ2_XS");
    reveal_strlit("IQ3_XS");
    reveal_strlit("IQ3_XXS");
    reveal_strlit("IQ1_S");
    reveal_strlit("IQ4_NL");
    reveal_strlit("IQ3_S");
    reveal_strlit("IQ3_M");
    reveal_strlit("IQ2_S");
    reveal_strlit("IQ2_M");
    reveal_strlit("IQ4_XS");
    reveal_strlit("IQ1_M");
    reveal_strlit("BF16");
    reveal_strlit("TQ1_0");
    reveal_strlit("TQ2_0");
    reveal_strlit("unknown");
    if qa == qb {
        assert(qa.len() == qb.len() && qa[0] == qb[0] && qa[1] == qb[1] && qa[2] == qb[2] && qa[3] == qb[3]
            && qa[4] == qb[4] && qa[5] == qb[5] && qa[6] == qb[6]);
    }
    if qa == u {
        assert(qa.len() == u.len() && qa[0] == u[0] && qa[1] == u[1]);
    }
}

/// Metadata keys behave like a map filled in file order: an entry read
/// later replaces an earlier one with the same key and leaves other keys'
/// values as they were.
pub proof fn law_later_entry_wins(kvs: Seq<(Seq<char>, GgufValueView)>, key: Seq<char>, v: GgufValueView, other: Seq<char>)
    requires
        other != key,
    ensures
        spec_lookup(kvs.push((key, v)), key) == Some(v),
        spec_lookup(kvs.push((key, v)), other) == spec_lookup(kvs, other),
{
    assert(kvs.push((key, v)).drop_last() =~= kvs);
}

/// Once reading the first `i` entries fails, reading more fails the same way.
proof fn lemma_kvs_error_persists(b: Seq<u8>, p: int, i: nat, n: nat, wide: bool)
    requires
        i <= n,
        spec_read_kvs(b, p, i, wide) is Err,
    ensures
        spec_read_kvs(b, p, n, wide) == spec_read_kvs(b, p, i, wide),
    decreases n - i,
{
    if i < n {
        lemma_kvs_error_persists(b, p, i, (n - 1) as nat, wide);
    }
}

// ───────────────────── Readers ─────────────────────

/// Reads a little-endian u32 at `pos`.
pub fn read_u32(bytes: &[u8], pos: usize) -> (r: Result<(u32, usize), GgufError>)
    ensures
        match (r, spec_read_u32(bytes@, pos as int)) {
            (Ok((v, q)), Ok((sv, sq))) => v == sv && q == sq,
            (Err(e), Err(se)) => e@ == se,
            _ => false,
        },
{
    if pos > bytes.len() || bytes.len() - pos < 4 {
        return Err(GgufError::UnexpectedEof);
    }
    let v: u32 = bytes[pos] as u32 + (bytes[pos + 1] as u32) * 0x100 + (bytes[pos + 2] as u32) * 0x10000
        + (bytes[pos + 3] as u32) * 0x1000000;
    Ok((v, pos + 4))
}

/// Reads a little-endian u64 at `pos`.
pub fn read_u64(bytes: &[u8], pos: usize) -> (r: Result<(u64, usize), GgufError>)
    ensures
        match (r, spec_read_u64(bytes@, pos as int)) {
            (Ok((v, q)), Ok((sv, sq))) => v == sv && q == sq,
            (Err(e), Err(se)) => e@ == se,
            _ => false,
        },
{
    if pos > bytes.len() || bytes.len() - pos < 8 {
        return Err(GgufError::UnexpectedEof);
    }
    let lo = read_u32(bytes, pos);
    let hi = read_u32(bytes, pos + 4);
    match (lo, hi) {
        (Ok((l, _)), Ok((h, _))) => {
            let v: u64 = l as u64 + (h as u64) * 0x100000000;
            Ok((v, pos + 8))
        },
        _ => Err(GgufError::UnexpectedEof),
    }
}

/// Reads a count or length field: u64 when `wide`, else u32.
pub fn read_count(bytes: &[u8], pos: usize, wide: bool) -> (r: Result<(u64, usize), GgufError>)
    ensures
        match (r, spec_read_count(bytes@, pos as int, wide)) {
            (Ok((v, q)), Ok((sv, sq))) => v == sv && q == sq,
            (Err(e), Err(se)) => e@ == se,
            _ => false,
        },
{
    if wide {
        read_u64(bytes, pos)
    } else {
        match read_u32(bytes, pos) {
            Ok((v, q)) => Ok((v as u64, q)),
            Err(e) => Err(e),
        }
    }
}

/// Reads a length-prefixed UTF-8 string.
pub fn read_gguf_string(bytes: &[u8], pos: usize, wide: bool) -> (r: Result<(String, usize), GgufError>)
    ensures
        match (r, spec_read_string(bytes@, pos as int, wide)) {
            (Ok((v, q)), Ok((sv, sq))) => v@ == sv && q == sq,
            (Err(e), Err(se)) => e@ == se,
            _ => false,
        },
{
    let (len, q) = match read_count(bytes, pos, wide) {
        Ok(x) => x,
        Err(e) => return Err(e),
    };
    if len > MAX_STRING_LEN {
        return Err(GgufError::AbsurdStringLength(len));
    }
    if q > bytes.len() || (bytes.len() - q) < len as usize {
        return Err(GgufError::UnexpectedEof);
    }
    let end = q + len as usize;
    let raw = slice_to_vec(slice_subrange(bytes, q, end));
    match decode_utf8_string(raw) {
        Some(s) => Ok((s, end)),
        None => Err(GgufError::InvalidUtf8),
    }
}

fn skip_bytes(bytes: &[u8], pos: usize, n: usize) -> (r: Result<(GgufValue, usize), GgufError>)
    ensures
        match (r, spec_skip(bytes@, pos as int, n as int)) {
            (Ok((v, q)), Ok(sq)) => v@ == GgufValueView::Other && q == sq,
            (Err(e), Err(se)) => e@ == se,
            _ => false,
        },
{
    if pos > bytes.len() || bytes.len() - pos < n {
        Err(GgufError::UnexpectedEof)
    } else {
        Ok((GgufValue::Other, pos + n))
    }
}

/// Reads one metadata value of type `vtype`, advancing past it.
pub fn read_value(bytes: &[u8], pos: usize, vtype: u32, wide: bool) -> (r: Result<(GgufValue, usize), GgufError>)
    ensures
        match (r, spec_read_value(bytes@, pos as int, vtype, wide)) {
            (Ok((v, q)), Ok((sv, sq))) => v@ == sv && q == sq,
            (Err(e), Err(se)) => e@ == se,
            _ => false,
        },
    decreases bytes@.len() - pos, 0int,
{
    if vtype == TYPE_UINT8 || vtype == TYPE_INT8 || vtype == TYPE_BOOL {
        skip_bytes(bytes, pos, 1)
    } else if vtype == TYPE_UINT16 || vtype == TYPE_INT16 {
        skip_bytes(bytes, pos, 2)
    } else if vtype == TYPE_FLOAT32 {
        skip_bytes(bytes, pos, 4)
    } else if vtype == TYPE_FLOAT64 {
        skip_bytes(bytes, pos, 8)
    } else if vtype == TYPE_UINT32 {
        match read_u32(bytes, pos) { Ok((v, q)) => Ok((GgufValue::U32(v), q)), Err(e) => Err(e) }
    } else if vtype == TYPE_INT32 {
        match read_u32(bytes, pos) { Ok((v, q)) => Ok((GgufValue::I32(v as i32), q)), Err(e) => Err(e) }
    } else if vtype == TYPE_UINT64 {
        match read_u64(bytes, pos) { Ok((v, q)) => Ok((GgufValue::U64(v), q)), Err(e) => Err(e) }
    } else if vtype == TYPE_INT64 {
        match read_u64(bytes, pos) { Ok((v, q)) => Ok((GgufValue::I64(v as i64), q)), Err(e) => Err(e) }
    } else if vtype == TYPE_STRING {
        match read_gguf_string(bytes, pos, wide) { Ok((s, q)) => Ok((GgufValue::Str(s), q)), Err(e) => Err(e) }
    } else if vtype == TYPE_ARRAY {
        let (elem_type, p1) = match read_u32(bytes, pos) {
            Ok(x) => x,
            Err(e) => return Err(e),
        };
        let (len, p2) = match read_count(bytes, p1, wide) {
            Ok(x) => x,
            Err(e) => return Err(e),
        };
        if len > MAX_ARRAY_LEN {
            return Err(GgufError::AbsurdArrayLength(len));
        }
        match skip_values(bytes, p2, elem_type, len, wide) {
            Ok(q) => Ok((GgufValue::Other, q)),
            Err(e) => Err(e),
        }
    } else {
        Err(GgufError::UnknownValueType(vtype))
    }
}

/// Walks past `count` values of type `vtype`.
fn skip_values(bytes: &[u8], pos: usize, vtype: u32, count: u64, wide: bool) -> (r: Result<usize, GgufError>)
    requires
        pos <= bytes@.len(),
    ensures
        match (r, spec_skip_values(bytes@, pos as int, vtype, count as nat, wide)) {
            (Ok(q), Ok(sq)) => q == sq,
            (Err(e), Err(se)) => e@ == se,
            _ => false,
        },
    decreases bytes@.len() - pos, 1int,
{
    let mut p = pos;
    let mut remaining = count;
    while remaining > 0
        invariant
            pos <= p <= bytes@.len(),
            spec_skip_values(bytes@, pos as int, vtype, count as nat, wide)
                == spec_skip_values(bytes@, p as int, vtype, remaining as nat, wide),
        decreases remaining,
    {
        proof {
            lemma_read_value_advances(bytes@, p as int, vtype, wide);
        }
        match read_value(bytes, p, vtype, wide) {
            Ok((_, q)) => {
                p = q;
                remaining = remaining - 1;
            },
            Err(e) => {
                return Err(e);
            },
        }
    }
    Ok(p)
}

// ───────────────────── Key/value accessors ─────────────────────

/// Mathematical model of a metadata list.
pub open spec fn kvs_view(kvs: Seq<(String, GgufValue)>) -> Seq<(Seq<char>, GgufValueView)> {
    kvs.map_values(|kv: (String, GgufValue)| (kv.0@, kv.1@))
}

/// The value stored under `key`, the last occurrence winning.
pub fn lookup<'a>(kvs: &'a Vec<(String, GgufValue)>, key: &String) -> (r: Option<&'a GgufValue>)
    ensures
        match (r, spec_lookup(kvs_view(kvs@), key@)) {
            (Some(v), Some(sv)) => v@ == sv,
            (None, None) => true,
            _ => false,
        },
{
    let ghost full = kvs_view(kvs@);
    let mut i = kvs.len();
    assert(full.subrange(0, i as int) =~= full);
    while i > 0
        invariant
            i <= kvs@.len(),
            full == kvs_view(kvs@),
            spec_lookup(full, key@) == spec_lookup(full.subrange(0, i as int), key@),
        decreases i,
    {
        let ghost pre = full.subrange(0, i as int);
        assert(pre.drop_last() == full.subrange(0, i - 1));
        if kvs[i - 1].0 == *key {
            return Some(&kvs[i - 1].1);
        }
        i = i - 1;
    }
    assert(full.subrange(0, 0).len() == 0);
    None
}

/// A string-valued key (see [`spec_get_string`]).
pub fn get_string(kvs: &Vec<(String, GgufValue)>, key: &String) -> (r: Result<Option<String>, GgufError>)
    ensures
        match (r, spec_get_string(kvs_view(kvs@), key@)) {
            (Ok(v), Ok(sv)) => v.deep_view() == sv,
            (Err(e), Err(se)) => e@ == se,
            _ => false,
        },
{
    match lookup(kvs, key) {
        Some(GgufValue::Str(s)) => Ok(Some(s.clone())),
        Some(GgufValue::Other) => Ok(None),
        Some(v) => Err(GgufError::ExpectedString(key.clone(), clone_value(v))),
        None => Ok(None),
    }
}

/// An integer-valued key (see [`spec_get_int`]).
pub fn get_int(kvs: &Vec<(String, GgufValue)>, key: &String) -> (r: Result<Option<i64>, GgufError>)
    ensures
        match (r, spec_get_int(kvs_view(kvs@), key@)) {
            (Ok(v), Ok(sv)) => v == sv,
            (Err(e), Err(se)) => e@ == se,
            _ => false,
        },
{
    match lookup(kvs, key) {
        Some(GgufValue::U32(v)) => Ok(Some(*v as i64)),
        Some(GgufValue::U64(v)) => Ok(Some(*v as i64)),
        Some(GgufValue::I32(v)) => Ok(Some(*v as i64)),
        Some(GgufValue::I64(v)) => Ok(Some(*v)),
        Some(GgufValue::Other) => Ok(None),
        Some(GgufValue::Str(s)) => Err(GgufError::ExpectedInteger(key.clone(), GgufValue::Str(s.clone()))),
        None => Ok(None),
    }
}


/// Name of a llama.cpp pooling-type enum value (see [`spec_pooling_name`]).
fn pooling_name(v: u32) -> (r: String)
    ensures
        r@ == spec_pooling_name(v),
{
    if v == 0 {
        String::from_str("none")
    } else if v == 1 {
        String::from_str("mean")
    } else if v == 2 {
        String::from_str("cls")
    } else if v == 3 {
        String::from_str("last")
    } else if v == 4 {
        String::from_str("rank")
    } else {
        String::from_str("unknown")
    }
}

/// Reads `{arch}.pooling_type` and normalizes it to a name (see
/// [`spec_pooling_type`]). Never fails.
pub fn get_pooling_type(kvs: &Vec<(String, GgufValue)>, arch: &String) -> (r: Option<String>)
    ensures
        r.deep_view() == spec_pooling_type(kvs_view(kvs@), arch@),
{
    let key = arch.clone().concat(".pooling_type");
    match lookup(kvs, &key) {
        Some(GgufValue::U32(v)) => Some(pooling_name(*v)),
        Some(GgufValue::Str(s)) => Some(s.clone()),
        Some(_) => Some(String::from_str("unknown")),
        None => None,
    }
}

/// Maps a `general.file_type` value (llama.cpp's `llama_ftype`) to a readable
/// quantization name; values outside the table give `"unknown"`.
pub fn quantization_from_file_type(ft: u32) -> (r: String)
    ensures
        r@ == spec_quantization(ft),
{
    let name: &str = if ft == 0 { "F32" }
    else if ft == 1 { "F16" }
    else if ft == 2 { "Q4_0" }
    else if ft == 3 { "Q4_1" }
    else if ft == 7 { "Q8_0" }
    else if ft == 8 { "Q5_0" }
    else if ft == 9 { "Q5_1" }
    else if ft == 10 { "Q2_K" }
    else if ft == 11 { "Q3_K_S" }
    else if ft == 12 { "Q3_K_M" }
    else if ft == 13 { "Q3_K_L" }
    else if ft == 14 { "Q4_K_S" }
    else if ft == 15 { "Q4_K_M" }
    else if ft == 16 { "Q5_K_S" }
    else if ft == 17 { "Q5_K_M" }
    else if ft == 18 { "Q6_K" }
    else if ft == 19 { "IQ2_XXS" }
    else if ft == 20 { "IQ2_XS" }
    else if ft == 21 { "IQ3_XS" }
    else if ft == 22 { "IQ3_XXS" }
    else if ft == 23 { "IQ1_S" }
    else if ft == 24 { "IQ4_NL" }
    else if ft == 25 { "IQ3_S" }
    else if ft == 26 { "IQ3_M" }
    else if ft == 27 { "IQ2_S" }
    else if ft == 28 { "IQ2_M" }
    else if ft == 29 { "IQ4_XS" }
    else if ft == 30 { "IQ1_M" }
    else if ft == 32 { "BF16" }
    else if ft == 36 { "TQ1_0" }
    else if ft == 37 { "TQ2_0" }
    else { "unknown" };
    String::from_str(name)
}

/// Extracts the registry fields from a metadata list (see [`spec_extract`]).
pub fn extract_metadata(kvs: &Vec<(String, GgufValue)>) -> (r: Result<GgufMetadata, GgufError>)
    ensures
        match (r, spec_extract(kvs_view(kvs@))) {
            (Ok(m), Ok(sm)) => m@ == sm,
            (Err(e), Err(se)) => e@ == se,
            _ => false,
        },
{
    let architecture = match get_string(kvs, &String::from_str("general.architecture")) {
        Err(e) => return Err(e),
        Ok(None) => return Err(GgufError::MissingArchitecture),
        Ok(Some(a)) => a,
    };
    let ctx_key = architecture.clone().concat(".context_length");
    let blk_key = architecture.clone().concat(".block_count");
    let context_length = match get_int(kvs, &ctx_key) {
        Err(e) => return Err(e),
        Ok(None) => return Err(GgufError::MissingKey(ctx_key)),
        Ok(Some(v)) => v,
    };
    let layer_count = match get_int(kvs, &blk_key) {
        Err(e) => return Err(e),
        Ok(None) => return Err(GgufError::MissingKey(blk_key)),
        Ok(Some(v)) => v,
    };
    let model_name = match get_string(kvs, &String::from_str("general.name")) {
        Err(e) => return Err(e),
        Ok(Some(n)) => n,
        Ok(None) => String::from_str("(unnamed)"),
    };
    let author = match get_string(kvs, &String::from_str("general.author")) {
        Err(e) => return Err(e),
        Ok(a) => a,
    };
    let template = match get_string(kvs, &String::from_str("tokenizer.chat_template")) {
        Err(e) => return Err(e),
        Ok(t) => t,
    };
    let file_type = match get_int(kvs, &String::from_str("general.file_type")) {
        Err(e) => return Err(e),
        Ok(ft) => ft,
    };
    let chat_template = match template {
        Some(t) => Some(t),
        None => match get_string(kvs, &architecture.clone().concat(".chat_template")) {
            Ok(t) => t,
            Err(_) => None,
        },
    };
    let quantization = match file_type {
        None => String::from_str("unknown"),
        Some(ft) => if ft == 1024 {
            String::from_str("unknown")
        } else {
            quantization_from_file_type(ft as u32)
        },
    };
    let pooling_type = get_pooling_type(kvs, &architecture);
    Ok(GgufMetadata {
        architecture,
        model_name,
        context_length,
        layer_count,
        quantization,
        chat_template,
        author,
        pooling_type,
    })
}

/// Reads `count` key/value entries starting at `pos`.
fn read_kvs(bytes: &[u8], pos: usize, count: u64, wide: bool) -> (r: Result<Vec<(String, GgufValue)>, GgufError>)
    ensures
        match (r, spec_read_kvs(bytes@, pos as int, count as nat, wide)) {
            (Ok(kvs), Ok((skvs, _))) => kvs_view(kvs@) == skvs,
            (Err(e), Err(se)) => e@ == se,
            _ => false,
        },
{
    let mut kvs: Vec<(String, GgufValue)> = Vec::new();
    let mut p = pos;
    let mut i: u64 = 0;
    assert(kvs_view(kvs@) =~= Seq::<(Seq<char>, GgufValueView)>::empty());
    while i < count
        invariant
            i <= count,
            spec_read_kvs(bytes@, pos as int, i as nat, wide) == Ok::<_, GgufErrorView>((kvs_view(kvs@), p as int)),
        decreases count - i,
    {
        let ghost before = kvs_view(kvs@);
        let step = match read_gguf_string(bytes, p, wide) {
            Err(e) => Err(e),
            Ok((key, p2)) => match read_u32(bytes, p2) {
                Err(e) => Err(e),
                Ok((vtype, p3)) => match read_value(bytes, p3, vtype, wide) {
                    Err(e) => Err(e),
                    Ok((v, p4)) => Ok((key, v, p4)),
                },
            },
        };
        match step {
            Err(e) => {
                proof {
                    lemma_kvs_error_persists(bytes@, pos as int, (i + 1) as nat, count as nat, wide);
                }
                return Err(e);
            },
            Ok((key, v, p4)) => {
                kvs.push((key, v));
                p = p4;
                i = i + 1;
                assert(kvs_view(kvs@) =~= before.push((key@, v@)));
            },
        }
    }
    Ok(kvs)
}

/// Parses a GGUF header held in memory and returns the registry fields
/// (see [`spec_parse_gguf`]).
pub fn parse_bytes(bytes: &[u8]) -> (r: Result<GgufMetadata, GgufError>)
    ensures
        match (r, spec_parse_gguf(bytes@)) {
            (Ok(m), Ok(sm)) => m@ == sm,
            (Err(e), Err(se)) => e@ == se,
            _ => false,
        },
{
    if bytes.len() < 4 {
        return Err(GgufError::UnexpectedEof);
    }
    if !(bytes[0] == 0x47 && bytes[1] == 0x47 && bytes[2] == 0x55 && bytes[3] == 0x46) {
        return Err(GgufError::BadMagic(bytes[0], bytes[1], bytes[2], bytes[3]));
    }
    let (version, p0) = match read_u32(bytes, 4) {
        Ok(x) => x,
        Err(e) => return Err(e),
    };
    if !(version == 1 || version == 2 || version == 3) {
        return Err(GgufError::UnsupportedVersion(version));
    }
    let wide = version >= 2;
    let (_tensors, p1) = match read_count(bytes, p0, wide) {
        Ok(x) => x,
        Err(e) => return Err(e),
    };
    let (kv_count, p2) = match read_count(bytes, p1, wide) {
        Ok(x) => x,
        Err(e) => return Err(e),
    };
    if kv_count > MAX_KV_COUNT {
        return Err(GgufError::AbsurdKvCount(kv_count));
    }
    let kvs = match read_kvs(bytes, p2, kv_count, wide) {
        Ok(k) => k,
        Err(e) => return Err(e),
    };
    extract_metadata(&kvs)
}

/// The debug rendering of a string (`{:?}` on `str`): quoted, with special
/// characters escaped.
pub uninterp spec fn str_debug(s: Seq<char>) -> Seq<char>;

/// `format!("{:?}", s)` on a string.
#[verifier::external_body]
fn debug_str(s: &str) -> (r: String)
    ensures
        r@ == str_debug(s@),
{
    format!("{:?}", s)
}

/// How a value is shown in an error message: the variant's name with its
/// content in brackets, as a derived `Debug` writes it (a string value under
/// the name `String`).
pub open spec fn value_debug(v: GgufValueView) -> Seq<char> {
    match v {
        GgufValueView::U32(n) => "U32("@ + nat_decimal(n as nat) + ")"@,
        GgufValueView::U64(n) => "U64("@ + nat_decimal(n as nat) + ")"@,
        GgufValueView::I32(n) => "I32("@ + int_decimal(n as int) + ")"@,
        GgufValueView::I64(n) => "I64("@ + int_decimal(n as int) + ")"@,
        GgufValueView::Str(s) => "String("@ + str_debug(s) + ")"@,
        GgufValueView::Other => "Other"@,
    }
}

/// The text of [`value_debug`].
pub fn value_debug_text(v: &GgufValue) -> (r: String)
    ensures
        r@ == value_debug(v@),
{
    match v {
        GgufValue::U32(n) => String::from_str("U32(").concat(u64_to_string(*n as u64).as_str()).concat(")"),
        GgufValue::U64(n) => String::from_str("U64(").concat(u64_to_string(*n).as_str()).concat(")"),
        GgufValue::I32(n) => String::from_str("I32(").concat(i64_to_string(*n as i64).as_str()).concat(")"),
        GgufValue::I64(n) => String::from_str("I64(").concat(i64_to_string(*n).as_str()).concat(")"),
        GgufValue::Str(s) => String::from_str("String(").concat(debug_str(s.as_str()).as_str()).concat(")"),
        GgufValue::Other => String::from_str("Other"),
    }
}

/// A copy of a value.
pub fn clone_value(v: &GgufValue) -> (r: GgufValue)
    ensures
        r@ == v@,
{
    match v {
        GgufValue::U32(n) => GgufValue::U32(*n),
        GgufValue::U64(n) => GgufValue::U64(*n),
        GgufValue::I32(n) => GgufValue::I32(*n),
        GgufValue::I64(n) => GgufValue::I64(*n),
        GgufValue::Str(s) => GgufValue::Str(s.clone()),
        GgufValue::Other => GgufValue::Other,
    }
}

/// The human-readable text of an error.
pub open spec fn spec_error_message(e: GgufErrorView) -> Seq<char> {
    match e {
        GgufErrorView::UnexpectedEof => "failed to fill whole buffer"@,
        GgufErrorView::BadMagic(a, b, c, d) => "not a GGUF file (bad magic: ["@ + nat_decimal(a as nat) + ", "@
            + nat_decimal(b as nat) + ", "@ + nat_decimal(c as nat) + ", "@ + nat_decimal(d as nat) + "])"@,
        GgufErrorView::UnsupportedVersion(v) => "unsupported GGUF version: "@ + nat_decimal(v as nat)
            + " (expected 1, 2, or 3)"@,
        GgufErrorView::AbsurdKvCount(n) => "absurd metadata_kv_count: "@ + nat_decimal(n as nat),
        GgufErrorView::AbsurdStringLength(n) => "absurd string length: "@ + nat_decimal(n as nat),
        GgufErrorView::AbsurdArrayLength(n) => "absurd array length: "@ + nat_decimal(n as nat),
        GgufErrorView::InvalidUtf8 => "GGUF string was not valid UTF-8"@,
        GgufErrorView::UnknownValueType(t) => "unknown metadata value type: "@ + nat_decimal(t as nat),
        GgufErrorView::MissingArchitecture => "missing required key general.architecture"@,
        GgufErrorView::MissingKey(k) => "missing "@ + k,
        GgufErrorView::ExpectedString(k, v) => "key "@ + k + " expected string, got "@ + value_debug(v),
        GgufErrorView::ExpectedInteger(k, v) => "key "@ + k + " expected integer, got "@ + value_debug(v),
    }
}

impl GgufError {
    /// The human-readable text of this error (see [`spec_error_message`]).
    pub fn message(&self) -> (r: String)
        ensures
            r@ == spec_error_message(self@),
    {
        match self {
            GgufError::UnexpectedEof => String::from_str("failed to fill whole buffer"),
            GgufError::BadMagic(a, b, c, d) => {
                let mut s = String::from_str("not a GGUF file (bad magic: [");
                append_decimal(&mut s, *a as u64);
                s.append(", ");
                append_decimal(&mut s, *b as u64);
                s.append(", ");
                append_decimal(&mut s, *c as u64);
                s.append(", ");
                append_decimal(&mut s, *d as u64);
                s.append("])");
                proof {
                    assert(s@ =~= spec_error_message(self@));
                }
                s
            },
            GgufError::UnsupportedVersion(v) => {
                let mut s = String::from_str("unsupported GGUF version: ");
                append_decimal(&mut s, *v as u64);
                s.append(" (expected 1, 2, or 3)");
                s
            },
            GgufError::AbsurdKvCount(n) => {
                let mut s = String::from_str("absurd metadata_kv_count: ");
                append_decimal(&mut s, *n);
                s
            },
            GgufError::AbsurdStringLength(n) => {
                let mut s = String::from_str("absurd string length: ");
                append_decimal(&mut s, *n);
                s
            },
            GgufError::AbsurdArrayLength(n) => {
                let mut s = String::from_str("absurd array length: ");
                append_decimal(&mut s, *n);
                s
            },
            GgufError::InvalidUtf8 => String::from_str("GGUF string was not valid UTF-8"),
            GgufError::UnknownValueType(t) => {
                let mut s = String::from_str("unknown metadata value type: ");
                append_decimal(&mut s, *t as u64);
                s
            },
            GgufError::MissingArchitecture => String::from_str("missing required key general.architecture"),
            GgufError::MissingKey(k) => String::from_str("missing ").concat(k.as_str()),
            GgufError::ExpectedString(k, v) => {
                let s = String::from_str("key ").concat(k.as_str()).concat(" expected string, got ");
                let d = value_debug_text(v);
                s.concat(d.as_str())
            },
            GgufError::ExpectedInteger(k, v) => {
                let s = String::from_str("key ").concat(k.as_str()).concat(" expected integer, got ");
                let d = value_debug_text(v);
                s.concat(d.as_str())
            },
        }
    }
}
} // verus!
