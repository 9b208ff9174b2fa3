//! The quality gate for quantized (NOVAQ) model blobs: a verified parser for
//! the binary record layout, tiered pass/fail thresholds, and an advisory
//! quality score.
//!
//! Fractional quantities are carried as fixed-point integers:
//! `target_bits` in thousandths of a bit (1.5 bits is 1500), weights and
//! thresholds in parts per million, `compression_ratio` in hundredths
//! (383.3x is 38330), and `bit_accuracy` in ten-thousandths (0.95 is 9500).
//! The quality score is the exact rational
//! `(compression_ratio / 100 + bit_accuracy) / 2`, reported as a numerator
//! over [`QUALITY_SCORE_DENOM`].
//!
//! The record layout is little-endian and fixed-width: `target_bits` (u32),
//! `num_subspaces` (u64), the two codebook sizes (u64 each),
//! `outlier_threshold` (u32), an optional teacher-model path (one tag byte,
//! then a u64 length and that many bytes when present),
//! `refinement_iterations` (u64), `kl_weight`, `cosine_weight` and
//! `learning_rate` (u32 each), `seed` (u64), then the two measured metrics:
//! `compression_ratio` (u64) and `bit_accuracy` (u32). No trailing bytes are
//! allowed.

use vstd::prelude::*;

use crate::errors::AgentError;

verus! {

/// The quality score is `quality_score / QUALITY_SCORE_DENOM` as a real
/// quantity.
pub const QUALITY_SCORE_DENOM: u64 = 20000;

/// The quantization configuration section of a NOVAQ record.
#[derive(Debug, Clone)]
pub struct NOVAQConfig {
    /// Thousandths of a bit.
    pub target_bits: u32,
    pub num_subspaces: u64,
    pub codebook_size_l1: u64,
    pub codebook_size_l2: u64,
    /// Parts per million.
    pub outlier_threshold: u32,
    pub teacher_model_path: Option<Vec<u8>>,
    pub refinement_iterations: u64,
    /// Parts per million.
    pub kl_weight: u32,
    /// Parts per million.
    pub cosine_weight: u32,
    /// Parts per million.
    pub learning_rate: u32,
    pub seed: u64,
}

/// A parsed NOVAQ record: the configuration and the two measured metrics.
#[derive(Debug, Clone)]
pub struct NOVAQModelRecord {
    pub config: NOVAQConfig,
    /// Hundredths of the compression factor.
    pub compression_ratio: u64,
    /// Ten-thousandths of the bit accuracy.
    pub bit_accuracy: u32,
}

/// Extracted quantization metadata of a NOVAQ blob.
#[derive(Debug, Clone)]
pub struct NOVAQModelMeta {
    /// Thousandths of a bit.
    pub target_bits: u32,
    pub num_subspaces: u32,
    pub l1_codebook_size: u32,
    pub l2_codebook_size: u32,
    /// Hundredths of the compression factor.
    pub compression_ratio: u64,
    /// Ten-thousandths of the bit accuracy.
    pub bit_accuracy: u32,
    /// Numerator over [`QUALITY_SCORE_DENOM`].
    pub quality_score: u64,
}

/// The outcome of validating a NOVAQ blob. Validation issues are data, not
/// failures: a blob that parses always yields a result.
#[derive(Debug, Clone)]
pub struct NOVAQValidationResult {
    pub model_id: String,
    /// Hundredths of the compression factor.
    pub compression_ratio: u64,
    /// Ten-thousandths of the bit accuracy.
    pub bit_accuracy: u32,
    /// Numerator over [`QUALITY_SCORE_DENOM`].
    pub quality_score: u64,
    pub validation_passed: bool,
    pub issues: Vec<String>,
    pub validation_timestamp: u64,
}

/// The little-endian u32 at offset `i`.
pub open spec fn le_u32(data: Seq<u8>, i: int) -> u32
    recommends
        0 <= i,
        i + 4 <= data.len(),
{
    (data[i] + data[i + 1] * 0x100 + data[i + 2] * 0x10000 + data[i + 3] * 0x1000000) as u32
}

/// The little-endian u64 at offset `i`.
pub open spec fn le_u64(data: Seq<u8>, i: int) -> u64
    recommends
        0 <= i,
        i + 8 <= data.len(),
{
    (data[i] + data[i + 1] * 0x100 + data[i + 2] * 0x10000 + data[i + 3] * 0x1000000 + data[i + 4]
        * 0x100000000 + data[i + 5] * 0x10000000000 + data[i + 6] * 0x1000000000000 + data[i + 7]
        * 0x100000000000000) as u64
}

/// The length of the optional teacher-model path section, tag byte included,
/// when the record is well formed.
pub open spec fn novaq_path_section_len(data: Seq<u8>) -> int {
    if data[32] == 0 {
        1
    } else {
        9 + le_u64(data, 33)
    }
}

/// Whether `data` is a well-formed NOVAQ record: a valid tag byte and the
/// exact length its sections call for.
pub open spec fn novaq_well_formed(data: Seq<u8>) -> bool {
    &&& data.len() >= 33
    &&& (data[32] == 0 || data[32] == 1)
    &&& (data[32] == 1 ==> data.len() >= 41)
    &&& data.len() == 32 + novaq_path_section_len(data) + 40
}

/// The offset of the fixed-width tail that follows the optional path.
pub open spec fn novaq_tail_offset(data: Seq<u8>) -> int {
    32 + novaq_path_section_len(data)
}

/// What a well-formed record holds, field by field, except the path bytes.
pub open spec fn novaq_fields_ok(data: Seq<u8>, r: NOVAQModelRecord) -> bool {
    let t = novaq_tail_offset(data);
    &&& r.config.target_bits == le_u32(data, 0)
    &&& r.config.num_subspaces == le_u64(data, 4)
    &&& r.config.codebook_size_l1 == le_u64(data, 12)
    &&& r.config.codebook_size_l2 == le_u64(data, 20)
    &&& r.config.outlier_threshold == le_u32(data, 28)
    &&& (data[32] == 0 ==> r.config.teacher_model_path is None)
    &&& (data[32] == 1 ==> r.config.teacher_model_path is Some
        && r.config.teacher_model_path.unwrap()@ == data.subrange(41, 41 + le_u64(data, 33)))
    &&& r.config.refinement_iterations == le_u64(data, t)
    &&& r.config.kl_weight == le_u32(data, t + 8)
    &&& r.config.cosine_weight == le_u32(data, t + 12)
    &&& r.config.learning_rate == le_u32(data, t + 16)
    &&& r.config.seed == le_u64(data, t + 20)
    &&& r.compression_ratio == le_u64(data, t + 28)
    &&& r.bit_accuracy == le_u32(data, t + 36)
}

/// The minimum acceptable bit accuracy (in ten-thousandths) for a target bit
/// width (in thousandths of a bit).
pub open spec fn min_bit_accuracy(target_bits: u32) -> u32 {
    if target_bits <= 1000 {
        8500
    } else if target_bits <= 2000 {
        9000
    } else if target_bits <= 4000 {
        9500
    } else {
        9800
    }
}

/// Whether the compression ratio misses its hard floor of 2.0x.
pub open spec fn issue_low_compression(compression_ratio: u64) -> bool {
    compression_ratio < 200
}

/// Whether the bit accuracy misses the tier of the target bit width.
pub open spec fn issue_low_accuracy(target_bits: u32, bit_accuracy: u32) -> bool {
    bit_accuracy < min_bit_accuracy(target_bits)
}

/// The issue strings a configuration and its metrics give rise to, in order.
pub open spec fn issues_spec(c: NOVAQConfig, compression_ratio: u64, bit_accuracy: u32) -> Seq<
    Seq<char>,
> {
    (if issue_low_compression(compression_ratio) {
        seq!["Compression ratio below minimum threshold (2.0x)"@]
    } else {
        Seq::empty()
    }) + (if issue_low_accuracy(c.target_bits, bit_accuracy) {
        seq!["Bit accuracy below threshold for target bit width"@]
    } else {
        Seq::empty()
    }) + (if c.num_subspaces == 0 {
        seq!["Invalid number of subspaces (must be > 0)"@]
    } else {
        Seq::empty()
    }) + (if c.codebook_size_l1 == 0 || c.codebook_size_l2 == 0 {
        seq!["Invalid codebook sizes (must be > 0)"@]
    } else {
        Seq::empty()
    })
}

/// The quality score numerator over [`QUALITY_SCORE_DENOM`]: the exact value
/// of `(compression_ratio / 100 + bit_accuracy) / 2`, saturated at u64::MAX.
pub open spec fn quality_score_spec(compression_ratio: u64, bit_accuracy: u32) -> u64 {
    if compression_ratio + bit_accuracy <= u64::MAX {
        (compression_ratio + bit_accuracy) as u64
    } else {
        u64::MAX
    }
}

fn read_u32_le(data: &[u8], i: usize) -> (r: u32)
    requires
        i + 4 <= data@.len(),
    ensures
        r == le_u32(data@, i as int),
{
    (data[i] as u32) + (data[i + 1] as u32) * 0x100 + (data[i + 2] as u32) * 0x10000 + (data[i + 3]
        as u32) * 0x1000000
}

fn read_u64_le(data: &[u8], i: usize) -> (r: u64)
    requires
        i + 8 <= data@.len(),
    ensures
        r == le_u64(data@, i as int),
{
    (data[i] as u64) + (data[i + 1] as u64) * 0x100 + (data[i + 2] as u64) * 0x10000 + (data[i + 3]
        as u64) * 0x1000000 + (data[i + 4] as u64) * 0x100000000 + (data[i + 5] as u64)
        * 0x10000000000 + (data[i + 6] as u64) * 0x1000000000000 + (data[i + 7] as u64)
        * 0x100000000000000
}

/// The NOVAQ quality gate.
pub struct NOVAQValidationService;

impl NOVAQValidationService {
    /// Parses a NOVAQ record out of a binary blob. Succeeds exactly on
    /// well-formed records and returns every field as stored.
    pub fn parse_novaq_model(model_data: &[u8]) -> (r: Result<NOVAQModelRecord, AgentError>)
        ensures
            r is Ok <==> novaq_well_formed(model_data@),
            r is Ok ==> novaq_fields_ok(model_data@, r.unwrap()),
            r is Err ==> r->Err_0 == AgentError::ParseFailure,
    {
        let n = model_data.len();
        if n < 33 {
            return Err(AgentError::ParseFailure);
        }
        let tag = model_data[32];
        let (path, tail): (Option<Vec<u8>>, usize) = if tag == 0 {
            if n != 73 {
                return Err(AgentError::ParseFailure);
            }
            (None, 33)
        } else if tag == 1 {
            if n < 41 {
                return Err(AgentError::ParseFailure);
            }
            let plen = read_u64_le(model_data, 33);
            if plen > (n as u64) {
                return Err(AgentError::ParseFailure);
            }
            if (n as u128) != 81u128 + (plen as u128) {
                return Err(AgentError::ParseFailure);
            }
            let path_slice = vstd::slice::slice_subrange(model_data, 41, 41 + plen as usize);
            (Some(vstd::slice::slice_to_vec(path_slice)), 41 + plen as usize)
        } else {
            return Err(AgentError::ParseFailure);
        };
        let config = NOVAQConfig {
            target_bits: read_u32_le(model_data, 0),
            num_subspaces: read_u64_le(model_data, 4),
            codebook_size_l1: read_u64_le(model_data, 12),
            codebook_size_l2: read_u64_le(model_data, 20),
            outlier_threshold: read_u32_le(model_data, 28),
            teacher_model_path: path,
            refinement_iterations: read_u64_le(model_data, tail),
            kl_weight: read_u32_le(model_data, tail + 8),
            cosine_weight: read_u32_le(model_data, tail + 12),
            learning_rate: read_u32_le(model_data, tail + 16),
            seed: read_u64_le(model_data, tail + 20),
        };
        let record = NOVAQModelRecord {
            config,
            compression_ratio: read_u64_le(model_data, tail + 28),
            bit_accuracy: read_u32_le(model_data, tail + 36),
        };
        Ok(record)
    }

    /// Whether a blob is a NOVAQ compressed model: exactly when parsing
    /// succeeds.
    pub fn is_novaq_model(model_data: &[u8]) -> (r: bool)
        ensures
            r == novaq_well_formed(model_data@),
    {
        Self::parse_novaq_model(model_data).is_ok()
    }

    /// Applies the tiered validation thresholds: the hard compression-ratio
    /// floor, the bit-accuracy tier of the target bit width, and the
    /// positivity of subspace count and codebook sizes. Returns whether all
    /// checks pass and one distinct issue string per violated check.
    pub fn apply_validation_thresholds(
        config: &NOVAQConfig,
        compression_ratio: u64,
        bit_accuracy: u32,
    ) -> (r: (bool, Vec<String>))
        ensures
            r.1@.len() == issues_spec(*config, compression_ratio, bit_accuracy).len(),
            forall|i: int|
                0 <= i < r.1@.len() ==> r.1@[i]@ == issues_spec(
                    *config,
                    compression_ratio,
                    bit_accuracy,
                )[i],
            r.0 == (issues_spec(*config, compression_ratio, bit_accuracy).len() == 0),
    {
        let mut issues: Vec<String> = Vec::new();
        if compression_ratio < 200 {
            issues.push("Compression ratio below minimum threshold (2.0x)".to_owned());
        }
        let min_accuracy: u32 = if config.target_bits <= 1000 {
            8500
        } else if config.target_bits <= 2000 {
            9000
        } else if config.target_bits <= 4000 {
            9500
        } else {
            9800
        };
        if bit_accuracy < min_accuracy {
            issues.push("Bit accuracy below threshold for target bit width".to_owned());
        }
        if config.num_subspaces == 0 {
            issues.push("Invalid number of subspaces (must be > 0)".to_owned());
        }
        if config.codebook_size_l1 == 0 || config.codebook_size_l2 == 0 {
            issues.push("Invalid codebook sizes (must be > 0)".to_owned());
        }
        let passed = issues.len() == 0;
        (passed, issues)
    }

    /// Validates a NOVAQ blob: parses it, recomputes the quality score from
    /// the measured metrics, and applies the thresholds. Fails exactly on
    /// blobs that do not parse; a blob that parses always yields a result,
    /// whether or not it passes.
    pub fn validate_novaq_model(model_id: &str, model_data: &[u8], now: u64) -> (r: Result<
        NOVAQValidationResult,
        AgentError,
    >)
        ensures
            r is Ok <==> novaq_well_formed(model_data@),
            r is Err ==> r->Err_0 == AgentError::ParseFailure,
            r is Ok ==> {
                let t = novaq_tail_offset(model_data@);
                let cr = le_u64(model_data@, t + 28);
                let ba = le_u32(model_data@, t + 36);
                let v = r.unwrap();
                &&& v.model_id@ == model_id@
                &&& v.compression_ratio == cr
                &&& v.bit_accuracy == ba
                &&& v.quality_score == quality_score_spec(cr, ba)
                &&& v.validation_passed == (v.issues@.len() == 0)
                &&& v.validation_timestamp == now
            },
    {
        let record = Self::parse_novaq_model(model_data)?;
        let quality_score = record.compression_ratio.saturating_add(record.bit_accuracy as u64);
        let (validation_passed, issues) = Self::apply_validation_thresholds(
            &record.config,
            record.compression_ratio,
            record.bit_accuracy,
        );
        Ok(
            NOVAQValidationResult {
                model_id: model_id.to_owned(),
                compression_ratio: record.compression_ratio,
                bit_accuracy: record.bit_accuracy,
                quality_score,
                validation_passed,
                issues,
                validation_timestamp: now,
            },
        )
    }

    /// Extracts the quantization metadata of a NOVAQ blob. Fails exactly on
    /// blobs that do not parse.
    pub fn extract_novaq_metadata(model_data: &[u8]) -> (r: Result<NOVAQModelMeta, AgentError>)
        ensures
            r is Ok <==> novaq_well_formed(model_data@),
            r is Err ==> r->Err_0 == AgentError::ParseFailure,
            r is Ok ==> {
                let t = novaq_tail_offset(model_data@);
                let cr = le_u64(model_data@, t + 28);
                let ba = le_u32(model_data@, t + 36);
                let m = r.unwrap();
                &&& m.target_bits == le_u32(model_data@, 0)
                &&& m.num_subspaces == le_u64(model_data@, 4) as u32
                &&& m.l1_codebook_size == le_u64(model_data@, 12) as u32
                &&& m.l2_codebook_size == le_u64(model_data@, 20) as u32
                &&& m.compression_ratio == cr
                &&& m.bit_accuracy == ba
                &&& m.quality_score == quality_score_spec(cr, ba)
            },
    {
        let record = Self::parse_novaq_model(model_data)?;
        Ok(
            NOVAQModelMeta {
                target_bits: record.config.target_bits,
                num_subspaces: #[verifier::truncate] (record.config.num_subspaces as u32),
                l1_codebook_size: #[verifier::truncate] (record.config.codebook_size_l1 as u32),
                l2_codebook_size: #[verifier::truncate] (record.config.codebook_size_l2 as u32),
                compression_ratio: record.compression_ratio,
                bit_accuracy: record.bit_accuracy,
                quality_score: record.compression_ratio.saturating_add(
                    record.bit_accuracy as u64,
                ),
            },
        )
    }

    /// The advisory quality score of a NOVAQ blob. Fails exactly on blobs
    /// that do not parse.
    pub fn get_quality_score(model_data: &[u8]) -> (r: Result<u64, AgentError>)
        ensures
            r is Ok <==> novaq_well_formed(model_data@),
            r is Err ==> r->Err_0 == AgentError::ParseFailure,
            r is Ok ==> {
                let t = novaq_tail_offset(model_data@);
                r.unwrap() == quality_score_spec(
                    le_u64(model_data@, t + 28),
                    le_u32(model_data@, t + 36),
                )
            },
    {
        let record = Self::parse_novaq_model(model_data)?;
        Ok(record.compression_ratio.saturating_add(record.bit_accuracy as u64))
    }
}


/// The little-endian bytes of a u32.
pub open spec fn le_bytes_u32(v: u32) -> Seq<u8> {
    seq![
        (v & 0xFF) as u8,
        ((v >> 8) & 0xFF) as u8,
        ((v >> 16) & 0xFF) as u8,
        ((v >> 24) & 0xFF) as u8,
    ]
}

/// The little-endian bytes of a u64.
pub open spec fn le_bytes_u64(v: u64) -> Seq<u8> {
    seq![
        (v & 0xFF) as u8,
        ((v >> 8) & 0xFF) as u8,
        ((v >> 16) & 0xFF) as u8,
        ((v >> 24) & 0xFF) as u8,
        ((v >> 32) & 0xFF) as u8,
        ((v >> 40) & 0xFF) as u8,
        ((v >> 48) & 0xFF) as u8,
        ((v >> 56) & 0xFF) as u8,
    ]
}

/// The fixed-width configuration header of the record layout.
pub open spec fn encode_header_spec(c: NOVAQConfig) -> Seq<u8> {
    le_bytes_u32(c.target_bits) + le_bytes_u64(c.num_subspaces) + le_bytes_u64(c.codebook_size_l1)
        + le_bytes_u64(c.codebook_size_l2) + le_bytes_u32(c.outlier_threshold)
}

/// The optional teacher-model path section: a tag byte, then a length and
/// the path bytes when present.
pub open spec fn encode_path_spec(c: NOVAQConfig) -> Seq<u8> {
    match c.teacher_model_path {
        Option::None => seq![0u8],
        Option::Some(p) => seq![1u8] + le_bytes_u64(p@.len() as u64) + p@,
    }
}

/// The fixed-width tail of the record layout.
pub open spec fn encode_tail_spec(r: NOVAQModelRecord) -> Seq<u8> {
    le_bytes_u64(r.config.refinement_iterations) + le_bytes_u32(r.config.kl_weight) + le_bytes_u32(
        r.config.cosine_weight,
    ) + le_bytes_u32(r.config.learning_rate) + le_bytes_u64(r.config.seed) + le_bytes_u64(
        r.compression_ratio,
    ) + le_bytes_u32(r.bit_accuracy)
}

/// The full binary layout of a record.
pub open spec fn encode_spec(r: NOVAQModelRecord) -> Seq<u8> {
    encode_header_spec(r.config) + encode_path_spec(r.config) + encode_tail_spec(r)
}

proof fn lemma_le_u32_at(data: Seq<u8>, i: int, v: u32)
    requires
        0 <= i,
        i + 4 <= data.len(),
        data.subrange(i, i + 4) == le_bytes_u32(v),
    ensures
        le_u32(data, i) == v,
{
    assert(data[i] == le_bytes_u32(v)[0]);
    assert(data[i + 1] == le_bytes_u32(v)[1]);
    assert(data[i + 2] == le_bytes_u32(v)[2]);
    assert(data[i + 3] == le_bytes_u32(v)[3]);
    let b0 = (v & 0xFF) as u8;
    let b1 = ((v >> 8) & 0xFF) as u8;
    let b2 = ((v >> 16) & 0xFF) as u8;
    let b3 = ((v >> 24) & 0xFF) as u8;
    assert(v == ((b0 + b1 * 0x100 + b2 * 0x10000 + b3 * 0x1000000) as u32)) by (bit_vector)
        requires
            b0 == (v & 0xFF) as u8 && b1 == ((v >> 8) & 0xFF) as u8 && b2 == ((v >> 16)
                & 0xFF) as u8 && b3 == ((v >> 24) & 0xFF) as u8,
    ;
}

proof fn lemma_le_u64_at(data: Seq<u8>, i: int, v: u64)
    requires
        0 <= i,
        i + 8 <= data.len(),
        data.subrange(i, i + 8) == le_bytes_u64(v),
    ensures
        le_u64(data, i) == v,
{
    assert(data[i] == le_bytes_u64(v)[0]);
    assert(data[i + 1] == le_bytes_u64(v)[1]);
    assert(data[i + 2] == le_bytes_u64(v)[2]);
    assert(data[i + 3] == le_bytes_u64(v)[3]);
    assert(data[i + 4] == le_bytes_u64(v)[4]);
    assert(data[i + 5] == le_bytes_u64(v)[5]);
    assert(data[i + 6] == le_bytes_u64(v)[6]);
    assert(data[i + 7] == le_bytes_u64(v)[7]);
    let b0 = (v & 0xFF) as u8;
    let b1 = ((v >> 8) & 0xFF) as u8;
    let b2 = ((v >> 16) & 0xFF) as u8;
    let b3 = ((v >> 24) & 0xFF) as u8;
    let b4 = ((v >> 32) & 0xFF) as u8;
    let b5 = ((v >> 40) & 0xFF) as u8;
    let b6 = ((v >> 48) & 0xFF) as u8;
    let b7 = ((v >> 56) & 0xFF) as u8;
    assert(v == ((b0 + b1 * 0x100 + b2 * 0x10000 + b3 * 0x1000000 + b4 * 0x100000000 + b5
        * 0x10000000000 + b6 * 0x1000000000000 + b7 * 0x100000000000000) as u64)) by (bit_vector)
        requires
            b0 == (v & 0xFF) as u8 && b1 == ((v >> 8) & 0xFF) as u8 && b2 == ((v >> 16)
                & 0xFF) as u8 && b3 == ((v >> 24) & 0xFF) as u8 && b4 == ((v >> 32) & 0xFF) as u8
                && b5 == ((v >> 40) & 0xFF) as u8 && b6 == ((v >> 48) & 0xFF) as u8 && b7 == ((v
                >> 56) & 0xFF) as u8,
    ;
}

/// The encoding of any record is well formed and parses back to the very
/// fields the record holds.
#[verifier::rlimit(100)]
#[verifier::spinoff_prover]
pub proof fn lemma_encode_parses_back(r: NOVAQModelRecord)
    requires
        r.config.teacher_model_path is Some ==> r.config.teacher_model_path.unwrap()@.len()
            <= u64::MAX,
    ensures
        novaq_well_formed(encode_spec(r)),
        novaq_fields_ok(encode_spec(r), r),
{
    let data = encode_spec(r);
    let plen: int = match r.config.teacher_model_path {
        Option::None => 0,
        Option::Some(p) => p@.len() as int,
    };
    let psec: int = if r.config.teacher_model_path is Some {
        9 + plen
    } else {
        1
    };
    let t: int = 32 + psec;
    assert(data.len() == 32 + psec + 40);
    assert(data[32] == (if r.config.teacher_model_path is Some {
        1u8
    } else {
        0u8
    }));
    assert(data.subrange(0, 4) =~= le_bytes_u32(r.config.target_bits));
    lemma_le_u32_at(data, 0, r.config.target_bits);
    assert(data.subrange(4, 12) =~= le_bytes_u64(r.config.num_subspaces));
    lemma_le_u64_at(data, 4, r.config.num_subspaces);
    assert(data.subrange(12, 20) =~= le_bytes_u64(r.config.codebook_size_l1));
    lemma_le_u64_at(data, 12, r.config.codebook_size_l1);
    assert(data.subrange(20, 28) =~= le_bytes_u64(r.config.codebook_size_l2));
    lemma_le_u64_at(data, 20, r.config.codebook_size_l2);
    assert(data.subrange(28, 32) =~= le_bytes_u32(r.config.outlier_threshold));
    lemma_le_u32_at(data, 28, r.config.outlier_threshold);
    if r.config.teacher_model_path is Some {
        let p = r.config.teacher_model_path.unwrap();
        assert(data.subrange(33, 41) =~= le_bytes_u64(p@.len() as u64));
        lemma_le_u64_at(data, 33, p@.len() as u64);
        assert(data.subrange(41, 41 + plen) =~= p@);
    }
    assert(novaq_path_section_len(data) == psec);
    assert(novaq_well_formed(data));
    assert(novaq_tail_offset(data) == t);
    assert(data.subrange(t, t + 8) =~= le_bytes_u64(r.config.refinement_iterations));
    lemma_le_u64_at(data, t, r.config.refinement_iterations);
    assert(data.subrange(t + 8, t + 12) =~= le_bytes_u32(r.config.kl_weight));
    lemma_le_u32_at(data, t + 8, r.config.kl_weight);
    assert(data.subrange(t + 12, t + 16) =~= le_bytes_u32(r.config.cosine_weight));
    lemma_le_u32_at(data, t + 12, r.config.cosine_weight);
    assert(data.subrange(t + 16, t + 20) =~= le_bytes_u32(r.config.learning_rate));
    lemma_le_u32_at(data, t + 16, r.config.learning_rate);
    assert(data.subrange(t + 20, t + 28) =~= le_bytes_u64(r.config.seed));
    lemma_le_u64_at(data, t + 20, r.config.seed);
    assert(data.subrange(t + 28, t + 36) =~= le_bytes_u64(r.compression_ratio));
    lemma_le_u64_at(data, t + 28, r.compression_ratio);
    assert(data.subrange(t + 36, t + 40) =~= le_bytes_u32(r.bit_accuracy));
    lemma_le_u32_at(data, t + 36, r.bit_accuracy);
}

/// Serializes a NOVAQ record into the binary layout that
/// [`NOVAQValidationService::parse_novaq_model`] reads: parsing what this
/// produces gives every field back.
pub fn encode_novaq_model(record: &NOVAQModelRecord) -> (r: Vec<u8>)
    ensures
        r@ == encode_spec(*record),
        novaq_well_formed(r@),
        novaq_fields_ok(r@, *record),
{
    let mut out: Vec<u8> = Vec::new();
    push_u32_le(&mut out, record.config.target_bits);
    push_u64_le(&mut out, record.config.num_subspaces);
    push_u64_le(&mut out, record.config.codebook_size_l1);
    push_u64_le(&mut out, record.config.codebook_size_l2);
    push_u32_le(&mut out, record.config.outlier_threshold);
    match &record.config.teacher_model_path {
        None => {
            out.push(0u8);
        },
        Some(path) => {
            out.push(1u8);
            push_u64_le(&mut out, path.len() as u64);
            let n = path.len();
            let ghost pre = out@;
            for i in 0..n
                invariant
                    n == path@.len(),
                    pre.len() == 41,
                    out@.len() == 41 + i,
                    out@ =~= pre + path@.take(i as int),
            {
                out.push(path[i]);
                proof {
                    assert(path@.take(i + 1) =~= path@.take(i as int).push(path@[i as int]));
                }
            }
            proof {
                assert(path@.take(n as int) =~= path@);
                assert(path@.len() <= u64::MAX);
            }
        },
    }
    proof {
        assert(out@ =~= encode_header_spec(record.config) + encode_path_spec(record.config));
    }
    push_u64_le(&mut out, record.config.refinement_iterations);
    push_u32_le(&mut out, record.config.kl_weight);
    push_u32_le(&mut out, record.config.cosine_weight);
    push_u32_le(&mut out, record.config.learning_rate);
    push_u64_le(&mut out, record.config.seed);
    push_u64_le(&mut out, record.compression_ratio);
    push_u32_le(&mut out, record.bit_accuracy);
    proof {
        assert(out@ =~= encode_spec(*record));
        lemma_encode_parses_back(*record);
    }
    out
}

fn push_u32_le(out: &mut Vec<u8>, v: u32)
    ensures
        final(out)@ == old(out)@ + le_bytes_u32(v),
{
    out.push((v & 0xFF) as u8);
    out.push(((v >> 8) & 0xFF) as u8);
    out.push(((v >> 16) & 0xFF) as u8);
    out.push(((v >> 24) & 0xFF) as u8);
    proof {
        assert(out@ =~= old(out)@ + le_bytes_u32(v));
    }
}

fn push_u64_le(out: &mut Vec<u8>, v: u64)
    ensures
        final(out)@ == old(out)@ + le_bytes_u64(v),
{
    out.push((v & 0xFF) as u8);
    out.push(((v >> 8) & 0xFF) as u8);
    out.push(((v >> 16) & 0xFF) as u8);
    out.push(((v >> 24) & 0xFF) as u8);
    out.push(((v >> 32) & 0xFF) as u8);
    out.push(((v >> 40) & 0xFF) as u8);
    out.push(((v >> 48) & 0xFF) as u8);
    out.push(((v >> 56) & 0xFF) as u8);
    proof {
        assert(out@ =~= old(out)@ + le_bytes_u64(v));
    }
}

} // verus!
