//! The model repository data model — chunk descriptors, manifests, model
//! metadata — and the compute-only surface of the repository client.
//!
//! The repository itself is an external collaborator: fetching a manifest or
//! a chunk is transport work that the host performs. What the client can
//! decide from plain bytes (NOVAQ parsing, validation, scoring) stands here.

use vstd::prelude::*;

use crate::errors::AgentError;
use crate::novaq_validation::le_u32;
use crate::novaq_validation::le_u64;
use crate::novaq_validation::novaq_tail_offset;
use crate::novaq_validation::novaq_well_formed;
use crate::novaq_validation::quality_score_spec;
use crate::novaq_validation::NOVAQModelMeta;
use crate::novaq_validation::NOVAQValidationResult;
use crate::novaq_validation::NOVAQValidationService;

verus! {

/// Identifies one addressable piece of a model artifact. Immutable once
/// listed in a manifest.
#[derive(Debug, Clone)]
pub struct ChunkInfo {
    pub id: String,
    pub offset: u64,
    pub size: u64,
    pub sha256: String,
}

/// The lifecycle state of a manifest. Only `Active` manifests may be bound.
#[derive(Debug, Clone, Copy, PartialEq, Eq, Structural)]
pub enum ModelState {
    Pending,
    Active,
    Deprecated,
}

/// The authoritative description of a model's chunk layout, version, and
/// lifecycle state, owned by the external repository; this process holds a
/// read-only copy after fetch.
#[derive(Debug, Clone)]
pub struct ModelManifest {
    pub model_id: String,
    pub version: String,
    pub chunks: Vec<ChunkInfo>,
    pub digest: String,
    pub state: ModelState,
    pub uploaded_at: u64,
    pub activated_at: Option<u64>,
}

/// Descriptive metadata of a model.
#[derive(Debug, Clone)]
pub struct ModelMeta {
    pub family: String,
    pub arch: String,
    pub tokenizer_id: String,
    pub vocab_size: u32,
    pub ctx_window: u32,
    pub license: String,
}

/// The compute-only surface of the repository client.
pub struct ModelRepoClient;

impl ModelRepoClient {
    /// Validates a NOVAQ compressed model blob.
    pub fn validate_novaq_model(model_id: &str, model_data: &[u8], now: u64) -> (r: Result<
        NOVAQValidationResult,
        AgentError,
    >)
        ensures
            r is Ok <==> novaq_well_formed(model_data@),
            r is Err ==> r->Err_0 == AgentError::ParseFailure,
            r is Ok ==> {
                let t = novaq_tail_offset(model_data@);
                let v = r.unwrap();
                &&& v.model_id@ == model_id@
                &&& v.compression_ratio == le_u64(model_data@, t + 28)
                &&& v.bit_accuracy == le_u32(model_data@, t + 36)
                &&& v.quality_score == quality_score_spec(v.compression_ratio, v.bit_accuracy)
                &&& v.validation_passed == (v.issues@.len() == 0)
                &&& v.validation_timestamp == now
            },
    {
        NOVAQValidationService::validate_novaq_model(model_id, model_data, now)
    }

    /// Extracts NOVAQ model metadata from a blob.
    pub fn extract_novaq_metadata(model_data: &[u8]) -> (r: Result<NOVAQModelMeta, AgentError>)
        ensures
            r is Ok <==> novaq_well_formed(model_data@),
            r is Err ==> r->Err_0 == AgentError::ParseFailure,
            r is Ok ==> {
                let t = novaq_tail_offset(model_data@);
                let m = r.unwrap();
                &&& m.target_bits == le_u32(model_data@, 0)
                &&& m.compression_ratio == le_u64(model_data@, t + 28)
                &&& m.bit_accuracy == le_u32(model_data@, t + 36)
                &&& m.quality_score == quality_score_spec(m.compression_ratio, m.bit_accuracy)
            },
    {
        NOVAQValidationService::extract_novaq_metadata(model_data)
    }

    /// Whether a blob is a NOVAQ compressed model.
    pub fn is_novaq_model(model_data: &[u8]) -> (r: bool)
        ensures
            r == novaq_well_formed(model_data@),
    {
        NOVAQValidationService::is_novaq_model(model_data)
    }

    /// The advisory quality score of a NOVAQ blob, as a numerator over
    /// [`crate::novaq_validation::QUALITY_SCORE_DENOM`].
    pub fn get_novaq_quality_score(model_data: &[u8]) -> (r: Result<u64, AgentError>)
        ensures
            r is Ok <==> novaq_well_formed(model_data@),
            r is Err ==> r->Err_0 == AgentError::ParseFailure,
            r is Ok ==> {
                let t = novaq_tail_offset(model_data@);
                r.unwrap() == quality_score_spec(
                    le_u64(model_data@, t + 28),
                    le_u32(model_data@, t + 36),
                )
            },
    {
        NOVAQValidationService::get_quality_score(model_data)
    }
}

} // verus!
