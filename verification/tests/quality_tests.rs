use ohms_agent::errors::AgentError;
use ohms_agent::modelrepo::ModelRepoClient;
use ohms_agent::novaq_validation::encode_novaq_model;
use ohms_agent::novaq_validation::NOVAQConfig;
use ohms_agent::novaq_validation::NOVAQModelRecord;
use ohms_agent::novaq_validation::NOVAQValidationService;
use ohms_agent::novaq_validation::QUALITY_SCORE_DENOM;

fn test_config() -> NOVAQConfig {
    NOVAQConfig {
        target_bits: 1500,
        num_subspaces: 2,
        codebook_size_l1: 16,
        codebook_size_l2: 4,
        outlier_threshold: 10000,
        teacher_model_path: None,
        refinement_iterations: 50,
        kl_weight: 1000000,
        cosine_weight: 500000,
        learning_rate: 1000,
        seed: 42,
    }
}

#[test]
fn test_validation_thresholds() {
    let config = test_config();

    // Good compression: ratio 383.3x, accuracy 0.95.
    let (passed, issues) =
        NOVAQValidationService::apply_validation_thresholds(&config, 38330, 9500);
    assert!(passed, "Should pass with good metrics: {:?}", issues);

    // Poor compression: ratio 1.5x, accuracy 0.80.
    let (passed, issues) = NOVAQValidationService::apply_validation_thresholds(&config, 150, 8000);
    assert!(!passed, "Should fail with poor metrics");
    assert!(!issues.is_empty(), "Should have validation issues");
}

#[test]
fn test_poor_metrics_give_two_issues() {
    let config = test_config();
    let (passed, issues) = NOVAQValidationService::apply_validation_thresholds(&config, 150, 8000);
    assert!(!passed);
    assert!(issues.len() >= 2);
    assert_eq!(
        issues[0],
        "Compression ratio below minimum threshold (2.0x)"
    );
    assert_eq!(issues[1], "Bit accuracy below threshold for target bit width");
}

#[test]
fn test_threshold_tiers() {
    let mut config = test_config();
    // 1.0 bit: 0.85 suffices.
    config.target_bits = 1000;
    let (passed, _) = NOVAQValidationService::apply_validation_thresholds(&config, 300, 8500);
    assert!(passed);
    let (passed, _) = NOVAQValidationService::apply_validation_thresholds(&config, 300, 8499);
    assert!(!passed);
    // 4.0 bits: 0.95 required.
    config.target_bits = 4000;
    let (passed, _) = NOVAQValidationService::apply_validation_thresholds(&config, 300, 9500);
    assert!(passed);
    let (passed, _) = NOVAQValidationService::apply_validation_thresholds(&config, 300, 9499);
    assert!(!passed);
    // Above 4 bits: 0.98 required.
    config.target_bits = 4001;
    let (passed, _) = NOVAQValidationService::apply_validation_thresholds(&config, 300, 9799);
    assert!(!passed);
    let (passed, _) = NOVAQValidationService::apply_validation_thresholds(&config, 300, 9800);
    assert!(passed);
}

#[test]
fn test_zero_subspaces_and_codebooks_rejected() {
    let mut config = test_config();
    config.num_subspaces = 0;
    config.codebook_size_l1 = 0;
    let (passed, issues) =
        NOVAQValidationService::apply_validation_thresholds(&config, 38330, 9500);
    assert!(!passed);
    assert_eq!(issues.len(), 2);
    assert_eq!(issues[0], "Invalid number of subspaces (must be > 0)");
    assert_eq!(issues[1], "Invalid codebook sizes (must be > 0)");
}

#[test]
fn test_encode_parse_round_trip() {
    let record = NOVAQModelRecord {
        config: NOVAQConfig {
            teacher_model_path: Some(b"models/teacher.bin".to_vec()),
            ..test_config()
        },
        compression_ratio: 38330,
        bit_accuracy: 9500,
    };
    let blob = encode_novaq_model(&record);
    let parsed = NOVAQValidationService::parse_novaq_model(&blob).expect("round trip parse");
    assert_eq!(parsed.config.target_bits, 1500);
    assert_eq!(parsed.config.num_subspaces, 2);
    assert_eq!(parsed.config.codebook_size_l1, 16);
    assert_eq!(parsed.config.codebook_size_l2, 4);
    assert_eq!(parsed.config.outlier_threshold, 10000);
    assert_eq!(
        parsed.config.teacher_model_path.as_deref(),
        Some(b"models/teacher.bin".as_slice())
    );
    assert_eq!(parsed.config.refinement_iterations, 50);
    assert_eq!(parsed.config.kl_weight, 1000000);
    assert_eq!(parsed.config.cosine_weight, 500000);
    assert_eq!(parsed.config.learning_rate, 1000);
    assert_eq!(parsed.config.seed, 42);
    assert_eq!(parsed.compression_ratio, 38330);
    assert_eq!(parsed.bit_accuracy, 9500);
}

#[test]
fn test_is_novaq_model_parse_gate() {
    let record = NOVAQModelRecord {
        config: test_config(),
        compression_ratio: 38330,
        bit_accuracy: 9500,
    };
    let blob = encode_novaq_model(&record);
    assert!(ModelRepoClient::is_novaq_model(&blob));
    // Truncated, garbage, and trailing-byte blobs do not parse.
    assert!(!ModelRepoClient::is_novaq_model(&blob[..blob.len() - 1]));
    assert!(!ModelRepoClient::is_novaq_model(b"not a model"));
    let mut trailing = blob.clone();
    trailing.push(0);
    assert!(!ModelRepoClient::is_novaq_model(&trailing));
}

#[test]
fn test_quality_score_exact() {
    // (383.3 / 100 + 0.95) / 2 = 2.3915 = 47830 / 20000.
    let record = NOVAQModelRecord {
        config: test_config(),
        compression_ratio: 38330,
        bit_accuracy: 9500,
    };
    let blob = encode_novaq_model(&record);
    assert_eq!(ModelRepoClient::get_novaq_quality_score(&blob), Ok(47830));
    assert_eq!(QUALITY_SCORE_DENOM, 20000);
    assert_eq!(
        ModelRepoClient::get_novaq_quality_score(b"junk"),
        Err(AgentError::ParseFailure)
    );
}

#[test]
fn test_validate_and_metadata() {
    let record = NOVAQModelRecord {
        config: test_config(),
        compression_ratio: 38330,
        bit_accuracy: 9500,
    };
    let blob = encode_novaq_model(&record);
    let v = ModelRepoClient::validate_novaq_model("m1", &blob, 7).expect("validates");
    assert_eq!(v.model_id, "m1");
    assert_eq!(v.compression_ratio, 38330);
    assert_eq!(v.bit_accuracy, 9500);
    assert_eq!(v.quality_score, 47830);
    assert!(v.validation_passed);
    assert!(v.issues.is_empty());
    assert_eq!(v.validation_timestamp, 7);

    let m = ModelRepoClient::extract_novaq_metadata(&blob).expect("metadata");
    assert_eq!(m.target_bits, 1500);
    assert_eq!(m.num_subspaces, 2);
    assert_eq!(m.l1_codebook_size, 16);
    assert_eq!(m.l2_codebook_size, 4);
    assert_eq!(m.quality_score, 47830);

    assert_eq!(
        ModelRepoClient::validate_novaq_model("m1", b"junk", 7).unwrap_err(),
        AgentError::ParseFailure
    );
}

#[test]
fn test_validation_issues_are_data_not_errors() {
    // A blob that parses but misses every threshold still validates Ok.
    let record = NOVAQModelRecord {
        config: NOVAQConfig {
            num_subspaces: 0,
            codebook_size_l1: 0,
            ..test_config()
        },
        compression_ratio: 100,
        bit_accuracy: 1000,
    };
    let blob = encode_novaq_model(&record);
    let v = ModelRepoClient::validate_novaq_model("m-bad", &blob, 1).expect("still Ok");
    assert!(!v.validation_passed);
    assert_eq!(v.issues.len(), 4);
}
