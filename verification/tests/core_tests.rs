use artefact_runtime::errors::ChatError;
use artefact_runtime::locator::{ModelManager, ModelTask};
use artefact_runtime::providers::{preference_order, select_provider, Provider};
use artefact_runtime::tier::{detect, tier_from_kb, tier_or_fallback, ModelTier};

#[test]
fn test_model_manager_tier() {
    let manager = ModelManager::new();
    // Just verify it doesn't panic and returns a valid tier
    println!("Detected tier: {:?}", manager.tier);
}

#[test]
fn test_model_config_paths() {
    let manager = ModelManager::new();
    let config = manager.get_config(ModelTask::Chat);
    // Paths will vary based on tier, but should contain the base models dir
    assert!(config.llm_path.contains("models"));
    assert!(config.embedding_path.contains("embedding.onnx"));
    assert!(config.tokenizer_path.contains("tokenizer.json"));
}

const KB_PER_GB: u64 = 1048576;

#[test]
fn tier_threshold_table() {
    // 0.5 GB
    assert_eq!(tier_from_kb(KB_PER_GB / 2), ModelTier::Micro);
    // exactly 1 GB is Small, not Micro: boundaries are exclusive above
    assert_eq!(tier_from_kb(KB_PER_GB), ModelTier::Small);
    // 1.9 GB
    assert_eq!(tier_from_kb(1992294), ModelTier::Small);
    // exactly 2 GB
    assert_eq!(tier_from_kb(2 * KB_PER_GB), ModelTier::Medium);
    // 3.9 GB
    assert_eq!(tier_from_kb(4089446), ModelTier::Medium);
    // exactly 4 GB
    assert_eq!(tier_from_kb(4 * KB_PER_GB), ModelTier::Large);
    // 7.9 GB
    assert_eq!(tier_from_kb(8283750), ModelTier::Large);
    // exactly 8 GB
    assert_eq!(tier_from_kb(8 * KB_PER_GB), ModelTier::Macro);
    // 16 GB
    assert_eq!(tier_from_kb(16 * KB_PER_GB), ModelTier::Macro);
}

#[test]
fn tier_fallback_is_smallest() {
    assert_eq!(tier_or_fallback(None), ModelTier::Micro);
    assert_eq!(tier_or_fallback(Some(16 * KB_PER_GB)), ModelTier::Macro);
    let _ = detect();
}

#[test]
fn locator_is_pure() {
    let m = ModelManager::with_tier(ModelTier::Small);
    let a = m.get_config(ModelTask::Chat);
    let b = m.get_config(ModelTask::Chat);
    assert_eq!(a.llm_path, b.llm_path);
    assert_eq!(a.embedding_path, b.embedding_path);
    assert_eq!(a.tokenizer_path, b.tokenizer_path);
}

#[test]
fn locator_predict_categorise_share_model() {
    for tier in [
        ModelTier::Micro,
        ModelTier::Small,
        ModelTier::Medium,
        ModelTier::Large,
        ModelTier::Macro,
    ] {
        let m = ModelManager::with_tier(tier);
        let p = m.get_config(ModelTask::Predict);
        let c = m.get_config(ModelTask::Categorise);
        assert_eq!(p.llm_path, c.llm_path);
    }
}

#[test]
fn locator_exact_paths() {
    let m = ModelManager::with_tier(ModelTier::Small);
    let c = m.get_config(ModelTask::Chat);
    assert_eq!(c.llm_path, "models/small/phi-3-mini-instruct.onnx");
    assert_eq!(c.embedding_path, "models/small/embedding.onnx");
    assert_eq!(c.tokenizer_path, "models/small/tokenizer.json");
    let p = m.get_config(ModelTask::Predict);
    assert_eq!(p.llm_path, "models/small/qwen2-1.5b-instruct.onnx");
}

#[test]
fn flat_model_path_lookup() {
    let m = ModelManager::with_tier(ModelTier::Medium);
    assert_eq!(m.get_model_path("llm"), "models/llm/medium.onnx");
    assert_eq!(m.get_model_path("embedding"), "models/embedding/default.onnx");
    assert_eq!(m.get_model_path("anything-else"), "models/llm/small.onnx");
}

#[test]
fn provider_preference_and_selection() {
    let order = preference_order();
    assert_eq!(
        order,
        vec![Provider::Cuda, Provider::CoreMl, Provider::DirectMl, Provider::Cpu]
    );
    assert_eq!(select_provider(&vec![false, true, true, false]), Some(1));
    assert_eq!(select_provider(&vec![true, false, false, false]), Some(0));
    assert_eq!(select_provider(&vec![false, false, false, false]), None);
    assert_eq!(select_provider(&vec![]), None);
}

#[test]
fn error_descriptions() {
    assert_eq!(ChatError::ModelLoad.describe(), "model load failure");
    assert_eq!(ChatError::Tokenization.describe(), "tokenization failure");
    assert_eq!(ChatError::Inference.describe(), "inference failure");
}
