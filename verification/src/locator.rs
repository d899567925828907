use vstd::prelude::*;
use vstd::string::*;
use crate::tier::ModelTier;

verus! {

/// What a resolved model will be used for. Lower tiers may collapse
/// several task kinds onto one model file to conserve memory.
#[derive(Clone, Copy, Debug, PartialEq, Eq, Structural)]
pub enum ModelTask {
    Chat,
    Predict,
    Categorise,
}

/// A resolved bundle of artifact paths for one (tier, task) pair.
/// Created once per engine initialization and read-only thereafter.
pub struct ModelConfig {
    pub llm_path: String,
    pub embedding_path: String,
    pub tokenizer_path: String,
}

/// Holds the tier the locator resolves against.
pub struct ModelManager {
    pub tier: ModelTier,
}

/// Name of the per-tier subdirectory under the model base directory.
pub open spec fn tier_dir(t: ModelTier) -> Seq<char> {
    match t {
        ModelTier::Micro => "micro"@,
        ModelTier::Small => "small"@,
        ModelTier::Medium => "medium"@,
        ModelTier::Large => "large"@,
        ModelTier::Macro => "macro"@,
    }
}

/// Chat/predict model filename for a (tier, task) pair.
pub open spec fn llm_filename(t: ModelTier, task: ModelTask) -> Seq<char> {
    match (t, task) {
        (ModelTier::Micro, ModelTask::Predict) => "qwen2-0.5b-instruct.onnx"@,
        (ModelTier::Micro, ModelTask::Categorise) => "qwen2-0.5b-instruct.onnx"@,
        (ModelTier::Micro, ModelTask::Chat) => "qwen2-0.5b-instruct.onnx"@,
        (ModelTier::Small, ModelTask::Predict) => "qwen2-1.5b-instruct.onnx"@,
        (ModelTier::Small, ModelTask::Categorise) => "qwen2-1.5b-instruct.onnx"@,
        (ModelTier::Small, ModelTask::Chat) => "phi-3-mini-instruct.onnx"@,
        (_, ModelTask::Predict) => "qwen2-7b-instruct.onnx"@,
        (_, ModelTask::Categorise) => "qwen2-7b-instruct.onnx"@,
        (_, ModelTask::Chat) => "llama-3-8b-instruct.onnx"@,
    }
}

pub open spec fn llm_path_spec(t: ModelTier, task: ModelTask) -> Seq<char> {
    "models/"@ + tier_dir(t) + "/"@ + llm_filename(t, task)
}

pub open spec fn embedding_path_spec(t: ModelTier) -> Seq<char> {
    "models/"@ + tier_dir(t) + "/"@ + "embedding.onnx"@
}

pub open spec fn tokenizer_path_spec(t: ModelTier) -> Seq<char> {
    "models/"@ + tier_dir(t) + "/"@ + "tokenizer.json"@
}

/// A configuration is the resolution of a (tier, task) pair.
pub open spec fn resolves(c: ModelConfig, t: ModelTier, task: ModelTask) -> bool {
    &&& c.llm_path@ == llm_path_spec(t, task)
    &&& c.embedding_path@ == embedding_path_spec(t)
    &&& c.tokenizer_path@ == tokenizer_path_spec(t)
}

/// Character-wise string equality, decided without assuming ASCII.
pub fn str_eq(a: &str, b: &str) -> (r: bool)
    ensures
        r == (a@ == b@),
{
    let n = a.unicode_len();
    if n != b.unicode_len() {
        return false;
    }
    let mut i: usize = 0;
    while i < n
        invariant
            n == a@.len(),
            n == b@.len(),
            i <= n,
            forall|j: int| 0 <= j < i ==> a@[j] == b@[j],
        decreases n - i,
    {
        if a.get_char(i) != b.get_char(i) {
            return false;
        }
        i = i + 1;
    }
    proof {
        assert(a@ =~= b@);
    }
    true
}

impl ModelManager {
    /// Detects the host tier once and locates models against it.
    pub fn new() -> ModelManager {
        ModelManager { tier: crate::tier::detect() }
    }

    /// A locator pinned to a given tier, for callers that already know it.
    pub fn with_tier(tier: ModelTier) -> (m: ModelManager)
        ensures
            m.tier == tier,
    {
        ModelManager { tier }
    }

    /// Resolves (tier, task) to artifact paths. Pure: no I/O, no failure
    /// mode; existence of the files is checked at graph-commit time, not
    /// here. Embedding and tokenizer paths are shared across tasks.
    pub fn get_config(&self, task: ModelTask) -> (c: ModelConfig)
        ensures
            resolves(c, self.tier, task),
    {
        let dir = tier_dir_name(self.tier);
        let file = llm_file_name(self.tier, task);

        let mut llm_path = "models/".to_owned();
        llm_path.append(dir);
        llm_path.append("/");
        llm_path.append(file);

        let mut embedding_path = "models/".to_owned();
        embedding_path.append(dir);
        embedding_path.append("/");
        embedding_path.append("embedding.onnx");

        let mut tokenizer_path = "models/".to_owned();
        tokenizer_path.append(dir);
        tokenizer_path.append("/");
        tokenizer_path.append("tokenizer.json");

        ModelConfig { llm_path, embedding_path, tokenizer_path }
    }

    /// Flat model-kind lookup: `"llm"` resolves per tier, `"embedding"`
    /// is shared across tiers, and an unknown kind falls back to the
    /// small chat model.
    pub fn get_model_path(&self, model_type: &str) -> (r: String)
        ensures
            r@ == model_path_spec(self.tier, model_type@),
    {
        if str_eq(model_type, "llm") {
            match self.tier {
                ModelTier::Micro => "models/llm/micro.onnx".to_owned(),
                ModelTier::Small => "models/llm/small.onnx".to_owned(),
                ModelTier::Medium => "models/llm/medium.onnx".to_owned(),
                ModelTier::Large => "models/llm/large.onnx".to_owned(),
                ModelTier::Macro => "models/llm/macro.onnx".to_owned(),
            }
        } else if str_eq(model_type, "embedding") {
            "models/embedding/default.onnx".to_owned()
        } else {
            "models/llm/small.onnx".to_owned()
        }
    }
}

/// Result of the flat model-kind lookup.
pub open spec fn model_path_spec(t: ModelTier, model_type: Seq<char>) -> Seq<char> {
    if model_type == "llm"@ {
        match t {
            ModelTier::Micro => "models/llm/micro.onnx"@,
            ModelTier::Small => "models/llm/small.onnx"@,
            ModelTier::Medium => "models/llm/medium.onnx"@,
            ModelTier::Large => "models/llm/large.onnx"@,
            ModelTier::Macro => "models/llm/macro.onnx"@,
        }
    } else if model_type == "embedding"@ {
        "models/embedding/default.onnx"@
    } else {
        "models/llm/small.onnx"@
    }
}

fn tier_dir_name(t: ModelTier) -> (r: &'static str)
    ensures
        r@ == tier_dir(t),
{
    match t {
        ModelTier::Micro => "micro",
        ModelTier::Small => "small",
        ModelTier::Medium => "medium",
        ModelTier::Large => "large",
        ModelTier::Macro => "macro",
    }
}

fn llm_file_name(t: ModelTier, task: ModelTask) -> (r: &'static str)
    ensures
        r@ == llm_filename(t, task),
{
    match (t, task) {
        (ModelTier::Micro, _) => "qwen2-0.5b-instruct.onnx",
        (ModelTier::Small, ModelTask::Predict) => "qwen2-1.5b-instruct.onnx",
        (ModelTier::Small, ModelTask::Categorise) => "qwen2-1.5b-instruct.onnx",
        (ModelTier::Small, ModelTask::Chat) => "phi-3-mini-instruct.onnx",
        (_, ModelTask::Predict) => "qwen2-7b-instruct.onnx",
        (_, ModelTask::Categorise) => "qwen2-7b-instruct.onnx",
        (_, ModelTask::Chat) => "llama-3-8b-instruct.onnx",
    }
}

/// Law: the locator is pure — two resolutions of one (tier, task) pair
/// yield identical paths.
pub proof fn lemma_resolve_deterministic(
    m: ModelManager,
    task: ModelTask,
    a: ModelConfig,
    b: ModelConfig,
)
    requires
        resolves(a, m.tier, task),
        resolves(b, m.tier, task),
    ensures
        a.llm_path@ == b.llm_path@,
        a.embedding_path@ == b.embedding_path@,
        a.tokenizer_path@ == b.tokenizer_path@,
{
}

/// Law: within every tier, Predict and Categorise resolve to the same
/// model filename as each other.
pub proof fn lemma_predict_categorise_share(t: ModelTier)
    ensures
        llm_filename(t, ModelTask::Predict) == llm_filename(t, ModelTask::Categorise),
{
}

} // verus!
