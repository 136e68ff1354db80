use vstd::prelude::*;

verus! {

/// Providers of AI models.
#[derive(Clone, Copy, Debug, PartialEq, Eq, Structural)]
pub enum AIProvider {
    OpenAI,
}

/// Who developed a model.
#[derive(Clone, Copy, Debug, PartialEq, Eq, Structural)]
pub enum AIModelDeveloper {
    SameAsProvider,
}

/// What a model can do.
#[derive(Clone, Copy, Debug, PartialEq, Eq, Structural)]
pub enum AIModelFeatures {
    TextGeneration,
    ImageRecognition,
}

/// A large language model that a provider offers.
#[derive(Debug)]
pub struct LargeLanguageModel {
    pub label: String,
    pub ai_provider: AIProvider,
    pub developer: Option<AIModelDeveloper>,
    /// Each feature once.
    pub features: Vec<AIModelFeatures>,
    pub api_name: String,
    pub latest_version_api_name: Option<String>,
    pub context_window: Option<u32>,
}

/// True when the model is one of OpenAI's, developed by OpenAI, with the
/// given names, features and context window.
pub open spec fn is_openai_model(
    m: LargeLanguageModel,
    label: Seq<char>,
    features: Seq<AIModelFeatures>,
    api_name: Seq<char>,
    latest: Seq<char>,
    window: u32,
) -> bool {
    &&& m.label@ == label
    &&& m.ai_provider == AIProvider::OpenAI
    &&& m.developer == Some(AIModelDeveloper::SameAsProvider)
    &&& m.features@ == features
    &&& m.api_name@ == api_name
    &&& m.latest_version_api_name matches Some(l) && l@ == latest
    &&& m.context_window == Some(window)
}

impl LargeLanguageModel {
    /// The models that OpenAI offers: GPT-3.5 Turbo, GPT-4 Turbo and GPT-4o.
    pub fn get_models_for_openai() -> (r: Vec<LargeLanguageModel>)
        ensures
            r@.len() == 3,
            is_openai_model(
                r@[0],
                "GPT-3.5 Turbo"@,
                seq![AIModelFeatures::TextGeneration],
                "gpt-3.5-turbo"@,
                "gpt-3.5-turbo-0125"@,
                16385,
            ),
            is_openai_model(
                r@[1],
                "GPT-4 Turbo"@,
                seq![AIModelFeatures::TextGeneration, AIModelFeatures::ImageRecognition],
                "gpt-4-turbo"@,
                "gpt-4-turbo-2024-04-09"@,
                128000,
            ),
            is_openai_model(
                r@[2],
                "GPT-4o"@,
                seq![AIModelFeatures::TextGeneration, AIModelFeatures::ImageRecognition],
                "gpt-4o"@,
                "gpt-4o-2024-05-13"@,
                128000,
            ),
    {
        let mut models: Vec<LargeLanguageModel> = Vec::new();
        let mut f1: Vec<AIModelFeatures> = Vec::new();
        f1.push(AIModelFeatures::TextGeneration);
        assert(f1@ =~= seq![AIModelFeatures::TextGeneration]);
        models.push(LargeLanguageModel {
            label: String::from_str("GPT-3.5 Turbo"),
            ai_provider: AIProvider::OpenAI,
            developer: Some(AIModelDeveloper::SameAsProvider),
            features: f1,
            api_name: String::from_str("gpt-3.5-turbo"),
            latest_version_api_name: Some(String::from_str("gpt-3.5-turbo-0125")),
            context_window: Some(16385),
        });
        let mut f2: Vec<AIModelFeatures> = Vec::new();
        f2.push(AIModelFeatures::TextGeneration);
        f2.push(AIModelFeatures::ImageRecognition);
        assert(f2@ =~= seq![AIModelFeatures::TextGeneration, AIModelFeatures::ImageRecognition]);
        models.push(LargeLanguageModel {
            label: String::from_str("GPT-4 Turbo"),
            ai_provider: AIProvider::OpenAI,
            developer: Some(AIModelDeveloper::SameAsProvider),
            features: f2,
            api_name: String::from_str("gpt-4-turbo"),
            latest_version_api_name: Some(String::from_str("gpt-4-turbo-2024-04-09")),
            context_window: Some(128000),
        });
        let mut f3: Vec<AIModelFeatures> = Vec::new();
        f3.push(AIModelFeatures::TextGeneration);
        f3.push(AIModelFeatures::ImageRecognition);
        assert(f3@ =~= seq![AIModelFeatures::TextGeneration, AIModelFeatures::ImageRecognition]);
        models.push(LargeLanguageModel {
            label: String::from_str("GPT-4o"),
            ai_provider: AIProvider::OpenAI,
            developer: Some(AIModelDeveloper::SameAsProvider),
            features: f3,
            api_name: String::from_str("gpt-4o"),
            latest_version_api_name: Some(String::from_str("gpt-4o-2024-05-13")),
            context_window: Some(128000),
        });
        models
    }
}

} // verus!
