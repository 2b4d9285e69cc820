use onetcli::llm::{from_config, LlmClientPlan, LlmConfigError};
use onetcli::settings::ProviderType;

fn s(x: &str) -> Option<String> {
    Some(x.to_string())
}

#[test]
fn plans_follow_the_provider() {
    assert_eq!(
        from_config(ProviderType::OpenAI, "n", s("k"), None, None),
        Ok(LlmClientPlan::OpenAI { api_key: "k".to_string() })
    );
    assert_eq!(
        from_config(ProviderType::OpenAI, "n", s("k"), s("http://b"), None),
        Ok(LlmClientPlan::OpenAIWithBaseUrl { api_key: "k".to_string(), base_url: "http://b".to_string() })
    );
    assert_eq!(from_config(ProviderType::Ollama, "n", None, None, None), Ok(LlmClientPlan::Ollama));
    assert_eq!(
        from_config(ProviderType::AzureOpenAI, "n", s("k"), s("b"), None),
        Ok(LlmClientPlan::AzureOpenAI {
            api_key: "k".to_string(),
            base_url: "b".to_string(),
            api_version: "2024-02-15-preview".to_string()
        })
    );
    assert_eq!(
        from_config(ProviderType::OpenAICompatible, "mine", s("k"), s("b"), None),
        Ok(LlmClientPlan::OpenAICompatible { api_key: "k".to_string(), base_url: "b".to_string(), name: "mine".to_string() })
    );
}

#[test]
fn missing_settings_are_reported() {
    assert_eq!(
        from_config(ProviderType::DeepSeek, "n", None, None, None),
        Err(LlmConfigError::ApiKeyRequired(ProviderType::DeepSeek))
    );
    assert_eq!(
        from_config(ProviderType::AzureOpenAI, "n", s("k"), None, None),
        Err(LlmConfigError::BaseUrlRequired(ProviderType::AzureOpenAI))
    );
    assert_eq!(from_config(ProviderType::Pig, "n", s("k"), None, None), Err(LlmConfigError::BuiltInProvider));
}

use onetcli::llm::{ProviderError, ProviderManager, ProviderSource};

#[test]
fn provider_cache() {
    let mut m = ProviderManager::new();
    assert_eq!(m.get_provider(1, false, ProviderType::OpenAI, "n", s("k"), None, None), Err(ProviderError::Disabled));
    assert_eq!(m.get_provider(1, true, ProviderType::Pig, "n", s("k"), None, None), Err(ProviderError::Unsupported));
    assert_eq!(
        m.get_provider(1, true, ProviderType::Google, "n", None, None, None),
        Err(ProviderError::Config(LlmConfigError::ApiKeyRequired(ProviderType::Google)))
    );
    assert_eq!(m.get_provider(1, true, ProviderType::Google, "n", s("k"), None, None), Ok(ProviderSource::Built));
    assert_eq!(m.get_provider(1, false, ProviderType::Pig, "n", None, None, None), Ok(ProviderSource::Cached));
    assert_eq!(m.plan(1), Some(&LlmClientPlan::Google { api_key: "k".to_string() }));
    m.remove_provider(1);
    assert_eq!(m.plan(1), None);
    let _ = m.get_provider(2, true, ProviderType::Ollama, "n", None, None, None);
    m.clear_cache();
    assert_eq!(m.plan(2), None);
}
