//! Which LLM client a provider configuration asks for.
//!
//! The client itself is built by the application from the plan chosen
//! here; the plan says which constructor to use and with what.
use vstd::prelude::*;
use crate::settings::ProviderType;
use crate::text::str_to_owned;
use std::collections::HashMap;

verus! {

broadcast use vstd::std_specs::hash::group_hash_axioms;

/// The client constructor to use and its arguments.
#[derive(Debug, PartialEq, Eq)]
pub enum LlmClientPlan {
    OpenAI { api_key: String },
    OpenAIWithBaseUrl { api_key: String, base_url: String },
    Anthropic { api_key: String },
    Aliyun { api_key: String },
    AliyunPrivate { api_key: String, base_url: String },
    Zhipu { api_key: String },
    Ollama,
    OllamaWithBaseUrl { base_url: String },
    Volcengine { api_key: String },
    Moonshot { api_key: String },
    DeepSeek { api_key: String },
    Google { api_key: String },
    AzureOpenAI { api_key: String, base_url: String, api_version: String },
    OpenAICompatible { api_key: String, base_url: String, name: String },
}

/// Why no client can be built from a configuration.
#[derive(Debug, Clone, Copy, PartialEq, Eq, Structural)]
pub enum LlmConfigError {
    /// The provider needs an API key and none is set.
    ApiKeyRequired(ProviderType),
    /// The provider needs a base URL and none is set.
    BaseUrlRequired(ProviderType),
    /// The built-in provider is not built from a configuration.
    BuiltInProvider,
}

/// The API version Azure OpenAI is called with where none is configured.
pub open spec fn default_azure_api_version() -> Seq<char> {
    "2024-02-15-preview"@
}

/// The outcome of `from_config`, by provider: what is required and which
/// constructor is chosen.
pub open spec fn plan_ok(p: ProviderType, name: Seq<char>, key: Option<String>, base: Option<String>, version: Option<String>, plan: LlmClientPlan) -> bool {
    match p {
        ProviderType::OpenAI => match base {
            Some(b) => plan matches LlmClientPlan::OpenAIWithBaseUrl { api_key, base_url } && Some(api_key) == key && base_url == b,
            None => plan matches LlmClientPlan::OpenAI { api_key } && Some(api_key) == key,
        },
        ProviderType::Anthropic => plan matches LlmClientPlan::Anthropic { api_key } && Some(api_key) == key,
        ProviderType::Aliyun => match base {
            Some(b) => plan matches LlmClientPlan::AliyunPrivate { api_key, base_url } && Some(api_key) == key && base_url == b,
            None => plan matches LlmClientPlan::Aliyun { api_key } && Some(api_key) == key,
        },
        ProviderType::Zhipu => plan matches LlmClientPlan::Zhipu { api_key } && Some(api_key) == key,
        ProviderType::Ollama => match base {
            Some(b) => plan matches LlmClientPlan::OllamaWithBaseUrl { base_url } && base_url == b,
            None => plan is Ollama,
        },
        ProviderType::Volcengine => plan matches LlmClientPlan::Volcengine { api_key } && Some(api_key) == key,
        ProviderType::Moonshot => plan matches LlmClientPlan::Moonshot { api_key } && Some(api_key) == key,
        ProviderType::DeepSeek => plan matches LlmClientPlan::DeepSeek { api_key } && Some(api_key) == key,
        ProviderType::Google => plan matches LlmClientPlan::Google { api_key } && Some(api_key) == key,
        ProviderType::AzureOpenAI => plan matches LlmClientPlan::AzureOpenAI { api_key, base_url, api_version }
            && Some(api_key) == key && Some(base_url) == base && api_version@ == match version {
            Some(v) => v@,
            None => default_azure_api_version(),
        },
        ProviderType::OpenAICompatible => plan matches LlmClientPlan::OpenAICompatible { api_key, base_url, name: n }
            && Some(api_key) == key && Some(base_url) == base && n@ == name,
        ProviderType::Pig => false,
    }
}

/// The error `from_config` gives, if any: a missing key is reported before
/// a missing base URL.
pub open spec fn plan_error(p: ProviderType, key: Option<String>, base: Option<String>) -> Option<LlmConfigError> {
    if p == ProviderType::Pig {
        Some(LlmConfigError::BuiltInProvider)
    } else if p != ProviderType::Ollama && key is None {
        Some(LlmConfigError::ApiKeyRequired(p))
    } else if (p == ProviderType::AzureOpenAI || p == ProviderType::OpenAICompatible) && base is None {
        Some(LlmConfigError::BaseUrlRequired(p))
    } else {
        None
    }
}

fn need_key(p: ProviderType, key: Option<String>) -> (r: Result<String, LlmConfigError>)
    ensures
        match r {
            Ok(k) => key == Some(k),
            Err(e) => key is None && e == LlmConfigError::ApiKeyRequired(p),
        },
{
    match key {
        Some(k) => Ok(k),
        None => Err(LlmConfigError::ApiKeyRequired(p)),
    }
}

fn need_base(p: ProviderType, base: Option<String>) -> (r: Result<String, LlmConfigError>)
    ensures
        match r {
            Ok(b) => base == Some(b),
            Err(e) => base is None && e == LlmConfigError::BaseUrlRequired(p),
        },
{
    match base {
        Some(b) => Ok(b),
        None => Err(LlmConfigError::BaseUrlRequired(p)),
    }
}

/// Chooses the client for a provider configuration.
pub fn from_config(
    provider_type: ProviderType,
    name: &str,
    api_key: Option<String>,
    api_base: Option<String>,
    api_version: Option<String>,
) -> (r: Result<LlmClientPlan, LlmConfigError>)
    ensures
        match r {
            Ok(plan) => plan_error(provider_type, api_key, api_base) is None && plan_ok(
                provider_type,
                name@,
                api_key,
                api_base,
                api_version,
                plan,
            ),
            Err(e) => plan_error(provider_type, api_key, api_base) == Some(e),
        },
{
    let p = provider_type;
    match provider_type {
        ProviderType::OpenAI => {
            let api_key = need_key(p, api_key)?;
            match api_base {
                Some(base_url) => Ok(LlmClientPlan::OpenAIWithBaseUrl { api_key, base_url }),
                None => Ok(LlmClientPlan::OpenAI { api_key }),
            }
        },
        ProviderType::Anthropic => {
            let api_key = need_key(p, api_key)?;
            Ok(LlmClientPlan::Anthropic { api_key })
        },
        ProviderType::Aliyun => {
            let api_key = need_key(p, api_key)?;
            match api_base {
                Some(base_url) => Ok(LlmClientPlan::AliyunPrivate { api_key, base_url }),
                None => Ok(LlmClientPlan::Aliyun { api_key }),
            }
        },
        ProviderType::Zhipu => {
            let api_key = need_key(p, api_key)?;
            Ok(LlmClientPlan::Zhipu { api_key })
        },
        ProviderType::Ollama => match api_base {
            Some(base_url) => Ok(LlmClientPlan::OllamaWithBaseUrl { base_url }),
            None => Ok(LlmClientPlan::Ollama),
        },
        ProviderType::Volcengine => {
            let api_key = need_key(p, api_key)?;
            Ok(LlmClientPlan::Volcengine { api_key })
        },
        ProviderType::Moonshot => {
            let api_key = need_key(p, api_key)?;
            Ok(LlmClientPlan::Moonshot { api_key })
        },
        ProviderType::DeepSeek => {
            let api_key = need_key(p, api_key)?;
            Ok(LlmClientPlan::DeepSeek { api_key })
        },
        ProviderType::Google => {
            let api_key = need_key(p, api_key)?;
            Ok(LlmClientPlan::Google { api_key })
        },
        ProviderType::AzureOpenAI => {
            let api_key = need_key(p, api_key)?;
            let base_url = need_base(p, api_base)?;
            let api_version = match api_version {
                Some(v) => v,
                None => str_to_owned("2024-02-15-preview"),
            };
            Ok(LlmClientPlan::AzureOpenAI { api_key, base_url, api_version })
        },
        ProviderType::OpenAICompatible => {
            let api_key = need_key(p, api_key)?;
            let base_url = need_base(p, api_base)?;
            Ok(LlmClientPlan::OpenAICompatible { api_key, base_url, name: str_to_owned(name) })
        },
        ProviderType::Pig => Err(LlmConfigError::BuiltInProvider),
    }
}

/// A provider that `requires_api_key` is refused without a key, except the
/// built-in one, which is refused in any case.
pub proof fn law_key_required(p: ProviderType, base: Option<String>)
    ensures
        (p != ProviderType::Ollama && p != ProviderType::Pig) ==> plan_error(p, None, base) == Some(
            LlmConfigError::ApiKeyRequired(p),
        ),
        p == ProviderType::Pig ==> plan_error(p, None, base) == Some(LlmConfigError::BuiltInProvider),
{
}


// ---------------------------------------------------------------------------
// Provider cache
// ---------------------------------------------------------------------------

/// Why no client is handed out for a provider.
#[derive(Debug, Clone, Copy, PartialEq, Eq, Structural)]
pub enum ProviderError {
    /// The provider is switched off.
    Disabled,
    /// The built-in provider is not served here.
    Unsupported,
    /// The configuration cannot make a client.
    Config(LlmConfigError),
}

/// Where a client came from.
#[derive(Debug, Clone, Copy, PartialEq, Eq, Structural)]
pub enum ProviderSource {
    /// It was built before and cached.
    Cached,
    /// It was built now and cached.
    Built,
}

/// The clients built so far, by provider id.
pub struct ProviderManager {
    providers: HashMap<i64, LlmClientPlan>,
}

impl View for ProviderManager {
    type V = Map<i64, LlmClientPlan>;

    closed spec fn view(&self) -> Map<i64, LlmClientPlan> {
        self.providers@
    }
}

impl ProviderManager {
    pub fn new() -> (r: ProviderManager)
        ensures
            r@ == Map::<i64, LlmClientPlan>::empty(),
            r@.dom().finite(),
    {
        ProviderManager { providers: HashMap::new() }
    }

    /// The client for a provider: the cached one, else one built from the
    /// configuration (and cached), unless the provider is off or built in.
    pub fn get_provider(
        &mut self,
        id: i64,
        enabled: bool,
        provider_type: ProviderType,
        name: &str,
        api_key: Option<String>,
        api_base: Option<String>,
        api_version: Option<String>,
    ) -> (r: Result<ProviderSource, ProviderError>)
        ensures
            final(self)@.dom().finite(),
            old(self)@.contains_key(id) ==> r == Ok::<ProviderSource, ProviderError>(ProviderSource::Cached)
                && final(self)@ == old(self)@,
            !old(self)@.contains_key(id) && !enabled ==> r == Err::<ProviderSource, ProviderError>(
                ProviderError::Disabled,
            ) && final(self)@ == old(self)@,
            !old(self)@.contains_key(id) && enabled && provider_type == ProviderType::Pig ==> r == Err::<
                ProviderSource,
                ProviderError,
            >(ProviderError::Unsupported) && final(self)@ == old(self)@,
            !old(self)@.contains_key(id) && enabled && provider_type != ProviderType::Pig ==> match r {
                Ok(src) => src == ProviderSource::Built && plan_error(provider_type, api_key, api_base)
                    is None && final(self)@.dom() == old(self)@.dom().insert(id) && plan_ok(
                    provider_type,
                    name@,
                    api_key,
                    api_base,
                    api_version,
                    final(self)@[id],
                ) && forall|k: i64| k != id && #[trigger] old(self)@.contains_key(k) ==> final(self)@[k]
                    == old(self)@[k],
                Err(e) => plan_error(provider_type, api_key, api_base) matches Some(c) && e
                    == ProviderError::Config(c) && final(self)@ == old(self)@,
            },
    {
        if self.providers.contains_key(&id) {
            return Ok(ProviderSource::Cached);
        }
        if !enabled {
            return Err(ProviderError::Disabled);
        }
        if provider_type == ProviderType::Pig {
            return Err(ProviderError::Unsupported);
        }
        match from_config(provider_type, name, api_key, api_base, api_version) {
            Ok(plan) => {
                self.providers.insert(id, plan);
                Ok(ProviderSource::Built)
            },
            Err(e) => Err(ProviderError::Config(e)),
        }
    }

    /// The client cached for a provider.
    pub fn plan(&self, id: i64) -> (r: Option<&LlmClientPlan>)
        ensures
            match r {
                Some(p) => self@.contains_key(id) && *p == self@[id],
                None => !self@.contains_key(id),
            },
    {
        self.providers.get(&id)
    }

    /// Forgets a provider's client.
    pub fn remove_provider(&mut self, id: i64)
        ensures
            final(self)@ == old(self)@.remove(id),
            final(self)@.dom().finite(),
    {
        self.providers.remove(&id);
        assert(self.providers@ =~= old(self).providers@.remove(id));
    }

    /// Forgets all clients.
    pub fn clear_cache(&mut self)
        ensures
            final(self)@ == Map::<i64, LlmClientPlan>::empty(),
            final(self)@.dom().finite(),
    {
        self.providers.clear();
    }
}

} // verus!
