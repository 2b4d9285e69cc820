//! Application settings: update endpoints, LLM providers, how databases open
//! in tabs, and the menu and sidebar vocabulary of the database view.
use vstd::prelude::*;
use crate::text::{
    all_ascii, ascii_lowercase, ascii_uppercase, lemma_ascii_case_fold,str_eq, to_lowercase, unicode_lowercase, trim, is_blank, str_to_owned};

verus! {

// ---------------------------------------------------------------------------
// Update endpoints
// ---------------------------------------------------------------------------

/// Update check configuration.
#[derive(Debug, Clone)]
pub struct UpdateConfig {
    /// Version check endpoint.
    pub update_url: String,
    /// Download page (optional).
    pub download_url: Option<String>,
}

/// Whether a value counts as set: present and not only whitespace.
pub open spec fn is_set(v: Option<String>) -> bool {
    match v {
        Some(s) => trim(s@).len() > 0,
        None => false,
    }
}

/// The update endpoint: the run-time value if set, else the build-time one
/// as it is (possibly empty).
pub open spec fn pick_update_url(runtime: Option<String>, build_time: Option<String>) -> Seq<char> {
    if is_set(runtime) {
        runtime.unwrap()@
    } else {
        match build_time {
            Some(s) => s@,
            None => Seq::empty(),
        }
    }
}

/// The download page: the run-time value if set, else the build-time one if
/// set, else none.
pub open spec fn pick_download_url(runtime: Option<String>, build_time: Option<String>) -> Option<
    Seq<char>,
> {
    if is_set(runtime) {
        Some(runtime.unwrap()@)
    } else if is_set(build_time) {
        Some(build_time.unwrap()@)
    } else {
        None
    }
}

fn is_set_exec(v: &Option<String>) -> (r: bool)
    ensures
        r == is_set(*v),
{
    match v {
        Some(s) => !is_blank(s.as_str()),
        None => false,
    }
}

impl UpdateConfig {
    /// The update configuration from the run-time environment values and the
    /// values fixed at build time; a run-time value wins where it is set.
    pub fn get(
        runtime_update_url: Option<String>,
        build_update_url: Option<String>,
        runtime_download_url: Option<String>,
        build_download_url: Option<String>,
    ) -> (r: UpdateConfig)
        ensures
            r.update_url@ == pick_update_url(runtime_update_url, build_update_url),
            match r.download_url {
                Some(d) => pick_download_url(runtime_download_url, build_download_url) == Some(d@),
                None => pick_download_url(runtime_download_url, build_download_url) is None,
            },
    {
        UpdateConfig {
            update_url: Self::get_update_url(runtime_update_url, build_update_url),
            download_url: Self::get_download_url(runtime_download_url, build_download_url),
        }
    }

    /// The update endpoint: the run-time value where it is set, else the
    /// build-time value as it is, else empty.
    pub fn get_update_url(runtime: Option<String>, build_time: Option<String>) -> (r: String)
        ensures
            r@ == pick_update_url(runtime, build_time),
    {
        if is_set_exec(&runtime) {
            runtime.unwrap()
        } else {
            match build_time {
                Some(s) => s,
                None => String::new(),
            }
        }
    }

    /// The download page: the run-time value where it is set, else the
    /// build-time value where it is set, else none.
    pub fn get_download_url(runtime: Option<String>, build_time: Option<String>) -> (r: Option<String>)
        ensures
            match r {
                Some(d) => pick_download_url(runtime, build_time) == Some(d@),
                None => pick_download_url(runtime, build_time) is None,
            },
    {
        if is_set_exec(&runtime) {
            runtime
        } else if is_set_exec(&build_time) {
            build_time
        } else {
            None
        }
    }

    /// Whether an update endpoint is configured.
    pub fn is_valid(&self) -> (r: bool)
        ensures
            r == (trim(self.update_url@).len() > 0),
    {
        !is_blank(self.update_url.as_str())
    }
}

// ---------------------------------------------------------------------------
// LLM providers
// ---------------------------------------------------------------------------

#[derive(Debug, Clone, Copy, PartialEq, Eq, Structural)]
pub enum ProviderType {
    OpenAI,
    Anthropic,
    Aliyun,
    Zhipu,
    Ollama,
    Volcengine,
    Moonshot,
    DeepSeek,
    Google,
    AzureOpenAI,
    OpenAICompatible,
    Pig,
}

/// Every provider, in declaration order.
pub open spec fn all_providers() -> Seq<ProviderType> {
    seq![
        ProviderType::OpenAI,
        ProviderType::Anthropic,
        ProviderType::Aliyun,
        ProviderType::Zhipu,
        ProviderType::Ollama,
        ProviderType::Volcengine,
        ProviderType::Moonshot,
        ProviderType::DeepSeek,
        ProviderType::Google,
        ProviderType::AzureOpenAI,
        ProviderType::OpenAICompatible,
        ProviderType::Pig,
    ]
}

impl ProviderType {
    /// The provider's key.
    pub open spec fn key(self) -> Seq<char> {
        match self {
            ProviderType::OpenAI => "openai"@,
            ProviderType::Anthropic => "anthropic"@,
            ProviderType::Aliyun => "aliyun"@,
            ProviderType::Zhipu => "zhipu"@,
            ProviderType::Ollama => "ollama"@,
            ProviderType::Volcengine => "volcengine"@,
            ProviderType::Moonshot => "moonshot"@,
            ProviderType::DeepSeek => "deepseek"@,
            ProviderType::Google => "google"@,
            ProviderType::AzureOpenAI => "azure_openai"@,
            ProviderType::OpenAICompatible => "openai_compatible"@,
            ProviderType::Pig => "pig"@,
        }
    }

    /// The provider whose key is `k`.
    pub open spec fn from_key(k: Seq<char>) -> Option<ProviderType> {
        if k == "openai"@ {
            Some(ProviderType::OpenAI)
        } else if k == "anthropic"@ {
            Some(ProviderType::Anthropic)
        } else if k == "aliyun"@ {
            Some(ProviderType::Aliyun)
        } else if k == "zhipu"@ {
            Some(ProviderType::Zhipu)
        } else if k == "ollama"@ {
            Some(ProviderType::Ollama)
        } else if k == "volcengine"@ {
            Some(ProviderType::Volcengine)
        } else if k == "moonshot"@ {
            Some(ProviderType::Moonshot)
        } else if k == "deepseek"@ {
            Some(ProviderType::DeepSeek)
        } else if k == "google"@ {
            Some(ProviderType::Google)
        } else if k == "azure_openai"@ {
            Some(ProviderType::AzureOpenAI)
        } else if k == "openai_compatible"@ {
            Some(ProviderType::OpenAICompatible)
        } else if k == "pig"@ {
            Some(ProviderType::Pig)
        } else {
            None
        }
    }

    pub open spec fn display_name_spec(self) -> Seq<char> {
        match self {
            ProviderType::OpenAI => "OpenAI"@,
            ProviderType::Anthropic => "Anthropic"@,
            ProviderType::Aliyun => "Aliyun (DashScope)"@,
            ProviderType::Zhipu => "Zhipu (GLM)"@,
            ProviderType::Ollama => "Ollama"@,
            ProviderType::Volcengine => "Volcengine"@,
            ProviderType::Moonshot => "Moonshot"@,
            ProviderType::DeepSeek => "DeepSeek"@,
            ProviderType::Google => "Google (Gemini)"@,
            ProviderType::AzureOpenAI => "Azure OpenAI"@,
            ProviderType::OpenAICompatible => "OpenAI Compatible"@,
            ProviderType::Pig => "Pig"@,
        }
    }

    pub fn as_str(&self) -> (r: &'static str)
        ensures
            r@ == self.key(),
    {
        match self {
            ProviderType::OpenAI => "openai",
            ProviderType::Anthropic => "anthropic",
            ProviderType::Aliyun => "aliyun",
            ProviderType::Zhipu => "zhipu",
            ProviderType::Ollama => "ollama",
            ProviderType::Volcengine => "volcengine",
            ProviderType::Moonshot => "moonshot",
            ProviderType::DeepSeek => "deepseek",
            ProviderType::Google => "google",
            ProviderType::AzureOpenAI => "azure_openai",
            ProviderType::OpenAICompatible => "openai_compatible",
            ProviderType::Pig => "pig",
        }
    }

    /// The provider whose key is `s` once lower-cased.
    pub fn from_str(s: &str) -> (r: Option<ProviderType>)
        ensures
            r == Self::from_key(unicode_lowercase(s@)),
            all_ascii(s@) ==> r == Self::from_key(ascii_lowercase(s@)),
    {
        let lower = to_lowercase(s);
        let k = lower.as_str();
        if str_eq(k, "openai") {
            Some(ProviderType::OpenAI)
        } else if str_eq(k, "anthropic") {
            Some(ProviderType::Anthropic)
        } else if str_eq(k, "aliyun") {
            Some(ProviderType::Aliyun)
        } else if str_eq(k, "zhipu") {
            Some(ProviderType::Zhipu)
        } else if str_eq(k, "ollama") {
            Some(ProviderType::Ollama)
        } else if str_eq(k, "volcengine") {
            Some(ProviderType::Volcengine)
        } else if str_eq(k, "moonshot") {
            Some(ProviderType::Moonshot)
        } else if str_eq(k, "deepseek") {
            Some(ProviderType::DeepSeek)
        } else if str_eq(k, "google") {
            Some(ProviderType::Google)
        } else if str_eq(k, "azure_openai") {
            Some(ProviderType::AzureOpenAI)
        } else if str_eq(k, "openai_compatible") {
            Some(ProviderType::OpenAICompatible)
        } else if str_eq(k, "pig") {
            Some(ProviderType::Pig)
        } else {
            None
        }
    }

    pub fn display_name(&self) -> (r: &'static str)
        ensures
            r@ == self.display_name_spec(),
    {
        match self {
            ProviderType::OpenAI => "OpenAI",
            ProviderType::Anthropic => "Anthropic",
            ProviderType::Aliyun => "Aliyun (DashScope)",
            ProviderType::Zhipu => "Zhipu (GLM)",
            ProviderType::Ollama => "Ollama",
            ProviderType::Volcengine => "Volcengine",
            ProviderType::Moonshot => "Moonshot",
            ProviderType::DeepSeek => "DeepSeek",
            ProviderType::Google => "Google (Gemini)",
            ProviderType::AzureOpenAI => "Azure OpenAI",
            ProviderType::OpenAICompatible => "OpenAI Compatible",
            ProviderType::Pig => "Pig",
        }
    }

    pub fn all() -> (r: Vec<ProviderType>)
        ensures
            r@ == all_providers(),
    {
        vec![
            ProviderType::OpenAI,
            ProviderType::Anthropic,
            ProviderType::Aliyun,
            ProviderType::Zhipu,
            ProviderType::Ollama,
            ProviderType::Volcengine,
            ProviderType::Moonshot,
            ProviderType::DeepSeek,
            ProviderType::Google,
            ProviderType::AzureOpenAI,
            ProviderType::OpenAICompatible,
            ProviderType::Pig,
        ]
    }

    /// Every provider but the local ones (Ollama, Pig) needs an API key.
    pub fn requires_api_key(&self) -> (r: bool)
        ensures
            r == !(*self == ProviderType::Ollama || *self == ProviderType::Pig),
    {
        !(*self == ProviderType::Ollama || *self == ProviderType::Pig)
    }

    /// Whether the provider is built in (needs no user configuration).
    pub fn is_builtin(&self) -> (r: bool)
        ensures
            r == false,
    {
        false
    }

    /// The providers a user can configure: all that are not built in, in
    /// the order of `all`.
    pub fn user_configurable() -> (r: Vec<ProviderType>)
        ensures
            r@ == all_providers(),
    {
        let all = Self::all();
        let mut out: Vec<ProviderType> = Vec::new();
        let mut i: usize = 0;
        while i < all.len()
            invariant
                i <= all.len(),
                all@ == all_providers(),
                out@ == all@.subrange(0, i as int),
            decreases all.len() - i,
        {
            let p = all[i];
            if !p.is_builtin() {
                out.push(p);
            }
            assert(all@.subrange(0, i + 1) =~= all@.subrange(0, i as int).push(p));
            i += 1;
        }
        assert(all@.subrange(0, all@.len() as int) =~= all@);
        out
    }
}

/// A provider's key is ASCII, and read back as `from_str` reads ASCII text
/// it gives that provider, whether written in lower case or upper case;
/// and ASCII text reads alike in either case.
pub proof fn law_provider_from_str_round_trip(p: ProviderType, s: Seq<char>)
    ensures
        all_ascii(p.key()),
        ProviderType::from_key(ascii_lowercase(p.key())) == Some(p),
        ProviderType::from_key(ascii_lowercase(ascii_uppercase(p.key()))) == Some(p),
        ProviderType::from_key(ascii_lowercase(ascii_uppercase(s))) == ProviderType::from_key(ascii_lowercase(s)),
{
    lemma_ascii_case_fold(s);
    lemma_ascii_case_fold(p.key());
    law_provider_key_round_trip(p);
    let k = p.key();
    reveal_strlit("openai");
    reveal_strlit("anthropic");
    reveal_strlit("aliyun");
    reveal_strlit("zhipu");
    reveal_strlit("ollama");
    reveal_strlit("volcengine");
    reveal_strlit("moonshot");
    reveal_strlit("deepseek");
    reveal_strlit("google");
    reveal_strlit("azure_openai");
    reveal_strlit("openai_compatible");
    reveal_strlit("pig");
    assert forall|i: int| 0 <= i < k.len() implies (#[trigger] k[i]) <= '\u{7f}' && !('A' <= k[i] && k[i] <= 'Z') by {}
    assert(ascii_lowercase(k) =~= k);
}

/// A provider's key reads back as that provider.
pub proof fn law_provider_key_round_trip(p: ProviderType)
    ensures
        ProviderType::from_key(p.key()) == Some(p),
{
    reveal_strlit("openai");
    reveal_strlit("anthropic");
    reveal_strlit("aliyun");
    reveal_strlit("zhipu");
    reveal_strlit("ollama");
    reveal_strlit("volcengine");
    reveal_strlit("moonshot");
    reveal_strlit("deepseek");
    reveal_strlit("google");
    reveal_strlit("azure_openai");
    reveal_strlit("openai_compatible");
    reveal_strlit("pig");
    assert("openai"@.len() == 6 && "openai"@[0] == 'o' && "openai"@[1] == 'p');
    assert("anthropic"@.len() == 9 && "anthropic"@[0] == 'a' && "anthropic"@[1] == 'n');
    assert("aliyun"@.len() == 6 && "aliyun"@[0] == 'a' && "aliyun"@[1] == 'l');
    assert("zhipu"@.len() == 5 && "zhipu"@[0] == 'z' && "zhipu"@[1] == 'h');
    assert("ollama"@.len() == 6 && "ollama"@[0] == 'o' && "ollama"@[1] == 'l');
    assert("volcengine"@.len() == 10 && "volcengine"@[0] == 'v' && "volcengine"@[1] == 'o');
    assert("moonshot"@.len() == 8 && "moonshot"@[0] == 'm' && "moonshot"@[1] == 'o');
    assert("deepseek"@.len() == 8 && "deepseek"@[0] == 'd' && "deepseek"@[1] == 'e');
    assert("google"@.len() == 6 && "google"@[0] == 'g' && "google"@[1] == 'o');
    assert("azure_openai"@.len() == 12 && "azure_openai"@[0] == 'a' && "azure_openai"@[1] == 'z');
    assert("openai_compatible"@.len() == 17 && "openai_compatible"@[0] == 'o' && "openai_compatible"@[1] == 'p');
    assert("pig"@.len() == 3 && "pig"@[0] == 'p' && "pig"@[1] == 'i');
    match p {
        ProviderType::OpenAI => {},
        ProviderType::Anthropic => {},
        ProviderType::Aliyun => {},
        ProviderType::Zhipu => {},
        ProviderType::Ollama => {},
        ProviderType::Volcengine => {},
        ProviderType::Moonshot => {},
        ProviderType::DeepSeek => {},
        ProviderType::Google => {},
        ProviderType::AzureOpenAI => {},
        ProviderType::OpenAICompatible => {},
        ProviderType::Pig => {},
    }
}

// ---------------------------------------------------------------------------
// Settings
// ---------------------------------------------------------------------------

/// How databases open in tabs.
#[derive(Debug, Clone, Copy, PartialEq, Eq, Structural)]
pub enum DatabaseOpenMode {
    /// One tab per database.
    Single,
    /// One tab per workspace.
    Workspace,
}

impl DatabaseOpenMode {
    pub open spec fn name_spec(self) -> Seq<char> {
        match self {
            DatabaseOpenMode::Single => "single"@,
            DatabaseOpenMode::Workspace => "workspace"@,
        }
    }

    pub fn as_str(&self) -> (r: &'static str)
        ensures
            r@ == self.name_spec(),
    {
        match self {
            DatabaseOpenMode::Single => "single",
            DatabaseOpenMode::Workspace => "workspace",
        }
    }

    /// `"workspace"` is the workspace mode; anything else is single.
    pub fn from_str(s: &str) -> (r: DatabaseOpenMode)
        ensures
            r == (if s@ == "workspace"@ {
                DatabaseOpenMode::Workspace
            } else {
                DatabaseOpenMode::Single
            }),
    {
        if str_eq(s, "workspace") {
            DatabaseOpenMode::Workspace
        } else {
            DatabaseOpenMode::Single
        }
    }
}

/// Reading a mode's name back gives the mode.
pub proof fn law_open_mode_round_trip(m: DatabaseOpenMode)
    ensures
        (if m.name_spec() == "workspace"@ {
            DatabaseOpenMode::Workspace
        } else {
            DatabaseOpenMode::Single
        }) == m,
{
    match m {
        DatabaseOpenMode::Single => {
            reveal_strlit("single");
            reveal_strlit("workspace");
            assert("single"@.len() != "workspace"@.len());
        },
        DatabaseOpenMode::Workspace => {},
    }
}

/// Default font family of the editor.
pub fn default_font_family() -> (r: String)
    ensures
        r@ == "Arial"@,
{
    str_to_owned("Arial")
}

/// Default of the settings that are on unless turned off.
pub fn default_true() -> (r: bool)
    ensures
        r,
{
    true
}

// ---------------------------------------------------------------------------
// Database view menus and sidebar
// ---------------------------------------------------------------------------

/// What a toolbar button acts on.
#[derive(Debug, Clone, Copy, PartialEq, Eq, Structural)]
pub enum ToolbarButtonType {
    /// The selected tree node (refresh, create).
    CurrentNode,
    /// The selected table rows (delete, edit).
    SelectedRow,
}

/// What choosing a context menu item does.
#[derive(Debug, Clone)]
pub enum ContextMenuEvent {
    /// A tree view event, named.
    TreeEvent(String),
    /// A custom handler, named.
    Custom(String),
}

/// A context menu entry.
#[derive(Debug)]
pub enum ContextMenuItem {
    Item { label: String, event: ContextMenuEvent, requires_active: bool },
    Separator,
    Submenu { label: String, items: Vec<ContextMenuItem>, requires_active: bool },
}

impl ContextMenuItem {
    /// An item that needs an active connection.
    pub fn item(label: String, event: String) -> (r: ContextMenuItem)
        ensures
            r == (ContextMenuItem::Item {
                label,
                event: ContextMenuEvent::TreeEvent(event),
                requires_active: true,
            }),
    {
        ContextMenuItem::Item { label, event: ContextMenuEvent::TreeEvent(event), requires_active: true }
    }

    /// An item that works without an active connection (such as deleting it).
    pub fn always_enabled_item(label: String, event: String) -> (r: ContextMenuItem)
        ensures
            r == (ContextMenuItem::Item {
                label,
                event: ContextMenuEvent::TreeEvent(event),
                requires_active: false,
            }),
    {
        ContextMenuItem::Item {
            label,
            event: ContextMenuEvent::TreeEvent(event),
            requires_active: false,
        }
    }

    pub fn separator() -> (r: ContextMenuItem)
        ensures
            r == ContextMenuItem::Separator,
    {
        ContextMenuItem::Separator
    }

    /// A submenu that needs an active connection.
    pub fn submenu(label: String, items: Vec<ContextMenuItem>) -> (r: ContextMenuItem)
        ensures
            r == (ContextMenuItem::Submenu { label, items, requires_active: true }),
    {
        ContextMenuItem::Submenu { label, items, requires_active: true }
    }
}

/// What the table designer of a database offers.
#[derive(Debug, Clone, Copy)]
pub struct TableDesignerCapabilities {
    pub supports_engine: bool,
    pub supports_charset: bool,
    pub supports_collation: bool,
    pub supports_auto_increment: bool,
    pub supports_tablespace: bool,
}

/// What the column editor of a database offers.
#[derive(Debug, Clone, Copy)]
pub struct ColumnEditorCapabilities {
    pub supports_unsigned: bool,
    pub supports_enum_values: bool,
    pub show_charset_in_detail: bool,
    pub show_collation_in_detail: bool,
}

impl Default for TableDesignerCapabilities {
    fn default() -> (r: Self)
        ensures
            !r.supports_engine && !r.supports_charset && !r.supports_collation
                && !r.supports_auto_increment && !r.supports_tablespace,
    {
        TableDesignerCapabilities {
            supports_engine: false,
            supports_charset: false,
            supports_collation: false,
            supports_auto_increment: false,
            supports_tablespace: false,
        }
    }
}

impl Default for ColumnEditorCapabilities {
    fn default() -> (r: Self)
        ensures
            !r.supports_unsigned && !r.supports_enum_values && !r.show_charset_in_detail
                && !r.show_collation_in_detail,
    {
        ColumnEditorCapabilities {
            supports_unsigned: false,
            supports_enum_values: false,
            show_charset_in_detail: false,
            show_collation_in_detail: false,
        }
    }
}

/// Panels of the database sidebar.
#[derive(Debug, Clone, Copy, PartialEq, Eq, Structural)]
pub enum SidebarPanel {
    AiChat,
}

/// Events the database sidebar emits.
#[derive(Debug, Clone, Copy, PartialEq, Eq, Structural)]
pub enum DatabaseSidebarEvent {
    PanelChanged,
    AskAi,
}

} // verus!
