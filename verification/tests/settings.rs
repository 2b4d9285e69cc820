use onetcli::settings::{
    default_font_family, default_true, ContextMenuItem, DatabaseOpenMode, ProviderType,
    UpdateConfig,
};

#[test]
fn update_config_prefers_runtime_values() {
    let c = UpdateConfig::get(Some("  ".to_string()), Some("https://build".to_string()), Some("https://rt".to_string()), Some("https://bd".to_string()));
    assert_eq!(c.update_url, "https://build");
    assert_eq!(c.download_url, Some("https://rt".to_string()));
    assert!(c.is_valid());
    let d = UpdateConfig::get(None, None, None, Some(" ".to_string()));
    assert_eq!(d.update_url, "");
    assert_eq!(d.download_url, None);
    assert!(!d.is_valid());
}

#[test]
fn provider_keys_round_trip() {
    for p in ProviderType::all() {
        assert_eq!(ProviderType::from_str(p.as_str()), Some(p));
    }
    assert_eq!(ProviderType::from_str("OpenAI"), Some(ProviderType::OpenAI));
    assert_eq!(ProviderType::from_str("unknown"), None);
    assert_eq!(ProviderType::Aliyun.display_name(), "Aliyun (DashScope)");
    assert!(!ProviderType::Ollama.requires_api_key());
    assert!(ProviderType::OpenAI.requires_api_key());
    assert!(!ProviderType::Pig.is_builtin());
    assert_eq!(ProviderType::user_configurable().len(), 12);
}

#[test]
fn open_mode_and_defaults() {
    assert_eq!(DatabaseOpenMode::from_str("workspace"), DatabaseOpenMode::Workspace);
    assert_eq!(DatabaseOpenMode::from_str("other"), DatabaseOpenMode::Single);
    assert_eq!(DatabaseOpenMode::Single.as_str(), "single");
    assert_eq!(default_font_family(), "Arial");
    assert!(default_true());
}

#[test]
fn menu_items() {
    match ContextMenuItem::always_enabled_item("Delete".to_string(), "delete".to_string()) {
        ContextMenuItem::Item { requires_active, .. } => assert!(!requires_active),
        _ => panic!("not an item"),
    }
    match ContextMenuItem::submenu("New".to_string(), vec![ContextMenuItem::separator()]) {
        ContextMenuItem::Submenu { items, requires_active, .. } => {
            assert!(requires_active);
            assert_eq!(items.len(), 1);
        }
        _ => panic!("not a submenu"),
    }
}

#[test]
fn update_urls_prefer_runtime_values() {
    assert_eq!(UpdateConfig::get_update_url(Some("https://rt".to_string()), Some("https://b".to_string())), "https://rt");
    assert_eq!(UpdateConfig::get_update_url(Some(" \t".to_string()), Some("https://b".to_string())), "https://b");
    assert_eq!(UpdateConfig::get_update_url(None, None), "");
    assert_eq!(UpdateConfig::get_update_url(None, Some("  ".to_string())), "  ");
    assert_eq!(UpdateConfig::get_download_url(None, Some("  ".to_string())), None);
    assert_eq!(UpdateConfig::get_download_url(Some("".to_string()), Some("https://d".to_string())), Some("https://d".to_string()));
    assert_eq!(UpdateConfig::get_download_url(Some("https://r".to_string()), Some("https://d".to_string())), Some("https://r".to_string()));
}

#[test]
fn provider_keys_read_in_any_ascii_case() {
    for p in ProviderType::all() {
        assert_eq!(ProviderType::from_str(p.as_str()), Some(p));
        assert_eq!(ProviderType::from_str(&p.as_str().to_uppercase()), Some(p));
    }
    assert_eq!(ProviderType::from_str("DeepSeek"), Some(ProviderType::DeepSeek));
    assert_eq!(ProviderType::from_str("openai "), None);
}
