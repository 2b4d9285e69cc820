use onetcli::settings::UpdateConfig;

#[test]
fn test_update_config_get() {
    let config = UpdateConfig::get(None, None, None, None);
    let _ = config.is_valid();
}
