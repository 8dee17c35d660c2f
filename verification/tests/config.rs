use smtp_relay::config::{default_smtp_port, Config, ConfigSource, StrategyConfig};

#[test]
fn default_port_is_2525() {
    assert_eq!(default_smtp_port(), 2525);
}

#[test]
fn default_strategy_is_a_local_webhook() {
    let s = StrategyConfig::default();
    assert_eq!(s.strategy_type, "webhook");
    assert_eq!(s.api_key, None);
    assert_eq!(s.api_url.as_deref(), Some("http://localhost:3000/email"));
    assert_eq!(s.from_address, None);
    assert_eq!(s.extra_headers, None);
}

#[test]
fn default_config_has_one_strategy() {
    let c = Config::default();
    assert_eq!(c.smtp_port, 2525);
    assert_eq!(c.strategies.len(), 1);
    assert_eq!(c.strategies[0].strategy_type, "webhook");
    assert_eq!(c.strategies[0].api_url.as_deref(), Some("http://localhost:3000/email"));
}

#[test]
fn config_is_looked_for_in_three_places() {
    assert_eq!(
        Config::paths(),
        vec![
            "config.json".to_string(),
            "smtp-relay.json".to_string(),
            "/etc/smtp-relay/config.json".to_string()
        ]
    );
}

fn chosen(present: &[bool]) -> Option<String> {
    match Config::load(&present.to_vec()) {
        ConfigSource::File(path) => Some(path),
        ConfigSource::Defaults(config) => {
            assert_eq!(config.smtp_port, 2525);
            assert_eq!(config.strategies.len(), 1);
            None
        }
    }
}

#[test]
fn the_first_file_present_is_loaded() {
    assert_eq!(chosen(&[true, true, true]).as_deref(), Some("config.json"));
    assert_eq!(chosen(&[false, true, true]).as_deref(), Some("smtp-relay.json"));
    assert_eq!(chosen(&[false, false, true]).as_deref(), Some("/etc/smtp-relay/config.json"));
    assert_eq!(chosen(&[true]).as_deref(), Some("config.json"));
    assert_eq!(chosen(&[false, false, false, true]), None);
}

#[test]
fn defaults_hold_where_no_file_is_present() {
    assert_eq!(chosen(&[false, false, false]), None);
    assert_eq!(chosen(&[]), None);
}
