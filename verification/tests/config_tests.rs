use backend::config::{resolve, ConfigError, ConfigLayer, Defaults, ServiceConfig};

fn defaults() -> Defaults {
    Defaults {
        host: None,
        pool_min: 1,
        pool_max: 8,
        connect_timeout: 5,
        idle_timeout: Some(600),
        extensions: None,
    }
}

fn layer_with_host(host: &str) -> ConfigLayer {
    let mut layer = ConfigLayer::empty();
    layer.host = Some(host.to_string());
    layer
}

#[test]
fn empty_layer_mentions_nothing() {
    let layer = ConfigLayer::empty();
    assert!(layer.host.is_none());
    assert!(layer.pool_min.is_none());
    assert!(layer.pool_max.is_none());
    assert!(layer.connect_timeout.is_none());
    assert!(layer.idle_timeout.is_none());
    assert!(layer.extensions.is_none());
}

#[test]
fn resolve_takes_defaults_where_no_layer_speaks() {
    let cfg = resolve(defaults(), layer_with_host("db://books"), ConfigLayer::empty()).unwrap();
    assert_eq!(cfg.host(), "db://books");
    assert_eq!(cfg.pool_min(), 1);
    assert_eq!(cfg.pool_max(), 8);
    assert_eq!(cfg.connect_timeout(), 5);
    assert_eq!(cfg.idle_timeout(), Some(600));
    assert_eq!(cfg.extensions(), &None);
}

#[test]
fn resolve_lets_the_file_override_the_defaults() {
    let mut file = layer_with_host("db://file");
    file.pool_min = Some(2);
    file.pool_max = Some(4);
    file.connect_timeout = Some(7);
    file.idle_timeout = Some(30);
    file.extensions = Some(vec!["uuid".to_string(), "trgm".to_string()]);
    let cfg = resolve(defaults(), file, ConfigLayer::empty()).unwrap();
    assert_eq!(cfg.host(), "db://file");
    assert_eq!(cfg.pool_min(), 2);
    assert_eq!(cfg.pool_max(), 4);
    assert_eq!(cfg.connect_timeout(), 7);
    assert_eq!(cfg.idle_timeout(), Some(30));
    assert_eq!(cfg.extensions(), &Some(vec!["uuid".to_string(), "trgm".to_string()]));
}

#[test]
fn resolve_lets_the_environment_override_the_file() {
    let mut file = layer_with_host("db://file");
    file.pool_max = Some(4);
    file.connect_timeout = Some(7);
    let mut env = layer_with_host("db://env");
    env.pool_max = Some(16);
    let cfg = resolve(defaults(), file, env).unwrap();
    assert_eq!(cfg.host(), "db://env");
    assert_eq!(cfg.pool_max(), 16);
    // The file still speaks where the environment is silent.
    assert_eq!(cfg.connect_timeout(), 7);
    // And the defaults where both are.
    assert_eq!(cfg.pool_min(), 1);
}

#[test]
fn resolve_takes_the_host_from_the_defaults_if_it_is_there() {
    let mut d = defaults();
    d.host = Some("db://default".to_string());
    let cfg = resolve(d, ConfigLayer::empty(), ConfigLayer::empty()).unwrap();
    assert_eq!(cfg.host(), "db://default");
}

#[test]
fn resolve_fails_without_a_host() {
    let res = resolve(defaults(), ConfigLayer::empty(), ConfigLayer::empty());
    assert_eq!(res.unwrap_err(), ConfigError::MissingHost);
}

#[test]
fn resolve_fails_when_min_is_above_max() {
    let mut env = layer_with_host("db://books");
    env.pool_min = Some(9);
    let res = resolve(defaults(), ConfigLayer::empty(), env);
    assert_eq!(res.unwrap_err(), ConfigError::InvalidPoolBounds);
}

#[test]
fn resolve_checks_the_bounds_after_the_merge() {
    // Each layer alone is in order; merged, min 6 meets max 4.
    let mut file = layer_with_host("db://books");
    file.pool_min = Some(6);
    let mut env = ConfigLayer::empty();
    env.pool_max = Some(4);
    let res = resolve(defaults(), file, env);
    assert_eq!(res.unwrap_err(), ConfigError::InvalidPoolBounds);
}

#[test]
fn resolve_accepts_equal_bounds_and_an_empty_pool() {
    let mut env = layer_with_host("db://books");
    env.pool_min = Some(3);
    env.pool_max = Some(3);
    let cfg = resolve(defaults(), ConfigLayer::empty(), env).unwrap();
    assert_eq!((cfg.pool_min(), cfg.pool_max()), (3, 3));

    let mut env = layer_with_host("db://books");
    env.pool_min = Some(0);
    env.pool_max = Some(0);
    let cfg = resolve(defaults(), ConfigLayer::empty(), env).unwrap();
    assert_eq!((cfg.pool_min(), cfg.pool_max()), (0, 0));
}

#[test]
fn resolve_reports_a_missing_host_before_wrong_bounds() {
    let mut env = ConfigLayer::empty();
    env.pool_min = Some(9);
    let res = resolve(defaults(), ConfigLayer::empty(), env);
    assert_eq!(res.unwrap_err(), ConfigError::MissingHost);
}

#[test]
fn resolve_gives_the_same_snapshot_for_the_same_sources() {
    let mut file = layer_with_host("db://file");
    file.pool_max = Some(4);
    let mut env = ConfigLayer::empty();
    env.idle_timeout = Some(1);
    let first = resolve(defaults(), file.clone(), env.clone()).unwrap();
    let second = resolve(defaults(), file, env).unwrap();
    assert_eq!(first.host(), second.host());
    assert_eq!(first.pool_min(), second.pool_min());
    assert_eq!(first.pool_max(), second.pool_max());
    assert_eq!(first.connect_timeout(), second.connect_timeout());
    assert_eq!(first.idle_timeout(), second.idle_timeout());
    assert_eq!(first.extensions(), second.extensions());
}

#[test]
fn overlay_prefers_the_upper_layer_setting_by_setting() {
    let mut lower = layer_with_host("db://lower");
    lower.pool_min = Some(1);
    lower.idle_timeout = Some(10);
    let mut upper = ConfigLayer::empty();
    upper.pool_min = Some(2);
    upper.extensions = Some(vec!["x".to_string()]);
    let merged = lower.overlay(upper);
    assert_eq!(merged.host, Some("db://lower".to_string()));
    assert_eq!(merged.pool_min, Some(2));
    assert_eq!(merged.pool_max, None);
    assert_eq!(merged.connect_timeout, None);
    assert_eq!(merged.idle_timeout, Some(10));
    assert_eq!(merged.extensions, Some(vec!["x".to_string()]));
}

#[test]
fn defaults_overlay_keeps_a_value_for_every_setting() {
    let mut upper = ConfigLayer::empty();
    upper.connect_timeout = Some(9);
    let merged = defaults().overlay(upper);
    assert_eq!(merged.host, None);
    assert_eq!(merged.pool_min, 1);
    assert_eq!(merged.pool_max, 8);
    assert_eq!(merged.connect_timeout, 9);
    assert_eq!(merged.idle_timeout, Some(600));
}

#[test]
fn checked_freezes_merged_settings() {
    let mut d = defaults();
    d.host = Some("db://books".to_string());
    let cfg = ServiceConfig::checked(d).unwrap();
    assert_eq!(cfg.host(), "db://books");

    let mut d = defaults();
    d.host = Some("db://books".to_string());
    d.pool_min = 9;
    assert_eq!(ServiceConfig::checked(d).unwrap_err(), ConfigError::InvalidPoolBounds);
}
