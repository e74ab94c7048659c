use cedro::observability::labels;
use cedro::observability::ObservabilityConfig;

#[test]
fn default_config_is_well_formed() {
    let cfg = ObservabilityConfig::default();
    assert_eq!(cfg.default_filter, "info");
    assert!(cfg.json);
    assert!(cfg.prometheus_bind.is_some());
}

#[test]
fn prometheus_install_with_no_bind_is_a_noop() {
    let cfg = ObservabilityConfig {
        default_filter: "warn".into(),
        json: false,
        prometheus_bind: None,
    };
    assert!(cfg.prometheus_bind.is_none());
}

#[test]
fn labels_are_as_dashboards_expect() {
    assert_eq!(labels::TICKER, "ticker");
    assert_eq!(labels::MARKET, "market");
    assert_eq!(labels::KIND, "kind");
    assert_eq!(labels::REASON, "reason");
    assert_eq!(labels::ENDPOINT, "endpoint");
    assert_eq!(labels::STATUS, "status");
    assert_eq!(labels::CHANNEL, "channel");
}
