use cedro::client::config::{ConnectionConfig, Ratio};

fn config(host: &str, username: &str, password: &str) -> ConnectionConfig {
    ConnectionConfig::new(host.to_owned(), username.to_owned(), password.to_owned())
}

fn ratio(v: f64) -> Ratio {
    Ratio { bits: v.to_bits() }
}

#[test]
fn defaults_validate() {
    let cfg = config("127.0.0.1", "user", "pass");
    cfg.validate().unwrap();
}

#[test]
fn warn_must_be_below_panic() {
    let mut cfg = config("127.0.0.1", "u", "p");
    cfg.backpressure_warn_ratio = ratio(0.5);
    cfg.backpressure_panic_ratio = ratio(0.4);
    assert!(cfg.validate().is_err());
}
