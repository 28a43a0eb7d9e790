use boab::config::{get_value, set_value, Config};

#[test]
fn defaults() {
    let cfg = Config::default();
    assert_eq!(get_value(&cfg, "schema_version").as_deref(), Some("1"));
    assert_eq!(get_value(&cfg, "scanner.default_rate_limit").as_deref(), Some("1/second"));
    assert_eq!(get_value(&cfg, "scanner.tls_timeout_seconds").as_deref(), Some("10"));
    assert_eq!(get_value(&cfg, "scanner.air_gapped").as_deref(), Some("true"));
    assert_eq!(get_value(&cfg, "reporting.default_format").as_deref(), Some("md"));
    assert_eq!(get_value(&cfg, "nope"), None);
}

#[test]
fn set_then_get() {
    let mut cfg = Config::default();
    set_value(&mut cfg, "scanner.air_gapped", "false").unwrap();
    assert_eq!(get_value(&cfg, "scanner.air_gapped").as_deref(), Some("false"));
    set_value(&mut cfg, "scanner.tls_timeout_seconds", "+030").unwrap();
    assert_eq!(get_value(&cfg, "scanner.tls_timeout_seconds").as_deref(), Some("30"));
    set_value(&mut cfg, "reporting.default_format", "cbom").unwrap();
    assert_eq!(get_value(&cfg, "reporting.default_format").as_deref(), Some("cbom"));
    set_value(&mut cfg, "scanner.default_rate_limit", "5/minute").unwrap();
    assert_eq!(get_value(&cfg, "scanner.default_rate_limit").as_deref(), Some("5/minute"));
    set_value(&mut cfg, "schema_version", "4294967295").unwrap();
    assert_eq!(get_value(&cfg, "schema_version").as_deref(), Some("4294967295"));
}

#[test]
fn refused_values_leave_the_config_unchanged() {
    let mut cfg = Config::default();
    let e = set_value(&mut cfg, "scanner.air_gapped", "yes").unwrap_err();
    assert_eq!(
        e.message(),
        "air_gapped must be true or false: provided string was not `true` or `false`"
    );
    let e = set_value(&mut cfg, "schema_version", "4294967296").unwrap_err();
    assert_eq!(e.message(), "schema_version must be a u32: number too large to fit in target type");
    let e = set_value(&mut cfg, "scanner.tls_timeout_seconds", "").unwrap_err();
    assert_eq!(
        e.message(),
        "tls_timeout_seconds must be a u64: cannot parse integer from empty string"
    );
    let e = set_value(&mut cfg, "scanner.tls_timeout_seconds", "1 0").unwrap_err();
    assert_eq!(e.message(), "tls_timeout_seconds must be a u64: invalid digit found in string");
    let e = set_value(&mut cfg, "reporting.default_format", "html").unwrap_err();
    assert_eq!(e.message(), "default_format must be one of: json, md, cbom");
    let e = set_value(&mut cfg, "scanner.colour", "x").unwrap_err();
    assert_eq!(e.message(), "unknown config key: scanner.colour");
    assert_eq!(get_value(&cfg, "scanner.air_gapped").as_deref(), Some("true"));
    assert_eq!(get_value(&cfg, "schema_version").as_deref(), Some("1"));
}
