//! Workspace configuration (`.boab/config.toml`): its values, their
//! defaults, and reading or writing one value by dotted key.

use vstd::prelude::*;
use vstd::string::*;
use crate::text::{
    chars_of, decimal, decimal_chars, eq_str, lemma_parse_decimal_exact, lemma_parse_uint_bound, parse_uint, parse_uint_spec,
    push_str, string_of, IntError,
};

verus! {

broadcast use vstd::string::group_string_axioms;

/// Scanner settings.
#[derive(Debug)]
pub struct ScannerConfig {
    pub default_rate_limit: String,
    pub tls_timeout_seconds: u64,
    pub air_gapped: bool,
}

/// Reporting settings.
#[derive(Debug)]
pub struct ReportingConfig {
    pub default_format: String,
}

/// The workspace configuration.
#[derive(Debug)]
pub struct Config {
    pub schema_version: u32,
    pub scanner: ScannerConfig,
    pub reporting: ReportingConfig,
}

/// The values of a configuration.
pub struct ConfigView {
    pub schema_version: u32,
    pub default_rate_limit: Seq<char>,
    pub tls_timeout_seconds: u64,
    pub air_gapped: bool,
    pub default_format: Seq<char>,
}

impl View for Config {
    type V = ConfigView;

    open spec fn view(&self) -> ConfigView {
        ConfigView {
            schema_version: self.schema_version,
            default_rate_limit: self.scanner.default_rate_limit@,
            tls_timeout_seconds: self.scanner.tls_timeout_seconds,
            air_gapped: self.scanner.air_gapped,
            default_format: self.reporting.default_format@,
        }
    }
}

impl Default for ScannerConfig {
    /// One request a second, ten-second TLS timeout, air-gapped.
    fn default() -> (r: ScannerConfig)
        ensures
            r.default_rate_limit@ == "1/second"@,
            r.tls_timeout_seconds == 10,
            r.air_gapped,
    {
        ScannerConfig {
            default_rate_limit: String::from_str("1/second"),
            tls_timeout_seconds: 10,
            air_gapped: true,
        }
    }
}

impl Default for ReportingConfig {
    /// Markdown reports.
    fn default() -> (r: ReportingConfig)
        ensures
            r.default_format@ == "md"@,
    {
        ReportingConfig { default_format: String::from_str("md") }
    }
}

/// The configuration a new workspace starts with.
pub open spec fn default_config() -> ConfigView {
    ConfigView {
        schema_version: 1,
        default_rate_limit: "1/second"@,
        tls_timeout_seconds: 10,
        air_gapped: true,
        default_format: "md"@,
    }
}

impl Default for Config {
    fn default() -> (r: Config)
        ensures
            r@ == default_config(),
    {
        Config {
            schema_version: 1,
            scanner: ScannerConfig::default(),
            reporting: ReportingConfig::default(),
        }
    }
}

/// The text of a boolean (`bool::to_string`).
pub open spec fn bool_text(b: bool) -> Seq<char> {
    if b {
        "true"@
    } else {
        "false"@
    }
}

/// The value at a dotted key, as text; `None` for an unknown key.
pub open spec fn get_value_spec(cfg: ConfigView, key: Seq<char>) -> Option<Seq<char>> {
    if key == "schema_version"@ {
        Some(decimal(cfg.schema_version as nat))
    } else if key == "scanner.default_rate_limit"@ {
        Some(cfg.default_rate_limit)
    } else if key == "scanner.tls_timeout_seconds"@ {
        Some(decimal(cfg.tls_timeout_seconds as nat))
    } else if key == "scanner.air_gapped"@ {
        Some(bool_text(cfg.air_gapped))
    } else if key == "reporting.default_format"@ {
        Some(cfg.default_format)
    } else {
        None
    }
}

fn bool_string(b: bool) -> (r: String)
    ensures
        r@ == bool_text(b),
{
    if b {
        String::from_str("true")
    } else {
        String::from_str("false")
    }
}

fn decimal_string(n: u64) -> (r: String)
    ensures
        r@ == decimal(n as nat),
{
    let d = decimal_chars(n);
    string_of(d.as_slice())
}

/// Gets a single configuration value by dotted key, e.g.
/// `scanner.air_gapped`.
pub fn get_value(cfg: &Config, key: &str) -> (r: Option<String>)
    ensures
        match get_value_spec(cfg@, key@) {
            Some(v) => r is Some && r->Some_0@ == v,
            None => r is None,
        },
{
    let k = chars_of(key);
    if eq_str(k.as_slice(), "schema_version") {
        Some(decimal_string(cfg.schema_version as u64))
    } else if eq_str(k.as_slice(), "scanner.default_rate_limit") {
        Some(cfg.scanner.default_rate_limit.clone())
    } else if eq_str(k.as_slice(), "scanner.tls_timeout_seconds") {
        Some(decimal_string(cfg.scanner.tls_timeout_seconds))
    } else if eq_str(k.as_slice(), "scanner.air_gapped") {
        Some(bool_string(cfg.scanner.air_gapped))
    } else if eq_str(k.as_slice(), "reporting.default_format") {
        Some(cfg.reporting.default_format.clone())
    } else {
        None
    }
}

/// Why a configuration value could not be set.
#[derive(Debug)]
pub enum ConfigError {
    /// `schema_version` is not a `u32`.
    SchemaVersion(IntError),
    /// `scanner.tls_timeout_seconds` is not a `u64`.
    TlsTimeout(IntError),
    /// `scanner.air_gapped` is neither `true` nor `false`.
    AirGapped,
    /// `reporting.default_format` is not one of the report formats.
    DefaultFormat,
    /// No such key.
    UnknownKey(String),
}

/// The text of a boolean value (`str::parse::<bool>`).
pub open spec fn parse_bool_spec(s: Seq<char>) -> Option<bool> {
    if s == "true"@ {
        Some(true)
    } else if s == "false"@ {
        Some(false)
    } else {
        None
    }
}

/// The report formats a workspace can default to.
pub open spec fn is_report_format(s: Seq<char>) -> bool {
    s == "json"@ || s == "md"@ || s == "cbom"@
}

/// The outcome of setting `key` to `value`: the new configuration, or the
/// error, keyed by kind.
pub open spec fn set_value_spec(cfg: ConfigView, key: Seq<char>, value: Seq<char>) -> Result<
    ConfigView,
    ConfigErrorKind,
> {
    if key == "schema_version"@ {
        match parse_uint_spec(value, u32::MAX as nat) {
            Ok(n) => Ok(ConfigView { schema_version: n as u32, ..cfg }),
            Err(e) => Err(ConfigErrorKind::SchemaVersion(e)),
        }
    } else if key == "scanner.default_rate_limit"@ {
        Ok(ConfigView { default_rate_limit: value, ..cfg })
    } else if key == "scanner.tls_timeout_seconds"@ {
        match parse_uint_spec(value, u64::MAX as nat) {
            Ok(n) => Ok(ConfigView { tls_timeout_seconds: n as u64, ..cfg }),
            Err(e) => Err(ConfigErrorKind::TlsTimeout(e)),
        }
    } else if key == "scanner.air_gapped"@ {
        match parse_bool_spec(value) {
            Some(b) => Ok(ConfigView { air_gapped: b, ..cfg }),
            None => Err(ConfigErrorKind::AirGapped),
        }
    } else if key == "reporting.default_format"@ {
        if is_report_format(value) {
            Ok(ConfigView { default_format: value, ..cfg })
        } else {
            Err(ConfigErrorKind::DefaultFormat)
        }
    } else {
        Err(ConfigErrorKind::UnknownKey(key))
    }
}

/// A configuration error, with its text as a sequence of characters.
pub enum ConfigErrorKind {
    SchemaVersion(IntError),
    TlsTimeout(IntError),
    AirGapped,
    DefaultFormat,
    UnknownKey(Seq<char>),
}

impl View for ConfigError {
    type V = ConfigErrorKind;

    open spec fn view(&self) -> ConfigErrorKind {
        match self {
            ConfigError::SchemaVersion(e) => ConfigErrorKind::SchemaVersion(*e),
            ConfigError::TlsTimeout(e) => ConfigErrorKind::TlsTimeout(*e),
            ConfigError::AirGapped => ConfigErrorKind::AirGapped,
            ConfigError::DefaultFormat => ConfigErrorKind::DefaultFormat,
            ConfigError::UnknownKey(k) => ConfigErrorKind::UnknownKey(k@),
        }
    }
}

/// The message of a configuration error, as the command line prints it.
pub open spec fn config_error_message(e: ConfigErrorKind) -> Seq<char> {
    match e {
        ConfigErrorKind::SchemaVersion(i) => "schema_version must be a u32: "@ + i.message_spec(),
        ConfigErrorKind::TlsTimeout(i) => "tls_timeout_seconds must be a u64: "@
            + i.message_spec(),
        ConfigErrorKind::AirGapped => "air_gapped must be true or false: provided string was not `true` or `false`"@,
        ConfigErrorKind::DefaultFormat => "default_format must be one of: json, md, cbom"@,
        ConfigErrorKind::UnknownKey(k) => "unknown config key: "@ + k,
    }
}

impl ConfigError {
    /// The error's message.
    pub fn message(&self) -> (r: String)
        ensures
            r@ == config_error_message(self@),
    {
        let mut v: Vec<char> = Vec::new();
        match self {
            ConfigError::SchemaVersion(e) => {
                push_str(&mut v, "schema_version must be a u32: ");
                push_str(&mut v, e.message());
            },
            ConfigError::TlsTimeout(e) => {
                push_str(&mut v, "tls_timeout_seconds must be a u64: ");
                push_str(&mut v, e.message());
            },
            ConfigError::AirGapped => {
                push_str(
                    &mut v,
                    "air_gapped must be true or false: provided string was not `true` or `false`",
                );
            },
            ConfigError::DefaultFormat => {
                push_str(&mut v, "default_format must be one of: json, md, cbom");
            },
            ConfigError::UnknownKey(k) => {
                push_str(&mut v, "unknown config key: ");
                push_str(&mut v, k.as_str());
            },
        }
        string_of(v.as_slice())
    }
}

/// Sets a single configuration value by dotted key. On an unknown key or a
/// value that does not parse for the field, returns the error and leaves
/// the configuration unchanged.
pub fn set_value(cfg: &mut Config, key: &str, value: &str) -> (r: Result<(), ConfigError>)
    ensures
        match set_value_spec(old(cfg)@, key@, value@) {
            Ok(c) => r is Ok && final(cfg)@ == c,
            Err(e) => r is Err && r->Err_0@ == e && final(cfg)@ == old(cfg)@,
        },
{
    let k = chars_of(key);
    let v = chars_of(value);
    if eq_str(k.as_slice(), "schema_version") {
        match parse_uint(v.as_slice(), 4294967295u64) {
            Ok(n) => {
                cfg.schema_version = n as u32;
                Ok(())
            },
            Err(e) => Err(ConfigError::SchemaVersion(e)),
        }
    } else if eq_str(k.as_slice(), "scanner.default_rate_limit") {
        cfg.scanner.default_rate_limit = String::from_str(value);
        Ok(())
    } else if eq_str(k.as_slice(), "scanner.tls_timeout_seconds") {
        match parse_uint(v.as_slice(), 18446744073709551615u64) {
            Ok(n) => {
                cfg.scanner.tls_timeout_seconds = n;
                Ok(())
            },
            Err(e) => Err(ConfigError::TlsTimeout(e)),
        }
    } else if eq_str(k.as_slice(), "scanner.air_gapped") {
        if eq_str(v.as_slice(), "true") {
            cfg.scanner.air_gapped = true;
            Ok(())
        } else if eq_str(v.as_slice(), "false") {
            cfg.scanner.air_gapped = false;
            Ok(())
        } else {
            Err(ConfigError::AirGapped)
        }
    } else if eq_str(k.as_slice(), "reporting.default_format") {
        if eq_str(v.as_slice(), "json") || eq_str(v.as_slice(), "md") || eq_str(
            v.as_slice(),
            "cbom",
        ) {
            cfg.reporting.default_format = String::from_str(value);
            Ok(())
        } else {
            Err(ConfigError::DefaultFormat)
        }
    } else {
        Err(ConfigError::UnknownKey(String::from_str(key)))
    }
}

proof fn lemma_keys_distinct()
    ensures
        "schema_version"@ != "scanner.default_rate_limit"@,
        "schema_version"@ != "scanner.tls_timeout_seconds"@,
        "schema_version"@ != "scanner.air_gapped"@,
        "schema_version"@ != "reporting.default_format"@,
        "scanner.default_rate_limit"@ != "scanner.tls_timeout_seconds"@,
        "scanner.default_rate_limit"@ != "scanner.air_gapped"@,
        "scanner.default_rate_limit"@ != "reporting.default_format"@,
        "scanner.tls_timeout_seconds"@ != "scanner.air_gapped"@,
        "scanner.tls_timeout_seconds"@ != "reporting.default_format"@,
        "scanner.air_gapped"@ != "reporting.default_format"@,
{
    reveal_strlit("schema_version");
    reveal_strlit("scanner.default_rate_limit");
    reveal_strlit("scanner.tls_timeout_seconds");
    reveal_strlit("scanner.air_gapped");
    reveal_strlit("reporting.default_format");
    assert("schema_version"@.len() == 14);
    assert("scanner.default_rate_limit"@.len() == 26);
    assert("scanner.tls_timeout_seconds"@.len() == 27);
    assert("scanner.air_gapped"@.len() == 18);
    assert("reporting.default_format"@.len() == 24);
}

/// The text that reading `key` gives back after it was set to `value`:
/// numbers in canonical decimal, everything else as written.
pub open spec fn read_back(key: Seq<char>, value: Seq<char>) -> Seq<char> {
    if key == "schema_version"@ {
        decimal(parse_uint_spec(value, u32::MAX as nat)->Ok_0)
    } else if key == "scanner.tls_timeout_seconds"@ {
        decimal(parse_uint_spec(value, u64::MAX as nat)->Ok_0)
    } else {
        value
    }
}

/// Setting a value that is accepted and reading it back gives the value
/// set (a number in canonical decimal, so one written that way reads back
/// as written), and every other key reads as before.
pub proof fn get_after_set(cfg: ConfigView, key: Seq<char>, value: Seq<char>, other: Seq<char>)
    requires
        set_value_spec(cfg, key, value) is Ok,
    ensures
        get_value_spec(set_value_spec(cfg, key, value)->Ok_0, key) == Some(read_back(key, value)),
        other != key ==> get_value_spec(set_value_spec(cfg, key, value)->Ok_0, other)
            == get_value_spec(cfg, other),
        (key == "schema_version"@ || key == "scanner.tls_timeout_seconds"@) && (exists|n: nat|
            value == decimal(n)) ==> read_back(key, value) == value,
{
    reveal_strlit("true");
    reveal_strlit("false");
    let c = set_value_spec(cfg, key, value)->Ok_0;
    lemma_keys_distinct();
    if key == "scanner.air_gapped"@ {
        assert(parse_bool_spec(value) is Some);
        if value == "true"@ {
            assert(c.air_gapped);
        } else {
            assert(value == "false"@);
            assert(!c.air_gapped);
        }
    }
    if key == "schema_version"@ {
        lemma_parse_uint_bound(value, u32::MAX as nat);
    }
    if key == "scanner.tls_timeout_seconds"@ {
        lemma_parse_uint_bound(value, u64::MAX as nat);
    }
    if (key == "schema_version"@ || key == "scanner.tls_timeout_seconds"@) && (exists|n: nat|
        value == decimal(n)) {
        let n = choose|n: nat| value == decimal(n);
        let max: nat = if key == "schema_version"@ {
            u32::MAX as nat
        } else {
            u64::MAX as nat
        };
        lemma_parse_decimal_exact(n, max);
    }
}

} // verus!
