//! Command line, environment and defaults.
use aivyx_broker::BrokerConfig;
use aivyx_broker::config::{
    ConfigError, GPU_LOCK_MAX_HOLD_SECS, GPU_LOCK_QUEUE_TIMEOUT_SECS, KVCACHE_MAX_BYTES,
    KVCACHE_STORE_PATH, LLAMA_SERVER_URL, PORT, QUEUE_TIMEOUT_SECS, SETTINGS, VRAM_SOURCE,
    settings,
};
use aivyx_broker::gpu::VramSource;

fn nothing() -> Vec<Option<String>> {
    vec![None; SETTINGS]
}

fn parse(argv: &[&str]) -> Result<BrokerConfig, ConfigError> {
    let argv = argv.iter().map(|a| a.to_string()).collect();
    BrokerConfig::parse_from(&argv, &nothing())
}

/// The required settings and `value` at place `k`.
fn with(k: usize, value: &str) -> Result<BrokerConfig, ConfigError> {
    let mut values = nothing();
    values[LLAMA_SERVER_URL] = Some("http://127.0.0.1:8080".to_string());
    values[KVCACHE_STORE_PATH] = Some("/tmp/kv".to_string());
    values[k] = Some(value.to_string());
    BrokerConfig::from_values(&values, &nothing())
}

#[test]
fn parses_required_and_default_fields() {
    let cfg = parse(&[
        "aivyx-broker",
        "--llama-server-url",
        "http://127.0.0.1:8080",
        "--kvcache-store-path",
        "/tmp/kv",
    ])
    .unwrap();
    assert_eq!(cfg.port, 8899);
    assert_eq!(cfg.llama_server_url, "http://127.0.0.1:8080");
    assert_eq!(cfg.kvcache_store_path, "/tmp/kv");
    assert_eq!(cfg.kvcache_max_bytes, 10 * 1024 * 1024 * 1024);
    assert_eq!(cfg.queue_timeout_secs, 60);
    assert_eq!(cfg.gpu_lock_queue_timeout_secs, 300);
    assert_eq!(cfg.gpu_lock_max_hold_secs, 900);
    assert_eq!(cfg.vram_source, VramSource::Auto);
}

#[test]
fn overrides_apply() {
    let cfg = parse(&[
        "aivyx-broker",
        "--llama-server-url",
        "http://127.0.0.1:9090",
        "--kvcache-store-path",
        "/tmp/kv2",
        "--port",
        "9999",
        "--queue-timeout-secs",
        "5",
    ])
    .unwrap();
    assert_eq!(cfg.port, 9999);
    assert_eq!(cfg.queue_timeout_secs, 5);
}

#[test]
fn every_flag_is_read() {
    let cfg = parse(&[
        "aivyx-broker",
        "--vram-source=amd",
        "--gpu-lock-max-hold-secs=7",
        "--gpu-lock-queue-timeout-secs=6",
        "--kvcache-max-bytes=5",
        "--kvcache-store-path=kv",
        "--llama-server-url=u",
    ])
    .unwrap();
    assert_eq!(cfg.vram_source, VramSource::Amd);
    assert_eq!(cfg.gpu_lock_max_hold_secs, 7);
    assert_eq!(cfg.gpu_lock_queue_timeout_secs, 6);
    assert_eq!(cfg.kvcache_max_bytes, 5);
    assert_eq!(cfg.kvcache_store_path, "kv");
    assert_eq!(cfg.llama_server_url, "u");
}

#[test]
fn the_environment_stands_in_for_flags() {
    let mut environment = nothing();
    environment[LLAMA_SERVER_URL] = Some("http://env".to_string());
    environment[KVCACHE_STORE_PATH] = Some("/env".to_string());
    environment[PORT] = Some("1".to_string());
    environment[QUEUE_TIMEOUT_SECS] = Some("2".to_string());
    let argv = vec!["aivyx-broker".to_string(), "--port=3".to_string()];
    let cfg = BrokerConfig::parse_from(&argv, &environment).unwrap();
    assert_eq!(cfg.llama_server_url, "http://env");
    assert_eq!(cfg.port, 3);
    assert_eq!(cfg.queue_timeout_secs, 2);
    assert_eq!(cfg.gpu_lock_max_hold_secs, 900);
}

#[test]
fn what_is_not_understood_is_explained() {
    let error = parse(&["aivyx-broker", "--no-such-flag"]).unwrap_err();
    assert!(matches!(&error, ConfigError::Usage { exit_code: 2, .. }));
    assert!(error.message().contains("--no-such-flag"));
    let help = parse(&["aivyx-broker", "--help"]).unwrap_err();
    assert_eq!(help.exit_code(), 0);
    for setting in settings() {
        assert!(help.message().contains(setting.flag));
        assert!(help.message().contains(setting.help));
    }
    let twice = parse(&["aivyx-broker", "--port=1", "--port=2"]).unwrap_err();
    assert_eq!(twice.exit_code(), 2);
}

#[test]
fn the_command_line_is_looked_at_in_its_order() {
    // The value before `--help` is refused before help is given.
    let error = parse(&["aivyx-broker", "--port", "x", "--help"]).unwrap_err();
    assert_eq!(error.exit_code(), 2);
    assert!(error.message().contains("invalid value 'x' for '--port <PORT>'"));
    assert!(error.message().contains("not a number from 0 to 65535"));
    let help = parse(&["aivyx-broker", "--help", "--port", "x"]).unwrap_err();
    assert_eq!(help.exit_code(), 0);
}

#[test]
fn every_kind_of_value_is_refused_on_the_command_line() {
    for argument in [
        "--port=65536",
        "--kvcache-store-path=",
        "--kvcache-max-bytes=-1",
        "--queue-timeout-secs=1.5",
        "--gpu-lock-queue-timeout-secs=",
        "--gpu-lock-max-hold-secs=x",
        "--vram-source=AMD",
    ] {
        let error = parse(&["aivyx-broker", argument]).unwrap_err();
        assert!(matches!(&error, ConfigError::Usage { exit_code: 2, .. }));
        let flag = argument.split('=').next().unwrap();
        assert!(error.message().contains(flag), "{}", error.message());
    }
}

#[test]
fn what_is_missing_is_named() {
    let error = parse(&["aivyx-broker"]).unwrap_err();
    assert!(matches!(&error, ConfigError::Usage { exit_code: 2, .. }));
    assert!(error.message().contains("--llama-server-url <LLAMA_SERVER_URL>"));
    assert!(error.message().contains("--kvcache-store-path <KVCACHE_STORE_PATH>"));

    // What the environment has is not asked of the command line.
    let mut environment = nothing();
    environment[LLAMA_SERVER_URL] = Some("u".to_string());
    let argv = vec!["aivyx-broker".to_string()];
    let error = BrokerConfig::parse_from(&argv, &environment).unwrap_err();
    assert!(error.message().contains("--kvcache-store-path <KVCACHE_STORE_PATH>"));
    assert!(!error.message().contains("--llama-server-url <LLAMA_SERVER_URL>\n"));
}

#[test]
fn an_invalid_variable_is_complained_of_before_what_is_missing() {
    let mut environment = nothing();
    environment[PORT] = Some("x".to_string());
    let argv = vec!["aivyx-broker".to_string()];
    let error = BrokerConfig::parse_from(&argv, &environment).unwrap_err();
    assert!(matches!(error, ConfigError::Invalid(PORT)));
    // Unless the command line says otherwise.
    let argv = vec!["aivyx-broker".to_string(), "--port=1".to_string()];
    let error = BrokerConfig::parse_from(&argv, &environment).unwrap_err();
    assert!(matches!(error, ConfigError::Missing(LLAMA_SERVER_URL)));
}

#[test]
fn the_settings_have_their_variables() {
    let table = settings();
    assert_eq!(table.len(), SETTINGS);
    assert_eq!(table[PORT].variable, "AIVYX_BROKER_PORT");
    for setting in table {
        let upper = setting.flag.replace('-', "_").to_uppercase();
        assert_eq!(setting.variable, format!("AIVYX_BROKER_{upper}"));
        assert_eq!(setting.value_name, upper);
    }
}

#[test]
fn required_settings_are_required() {
    let mut values = nothing();
    let error = BrokerConfig::from_values(&values, &nothing()).unwrap_err();
    assert!(matches!(error, ConfigError::Missing(LLAMA_SERVER_URL)));
    assert_eq!(error.message(), "error: a value is required for --llama-server-url");
    values[LLAMA_SERVER_URL] = Some(String::new());
    let error = BrokerConfig::from_values(&values, &nothing()).unwrap_err();
    assert!(matches!(error, ConfigError::Missing(KVCACHE_STORE_PATH)));
    assert_eq!(error.exit_code(), 2);
}

#[test]
fn values_that_are_none_are_rejected() {
    for k in [
        PORT,
        KVCACHE_MAX_BYTES,
        QUEUE_TIMEOUT_SECS,
        GPU_LOCK_QUEUE_TIMEOUT_SECS,
        GPU_LOCK_MAX_HOLD_SECS,
        VRAM_SOURCE,
    ] {
        for value in ["", "x", "1.5", "-1", " 1", "18446744073709551616"] {
            let error = with(k, value).unwrap_err();
            assert!(matches!(error, ConfigError::Invalid(found) if found == k));
        }
    }
    let error = with(KVCACHE_STORE_PATH, "").unwrap_err();
    assert_eq!(error.message(), "error: invalid value for --kvcache-store-path");
}

#[test]
fn numbers_have_their_ranges() {
    assert_eq!(with(PORT, "65535").unwrap().port, 65535);
    assert!(with(PORT, "65536").is_err());
    assert_eq!(with(PORT, "+80").unwrap().port, 80);
    assert_eq!(with(PORT, "-0").unwrap().port, 0);
    assert!(with(PORT, "-+0").is_err());
    assert!(with(PORT, "-").is_err());
    let most = u64::MAX.to_string();
    assert_eq!(with(KVCACHE_MAX_BYTES, &most).unwrap().kvcache_max_bytes, u64::MAX);
    assert_eq!(with(QUEUE_TIMEOUT_SECS, "007").unwrap().queue_timeout_secs, 7);
    assert!(with(QUEUE_TIMEOUT_SECS, "-0").is_err());
    assert!(with(QUEUE_TIMEOUT_SECS, "+").is_err());
}

#[test]
fn vram_sources_have_their_names() {
    assert_eq!(with(VRAM_SOURCE, "auto").unwrap().vram_source, VramSource::Auto);
    assert_eq!(with(VRAM_SOURCE, "nvidia").unwrap().vram_source, VramSource::Nvidia);
    assert_eq!(with(VRAM_SOURCE, "amd").unwrap().vram_source, VramSource::Amd);
    assert_eq!(with(VRAM_SOURCE, "none").unwrap().vram_source, VramSource::Off);
    assert!(with(VRAM_SOURCE, "AMD").is_err());
}
