use reverdns::error::ReverDNSError;
use reverdns::{Args, LogLevel, OutputFormat};

fn base_args() -> Args {
    Args {
        ips: vec!["8.8.8.8".to_string()],
        input: None,
        output: None,
        format: OutputFormat::Json,
        resolver: vec![],
        timeout: 5,
        concurrency: 10,
        rate_limit: 100,
        dns_over_https: false,
        doh_provider: None,
        retry_count: 3,
        retry_backoff: 100,
        log_level: LogLevel::Info,
        stats: false,
        web_server: false,
        web_port: 8080,
    }
}

#[test]
fn test_output_format_display() {
    assert_eq!(OutputFormat::Json.to_string(), "json");
    assert_eq!(OutputFormat::Csv.to_string(), "csv");
}

#[test]
fn test_log_level_display() {
    assert_eq!(LogLevel::Debug.to_string(), "debug");
    assert_eq!(LogLevel::Info.to_string(), "info");
}

#[test]
fn test_output_format_json() {
    let format = OutputFormat::Json;
    assert_eq!(format.to_string(), "json");
}

#[test]
fn test_output_format_csv() {
    let format = OutputFormat::Csv;
    assert_eq!(format.to_string(), "csv");
}

#[test]
fn log_level_names_are_lowercase() {
    assert_eq!(LogLevel::Trace.to_string(), "trace");
    assert_eq!(LogLevel::Warn.to_string(), "warn");
    assert_eq!(LogLevel::Error.to_string(), "error");
}

#[test]
fn validate_accepts_default_settings() {
    assert_eq!(base_args().validate(), Ok(()));
}

#[test]
fn validate_accepts_input_file_without_ips() {
    let mut args = base_args();
    args.ips = vec![];
    args.input = Some("ips.txt".to_string());
    assert_eq!(args.validate(), Ok(()));
}

#[test]
fn validate_refuses_run_without_targets() {
    let mut args = base_args();
    args.ips = vec![];
    args.input = None;
    assert_eq!(
        args.validate(),
        Err(ReverDNSError::ConfigError(
            "Either provide IPs as arguments or use --input flag".to_string()
        ))
    );
}

#[test]
fn validate_refuses_zero_concurrency() {
    let mut args = base_args();
    args.concurrency = 0;
    assert_eq!(
        args.validate(),
        Err(ReverDNSError::ConfigError("Concurrency must be greater than 0".to_string()))
    );
}

#[test]
fn validate_refuses_zero_rate_limit() {
    let mut args = base_args();
    args.rate_limit = 0;
    assert_eq!(
        args.validate(),
        Err(ReverDNSError::ConfigError("Rate limit must be greater than 0".to_string()))
    );
}

#[test]
fn validate_refuses_zero_timeout() {
    let mut args = base_args();
    args.timeout = 0;
    assert_eq!(
        args.validate(),
        Err(ReverDNSError::ConfigError("Timeout must be greater than 0".to_string()))
    );
}

#[test]
fn validate_reports_the_first_violation() {
    let mut args = base_args();
    args.ips = vec![];
    args.concurrency = 0;
    args.rate_limit = 0;
    args.timeout = 0;
    assert_eq!(
        args.validate(),
        Err(ReverDNSError::ConfigError(
            "Either provide IPs as arguments or use --input flag".to_string()
        ))
    );
    args.ips = vec!["1.1.1.1".to_string()];
    assert_eq!(
        args.validate(),
        Err(ReverDNSError::ConfigError("Concurrency must be greater than 0".to_string()))
    );
    args.concurrency = 1;
    assert_eq!(
        args.validate(),
        Err(ReverDNSError::ConfigError("Rate limit must be greater than 0".to_string()))
    );
}

#[test]
fn validation_error_exits_with_code_two() {
    let mut args = base_args();
    args.timeout = 0;
    let e = args.validate().unwrap_err();
    assert_eq!(e.exit_code(), 2);
}
