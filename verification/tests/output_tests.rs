use reverdns::output::json::successful_count;
use reverdns::output::{format_csv, json_output, CsvRecord, JsonResult};
use reverdns::{LookupResult, LookupStatus};

fn success() -> LookupResult {
    LookupResult {
        ip: "8.8.8.8".to_string(),
        hostname: Some("dns.google".to_string()),
        status: LookupStatus::Success,
        ttl: Some(3600),
        latency_ms: 45,
        resolver: "8.8.8.8".to_string(),
        error: None,
    }
}

fn failure(status: LookupStatus, error: &str) -> LookupResult {
    LookupResult {
        ip: "10.0.0.1".to_string(),
        hostname: None,
        status,
        ttl: None,
        latency_ms: 1200,
        resolver: "default(8.8.8.8,1.1.1.1)".to_string(),
        error: Some(error.to_string()),
    }
}

#[test]
fn test_format_csv() {
    let results = vec![LookupResult {
        ip: "8.8.8.8".to_string(),
        hostname: Some("dns.google".to_string()),
        status: LookupStatus::Success,
        ttl: Some(3600),
        latency_ms: 45,
        resolver: "8.8.8.8".to_string(),
        error: None,
    }];

    let csv = format_csv(&results).unwrap();
    assert!(csv.contains("8.8.8.8"));
    assert!(csv.contains("dns.google"));
    assert!(csv.contains("success"));
}

#[test]
fn test_format_csv_empty() {
    let results = vec![];
    let csv = format_csv(&results).unwrap();
    assert!(csv.contains("ip,hostname,status"));
}

#[test]
fn test_csv_output_format() {
    let results = vec![LookupResult {
        ip: "8.8.8.8".to_string(),
        hostname: Some("dns.google".to_string()),
        status: LookupStatus::Success,
        ttl: Some(3600),
        latency_ms: 45,
        resolver: "8.8.8.8".to_string(),
        error: None,
    }];

    let csv = format_csv(&results).unwrap();
    assert!(csv.contains("8.8.8.8"));
    assert!(csv.contains("dns.google"));
    assert!(csv.contains("success"));
}

#[test]
fn csv_of_no_results_is_the_header() {
    assert_eq!(
        format_csv(&[]).unwrap(),
        "ip,hostname,status,ttl,latency_ms,resolver,error,timestamp\n"
    );
}

#[test]
fn csv_has_one_row_per_result_after_the_header() {
    let results = vec![
        success(),
        failure(LookupStatus::Timeout, "Timeout"),
        failure(LookupStatus::Failed, "refused, twice: \"no\""),
    ];
    let csv = format_csv(&results).unwrap();
    let lines: Vec<&str> = csv.lines().collect();
    assert_eq!(lines.len(), 4);
    assert_eq!(lines[0], "ip,hostname,status,ttl,latency_ms,resolver,error,timestamp");
    assert!(lines[1].starts_with("8.8.8.8,dns.google,success,3600,45,8.8.8.8,,"));
    assert!(lines[2].starts_with("10.0.0.1,,timeout,,1200,\"default(8.8.8.8,1.1.1.1)\",Timeout,"));
    assert!(lines[3].starts_with(
        "10.0.0.1,,failed,,1200,\"default(8.8.8.8,1.1.1.1)\",\"refused, twice: \"\"no\"\"\","
    ));
    for line in &lines[1..] {
        let stamp = line.rsplit(',').next().unwrap();
        assert!(chrono::DateTime::parse_from_rfc3339(stamp).is_ok(), "{}", stamp);
    }
}

#[test]
fn csv_record_renders_absent_values_as_empty_fields() {
    let record = CsvRecord::new(&failure(LookupStatus::Failed, "NXDOMAIN"), "now".to_string());
    assert_eq!(record.ip, "10.0.0.1");
    assert_eq!(record.hostname, "");
    assert_eq!(record.status, "failed");
    assert_eq!(record.ttl, "");
    assert_eq!(record.latency_ms, 1200);
    assert_eq!(record.resolver, "default(8.8.8.8,1.1.1.1)");
    assert_eq!(record.error, "NXDOMAIN");
    assert_eq!(record.timestamp, "now");
    assert_eq!(
        record.fields(),
        vec!["10.0.0.1", "", "failed", "", "1200", "default(8.8.8.8,1.1.1.1)", "NXDOMAIN", "now"]
    );
}

#[test]
fn csv_record_renders_present_values() {
    let record = CsvRecord::new(&success(), "2024-01-01T00:00:00+00:00".to_string());
    assert_eq!(
        record.fields(),
        vec![
            "8.8.8.8",
            "dns.google",
            "success",
            "3600",
            "45",
            "8.8.8.8",
            "",
            "2024-01-01T00:00:00+00:00"
        ]
    );
    let mut rate_limited = success();
    rate_limited.status = LookupStatus::RateLimited;
    rate_limited.ttl = Some(0);
    let record = CsvRecord::new(&rate_limited, "t".to_string());
    assert_eq!(record.status, "rate_limited");
    assert_eq!(record.ttl, "0");
}

#[test]
fn json_entry_carries_the_result() {
    let entry = JsonResult::new(&success(), "stamp".to_string());
    assert_eq!(entry.ip, "8.8.8.8");
    assert_eq!(entry.hostname, Some("dns.google".to_string()));
    assert_eq!(entry.status, "success");
    assert_eq!(entry.ttl, Some(3600));
    assert_eq!(entry.latency_ms, 45);
    assert_eq!(entry.resolver, "8.8.8.8");
    assert_eq!(entry.error, None);
    assert_eq!(entry.timestamp, "stamp");

    let entry = JsonResult::new(&failure(LookupStatus::Timeout, "Timeout"), "s".to_string());
    assert_eq!(entry.hostname, None);
    assert_eq!(entry.status, "timeout");
    assert_eq!(entry.ttl, None);
    assert_eq!(entry.error, Some("Timeout".to_string()));
}

#[test]
fn json_totals_add_up() {
    let results = vec![
        success(),
        failure(LookupStatus::Timeout, "Timeout"),
        success(),
        failure(LookupStatus::Failed, "NXDOMAIN"),
        failure(LookupStatus::RateLimited, "slow down"),
    ];
    let out = json_output(&results, 100);
    assert_eq!(out.results.len(), 5);
    assert_eq!(out.metadata.total_lookups, 5);
    assert_eq!(out.metadata.successful, 2);
    assert_eq!(out.metadata.failed, 3);
    assert_eq!(out.metadata.successful + out.metadata.failed, out.results.len());
    assert_eq!(out.metadata.total_time_ms, 100);
    for (entry, result) in out.results.iter().zip(results.iter()) {
        assert_eq!(entry.ip, result.ip);
        assert_eq!(entry.hostname, result.hostname);
        assert_eq!(entry.status, result.status.to_string());
        assert_eq!(entry.error, result.error);
        assert!(chrono::DateTime::parse_from_rfc3339(&entry.timestamp).is_ok());
    }
}

#[test]
fn json_of_no_results_has_empty_totals() {
    let out = json_output(&[], 0);
    assert_eq!(out.results.len(), 0);
    assert_eq!(out.metadata.total_lookups, 0);
    assert_eq!(out.metadata.successful, 0);
    assert_eq!(out.metadata.failed, 0);
    assert_eq!(out.metadata.total_time_ms, 0);
}

#[test]
fn successes_are_counted() {
    assert_eq!(successful_count(&[]), 0);
    assert_eq!(successful_count(&[success()]), 1);
    assert_eq!(successful_count(&[failure(LookupStatus::Failed, "e")]), 0);
    assert_eq!(
        successful_count(&[success(), failure(LookupStatus::Timeout, "Timeout"), success()]),
        2
    );
}

/// Whether `stamp` is laid out as an RFC 3339 time in UTC: a year of four
/// digits, `-MM-DDTHH:MM:SS`, no fraction or one of three, six or nine
/// digits, and `+00:00`.
fn is_utc_layout(stamp: &str) -> bool {
    let c: Vec<char> = stamp.chars().collect();
    let digits = |from: usize, to: usize| c[from..to].iter().all(|d| d.is_ascii_digit());
    if c.len() < 25 || !stamp.ends_with("+00:00") {
        return false;
    }
    let fraction = c.len() - 25;
    digits(0, 4)
        && c[4] == '-'
        && digits(5, 7)
        && c[7] == '-'
        && digits(8, 10)
        && c[10] == 'T'
        && digits(11, 13)
        && c[13] == ':'
        && digits(14, 16)
        && c[16] == ':'
        && digits(17, 19)
        && (fraction == 0
            || ((fraction == 4 || fraction == 7 || fraction == 10)
                && c[19] == '.'
                && digits(20, 19 + fraction)))
}

#[test]
fn timestamps_are_laid_out_as_utc_times() {
    let results: Vec<LookupResult> = (0..50).map(|_| success()).collect();
    for entry in json_output(&results, 1).results {
        assert!(is_utc_layout(&entry.timestamp), "{}", entry.timestamp);
        assert!(entry.timestamp.as_str() > "1970", "{}", entry.timestamp);
    }
    let csv = format_csv(&results).unwrap();
    for line in csv.lines().skip(1) {
        let stamp = line.rsplit(',').next().unwrap();
        assert!(is_utc_layout(stamp), "{}", stamp);
    }
    assert!(!is_utc_layout(""));
    assert!(!is_utc_layout("2024-01-01T00:00:00Z"));
    assert!(is_utc_layout("2024-01-01T00:00:00+00:00"));
    assert!(is_utc_layout("2024-01-01T00:00:00.123456+00:00"));
}

#[test]
fn csv_of_plain_results_is_the_fields_with_commas_between() {
    let results = vec![success(), failure(LookupStatus::Failed, "NXDOMAIN")];
    let mut plain = failure(LookupStatus::Failed, "NXDOMAIN");
    plain.resolver = "9.9.9.9".to_string();
    let results = vec![results[0].clone(), plain];
    let csv = format_csv(&results).unwrap();
    assert!(csv.ends_with('\n'));
    let lines: Vec<&str> = csv.lines().collect();
    assert_eq!(lines.len(), results.len() + 1);
    assert_eq!(lines[0], "ip,hostname,status,ttl,latency_ms,resolver,error,timestamp");
    for (line, result) in lines[1..].iter().zip(results.iter()) {
        let fields: Vec<&str> = line.split(',').collect();
        assert_eq!(fields.len(), 8);
        assert_eq!(fields[0], result.ip);
        assert_eq!(fields[1], result.hostname.clone().unwrap_or_default());
        assert_eq!(fields[2], result.status.to_string());
        assert_eq!(fields[4], result.latency_ms.to_string());
        assert_eq!(fields[5], result.resolver);
        assert_eq!(fields[6], result.error.clone().unwrap_or_default());
        assert!(is_utc_layout(fields[7]));
    }
    assert_eq!(csv.matches("ip,hostname,status").count(), 1);
}

#[test]
fn csv_fields_with_line_ends_or_quotes_stand_between_quotes() {
    let results = vec![
        failure(LookupStatus::Failed, "first line\nsecond line"),
        failure(LookupStatus::Failed, "carriage\rreturn"),
        failure(LookupStatus::Failed, "\"quoted\""),
        failure(LookupStatus::Failed, "plain text; with: other. marks"),
    ];
    let csv = format_csv(&results).unwrap();
    let prefix = "10.0.0.1,,failed,,1200,\"default(8.8.8.8,1.1.1.1)\",";
    let body = &csv["ip,hostname,status,ttl,latency_ms,resolver,error,timestamp\n".len()..];
    assert!(body.starts_with(&format!("{}\"first line\nsecond line\",", prefix)));
    assert!(body.contains(&format!("{}\"carriage\rreturn\",", prefix)));
    assert!(body.contains(&format!("{}\"\"\"quoted\"\"\",", prefix)));
    assert!(body.contains(&format!("{}plain text; with: other. marks,", prefix)));
}
