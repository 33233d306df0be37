//! Tests of the configuration scanner.

use memory_stream::admin::vault_scanner::{scan_for_config_issues, ConfigIssue, IssueSeverity, ScanResult, SysConfig};

#[test]
fn test_all_config_present() {
    let config = SysConfig {
        s3_endpoint: Some("https://s3.example.com".to_string()),
        s3_region: Some("us-west-2".to_string()),
        s3_bucket: Some("my-bucket".to_string()),
        s3_access_key: Some("access123".to_string()),
        s3_secret_key: Some("secret456".to_string()),
        s3_public_url_base: Some("https://cdn.example.com".to_string()),
        api_base_url: Some("https://api.example.com/api/v1".to_string()),
        ws_url: Some("wss://api.example.com/api/v1/ws".to_string()),
    };
    let result = scan_for_config_issues(&config);
    assert!(result.is_healthy, "Config should be healthy when all fields present");
    let has_critical_or_warning = result
        .issues
        .iter()
        .any(|i| i.severity == IssueSeverity::Critical || i.severity == IssueSeverity::Warning);
    assert!(!has_critical_or_warning, "Should have no Critical or Warning issues");
}

#[test]
fn test_missing_s3_endpoint() {
    let config = SysConfig {
        s3_endpoint: None,
        s3_region: Some("us-east-1".to_string()),
        s3_bucket: Some("my-bucket".to_string()),
        s3_access_key: Some("access123".to_string()),
        s3_secret_key: Some("secret456".to_string()),
        s3_public_url_base: None,
        api_base_url: Some("https://api.example.com/api/v1".to_string()),
        ws_url: Some("wss://api.example.com/api/v1/ws".to_string()),
    };
    let result = scan_for_config_issues(&config);
    assert!(!result.is_healthy, "Config should not be healthy with missing S3 endpoint");
    let endpoint_issue = result.issues.iter().find(|i| i.field == "S3_ENDPOINT");
    assert!(endpoint_issue.is_some(), "Should have S3_ENDPOINT issue");
    assert_eq!(endpoint_issue.unwrap().severity, IssueSeverity::Critical, "S3_ENDPOINT missing should be Critical");
}

#[test]
fn test_missing_api_url() {
    let config = SysConfig {
        s3_endpoint: Some("https://s3.example.com".to_string()),
        s3_region: Some("us-east-1".to_string()),
        s3_bucket: Some("my-bucket".to_string()),
        s3_access_key: Some("access123".to_string()),
        s3_secret_key: Some("secret456".to_string()),
        s3_public_url_base: None,
        api_base_url: None,
        ws_url: Some("wss://api.example.com/api/v1/ws".to_string()),
    };
    let result = scan_for_config_issues(&config);
    assert!(!result.is_healthy, "Config should not be healthy with missing API URL");
    let api_issue = result.issues.iter().find(|i| i.field == "API_BASE_URL");
    assert!(api_issue.is_some(), "Should have API_BASE_URL issue");
    assert_eq!(api_issue.unwrap().severity, IssueSeverity::Critical, "API_BASE_URL missing should be Critical");
}

#[test]
fn test_missing_ws_url() {
    let config = SysConfig {
        s3_endpoint: Some("https://s3.example.com".to_string()),
        s3_region: Some("us-east-1".to_string()),
        s3_bucket: Some("my-bucket".to_string()),
        s3_access_key: Some("access123".to_string()),
        s3_secret_key: Some("secret456".to_string()),
        s3_public_url_base: None,
        api_base_url: Some("https://api.example.com/api/v1".to_string()),
        ws_url: None,
    };
    let result = scan_for_config_issues(&config);
    assert!(result.is_healthy, "Config should still be healthy with missing WS URL (Warning only)");
    let ws_issue = result.issues.iter().find(|i| i.field == "WS_URL");
    assert!(ws_issue.is_some(), "Should have WS_URL issue");
    assert_eq!(ws_issue.unwrap().severity, IssueSeverity::Warning, "WS_URL missing should be Warning, not Critical");
}

#[test]
fn test_missing_all_s3_required() {
    let config = SysConfig {
        s3_endpoint: None,
        s3_region: None,
        s3_bucket: None,
        s3_access_key: None,
        s3_secret_key: None,
        s3_public_url_base: None,
        api_base_url: Some("https://api.example.com/api/v1".to_string()),
        ws_url: None,
    };
    let result = scan_for_config_issues(&config);
    assert!(!result.is_healthy, "Config should not be healthy");
    let critical_s3_issues: Vec<_> = result.issues.iter().filter(|i| i.severity == IssueSeverity::Critical).collect();
    assert!(
        critical_s3_issues.len() >= 4,
        "Should have at least 4 Critical S3 issues, got {}",
        critical_s3_issues.len()
    );
}

#[test]
fn test_invalid_url_format() {
    let config = SysConfig {
        s3_endpoint: Some("not-a-url".to_string()),
        s3_region: Some("us-east-1".to_string()),
        s3_bucket: Some("my-bucket".to_string()),
        s3_access_key: Some("access123".to_string()),
        s3_secret_key: Some("secret456".to_string()),
        s3_public_url_base: None,
        api_base_url: Some("also-not-a-url".to_string()),
        ws_url: Some("http://should-be-ws".to_string()),
    };
    let result = scan_for_config_issues(&config);
    assert!(!result.is_healthy, "Config should not be healthy with invalid URLs");
    let endpoint_issue = result.issues.iter().find(|i| i.field == "S3_ENDPOINT");
    assert!(endpoint_issue.is_some());
    assert!(endpoint_issue.unwrap().message.contains("not a valid URL"));
    let api_issue = result.issues.iter().find(|i| i.field == "API_BASE_URL");
    assert!(api_issue.is_some());
    assert!(api_issue.unwrap().severity == IssueSeverity::Critical);
    let ws_issue = result.issues.iter().find(|i| i.field == "WS_URL");
    assert!(ws_issue.is_some());
    assert!(ws_issue.unwrap().severity == IssueSeverity::Warning);
}

#[test]
fn test_empty_strings_treated_as_missing() {
    let config = SysConfig {
        s3_endpoint: Some("   ".to_string()),
        s3_region: Some("".to_string()),
        s3_bucket: Some("my-bucket".to_string()),
        s3_access_key: Some("access123".to_string()),
        s3_secret_key: Some("secret456".to_string()),
        s3_public_url_base: None,
        api_base_url: Some("https://api.example.com/api/v1".to_string()),
        ws_url: None,
    };
    let result = scan_for_config_issues(&config);
    let endpoint_issue = result.issues.iter().find(|i| i.field == "S3_ENDPOINT");
    assert!(endpoint_issue.is_some());
    assert_eq!(endpoint_issue.unwrap().severity, IssueSeverity::Critical);
    let region_issue = result.issues.iter().find(|i| i.field == "S3_REGION");
    assert!(region_issue.is_some());
    assert_eq!(region_issue.unwrap().severity, IssueSeverity::Info);
}

// ── further cases ──

#[test]
fn invalid_endpoint_message_quotes_the_value() {
    let config = SysConfig {
        s3_endpoint: Some("ftp://x".to_string()),
        ..SysConfig::default()
    };
    let result = scan_for_config_issues(&config);
    assert_eq!(result.issues[0].field, "S3_ENDPOINT");
    assert_eq!(result.issues[0].message, "S3 endpoint 'ftp://x' is not a valid URL");
    assert_eq!(result.issues[0].fix_hint, "Ensure S3_ENDPOINT starts with http:// or https://");
}

#[test]
fn empty_config_reports_every_field_in_order() {
    let result = scan_for_config_issues(&SysConfig::default());
    let fields: Vec<&str> = result.issues.iter().map(|i| i.field.as_str()).collect();
    assert_eq!(
        fields,
        vec!["S3_ENDPOINT", "S3_BUCKET", "S3_ACCESS_KEY", "S3_SECRET_KEY", "S3_REGION", "S3_PUBLIC_URL_BASE", "API_BASE_URL", "WS_URL"]
    );
    assert!(!result.is_healthy);
}

#[test]
fn scan_result_health() {
    let warn = ConfigIssue {
        field: "WS_URL".to_string(),
        severity: IssueSeverity::Warning,
        message: String::new(),
        fix_hint: String::new(),
    };
    let mut crit = warn.clone();
    crit.severity = IssueSeverity::Critical;
    assert!(ScanResult::new(vec![warn.clone()]).is_healthy);
    assert!(!ScanResult::new(vec![warn, crit]).is_healthy);
    assert!(ScanResult::new(vec![]).is_healthy);
}
