//! Configuration checks for the desktop client.
//!
//! Storage, API and WebSocket settings are checked for presence and form;
//! each problem becomes an issue with a severity, and the configuration is
//! healthy when no issue is critical.

use vstd::prelude::*;
use crate::text::{chars_of, has_prefix, push_str, starts_with, trim_chars, trimmed};

verus! {

/// How badly a configuration issue affects the client.
#[derive(Debug, Clone, Copy, PartialEq, Eq, Structural)]
pub enum IssueSeverity {
    /// The client cannot work without this setting.
    Critical,
    /// The client works with reduced function.
    Warning,
    /// An optional setting is not set.
    Info,
}

/// One problem found in the configuration.
#[derive(Debug, Clone)]
pub struct ConfigIssue {
    /// The setting concerned, such as `S3_ACCESS_KEY`.
    pub field: String,
    pub severity: IssueSeverity,
    /// What is wrong.
    pub message: String,
    /// How to fix it.
    pub fix_hint: String,
}

/// The issues found, and whether none of them is critical.
#[derive(Debug, Clone)]
pub struct ScanResult {
    pub issues: Vec<ConfigIssue>,
    pub is_healthy: bool,
}

/// The configuration settings that are checked.
#[derive(Debug, Clone, Default)]
pub struct SysConfig {
    pub s3_endpoint: Option<String>,
    pub s3_region: Option<String>,
    pub s3_bucket: Option<String>,
    pub s3_access_key: Option<String>,
    pub s3_secret_key: Option<String>,
    pub s3_public_url_base: Option<String>,
    pub api_base_url: Option<String>,
    pub ws_url: Option<String>,
}

/// An issue as plain values: field, severity, message, fix hint.
pub type IssueView = (Seq<char>, IssueSeverity, Seq<char>, Seq<char>);

/// The plain values of an issue.
pub open spec fn issue_view(i: ConfigIssue) -> IssueView {
    (i.field@, i.severity, i.message@, i.fix_hint@)
}

/// The plain values of a list of issues.
pub open spec fn issues_view(v: Seq<ConfigIssue>) -> Seq<IssueView> {
    v.map_values(|i: ConfigIssue| issue_view(i))
}

/// Whether some issue is critical.
pub open spec fn has_critical(v: Seq<ConfigIssue>) -> bool {
    exists|k: int| 0 <= k < v.len() && (#[trigger] v[k]).severity == IssueSeverity::Critical
}

impl ScanResult {
    /// A result over `issues`, healthy when none of them is critical.
    pub fn new(issues: Vec<ConfigIssue>) -> (r: ScanResult)
        ensures
            r.issues@ == issues@,
            r.is_healthy == !has_critical(issues@),
    {
        let mut critical = false;
        let mut i: usize = 0;
        while i < issues.len()
            invariant
                i <= issues@.len(),
                critical == exists|k: int| 0 <= k < i && (#[trigger] issues@[k]).severity == IssueSeverity::Critical,
            decreases issues@.len() - i,
        {
            if issues[i].severity == IssueSeverity::Critical {
                critical = true;
            }
            i = i + 1;
        }
        ScanResult { issues, is_healthy: !critical }
    }
}

/// An absent setting, or one of white space only.
pub open spec fn blank(s: Option<String>) -> bool {
    match s {
        None => true,
        Some(v) => trimmed(v@).len() == 0,
    }
}

/// Whether a URL starts with an HTTP or WebSocket scheme.
pub open spec fn valid_url(s: Seq<char>) -> bool {
    has_prefix(s, "http://"@) || has_prefix(s, "https://"@) || has_prefix(s, "ws://"@) || has_prefix(s, "wss://"@)
}

/// Whether a URL starts with a WebSocket scheme.
pub open spec fn valid_ws_url(s: Seq<char>) -> bool {
    has_prefix(s, "ws://"@) || has_prefix(s, "wss://"@)
}

/// Whether a setting is absent or white space only.
fn is_empty(s: &Option<String>) -> (b: bool)
    ensures
        b == blank(*s),
{
    match s {
        None => true,
        Some(v) => {
            let t = trim_chars(&chars_of(v.as_str()));
            t.len() == 0
        },
    }
}

/// Whether a URL starts with an HTTP or WebSocket scheme.
fn is_valid_url(s: &str) -> (b: bool)
    ensures
        b == valid_url(s@),
{
    starts_with(s, "http://") || starts_with(s, "https://") || starts_with(s, "ws://") || starts_with(s, "wss://")
}

/// The issue for a required setting: critical when blank or (for URLs) malformed.
pub open spec fn required_issue(
    value: Option<String>,
    check_url: bool,
    field: Seq<char>,
    missing: Seq<char>,
    missing_hint: Seq<char>,
    bad_prefix: Seq<char>,
    bad_hint: Seq<char>,
) -> Seq<IssueView> {
    if blank(value) {
        seq![(field, IssueSeverity::Critical, missing, missing_hint)]
    } else if check_url && !valid_url(value->0@) {
        seq![(field, IssueSeverity::Critical, bad_prefix + value->0@ + "' is not a valid URL"@, bad_hint)]
    } else {
        Seq::empty()
    }
}

/// The issue for an optional setting: informational when blank.
pub open spec fn optional_issue(value: Option<String>, field: Seq<char>, message: Seq<char>, hint: Seq<char>) -> Seq<IssueView> {
    if blank(value) {
        seq![(field, IssueSeverity::Info, message, hint)]
    } else {
        Seq::empty()
    }
}

/// The issue for the WebSocket URL: a warning when blank or not `ws://` / `wss://`.
pub open spec fn ws_issue(value: Option<String>) -> Seq<IssueView> {
    if blank(value) {
        seq![(
            "WS_URL"@,
            IssueSeverity::Warning,
            "WebSocket URL not set, will use default 'ws://localhost:8080/api/v1/ws'"@,
            "Set WS_URL in Settings > Connection if using a different server"@,
        )]
    } else if !valid_ws_url(value->0@) {
        seq![(
            "WS_URL"@,
            IssueSeverity::Warning,
            "WebSocket URL '"@ + value->0@ + "' is not a valid WS URL"@,
            "Ensure WS_URL starts with ws:// or wss://"@,
        )]
    } else {
        Seq::empty()
    }
}

/// Every issue of a configuration, in the order they are reported.
pub open spec fn config_issues(c: SysConfig) -> Seq<IssueView> {
    required_issue(
        c.s3_endpoint,
        true,
        "S3_ENDPOINT"@,
        "S3 endpoint URL is not configured"@,
        "Set S3_ENDPOINT in environment or Settings > Storage"@,
        "S3 endpoint '"@,
        "Ensure S3_ENDPOINT starts with http:// or https://"@,
    ) + required_issue(
        c.s3_bucket,
        false,
        "S3_BUCKET"@,
        "S3 bucket name is not configured"@,
        "Set S3_BUCKET in environment or Settings > Storage"@,
        Seq::empty(),
        Seq::empty(),
    ) + required_issue(
        c.s3_access_key,
        false,
        "S3_ACCESS_KEY"@,
        "S3 access key is not configured"@,
        "Set S3_ACCESS_KEY in environment or Settings > Storage"@,
        Seq::empty(),
        Seq::empty(),
    ) + required_issue(
        c.s3_secret_key,
        false,
        "S3_SECRET_KEY"@,
        "S3 secret key is not configured"@,
        "Set S3_SECRET_KEY in environment or Settings > Storage"@,
        Seq::empty(),
        Seq::empty(),
    ) + optional_issue(
        c.s3_region,
        "S3_REGION"@,
        "S3 region not set, will use default 'us-east-1'"@,
        "Optionally set S3_REGION for better performance"@,
    ) + optional_issue(
        c.s3_public_url_base,
        "S3_PUBLIC_URL_BASE"@,
        "S3 public URL base not configured (optional CDN support)"@,
        "Optionally set S3_PUBLIC_URL_BASE for CDN URLs"@,
    ) + required_issue(
        c.api_base_url,
        true,
        "API_BASE_URL"@,
        "API base URL is not configured"@,
        "Set API_BASE_URL at compile time or in Settings > Connection"@,
        "API base URL '"@,
        "Ensure API_BASE_URL starts with http:// or https://"@,
    ) + ws_issue(c.ws_url)
}

/// Builds an issue.
fn make_issue(field: &str, severity: IssueSeverity, message: String, fix_hint: &str) -> (r: ConfigIssue)
    ensures
        issue_view(r) == (field@, severity, message@, fix_hint@),
{
    ConfigIssue { field: field.to_owned(), severity, message, fix_hint: fix_hint.to_owned() }
}

/// Appends an issue.
fn add_issue(issues: &mut Vec<ConfigIssue>, issue: ConfigIssue)
    ensures
        issues_view(final(issues)@) == issues_view(old(issues)@).push(issue_view(issue)),
{
    issues.push(issue);
    assert(issues_view(issues@) =~= issues_view(old(issues)@).push(issue_view(issue)));
}

/// Appends the issue of a required setting (see [`required_issue`]).
fn check_required(
    issues: &mut Vec<ConfigIssue>,
    value: &Option<String>,
    check_url: bool,
    field: &str,
    missing: &str,
    missing_hint: &str,
    bad_prefix: &str,
    bad_hint: &str,
)
    ensures
        issues_view(final(issues)@) == issues_view(old(issues)@)
            + required_issue(*value, check_url, field@, missing@, missing_hint@, bad_prefix@, bad_hint@),
{
    if is_empty(value) {
        add_issue(issues, make_issue(field, IssueSeverity::Critical, missing.to_owned(), missing_hint));
    } else if check_url {
        match value {
            Some(v) => {
                if !is_valid_url(v.as_str()) {
                    let mut m = String::new();
                    push_str(&mut m, bad_prefix);
                    push_str(&mut m, v.as_str());
                    push_str(&mut m, "' is not a valid URL");
                    add_issue(issues, make_issue(field, IssueSeverity::Critical, m, bad_hint));
                }
            },
            None => {},
        }
    }
    assert(issues_view(issues@) =~= issues_view(old(issues)@)
        + required_issue(*value, check_url, field@, missing@, missing_hint@, bad_prefix@, bad_hint@));
}

/// Appends the issue of an optional setting (see [`optional_issue`]).
fn check_optional(issues: &mut Vec<ConfigIssue>, value: &Option<String>, field: &str, message: &str, hint: &str)
    ensures
        issues_view(final(issues)@) == issues_view(old(issues)@) + optional_issue(*value, field@, message@, hint@),
{
    if is_empty(value) {
        add_issue(issues, make_issue(field, IssueSeverity::Info, message.to_owned(), hint));
    }
    assert(issues_view(issues@) =~= issues_view(old(issues)@) + optional_issue(*value, field@, message@, hint@));
}

/// Appends the issue of the WebSocket URL (see [`ws_issue`]).
fn check_ws(issues: &mut Vec<ConfigIssue>, value: &Option<String>)
    ensures
        issues_view(final(issues)@) == issues_view(old(issues)@) + ws_issue(*value),
{
    if is_empty(value) {
        add_issue(issues, make_issue(
            "WS_URL",
            IssueSeverity::Warning,
            "WebSocket URL not set, will use default 'ws://localhost:8080/api/v1/ws'".to_owned(),
            "Set WS_URL in Settings > Connection if using a different server",
        ));
    } else {
        match value {
            Some(v) => {
                if !starts_with(v.as_str(), "ws://") && !starts_with(v.as_str(), "wss://") {
                    let mut m = String::new();
                    push_str(&mut m, "WebSocket URL '");
                    push_str(&mut m, v.as_str());
                    push_str(&mut m, "' is not a valid WS URL");
                    add_issue(issues, make_issue("WS_URL", IssueSeverity::Warning, m, "Ensure WS_URL starts with ws:// or wss://"));
                }
            },
            None => {},
        }
    }
    assert(issues_view(issues@) =~= issues_view(old(issues)@) + ws_issue(*value));
}

/// Checks a configuration: storage endpoint, bucket and keys are required
/// (critical), the storage region and public URL base are optional (info),
/// the API base URL is required (critical), and the WebSocket URL has a
/// default (warning).
pub fn scan_for_config_issues(config: &SysConfig) -> (r: ScanResult)
    ensures
        issues_view(r.issues@) == config_issues(*config),
        r.is_healthy == !has_critical(r.issues@),
{
    let mut issues: Vec<ConfigIssue> = Vec::new();
    assert(issues_view(issues@) =~= Seq::<IssueView>::empty());
    check_required(
        &mut issues,
        &config.s3_endpoint,
        true,
        "S3_ENDPOINT",
        "S3 endpoint URL is not configured",
        "Set S3_ENDPOINT in environment or Settings > Storage",
        "S3 endpoint '",
        "Ensure S3_ENDPOINT starts with http:// or https://",
    );
    check_required(
        &mut issues,
        &config.s3_bucket,
        false,
        "S3_BUCKET",
        "S3 bucket name is not configured",
        "Set S3_BUCKET in environment or Settings > Storage",
        "",
        "",
    );
    check_required(
        &mut issues,
        &config.s3_access_key,
        false,
        "S3_ACCESS_KEY",
        "S3 access key is not configured",
        "Set S3_ACCESS_KEY in environment or Settings > Storage",
        "",
        "",
    );
    check_required(
        &mut issues,
        &config.s3_secret_key,
        false,
        "S3_SECRET_KEY",
        "S3 secret key is not configured",
        "Set S3_SECRET_KEY in environment or Settings > Storage",
        "",
        "",
    );
    check_optional(
        &mut issues,
        &config.s3_region,
        "S3_REGION",
        "S3 region not set, will use default 'us-east-1'",
        "Optionally set S3_REGION for better performance",
    );
    check_optional(
        &mut issues,
        &config.s3_public_url_base,
        "S3_PUBLIC_URL_BASE",
        "S3 public URL base not configured (optional CDN support)",
        "Optionally set S3_PUBLIC_URL_BASE for CDN URLs",
    );
    check_required(
        &mut issues,
        &config.api_base_url,
        true,
        "API_BASE_URL",
        "API base URL is not configured",
        "Set API_BASE_URL at compile time or in Settings > Connection",
        "API base URL '",
        "Ensure API_BASE_URL starts with http:// or https://",
    );
    check_ws(&mut issues, &config.ws_url);
    proof {
        reveal_strlit("");
    }
    assert(issues_view(issues@) =~= config_issues(*config));
    ScanResult::new(issues)
}

} // verus!
