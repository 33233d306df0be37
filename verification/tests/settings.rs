use memory_stream::admin::records::{apply_config_patch, AppConfig, ConfigPatch, StorageConfig};
use memory_stream::ms_io;

fn patch(api: &str, vault: &str, theme: &str) -> ConfigPatch {
    ConfigPatch { api_base_url: api.to_string(), vault_path: vault.to_string(), theme: theme.to_string() }
}

#[test]
fn default_settings() {
    let c = AppConfig::default();
    assert_eq!(c.api_base_url, "http://localhost:8080/api/v1");
    assert_eq!(c.vault_path, "");
    assert_eq!(c.theme, "system");
    assert!(c.storage.is_none());
    assert!(c.last_sync_cursor.is_none());
}

#[test]
fn patch_replaces_named_settings() {
    let mut c = AppConfig::default();
    assert_eq!(apply_config_patch(&mut c, patch("  https://api.example.com ", "/v", "dark")), Ok(true));
    assert_eq!(c.api_base_url, "https://api.example.com");
    assert_eq!(c.vault_path, "/v");
    assert_eq!(c.theme, "dark");
    assert_eq!(apply_config_patch(&mut c, patch("", "/v", "")), Ok(false));
    assert_eq!(c.api_base_url, "https://api.example.com");
    assert_eq!(c.theme, "dark");
    assert_eq!(apply_config_patch(&mut c, ConfigPatch::default()), Ok(false));
}

#[test]
fn patch_with_bad_address_changes_nothing() {
    let mut c = AppConfig::default();
    let r = apply_config_patch(&mut c, patch("ftp://x", "/w", "dark"));
    assert_eq!(r, Err("API URL must start with http:// or https://".to_string()));
    assert_eq!(c.api_base_url, "http://localhost:8080/api/v1");
    assert_eq!(c.vault_path, "");
    assert_eq!(c.theme, "system");
}

#[test]
fn storage_settings_become_a_connection() {
    let s = StorageConfig {
        provider: "s3".to_string(),
        endpoint: "https://s3.example.com".to_string(),
        region: "eu".to_string(),
        bucket: "b".to_string(),
        access_key: "ak".to_string(),
        secret_key: "sk".to_string(),
        public_domain: "cdn.example.com".to_string(),
        force_path_style: true,
    };
    let c = ms_io::StorageConfig::from(s);
    assert_eq!(c.endpoint, "https://s3.example.com");
    assert_eq!(c.region, "eu");
    assert_eq!(c.bucket, "b");
    assert_eq!(c.access_key, "ak");
    assert_eq!(c.secret_key, "sk");
    assert_eq!(c.public_url_base, None);
    assert!(c.use_path_style);
}

fn some(s: &str) -> Option<String> {
    Some(s.to_string())
}

#[test]
fn storage_connection_from_environment() {
    let c = memory_stream::admin::image::storage_config_from_env(
        some("http://localhost:9000"),
        None,
        some("bucket"),
        some("ak"),
        some("sk"),
        None,
        some("1"),
    )
    .unwrap();
    assert_eq!(c.endpoint, "http://localhost:9000");
    assert_eq!(c.region, "us-east-1");
    assert_eq!(c.bucket, "bucket");
    assert!(c.use_path_style);
    assert_eq!(c.public_url_base, None);
    let c = memory_stream::admin::image::storage_config_from_env(
        some("e"), some("eu"), some("b"), some("a"), some("s"), some("https://cdn"), some("yes"),
    )
    .unwrap();
    assert_eq!(c.region, "eu");
    assert!(!c.use_path_style);
    assert_eq!(c.public_url_base, some("https://cdn"));
}

#[test]
fn missing_storage_settings_are_reported_in_order() {
    let f = memory_stream::admin::image::storage_config_from_env;
    assert_eq!(
        f(None, None, None, None, None, None, None).unwrap_err(),
        "S3_ENDPOINT not set (check .env file or system env)"
    );
    assert_eq!(f(some("e"), None, None, None, None, None, None).unwrap_err(), "S3_BUCKET environment variable not set");
    assert_eq!(
        f(some("e"), None, some("b"), None, some("s"), None, None).unwrap_err(),
        "S3_ACCESS_KEY environment variable not set"
    );
    assert_eq!(
        f(some("e"), None, some("b"), some("a"), None, None, None).unwrap_err(),
        "S3_SECRET_KEY environment variable not set"
    );
}

#[test]
fn image_size_limits() {
    use_limits();
}

fn use_limits() {
    let up = memory_stream::admin::image::check_upload_size;
    assert!(up(50 * 1024 * 1024).is_ok());
    assert_eq!(up(50 * 1024 * 1024 + 1), Err("图片过大: 52428801 bytes (上限 50MB)".to_string()));
    let file = memory_stream::admin::image::check_image_file_size;
    assert!(file(20 * 1024 * 1024).is_ok());
    assert_eq!(file(25 * 1024 * 1024), Err("图片文件过大: 25 MB（上限 20 MB）".to_string()));
    let clip = memory_stream::admin::image::check_clipboard_image_size;
    assert_eq!(clip(21 * 1024 * 1024 + 5), Err("剪贴板图片过大: 21 MB（上限 20 MB）".to_string()));
    let ext = memory_stream::admin::image::upload_extension;
    assert_eq!(ext("photo.final.png"), "png");
    assert_eq!(ext("noext"), "noext");
    assert_eq!(ext("trailing."), "");
}
