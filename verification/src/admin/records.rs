//! Records that the desktop client exchanges with its front end, its
//! server and its local store.

use vstd::prelude::*;
use crate::ms_io;
use crate::text::{chars_of, has_prefix, starts_with_chars, str_eq, string_of, trim_chars, trimmed};

verus! {

/// The account a login returned.
#[derive(Debug, Clone)]
pub struct LoginResult {
    pub user_id: String,
    pub username: String,
    pub role: String,
}

/// A cached edge of the card graph (`relation` is `sequence` or `reference`).
#[derive(Debug, Clone)]
pub struct CachedEdge {
    pub source_id: String,
    pub target_id: String,
    pub relation: String,
}

/// A card whose local and remote versions both changed.
#[derive(Debug, Clone)]
pub struct SyncConflictEntry {
    pub uuid: String,
    pub title: String,
    pub local_path: String,
    pub conflict_copy_path: String,
    pub local_bytes: u64,
    pub remote_bytes: u64,
    pub local_updated_at: String,
    pub remote_updated_at: String,
}

/// What one synchronisation run did.
#[derive(Debug, Clone)]
pub struct SyncRunReport {
    pub downloaded: u32,
    pub uploaded: u32,
    pub deleted: u32,
    pub conflicts: Vec<SyncConflictEntry>,
}

/// A card of the local index.
#[derive(Debug, Clone)]
pub struct CardIndexDto {
    pub uuid: String,
    pub file_path: String,
    pub file_hash: String,
    pub version: i64,
    pub sync_status: String,
    pub last_synced_hash: Option<String>,
}

/// A node of the vault tree: a directory or a card.
#[derive(Debug)]
pub struct TreeNodeDto {
    pub id: String,
    pub name: String,
    pub parent_id: Option<String>,
    pub is_dir: bool,
    pub children: Vec<TreeNodeDto>,
}

/// A draft of a card as the front end sees it.
#[derive(Debug, Clone)]
pub struct DraftDto {
    pub card_id: String,
    pub raw_md: String,
    pub ast_data: Option<String>,
    pub updated_at: i64,
}

/// Progress of a synchronisation, as an event for the front end.
#[derive(Debug, Clone)]
pub struct SyncProgressEvent {
    pub status: String,
    pub progress: u32,
}

/// A change of a vault file, as an event for the front end.
#[derive(Debug, Clone)]
pub struct FileChangeEvent {
    pub path: String,
    pub kind: String,
}

/// What uploading an image gave.
#[derive(Debug, Clone)]
pub struct ImageUploadResult {
    /// The object key.
    pub key: String,
    /// The public URL.
    pub url: String,
    /// Size after compression, in bytes.
    pub size_bytes: u64,
    /// Size before compression, in bytes.
    pub original_size_bytes: u64,
}

/// Object-store settings of the client.
#[derive(Debug, Clone)]
pub struct StorageConfig {
    pub provider: String,
    pub endpoint: String,
    pub region: String,
    pub bucket: String,
    pub access_key: String,
    pub secret_key: String,
    pub public_domain: String,
    pub force_path_style: bool,
}

/// Settings of the client.
#[derive(Debug, Clone)]
pub struct AppConfig {
    pub api_base_url: String,
    pub vault_path: String,
    pub theme: String,
    pub storage: Option<StorageConfig>,
    pub last_sync_cursor: Option<String>,
}

impl Default for AppConfig {
    /// The local API address and the system theme; no vault, no storage,
    /// no synchronisation cursor.
    fn default() -> (r: AppConfig)
        ensures
            r.api_base_url@ == "http://localhost:8080/api/v1"@,
            r.vault_path@.len() == 0,
            r.theme@ == "system"@,
            r.storage is None,
            r.last_sync_cursor is None,
    {
        AppConfig {
            api_base_url: "http://localhost:8080/api/v1".to_string(),
            vault_path: String::new(),
            theme: "system".to_string(),
            storage: None,
            last_sync_cursor: None,
        }
    }
}

impl From<StorageConfig> for ms_io::StorageConfig {
    fn from(c: StorageConfig) -> (r: ms_io::StorageConfig) {
        ms_io::StorageConfig {
            endpoint: c.endpoint,
            region: c.region,
            bucket: c.bucket,
            access_key: c.access_key,
            secret_key: c.secret_key,
            public_url_base: None,
            use_path_style: c.force_path_style,
        }
    }
}

impl vstd::std_specs::convert::FromSpecImpl<StorageConfig> for ms_io::StorageConfig {
    open spec fn obeys_from_spec() -> bool {
        true
    }

    /// The object-store connection of the client's settings: the same
    /// endpoint, region, bucket and keys, path-style addressing as set, and
    /// no public URL base.
    open spec fn from_spec(c: StorageConfig) -> ms_io::StorageConfig {
        ms_io::StorageConfig {
            endpoint: c.endpoint,
            region: c.region,
            bucket: c.bucket,
            access_key: c.access_key,
            secret_key: c.secret_key,
            public_url_base: None,
            use_path_style: c.force_path_style,
        }
    }
}

/// Changes to the settings asked for by the front end; an empty field
/// leaves its setting as it is.
#[derive(Debug, Clone, Default)]
pub struct ConfigPatch {
    pub api_base_url: String,
    pub vault_path: String,
    pub theme: String,
}

/// Whether a patch is refused: its API address, trimmed, is neither
/// `http://` nor `https://`.
pub open spec fn patch_refused(patch: ConfigPatch) -> bool {
    let url = trimmed(patch.api_base_url@);
    patch.api_base_url@.len() > 0 && !has_prefix(url, "http://"@) && !has_prefix(url, "https://"@)
}

/// Whether a patch moves the vault: it names a vault other than the one set.
pub open spec fn patch_moves_vault(cfg: AppConfig, patch: ConfigPatch) -> bool {
    patch.vault_path@.len() > 0 && patch.vault_path@ != cfg.vault_path@
}

/// Applies a patch to the settings: a refused patch (see [`patch_refused`])
/// changes nothing and is answered with an error; otherwise the trimmed API
/// address, the vault and the theme replace the settings they name, and
/// the answer says whether the vault moved (the caller then reopens it).
pub fn apply_config_patch(cfg: &mut AppConfig, patch: ConfigPatch) -> (r: Result<bool, String>)
    ensures
        patch_refused(patch) ==> (r matches Err(m) && m@ == "API URL must start with http:// or https://"@)
            && *final(cfg) == *old(cfg),
        !patch_refused(patch) ==> r == Ok::<bool, String>(patch_moves_vault(*old(cfg), patch)),
        !patch_refused(patch) ==> final(cfg).api_base_url@ == (if patch.api_base_url@.len() > 0 {
            trimmed(patch.api_base_url@)
        } else {
            old(cfg).api_base_url@
        }),
        !patch_refused(patch) ==> final(cfg).vault_path@ == (if patch.vault_path@.len() > 0 {
            patch.vault_path@
        } else {
            old(cfg).vault_path@
        }),
        !patch_refused(patch) ==> final(cfg).theme@ == (if patch.theme@.len() > 0 {
            patch.theme@
        } else {
            old(cfg).theme@
        }),
        final(cfg).storage == old(cfg).storage,
        final(cfg).last_sync_cursor == old(cfg).last_sync_cursor,
{
    let api = chars_of(patch.api_base_url.as_str());
    if api.len() > 0 {
        let url = trim_chars(api.as_slice());
        if !starts_with_chars(url.as_slice(), chars_of("http://").as_slice())
            && !starts_with_chars(url.as_slice(), chars_of("https://").as_slice()) {
            return Err("API URL must start with http:// or https://".to_string());
        }
        cfg.api_base_url = string_of(url.as_slice());
    }
    let changed = chars_of(patch.vault_path.as_str()).len() > 0
        && !str_eq(patch.vault_path.as_str(), cfg.vault_path.as_str());
    if changed {
        cfg.vault_path = patch.vault_path;
    }
    if chars_of(patch.theme.as_str()).len() > 0 {
        cfg.theme = patch.theme;
    }
    Ok(changed)
}

/// What a pass over the remote cards did.
#[derive(Debug, Clone)]
pub struct SyncResult {
    pub synced: u32,
    pub skipped: u32,
    pub errors: Vec<String>,
}

/// What a pass over the local cards did.
#[derive(Debug, Clone)]
pub struct LocalSyncResult {
    pub uploaded: u32,
    pub created: u32,
    pub errors: Vec<String>,
}

} // verus!
