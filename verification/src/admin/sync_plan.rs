//! Decisions of card synchronisation.
//!
//! Pulling walks the server's change manifest; for each entry the client
//! decides from the entry and its own index record whether to delete,
//! download, overwrite, keep a conflict copy, or leave the card alone.
//! Changes are judged against the hash recorded at the last
//! synchronisation (the baseline). Pushing sends the pending cards and
//! records the versions the server accepted. Timestamps are formatted as
//! RFC 3339 from days since the Unix epoch.

use vstd::prelude::*;
use crate::text::{decimal, padded_decimal, push_char, push_decimal, push_padded, push_str, str_eq};

verus! {

/// Synchronisation state of a card of the local index.
#[derive(Debug, Clone, Copy, PartialEq, Eq, Structural)]
pub enum SyncStatus {
    Synced,
    PendingPush,
    /// Deleted locally; the deletion waits to be confirmed by the server.
    PendingDelete,
    Conflict,
}

/// A card of the local index.
#[derive(Debug, Clone)]
pub struct LocalCard {
    pub uuid: String,
    pub file_path: String,
    pub file_hash: String,
    pub version: i64,
    pub sync_status: SyncStatus,
    pub last_synced_hash: Option<String>,
}

/// An entry of the server's change manifest.
#[derive(Debug, Clone)]
pub struct ManifestEntry {
    pub uuid: String,
    pub version: i64,
    pub hash: String,
    pub is_deleted: bool,
}

/// What pulling does with one manifest entry.
#[derive(Debug, Clone, Copy, PartialEq, Eq, Structural)]
pub enum PullAction {
    /// Nothing to do.
    Skip,
    /// Remove the local file and its index record.
    DeleteLocal,
    /// Download a card the client does not have.
    Download,
    /// Both sides changed: keep the local file, save the server's version as
    /// a conflict copy, mark the card as in conflict.
    Conflict,
    /// Only the server changed: overwrite the local file, unless the file on
    /// disk no longer has the recorded hash (then it is a conflict).
    Overwrite,
}

/// The hash the last synchronisation recorded, or the file hash without one.
pub open spec fn baseline(local: LocalCard) -> Seq<char> {
    match local.last_synced_hash {
        Some(h) => h@,
        None => local.file_hash@,
    }
}

/// The local side changed since the last synchronisation.
pub open spec fn local_changed(local: LocalCard) -> bool {
    local.sync_status == SyncStatus::PendingPush || local.file_hash@ != baseline(local)
}

/// The server side changed since the last synchronisation.
pub open spec fn remote_changed(entry: ManifestEntry, local: LocalCard) -> bool {
    entry.hash@ != baseline(local)
}

/// What pulling does with a manifest entry, given the local record of the card.
pub open spec fn pull_action_of(entry: ManifestEntry, local: Option<LocalCard>) -> PullAction {
    if entry.is_deleted {
        if local is Some { PullAction::DeleteLocal } else { PullAction::Skip }
    } else {
        match local {
            None => PullAction::Download,
            Some(l) => if local_changed(l) && remote_changed(entry, l) {
                PullAction::Conflict
            } else if !local_changed(l) && remote_changed(entry, l) {
                PullAction::Overwrite
            } else {
                PullAction::Skip
            },
        }
    }
}

/// Decides what pulling does with a manifest entry (see [`pull_action_of`]).
pub fn pull_action(entry: &ManifestEntry, local: Option<&LocalCard>) -> (r: PullAction)
    ensures
        r == pull_action_of(*entry, match local { Some(l) => Some(*l), None => None }),
{
    if entry.is_deleted {
        return if local.is_some() { PullAction::DeleteLocal } else { PullAction::Skip };
    }
    match local {
        None => PullAction::Download,
        Some(l) => {
            let base: &str = match &l.last_synced_hash {
                Some(h) => h.as_str(),
                None => l.file_hash.as_str(),
            };
            let local_moved = l.sync_status == SyncStatus::PendingPush || !str_eq(l.file_hash.as_str(), base);
            let remote_moved = !str_eq(entry.hash.as_str(), base);
            if local_moved && remote_moved {
                PullAction::Conflict
            } else if !local_moved && remote_moved {
                PullAction::Overwrite
            } else {
                PullAction::Skip
            }
        },
    }
}

/// Before overwriting, the file on disk must still have the recorded hash;
/// otherwise the overwrite turns into a conflict. `current_hash` is the hash
/// of the file as read now, `None` when it could not be read.
pub fn overwrite_is_safe(current_hash: Option<&str>, local: &LocalCard) -> (b: bool)
    ensures
        b == (current_hash matches Some(h) && h@ == local.file_hash@),
{
    match current_hash {
        Some(h) => str_eq(h, local.file_hash.as_str()),
        None => false,
    }
}

/// The record of a card after the server's version was written locally.
pub fn record_after_download(uuid: &str, file_path: &str, entry: &ManifestEntry) -> (r: LocalCard)
    ensures
        r.uuid@ == uuid@,
        r.file_path@ == file_path@,
        r.file_hash@ == entry.hash@,
        r.version == entry.version,
        r.sync_status == SyncStatus::Synced,
        r.last_synced_hash matches Some(h) && h@ == entry.hash@,
{
    LocalCard {
        uuid: uuid.to_owned(),
        file_path: file_path.to_owned(),
        file_hash: entry.hash.clone(),
        version: entry.version,
        sync_status: SyncStatus::Synced,
        last_synced_hash: Some(entry.hash.clone()),
    }
}

/// The record of a pushed card once the server accepted it at `server_version`.
pub fn record_after_push(card: &LocalCard, pushed_hash: &str, server_version: i64) -> (r: LocalCard)
    ensures
        r.uuid@ == card.uuid@,
        r.file_path@ == card.file_path@,
        r.file_hash@ == pushed_hash@,
        r.version == server_version,
        r.sync_status == SyncStatus::Synced,
        r.last_synced_hash matches Some(h) && h@ == pushed_hash@,
{
    LocalCard {
        uuid: card.uuid.clone(),
        file_path: card.file_path.clone(),
        file_hash: pushed_hash.to_owned(),
        version: server_version,
        sync_status: SyncStatus::Synced,
        last_synced_hash: Some(pushed_hash.to_owned()),
    }
}

/// The cards waiting to be pushed, in index order.
pub open spec fn pending_of(cards: Seq<LocalCard>) -> Seq<LocalCard>
    decreases cards.len(),
{
    if cards.len() == 0 {
        Seq::empty()
    } else if cards.last().sync_status == SyncStatus::PendingPush {
        pending_of(cards.drop_last()).push(cards.last())
    } else {
        pending_of(cards.drop_last())
    }
}

/// A copy of an index record.
pub fn copy_card(c: &LocalCard) -> (r: LocalCard)
    ensures
        r == *c,
{
    LocalCard {
        uuid: c.uuid.clone(),
        file_path: c.file_path.clone(),
        file_hash: c.file_hash.clone(),
        version: c.version,
        sync_status: c.sync_status,
        last_synced_hash: match &c.last_synced_hash {
            Some(h) => Some(h.clone()),
            None => None,
        },
    }
}

/// The cards waiting to be pushed (see [`pending_of`]).
pub fn pending_cards(cards: &Vec<LocalCard>) -> (r: Vec<LocalCard>)
    ensures
        r@ == pending_of(cards@),
{
    let mut out: Vec<LocalCard> = Vec::new();
    let mut i: usize = 0;
    while i < cards.len()
        invariant
            i <= cards@.len(),
            out@ == pending_of(cards@.take(i as int)),
        decreases cards@.len() - i,
    {
        assert(cards@.take(i + 1).drop_last() =~= cards@.take(i as int));
        if cards[i].sync_status == SyncStatus::PendingPush {
            out.push(copy_card(&cards[i]));
        }
        i = i + 1;
    }
    assert(cards@.take(cards@.len() as int) =~= cards@);
    out
}

/// The uuids of the cards whose deletion waits for the server, in order.
pub open spec fn tombstones_of(cards: Seq<LocalCard>) -> Seq<Seq<char>>
    decreases cards.len(),
{
    if cards.len() == 0 {
        Seq::empty()
    } else if cards.last().sync_status == SyncStatus::PendingDelete {
        tombstones_of(cards.drop_last()).push(cards.last().uuid@)
    } else {
        tombstones_of(cards.drop_last())
    }
}

/// The cards deleted locally whose deletion waits for the server (see
/// [`tombstones_of`]).
pub fn pending_deletes(cards: &Vec<LocalCard>) -> (r: Vec<String>)
    ensures
        r@.map_values(|u: String| u@) == tombstones_of(cards@),
{
    let mut out: Vec<String> = Vec::new();
    let mut i: usize = 0;
    assert(out@.map_values(|u: String| u@) =~= tombstones_of(cards@.take(0)));
    while i < cards.len()
        invariant
            i <= cards@.len(),
            out@.map_values(|u: String| u@) == tombstones_of(cards@.take(i as int)),
        decreases cards@.len() - i,
    {
        assert(cards@.take(i + 1).drop_last() =~= cards@.take(i as int));
        if cards[i].sync_status == SyncStatus::PendingDelete {
            let ghost before = out@;
            out.push(cards[i].uuid.clone());
            assert(out@.map_values(|u: String| u@) =~= before.map_values(|u: String| u@).push(cards@[i as int].uuid@));
        }
        i = i + 1;
    }
    assert(cards@.take(cards@.len() as int) =~= cards@);
    out
}

/// The address a tombstone is sent to: `<base>/sync/card/<uuid>`.
pub fn tombstone_url(base: &str, uuid: &str) -> (r: String)
    ensures
        r@ == base@ + "/sync/card/"@ + uuid@,
{
    let mut r = String::new();
    push_str(&mut r, base);
    push_str(&mut r, "/sync/card/");
    push_str(&mut r, uuid);
    r
}

/// The error that stops sending tombstones: `Delete <uuid> failed: <why>`.
pub fn tombstone_error(uuid: &str, why: &str) -> (r: String)
    ensures
        r@ == "Delete "@ + uuid@ + " failed: "@ + why@,
{
    let mut r = String::new();
    push_str(&mut r, "Delete ");
    push_str(&mut r, uuid);
    push_str(&mut r, " failed: ");
    push_str(&mut r, why);
    r
}

/// After the server answered a tombstone with `status`: the local card (its
/// file and index records) is cleared only when the server confirmed
/// (2xx); otherwise sending stops with the error, built from `uuid` and the
/// server's error text (see [`tombstone_error`]), and the card stays
/// pending.
pub fn after_tombstone_delete(uuid: &str, status: u16, api_error: &str) -> (r: Result<(), String>)
    ensures
        200 <= status <= 299 <==> r is Ok,
        r matches Err(e) ==> e@ == "Delete "@ + uuid@ + " failed: "@ + api_error@,
{
    if 200 <= status && status <= 299 {
        Ok(())
    } else {
        Err(tombstone_error(uuid, api_error))
    }
}

/// Percentage of progress after item `index` of `total` (100 when `total` is 0).
pub fn progress_percent(index: u32, total: u32) -> (r: u32)
    requires
        (index + 1) * 100 <= u32::MAX,
    ensures
        total == 0 ==> r == 100,
        total > 0 ==> r == (index + 1) * 100 / (total as int),
{
    let done = (index + 1) * 100;
    match done.checked_div(total) {
        Some(p) => p,
        None => 100,
    }
}

/// Proleptic Gregorian date `(year, month, day)` of day `z` counted from
/// 1970-01-01, by eras of 400 years starting on 1 March.
pub open spec fn civil_date(z: int) -> (int, int, int) {
    let zz = z + 719468;
    let era = zz / 146097;
    let doe = zz - era * 146097;
    let yoe = (doe - doe / 1460 + doe / 36524 - doe / 146096) / 365;
    let y = yoe + era * 400;
    let doy = doe - (365 * yoe + yoe / 4 - yoe / 100);
    let mp = (5 * doy + 2) / 153;
    let d = doy - (153 * mp + 2) / 5 + 1;
    let m = if mp < 10 { mp + 3 } else { mp - 9 };
    (if m <= 2 { y + 1 } else { y }, m, d)
}

/// The civil date of a day count (see [`civil_date`]).
pub fn civil_from_days(z: i64) -> (r: (i64, i64, i64))
    requires
        -0x7000_0000_0000_0000 <= z <= 0x7000_0000_0000_0000,
    ensures
        r == (civil_date(z as int).0 as i64, civil_date(z as int).1 as i64, civil_date(z as int).2 as i64),
        1 <= r.1 <= 12,
        1 <= r.2 <= 31,
{
    let zz = z + 719468;
    let era: i64 = if zz >= 0 {
        zz / 146097
    } else {
        let q = (146096 - zz) / 146097;
        0 - q
    };
    assert(era == zz as int / 146097) by (nonlinear_arith)
        requires
            zz >= 0 ==> era == zz / 146097,
            zz < 0 ==> era == 0 - (146096 - zz) / 146097,
            zz < 0x7100_0000_0000_0000,
            zz > -0x7100_0000_0000_0000,
    ;
    let doe = zz - era * 146097;
    assert(0 <= doe < 146097) by (nonlinear_arith)
        requires
            era == zz as int / 146097,
            doe == zz - era * 146097,
    ;
    let yoe = (doe - doe / 1460 + doe / 36524 - doe / 146096) / 365;
    assert(0 <= yoe <= 399) by (nonlinear_arith)
        requires
            0 <= doe < 146097,
            yoe == (doe - doe / 1460 + doe / 36524 - doe / 146096) / 365,
    ;
    let y = yoe + era * 400;
    let doy = doe - (365 * yoe + yoe / 4 - yoe / 100);
    assert(0 <= doy <= 365) by (nonlinear_arith)
        requires
            0 <= doe < 146097,
            yoe == (doe - doe / 1460 + doe / 36524 - doe / 146096) / 365,
            doy == doe - (365 * yoe + yoe / 4 - yoe / 100),
    ;
    let mp = (5 * doy + 2) / 153;
    let d = doy - (153 * mp + 2) / 5 + 1;
    assert(0 <= mp <= 11 && 1 <= d <= 31) by (nonlinear_arith)
        requires
            0 <= doy <= 365,
            mp == (5 * doy + 2) / 153,
            d == doy - (153 * mp + 2) / 5 + 1,
    ;
    let m = if mp < 10 { mp + 3 } else { mp - 9 };
    let y = if m <= 2 { y + 1 } else { y };
    (y, m, d)
}

/// A timestamp `YYYY-MM-DDTHH:MM:SSZ` (each part zero-padded to its width).
pub open spec fn timestamp_text(total_secs: nat) -> Seq<char> {
    let days = total_secs / 86400;
    let tod = total_secs % 86400;
    let date = civil_date(days as int);
    padded_decimal(date.0 as nat, 4) + "-"@ + padded_decimal(date.1 as nat, 2) + "-"@ + padded_decimal(date.2 as nat, 2)
        + "T"@ + padded_decimal(tod / 3600, 2) + ":"@ + padded_decimal((tod % 3600) / 60, 2) + ":"@
        + padded_decimal(tod % 60, 2) + "Z"@
}

/// Formats seconds since the Unix epoch as an RFC 3339 UTC timestamp.
pub fn format_timestamp(total_secs: u64) -> (r: String)
    requires
        total_secs / 86400 <= 0x7000_0000_0000_0000,
    ensures
        r@ == timestamp_text(total_secs as nat),
{
    let days = total_secs / 86400;
    let tod = total_secs % 86400;
    let (y, m, d) = civil_from_days(days as i64);
    assert(y >= 0) by (nonlinear_arith)
        requires
            y == civil_date(days as int).0,
            days >= 0,
    ;
    let mut s = String::new();
    push_padded(&mut s, y as u64, 4);
    push_str(&mut s, "-");
    push_padded(&mut s, m as u64, 2);
    push_str(&mut s, "-");
    push_padded(&mut s, d as u64, 2);
    push_str(&mut s, "T");
    push_padded(&mut s, tod / 3600, 2);
    push_str(&mut s, ":");
    push_padded(&mut s, (tod % 3600) / 60, 2);
    push_str(&mut s, ":");
    push_padded(&mut s, tod % 60, 2);
    push_str(&mut s, "Z");
    assert(s@ =~= timestamp_text(total_secs as nat));
    s
}

/// Pulling never touches a card whose server hash is its baseline.
pub proof fn law_unchanged_remote_is_skipped(entry: ManifestEntry, local: LocalCard)
    requires
        !entry.is_deleted,
        entry.hash@ == baseline(local),
    ensures
        pull_action_of(entry, Some(local)) == PullAction::Skip,
{
}

/// Pulling keeps a conflict copy exactly when both sides changed.
pub proof fn law_conflict_iff_both_changed(entry: ManifestEntry, local: LocalCard)
    requires
        !entry.is_deleted,
    ensures
        (pull_action_of(entry, Some(local)) == PullAction::Conflict)
            == (local_changed(local) && remote_changed(entry, local)),
{
}

/// A card the client does not know is downloaded, or skipped when deleted.
pub proof fn law_unknown_card(entry: ManifestEntry)
    ensures
        pull_action_of(entry, None) == (if entry.is_deleted { PullAction::Skip } else { PullAction::Download }),
{
}

/// A record written after a download or a push is synced, with its hash as baseline.
pub proof fn law_synced_record_is_baseline(card: LocalCard)
    requires
        card.sync_status == SyncStatus::Synced,
        card.last_synced_hash matches Some(h) && h@ == card.file_hash@,
    ensures
        !local_changed(card),
{
}

/// The civil date of a day count, month and day as `u32` (see [`civil_date`]).
pub fn days_to_ymd(days: i64) -> (r: (i64, u32, u32))
    requires
        -0x7000_0000_0000_0000 <= days <= 0x7000_0000_0000_0000,
    ensures
        r.0 == civil_date(days as int).0,
        r.1 == civil_date(days as int).1,
        r.2 == civil_date(days as int).2,
{
    let (y, m, d) = civil_from_days(days);
    (y, m as u32, d as u32)
}

/// The file name of the copy a cloud version is saved under when it
/// conflicts with a local card: `stem(云端冲突副本 stamp).ext`, with `-n`
/// after the stamp on the `n`-th retry when that name is taken.
pub open spec fn conflict_copy_text(stem: Seq<char>, ext: Seq<char>, stamp: nat, attempt: nat) -> Seq<char> {
    stem + "(云端冲突副本 "@ + decimal(stamp) + (if attempt == 0 { Seq::empty() } else { "-"@ + decimal(attempt) })
        + ")."@ + ext
}

/// The file name of a conflict copy (see [`conflict_copy_text`]).
pub fn conflict_copy_name(stem: &str, ext: &str, stamp: u64, attempt: u32) -> (r: String)
    ensures
        r@ == conflict_copy_text(stem@, ext@, stamp as nat, attempt as nat),
{
    let mut s = String::new();
    push_str(&mut s, stem);
    push_str(&mut s, "(云端冲突副本 ");
    push_decimal(&mut s, stamp);
    if attempt > 0 {
        push_str(&mut s, "-");
        push_decimal(&mut s, attempt as u64);
    }
    push_str(&mut s, ").");
    push_str(&mut s, ext);
    assert(s@ =~= conflict_copy_text(stem@, ext@, stamp as nat, attempt as nat));
    s
}

/// The current time as an RFC 3339 UTC timestamp (see [`timestamp_text`]),
/// read from the clock.
pub fn now_rfc3339() -> (r: String)
    ensures
        exists|secs: nat| r@ == #[trigger] timestamp_text(secs),
{
    let secs = crate::admin::image::unix_seconds();
    format_timestamp(secs)
}

/// The current time as an ISO 8601 UTC timestamp; the same text as
/// [`now_rfc3339`].
pub fn chrono_now_iso() -> (r: String)
    ensures
        exists|secs: nat| r@ == #[trigger] timestamp_text(secs),
{
    now_rfc3339()
}

/// The HTTP status that means the session has expired.
pub const UNAUTHORIZED: u16 = 401;

/// Whether a response status ends the session: 401 answers `AUTH_EXPIRED`
/// (the caller then clears the stored token); any other status passes.
pub fn check_auth_expired(status: u16) -> (r: Result<(), String>)
    ensures
        status == UNAUTHORIZED ==> (r matches Err(m) && m@ == "AUTH_EXPIRED"@),
        status != UNAUTHORIZED ==> r is Ok,
{
    if status == UNAUTHORIZED {
        return Err("AUTH_EXPIRED".to_string());
    }
    Ok(())
}

/// An edge of a card as the server lists it: its relation type and target,
/// each when present as a string.
pub struct CardEdge {
    pub relation_type: Option<String>,
    pub target_uuid: Option<String>,
}

/// The targets of the trunk edges, in order: edges whose relation type is
/// `trunk` and that name a target.
pub open spec fn trunk_targets(edges: Seq<CardEdge>) -> Seq<Seq<char>>
    decreases edges.len(),
{
    if edges.len() == 0 {
        Seq::empty()
    } else {
        let prev = trunk_targets(edges.drop_last());
        let e = edges.last();
        match (e.relation_type, e.target_uuid) {
            (Some(rt), Some(t)) => if rt@ == "trunk"@ { prev.push(t@) } else { prev },
            _ => prev,
        }
    }
}

/// The trunk targets of a card's edges (see [`trunk_targets`]).
pub fn extract_trunk_targets(edges: &Vec<CardEdge>) -> (r: Vec<String>)
    ensures
        r@.map_values(|x: String| x@) == trunk_targets(edges@),
{
    let mut out: Vec<String> = Vec::new();
    let mut i: usize = 0;
    assert(edges@.take(0) =~= Seq::<CardEdge>::empty());
    while i < edges.len()
        invariant
            i <= edges@.len(),
            out@.map_values(|x: String| x@) == trunk_targets(edges@.take(i as int)),
        decreases edges@.len() - i,
    {
        assert(edges@.take(i + 1).drop_last() =~= edges@.take(i as int));
        assert(edges@.take(i + 1).last() == edges@[i as int]);
        let e = &edges[i];
        match (&e.relation_type, &e.target_uuid) {
            (Some(rt), Some(t)) => {
                if str_eq(rt.as_str(), "trunk") {
                    let ghost before = out@;
                    out.push(t.clone());
                    assert(out@.map_values(|x: String| x@) =~= before.map_values(|x: String| x@).push(t@));
                }
            },
            _ => {},
        }
        i = i + 1;
    }
    assert(edges@.take(edges@.len() as int) =~= edges@);
    out
}

} // verus!
