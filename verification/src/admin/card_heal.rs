//! Keeping a card's front matter in line with where its file is.
//!
//! The file name gives a card its title and the directory its category.
//! When the front matter disagrees, or is missing, it is rewritten; the
//! card keeps its identity and creation time.

use vstd::prelude::*;
use crate::admin::models::CardMeta;
use crate::admin::sync_plan::SyncStatus;
use crate::admin::db::{compute_hash, sha256_hex};
use crate::text::{decimal, push_decimal, push_str, str_eq};

verus! {

/// The front matter a card file should have, or `None` when what it has is
/// right. With front matter whose title or category differs, the title and
/// category are replaced and `now` becomes the update time; without front
/// matter, one is made for `uuid`, created and updated `now`.
pub open spec fn heal_spec(
    meta: Option<CardMeta>,
    uuid: Seq<char>,
    title: Seq<char>,
    category: Seq<char>,
    now: Seq<char>,
) -> Option<(Seq<char>, Seq<char>, Seq<char>, Seq<char>, Seq<char>)> {
    match meta {
        Some(m) => if m.title@ != title || m.category@ != category {
            Some((m.uuid@, title, category, m.created_at@, now))
        } else {
            None
        },
        None => Some((uuid, title, category, now, now)),
    }
}

/// The plain values of a card's front matter.
pub open spec fn meta_view(m: CardMeta) -> (Seq<char>, Seq<char>, Seq<char>, Seq<char>, Seq<char>) {
    (m.uuid@, m.title@, m.category@, m.created_at@, m.updated_at@)
}

/// Decides the front matter of a card file (see [`heal_spec`]).
pub fn healed_meta(meta: Option<&CardMeta>, uuid: &str, title: &str, category: &str, now: &str) -> (r: Option<CardMeta>)
    ensures
        r matches Some(m) ==> heal_spec(match meta { Some(x) => Some(*x), None => None }, uuid@, title@, category@, now@)
            == Some(meta_view(m)),
        r is None ==> heal_spec(match meta { Some(x) => Some(*x), None => None }, uuid@, title@, category@, now@) is None,
{
    match meta {
        Some(m) => {
            if !str_eq(m.title.as_str(), title) || !str_eq(m.category.as_str(), category) {
                Some(CardMeta {
                    uuid: m.uuid.clone(),
                    title: title.to_owned(),
                    category: category.to_owned(),
                    created_at: m.created_at.clone(),
                    updated_at: now.to_owned(),
                })
            } else {
                None
            }
        },
        None => Some(CardMeta {
            uuid: uuid.to_owned(),
            title: title.to_owned(),
            category: category.to_owned(),
            created_at: now.to_owned(),
            updated_at: now.to_owned(),
        }),
    }
}

/// Index fields of a card that was read: kept when it was indexed, version 1
/// and pending push when it is new.
pub fn index_state_after_read(existing: Option<(i64, SyncStatus, Option<String>)>) -> (r: (i64, SyncStatus, Option<String>))
    ensures
        existing matches Some(e) ==> r == e,
        existing is None ==> r == (1i64, SyncStatus::PendingPush, None::<String>),
{
    match existing {
        Some(e) => e,
        None => (1, SyncStatus::PendingPush, None),
    }
}

/// The first of the candidate titles that is present, else `fallback`.
pub fn first_title(candidates: Vec<Option<String>>, fallback: &str) -> (r: String)
    ensures
        (exists|i: int| 0 <= i < candidates@.len() && candidates@[i] is Some) ==> exists|i: int|
            0 <= i < candidates@.len() && #[trigger] candidates@[i] == Some(r) && forall|j: int|
                0 <= j < i ==> candidates@[j] is None,
        (forall|i: int| 0 <= i < candidates@.len() ==> candidates@[i] is None) ==> r@ == fallback@,
{
    let mut i: usize = 0;
    while i < candidates.len()
        invariant
            i <= candidates@.len(),
            forall|j: int| 0 <= j < i ==> candidates@[j] is None,
        decreases candidates@.len() - i,
    {
        match &candidates[i] {
            Some(t) => {
                let r = t.clone();
                assert(candidates@[i as int] == Some(r));
                return r;
            },
            None => {},
        }
        i = i + 1;
    }
    fallback.to_owned()
}

/// Healing front matter that is right changes nothing, and a healed front
/// matter is right: healing it again gives nothing to do.
pub proof fn law_heal_is_stable(meta: CardMeta, uuid: Seq<char>, title: Seq<char>, category: Seq<char>, now: Seq<char>, healed: CardMeta)
    requires
        heal_spec(Some(meta), uuid, title, category, now) == Some(meta_view(healed)),
    ensures
        heal_spec(Some(healed), uuid, title, category, now) is None,
        healed.uuid@ == meta.uuid@,
        healed.created_at@ == meta.created_at@,
{
}

/// Index fields of a card after it is saved: the version goes up by one
/// (staying at `i64::MAX` there) or starts at 1, the card waits to be
/// pushed, the hash of the last synchronisation is kept, and the file hash
/// is that of the saved document.
pub fn index_after_save(previous: Option<(i64, Option<String>)>, full_content: &str)
    -> (r: (i64, SyncStatus, Option<String>, String))
    ensures
        r.0 == (match previous {
            Some((v, _)) => if v < i64::MAX { v + 1 } else { v as int },
            None => 1,
        }),
        r.1 == SyncStatus::PendingPush,
        r.2 == (match previous { Some((_, h)) => h, None => None }),
        r.3@ == sha256_hex(full_content@),
{
    let (version, last) = match previous {
        Some((v, h)) => (if v < i64::MAX { v + 1 } else { v }, h),
        None => (1, None),
    };
    (version, SyncStatus::PendingPush, last, compute_hash(full_content))
}

/// An optional text that is `uuid`.
pub open spec fn is_uuid(o: Option<String>, uuid: Seq<char>) -> bool {
    match o {
        Some(u) => u@ == uuid,
        None => false,
    }
}

/// The position of the first entry that is `uuid`.
pub open spec fn first_of(v: Seq<Option<String>>, uuid: Seq<char>) -> Option<int>
    decreases v.len(),
{
    if v.len() == 0 {
        None
    } else if is_uuid(v[0], uuid) {
        Some(0)
    } else {
        match first_of(v.drop_first(), uuid) {
            Some(k) => Some(k + 1),
            None => None,
        }
    }
}

/// The file that holds a card: the first whose front matter carries its
/// uuid, else the first whose name (without extension) is the uuid.
pub open spec fn located(uuid: Seq<char>, metas: Seq<Option<String>>, stems: Seq<Option<String>>) -> Option<int> {
    match first_of(metas, uuid) {
        Some(i) => Some(i),
        None => first_of(stems, uuid),
    }
}

proof fn lemma_first_of(v: Seq<Option<String>>, uuid: Seq<char>, i: int)
    requires
        0 <= i <= v.len(),
        forall|j: int| 0 <= j < i ==> !(#[trigger] is_uuid(v[j], uuid)),
    ensures
        i < v.len() && is_uuid(v[i], uuid) ==> first_of(v, uuid) == Some(i),
        i == v.len() ==> first_of(v, uuid) is None,
    decreases i,
{
    if i > 0 {
        assert forall|j: int| 0 <= j < i - 1 implies !(#[trigger] is_uuid(v.drop_first()[j], uuid)) by {
            assert(v.drop_first()[j] == v[j + 1]);
        }
        lemma_first_of(v.drop_first(), uuid, i - 1);
        assert(!is_uuid(v[0], uuid));
        if i < v.len() {
            assert(v.drop_first()[i - 1] == v[i]);
        }
    }
}

/// The first position whose entry is the text `uuid` (see [`first_of`]).
fn first_match(uuid: &str, v: &Vec<Option<String>>) -> (r: Option<usize>)
    ensures
        match first_of(v@, uuid@) {
            Some(i) => r == Some(i as usize),
            None => r is None,
        },
{
    let mut i: usize = 0;
    while i < v.len()
        invariant
            i <= v@.len(),
            forall|j: int| 0 <= j < i ==> !(#[trigger] is_uuid(v@[j], uuid@)),
        decreases v@.len() - i,
    {
        match &v[i] {
            Some(u) => {
                if str_eq(u.as_str(), uuid) {
                    proof {
                        lemma_first_of(v@, uuid@, i as int);
                    }
                    return Some(i);
                }
            },
            None => {},
        }
        i = i + 1;
    }
    proof {
        lemma_first_of(v@, uuid@, i as int);
    }
    None
}

/// Finds the file of a card among the vault's files, given each file's
/// front-matter uuid and its name without extension (see [`located`]).
pub fn locate_card(uuid: &str, metas: &Vec<Option<String>>, stems: &Vec<Option<String>>) -> (r: Option<usize>)
    ensures
        match located(uuid@, metas@, stems@) {
            Some(i) => r == Some(i as usize),
            None => r is None,
        },
{
    match first_match(uuid, metas) {
        Some(i) => Some(i),
        None => first_match(uuid, stems),
    }
}
/// The largest card file that is read, in bytes (10 MiB).
pub const MAX_CARD_FILE_SIZE: u64 = 10485760;

/// Whether a card file of `len` bytes may be read: files over
/// [`MAX_CARD_FILE_SIZE`] are refused with a message giving their size.
pub fn check_file_size(len: u64) -> (r: Result<(), String>)
    ensures
        len <= MAX_CARD_FILE_SIZE ==> r is Ok,
        len > MAX_CARD_FILE_SIZE ==> (r matches Err(m) && m@ == "File too large: "@ + decimal(len as nat) + " bytes (max 10MB)"@),
{
    if len > MAX_CARD_FILE_SIZE {
        let mut m = "File too large: ".to_string();
        push_decimal(&mut m, len);
        push_str(&mut m, " bytes (max 10MB)");
        return Err(m);
    }
    Ok(())
}

/// Refuses to read or write cards before a vault is configured.
pub fn require_vault(vault_path: &str) -> (r: Result<(), String>)
    ensures
        vault_path@.len() == 0 <==> r is Err,
        r matches Err(m) ==> m@ == "Vault path not configured"@,
{
    proof {
        reveal_strlit("");
    }
    if str_eq(vault_path, "") {
        Err("Vault path not configured".to_string())
    } else {
        proof {
            if vault_path@.len() == 0 {
                assert(vault_path@ =~= ""@);
            }
        }
        Ok(())
    }
}

/// The next step of reading a card whose index records a file.
#[derive(Debug, Clone, Copy, PartialEq, Eq, Structural)]
pub enum ReadCardStep {
    /// The recorded file was read: heal and return it.
    UseRecordedFile,
    /// The recorded file could not be read (it moved): look for the card
    /// in the vault.
    ScanVault,
}

/// After the size check and the read of the recorded file: a size refusal
/// (or a size that could not be learnt) ends the read with its error; a
/// file that was read is used; otherwise the vault is searched.
pub fn after_recorded_read(size_check: Result<(), String>, read_ok: bool) -> (r: Result<ReadCardStep, String>)
    ensures
        size_check matches Err(e) ==> (r matches Err(m) && m == e),
        size_check is Ok && read_ok ==> r == Ok::<ReadCardStep, String>(ReadCardStep::UseRecordedFile),
        size_check is Ok && !read_ok ==> r == Ok::<ReadCardStep, String>(ReadCardStep::ScanVault),
{
    match size_check {
        Err(e) => Err(e),
        Ok(()) => if read_ok { Ok(ReadCardStep::UseRecordedFile) } else { Ok(ReadCardStep::ScanVault) },
    }
}

/// Finds the file of a card in the vault (see [`locate_card`]), or the
/// error `Card file not found: <uuid>`.
pub fn find_card_file(uuid: &str, metas: &Vec<Option<String>>, stems: &Vec<Option<String>>) -> (r: Result<usize, String>)
    ensures
        match located(uuid@, metas@, stems@) {
            Some(i) => r == Ok::<usize, String>(i as usize),
            None => r matches Err(m) && m@ == "Card file not found: "@ + uuid@,
        },
{
    match locate_card(uuid, metas, stems) {
        Some(i) => Ok(i),
        None => {
            let mut m = "Card file not found: ".to_string();
            push_str(&mut m, uuid);
            Err(m)
        },
    }
}

} // verus!
