//! Local drafts of cards: the record kept for each card, the errors of
//! the draft store, and the decisions of the background push of pending
//! drafts to the server.

use vstd::prelude::*;
use crate::admin::protocol::{strip_trailing, strip_trailing_chars};
use crate::text::{chars_of, push_str, string_of};

verus! {

/// A card's draft as the local store keeps it.
#[derive(Debug, Clone)]
pub struct Draft {
    pub card_id: String,
    pub title: String,
    pub raw_md: String,
    pub ast_data: Option<String>,
    pub toc_data: Option<String>,
    pub excerpt: Option<String>,
    pub category_id: Option<i64>,
    pub extracted_links: Option<String>,
    pub sync_status: String,
    pub updated_at: i64,
}

/// Errors of the draft store.
#[derive(Debug)]
pub enum DraftError {
    OpenError(String),
    SqlError(String),
    TaskPanic,
}

/// The message of a [`DraftError`].
pub open spec fn draft_error_text(e: DraftError) -> Seq<char> {
    match e {
        DraftError::OpenError(m) => "数据库打开失败: "@ + m@,
        DraftError::SqlError(m) => "SQL 执行失败: "@ + m@,
        DraftError::TaskPanic => "线程执行崩溃"@,
    }
}

impl DraftError {
    /// The human-readable message (see [`draft_error_text`]).
    pub fn message(&self) -> (r: String)
        ensures
            r@ == draft_error_text(*self),
    {
        let mut r = String::new();
        match self {
            DraftError::OpenError(m) => {
                push_str(&mut r, "数据库打开失败: ");
                push_str(&mut r, m.as_str());
            },
            DraftError::SqlError(m) => {
                push_str(&mut r, "SQL 执行失败: ");
                push_str(&mut r, m.as_str());
            },
            DraftError::TaskPanic => push_str(&mut r, "线程执行崩溃"),
        }
        r
    }
}

/// The server address drafts are pushed to: the configured API address
/// without trailing slashes, or `None` when none is configured (the push
/// then waits for the next cycle).
pub fn draft_sync_base(base_url: &str) -> (r: Option<String>)
    ensures
        r is None <==> strip_trailing(base_url@, '/').len() == 0,
        r matches Some(b) ==> b@ == strip_trailing(base_url@, '/'),
{
    let base = strip_trailing_chars(&chars_of(base_url), '/');
    if base.len() == 0 { None } else { Some(string_of(base.as_slice())) }
}

/// Whether a pending draft can be pushed: it carries its syntax tree.
pub fn draft_sendable(d: &Draft) -> (r: bool)
    ensures
        r == d.ast_data is Some,
{
    d.ast_data.is_some()
}

/// The address a draft is put to: `<base>/cards/<card id>`.
pub fn draft_put_url(base: &str, card_id: &str) -> (r: String)
    ensures
        r@ == base@ + "/cards/"@ + card_id@,
{
    let mut r = String::new();
    push_str(&mut r, base);
    push_str(&mut r, "/cards/");
    push_str(&mut r, card_id);
    r
}

/// What follows the push of a draft.
#[derive(Debug, Clone, Copy, PartialEq, Eq, Structural)]
pub enum DraftPushStep {
    /// Mark the draft synced, unless it changed since it was read.
    MarkSyncedIfUnchanged,
    /// The card is gone from the server: delete the local draft.
    DeleteLocal,
    /// Leave the draft pending; the next cycle tries again.
    Retry,
}

/// What follows the push of a draft, by the HTTP status of the answer
/// (`None` when no answer came): a success status (2xx) marks it synced
/// unless it changed meanwhile, 404 deletes it, anything else retries.
pub fn after_draft_push(status: Option<u16>) -> (r: DraftPushStep)
    ensures
        (status matches Some(s) && 200 <= s <= 299) ==> r == DraftPushStep::MarkSyncedIfUnchanged,
        status == Some(404u16) ==> r == DraftPushStep::DeleteLocal,
        !(status matches Some(s) && ((200 <= s <= 299) || s == 404)) ==> r == DraftPushStep::Retry,
{
    match status {
        Some(s) => if 200 <= s && s <= 299 {
            DraftPushStep::MarkSyncedIfUnchanged
        } else if s == 404 {
            DraftPushStep::DeleteLocal
        } else {
            DraftPushStep::Retry
        },
        None => DraftPushStep::Retry,
    }
}

} // verus!
