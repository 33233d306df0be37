//! Secrets kept in the operating system's keyring, with a file-backed
//! store to fall back on: the decisions of reading a secret, and the
//! store's lookups and updates.

use vstd::prelude::*;
use crate::admin::glossary::{as_map, find_text, remove_text, text_pairs};

verus! {

/// What to do after reading the keyring.
#[derive(Debug)]
pub enum SecretStep {
    /// Answer the caller with this result.
    Return(Result<Option<String>, String>),
    /// Read the fallback store; when `sync_back`, a value found there is
    /// also written to the keyring.
    ReadFallback { sync_back: bool },
}

/// The next step after the keyring answered: a value found is returned; a
/// missing entry sends the read to the fallback store, whose value is then
/// copied back to the keyring; a keyring failure sends it there too, without
/// copying back.
pub fn secret_after_keyring(keyring: Result<Option<String>, String>) -> (r: SecretStep)
    ensures
        keyring matches Ok(Some(v)) ==> (r matches SecretStep::Return(Ok(Some(w))) && w == v),
        keyring matches Ok(None) ==> r == (SecretStep::ReadFallback { sync_back: true }),
        keyring is Err ==> r == (SecretStep::ReadFallback { sync_back: false }),
{
    match keyring {
        Ok(Some(v)) => SecretStep::Return(Ok(Some(v))),
        Ok(None) => SecretStep::ReadFallback { sync_back: true },
        Err(_) => SecretStep::ReadFallback { sync_back: false },
    }
}

/// The answer after reading the fallback store, and the value to write back
/// to the keyring: the store's result is the answer; a value found is
/// written back when `sync_back` (a failed write-back changes nothing).
pub fn secret_after_fallback(sync_back: bool, fallback: Result<Option<String>, String>)
    -> (r: (Result<Option<String>, String>, Option<String>))
    ensures
        r.0 == fallback,
        r.1 == (if sync_back { match fallback { Ok(Some(v)) => Some(v), _ => None } } else { None }),
{
    let write_back = if sync_back {
        match &fallback {
            Ok(Some(v)) => Some(v.clone()),
            _ => None,
        }
    } else {
        None
    };
    (fallback, write_back)
}

/// An optional text as an optional sequence.
pub open spec fn opt_text(o: Option<String>) -> Option<Seq<char>> {
    match o {
        Some(v) => Some(v@),
        None => None,
    }
}

/// What the keyring answered to a read, as plain values.
pub open spec fn keyring_view(k: Result<Option<String>, String>) -> Result<Option<Seq<char>>, Seq<char>> {
    match k {
        Ok(o) => Ok(opt_text(o)),
        Err(e) => Err(e@),
    }
}

/// What loading the fallback store gave, as plain values.
pub open spec fn fallback_view(f: Result<Vec<(String, String)>, String>) -> Result<Map<Seq<char>, Seq<char>>, Seq<char>> {
    match f {
        Ok(store) => Ok(as_map(text_pairs(store@))),
        Err(e) => Err(e@),
    }
}

/// The answer to a read of `key`: the keyring's value when it has one;
/// otherwise the fallback store's load error, its value, or nothing.
pub open spec fn read_answer(
    keyring: Result<Option<Seq<char>>, Seq<char>>,
    fallback: Result<Map<Seq<char>, Seq<char>>, Seq<char>>,
    key: Seq<char>,
) -> Result<Option<Seq<char>>, Seq<char>> {
    match keyring {
        Ok(Some(v)) => Ok(Some(v)),
        _ => match fallback {
            Err(e) => Err(e),
            Ok(m) => if m.contains_key(key) { Ok(Some(m[key])) } else { Ok(None) },
        },
    }
}

/// Reads the secret under `key`: `keyring` is what the keyring answered,
/// `fallback` what loading the fallback store gave (looked at only when the
/// keyring has no value). Returns the answer and the value to copy back to
/// the keyring: a keyring value is the answer; otherwise the fallback store
/// answers (its load error, its value, or nothing), and a value it holds is
/// copied back when the keyring answered that it had none.
pub fn get_secret(
    key: &str,
    keyring: Result<Option<String>, String>,
    fallback: &Result<Vec<(String, String)>, String>,
) -> (r: (Result<Option<String>, String>, Option<String>))
    ensures
        keyring matches Ok(Some(v)) ==> (r.0 matches Ok(Some(w)) && w == v) && r.1 is None,
        !(keyring matches Ok(Some(_))) ==> match *fallback {
            Err(e) => (r.0 matches Err(x) && x@ == e@) && r.1 is None,
            Ok(store) => {
                let m = as_map(text_pairs(store@));
                if m.contains_key(key@) {
                    &&& r.0 matches Ok(Some(w)) && w@ == m[key@]
                    &&& keyring is Ok ==> (r.1 matches Some(c) && c@ == m[key@])
                    &&& keyring is Err ==> r.1 is None
                } else {
                    r.0 matches Ok(None) && r.1 is None
                }
            },
        },
{
    match secret_after_keyring(keyring) {
        SecretStep::Return(answer) => (answer, None),
        SecretStep::ReadFallback { sync_back } => {
            let read: Result<Option<String>, String> = match fallback {
                Ok(store) => Ok(fallback_get(store, key)),
                Err(e) => Err(e.clone()),
            };
            secret_after_fallback(sync_back, read)
        },
    }
}

/// The secret a fallback store holds for `key`.
pub fn fallback_get(store: &Vec<(String, String)>, key: &str) -> (r: Option<String>)
    ensures
        match r {
            Some(v) => as_map(text_pairs(store@)).contains_key(key@) && as_map(text_pairs(store@))[key@] == v@,
            None => !as_map(text_pairs(store@)).contains_key(key@),
        },
{
    match find_text(store, key) {
        Some(i) => Some(store[i].1.clone()),
        None => None,
    }
}

/// Records a secret in a fallback store, replacing any earlier one.
pub fn fallback_store(store: &mut Vec<(String, String)>, key: &str, value: &str)
    ensures
        as_map(text_pairs(final(store)@)) == as_map(text_pairs(old(store)@)).insert(key@, value@),
{
    remove_text(store, key);
    let ghost m = as_map(text_pairs(store@));
    let ghost l = store@;
    store.push((key.to_string(), value.to_string()));
    assert(text_pairs(store@).drop_last() =~= text_pairs(l));
    assert(as_map(text_pairs(store@)) =~= m.insert(key@, value@));
}

/// Removes a secret from a fallback store.
pub fn fallback_remove(store: &mut Vec<(String, String)>, key: &str)
    ensures
        as_map(text_pairs(final(store)@)) == as_map(text_pairs(old(store)@)).remove(key@),
{
    remove_text(store, key);
}

/// A secret stored in the fallback store is read back as stored, the last
/// store of a key wins, and storing leaves every other key's secret as it
/// was: for a store `after` that [`fallback_store`] made from `before`,
/// [`fallback_get`] finds `value` under `key` and the old secret elsewhere.
pub proof fn law_fallback_read_after_store(
    before: Seq<(String, String)>,
    after: Seq<(String, String)>,
    key: Seq<char>,
    value: Seq<char>,
    other: Seq<char>,
)
    requires
        as_map(text_pairs(after)) == as_map(text_pairs(before)).insert(key, value),
        other != key,
    ensures
        as_map(text_pairs(after)).contains_key(key),
        as_map(text_pairs(after))[key] == value,
        as_map(text_pairs(after)).contains_key(other) == as_map(text_pairs(before)).contains_key(other),
        as_map(text_pairs(before)).contains_key(other) ==> as_map(text_pairs(after))[other] == as_map(text_pairs(before))[other],
{
}

/// Whether a secret is written to the fallback store after the keyring was
/// asked to store it: unless the keyring took it and then reads back a value.
pub fn store_falls_back(stored: Result<(), String>, read_back: Result<Option<String>, String>) -> (r: bool)
    ensures
        r == !(stored is Ok && read_back matches Ok(Some(_))),
{
    match (stored, read_back) {
        (Ok(()), Ok(Some(_))) => false,
        _ => true,
    }
}

/// A read after a store gives the stored secret, whichever way the store
/// went: when the keyring took it and reads it back, whatever the fallback
/// store holds; when the store fell back (the fallback map gained `key`),
/// whether the keyring now answers with that secret, with nothing, or fails.
pub proof fn law_read_after_store(
    keyring: Result<Option<Seq<char>>, Seq<char>>,
    before: Map<Seq<char>, Seq<char>>,
    any_fallback: Result<Map<Seq<char>, Seq<char>>, Seq<char>>,
    key: Seq<char>,
    value: Seq<char>,
)
    requires
        keyring == Ok::<Option<Seq<char>>, Seq<char>>(Some(value)) || keyring == Ok::<Option<Seq<char>>, Seq<char>>(None) || keyring is Err,
    ensures
        read_answer(keyring, Ok(before.insert(key, value)), key) == Ok::<Option<Seq<char>>, Seq<char>>(Some(value)),
        read_answer(Ok(Some(value)), any_fallback, key) == Ok::<Option<Seq<char>>, Seq<char>>(Some(value)),
{
}

/// A read after a delete finds nothing: the key left the fallback store,
/// and the keyring, which deleted it, answers with nothing or fails.
pub proof fn law_read_after_delete(
    keyring: Result<Option<Seq<char>>, Seq<char>>,
    before: Map<Seq<char>, Seq<char>>,
    key: Seq<char>,
)
    requires
        keyring == Ok::<Option<Seq<char>>, Seq<char>>(None) || keyring is Err,
    ensures
        read_answer(keyring, Ok(before.remove(key)), key) == Ok::<Option<Seq<char>>, Seq<char>>(None),
{
}

} // verus!
