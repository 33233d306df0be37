//! The vault watcher's decisions: which file-system changes are reported to
//! the front end, and the debounce that drops a change to a file reported
//! less than [`DEBOUNCE_MS`] before, with its periodic sweep of old entries.

use vstd::prelude::*;
use crate::admin::glossary::{as_map, lemma_without_key, without_key};
use crate::admin::image::{extension_of, path_extension};
use crate::text::{chars_of, str_eq, string_of};

verus! {

/// Changes to one file closer together than this, in milliseconds, are
/// reported once.
pub const DEBOUNCE_MS: u64 = 200;

/// Debounce entries older than this, in milliseconds, are dropped by a sweep.
pub const STALE_THRESHOLD_MS: u64 = 10000;

/// A sweep is considered every this many received events.
pub const SWEEP_INTERVAL: u32 = 100;

/// A sweep happens only when more files than this are remembered.
pub const SWEEP_MIN_ENTRIES: usize = 200;

/// The kind of a file-system event.
#[derive(Debug, Clone, Copy, PartialEq, Eq, Structural)]
pub enum FsChange {
    Create,
    Modify,
    Remove,
    Other,
}

/// The label under which a change is reported, or `None` for an event that
/// is not reported.
pub fn change_label(kind: FsChange) -> (r: Option<&'static str>)
    ensures
        kind == FsChange::Create ==> (r matches Some(l) && l@ == "create"@),
        kind == FsChange::Modify ==> (r matches Some(l) && l@ == "modify"@),
        kind == FsChange::Remove ==> (r matches Some(l) && l@ == "delete"@),
        kind == FsChange::Other ==> r is None,
{
    match kind {
        FsChange::Create => Some("create"),
        FsChange::Modify => Some("modify"),
        FsChange::Remove => Some("delete"),
        FsChange::Other => None,
    }
}

/// Whether changes to a path are reported: its extension is `md`.
pub fn is_markdown_path(path: &str) -> (r: bool)
    ensures
        r == (path_extension(path@) == Some("md"@)),
{
    match extension_of(path) {
        Some(e) => str_eq(e.as_str(), "md"),
        None => false,
    }
}

/// A path separator: `/`, or `\` as Windows writes it.
pub open spec fn is_separator(c: char) -> bool {
    c == '/' || c == '\\'
}

/// The components of a path, split at every separator (empty components
/// kept, so that the split of `a//b` has three).
pub open spec fn path_components(s: Seq<char>) -> Seq<Seq<char>>
    decreases s.len(),
{
    if s.len() == 0 {
        seq![Seq::empty()]
    } else {
        let p = path_components(s.drop_last());
        if is_separator(s.last()) {
            p.push(Seq::empty())
        } else {
            p.update(p.len() - 1, p.last().push(s.last()))
        }
    }
}

/// The vault folders that the watcher ignores: `.bunker`, `.git`, `.obsidian`.
pub open spec fn ignored_folder(c: Seq<char>) -> bool {
    c == ".bunker"@ || c == ".git"@ || c == ".obsidian"@
}

/// Whether a path passes through (or names) an ignored folder.
pub open spec fn in_ignored_folder(path: Seq<char>) -> bool {
    exists|i: int| 0 <= i < path_components(path).len() && ignored_folder(#[trigger] path_components(path)[i])
}

/// Whether a change to `path` is reported to the front end: a Markdown file
/// (extension `md`) outside the ignored folders.
pub open spec fn reported_path(path: Seq<char>) -> bool {
    path_extension(path) == Some("md"@) && !in_ignored_folder(path)
}

fn is_ignored_folder(c: &Vec<char>) -> (r: bool)
    ensures
        r == ignored_folder(c@),
{
    let s = string_of(c.as_slice());
    str_eq(s.as_str(), ".bunker") || str_eq(s.as_str(), ".git") || str_eq(s.as_str(), ".obsidian")
}

/// Whether a path passes through an ignored folder (see [`in_ignored_folder`]).
pub fn passes_ignored_folder(path: &str) -> (r: bool)
    ensures
        r == in_ignored_folder(path@),
{
    let cs = chars_of(path);
    let mut done: Vec<Vec<char>> = Vec::new();
    let mut cur: Vec<char> = Vec::new();
    let mut k: usize = 0;
    assert(cs@.take(0) =~= Seq::<char>::empty());
    assert(done@.map_values(|v: Vec<char>| v@).push(cur@) =~= path_components(cs@.take(0)));
    while k < cs.len()
        invariant
            k <= cs@.len(),
            cs@ == path@,
            done@.map_values(|v: Vec<char>| v@).push(cur@) == path_components(cs@.take(k as int)),
        decreases cs@.len() - k,
    {
        let ghost before = done@.map_values(|v: Vec<char>| v@).push(cur@);
        assert(cs@.take(k + 1).drop_last() =~= cs@.take(k as int));
        assert(cs@.take(k + 1).last() == cs@[k as int]);
        let c = cs[k];
        if c == '/' || c == '\\' {
            let finished = cur;
            done.push(finished);
            cur = Vec::new();
            assert(done@.map_values(|v: Vec<char>| v@).push(cur@) =~= before.push(Seq::empty()));
        } else {
            cur.push(c);
            assert(done@.map_values(|v: Vec<char>| v@).push(cur@)
                =~= before.update(before.len() - 1, before.last().push(c)));
        }
        k = k + 1;
    }
    assert(cs@.take(cs@.len() as int) =~= cs@);
    let ghost comps = path_components(path@);
    assert(comps.len() == done@.len() + 1);
    let mut i: usize = 0;
    while i < done.len()
        invariant
            i <= done@.len(),
            comps == done@.map_values(|v: Vec<char>| v@).push(cur@),
            comps == path_components(path@),
            forall|j: int| 0 <= j < i ==> !ignored_folder(#[trigger] comps[j]),
        decreases done@.len() - i,
    {
        assert(comps[i as int] == done@[i as int]@);
        if is_ignored_folder(&done[i]) {
            assert(ignored_folder(path_components(path@)[i as int]));
            return true;
        }
        i = i + 1;
    }
    assert(comps[done@.len() as int] == cur@);
    let last = is_ignored_folder(&cur);
    assert(!last ==> forall|j: int| 0 <= j < comps.len() ==> !ignored_folder(#[trigger] comps[j]));
    last
}

/// Whether a change to `path` is reported (see [`reported_path`]): the
/// watcher leaves out non-Markdown files and anything under `.bunker`,
/// `.git` or `.obsidian`.
pub fn watch_reports(path: &str) -> (r: bool)
    ensures
        r == reported_path(path@),
{
    is_markdown_path(path) && !passes_ignored_folder(path)
}

/// The texts of the debounce entries.
pub open spec fn time_pairs(v: Seq<(String, u64)>) -> Seq<(Seq<char>, u64)> {
    v.map_values(|p: (String, u64)| (p.0@, p.1))
}

/// No key occurs twice: each entry's key is new to the entries before it.
pub open spec fn distinct_keys(s: Seq<(Seq<char>, u64)>) -> bool
    decreases s.len(),
{
    s.len() == 0 || (distinct_keys(s.drop_last()) && !as_map(s.drop_last()).contains_key(s.last().0))
}

/// The entries whose time is after `cutoff`, in order.
pub open spec fn after_cutoff(s: Seq<(Seq<char>, u64)>, cutoff: int) -> Seq<(Seq<char>, u64)>
    decreases s.len(),
{
    if s.len() == 0 {
        s
    } else if s.last().1 > cutoff {
        after_cutoff(s.drop_last(), cutoff).push(s.last())
    } else {
        after_cutoff(s.drop_last(), cutoff)
    }
}

/// The part of a map whose times are after `cutoff`.
pub open spec fn fresh_only(m: Map<Seq<char>, u64>, cutoff: int) -> Map<Seq<char>, u64> {
    Map::new(|k: Seq<char>| m.contains_key(k) && m[k] > cutoff, |k: Seq<char>| m[k])
}

/// The time elapsed from `last` to `now`, zero when `now` is earlier (as
/// `Instant::duration_since` saturates).
pub open spec fn elapsed(now: u64, last: u64) -> int {
    if now >= last { now - last } else { 0 }
}

/// Whether a change at `now` to a file is reported, given the times at
/// which files were last reported: the file was not reported before, or at
/// least [`DEBOUNCE_MS`] ago.
pub open spec fn lets_through(seen: Map<Seq<char>, u64>, path: Seq<char>, now: u64) -> bool {
    !seen.contains_key(path) || elapsed(now, seen[path]) >= DEBOUNCE_MS
}

proof fn lemma_without_key_distinct(s: Seq<(Seq<char>, u64)>, k: Seq<char>)
    requires
        distinct_keys(s),
    ensures
        distinct_keys(without_key(s, k)),
    decreases s.len(),
{
    if s.len() > 0 {
        lemma_without_key_distinct(s.drop_last(), k);
        lemma_without_key(s.drop_last(), k);
        let w = without_key(s.drop_last(), k);
        if s.last().0 != k {
            assert(w.push(s.last()).drop_last() =~= w);
        }
    }
}

proof fn lemma_after_cutoff(s: Seq<(Seq<char>, u64)>, cutoff: int)
    requires
        distinct_keys(s),
    ensures
        distinct_keys(after_cutoff(s, cutoff)),
        as_map(after_cutoff(s, cutoff)) == fresh_only(as_map(s), cutoff),
    decreases s.len(),
{
    if s.len() == 0 {
        assert(fresh_only(as_map(s), cutoff) =~= Map::<Seq<char>, u64>::empty());
    } else {
        lemma_after_cutoff(s.drop_last(), cutoff);
        let f = after_cutoff(s.drop_last(), cutoff);
        let m = as_map(s.drop_last());
        if s.last().1 > cutoff {
            assert(f.push(s.last()).drop_last() =~= f);
            assert(as_map(f.push(s.last())) =~= fresh_only(m.insert(s.last().0, s.last().1), cutoff));
        } else {
            assert(fresh_only(m, cutoff) =~= fresh_only(m.insert(s.last().0, s.last().1), cutoff));
        }
    }
}

proof fn lemma_len(s: Seq<(Seq<char>, u64)>)
    requires
        distinct_keys(s),
    ensures
        as_map(s).dom().finite(),
        as_map(s).len() == s.len(),
    decreases s.len(),
{
    if s.len() > 0 {
        lemma_len(s.drop_last());
    } else {
        assert(as_map(s).dom() =~= Set::<Seq<char>>::empty());
    }
}

/// The memory of the debounce: for each file reported, the time of its
/// last report, in milliseconds.
pub struct Debouncer {
    seen: Vec<(String, u64)>,
}

impl View for Debouncer {
    type V = Map<Seq<char>, u64>;

    closed spec fn view(&self) -> Map<Seq<char>, u64> {
        as_map(time_pairs(self.seen@))
    }
}

impl Debouncer {
    #[verifier::type_invariant]
    spec fn wf(self) -> bool {
        distinct_keys(time_pairs(self.seen@))
    }

    /// A debounce that remembers nothing.
    pub fn new() -> (r: Debouncer)
        ensures
            r@ == Map::<Seq<char>, u64>::empty(),
    {
        let r = Debouncer { seen: Vec::new() };
        assert(time_pairs(r.seen@) =~= Seq::<(Seq<char>, u64)>::empty());
        r
    }

    /// The number of files remembered.
    pub fn len(&self) -> (r: usize)
        ensures
            self@.dom().finite(),
            r == self@.len(),
    {
        proof {
            use_type_invariant(self);
            lemma_len(time_pairs(self.seen@));
        }
        self.seen.len()
    }

    /// The position of the entry for `key`, if any.
    fn position(&self, key: &str) -> (r: Option<usize>)
        ensures
            r matches Some(i) ==> i < self.seen@.len() && self@.contains_key(key@) && self@[key@] == self.seen@[i as int].1,
            r is None ==> !self@.contains_key(key@),
    {
        let ghost all = time_pairs(self.seen@);
        let mut i: usize = self.seen.len();
        assert(self.seen@.take(i as int) =~= self.seen@);
        while i > 0
            invariant
                i <= self.seen@.len(),
                all == time_pairs(self.seen@),
                as_map(all).contains_key(key@) == as_map(time_pairs(self.seen@.take(i as int))).contains_key(key@),
                as_map(all).contains_key(key@) ==> as_map(all)[key@] == as_map(time_pairs(self.seen@.take(i as int)))[key@],
            decreases i,
        {
            let ghost tp = time_pairs(self.seen@.take(i as int));
            assert(tp.drop_last() =~= time_pairs(self.seen@.take(i - 1)));
            assert(tp.last() == (self.seen@[i - 1].0@, self.seen@[i - 1].1));
            if str_eq(self.seen[i - 1].0.as_str(), key) {
                return Some(i - 1);
            }
            i = i - 1;
        }
        assert(time_pairs(self.seen@.take(0)) =~= Seq::<(Seq<char>, u64)>::empty());
        None
    }

    /// Decides whether a change to `path` at `now_ms` is reported (see
    /// [`lets_through`]); a reported change is remembered at `now_ms`.
    pub fn let_through(&mut self, path: &str, now_ms: u64) -> (r: bool)
        ensures
            r == lets_through(old(self)@, path@, now_ms),
            r ==> final(self)@ == old(self)@.insert(path@, now_ms),
            !r ==> final(self)@ == old(self)@,
    {
        proof {
            use_type_invariant(&*self);
        }
        match self.position(path) {
            Some(i) => {
                let last = self.seen[i].1;
                let gap: u64 = if now_ms >= last { now_ms - last } else { 0 };
                if gap < DEBOUNCE_MS {
                    return false;
                }
            },
            None => {},
        }
        let ghost before = time_pairs(self.seen@);
        let mut kept: Vec<(String, u64)> = Vec::new();
        let mut j: usize = 0;
        assert(time_pairs(self.seen@.take(0)) =~= Seq::<(Seq<char>, u64)>::empty());
        assert(time_pairs(kept@) =~= Seq::<(Seq<char>, u64)>::empty());
        while j < self.seen.len()
            invariant
                j <= self.seen@.len(),
                before == time_pairs(self.seen@),
                time_pairs(kept@) == without_key(time_pairs(self.seen@.take(j as int)), path@),
            decreases self.seen@.len() - j,
        {
            let ghost tp = time_pairs(self.seen@.take(j + 1));
            assert(tp.drop_last() =~= time_pairs(self.seen@.take(j as int)));
            assert(tp.last() == (self.seen@[j as int].0@, self.seen@[j as int].1));
            if !str_eq(self.seen[j].0.as_str(), path) {
                let ghost k0 = kept@;
                kept.push((self.seen[j].0.clone(), self.seen[j].1));
                assert(time_pairs(kept@) =~= time_pairs(k0).push(tp.last()));
            }
            j = j + 1;
        }
        assert(self.seen@.take(self.seen@.len() as int) =~= self.seen@);
        proof {
            lemma_without_key(before, path@);
            lemma_without_key_distinct(before, path@);
        }
        let ghost w = time_pairs(kept@);
        kept.push((path.to_string(), now_ms));
        assert(time_pairs(kept@).drop_last() =~= w);
        assert(time_pairs(kept@).last() == (path@, now_ms));
        self.seen = kept;
        assert(self@ =~= old(self)@.insert(path@, now_ms));
        true
    }

    /// Whether a sweep is due: every [`SWEEP_INTERVAL`] events received,
    /// when more than [`SWEEP_MIN_ENTRIES`] files are remembered.
    pub open spec fn sweep_due(m: Map<Seq<char>, u64>, received: u32) -> bool {
        received % SWEEP_INTERVAL == 0 && m.len() > SWEEP_MIN_ENTRIES
    }

    /// After `received` events, at `now_ms`: when a sweep is due (see
    /// [`Debouncer::sweep_due`]), forgets the files last reported
    /// [`STALE_THRESHOLD_MS`] or more ago (none, before that much time has
    /// passed on the clock); otherwise changes nothing.
    pub fn sweep(&mut self, received: u32, now_ms: u64)
        ensures
            Debouncer::sweep_due(old(self)@, received) ==> final(self)@
                == fresh_only(old(self)@, now_ms - STALE_THRESHOLD_MS),
            !Debouncer::sweep_due(old(self)@, received) ==> final(self)@ == old(self)@,
    {
        let n = self.len();
        if !(received % SWEEP_INTERVAL == 0 && n > SWEEP_MIN_ENTRIES) {
            return;
        }
        proof {
            use_type_invariant(&*self);
        }
        if now_ms < STALE_THRESHOLD_MS {
            assert(fresh_only(self@, now_ms - STALE_THRESHOLD_MS) =~= self@);
            return;
        }
        let cutoff: u64 = now_ms - STALE_THRESHOLD_MS;
        let ghost before = time_pairs(self.seen@);
        let mut kept: Vec<(String, u64)> = Vec::new();
        let mut j: usize = 0;
        assert(time_pairs(self.seen@.take(0)) =~= Seq::<(Seq<char>, u64)>::empty());
        assert(time_pairs(kept@) =~= Seq::<(Seq<char>, u64)>::empty());
        while j < self.seen.len()
            invariant
                j <= self.seen@.len(),
                before == time_pairs(self.seen@),
                time_pairs(kept@) == after_cutoff(time_pairs(self.seen@.take(j as int)), cutoff as int),
            decreases self.seen@.len() - j,
        {
            let ghost tp = time_pairs(self.seen@.take(j + 1));
            assert(tp.drop_last() =~= time_pairs(self.seen@.take(j as int)));
            assert(tp.last() == (self.seen@[j as int].0@, self.seen@[j as int].1));
            if self.seen[j].1 > cutoff {
                let ghost k0 = kept@;
                kept.push((self.seen[j].0.clone(), self.seen[j].1));
                assert(time_pairs(kept@) =~= time_pairs(k0).push(tp.last()));
            }
            j = j + 1;
        }
        assert(self.seen@.take(self.seen@.len() as int) =~= self.seen@);
        proof {
            lemma_after_cutoff(before, cutoff as int);
        }
        self.seen = kept;
    }
}

/// After a file is reported at `t`, a change to it at `t2` is reported
/// exactly when at least [`DEBOUNCE_MS`] have passed, and the decision for
/// every other file is what it was.
pub proof fn law_debounce_window(m: Map<Seq<char>, u64>, path: Seq<char>, other: Seq<char>, t: u64, t2: u64)
    requires
        other != path,
    ensures
        lets_through(m.insert(path, t), path, t2) == (elapsed(t2, t) >= DEBOUNCE_MS),
        lets_through(m.insert(path, t), other, t2) == lets_through(m, other, t2),
{
}

/// A sweep only bounds the memory: for any later time, whether a change to
/// any file is reported is the same with the swept memory as without.
pub proof fn law_sweep_keeps_decisions(m: Map<Seq<char>, u64>, now: u64, later: u64, path: Seq<char>)
    requires
        now >= STALE_THRESHOLD_MS,
        later >= now,
    ensures
        lets_through(fresh_only(m, now - STALE_THRESHOLD_MS), path, later) == lets_through(m, path, later),
{
}

} // verus!
