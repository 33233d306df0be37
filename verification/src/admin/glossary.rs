//! The vault's glossary of terms and the versions it last synchronised:
//! where they are kept, how a pulled change manifest updates them, what a
//! push sends, and how the versions move when the server accepts terms.

use vstd::prelude::*;
use crate::admin::db::{compute_hash, sha256_hex};
use crate::text::{push_str, str_eq};

verus! {

/// The texts of glossary pairs.
pub open spec fn text_pairs(v: Seq<(String, String)>) -> Seq<(Seq<char>, Seq<char>)> {
    v.map_values(|p: (String, String)| (p.0@, p.1@))
}

/// The texts of versioned terms.
pub open spec fn version_pairs(v: Seq<(String, i64)>) -> Seq<(Seq<char>, i64)> {
    v.map_values(|p: (String, i64)| (p.0@, p.1))
}

/// A list of pairs as a map; a later pair for the same key wins.
pub open spec fn as_map<V>(s: Seq<(Seq<char>, V)>) -> Map<Seq<char>, V>
    decreases s.len(),
{
    if s.len() == 0 {
        Map::empty()
    } else {
        as_map(s.drop_last()).insert(s.last().0, s.last().1)
    }
}

/// The pairs of `s` whose key is not `k`, in order.
pub open spec fn without_key<V>(s: Seq<(Seq<char>, V)>, k: Seq<char>) -> Seq<(Seq<char>, V)>
    decreases s.len(),
{
    if s.len() == 0 {
        s
    } else if s.last().0 == k {
        without_key(s.drop_last(), k)
    } else {
        without_key(s.drop_last(), k).push(s.last())
    }
}

pub(crate) proof fn lemma_without_key<V>(s: Seq<(Seq<char>, V)>, k: Seq<char>)
    ensures
        as_map(without_key(s, k)) == as_map(s).remove(k),
    decreases s.len(),
{
    if s.len() == 0 {
        assert(as_map(s).remove(k) =~= Map::<Seq<char>, V>::empty());
    } else {
        lemma_without_key(s.drop_last(), k);
        let w = without_key(s.drop_last(), k);
        if s.last().0 == k {
            assert(as_map(s).remove(k) =~= as_map(s.drop_last()).remove(k));
        } else {
            assert(w.push(s.last()).drop_last() =~= w);
            assert(as_map(w.push(s.last())) =~= as_map(s).remove(k));
        }
    }
}

/// The folder of a vault that holds its bookkeeping files.
pub open spec fn bunker_text(vault: Seq<char>) -> Seq<char> {
    vault + "/.bunker"@
}

/// The bookkeeping folder of a vault.
pub fn bunker_dir(vault_path: &str) -> (r: String)
    ensures
        r@ == bunker_text(vault_path@),
{
    let mut s = String::new();
    push_str(&mut s, vault_path);
    push_str(&mut s, "/.bunker");
    s
}

/// The glossary file of a vault.
pub fn glossary_path(vault_path: &str) -> (r: String)
    ensures
        r@ == bunker_text(vault_path@) + "/glossary.json"@,
{
    let mut s = bunker_dir(vault_path);
    push_str(&mut s, "/glossary.json");
    s
}

/// The file of synchronised glossary versions of a vault.
pub fn glossary_versions_path(vault_path: &str) -> (r: String)
    ensures
        r@ == bunker_text(vault_path@) + "/glossary_versions.json"@,
{
    let mut s = bunker_dir(vault_path);
    push_str(&mut s, "/glossary_versions.json");
    s
}

/// Removes every entry for `key` from a glossary list.
pub(crate) fn remove_text(list: &mut Vec<(String, String)>, key: &str)
    ensures
        as_map(text_pairs(final(list)@)) == as_map(text_pairs(old(list)@)).remove(key@),
{
    let mut kept: Vec<(String, String)> = Vec::new();
    let mut i: usize = 0;
    assert(text_pairs(list@.take(0)) =~= Seq::<(Seq<char>, Seq<char>)>::empty());
    assert(text_pairs(kept@) =~= Seq::<(Seq<char>, Seq<char>)>::empty());
    while i < list.len()
        invariant
            i <= list@.len(),
            text_pairs(kept@) == without_key(text_pairs(list@.take(i as int)), key@),
        decreases list@.len() - i,
    {
        let ghost tp = text_pairs(list@.take(i + 1));
        assert(tp.drop_last() =~= text_pairs(list@.take(i as int)));
        assert(tp.last() == (list@[i as int].0@, list@[i as int].1@));
        if !str_eq(list[i].0.as_str(), key) {
            let ghost before = kept@;
            kept.push((list[i].0.clone(), list[i].1.clone()));
            assert(text_pairs(kept@) =~= text_pairs(before).push(tp.last()));
        }
        i = i + 1;
    }
    assert(list@.take(list@.len() as int) =~= list@);
    proof {
        lemma_without_key(text_pairs(list@), key@);
    }
    *list = kept;
}

/// Removes every entry for `key` from a version list.
fn remove_version(list: &mut Vec<(String, i64)>, key: &str)
    ensures
        as_map(version_pairs(final(list)@)) == as_map(version_pairs(old(list)@)).remove(key@),
{
    let mut kept: Vec<(String, i64)> = Vec::new();
    let mut i: usize = 0;
    assert(version_pairs(list@.take(0)) =~= Seq::<(Seq<char>, i64)>::empty());
    assert(version_pairs(kept@) =~= Seq::<(Seq<char>, i64)>::empty());
    while i < list.len()
        invariant
            i <= list@.len(),
            version_pairs(kept@) == without_key(version_pairs(list@.take(i as int)), key@),
        decreases list@.len() - i,
    {
        let ghost vp = version_pairs(list@.take(i + 1));
        assert(vp.drop_last() =~= version_pairs(list@.take(i as int)));
        assert(vp.last() == (list@[i as int].0@, list@[i as int].1));
        if !str_eq(list[i].0.as_str(), key) {
            let ghost before = kept@;
            kept.push((list[i].0.clone(), list[i].1));
            assert(version_pairs(kept@) =~= version_pairs(before).push(vp.last()));
        }
        i = i + 1;
    }
    assert(list@.take(list@.len() as int) =~= list@);
    proof {
        lemma_without_key(version_pairs(list@), key@);
    }
    *list = kept;
}

/// The position of the last entry for `key`, which is the one the map keeps.
pub(crate) fn find_text(list: &Vec<(String, String)>, key: &str) -> (r: Option<usize>)
    ensures
        r matches Some(i) ==> i < list@.len() && as_map(text_pairs(list@)).contains_key(key@)
            && as_map(text_pairs(list@))[key@] == list@[i as int].1@,
        r is None ==> !as_map(text_pairs(list@)).contains_key(key@),
{
    let mut i: usize = list.len();
    assert(list@.take(i as int) =~= list@);
    while i > 0
        invariant
            i <= list@.len(),
            forall|k: Seq<char>| #![trigger as_map(text_pairs(list@)).contains_key(k)]
                k == key@ ==> (as_map(text_pairs(list@)).contains_key(k) == as_map(text_pairs(list@.take(i as int))).contains_key(k)
                && (as_map(text_pairs(list@)).contains_key(k) ==> as_map(text_pairs(list@))[k] == as_map(text_pairs(list@.take(i as int)))[k])),
        decreases i,
    {
        let ghost tp = text_pairs(list@.take(i as int));
        assert(tp.drop_last() =~= text_pairs(list@.take(i - 1)));
        assert(tp.last() == (list@[i - 1].0@, list@[i - 1].1@));
        if str_eq(list[i - 1].0.as_str(), key) {
            assert(as_map(tp) == as_map(tp.drop_last()).insert(tp.last().0, tp.last().1));
            assert(as_map(tp).contains_key(key@));
            assert(as_map(text_pairs(list@)).contains_key(key@));
            return Some(i - 1);
        }
        i = i - 1;
    }
    assert(text_pairs(list@.take(0)) =~= Seq::<(Seq<char>, Seq<char>)>::empty());
    None
}

/// One entry of the server's glossary change manifest.
pub struct GlossaryChange {
    pub term: String,
    pub version: i64,
    pub is_deleted: bool,
}

/// The glossary and versions after the changes, in order: a deleted term
/// leaves both; a changed term that the server's glossary defines takes
/// that definition and the change's version; any other change is skipped.
pub open spec fn pulled(
    g: Map<Seq<char>, Seq<char>>,
    v: Map<Seq<char>, i64>,
    changes: Seq<GlossaryChange>,
    server: Map<Seq<char>, Seq<char>>,
) -> (Map<Seq<char>, Seq<char>>, Map<Seq<char>, i64>)
    decreases changes.len(),
{
    if changes.len() == 0 {
        (g, v)
    } else {
        let (g1, v1) = pulled(g, v, changes.drop_last(), server);
        let c = changes.last();
        if c.is_deleted {
            (g1.remove(c.term@), v1.remove(c.term@))
        } else if server.contains_key(c.term@) {
            (g1.insert(c.term@, server[c.term@]), v1.insert(c.term@, c.version))
        } else {
            (g1, v1)
        }
    }
}

/// Applies a pulled change manifest to the local glossary and versions,
/// taking definitions from the server's glossary (see [`pulled`]).
pub fn apply_glossary_changes(
    glossary: &mut Vec<(String, String)>,
    versions: &mut Vec<(String, i64)>,
    changes: &Vec<GlossaryChange>,
    server: &Vec<(String, String)>,
)
    ensures
        (as_map(text_pairs(final(glossary)@)), as_map(version_pairs(final(versions)@)))
            == pulled(as_map(text_pairs(old(glossary)@)), as_map(version_pairs(old(versions)@)), changes@,
            as_map(text_pairs(server@))),
{
    let ghost g0 = as_map(text_pairs(glossary@));
    let ghost v0 = as_map(version_pairs(versions@));
    let ghost sm = as_map(text_pairs(server@));
    let mut i: usize = 0;
    assert(changes@.take(0) =~= Seq::<GlossaryChange>::empty());
    while i < changes.len()
        invariant
            i <= changes@.len(),
            sm == as_map(text_pairs(server@)),
            (as_map(text_pairs(glossary@)), as_map(version_pairs(versions@))) == pulled(g0, v0, changes@.take(i as int), sm),
        decreases changes@.len() - i,
    {
        let c = &changes[i];
        assert(changes@.take(i + 1).drop_last() =~= changes@.take(i as int));
        assert(changes@.take(i + 1).last() == changes@[i as int]);
        if c.is_deleted {
            remove_text(glossary, c.term.as_str());
            remove_version(versions, c.term.as_str());
        } else {
            match find_text(server, c.term.as_str()) {
                Some(k) => {
                    remove_text(glossary, c.term.as_str());
                    let ghost gm = as_map(text_pairs(glossary@));
                    let ghost gl = glossary@;
                    glossary.push((c.term.clone(), server[k].1.clone()));
                    assert(text_pairs(glossary@).drop_last() =~= text_pairs(gl));
                    assert(as_map(text_pairs(glossary@)) =~= gm.insert(c.term@, sm[c.term@]));
                    remove_version(versions, c.term.as_str());
                    let ghost vm = as_map(version_pairs(versions@));
                    let ghost vl = versions@;
                    versions.push((c.term.clone(), c.version));
                    assert(version_pairs(versions@).drop_last() =~= version_pairs(vl));
                    assert(as_map(version_pairs(versions@)) =~= vm.insert(c.term@, c.version));
                },
                None => {},
            }
        }
        i = i + 1;
    }
    assert(changes@.take(changes@.len() as int) =~= changes@);
}

/// One term of a glossary push: its definition, the version last
/// synchronised (0 when none) and the content hash of the definition.
pub struct GlossaryItemPayload {
    pub term: String,
    pub definition: String,
    pub version: i64,
    pub hash: String,
}

/// The last version recorded for a term, if any.
fn find_version(list: &Vec<(String, i64)>, key: &str) -> (r: Option<i64>)
    ensures
        r matches Some(v) ==> as_map(version_pairs(list@)).contains_key(key@) && as_map(version_pairs(list@))[key@] == v,
        r is None ==> !as_map(version_pairs(list@)).contains_key(key@),
{
    let mut i: usize = list.len();
    assert(list@.take(i as int) =~= list@);
    while i > 0
        invariant
            i <= list@.len(),
            forall|k: Seq<char>| #![trigger as_map(version_pairs(list@)).contains_key(k)]
                k == key@ ==> (as_map(version_pairs(list@)).contains_key(k) == as_map(version_pairs(list@.take(i as int))).contains_key(k)
                && (as_map(version_pairs(list@)).contains_key(k) ==> as_map(version_pairs(list@))[k] == as_map(version_pairs(list@.take(i as int)))[k])),
        decreases i,
    {
        let ghost vp = version_pairs(list@.take(i as int));
        assert(vp.drop_last() =~= version_pairs(list@.take(i - 1)));
        assert(vp.last() == (list@[i - 1].0@, list@[i - 1].1));
        if str_eq(list[i - 1].0.as_str(), key) {
            assert(as_map(vp) == as_map(vp.drop_last()).insert(vp.last().0, vp.last().1));
            assert(as_map(vp).contains_key(key@));
            assert(as_map(version_pairs(list@)).contains_key(key@));
            return Some(list[i - 1].1);
        }
        i = i - 1;
    }
    assert(version_pairs(list@.take(0)) =~= Seq::<(Seq<char>, i64)>::empty());
    None
}

/// The payload of the `i`-th glossary entry: its term and definition, its
/// recorded version or 0, and the hash of its definition.
pub open spec fn payload_matches(p: GlossaryItemPayload, e: (String, String), versions: Map<Seq<char>, i64>) -> bool {
    &&& p.term@ == e.0@
    &&& p.definition@ == e.1@
    &&& p.version == (if versions.contains_key(e.0@) { versions[e.0@] } else { 0 })
    &&& p.hash@ == sha256_hex(e.1@)
}

/// The items a glossary push sends, one per glossary entry, in order.
pub fn glossary_items(glossary: &Vec<(String, String)>, versions: &Vec<(String, i64)>) -> (r: Vec<GlossaryItemPayload>)
    ensures
        r@.len() == glossary@.len(),
        forall|i: int| 0 <= i < glossary@.len() ==> payload_matches(#[trigger] r@[i], glossary@[i],
            as_map(version_pairs(versions@))),
{
    let mut out: Vec<GlossaryItemPayload> = Vec::new();
    let mut i: usize = 0;
    while i < glossary.len()
        invariant
            i <= glossary@.len(),
            out@.len() == i,
            forall|j: int| 0 <= j < i ==> payload_matches(#[trigger] out@[j], glossary@[j],
                as_map(version_pairs(versions@))),
        decreases glossary@.len() - i,
    {
        let (term, definition) = (&glossary[i].0, &glossary[i].1);
        let version = match find_version(versions, term.as_str()) {
            Some(v) => v,
            None => 0,
        };
        let item = GlossaryItemPayload {
            term: term.clone(),
            definition: definition.clone(),
            version,
            hash: compute_hash(definition.as_str()),
        };
        out.push(item);
        i = i + 1;
    }
    out
}

/// The versions after the server accepted `accepted`, in order: each
/// accepted term's version goes up by one, from 0 when it had none.
pub open spec fn bumped(v: Map<Seq<char>, i64>, accepted: Seq<Seq<char>>) -> Map<Seq<char>, int>
    decreases accepted.len(),
{
    if accepted.len() == 0 {
        v.map_values(|x: i64| x as int)
    } else {
        let prev = bumped(v, accepted.drop_last());
        let t = accepted.last();
        prev.insert(t, (if prev.contains_key(t) { prev[t] } else { 0 }) + 1)
    }
}

proof fn lemma_bumped_dom(v: Map<Seq<char>, i64>, accepted: Seq<Seq<char>>)
    ensures
        forall|k: Seq<char>| #[trigger] bumped(v, accepted).contains_key(k) <==> (v.contains_key(k) || accepted.contains(k)),
        forall|k: Seq<char>| #[trigger] bumped(v, accepted).contains_key(k) ==> bumped(v, accepted)[k] <= (if v.contains_key(k) { v[k] as int } else { 0 }) + accepted.len(),
    decreases accepted.len(),
{
    let b = bumped(v, accepted);
    if accepted.len() > 0 {
        lemma_bumped_dom(v, accepted.drop_last());
        let t = accepted.last();
        let prev = bumped(v, accepted.drop_last());
        assert(b == prev.insert(t, (if prev.contains_key(t) { prev[t] } else { 0 }) + 1));
        assert forall|k: Seq<char>| #[trigger] b.contains_key(k) <==> (v.contains_key(k) || accepted.contains(k)) by {
            if accepted.contains(k) && k != t {
                let j = choose|j: int| 0 <= j < accepted.len() && accepted[j] == k;
                assert(accepted.drop_last()[j] == k);
            }
            if accepted.drop_last().contains(k) {
                let j = choose|j: int| 0 <= j < accepted.drop_last().len() && accepted.drop_last()[j] == k;
                assert(accepted[j] == k);
            }
            if k == t {
                assert(accepted[accepted.len() - 1] == k);
            }
        }
        assert forall|k: Seq<char>| #[trigger] b.contains_key(k) implies b[k] <= (if v.contains_key(k) { v[k] as int } else { 0 }) + accepted.len() by {
            if k == t {
                if prev.contains_key(t) {
                    assert(prev[t] <= (if v.contains_key(t) { v[t] as int } else { 0 }) + accepted.drop_last().len());
                }
            } else {
                assert(prev.contains_key(k));
                assert(b[k] == prev[k]);
            }
        }
    } else {
        assert forall|k: Seq<char>| #[trigger] b.contains_key(k) <==> (v.contains_key(k) || accepted.contains(k)) by {
            assert(b == v.map_values(|x: i64| x as int));
        }
        assert forall|k: Seq<char>| #[trigger] b.contains_key(k) implies b[k] <= (if v.contains_key(k) { v[k] as int } else { 0 }) + accepted.len() by {
            assert(b == v.map_values(|x: i64| x as int));
            assert(b[k] == v[k] as int);
        }
    }
}

/// Raises the version of each accepted term by one (see [`bumped`]).
pub fn apply_accepted(versions: &mut Vec<(String, i64)>, accepted: &Vec<String>)
    requires
        accepted@.len() < i64::MAX,
        forall|i: int| 0 <= i < old(versions)@.len() ==> #[trigger] old(versions)@[i].1 <= i64::MAX - accepted@.len(),
    ensures
        as_map(version_pairs(final(versions)@)).map_values(|x: i64| x as int)
            == bumped(as_map(version_pairs(old(versions)@)), accepted@.map_values(|t: String| t@)),
{
    let ghost v0 = as_map(version_pairs(versions@));
    let ghost acc = accepted@.map_values(|t: String| t@);
    proof {
        lemma_map_bound(version_pairs(versions@), i64::MAX - accepted@.len());
    }
    let mut i: usize = 0;
    assert(acc.take(0) =~= Seq::<Seq<char>>::empty());
    assert(as_map(version_pairs(versions@)).map_values(|x: i64| x as int) =~= bumped(v0, acc.take(0)));
    while i < accepted.len()
        invariant
            i <= accepted@.len(),
            accepted@.len() < i64::MAX,
            acc == accepted@.map_values(|t: String| t@),
            forall|k: Seq<char>| #[trigger] v0.contains_key(k) ==> v0[k] <= i64::MAX - accepted@.len(),
            as_map(version_pairs(versions@)).map_values(|x: i64| x as int) == bumped(v0, acc.take(i as int)),
        decreases accepted@.len() - i,
    {
        let t = &accepted[i];
        assert(acc.take(i + 1).drop_last() =~= acc.take(i as int));
        assert(acc.take(i + 1).last() == t@);
        proof {
            lemma_bumped_dom(v0, acc.take(i as int));
        }
        let cur = find_version(versions, t.as_str());
        let ghost bm = bumped(v0, acc.take(i as int));
        let next: i64 = match cur {
            Some(v) => {
                assert(bm.contains_key(t@));
                assert(bm[t@] == v as int);
                v + 1
            },
            None => {
                assert(!bm.contains_key(t@));
                1
            },
        };
        remove_version(versions, t.as_str());
        let ghost vm = as_map(version_pairs(versions@));
        let ghost vl = versions@;
        versions.push((t.clone(), next));
        assert(version_pairs(versions@).drop_last() =~= version_pairs(vl));
        assert(as_map(version_pairs(versions@)) =~= vm.insert(t@, next));
        assert(as_map(version_pairs(versions@)).map_values(|x: i64| x as int) =~= bumped(v0, acc.take(i + 1)));
        i = i + 1;
    }
    assert(acc.take(accepted@.len() as int) =~= acc);
}

/// Every value of the map of a list is the value of one of its pairs.
proof fn lemma_map_bound(s: Seq<(Seq<char>, i64)>, bound: int)
    requires
        forall|i: int| 0 <= i < s.len() ==> #[trigger] s[i].1 <= bound,
    ensures
        forall|k: Seq<char>| #[trigger] as_map(s).contains_key(k) ==> as_map(s)[k] <= bound,
    decreases s.len(),
{
    if s.len() > 0 {
        assert forall|i: int| 0 <= i < s.drop_last().len() implies #[trigger] s.drop_last()[i].1 <= bound by {
            assert(s.drop_last()[i] == s[i]);
        }
        lemma_map_bound(s.drop_last(), bound);
        assert(s[s.len() - 1].1 <= bound);
        assert forall|k: Seq<char>| #[trigger] as_map(s).contains_key(k) implies as_map(s)[k] <= bound by {
            if k != s.last().0 {
                assert(as_map(s.drop_last()).contains_key(k));
                assert(as_map(s)[k] == as_map(s.drop_last())[k]);
            }
        }
    }
}

/// The last change of a manifest that decides a term: `Some(None)` when it
/// deletes the term, `Some(Some((definition, version)))` when it sets it from
/// the server's glossary, `None` when no change decides it.
pub open spec fn last_effect(changes: Seq<GlossaryChange>, server: Map<Seq<char>, Seq<char>>, k: Seq<char>)
    -> Option<Option<(Seq<char>, i64)>>
    decreases changes.len(),
{
    if changes.len() == 0 {
        None
    } else {
        let c = changes.last();
        if c.term@ == k && c.is_deleted {
            Some(None)
        } else if c.term@ == k && server.contains_key(k) {
            Some(Some((server[k], c.version)))
        } else {
            last_effect(changes.drop_last(), server, k)
        }
    }
}

/// After a pull, each term is as the last change that decides it leaves it,
/// or as it was when no change decides it.
proof fn lemma_pulled_pointwise(
    g: Map<Seq<char>, Seq<char>>,
    v: Map<Seq<char>, i64>,
    changes: Seq<GlossaryChange>,
    server: Map<Seq<char>, Seq<char>>,
    k: Seq<char>,
)
    ensures
        ({
            let (g1, v1) = pulled(g, v, changes, server);
            match last_effect(changes, server, k) {
                None => g1.contains_key(k) == g.contains_key(k) && (g.contains_key(k) ==> g1[k] == g[k])
                    && v1.contains_key(k) == v.contains_key(k) && (v.contains_key(k) ==> v1[k] == v[k]),
                Some(None) => !g1.contains_key(k) && !v1.contains_key(k),
                Some(Some((d, ver))) => g1.contains_key(k) && g1[k] == d && v1.contains_key(k) && v1[k] == ver,
            }
        }),
    decreases changes.len(),
{
    if changes.len() > 0 {
        lemma_pulled_pointwise(g, v, changes.drop_last(), server, k);
    }
}

/// Pulling the same manifest again changes nothing: a pull whose changes
/// were already applied leaves the glossary and the versions as they are.
pub proof fn law_pull_is_idempotent(
    g: Map<Seq<char>, Seq<char>>,
    v: Map<Seq<char>, i64>,
    changes: Seq<GlossaryChange>,
    server: Map<Seq<char>, Seq<char>>,
)
    ensures
        pulled(pulled(g, v, changes, server).0, pulled(g, v, changes, server).1, changes, server)
            == pulled(g, v, changes, server),
{
    let p1 = pulled(g, v, changes, server);
    let g1 = p1.0;
    let v1 = p1.1;
    let p2 = pulled(g1, v1, changes, server);
    let g2 = p2.0;
    let v2 = p2.1;
    assert forall|k: Seq<char>| #![trigger g2.contains_key(k)] #![trigger g1.contains_key(k)]
        g2.contains_key(k) == g1.contains_key(k) && (g1.contains_key(k) ==> g2[k] == g1[k]) by {
        lemma_pulled_pointwise(g, v, changes, server, k);
        lemma_pulled_pointwise(g1, v1, changes, server, k);
    }
    assert forall|k: Seq<char>| #![trigger v2.contains_key(k)] #![trigger v1.contains_key(k)]
        v2.contains_key(k) == v1.contains_key(k) && (v1.contains_key(k) ==> v2[k] == v1[k]) by {
        lemma_pulled_pointwise(g, v, changes, server, k);
        lemma_pulled_pointwise(g1, v1, changes, server, k);
    }
    assert(g2 =~= g1);
    assert(v2 =~= v1);
}

} // verus!
