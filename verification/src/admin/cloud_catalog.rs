//! The cloud's card and category listings as the vault synchronisation
//! reads them: which cloud card a local file stands for, the folder path of
//! each category, and finding a category by name under a parent.

use vstd::prelude::*;
use crate::admin::cloud_sync::{card_file_name, card_lookup_key, lookup_key, safe_dir_name, sanitize_dir_name, should_update, title_to_filename, update_due};
use crate::admin::models::{path_join, push_path};
use crate::text::{chars_of, lowercase, str_eq, string_of, to_lowercase, trim_chars, trimmed};

verus! {

broadcast use vstd::std_specs::hash::group_hash_axioms;

/// A card of the cloud listing.
pub struct CardListItem {
    pub id: String,
    pub title: String,
    pub updated_at: String,
    pub category_id: Option<u64>,
}

/// A category of the cloud listing.
pub struct CategoryItem {
    pub id: u64,
    pub name: String,
    pub parent_id: Option<u64>,
}

/// The texts of a list of strings.
pub open spec fn texts(v: Seq<String>) -> Seq<Seq<char>> {
    v.map_values(|x: String| x@)
}

/// The texts of a list of string pairs.
pub open spec fn pair_texts(v: Seq<(String, String)>) -> Seq<(Seq<char>, Seq<char>)> {
    v.map_values(|p: (String, String)| (p.0@, p.1@))
}

/// The keys of a list of pairs.
pub open spec fn keys_of(v: Seq<(Seq<char>, Seq<char>)>) -> Seq<Seq<char>> {
    v.map_values(|p: (Seq<char>, Seq<char>)| p.0)
}

/// For each lookup key (see [`lookup_key`]) of the cards, in order of first
/// appearance, the id of the first card that has it.
pub open spec fn first_ids(cards: Seq<CardListItem>) -> Seq<(Seq<char>, Seq<char>)>
    decreases cards.len(),
{
    if cards.len() == 0 {
        Seq::empty()
    } else {
        let prev = first_ids(cards.drop_last());
        let c = cards.last();
        let k = lookup_key(c.title@, c.category_id);
        if keys_of(prev).contains(k) { prev } else { prev.push((k, c.id@)) }
    }
}

/// Whether a key occurs among the pairs.
fn has_key(pairs: &Vec<(String, String)>, key: &str) -> (b: bool)
    ensures
        b == keys_of(pair_texts(pairs@)).contains(key@),
{
    let ghost ks = keys_of(pair_texts(pairs@));
    let mut i: usize = 0;
    while i < pairs.len()
        invariant
            i <= pairs@.len(),
            ks == keys_of(pair_texts(pairs@)),
            ks.len() == pairs@.len(),
            forall|j: int| 0 <= j < i ==> ks[j] != key@,
        decreases pairs@.len() - i,
    {
        assert(ks[i as int] == pairs@[i as int].0@);
        if str_eq(pairs[i].0.as_str(), key) {
            return true;
        }
        i = i + 1;
    }
    assert(!ks.contains(key@));
    false
}

/// The id of the cloud card for each lookup key (see [`first_ids`]).
pub fn build_card_lookup(cards: &Vec<CardListItem>) -> (r: Vec<(String, String)>)
    ensures
        pair_texts(r@) == first_ids(cards@),
{
    let mut out: Vec<(String, String)> = Vec::new();
    let mut i: usize = 0;
    assert(cards@.take(0) =~= Seq::<CardListItem>::empty());
    assert(pair_texts(out@) =~= first_ids(cards@.take(0)));
    while i < cards.len()
        invariant
            i <= cards@.len(),
            pair_texts(out@) == first_ids(cards@.take(i as int)),
        decreases cards@.len() - i,
    {
        let c = &cards[i];
        let key = card_lookup_key(c.title.as_str(), c.category_id);
        assert(cards@.take(i + 1).drop_last() =~= cards@.take(i as int));
        assert(cards@.take(i + 1).last() == cards@[i as int]);
        if !has_key(&out, key.as_str()) {
            let ghost before = out@;
            out.push((key, c.id.clone()));
            assert(pair_texts(out@) =~= pair_texts(before).push((lookup_key(c.title@, c.category_id), c.id@)));
        }
        i = i + 1;
    }
    assert(cards@.take(cards@.len() as int) =~= cards@);
    out
}

/// The category with a given id; a later entry with the same id wins.
pub open spec fn item_for(cats: Seq<CategoryItem>, id: u64) -> Option<CategoryItem>
    decreases cats.len(),
{
    if cats.len() == 0 {
        None
    } else if cats.last().id == id {
        Some(cats.last())
    } else {
        item_for(cats.drop_last(), id)
    }
}

/// The names from the top-level category down to `id`, following parents at
/// most `fuel` times; empty for an unknown id, `None` when the chain of
/// parents is longer than `fuel`.
pub open spec fn path_for(cats: Seq<CategoryItem>, id: u64, fuel: nat) -> Option<Seq<Seq<char>>>
    decreases fuel,
{
    match item_for(cats, id) {
        None => Some(Seq::empty()),
        Some(it) => if fuel == 0 {
            None
        } else {
            match it.parent_id {
                None => Some(seq![it.name@]),
                Some(p) => match path_for(cats, p, (fuel - 1) as nat) {
                    Some(pp) => Some(pp.push(it.name@)),
                    None => None,
                },
            }
        },
    }
}

/// No chain of parents in the listing loops back on itself.
pub open spec fn parents_acyclic(cats: Seq<CategoryItem>) -> bool {
    forall|i: int| 0 <= i < cats.len() ==> (#[trigger] path_for(cats, cats[i].id, cats.len())) is Some
}

/// The position of the category with a given id (see [`item_for`]).
fn find_category(cats: &Vec<CategoryItem>, id: u64) -> (r: Option<usize>)
    ensures
        r matches Some(i) ==> i < cats@.len() && item_for(cats@, id) == Some(cats@[i as int]),
        r is None ==> item_for(cats@, id) is None,
{
    let mut i: usize = cats.len();
    assert(cats@.take(i as int) =~= cats@);
    while i > 0
        invariant
            i <= cats@.len(),
            item_for(cats@, id) == item_for(cats@.take(i as int), id),
        decreases i,
    {
        assert(cats@.take(i as int).last() == cats@[i - 1]);
        if cats[i - 1].id == id {
            return Some(i - 1);
        }
        assert(cats@.take(i as int).drop_last() =~= cats@.take(i - 1));
        i = i - 1;
    }
    None
}

/// The names from the top-level category down to `category_id`, following
/// parents at most `fuel` times (see [`path_for`]).
pub fn resolve_category_path(category_id: u64, categories: &Vec<CategoryItem>, fuel: usize) -> (r: Option<Vec<String>>)
    ensures
        path_for(categories@, category_id, fuel as nat) matches Some(p) ==> (r matches Some(v) && texts(v@) == p),
        path_for(categories@, category_id, fuel as nat) is None ==> r is None,
    decreases fuel,
{
    match find_category(categories, category_id) {
        None => {
            let v: Vec<String> = Vec::new();
            assert(texts(v@) =~= Seq::<Seq<char>>::empty());
            Some(v)
        },
        Some(k) => {
            if fuel == 0 {
                return None;
            }
            let item = &categories[k];
            let mut path = match item.parent_id {
                None => {
                    let v: Vec<String> = Vec::new();
                    assert(texts(v@) =~= Seq::<Seq<char>>::empty());
                    v
                },
                Some(p) => match resolve_category_path(p, categories, fuel - 1) {
                    Some(v) => v,
                    None => return None,
                },
            };
            let ghost before = path@;
            path.push(item.name.clone());
            assert(texts(path@) =~= texts(before).push(item.name@));
            Some(path)
        },
    }
}

/// The folder path of every listed category, keyed by id (see
/// [`path_for`]); the listing must not loop.
pub fn build_category_path_map(categories: &Vec<CategoryItem>) -> (r: std::collections::HashMap<u64, Vec<String>>)
    requires
        parents_acyclic(categories@),
    ensures
        forall|id: u64| r@.contains_key(id) <==> exists|i: int| 0 <= i < categories@.len() && categories@[i].id == id,
        forall|id: u64| #[trigger] r@.contains_key(id) ==> path_for(categories@, id, categories@.len() as nat)
            == Some(texts(r@[id]@)),
{
    let mut cache: std::collections::HashMap<u64, Vec<String>> = std::collections::HashMap::new();
    let n = categories.len();
    let mut i: usize = 0;
    while i < n
        invariant
            i <= n,
            n == categories@.len(),
            parents_acyclic(categories@),
            forall|id: u64| cache@.contains_key(id) <==> exists|j: int| 0 <= j < i && categories@[j].id == id,
            forall|id: u64| #[trigger] cache@.contains_key(id) ==> path_for(categories@, id, n as nat)
                == Some(texts(cache@[id]@)),
        decreases n - i,
    {
        let id = categories[i].id;
        assert(path_for(categories@, categories@[i as int].id, n as nat) is Some);
        let path = match resolve_category_path(id, categories, n) {
            Some(p) => p,
            None => {
                assert(false);
                Vec::new()
            },
        };
        cache.insert(id, path);
        assert forall|x: u64| cache@.contains_key(x) <==> exists|j: int| 0 <= j < i + 1 && categories@[j].id == x by {
            if x == id {
                assert(categories@[i as int].id == x);
            }
        }
        i = i + 1;
    }
    cache
}

/// The first listed category with the given parent whose trimmed,
/// lower-cased name equals the trimmed, lower-cased `name`.
pub open spec fn category_named(cats: Seq<CategoryItem>, name: Seq<char>, parent_id: Option<u64>) -> Option<int>
    decreases cats.len(),
{
    if cats.len() == 0 {
        None
    } else {
        match category_named(cats.drop_last(), name, parent_id) {
            Some(i) => Some(i),
            None => {
                let c = cats.last();
                if lowercase(trimmed(c.name@)) == lowercase(trimmed(name)) && c.parent_id == parent_id {
                    Some(cats.len() - 1)
                } else {
                    None
                }
            },
        }
    }
}

/// Finds a category by name and parent (see [`category_named`]).
pub fn find_category_by_name_and_parent(categories: &Vec<CategoryItem>, name: &str, parent_id: Option<u64>)
    -> (r: Option<CategoryItem>)
    ensures
        category_named(categories@, name@, parent_id) matches Some(i) ==> (r matches Some(c) && c.id == categories@[i].id
            && c.name@ == categories@[i].name@ && c.parent_id == categories@[i].parent_id),
        category_named(categories@, name@, parent_id) is None ==> r is None,
{
    let wanted = to_lowercase(string_of(&trim_chars(&chars_of(name))).as_str());
    let mut i: usize = 0;
    assert(categories@.take(0) =~= Seq::<CategoryItem>::empty());
    while i < categories.len()
        invariant
            i <= categories@.len(),
            wanted@ == lowercase(trimmed(name@)),
            category_named(categories@.take(i as int), name@, parent_id) is None,
        decreases categories@.len() - i,
    {
        let c = &categories[i];
        let have = to_lowercase(string_of(&trim_chars(&chars_of(c.name.as_str()))).as_str());
        assert(categories@.take(i + 1).drop_last() =~= categories@.take(i as int));
        assert(categories@.take(i + 1).last() == categories@[i as int]);
        if str_eq(have.as_str(), wanted.as_str()) && c.parent_id == parent_id {
            proof {
                lemma_named_prefix(categories@, name@, parent_id, i + 1);
            }
            return Some(CategoryItem { id: c.id, name: c.name.clone(), parent_id: c.parent_id });
        }
        i = i + 1;
    }
    assert(categories@.take(categories@.len() as int) =~= categories@);
    None
}

/// A match found in a prefix is the match of the whole listing.
proof fn lemma_named_prefix(cats: Seq<CategoryItem>, name: Seq<char>, parent_id: Option<u64>, k: int)
    requires
        0 <= k <= cats.len(),
        category_named(cats.take(k), name, parent_id) is Some,
    ensures
        category_named(cats, name, parent_id) == category_named(cats.take(k), name, parent_id),
    decreases cats.len() - k,
{
    if k < cats.len() {
        assert(cats.take(k + 1).drop_last() =~= cats.take(k));
        lemma_named_prefix(cats, name, parent_id, k + 1);
    } else {
        assert(cats.take(k) =~= cats);
    }
}

/// The vault folder followed by the safe category folders.
pub open spec fn folder_text(vault: Seq<char>, segments: Seq<Seq<char>>) -> Seq<char>
    decreases segments.len(),
{
    if segments.len() == 0 {
        vault
    } else {
        path_join(folder_text(vault, segments.drop_last()), safe_dir_name(segments.last()))
    }
}

/// The file a card is written to: the vault folder, then each category
/// folder made safe (see [`safe_dir_name`]), then the file name, joined as
/// paths (see [`path_join`]).
pub fn build_file_path(vault_dir: &str, category_path: Option<&Vec<String>>, filename: &str) -> (r: String)
    ensures
        r@ == path_join(folder_text(vault_dir@, match category_path {
            Some(v) => texts(v@),
            None => Seq::empty(),
        }), filename@),
{
    let mut path = vault_dir.to_string();
    match category_path {
        Some(segments) => {
            let mut i: usize = 0;
            assert(texts(segments@).take(0) =~= Seq::<Seq<char>>::empty());
            while i < segments.len()
                invariant
                    i <= segments@.len(),
                    path@ == folder_text(vault_dir@, texts(segments@).take(i as int)),
                decreases segments@.len() - i,
            {
                let safe = sanitize_dir_name(segments[i].as_str());
                push_path(&mut path, safe.as_str());
                assert(texts(segments@).take(i + 1).drop_last() =~= texts(segments@).take(i as int));
                i = i + 1;
            }
            assert(texts(segments@).take(segments@.len() as int) =~= texts(segments@));
        },
        None => {},
    }
    push_path(&mut path, filename);
    path
}

/// The category folders of a card: its category's path when the map has
/// one, else none.
pub open spec fn card_segments(c: CardListItem, map: Map<u64, Vec<String>>) -> Seq<Seq<char>> {
    match c.category_id {
        Some(id) => if map.contains_key(id) { texts(map[id]@) } else { Seq::empty() },
        None => Seq::empty(),
    }
}

/// The file a cloud card is written to in the vault.
pub open spec fn target_path(c: CardListItem, map: Map<u64, Vec<String>>, vault: Seq<char>) -> Seq<char> {
    path_join(folder_text(vault, card_segments(c, map)), card_file_name(c.title@))
}

/// The file a cloud card is written to (see [`target_path`]).
pub fn card_target_path(card: &CardListItem, path_map: &std::collections::HashMap<u64, Vec<String>>, vault_dir: &str)
    -> (r: String)
    ensures
        r@ == target_path(*card, path_map@, vault_dir@),
{
    let filename = title_to_filename(card.title.as_str());
    match card.category_id {
        Some(cid) => match path_map.get(&cid) {
            Some(segments) => build_file_path(vault_dir, Some(segments), filename.as_str()),
            None => build_file_path(vault_dir, None, filename.as_str()),
        },
        None => build_file_path(vault_dir, None, filename.as_str()),
    }
}

/// A cloud card to download into the vault.
pub struct CloudSyncTask {
    pub card_id: String,
    pub title: String,
    pub file_path: String,
}

/// Whether a cloud card is written: when its file is missing (`None`), or
/// when the cloud copy is newer (see [`update_due`]).
pub open spec fn needs_write(local: Option<Option<u64>>, updated_at: Seq<char>) -> bool {
    match local {
        None => true,
        Some(m) => update_due(m, updated_at),
    }
}

/// The (id, title, file) of each card that is written, in order.
pub open spec fn planned(cards: Seq<CardListItem>, targets: Seq<String>, local: Seq<Option<Option<u64>>>)
    -> Seq<(Seq<char>, Seq<char>, Seq<char>)>
    decreases cards.len(),
{
    if cards.len() == 0 {
        Seq::empty()
    } else {
        let n = cards.len() - 1;
        let prev = planned(cards.drop_last(), targets.take(n), local.take(n));
        if needs_write(local[n], cards[n].updated_at@) {
            prev.push((cards[n].id@, cards[n].title@, targets[n]@))
        } else {
            prev
        }
    }
}

/// The (id, title, file) of tasks.
pub open spec fn task_view(v: Seq<CloudSyncTask>) -> Seq<(Seq<char>, Seq<char>, Seq<char>)> {
    v.map_values(|t: CloudSyncTask| (t.card_id@, t.title@, t.file_path@))
}

/// The downloads of a cloud pull and the number of cards skipped: with
/// `targets[i]` the file of `cards[i]` and `local[i]` what the vault holds
/// there (`None` when the file is missing, else its modification time if
/// known), each card that needs writing (see [`needs_write`]) becomes a task.
pub fn plan_cloud_sync(cards: &Vec<CardListItem>, targets: &Vec<String>, local: &Vec<Option<Option<u64>>>)
    -> (r: (Vec<CloudSyncTask>, u32))
    requires
        targets@.len() == cards@.len(),
        local@.len() == cards@.len(),
        cards@.len() <= u32::MAX,
    ensures
        task_view(r.0@) == planned(cards@, targets@, local@),
        r.1 + r.0@.len() == cards@.len(),
{
    let mut tasks: Vec<CloudSyncTask> = Vec::new();
    let mut skipped: u32 = 0;
    let mut i: usize = 0;
    assert(task_view(tasks@) =~= planned(cards@.take(0), targets@.take(0), local@.take(0)));
    while i < cards.len()
        invariant
            i <= cards@.len(),
            targets@.len() == cards@.len(),
            local@.len() == cards@.len(),
            cards@.len() <= u32::MAX,
            task_view(tasks@) == planned(cards@.take(i as int), targets@.take(i as int), local@.take(i as int)),
            skipped + tasks@.len() == i,
        decreases cards@.len() - i,
    {
        let ghost (c, t, l) = (cards@.take(i + 1), targets@.take(i + 1), local@.take(i + 1));
        assert(c.drop_last() =~= cards@.take(i as int));
        assert(t.take(i as int) =~= targets@.take(i as int));
        assert(l.take(i as int) =~= local@.take(i as int));
        let card = &cards[i];
        let write = match local[i] {
            None => true,
            Some(m) => should_update(m, card.updated_at.as_str()),
        };
        if write {
            let ghost before = tasks@;
            tasks.push(CloudSyncTask { card_id: card.id.clone(), title: card.title.clone(), file_path: targets[i].clone() });
            assert(task_view(tasks@) =~= task_view(before).push((cards@[i as int].id@, cards@[i as int].title@, targets@[i as int]@)));
        } else {
            skipped = skipped + 1;
        }
        i = i + 1;
    }
    assert(cards@.take(cards@.len() as int) =~= cards@);
    assert(targets@.take(cards@.len() as int) =~= targets@);
    assert(local@.take(cards@.len() as int) =~= local@);
    (tasks, skipped)
}

/// Each lookup key names one cloud card: the keys of the lookup are distinct.
pub proof fn law_lookup_keys_distinct(cards: Seq<CardListItem>)
    ensures
        keys_of(first_ids(cards)).no_duplicates(),
    decreases cards.len(),
{
    if cards.len() > 0 {
        law_lookup_keys_distinct(cards.drop_last());
        let prev = first_ids(cards.drop_last());
        let c = cards.last();
        let k = lookup_key(c.title@, c.category_id);
        if !keys_of(prev).contains(k) {
            assert(keys_of(prev.push((k, c.id@))) =~= keys_of(prev).push(k));
        }
    }
}

} // verus!
