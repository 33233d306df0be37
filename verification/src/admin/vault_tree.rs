//! The tree of a vault shown in the side bar.
//!
//! Cards sit in categories, the top-level directories of the vault. A card
//! file directly in a category becomes a child of that category; files at
//! the root, and files in deeper directories, are listed after the
//! categories, each once. Categories come in order of first appearance:
//! those of the files, then those of the directories.

use vstd::prelude::*;
use crate::admin::records::TreeNodeDto;
use crate::text::{chars_of, str_eq, string_of, sub_chars};

verus! {

/// A card file of the vault: its path relative to the vault root (with `/`
/// separators) and the identity read from its head.
#[derive(Debug, Clone)]
pub struct TreeFile {
    pub rel: String,
    pub uuid: String,
    pub title: String,
}

/// The model of a tree node.
pub struct NodeModel {
    pub id: Seq<char>,
    pub name: Seq<char>,
    pub parent: Option<Seq<char>>,
    pub is_dir: bool,
    pub children: Seq<NodeModel>,
}

/// The model of a node.
pub open spec fn node_model(n: TreeNodeDto) -> NodeModel
    decreases n,
{
    NodeModel {
        id: n.id@,
        name: n.name@,
        parent: match n.parent_id { Some(p) => Some(p@), None => None },
        is_dir: n.is_dir,
        children: node_models(n.children@),
    }
}

/// The models of a list of nodes.
pub open spec fn node_models(s: Seq<TreeNodeDto>) -> Seq<NodeModel>
    decreases s,
{
    if s.len() == 0 {
        Seq::empty()
    } else {
        node_models(s.drop_last()).push(node_model(s.last()))
    }
}

proof fn lemma_node_models_push(s: Seq<TreeNodeDto>, x: TreeNodeDto)
    ensures
        node_models(s.push(x)) == node_models(s).push(node_model(x)),
{
    assert(s.push(x).drop_last() =~= s);
}

/// Index of the last `/`.
pub open spec fn last_slash(s: Seq<char>) -> Option<int>
    decreases s.len(),
{
    if s.len() == 0 {
        None
    } else if s.last() == '/' {
        Some(s.len() - 1)
    } else {
        last_slash(s.drop_last())
    }
}

/// The directory part of a relative path (empty at the root).
pub open spec fn parent_of(rel: Seq<char>) -> Seq<char> {
    match last_slash(rel) {
        Some(i) => rel.take(i),
        None => Seq::empty(),
    }
}

/// A directory directly under the root.
pub open spec fn top_level(p: Seq<char>) -> bool {
    p.len() > 0 && !p.contains('/')
}

/// `s` without its trailing `/` characters.
pub open spec fn trim_slashes(s: Seq<char>) -> Seq<char>
    decreases s.len(),
{
    if s.len() > 0 && s.last() == '/' { trim_slashes(s.drop_last()) } else { s }
}

/// `acc` with `x` added unless present.
pub open spec fn add_new(acc: Seq<Seq<char>>, x: Seq<char>) -> Seq<Seq<char>> {
    if acc.contains(x) { acc } else { acc.push(x) }
}

/// Categories of the files, in order of first appearance.
pub open spec fn file_categories(files: Seq<TreeFile>) -> Seq<Seq<char>>
    decreases files.len(),
{
    if files.len() == 0 {
        Seq::empty()
    } else {
        let p = parent_of(files.last().rel@);
        if top_level(p) {
            add_new(file_categories(files.drop_last()), p)
        } else {
            file_categories(files.drop_last())
        }
    }
}

/// `base` with the top-level directories of `dirs` added, in order.
pub open spec fn dir_categories(base: Seq<Seq<char>>, dirs: Seq<String>) -> Seq<Seq<char>>
    decreases dirs.len(),
{
    if dirs.len() == 0 {
        base
    } else {
        let d = trim_slashes(dirs.last()@);
        let prev = dir_categories(base, dirs.drop_last());
        if top_level(d) { add_new(prev, d) } else { prev }
    }
}

/// Deeper directories of the files, in order of first appearance.
pub open spec fn deep_parents(files: Seq<TreeFile>) -> Seq<Seq<char>>
    decreases files.len(),
{
    if files.len() == 0 {
        Seq::empty()
    } else {
        let p = parent_of(files.last().rel@);
        if p.contains('/') {
            add_new(deep_parents(files.drop_last()), p)
        } else {
            deep_parents(files.drop_last())
        }
    }
}

/// The node of a card file.
pub open spec fn leaf_model(f: TreeFile) -> NodeModel {
    let p = parent_of(f.rel@);
    NodeModel { id: f.uuid@, name: f.title@, parent: if p.len() > 0 { Some(p) } else { None }, is_dir: false, children: Seq::empty() }
}

/// The node of the last file with identity `u` (files sharing an identity
/// share the node of the last of them).
pub open spec fn leaf_for(files: Seq<TreeFile>, u: Seq<char>) -> NodeModel
    decreases files.len(),
{
    if files.len() == 0 {
        NodeModel { id: u, name: Seq::empty(), parent: None, is_dir: false, children: Seq::empty() }
    } else if files.last().uuid@ == u {
        leaf_model(files.last())
    } else {
        leaf_for(files.drop_last(), u)
    }
}

/// Whether a card with identity `u` lies directly in a category.
pub open spec fn nested(files: Seq<TreeFile>, u: Seq<char>) -> bool {
    exists|k: int| 0 <= k < files.len() && #[trigger] files[k].uuid@ == u && top_level(parent_of(files[k].rel@))
}

/// The nodes of the files of `part` in directory `dir` (all of them when
/// `only_loose` is false, else those whose card is not in a category).
pub open spec fn dir_nodes(all: Seq<TreeFile>, part: Seq<TreeFile>, dir: Seq<char>, only_loose: bool) -> Seq<NodeModel>
    decreases part.len(),
{
    if part.len() == 0 {
        Seq::empty()
    } else {
        let prev = dir_nodes(all, part.drop_last(), dir, only_loose);
        let f = part.last();
        if parent_of(f.rel@) == dir && !(only_loose && nested(all, f.uuid@)) {
            prev.push(leaf_for(all, f.uuid@))
        } else {
            prev
        }
    }
}

/// The category nodes, in order.
pub open spec fn category_nodes(files: Seq<TreeFile>, cats: Seq<Seq<char>>) -> Seq<NodeModel>
    decreases cats.len(),
{
    if cats.len() == 0 {
        Seq::empty()
    } else {
        let c = cats.last();
        category_nodes(files, cats.drop_last()).push(
            NodeModel { id: c, name: c, parent: None, is_dir: true, children: dir_nodes(files, files, c, false) },
        )
    }
}

/// The loose nodes of the deeper directories, directory by directory.
pub open spec fn deep_nodes(files: Seq<TreeFile>, dirs: Seq<Seq<char>>) -> Seq<NodeModel>
    decreases dirs.len(),
{
    if dirs.len() == 0 {
        Seq::empty()
    } else {
        deep_nodes(files, dirs.drop_last()) + dir_nodes(files, files, dirs.last(), true)
    }
}

/// The vault tree: categories, then loose root files, then loose files of
/// deeper directories.
pub open spec fn vault_tree(files: Seq<TreeFile>, dirs: Seq<String>) -> Seq<NodeModel> {
    category_nodes(files, dir_categories(file_categories(files), dirs))
        + dir_nodes(files, files, Seq::empty(), true)
        + deep_nodes(files, deep_parents(files))
}


/// The plain values of a list of character vectors.
pub open spec fn char_seqs(v: Seq<Vec<char>>) -> Seq<Seq<char>> {
    v.map_values(|x: Vec<char>| x@)
}

/// The directory part of a relative path (see [`parent_of`]).
fn parent_chars(rel: &str) -> (r: Vec<char>)
    ensures
        r@ == parent_of(rel@),
{
    let cs = chars_of(rel);
    let mut k = cs.len();
    assert(cs@.take(cs@.len() as int) =~= cs@);
    while k > 0 && cs[k - 1] != '/'
        invariant
            k <= cs@.len(),
            cs@ == rel@,
            last_slash(rel@) == last_slash(cs@.take(k as int)),
        decreases k,
    {
        assert(cs@.take(k as int).drop_last() =~= cs@.take(k - 1));
        k = k - 1;
    }
    if k == 0 {
        assert(last_slash(cs@.take(0)) is None);
        Vec::new()
    } else {
        let r = sub_chars(&cs, 0, k - 1);
        assert(r@ =~= rel@.take(k - 1));
        r
    }
}

/// Whether a directory lies directly under the root (see [`top_level`]).
fn is_top_level(p: &Vec<char>) -> (b: bool)
    ensures
        b == top_level(p@),
{
    if p.len() == 0 {
        return false;
    }
    let mut i: usize = 0;
    while i < p.len()
        invariant
            i <= p@.len(),
            forall|j: int| 0 <= j < i ==> p@[j] != '/',
        decreases p@.len() - i,
    {
        if p[i] == '/' {
            assert(p@.contains('/'));
            return false;
        }
        i = i + 1;
    }
    true
}

/// Whether a directory lies below a top-level one.
fn has_slash(p: &Vec<char>) -> (b: bool)
    ensures
        b == p@.contains('/'),
{
    let mut i: usize = 0;
    while i < p.len()
        invariant
            i <= p@.len(),
            forall|j: int| 0 <= j < i ==> p@[j] != '/',
        decreases p@.len() - i,
    {
        if p[i] == '/' {
            assert(p@[i as int] == '/');
            return true;
        }
        i = i + 1;
    }
    false
}

/// Whether two character vectors are equal.
fn same_chars(a: &Vec<char>, b: &Vec<char>) -> (r: bool)
    ensures
        r == (a@ == b@),
{
    if a.len() != b.len() {
        return false;
    }
    let mut i: usize = 0;
    while i < a.len()
        invariant
            a@.len() == b@.len(),
            i <= a@.len(),
            forall|j: int| 0 <= j < i ==> a@[j] == b@[j],
        decreases a@.len() - i,
    {
        if a[i] != b[i] {
            return false;
        }
        i = i + 1;
    }
    assert(a@ =~= b@);
    true
}

/// Whether `acc` holds `x`.
fn holds(acc: &Vec<Vec<char>>, x: &Vec<char>) -> (b: bool)
    ensures
        b == char_seqs(acc@).contains(x@),
{
    let ghost cv = char_seqs(acc@);
    let mut i: usize = 0;
    while i < acc.len()
        invariant
            i <= acc@.len(),
            cv == char_seqs(acc@),
            forall|j: int| 0 <= j < i ==> cv[j] != x@,
        decreases acc@.len() - i,
    {
        if same_chars(&acc[i], x) {
            assert(cv[i as int] == x@);
            return true;
        }
        i = i + 1;
    }
    false
}

/// Adds `x` unless present (see [`add_new`]).
fn push_new(acc: &mut Vec<Vec<char>>, x: Vec<char>)
    ensures
        char_seqs(final(acc)@) == add_new(char_seqs(old(acc)@), x@),
{
    let ghost xv = x@;
    if !holds(acc, &x) {
        acc.push(x);
        assert(char_seqs(acc@) =~= char_seqs(old(acc)@).push(xv));
    }
}


proof fn lemma_node_models_index(s: Seq<TreeNodeDto>)
    ensures
        node_models(s).len() == s.len(),
        forall|i: int| 0 <= i < s.len() ==> #[trigger] node_models(s)[i] == node_model(s[i]),
    decreases s.len(),
{
    if s.len() > 0 {
        lemma_node_models_index(s.drop_last());
        assert forall|i: int| 0 <= i < s.len() implies #[trigger] node_models(s)[i] == node_model(s[i]) by {
            if i < s.len() - 1 {
                assert(s.drop_last()[i] == s[i]);
            }
        }
    }
}

/// Appends `more` to `out`.
fn append_nodes(out: &mut Vec<TreeNodeDto>, more: Vec<TreeNodeDto>)
    ensures
        node_models(final(out)@) == node_models(old(out)@) + node_models(more@),
{
    let ghost mv = node_models(more@);
    proof {
        lemma_node_models_index(more@);
    }
    let n = more.len();
    let mut rest = more;
    let mut k: usize = 0;
    assert(mv.take(0) =~= Seq::<NodeModel>::empty());
    while k < n
        invariant
            k <= n,
            mv.len() == n,
            rest@.len() == n - k,
            forall|j: int| 0 <= j < rest@.len() ==> node_model(#[trigger] rest@[j]) == mv[k + j],
            node_models(out@) == node_models(old(out)@) + mv.take(k as int),
        decreases n - k,
    {
        let ghost before = rest@;
        let x = rest.remove(0);
        assert forall|j: int| 0 <= j < rest@.len() implies node_model(#[trigger] rest@[j]) == mv[k + 1 + j] by {
            assert(rest@[j] == before[j + 1]);
        }
        proof {
            lemma_node_models_push(out@, x);
        }
        out.push(x);
        assert(mv.take(k + 1) =~= mv.take(k as int).push(mv[k as int]));
        k = k + 1;
    }
    assert(mv.take(n as int) =~= mv);
}

/// The node of a card file (see [`leaf_model`]).
fn leaf_node(f: &TreeFile) -> (r: TreeNodeDto)
    ensures
        node_model(r) == leaf_model(*f),
{
    let p = parent_chars(f.rel.as_str());
    let parent_id = if p.len() > 0 { Some(string_of(&p)) } else { None };
    let r = TreeNodeDto { id: f.uuid.clone(), name: f.title.clone(), parent_id, is_dir: false, children: Vec::new() };
    assert(node_models(r.children@) =~= Seq::<NodeModel>::empty());
    r
}

/// The node of the last file with identity `u` (see [`leaf_for`]).
fn leaf_of(files: &Vec<TreeFile>, u: &str) -> (r: TreeNodeDto)
    ensures
        node_model(r) == leaf_for(files@, u@),
{
    let mut k = files.len();
    assert(files@.take(files@.len() as int) =~= files@);
    while k > 0 && !str_eq(files[k - 1].uuid.as_str(), u)
        invariant
            k <= files@.len(),
            leaf_for(files@, u@) == leaf_for(files@.take(k as int), u@),
        decreases k,
    {
        assert(files@.take(k as int).drop_last() =~= files@.take(k - 1));
        k = k - 1;
    }
    if k == 0 {
        let r = TreeNodeDto { id: u.to_owned(), name: String::new(), parent_id: None, is_dir: false, children: Vec::new() };
        assert(node_models(r.children@) =~= Seq::<NodeModel>::empty());
        r
    } else {
        assert(files@.take(k as int).last() == files@[k - 1]);
        leaf_node(&files[k - 1])
    }
}

/// Whether the card `u` lies directly in a category (see [`nested`]).
fn is_nested(files: &Vec<TreeFile>, u: &str) -> (b: bool)
    ensures
        b == nested(files@, u@),
{
    let mut k: usize = 0;
    while k < files.len()
        invariant
            k <= files@.len(),
            forall|j: int| 0 <= j < k ==> !(#[trigger] files@[j].uuid@ == u@ && top_level(parent_of(files@[j].rel@))),
        decreases files@.len() - k,
    {
        if str_eq(files[k].uuid.as_str(), u) {
            let p = parent_chars(files[k].rel.as_str());
            if is_top_level(&p) {
                assert(files@[k as int].uuid@ == u@);
                return true;
            }
        }
        k = k + 1;
    }
    false
}

/// The nodes of the files in directory `dir` (see [`dir_nodes`]).
fn nodes_in_dir(files: &Vec<TreeFile>, dir: &Vec<char>, only_loose: bool) -> (r: Vec<TreeNodeDto>)
    ensures
        node_models(r@) == dir_nodes(files@, files@, dir@, only_loose),
{
    let mut out: Vec<TreeNodeDto> = Vec::new();
    let mut k: usize = 0;
    while k < files.len()
        invariant
            k <= files@.len(),
            node_models(out@) == dir_nodes(files@, files@.take(k as int), dir@, only_loose),
        decreases files@.len() - k,
    {
        assert(files@.take(k + 1).drop_last() =~= files@.take(k as int));
        let f = &files[k];
        let p = parent_chars(f.rel.as_str());
        if same_chars(&p, dir) && !(only_loose && is_nested(files, f.uuid.as_str())) {
            let n = leaf_of(files, f.uuid.as_str());
            proof {
                lemma_node_models_push(out@, n);
            }
            out.push(n);
        }
        k = k + 1;
    }
    assert(files@.take(files@.len() as int) =~= files@);
    out
}

/// The categories of a vault (see [`file_categories`], [`dir_categories`]).
fn categories(files: &Vec<TreeFile>, dirs: &Vec<String>) -> (r: Vec<Vec<char>>)
    ensures
        char_seqs(r@) == dir_categories(file_categories(files@), dirs@),
{
    let mut cats: Vec<Vec<char>> = Vec::new();
    let mut k: usize = 0;
    assert(char_seqs(cats@) =~= Seq::<Seq<char>>::empty());
    while k < files.len()
        invariant
            k <= files@.len(),
            char_seqs(cats@) == file_categories(files@.take(k as int)),
        decreases files@.len() - k,
    {
        assert(files@.take(k + 1).drop_last() =~= files@.take(k as int));
        let p = parent_chars(files[k].rel.as_str());
        if is_top_level(&p) {
            push_new(&mut cats, p);
        }
        k = k + 1;
    }
    assert(files@.take(files@.len() as int) =~= files@);
    let ghost base = char_seqs(cats@);
    let mut j: usize = 0;
    assert(dirs@.take(0) =~= Seq::<String>::empty());
    while j < dirs.len()
        invariant
            j <= dirs@.len(),
            base == file_categories(files@),
            char_seqs(cats@) == dir_categories(base, dirs@.take(j as int)),
        decreases dirs@.len() - j,
    {
        assert(dirs@.take(j + 1).drop_last() =~= dirs@.take(j as int));
        let cs = chars_of(dirs[j].as_str());
        let mut e = cs.len();
        assert(cs@.take(cs@.len() as int) =~= cs@);
        while e > 0 && cs[e - 1] == '/'
            invariant
                e <= cs@.len(),
                cs@ == dirs@[j as int]@,
                trim_slashes(cs@) == trim_slashes(cs@.take(e as int)),
            decreases e,
        {
            assert(cs@.take(e as int).drop_last() =~= cs@.take(e - 1));
            e = e - 1;
        }
        let d = sub_chars(&cs, 0, e);
        assert(d@ =~= cs@.take(e as int));
        assert(dirs@.take(j + 1).last() == dirs@[j as int]);
        if is_top_level(&d) {
            push_new(&mut cats, d);
        }
        j = j + 1;
    }
    assert(dirs@.take(dirs@.len() as int) =~= dirs@);
    cats
}

/// The deeper directories of the files (see [`deep_parents`]).
fn deeper_dirs(files: &Vec<TreeFile>) -> (r: Vec<Vec<char>>)
    ensures
        char_seqs(r@) == deep_parents(files@),
{
    let mut out: Vec<Vec<char>> = Vec::new();
    let mut k: usize = 0;
    assert(char_seqs(out@) =~= Seq::<Seq<char>>::empty());
    while k < files.len()
        invariant
            k <= files@.len(),
            char_seqs(out@) == deep_parents(files@.take(k as int)),
        decreases files@.len() - k,
    {
        assert(files@.take(k + 1).drop_last() =~= files@.take(k as int));
        let p = parent_chars(files[k].rel.as_str());
        if has_slash(&p) {
            push_new(&mut out, p);
        }
        k = k + 1;
    }
    assert(files@.take(files@.len() as int) =~= files@);
    out
}

/// Builds the vault tree (see [`vault_tree`]).
pub fn build_tree(files: &Vec<TreeFile>, dirs: &Vec<String>) -> (r: Vec<TreeNodeDto>)
    ensures
        node_models(r@) == vault_tree(files@, dirs@),
{
    let cats = categories(files, dirs);
    let ghost cv = char_seqs(cats@);
    let mut out: Vec<TreeNodeDto> = Vec::new();
    let mut i: usize = 0;
    assert(node_models(out@) =~= category_nodes(files@, cv.take(0)));
    while i < cats.len()
        invariant
            i <= cats@.len(),
            cv == char_seqs(cats@),
            node_models(out@) == category_nodes(files@, cv.take(i as int)),
        decreases cats@.len() - i,
    {
        assert(cv.take(i + 1).drop_last() =~= cv.take(i as int));
        let c = &cats[i];
        let children = nodes_in_dir(files, c, false);
        let n = TreeNodeDto { id: string_of(c), name: string_of(c), parent_id: None, is_dir: true, children };
        proof {
            lemma_node_models_push(out@, n);
        }
        out.push(n);
        i = i + 1;
    }
    assert(cv.take(cats@.len() as int) =~= cv);
    let root: Vec<char> = Vec::new();
    let loose = nodes_in_dir(files, &root, true);
    assert(root@ =~= Seq::<char>::empty());
    append_nodes(&mut out, loose);
    let deep = deeper_dirs(files);
    let ghost dv = char_seqs(deep@);
    let ghost head = node_models(out@);
    let mut j: usize = 0;
    assert(head + deep_nodes(files@, dv.take(0)) =~= head);
    while j < deep.len()
        invariant
            j <= deep@.len(),
            dv == char_seqs(deep@),
            node_models(out@) == head + deep_nodes(files@, dv.take(j as int)),
        decreases deep@.len() - j,
    {
        assert(dv.take(j + 1).drop_last() =~= dv.take(j as int));
        let more = nodes_in_dir(files, &deep[j], true);
        append_nodes(&mut out, more);
        assert(node_models(out@) =~= head + deep_nodes(files@, dv.take(j + 1)));
        j = j + 1;
    }
    assert(dv.take(deep@.len() as int) =~= dv);
    out
}

} // verus!
