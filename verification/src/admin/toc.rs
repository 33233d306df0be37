//! The table-of-contents tree as the front end receives it.

use vstd::prelude::*;
use crate::ms_ast::toc::{toc_view, toc_view_list, TocModel, TocNode};

verus! {

/// A node of the table of contents sent to the front end.
#[derive(Debug, PartialEq)]
pub struct TocNodeDto {
    pub level: u8,
    pub text: String,
    pub slug: String,
    pub children: Vec<TocNodeDto>,
}

/// The model of a sent node: the same shape as a table-of-contents node's.
pub open spec fn dto_view(n: TocNodeDto) -> TocModel
    decreases n,
{
    TocModel { level: n.level, text: n.text@, slug: n.slug@, children: dto_view_list(n.children@) }
}

/// The models of a list of sent nodes.
pub open spec fn dto_view_list(s: Seq<TocNodeDto>) -> Seq<TocModel>
    decreases s,
{
    if s.len() == 0 {
        Seq::empty()
    } else {
        dto_view_list(s.drop_last()).push(dto_view(s.last()))
    }
}

impl TocNodeDto {
    /// The node to send for a table-of-contents node: level, text, slug and
    /// the children, converted alike, in order.
    pub fn from_node(n: &TocNode) -> (r: TocNodeDto)
        ensures
            dto_view(r) == toc_view(*n),
        decreases n,
    {
        let children = Self::from_list(&n.children);
        TocNodeDto { level: n.level, text: n.text.clone(), slug: n.slug.clone(), children }
    }

    /// The nodes to send for a list of table-of-contents nodes, in order.
    pub fn from_list(v: &Vec<TocNode>) -> (r: Vec<TocNodeDto>)
        ensures
            dto_view_list(r@) == toc_view_list(v@),
        decreases v,
    {
        let mut out: Vec<TocNodeDto> = Vec::new();
        let mut i: usize = 0;
        while i < v.len()
            invariant
                i <= v.len(),
                dto_view_list(out@) == toc_view_list(v@.take(i as int)),
            decreases v.len() - i,
        {
            assert(v@.take(i + 1).drop_last() =~= v@.take(i as int));
            let d = Self::from_node(&v[i]);
            let ghost before = out@;
            out.push(d);
            assert(out@.drop_last() =~= before);
            i = i + 1;
        }
        assert(v@.take(v.len() as int) =~= v@);
        out
    }
}

} // verus!
