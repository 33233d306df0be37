//! Regular-expression matching, delegated to the `regex` crate.
//!
//! A search yields, for each successive match, the byte span of every
//! capture group (group 0 being the whole match).

use vstd::prelude::*;
use crate::text::{on_boundary, utf8_len};

verus! {

/// The capture spans that the `regex` crate reports for `pattern` over
/// `haystack`, or `None` when `pattern` does not compile.
pub uninterp spec fn regex_captures(pattern: Seq<char>, haystack: Seq<char>) -> Option<Seq<Seq<Option<(usize, usize)>>>>;

/// A span lies inside `text` and both its ends are character boundaries.
pub open spec fn span_in(text: Seq<char>, span: (usize, usize)) -> bool {
    &&& span.0 <= span.1 <= utf8_len(text)
    &&& on_boundary(text, span.0 as int)
    &&& on_boundary(text, span.1 as int)
}

/// What the `regex` crate documents of every match it reports: group 0 is
/// present, and every reported group is a sub-slice of the haystack.
pub open spec fn captures_well_formed(text: Seq<char>, caps: Seq<Seq<Option<(usize, usize)>>>) -> bool {
    forall|i: int| 0 <= i < caps.len() ==> {
        &&& #[trigger] caps[i].len() >= 1
        &&& caps[i][0] is Some
        &&& forall|j: int| 0 <= j < caps[i].len() && (#[trigger] caps[i][j]) is Some ==> span_in(text, caps[i][j]->0)
    }
}

/// Compiles `pattern` with `regex::Regex::new` and collects, through
/// `Regex::captures_iter`, the byte spans of every capture group of every
/// successive match in `haystack`.
///
/// Claimed of the crate: the result is a function of the pattern and the
/// haystack; each match holds group 0; every span reported lies within the
/// haystack on UTF-8 character boundaries (the crate documents match offsets
/// as falling on such boundaries). Which matches the crate finds is named,
/// not restated.
#[verifier::external_body]
pub(crate) fn find_captures(pattern: &str, haystack: &str) -> (r: Option<Vec<Vec<Option<(usize, usize)>>>>)
    ensures
        r.is_some() == regex_captures(pattern@, haystack@).is_some(),
        r matches Some(v) ==> {
            &&& v@.map_values(|m: Vec<Option<(usize, usize)>>| m@) == regex_captures(pattern@, haystack@)->0
            &&& captures_well_formed(haystack@, v@.map_values(|m: Vec<Option<(usize, usize)>>| m@))
        },
{
    let re = regex::Regex::new(pattern).ok()?;
    Some(re.captures_iter(haystack)
        .map(|c| c.iter().map(|g| g.map(|m| (m.start(), m.end()))).collect())
        .collect())
}

} // verus!
