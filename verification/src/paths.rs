//! Canonical path helpers: joining path segments and escaping reserved
//! words segment-wise, and the classification of how a path filter
//! relates to an item's canonical path.

use vstd::prelude::*;

verus! {

use crate::keywords::{escape_name, escape_name_spec, is_reserved_chars};
use crate::text::{
    chars_of,
    eq_str,
    join_strings,
    join_spec,
    push_str,
    split_str,
    split_spec,
    string_of,
    string_views,
    views,
};

/// `b` appended to the path `a` with a segment separator, or `b` alone
/// when `a` is empty.
pub open spec fn ppush_spec(a: Seq<char>, b: Seq<char>) -> Seq<char> {
    if a.len() == 0 {
        b
    } else {
        a + "::"@ + b
    }
}

/// Append `name` to a path prefix using `::` separators.
pub fn ppush(path_prefix: &str, name: &str) -> (r: String)
    ensures
        r@ == ppush_spec(path_prefix@, name@),
{
    if path_prefix.is_empty() {
        name.to_owned()
    } else {
        let mut out = String::new();
        push_str(&mut out, path_prefix);
        push_str(&mut out, "::");
        push_str(&mut out, name);
        proof {
            assert(out@ =~= path_prefix@ + "::"@ + name@);
        }
        out
    }
}

/// One path segment with reserved words escaped; the segments that cannot
/// be raw identifiers are kept as they are.
pub open spec fn escape_segment_spec(seg: Seq<char>) -> Seq<char> {
    if seg == "crate"@ || seg == "self"@ || seg == "super"@ || seg == "Self"@ {
        seg
    } else {
        escape_name_spec(seg)
    }
}

/// A path with every segment escaped.
pub open spec fn escape_path_spec(s: Seq<char>) -> Seq<char> {
    join_spec(
        split_spec(s, "::"@).map_values(|seg: Seq<char>| escape_segment_spec(seg)),
        "::"@,
    )
}

/// Escape reserved keywords in a path by adding raw identifier prefixes
/// when needed.
pub fn escape_path(path: &str) -> (r: String)
    ensures
        r@ == escape_path_spec(path@),
{
    let a = chars_of(path);
    proof {
        reveal_strlit("::");
    }
    let parts = split_str(&a, "::");
    let ghost pv = views(parts@);
    let mut escaped: Vec<String> = Vec::new();
    let mut i: usize = 0;
    while i < parts.len()
        invariant
            i <= parts@.len(),
            pv == views(parts@),
            string_views(escaped@) == pv.subrange(0, i as int).map_values(
                |seg: Seq<char>| escape_segment_spec(seg),
            ),
            escaped@.len() == i,
        decreases parts.len() - i,
    {
        let seg = &parts[i];
        let piece: String = if eq_str(seg, "crate") || eq_str(seg, "self") || eq_str(seg, "super")
            || eq_str(seg, "Self") {
            string_of(seg)
        } else {
            escape_name(seg)
        };
        proof {
            assert(piece@ == escape_segment_spec(pv[i as int]));
        }
        escaped.push(piece);
        proof {
            assert forall|j: int| 0 <= j < i + 1 implies string_views(escaped@)[j] == pv.subrange(
                0,
                i + 1,
            ).map_values(|seg: Seq<char>| escape_segment_spec(seg))[j] by {
                if j < i {
                    assert(string_views(escaped@)[j] == pv.subrange(0, i as int).map_values(
                        |seg: Seq<char>| escape_segment_spec(seg),
                    )[j]);
                }
            }
            assert(string_views(escaped@) =~= pv.subrange(0, i + 1).map_values(
                |seg: Seq<char>| escape_segment_spec(seg),
            ));
        }
        i = i + 1;
    }
    proof {
        assert(pv.subrange(0, pv.len() as int) =~= pv);
    }
    join_strings(&escaped, "::")
}

/// Classification describing how a filter string matches a path.
#[derive(Debug, PartialEq, Eq, Structural)]
pub enum FilterMatch {
    /// The filter exactly matches the path.
    Hit,
    /// The path is a strict ancestor of the filter target.
    Prefix,
    /// The path lies at or below the filter target.
    Suffix,
    /// The filter does not match the path.
    Miss,
}

} // verus!
