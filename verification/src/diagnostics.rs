//! Extraction of the primary diagnostic from a build tool's error stream:
//! the first error-introducing line plus any immediately following lines
//! that share indentation, carry a line-number/pipe continuation, or carry
//! a note/help/warning marker, truncated to a bounded byte budget.

use vstd::prelude::*;

verus! {

use crate::error::RipdocError;
use crate::text::{
    chars_of,
    contains_seq,
    contains_sub,
    first_match_from,
    has_prefix,
    join_spec,
    lines,
    lines_spec,
    push_str,
    starts_with_str,
    string_of,
    string_views,
    subrange_vec,
    trim,
    trim_end,
    trim_end_spec,
    trim_spec,
    trim_start_spec,
    views,
};

/// The number of characters from the error stream included in failure
/// reports.
pub const MAX_STDERR_CHARS: usize = 8192;

/// True when every character is an ascii digit.
pub open spec fn all_digits(s: Seq<char>) -> bool {
    forall|i: int| 0 <= i < s.len() ==> '0' <= #[trigger] s[i] <= '9'
}

/// The number of leading space characters (spaces only, not tabs).
pub open spec fn space_prefix_len(s: Seq<char>) -> int
    decreases s.len(),
{
    if s.len() == 0 {
        0
    } else if s[0] != ' ' {
        0
    } else {
        1 + space_prefix_len(s.drop_first())
    }
}

/// `s` without its leading spaces.
pub open spec fn strip_spaces_spec(s: Seq<char>) -> Seq<char> {
    s.subrange(space_prefix_len_clamped(s), s.len() as int)
}

/// `space_prefix_len`, restated for use in subranges.
pub open spec fn space_prefix_len_clamped(s: Seq<char>) -> int {
    space_prefix_len(s)
}

proof fn lemma_space_prefix(s: Seq<char>, i: int)
    requires
        0 <= i <= s.len(),
        forall|j: int| 0 <= j < i ==> s[j] == ' ',
        i < s.len() ==> s[i] != ' ',
    ensures
        space_prefix_len(s) == i,
    decreases s.len(),
{
    if s.len() == 0 {
    } else if i == 0 {
    } else {
        lemma_space_prefix(s.drop_first(), i - 1);
    }
}

/// Remove leading spaces.
fn strip_spaces(a: &Vec<char>) -> (r: Vec<char>)
    ensures
        r@ == strip_spaces_spec(a@),
{
    let mut i: usize = 0;
    while i < a.len() && a[i] == ' '
        invariant
            i <= a@.len(),
            forall|j: int| 0 <= j < i ==> a@[j] == ' ',
        decreases a.len() - i,
    {
        i = i + 1;
    }
    proof {
        lemma_space_prefix(a@, i as int);
    }
    subrange_vec(a, i, a.len())
}

/// True when the trimmed line reads as a line-number/pipe continuation:
/// everything before its first pipe is digits (or blank).
pub open spec fn is_line_number_block(t: Seq<char>) -> bool {
    match first_match_from(t, "|"@, 0) {
        Option::Some(p) => all_digits(trim_spec(t.subrange(0, p))),
        Option::None => false,
    }
}

/// Test `is_line_number_block`.
#[verifier::loop_isolation(false)]
fn line_number_block(t: &Vec<char>) -> (r: bool)
    ensures
        r == is_line_number_block(t@),
{
    let bar = chars_of("|");
    proof {
        reveal_strlit("|");
        assert(bar@ =~= "|"@);
    }
    match crate::text::find_from(t, &bar, 0) {
        Option::Some(p) => {
            let prefix = subrange_vec(t, 0, p);
            let trimmed = trim(&prefix);
            let mut i: usize = 0;
            while i < trimmed.len()
                invariant
                    i <= trimmed@.len(),
                    forall|j: int| 0 <= j < i ==> '0' <= #[trigger] trimmed@[j] <= '9',
                decreases trimmed.len() - i,
            {
                if !('0' <= trimmed[i] && trimmed[i] <= '9') {
                    proof {
                        assert(!all_digits(trimmed@));
                        assert(trimmed@ == trim_spec(t@.subrange(0, p as int)));
                        assert(first_match_from(t@, "|"@, 0) == Option::Some(p as int));
                        assert(!is_line_number_block(t@));
                    }
                    return false;
                }
                i = i + 1;
            }
            true
        },
        Option::None => false,
    }
}

/// True when the raw line continues a diagnostic: it is indented, carries
/// a pipe, an arrow or a note/help/warning marker, or is a line-number
/// continuation.
pub open spec fn is_context_spec(raw: Seq<char>) -> bool {
    let t = trim_end_spec(raw);
    let ts = strip_spaces_spec(t);
    ||| (raw.len() > 0 && (raw[0] == ' ' || raw[0] == '\t' || raw[0] == '|'))
    ||| has_prefix(ts, "-->"@)
    ||| has_prefix(ts, "note:"@)
    ||| has_prefix(ts, "help:"@)
    ||| has_prefix(ts, "warning:"@)
    ||| has_prefix(ts, "= note:"@)
    ||| has_prefix(ts, "= help:"@)
    ||| has_prefix(ts, "= warning:"@)
    ||| is_line_number_block(t)
}

/// Test `is_context_spec`.
fn is_context_line(raw: &Vec<char>) -> (r: bool)
    ensures
        r == is_context_spec(raw@),
{
    let t = trim_end(raw);
    let ts = strip_spaces(&t);
    (raw.len() > 0 && (raw[0] == ' ' || raw[0] == '\t' || raw[0] == '|')) || starts_with_str(
        &ts,
        "-->",
    ) || starts_with_str(&ts, "note:") || starts_with_str(&ts, "help:") || starts_with_str(
        &ts,
        "warning:",
    ) || starts_with_str(&ts, "= note:") || starts_with_str(&ts, "= help:") || starts_with_str(
        &ts,
        "= warning:",
    ) || line_number_block(&t)
}

/// True when the line introduces a new primary error diagnostic: an
/// `error[...]` header, or an `error:` header that is not one of the
/// generic failure summaries.
pub open spec fn is_primary_spec(line: Seq<char>) -> bool {
    let t = trim_spec(line);
    if has_prefix(t, "error["@) {
        contains_sub(t.subrange(6, t.len() as int), "]"@)
    } else if has_prefix(t, "error:"@) {
        let body = trim_start_spec(t.subrange(6, t.len() as int));
        !(has_prefix(body, "Compilation failed"@) || has_prefix(body, "could not compile"@)
            || has_prefix(body, "could not document"@))
    } else {
        false
    }
}

/// Determine whether a line introduces a new primary error diagnostic.
pub fn is_primary_error_line(line: &str) -> (r: bool)
    ensures
        r == is_primary_spec(line@),
{
    let cs = chars_of(line);
    let t = trim(&cs);
    if starts_with_str(&t, "error[") {
        proof {
            reveal_strlit("error[");
        }
        let body = subrange_vec(&t, 6, t.len());
        let bracket = chars_of("]");
        contains_seq(&body, &bracket)
    } else if starts_with_str(&t, "error:") {
        proof {
            reveal_strlit("error:");
        }
        let rest = subrange_vec(&t, 6, t.len());
        let body = crate::text::trim_start(&rest);
        !(starts_with_str(&body, "Compilation failed") || starts_with_str(
            &body,
            "could not compile",
        ) || starts_with_str(&body, "could not document"))
    } else {
        false
    }
}

/// The first primary line at or after `i`.
pub open spec fn first_primary(ls: Seq<Seq<char>>, i: int) -> Option<int>
    decreases ls.len() - i,
{
    if i < 0 || i >= ls.len() {
        None
    } else if is_primary_spec(ls[i]) {
        Some(i)
    } else {
        first_primary(ls, i + 1)
    }
}

/// The first line at or after `j` that ends the snippet: past the end,
/// blank after trimming, or not a continuation line.
pub open spec fn snippet_end(ls: Seq<Seq<char>>, j: int) -> int
    decreases ls.len() - j,
{
    if j < 0 || j >= ls.len() {
        j
    } else if trim_end_spec(ls[j]).len() == 0 {
        j
    } else if !is_context_spec(ls[j]) {
        j
    } else {
        snippet_end(ls, j + 1)
    }
}

/// The primary diagnostic of an error stream: the first error-introducing
/// line and its continuation lines, each stripped of trailing whitespace,
/// joined with newlines; nothing when no line introduces an error.
pub open spec fn extract_spec(s: Seq<char>) -> Option<Seq<char>> {
    let ls = lines_spec(s);
    match first_primary(ls, 0) {
        Option::None => None,
        Option::Some(p) => {
            let q = snippet_end(ls, p + 1);
            Some(
                join_spec(
                    ls.subrange(p, q).map_values(|l: Seq<char>| trim_end_spec(l)),
                    "\n"@,
                ),
            )
        },
    }
}

/// Extract the first meaningful diagnostic from the captured error stream.
pub fn extract_primary_diagnostic(stderr: &str) -> (r: Option<String>)
    ensures
        match r {
            Option::Some(t) => extract_spec(stderr@) == Option::Some(t@),
            Option::None => extract_spec(stderr@) is None,
        },
{
    let cs = chars_of(stderr);
    let ls = lines(&cs);
    let ghost lv = views(ls@);
    let mut p: usize = 0;
    loop
        invariant
            p <= lv.len(),
            lv == views(ls@),
            cs@ == stderr@,
            forall|j: int| 0 <= j < p ==> !is_primary_spec(lv[j]),
        ensures
            p <= lv.len(),
            first_primary(lv, 0) == (if p < lv.len() {
                Option::Some(p as int)
            } else {
                Option::<int>::None
            }),
            p < lv.len() ==> is_primary_spec(lv[p as int]),
        decreases lv.len() - p,
    {
        if p >= ls.len() {
            proof {
                lemma_first_primary_skip(lv, 0, p as int);
            }
            break;
        }
        let line_s = string_of(&ls[p]);
        if is_primary_error_line(line_s.as_str()) {
            proof {
                lemma_first_primary_skip(lv, 0, p as int);
            }
            break;
        }
        p = p + 1;
    }
    if p >= ls.len() {
        return Option::None;
    }
    let mut parts: Vec<String> = Vec::new();
    let first_trim = trim_end(&ls[p]);
    parts.push(string_of(&first_trim));
    let mut q: usize = p + 1;
    proof {
        assert(string_views(parts@) =~= lv.subrange(p as int, p + 1).map_values(
            |l: Seq<char>| trim_end_spec(l),
        ));
    }
    loop
        invariant
            p < q <= lv.len(),
            lv == views(ls@),
            string_views(parts@) == lv.subrange(p as int, q as int).map_values(
                |l: Seq<char>| trim_end_spec(l),
            ),
            forall|j: int|
                p < j < q ==> trim_end_spec(lv[j]).len() > 0 && is_context_spec(#[trigger] lv[j]),
        ensures
            snippet_end(lv, p + 1) == q,
            string_views(parts@) == lv.subrange(p as int, q as int).map_values(
                |l: Seq<char>| trim_end_spec(l),
            ),
        decreases lv.len() - q,
    {
        if q >= ls.len() {
            proof {
                lemma_snippet_end_skip(lv, p + 1, q as int);
            }
            break;
        }
        let te = trim_end(&ls[q]);
        if te.len() == 0 {
            proof {
                lemma_snippet_end_skip(lv, p + 1, q as int);
            }
            break;
        }
        if !is_context_line(&ls[q]) {
            proof {
                lemma_snippet_end_skip(lv, p + 1, q as int);
            }
            break;
        }
        let ghost pre = string_views(parts@);
        let ghost pv_before = parts@;
        parts.push(string_of(&te));
        proof {
            assert(pre.len() == pv_before.len());
            assert(pre.len() == lv.subrange(p as int, q as int).map_values(
                |l: Seq<char>| trim_end_spec(l),
            ).len());
            assert(parts@.len() == q + 1 - p);
            assert forall|j: int| 0 <= j < q + 1 - p implies #[trigger] string_views(parts@)[j]
                == lv.subrange(p as int, q + 1).map_values(|l: Seq<char>| trim_end_spec(l))[j] by {
                assert(string_views(parts@)[j] == parts@[j]@);
                assert(lv.subrange(p as int, q + 1).map_values(|l: Seq<char>| trim_end_spec(l))[j]
                    == trim_end_spec(lv[p + j]));
                if j < q - p {
                    assert(parts@[j]@ == pre[j]);
                    assert(pre[j] == lv.subrange(p as int, q as int).map_values(
                        |l: Seq<char>| trim_end_spec(l),
                    )[j]);
                } else {
                    assert(parts@[j]@ == te@);
                }
            }
            assert(string_views(parts@) =~= lv.subrange(p as int, q + 1).map_values(
                |l: Seq<char>| trim_end_spec(l),
            ));
        }
        q = q + 1;
    }
    let joined = crate::text::join_strings(&parts, "\n");
    proof {
        assert(lv.subrange(p as int, snippet_end(lv, p + 1)) =~= lv.subrange(p as int, q as int));
    }
    Option::Some(joined)
}

proof fn lemma_first_primary_skip(ls: Seq<Seq<char>>, from: int, upto: int)
    requires
        0 <= from <= upto,
        forall|j: int| from <= j < upto ==> !is_primary_spec(ls[j]),
    ensures
        first_primary(ls, from) == first_primary(ls, upto),
    decreases upto - from,
{
    if from < upto {
        if from >= ls.len() {
            assert(upto >= ls.len());
        } else {
            lemma_first_primary_skip(ls, from + 1, upto);
        }
    }
}

proof fn lemma_snippet_end_skip(ls: Seq<Seq<char>>, from: int, upto: int)
    requires
        0 <= from <= upto,
        upto <= ls.len(),
        forall|j: int|
            from <= j < upto ==> trim_end_spec(ls[j]).len() > 0 && is_context_spec(
                #[trigger] ls[j],
            ),
        upto >= ls.len() || trim_end_spec(ls[upto]).len() == 0 || !is_context_spec(ls[upto]),
    ensures
        snippet_end(ls, from) == upto,
    decreases upto - from,
{
    if from < upto {
        lemma_snippet_end_skip(ls, from + 1, upto);
    }
}

/// The error stream cut to the reporting budget, and whether it was cut.
pub fn truncate_diagnostics(stderr: &str) -> (r: (String, bool))
    ensures
        r.0@ == (if stderr@.len() > MAX_STDERR_CHARS {
            stderr@.subrange(0, MAX_STDERR_CHARS as int)
        } else {
            stderr@
        }),
        r.1 == (stderr@.len() > MAX_STDERR_CHARS),
{
    let cs = chars_of(stderr);
    if cs.len() > MAX_STDERR_CHARS {
        let cut = subrange_vec(&cs, 0, MAX_STDERR_CHARS);
        (string_of(&cut), true)
    } else {
        proof {
            assert(cs@.subrange(0, cs@.len() as int) =~= cs@);
        }
        (string_of(&cs), false)
    }
}

/// The failure message for a build-tool error stream.
pub open spec fn format_failure_spec(s: Seq<char>, silent: bool) -> Seq<char> {
    let t = trim_spec(s);
    if contains_sub(t, "unknown feature"@) || contains_sub(t, "E0635"@) {
        "Failed to build rustdoc JSON: This crate or its dependencies use unstable features that are not compatible with your current nightly toolchain.\n"@
    } else {
        let summary0 = match extract_spec(t) {
            Option::Some(d) => d,
            Option::None => "rustdoc exited with an error; rerun with --verbose for full diagnostics."@,
        };
        let summary = trim_spec(summary0);
        if silent {
            if t.len() == 0 {
                "Failed to build rustdoc JSON: rustdoc exited with an error but emitted no diagnostics. Re-run with --verbose or `cargo rustdoc` to inspect the failure."@
            } else {
                let diagnostics = if t.len() > MAX_STDERR_CHARS {
                    t.subrange(0, MAX_STDERR_CHARS as int)
                } else {
                    t
                };
                let tail = if t.len() > MAX_STDERR_CHARS {
                    "\n… output truncated …"@
                } else {
                    Seq::<char>::empty()
                };
                "Failed to build rustdoc JSON: "@ + summary + "\n\nrustdoc stderr:\n"@
                    + diagnostics + tail
            }
        } else {
            "Failed to build rustdoc JSON: "@ + summary
        }
    }
}

/// Format a detailed error for a failed documentation build, optionally
/// embedding the captured diagnostics.
pub fn format_rustdoc_failure(stderr: &str, silent: bool) -> (r: RipdocError)
    ensures
        r matches RipdocError::Generate(m) && m@ == format_failure_spec(stderr@, silent),
{
    let cs = chars_of(stderr);
    let trimmed = trim(&cs);
    let t = string_of(&trimmed);
    let unknown = chars_of("unknown feature");
    let code = chars_of("E0635");
    if contains_seq(&trimmed, &unknown) || contains_seq(&trimmed, &code) {
        return RipdocError::Generate(
            crate::syntax::lit(
                "Failed to build rustdoc JSON: This crate or its dependencies use unstable features that are not compatible with your current nightly toolchain.\n",
            ),
        );
    }
    let summary0 = match extract_primary_diagnostic(t.as_str()) {
        Option::Some(d) => d,
        Option::None => crate::syntax::lit(
            "rustdoc exited with an error; rerun with --verbose for full diagnostics.",
        ),
    };
    let summary_chars = chars_of(summary0.as_str());
    let summary_trimmed = trim(&summary_chars);
    let summary = string_of(&summary_trimmed);
    if silent {
        if trimmed.len() == 0 {
            return RipdocError::Generate(
                crate::syntax::lit(
                    "Failed to build rustdoc JSON: rustdoc exited with an error but emitted no diagnostics. Re-run with --verbose or `cargo rustdoc` to inspect the failure.",
                ),
            );
        }
        let pair = truncate_diagnostics(t.as_str());
        let mut message = crate::syntax::lit("Failed to build rustdoc JSON: ");
        push_str(&mut message, summary.as_str());
        push_str(&mut message, "\n\nrustdoc stderr:\n");
        push_str(&mut message, pair.0.as_str());
        if pair.1 {
            push_str(&mut message, "\n… output truncated …");
        }
        proof {
            assert(message@ =~= format_failure_spec(stderr@, silent));
        }
        return RipdocError::Generate(message);
    }
    let mut message = crate::syntax::lit("Failed to build rustdoc JSON: ");
    push_str(&mut message, summary.as_str());
    proof {
        assert(message@ =~= format_failure_spec(stderr@, silent));
    }
    RipdocError::Generate(message)
}

} // verus!
