//! Conversion of rendered skeleton text into a prose-and-code-block
//! document: the outermost wrapping module is stripped, runs of
//! documentation comments become paragraphs, lists and fenced code blocks,
//! doctest fence tags are remapped, doctest setup lines are hidden, and
//! remaining code runs are merged into fenced blocks with common leading
//! whitespace removed.

use vstd::prelude::*;

verus! {

use crate::syntax::lit;
use crate::text::{
    chars_of,
    clone_chars,
    has_prefix,
    is_ws,
    join_spec,
    lines,
    lines_spec,
    push_str,
    split_spec,
    split_str,
    starts_with_str,
    string_of,
    subrange_vec,
    trim,
    trim_end,
    trim_end_spec,
    trim_spec,
    trim_start,
    trim_start_spec,
    views,
    ws_prefix_len,
};

/// True when the (already left-trimmed) line opens a documentation comment.
pub open spec fn is_doc_comment_spec(t: Seq<char>) -> bool {
    has_prefix(t, "///"@) || has_prefix(t, "//!"@)
}

/// Test whether a left-trimmed line opens a documentation comment.
pub fn is_doc_comment(t: &Vec<char>) -> (r: bool)
    ensures
        r == is_doc_comment_spec(t@),
{
    starts_with_str(t, "///") || starts_with_str(t, "//!")
}

/// A line with its documentation marker removed, and one following space
/// dropped when present.
pub open spec fn strip_doc_spec(l: Seq<char>) -> Seq<char> {
    if has_prefix(l, "///"@) || has_prefix(l, "//!"@) {
        let rest = l.subrange(3, l.len() as int);
        if has_prefix(rest, " "@) {
            rest.subrange(1, rest.len() as int)
        } else {
            rest
        }
    } else {
        l
    }
}

/// Remove the documentation marker of a line.
pub fn strip_doc_comment(l: &Vec<char>) -> (r: Vec<char>)
    ensures
        r@ == strip_doc_spec(l@),
{
    if starts_with_str(l, "///") || starts_with_str(l, "//!") {
        proof {
            reveal_strlit("///");
            reveal_strlit("//!");
        }
        let rest = subrange_vec(l, 3, l.len());
        if starts_with_str(&rest, " ") {
            proof {
                reveal_strlit(" ");
            }
            subrange_vec(&rest, 1, rest.len())
        } else {
            rest
        }
    } else {
        clone_chars(l)
    }
}

/// The text of one documentation line: marker stripped, trailing
/// whitespace removed.
pub open spec fn doc_text_spec(l: Seq<char>) -> Seq<char> {
    trim_end_spec(strip_doc_spec(trim_start_spec(l)))
}

/// The leading whitespace of one documentation line.
pub open spec fn doc_indent_spec(l: Seq<char>) -> Seq<char> {
    l.subrange(0, ws_prefix_len(l))
}

/// The first line at or after `i` that is not a documentation comment.
pub open spec fn doc_run_end(ls: Seq<Seq<char>>, i: int) -> int
    decreases ls.len() - i,
{
    if i < 0 || i >= ls.len() {
        i
    } else if !is_doc_comment_spec(trim_start_spec(ls[i])) {
        i
    } else {
        doc_run_end(ls, i + 1)
    }
}

/// The number of leading spaces and tabs.
pub open spec fn tab_space_prefix(s: Seq<char>) -> int
    decreases s.len(),
{
    if s.len() == 0 {
        0
    } else if s[0] != ' ' && s[0] != '\t' {
        0
    } else {
        1 + tab_space_prefix(s.drop_first())
    }
}

/// True when a line is blank after trimming.
pub open spec fn is_blank(l: Seq<char>) -> bool {
    trim_spec(l).len() == 0
}

/// The smallest indentation among the non-blank lines; zero without one.
pub open spec fn min_indent_spec(buf: Seq<Seq<char>>) -> Option<int>
    decreases buf.len(),
{
    if buf.len() == 0 {
        None
    } else {
        let rest = min_indent_spec(buf.drop_first());
        if is_blank(buf[0]) {
            rest
        } else {
            let here = tab_space_prefix(buf[0]);
            match rest {
                Option::None => Some(here),
                Option::Some(m) => Some(
                    if here < m {
                        here
                    } else {
                        m
                    },
                ),
            }
        }
    }
}

/// The buffered code lines with the common leading whitespace removed,
/// each followed by a newline; a blank line keeps only its newline.
pub open spec fn dedent_spec(buf: Seq<Seq<char>>, min: int) -> Seq<char>
    decreases buf.len(),
{
    if buf.len() == 0 {
        Seq::empty()
    } else {
        let here = if is_blank(buf[0]) {
            "\n"@
        } else {
            let cut = if min < buf[0].len() {
                min
            } else {
                buf[0].len() as int
            };
            buf[0].subrange(if cut >= 0 {
                cut
            } else {
                0
            }, buf[0].len() as int) + "\n"@
        };
        here + dedent_spec(buf.drop_first(), min)
    }
}

/// Flush a buffered code run into the document as one fenced block; a
/// buffer of only blank lines flushes to nothing and keeps the pending
/// gap. Yields the new document text and the new pending-gap flag.
pub open spec fn flush_code_spec(md: Seq<char>, buf: Seq<Seq<char>>, need_gap: bool) -> (
    Seq<char>,
    bool,
) {
    if all_blank(buf) {
        (md, need_gap)
    } else {
        let md1 = if need_gap && md.len() > 0 {
            (if md.last() != '\n' {
                md + "\n"@
            } else {
                md
            }) + "\n"@
        } else {
            md
        };
        let min = match min_indent_spec(buf) {
            Option::None => 0int,
            Option::Some(m) => m,
        };
        (md1 + "```rust\n"@ + dedent_spec(buf, min) + "```\n\n"@, false)
    }
}

/// True when every buffered line is blank.
pub open spec fn all_blank(buf: Seq<Seq<char>>) -> bool {
    forall|i: int| 0 <= i < buf.len() ==> is_blank(#[trigger] buf[i])
}

/// True when a left-trimmed line is a bulleted or numbered list item.
pub open spec fn is_list_spec(l: Seq<char>) -> bool {
    let t = trim_start_spec(l);
    ||| has_prefix(t, "- "@)
    ||| has_prefix(t, "* "@)
    ||| has_prefix(t, "+ "@)
    ||| {
        let d = digit_prefix_len(t);
        &&& d > 0
        &&& d + 2 <= t.len()
        &&& (t[d] == '.' || t[d] == ')')
        &&& (t[d + 1] == ' ' || t[d + 1] == '\t')
    }
}

/// The number of leading ascii digits.
pub open spec fn digit_prefix_len(s: Seq<char>) -> int
    decreases s.len(),
{
    if s.len() == 0 {
        0
    } else if !('0' <= s[0] <= '9') {
        0
    } else {
        1 + digit_prefix_len(s.drop_first())
    }
}

proof fn lemma_digit_prefix(s: Seq<char>, i: int)
    requires
        0 <= i <= s.len(),
        forall|j: int| 0 <= j < i ==> '0' <= #[trigger] s[j] <= '9',
        i < s.len() ==> !('0' <= s[i] <= '9'),
    ensures
        digit_prefix_len(s) == i,
    decreases s.len(),
{
    if s.len() == 0 {
    } else if i == 0 {
    } else {
        lemma_digit_prefix(s.drop_first(), i - 1);
    }
}

/// Test whether a line is a list item.
#[verifier::loop_isolation(false)]
pub fn is_list_item(l: &Vec<char>) -> (r: bool)
    ensures
        r == is_list_spec(l@),
{
    let t = trim_start(l);
    if starts_with_str(&t, "- ") || starts_with_str(&t, "* ") || starts_with_str(&t, "+ ") {
        return true;
    }
    let mut d: usize = 0;
    while d < t.len() && '0' <= t[d] && t[d] <= '9'
        invariant
            d <= t@.len(),
            forall|j: int| 0 <= j < d ==> '0' <= #[trigger] t@[j] <= '9',
        decreases t.len() - d,
    {
        d = d + 1;
    }
    proof {
        lemma_digit_prefix(t@, d as int);
    }
    d > 0 && t.len() - d >= 2 && (t[d] == '.' || t[d] == ')') && (t[d + 1] == ' ' || t[d + 1]
        == '\t')
}

/// The document extended so that it ends with a full blank-line gap.
pub open spec fn ensure_gap_spec(md: Seq<char>) -> Seq<char> {
    if md.len() == 0 || has_gap(md) {
        md
    } else if md.last() == '\n' {
        md + "\n"@
    } else {
        md + "\n\n"@
    }
}

/// True when the document already ends with a blank line.
pub open spec fn has_gap(md: Seq<char>) -> bool {
    md.len() >= 2 && md[md.len() - 1] == '\n' && md[md.len() - 2] == '\n'
}

/// Flush the accumulated paragraph into the document. Yields the new
/// document and whether any text was written.
pub open spec fn flush_para_spec(md: Seq<char>, para: Seq<char>) -> (Seq<char>, bool) {
    let t = trim_spec(para);
    if t.len() == 0 {
        (md, false)
    } else {
        let md1 = if md.len() > 0 && md.last() != '\n' {
            md + "\n"@
        } else {
            md
        };
        let md2 = if md.len() > 0 {
            md1 + "\n"@
        } else {
            md1
        };
        (md2 + t + "\n\n"@, true)
    }
}

/// The normalized fence language of a doctest tag: the default and
/// failure-variant tags map to a single generic code fence, a plain-text
/// tag to no language, anything else passes through unrecognized.
pub open spec fn norm_lang_spec(lang: Seq<char>) -> Option<Seq<char>> {
    let primary = trim_spec(split_spec(lang, ","@)[0]);
    if primary == Seq::<char>::empty() || primary == "rust"@ || primary == "no_run"@ || primary
        == "compile_fail"@ || primary == "should_panic"@ || primary == "ignore"@ {
        Some("rust"@)
    } else if primary == "text"@ {
        Some(Seq::<char>::empty())
    } else {
        None
    }
}

/// Normalize a doctest fence tag.
pub fn normalize_doc_lang(lang: &Vec<char>) -> (r: Option<String>)
    ensures
        match r {
            Option::Some(m) => norm_lang_spec(lang@) == Option::Some(m@),
            Option::None => norm_lang_spec(lang@) is None,
        },
{
    proof {
        reveal_strlit(",");
        crate::text::lemma_split_len(lang@, ","@);
    }
    let parts = split_str(lang, ",");
    let primary = trim(&parts[0]);
    proof {
        assert(primary@ == trim_spec(split_spec(lang@, ","@)[0]));
    }
    if primary.len() == 0 || crate::text::eq_str(&primary, "rust") || crate::text::eq_str(
        &primary,
        "no_run",
    ) || crate::text::eq_str(&primary, "compile_fail") || crate::text::eq_str(
        &primary,
        "should_panic",
    ) || crate::text::eq_str(&primary, "ignore") {
        proof {
            assert(primary@.len() == 0 ==> primary@ =~= Seq::<char>::empty());
        }
        Option::Some(lit("rust"))
    } else if crate::text::eq_str(&primary, "text") {
        Option::Some(String::new())
    } else {
        Option::None
    }
}

/// One step of the documentation-block renderer, over the remaining texts.
/// State: whether a fence is open, whether text has been written, the
/// paragraph being accumulated, whether a list block is open, and the
/// document so far. Yields whether the block contains prose and the new
/// document.
pub open spec fn doc_block_loop(
    texts: Seq<Seq<char>>,
    i: int,
    fence_open: bool,
    contains_text: bool,
    para: Seq<char>,
    in_list: bool,
    md: Seq<char>,
) -> (bool, Seq<char>)
    decreases texts.len() - i,
{
    if i < 0 || i >= texts.len() {
        let (md1, wrote) = flush_para_spec(md, para);
        let ct1 = contains_text || wrote;
        let md2 = if in_list {
            ensure_gap_spec(md1)
        } else {
            md1
        };
        let md3 = if fence_open {
            md2 + "```\n\n"@
        } else {
            md2
        };
        (ct1, md3)
    } else {
        let text = texts[i];
        let te = trim_end_spec(text);
        let ts = trim_start_spec(te);
        if has_prefix(ts, "```"@) {
            let (md1, wrote) = flush_para_spec(md, para);
            let ct1 = contains_text || wrote;
            let lang = trim_spec(ts.subrange(3, ts.len() as int));
            let md2 = match norm_lang_spec(lang) {
                Option::Some(mapped) => {
                    if fence_open {
                        md1 + "```\n\n"@
                    } else {
                        md1 + "```"@ + mapped + "\n"@
                    }
                },
                Option::None => md1 + ts + "\n"@,
            };
            doc_block_loop(texts, i + 1, !fence_open, ct1, Seq::empty(), false, md2)
        } else if fence_open {
            let md1 = if has_prefix(trim_start_spec(te), "#"@) {
                md
            } else {
                md + te + "\n"@
            };
            doc_block_loop(texts, i + 1, fence_open, contains_text, para, in_list, md1)
        } else if ts.len() == 0 {
            let (md1, wrote) = flush_para_spec(md, para);
            let ct1 = contains_text || wrote;
            let md2 = if in_list {
                ensure_gap_spec(md1)
            } else {
                md1
            };
            doc_block_loop(texts, i + 1, fence_open, ct1, Seq::empty(), false, md2)
        } else if is_list_spec(ts) {
            let (md1, wrote) = flush_para_spec(md, para);
            let md2 = if !in_list {
                ensure_gap_spec(md1)
            } else {
                md1
            };
            doc_block_loop(
                texts,
                i + 1,
                fence_open,
                true,
                Seq::empty(),
                true,
                md2 + te + "\n"@,
            )
        } else {
            let md1 = if in_list {
                ensure_gap_spec(md)
            } else {
                md
            };
            let para1 = if para.len() > 0 {
                para + " "@ + ts
            } else {
                para + ts
            };
            doc_block_loop(texts, i + 1, fence_open, contains_text, para1, false, md1)
        }
    }
}

/// One step of the document converter, over the remaining lines. State:
/// whether a code run is open, whether a gap is pending before the next
/// code block, the buffered code lines, and the document so far.
pub open spec fn md_loop(
    ls: Seq<Seq<char>>,
    i: int,
    in_code: bool,
    need_gap: bool,
    buf: Seq<Seq<char>>,
    md: Seq<char>,
) -> Seq<char>
    decreases ls.len() - i, 1int,
{
    if i < 0 || i >= ls.len() {
        flush_code_spec(md, buf, need_gap).0
    } else {
        let line = ls[i];
        let trimmed = trim_start_spec(line);
        if is_doc_comment_spec(trimmed) {
            let j = doc_run_end(ls, i + 1);
            let is_inner = has_prefix(trimmed, "///"@);
            let text0 = doc_text_spec(line);
            let inline = in_code && is_inner && j == i + 1 && trim_spec(text0).len() > 0;
            if inline {
                md_loop(
                    ls,
                    i + 1,
                    in_code,
                    need_gap,
                    buf.push(doc_indent_spec(line) + "// "@ + trim_spec(text0)),
                    md,
                )
            } else {
                let (md1, gap1) = flush_code_spec(md, buf, need_gap);
                let texts = ls.subrange(i, j).map_values(|l: Seq<char>| doc_text_spec(l));
                let (ct, md2) = doc_block_loop(
                    texts,
                    0,
                    false,
                    false,
                    Seq::empty(),
                    false,
                    md1,
                );
                md_loop_at(ls, j, false, ct, Seq::empty(), md2, i)
            }
        } else if trimmed.len() == 0 {
            if in_code {
                md_loop(ls, i + 1, in_code, need_gap, buf.push(Seq::empty()), md)
            } else {
                let md1 = if md.len() > 0 && md.last() != '\n' {
                    md + "\n"@
                } else {
                    md
                };
                md_loop(ls, i + 1, in_code, need_gap, buf, md1)
            }
        } else {
            md_loop(ls, i + 1, true, need_gap, buf.push(line), md)
        }
    }
}

/// Continue the document converter at a position known to be ahead of a
/// documentation run that began at `from`.
pub open spec fn md_loop_at(
    ls: Seq<Seq<char>>,
    j: int,
    in_code: bool,
    need_gap: bool,
    buf: Seq<Seq<char>>,
    md: Seq<char>,
    from: int,
) -> Seq<char>
    decreases ls.len() - from, 0int,
{
    if from < j && j <= ls.len() {
        md_loop(ls, j, in_code, need_gap, buf, md)
    } else {
        Seq::empty()
    }
}

/// Compute the text of one documentation line.
fn doc_text(l: &Vec<char>) -> (r: Vec<char>)
    ensures
        r@ == doc_text_spec(l@),
{
    let t = trim_start(l);
    let stripped = strip_doc_comment(&t);
    trim_end(&stripped)
}

/// Compute the leading whitespace of a line.
fn doc_indent(l: &Vec<char>) -> (r: Vec<char>)
    ensures
        r@ == doc_indent_spec(l@),
{
    let n = crate::text::ws_count(l);
    subrange_vec(l, 0, n)
}

/// Count the leading spaces and tabs.
fn tab_space_count(l: &Vec<char>) -> (r: usize)
    ensures
        r == tab_space_prefix(l@),
        r <= l@.len(),
{
    let mut i: usize = 0;
    while i < l.len() && (l[i] == ' ' || l[i] == '\t')
        invariant
            i <= l@.len(),
            forall|j: int| 0 <= j < i ==> l@[j] == ' ' || l@[j] == '\t',
        decreases l.len() - i,
    {
        i = i + 1;
    }
    proof {
        lemma_tab_prefix(l@, i as int);
    }
    i
}

proof fn lemma_tab_prefix(s: Seq<char>, i: int)
    requires
        0 <= i <= s.len(),
        forall|j: int| 0 <= j < i ==> s[j] == ' ' || s[j] == '\t',
        i < s.len() ==> !(s[i] == ' ' || s[i] == '\t'),
    ensures
        tab_space_prefix(s) == i,
    decreases s.len(),
{
    if s.len() == 0 {
    } else if i == 0 {
    } else {
        lemma_tab_prefix(s.drop_first(), i - 1);
    }
}

/// Test whether a line is blank after trimming.
fn blank(l: &Vec<char>) -> (r: bool)
    ensures
        r == is_blank(l@),
{
    let t = trim(l);
    t.len() == 0
}

/// Dedent the buffered lines from index `i` on.
fn dedent_from(buf: &Vec<Vec<char>>, i: usize, min: usize) -> (r: Vec<char>)
    requires
        i <= buf@.len(),
    ensures
        r@ == dedent_spec(views(buf@).subrange(i as int, buf@.len() as int), min as int),
    decreases buf@.len() - i,
{
    let ghost suffix = views(buf@).subrange(i as int, buf@.len() as int);
    if i >= buf.len() {
        let out: Vec<char> = Vec::new();
        proof {
            assert(out@ =~= dedent_spec(suffix, min as int));
        }
        out
    } else {
        proof {
            assert(suffix[0] == buf@[i as int]@);
            assert(suffix.drop_first() =~= views(buf@).subrange(i + 1, buf@.len() as int));
        }
        let line = &buf[i];
        let mut here: Vec<char> = if blank(line) {
            chars_of("\n")
        } else {
            let cut = if min < line.len() {
                min
            } else {
                line.len()
            };
            let mut h = subrange_vec(line, cut, line.len());
            crate::text::append_str(&mut h, "\n");
            h
        };
        let rest = dedent_from(buf, i + 1, min);
        crate::text::append(&mut here, &rest);
        proof {
            assert(here@ =~= dedent_spec(suffix, min as int));
        }
        here
    }
}

/// Flush the buffered code run into the document.
fn flush_code(md: Vec<char>, buf: &Vec<Vec<char>>, need_gap: bool) -> (r: (Vec<char>, bool))
    ensures
        (r.0@, r.1) == flush_code_spec(md@, views(buf@), need_gap),
{
    let mut only_blank = true;
    let mut i: usize = 0;
    while i < buf.len()
        invariant
            i <= buf@.len(),
            only_blank == (forall|j: int| 0 <= j < i ==> is_blank(#[trigger] views(buf@)[j])),
        decreases buf.len() - i,
    {
        proof {
            assert(views(buf@)[i as int] == buf@[i as int]@);
        }
        if !blank(&buf[i]) {
            only_blank = false;
        }
        i = i + 1;
        proof {
            assert(only_blank == (forall|j: int|
                0 <= j < i ==> is_blank(#[trigger] views(buf@)[j])));
        }
    }
    if only_blank {
        proof {
            assert(all_blank(views(buf@)));
        }
        return (md, need_gap);
    }
    proof {
        assert(!all_blank(views(buf@)));
    }
    let mut md1 = md;
    if need_gap && md1.len() > 0 {
        if md1[md1.len() - 1] != '\n' {
            crate::text::append_str(&mut md1, "\n");
        }
        crate::text::append_str(&mut md1, "\n");
    }
    let mut min: usize = 0;
    let mut have_min = false;
    let mut k: usize = 0;
    while k < buf.len()
        invariant
            k <= buf@.len(),
            have_min ==> min_indent_spec(views(buf@).subrange(0, k as int)) == Some(min as int),
            !have_min ==> min_indent_spec(views(buf@).subrange(0, k as int)) is None,
            min <= usize::MAX,
        decreases buf.len() - k,
    {
        proof {
            lemma_min_indent_push(views(buf@), k as int);
        }
        if !blank(&buf[k]) {
            let here = tab_space_count(&buf[k]);
            if !have_min || here < min {
                min = here;
            }
            have_min = true;
        }
        k = k + 1;
    }
    proof {
        assert(views(buf@).subrange(0, views(buf@).len() as int) =~= views(buf@));
    }
    proof {
        assert(min_indent_spec(views(buf@)) is Some) by {
            if min_indent_spec(views(buf@)) is None {
                lemma_min_indent_none(views(buf@));
            }
        }
        assert((match min_indent_spec(views(buf@)) {
            Option::None => 0int,
            Option::Some(m) => m,
        }) == min as int);
    }
    let body = dedent_from(buf, 0, min);
    crate::text::append_str(&mut md1, "```rust\n");
    crate::text::append(&mut md1, &body);
    crate::text::append_str(&mut md1, "```\n\n");
    proof {
        assert(views(buf@).subrange(0, views(buf@).len() as int) =~= views(buf@));
        assert(md1@ =~= flush_code_spec(md@, views(buf@), need_gap).0);
    }
    (md1, false)
}

proof fn lemma_min_indent_none(bv: Seq<Seq<char>>)
    requires
        min_indent_spec(bv) is None,
    ensures
        all_blank(bv),
    decreases bv.len(),
{
    if bv.len() > 0 {
        lemma_min_indent_none(bv.drop_first());
        assert forall|i: int| 0 <= i < bv.len() implies is_blank(#[trigger] bv[i]) by {
            if i > 0 {
                assert(bv.drop_first()[i - 1] == bv[i]);
                assert(is_blank(bv.drop_first()[i - 1]));
            }
        }
    }
}

proof fn lemma_min_indent_push(bv: Seq<Seq<char>>, k: int)
    requires
        0 <= k < bv.len(),
    ensures
        min_indent_spec(bv.subrange(0, k + 1)) == (if is_blank(bv[k]) {
            min_indent_spec(bv.subrange(0, k))
        } else {
            match min_indent_spec(bv.subrange(0, k)) {
                Option::None => Some(tab_space_prefix(bv[k])),
                Option::Some(m) => Some(
                    if tab_space_prefix(bv[k]) < m {
                        tab_space_prefix(bv[k])
                    } else {
                        m
                    },
                ),
            }
        }),
    decreases k,
{
    if k == 0 {
        assert(bv.subrange(0, 1).drop_first() =~= bv.subrange(0, 0));
        assert(bv.subrange(0, 0) =~= Seq::<Seq<char>>::empty());
        assert(bv.subrange(0, 1)[0] == bv[0]);
    } else {
        lemma_min_indent_push(bv.drop_first(), k - 1);
        assert(bv.subrange(0, k + 1).drop_first() =~= bv.drop_first().subrange(0, k));
        assert(bv.subrange(0, k).drop_first() =~= bv.drop_first().subrange(0, k - 1));
        assert(bv.subrange(0, k + 1)[0] == bv[0]);
        assert(bv.subrange(0, k)[0] == bv[0]);
        assert(bv.drop_first()[k - 1] == bv[k]);
    }
}

/// Extend the document so it ends with a full blank-line gap.
fn ensure_block_gap(md: Vec<char>) -> (r: Vec<char>)
    ensures
        r@ == ensure_gap_spec(md@),
{
    let mut md1 = md;
    if md1.len() == 0 {
        return md1;
    }
    if md1.len() >= 2 && md1[md1.len() - 1] == '\n' && md1[md1.len() - 2] == '\n' {
        return md1;
    }
    if md1[md1.len() - 1] == '\n' {
        crate::text::append_str(&mut md1, "\n");
    } else {
        crate::text::append_str(&mut md1, "\n\n");
    }
    md1
}

/// Flush the accumulated paragraph into the document.
fn flush_paragraph(md: Vec<char>, para: &Vec<char>) -> (r: (Vec<char>, bool))
    ensures
        (r.0@, r.1) == flush_para_spec(md@, para@),
{
    let t = trim(para);
    if t.len() == 0 {
        return (md, false);
    }
    let mut md1 = md;
    if md1.len() > 0 && md1[md1.len() - 1] != '\n' {
        crate::text::append_str(&mut md1, "\n");
    }
    if md1.len() > 0 {
        crate::text::append_str(&mut md1, "\n");
    }
    crate::text::append(&mut md1, &t);
    crate::text::append_str(&mut md1, "\n\n");
    proof {
        assert(md1@ =~= flush_para_spec(md@, para@).0);
    }
    (md1, true)
}

/// Render one documentation block into the document, from index `i` on.
fn doc_block(
    texts: &Vec<Vec<char>>,
    i: usize,
    fence_open: bool,
    contains_text: bool,
    para: Vec<char>,
    in_list: bool,
    md: Vec<char>,
) -> (r: (bool, Vec<char>))
    requires
        i <= texts@.len(),
    ensures
        (r.0, r.1@) == doc_block_loop(
            views(texts@),
            i as int,
            fence_open,
            contains_text,
            para@,
            in_list,
            md@,
        ),
    decreases texts@.len() - i,
{
    if i >= texts.len() {
        let pair = flush_paragraph(md, &para);
        let ct1 = contains_text || pair.1;
        let md2 = if in_list {
            ensure_block_gap(pair.0)
        } else {
            pair.0
        };
        let mut md3 = md2;
        if fence_open {
            crate::text::append_str(&mut md3, "```\n\n");
        }
        return (ct1, md3);
    }
    let text = &texts[i];
    let te = trim_end(text);
    let ts = trim_start(&te);
    proof {
        assert(views(texts@)[i as int] == texts@[i as int]@);
    }
    if starts_with_str(&ts, "```") {
        proof {
            reveal_strlit("```");
        }
        let pair = flush_paragraph(md, &para);
        let ct1 = contains_text || pair.1;
        let tail = subrange_vec(&ts, 3, ts.len());
        let lang = trim(&tail);
        let mut md2 = pair.0;
        match normalize_doc_lang(&lang) {
            Option::Some(mapped) => {
                if fence_open {
                    crate::text::append_str(&mut md2, "```\n\n");
                } else {
                    crate::text::append_str(&mut md2, "```");
                    crate::text::append_str(&mut md2, mapped.as_str());
                    crate::text::append_str(&mut md2, "\n");
                }
            },
            Option::None => {
                crate::text::append(&mut md2, &ts);
                crate::text::append_str(&mut md2, "\n");
            },
        }
        doc_block(texts, i + 1, !fence_open, ct1, Vec::new(), false, md2)
    } else if fence_open {
        let tes = trim_start(&te);
        let mut md1 = md;
        if !starts_with_str(&tes, "#") {
            crate::text::append(&mut md1, &te);
            crate::text::append_str(&mut md1, "\n");
        }
        doc_block(texts, i + 1, fence_open, contains_text, para, in_list, md1)
    } else if ts.len() == 0 {
        let pair = flush_paragraph(md, &para);
        let ct1 = contains_text || pair.1;
        let md2 = if in_list {
            ensure_block_gap(pair.0)
        } else {
            pair.0
        };
        doc_block(texts, i + 1, fence_open, ct1, Vec::new(), false, md2)
    } else if is_list_item(&ts) {
        let pair = flush_paragraph(md, &para);
        let md2 = if !in_list {
            ensure_block_gap(pair.0)
        } else {
            pair.0
        };
        let mut md3 = md2;
        crate::text::append(&mut md3, &te);
        crate::text::append_str(&mut md3, "\n");
        doc_block(texts, i + 1, fence_open, true, Vec::new(), true, md3)
    } else {
        let md1 = if in_list {
            ensure_block_gap(md)
        } else {
            md
        };
        let mut para1 = para;
        if para1.len() > 0 {
            crate::text::append_str(&mut para1, " ");
        }
        crate::text::append(&mut para1, &ts);
        doc_block(texts, i + 1, fence_open, contains_text, para1, false, md1)
    }
}

proof fn lemma_doc_run_bounds(ls: Seq<Seq<char>>, i: int)
    requires
        0 <= i,
    ensures
        i <= doc_run_end(ls, i) <= (if i <= ls.len() {
            ls.len() as int
        } else {
            i
        }),
    decreases ls.len() - i,
{
    if i < ls.len() && is_doc_comment_spec(trim_start_spec(ls[i])) {
        lemma_doc_run_bounds(ls, i + 1);
    }
}

proof fn lemma_doc_run_skip(ls: Seq<Seq<char>>, from: int, upto: int)
    requires
        0 <= from <= upto,
        forall|j: int|
            from <= j < upto ==> is_doc_comment_spec(trim_start_spec(#[trigger] ls[j])),
        upto >= ls.len() || !is_doc_comment_spec(trim_start_spec(ls[upto])),
        upto <= ls.len(),
    ensures
        doc_run_end(ls, from) == upto,
    decreases upto - from,
{
    if from < upto {
        lemma_doc_run_skip(ls, from + 1, upto);
    }
}

/// Test whether a raw line opens a documentation comment.
fn line_is_doc(l: &Vec<char>) -> (r: bool)
    ensures
        r == is_doc_comment_spec(trim_start_spec(l@)),
{
    let t = trim_start(l);
    is_doc_comment(&t)
}

/// Convert the remaining lines into document text, from index `i` on.
fn md_convert(
    ls: &Vec<Vec<char>>,
    i: usize,
    in_code: bool,
    need_gap: bool,
    buf: Vec<Vec<char>>,
    md: Vec<char>,
) -> (r: Vec<char>)
    requires
        i <= ls@.len(),
    ensures
        r@ == md_loop(views(ls@), i as int, in_code, need_gap, views(buf@), md@),
    decreases ls@.len() - i,
{
    let ghost lv = views(ls@);
    if i >= ls.len() {
        let pair = flush_code(md, &buf, need_gap);
        return pair.0;
    }
    let line = &ls[i];
    let trimmed = trim_start(line);
    proof {
        assert(lv[i as int] == ls@[i as int]@);
    }
    if is_doc_comment(&trimmed) {
        let mut j: usize = i + 1;
        while j < ls.len() && line_is_doc(&ls[j])
            invariant
                i + 1 <= j <= lv.len(),
                lv == views(ls@),
                forall|k: int|
                    i + 1 <= k < j ==> is_doc_comment_spec(trim_start_spec(#[trigger] lv[k])),
            decreases ls.len() - j,
        {
            j = j + 1;
        }
        proof {
            lemma_doc_run_skip(lv, i + 1, j as int);
        }
        let is_inner = starts_with_str(&trimmed, "///");
        let text0 = doc_text(line);
        let t0 = trim(&text0);
        let inline = in_code && is_inner && j == i + 1 && t0.len() > 0;
        if inline {
            let mut piece = doc_indent(line);
            crate::text::append_str(&mut piece, "// ");
            crate::text::append(&mut piece, &t0);
            let mut buf2 = buf;
            buf2.push(piece);
            proof {
                assert(views(buf2@) =~= views(buf@).push(
                    doc_indent_spec(lv[i as int]) + "// "@ + trim_spec(doc_text_spec(lv[i as int])),
                ));
            }
            md_convert(ls, i + 1, in_code, need_gap, buf2, md)
        } else {
            let pair = flush_code(md, &buf, need_gap);
            let mut texts: Vec<Vec<char>> = Vec::new();
            let mut k: usize = i;
            while k < j
                invariant
                    i <= k <= j <= lv.len(),
                    lv == views(ls@),
                    views(texts@) == lv.subrange(i as int, k as int).map_values(
                        |l: Seq<char>| doc_text_spec(l),
                    ),
                    texts@.len() == k - i,
                decreases j - k,
            {
                let ghost pre = views(texts@);
                texts.push(doc_text(&ls[k]));
                proof {
                    assert forall|w: int| 0 <= w < k + 1 - i implies #[trigger] views(texts@)[w]
                        == lv.subrange(i as int, k + 1 - i + i).map_values(
                        |l: Seq<char>| doc_text_spec(l),
                    )[w] by {
                        assert(views(texts@)[w] == texts@[w]@);
                        if w < k - i {
                            assert(texts@[w]@ == pre[w]);
                        }
                    }
                    assert(views(texts@) =~= lv.subrange(i as int, k + 1).map_values(
                        |l: Seq<char>| doc_text_spec(l),
                    ));
                }
                k = k + 1;
            }
            let empty_para: Vec<char> = Vec::new();
            proof {
                assert(empty_para@ =~= Seq::<char>::empty());
            }
            let db = doc_block(&texts, 0, false, false, empty_para, false, pair.0);
            let empty_buf: Vec<Vec<char>> = Vec::new();
            let r = md_convert(ls, j, false, db.0, empty_buf, db.1);
            proof {
                assert(views(empty_buf@) =~= Seq::<Seq<char>>::empty());
                assert(md_loop_at(lv, j as int, false, db.0, Seq::empty(), db.1@, i as int) == r@);
            }
            r
        }
    } else if trimmed.len() == 0 {
        if in_code {
            let mut buf2 = buf;
            buf2.push(Vec::new());
            proof {
                assert(views(buf2@) =~= views(buf@).push(Seq::<char>::empty()));
            }
            md_convert(ls, i + 1, in_code, need_gap, buf2, md)
        } else {
            let mut md1 = md;
            if md1.len() > 0 && md1[md1.len() - 1] != '\n' {
                crate::text::append_str(&mut md1, "\n");
            }
            md_convert(ls, i + 1, in_code, need_gap, buf, md1)
        }
    } else {
        let mut buf2 = buf;
        buf2.push(clone_chars(line));
        proof {
            assert(views(buf2@) =~= views(buf@).push(lv[i as int]));
        }
        md_convert(ls, i + 1, true, need_gap, buf2, md)
    }
}

/// One step of blank-line normalisation, over the document's lines. Blank
/// runs collapse to one blank line, and a blank line vanishes directly
/// inside a fence boundary.
pub open spec fn normalize_loop(ls: Seq<Seq<char>>, i: int, in_fence: bool, acc: Seq<Seq<char>>) -> Seq<
    Seq<char>,
>
    decreases ls.len() - i,
{
    if i < 0 || i >= ls.len() {
        acc
    } else {
        let line = ls[i];
        let t = trim_spec(line);
        if has_prefix(t, "```"@) {
            let acc2 = if in_fence && acc.len() > 0 && is_blank(acc.last()) {
                acc.drop_last()
            } else {
                acc
            };
            normalize_loop(ls, i + 1, !in_fence, acc2.push(line))
        } else if t.len() == 0 {
            if acc.len() > 0 && is_blank(acc.last()) {
                normalize_loop(ls, i + 1, in_fence, acc)
            } else if in_fence && i + 1 < ls.len() && has_prefix(trim_spec(ls[i + 1]), "```"@) {
                normalize_loop(ls, i + 1, in_fence, acc)
            } else {
                normalize_loop(ls, i + 1, in_fence, acc.push(Seq::empty()))
            }
        } else {
            normalize_loop(ls, i + 1, in_fence, acc.push(line))
        }
    }
}

/// Normalise blank runs in the document.
pub open spec fn normalize_spacing_spec(s: Seq<char>) -> Seq<char> {
    join_spec(normalize_loop(lines_spec(s), 0, false, Seq::empty()), "\n"@)
}

/// Normalise the document's blank lines, from line `i` on.
fn normalize_from(ls: &Vec<Vec<char>>, i: usize, in_fence: bool, acc: Vec<Vec<char>>) -> (r: Vec<
    Vec<char>,
>)
    requires
        i <= ls@.len(),
    ensures
        views(r@) == normalize_loop(views(ls@), i as int, in_fence, views(acc@)),
    decreases ls@.len() - i,
{
    let ghost lv = views(ls@);
    if i >= ls.len() {
        return acc;
    }
    let line = &ls[i];
    let t = trim(line);
    proof {
        assert(lv[i as int] == ls@[i as int]@);
    }
    if starts_with_str(&t, "```") {
        let mut acc2 = acc;
        if in_fence && acc2.len() > 0 && blank(&acc2[acc2.len() - 1]) {
            proof {
                assert(views(acc2@).last() == acc2@[acc2@.len() - 1]@);
            }
            acc2.pop();
            proof {
                assert(views(acc2@) =~= views(acc@).drop_last());
            }
        }
        acc2.push(clone_chars(line));
        proof {
            assert(views(acc2@) =~= (if in_fence && views(acc@).len() > 0 && is_blank(
                views(acc@).last(),
            ) {
                views(acc@).drop_last()
            } else {
                views(acc@)
            }).push(lv[i as int]));
        }
        normalize_from(ls, i + 1, !in_fence, acc2)
    } else if t.len() == 0 {
        let last_blank = acc.len() > 0 && blank(&acc[acc.len() - 1]);
        proof {
            if acc@.len() > 0 {
                assert(views(acc@).last() == acc@[acc@.len() - 1]@);
            }
        }
        if last_blank {
            normalize_from(ls, i + 1, in_fence, acc)
        } else {
            let next_closing = if in_fence && i + 1 < ls.len() {
                let tn = trim(&ls[i + 1]);
                proof {
                    assert(lv[i + 1] == ls@[i + 1]@);
                }
                starts_with_str(&tn, "```")
            } else {
                false
            };
            if next_closing {
                normalize_from(ls, i + 1, in_fence, acc)
            } else {
                let mut acc2 = acc;
                acc2.push(Vec::new());
                proof {
                    assert(views(acc2@) =~= views(acc@).push(Seq::<char>::empty()));
                }
                normalize_from(ls, i + 1, in_fence, acc2)
            }
        }
    } else {
        let mut acc2 = acc;
        acc2.push(clone_chars(line));
        proof {
            assert(views(acc2@) =~= views(acc@).push(lv[i as int]));
        }
        normalize_from(ls, i + 1, in_fence, acc2)
    }
}

/// The whole document conversion: lines processed into prose and fenced
/// code, blank runs normalised, the result trimmed.
pub open spec fn rust_to_markdown_spec(s: Seq<char>) -> Seq<char> {
    trim_spec(
        normalize_spacing_spec(
            md_loop(lines_spec(s), 0, false, false, Seq::empty(), Seq::empty()),
        ),
    )
}

/// Convert rendered skeleton text into a prose-and-code-block document.
pub fn rust_to_markdown(source: &str) -> (r: String)
    ensures
        r@ == rust_to_markdown_spec(source@),
{
    let cs = chars_of(source);
    let ls = lines(&cs);
    let empty_buf: Vec<Vec<char>> = Vec::new();
    let empty_md: Vec<char> = Vec::new();
    proof {
        assert(views(empty_buf@) =~= Seq::<Seq<char>>::empty());
        assert(empty_md@ =~= Seq::<char>::empty());
    }
    let md = md_convert(&ls, 0, false, false, empty_buf, empty_md);
    let md_s = string_of(&md);
    let md_lines = lines(&chars_of(md_s.as_str()));
    let empty_acc: Vec<Vec<char>> = Vec::new();
    proof {
        assert(views(empty_acc@) =~= Seq::<Seq<char>>::empty());
    }
    let norm = normalize_from(&md_lines, 0, false, empty_acc);
    proof {
        reveal_strlit("\n");
    }
    let sep = chars_of("\n");
    let joined = crate::text::join(&norm, &sep);
    let trimmed = trim(&joined);
    string_of(&trimmed)
}

/// The outermost wrapping module construct removed, when the text is shaped
/// as one: the first line opens a module, the last closes it.
pub open spec fn strip_outer_spec(s: Seq<char>) -> Seq<char> {
    let t = trim_spec(s);
    let ls = lines_spec(t);
    if ls.len() >= 2 && has_prefix(trim_spec(ls[0]), "pub mod "@) && trim_spec(ls[0]).len() > 0
        && trim_spec(ls[0]).last() == '{' && trim_spec(ls.last()) == "}"@ {
        join_spec(ls.subrange(1, ls.len() - 1), "\n"@) + "\n"@
    } else {
        t
    }
}

/// Strip a single outermost wrapping module construct.
pub fn strip_outer_module(source: &str) -> (r: String)
    ensures
        r@ == strip_outer_spec(source@),
{
    let cs = chars_of(source);
    let tcs = trim(&cs);
    let ls = lines(&tcs);
    let ghost lv = views(ls@);
    if ls.len() >= 2 {
        let first = trim(&ls[0]);
        let last = trim(&ls[ls.len() - 1]);
        proof {
            assert(lv[0] == ls@[0]@);
            assert(lv.last() == ls@[ls@.len() - 1]@);
        }
        if starts_with_str(&first, "pub mod ") && first.len() > 0 && first[first.len() - 1] == '{'
            && crate::text::eq_str(&last, "}") {
            let mut inner: Vec<Vec<char>> = Vec::new();
            let mut k: usize = 1;
            while k < ls.len() - 1
                invariant
                    1 <= k <= lv.len() - 1,
                    lv == views(ls@),
                    lv.len() >= 2,
                    views(inner@) == lv.subrange(1, k as int),
                    inner@.len() == k - 1,
                decreases ls.len() - k,
            {
                let ghost pre = views(inner@);
                inner.push(clone_chars(&ls[k]));
                proof {
                    assert(views(inner@) =~= lv.subrange(1, k + 1));
                }
                k = k + 1;
            }
            proof {
                reveal_strlit("\n");
            }
            let sep = chars_of("\n");
            let mut joined = crate::text::join(&inner, &sep);
            crate::text::append_str(&mut joined, "\n");
            proof {
                assert(lv.subrange(1, lv.len() - 1) =~= views(inner@));
            }
            return string_of(&joined);
        }
        proof {
            assert(tcs@ == strip_outer_spec(source@));
        }
        return string_of(&tcs);
    }
    proof {
        assert(tcs@ == strip_outer_spec(source@));
    }
    string_of(&tcs)
}

/// Render formatted skeleton text into a document by stripping the outer
/// module and converting documentation comments and code runs.
pub fn render_markdown(source: &str) -> (r: String)
    ensures
        r@ == rust_to_markdown_spec(strip_outer_spec(source@)),
{
    let without_outer = strip_outer_module(source);
    rust_to_markdown(without_outer.as_str())
}

} // verus!
