//! Character-sequence utilities.
//!
//! All rendering and analysis in this crate works over `Vec<char>`, whose
//! view is a `Seq<char>` just like the view of `String`, so contracts about
//! text can be stated uniformly. The functions here convert between the two
//! representations and provide the verified building blocks (append, compare,
//! search) that the rest of the crate uses.

use vstd::prelude::*;

verus! {

use vstd::std_specs::iter::IteratorSpec;

broadcast use vstd::string::next_postcondition, vstd::string::axiom_spec_iter;

/// Collect the characters of a string slice, in order.
pub fn chars_of(s: &str) -> (r: Vec<char>)
    ensures
        r@ == s@,
{
    let mut it = s.chars();
    let mut out: Vec<char> = Vec::new();
    loop
        invariant
            out@ + it.remaining() == s@,
            it.decrease() is Some,
        ensures
            out@ == s@,
        decreases it.decrease()->0,
    {
        match it.next() {
            Some(c) => {
                out.push(c);
                proof {
                    assert(out@ + it.remaining() =~= s@);
                }
            }
            None => {
                proof {
                    assert(it.obeys_prophetic_iter_laws());
                    assert(it.remaining().len() == 0);
                    assert(out@ + it.remaining() =~= out@);
                }
                break;
            }
        }
    }
    out
}

/// Relies on `String`'s `FromIterator<char>` implementation: collecting
/// characters yields the string made of exactly those characters in order.
#[verifier::external_body]
pub fn string_of(v: &Vec<char>) -> (r: String)
    ensures
        r@ == v@,
{
    v.iter().collect()
}

/// Relies on `String::push_str`: appends the slice onto the end of the string.
#[verifier::external_body]
pub fn push_str(out: &mut String, piece: &str)
    ensures
        final(out)@ == old(out)@ + piece@,
{
    out.push_str(piece)
}

/// Append every character of `piece` to `out`.
pub fn append(out: &mut Vec<char>, piece: &Vec<char>)
    ensures
        final(out)@ == old(out)@ + piece@,
{
    let mut i: usize = 0;
    while i < piece.len()
        invariant
            i <= piece.len(),
            out@ == old(out)@ + piece@.subrange(0, i as int),
        decreases piece.len() - i,
    {
        out.push(piece[i]);
        i = i + 1;
        proof {
            assert(old(out)@ + piece@.subrange(0, i - 1) + seq![piece@[i - 1]] =~= old(out)@
                + piece@.subrange(0, i as int));
        }
    }
    proof {
        assert(piece@.subrange(0, piece@.len() as int) =~= piece@);
    }
}

/// Append every character of the string slice `s` to `out`.
pub fn append_str(out: &mut Vec<char>, s: &str)
    ensures
        final(out)@ == old(out)@ + s@,
{
    let piece = chars_of(s);
    append(out, &piece);
}

/// Compare two character vectors for (view) equality.
pub fn eq_chars(a: &Vec<char>, b: &Vec<char>) -> (r: bool)
    ensures
        r == (a@ == b@),
{
    if a.len() != b.len() {
        return false;
    }
    let mut i: usize = 0;
    while i < a.len()
        invariant
            i <= a.len(),
            a@.len() == b@.len(),
            forall|j: int| 0 <= j < i ==> a@[j] == b@[j],
        decreases a.len() - i,
    {
        if a[i] != b[i] {
            return false;
        }
        i = i + 1;
    }
    proof {
        assert(a@ =~= b@);
    }
    true
}

/// Compare a character vector with a string slice.
pub fn eq_str(a: &Vec<char>, s: &str) -> (r: bool)
    ensures
        r == (a@ == s@),
{
    let b = chars_of(s);
    eq_chars(a, &b)
}

/// Copy a range of characters out of a vector.
pub fn subrange_vec(a: &Vec<char>, from: usize, to: usize) -> (r: Vec<char>)
    requires
        from <= to <= a@.len(),
    ensures
        r@ == a@.subrange(from as int, to as int),
{
    let mut out: Vec<char> = Vec::new();
    let mut i: usize = from;
    while i < to
        invariant
            from <= i <= to <= a@.len(),
            out@ == a@.subrange(from as int, i as int),
        decreases to - i,
    {
        out.push(a[i]);
        i = i + 1;
        proof {
            assert(a@.subrange(from as int, i - 1).push(a@[i - 1]) =~= a@.subrange(
                from as int,
                i as int,
            ));
        }
    }
    out
}

/// Copy a whole character vector.
pub fn clone_chars(a: &Vec<char>) -> (r: Vec<char>)
    ensures
        r@ == a@,
{
    let r = subrange_vec(a, 0, a.len());
    proof {
        assert(a@.subrange(0, a@.len() as int) =~= a@);
    }
    r
}

/// True when `p` is a prefix of `s`.
pub open spec fn has_prefix(s: Seq<char>, p: Seq<char>) -> bool {
    p.len() <= s.len() && s.subrange(0, p.len() as int) == p
}

/// True when `p` is a suffix of `s`.
pub open spec fn has_suffix(s: Seq<char>, p: Seq<char>) -> bool {
    p.len() <= s.len() && s.subrange(s.len() - p.len(), s.len() as int) == p
}

/// Check whether `p` occurs in `a` starting at position `i`.
pub open spec fn matches_at(s: Seq<char>, p: Seq<char>, i: int) -> bool {
    0 <= i && i + p.len() <= s.len() && s.subrange(i, i + p.len()) == p
}

/// Test `matches_at` executably.
pub fn match_at(a: &Vec<char>, p: &Vec<char>, i: usize) -> (r: bool)
    ensures
        r == matches_at(a@, p@, i as int),
{
    if i > a.len() || a.len() - i < p.len() {
        proof {
            assert(!matches_at(a@, p@, i as int));
        }
        return false;
    }
    let mut j: usize = 0;
    while j < p.len()
        invariant
            j <= p@.len(),
            i + p@.len() <= a@.len(),
            a@.len() <= usize::MAX,
            forall|k: int| 0 <= k < j ==> a@[i + k] == p@[k],
        decreases p.len() - j,
    {
        proof {
            assert(i + j < a@.len());
        }
        if a[i + j] != p[j] {
            proof {
                assert(a@.subrange(i as int, i + p@.len())[j as int] == a@[i + j]);
                assert(a@.subrange(i as int, i + p@.len()) != p@);
            }
            return false;
        }
        j = j + 1;
    }
    proof {
        assert(a@.subrange(i as int, i + p@.len()) =~= p@);
    }
    true
}

/// Does `p` begin `a`?
pub fn starts_with(a: &Vec<char>, p: &Vec<char>) -> (r: bool)
    ensures
        r == has_prefix(a@, p@),
{
    match_at(a, p, 0)
}

/// Does the string slice `p` begin `a`?
pub fn starts_with_str(a: &Vec<char>, p: &str) -> (r: bool)
    ensures
        r == has_prefix(a@, p@),
{
    let pv = chars_of(p);
    starts_with(a, &pv)
}

/// Does `p` end `a`?
pub fn ends_with(a: &Vec<char>, p: &Vec<char>) -> (r: bool)
    ensures
        r == has_suffix(a@, p@),
{
    if p.len() > a.len() {
        return false;
    }
    match_at(a, p, a.len() - p.len())
}

/// Does the string slice `p` end `a`?
pub fn ends_with_str(a: &Vec<char>, p: &str) -> (r: bool)
    ensures
        r == has_suffix(a@, p@),
{
    let pv = chars_of(p);
    ends_with(a, &pv)
}

/// The position of the first occurrence of `p` in `s` at or after `from`.
pub open spec fn first_match_from(s: Seq<char>, p: Seq<char>, from: int) -> Option<int>
    decreases s.len() - from,
{
    if p.len() == 0 || from < 0 || from + p.len() > s.len() {
        None
    } else if matches_at(s, p, from) {
        Some(from)
    } else {
        first_match_from(s, p, from + 1)
    }
}

proof fn lemma_first_match_skip(s: Seq<char>, p: Seq<char>, from: int, upto: int)
    requires
        0 <= from <= upto,
        forall|j: int| from <= j < upto ==> !matches_at(s, p, j),
    ensures
        first_match_from(s, p, from) == first_match_from(s, p, upto),
    decreases upto - from,
{
    if from < upto {
        if from + p.len() > s.len() {
            assert(upto + p.len() > s.len());
        } else {
            lemma_first_match_skip(s, p, from + 1, upto);
        }
    }
}

/// Find the first occurrence of `p` in `a` at or after `from`.
pub fn find_from(a: &Vec<char>, p: &Vec<char>, from: usize) -> (r: Option<usize>)
    ensures
        match r {
            Some(i) => first_match_from(a@, p@, from as int) == Some(i as int) && matches_at(
                a@,
                p@,
                i as int,
            ),
            None => first_match_from(a@, p@, from as int) is None,
        },
{
    if p.len() == 0 {
        return None;
    }
    let mut i: usize = from;
    loop
        invariant
            from <= i,
            p@.len() > 0,
            forall|j: int| from <= j < i ==> !matches_at(a@, p@, j),
        ensures
            match first_match_from(a@, p@, from as int) {
                Some(k) => i == k && matches_at(a@, p@, i as int),
                None => true,
            },
            first_match_from(a@, p@, from as int) is Some <==> matches_at(a@, p@, i as int),
        decreases a.len() + 1 - i,
    {
        if i > a.len() || a.len() - i < p.len() {
            proof {
                assert(!matches_at(a@, p@, i as int));
                lemma_first_match_skip(a@, p@, from as int, i as int);
            }
            break;
        }
        if match_at(a, p, i) {
            proof {
                lemma_first_match_skip(a@, p@, from as int, i as int);
            }
            break;
        }
        i = i + 1;
    }
    if match_at(a, p, i) {
        Some(i)
    } else {
        None
    }
}

/// Does `p` occur anywhere in `a`?
pub fn contains_seq(a: &Vec<char>, p: &Vec<char>) -> (r: bool)
    ensures
        r == (first_match_from(a@, p@, 0) is Some),
{
    find_from(a, p, 0).is_some()
}

/// Does the character `c` occur in `a`?
pub fn contains_char(a: &Vec<char>, c: char) -> (r: bool)
    ensures
        r == a@.contains(c),
{
    let mut i: usize = 0;
    while i < a.len()
        invariant
            i <= a@.len(),
            forall|j: int| 0 <= j < i ==> a@[j] != c,
        decreases a.len() - i,
    {
        if a[i] == c {
            return true;
        }
        i = i + 1;
    }
    false
}


/// The views of a sequence of character vectors.
pub open spec fn views(vs: Seq<Vec<char>>) -> Seq<Seq<char>> {
    vs.map_values(|v: Vec<char>| v@)
}

/// `strip_cr_spec` applied to every line.
pub open spec fn strip_cr_all(ls: Seq<Seq<char>>) -> Seq<Seq<char>> {
    ls.map_values(|l: Seq<char>| strip_cr_spec(l))
}

/// The pieces of `s` cut at every occurrence of the separator `p`.
pub open spec fn split_spec(s: Seq<char>, p: Seq<char>) -> Seq<Seq<char>>
    decreases s.len(),
{
    if p.len() == 0 {
        seq![s]
    } else {
        match first_match_from(s, p, 0) {
            None => seq![s],
            Some(i) => {
                if matches_at(s, p, i) {
                    seq![s.subrange(0, i)] + split_spec(s.subrange(i + p.len(), s.len() as int), p)
                } else {
                    seq![s]
                }
            },
        }
    }
}

/// Split `a` at every occurrence of `p`.
pub fn split(a: &Vec<char>, p: &Vec<char>) -> (r: Vec<Vec<char>>)
    requires
        p@.len() > 0,
    ensures
        views(r@) == split_spec(a@, p@),
{
    let mut out: Vec<Vec<char>> = Vec::new();
    let mut rest = clone_chars(a);
    loop
        invariant_except_break
            views(out@) + split_spec(rest@, p@) == split_spec(a@, p@),
        invariant
            p@.len() > 0,
        ensures
            views(out@) == split_spec(a@, p@),
        decreases rest@.len(),
    {
        let ghost pre = views(out@);
        match find_from(&rest, p, 0) {
            Some(i) => {
                let piece = subrange_vec(&rest, 0, i);
                let rest_len = rest.len();
                let new_rest = subrange_vec(&rest, i + p.len(), rest_len);
                proof {
                    assert(split_spec(rest@, p@) == seq![rest@.subrange(0, i as int)] + split_spec(
                        new_rest@,
                        p@,
                    ));
                }
                out.push(piece);
                proof {
                    assert(views(out@) =~= pre + seq![
                        rest@.subrange(0, i as int),
                    ]);
                    assert(pre + seq![rest@.subrange(0, i as int)] + split_spec(new_rest@, p@)
                        =~= pre + split_spec(rest@, p@));
                }
                rest = new_rest;
            }
            None => {
                proof {
                    assert(split_spec(rest@, p@) == seq![rest@]);
                }
                out.push(rest);
                proof {
                    assert(views(out@) =~= pre + seq![
                        out@[out@.len() - 1]@,
                    ]);
                    assert(pre + seq![out@[out@.len() - 1]@] + Seq::<Seq<char>>::empty() =~= pre
                        + seq![out@[out@.len() - 1]@]);
                }
                break;
            }
        }
    }
    out
}

/// Split `a` at every occurrence of the string slice `p`.
pub fn split_str(a: &Vec<char>, p: &str) -> (r: Vec<Vec<char>>)
    requires
        p@.len() > 0,
    ensures
        views(r@) == split_spec(a@, p@),
{
    let pv = chars_of(p);
    split(a, &pv)
}

/// The pieces joined with the separator `p` between them.
pub open spec fn join_spec(pieces: Seq<Seq<char>>, p: Seq<char>) -> Seq<char>
    decreases pieces.len(),
{
    if pieces.len() == 0 {
        Seq::empty()
    } else if pieces.len() == 1 {
        pieces[0]
    } else {
        pieces[0] + p + join_spec(pieces.drop_first(), p)
    }
}

proof fn lemma_join_push(pieces: Seq<Seq<char>>, x: Seq<char>, p: Seq<char>)
    requires
        pieces.len() > 0,
    ensures
        join_spec(pieces.push(x), p) == join_spec(pieces, p) + p + x,
    decreases pieces.len(),
{
    if pieces.len() == 1 {
        assert(pieces.push(x).drop_first() =~= seq![x]);
        assert(pieces.push(x)[0] == pieces[0]);
        assert(join_spec(seq![x], p) == x);
        assert(join_spec(pieces.push(x), p) == pieces[0] + p + x);
    } else {
        lemma_join_push(pieces.drop_first(), x, p);
        assert(pieces.push(x).drop_first() =~= pieces.drop_first().push(x));
        assert(join_spec(pieces, p) + p + x =~= pieces[0] + p + (join_spec(
            pieces.drop_first(),
            p,
        ) + p + x));
    }
}

/// Join the pieces with the separator `p` between them.
pub fn join(pieces: &Vec<Vec<char>>, p: &Vec<char>) -> (r: Vec<char>)
    ensures
        r@ == join_spec(views(pieces@), p@),
{
    let ghost pv = views(pieces@);
    let mut out: Vec<char> = Vec::new();
    let mut i: usize = 0;
    while i < pieces.len()
        invariant
            i <= pieces@.len(),
            pv == views(pieces@),
            out@ == join_spec(pv.subrange(0, i as int), p@),
        decreases pieces.len() - i,
    {
        let ghost pre = pv.subrange(0, i as int);
        if i > 0 {
            append(&mut out, p);
        }
        append(&mut out, &pieces[i]);
        proof {
            assert(pv.subrange(0, i + 1) =~= pre.push(pv[i as int]));
            if i == 0 {
                assert(join_spec(pre.push(pv[0]), p@) == pv[0]);
                assert(out@ =~= pv[0]);
            } else {
                lemma_join_push(pre, pv[i as int], p@);
            }
        }
        i = i + 1;
    }
    proof {
        assert(pv.subrange(0, pv.len() as int) =~= pv);
    }
    out
}

/// The views of a sequence of strings.
pub open spec fn string_views(vs: Seq<String>) -> Seq<Seq<char>> {
    vs.map_values(|v: String| v@)
}

/// Join strings with the separator `sep` between them.
pub fn join_strings(pieces: &Vec<String>, sep: &str) -> (r: String)
    ensures
        r@ == join_spec(string_views(pieces@), sep@),
{
    let ghost pv = string_views(pieces@);
    let mut out = String::new();
    let mut i: usize = 0;
    while i < pieces.len()
        invariant
            i <= pieces@.len(),
            pv == string_views(pieces@),
            out@ == join_spec(pv.subrange(0, i as int), sep@),
        decreases pieces.len() - i,
    {
        let ghost pre = pv.subrange(0, i as int);
        if i > 0 {
            push_str(&mut out, sep);
        }
        push_str(&mut out, pieces[i].as_str());
        proof {
            assert(pv.subrange(0, i + 1) =~= pre.push(pv[i as int]));
            if i == 0 {
                assert(join_spec(pre.push(pv[0]), sep@) == pv[0]);
                assert(out@ =~= pv[0]);
            } else {
                lemma_join_push(pre, pv[i as int], sep@);
            }
        }
        i = i + 1;
    }
    proof {
        assert(pv.subrange(0, pv.len() as int) =~= pv);
    }
    out
}

/// `s` with every occurrence of `p` removed.
pub open spec fn remove_all_spec(s: Seq<char>, p: Seq<char>) -> Seq<char> {
    join_spec(split_spec(s, p), Seq::empty())
}

/// Remove every occurrence of the string slice `p` from `a`.
pub fn remove_all(a: &Vec<char>, p: &str) -> (r: Vec<char>)
    requires
        p@.len() > 0,
    ensures
        r@ == remove_all_spec(a@, p@),
{
    let parts = split_str(a, p);
    let empty: Vec<char> = Vec::new();
    let r = join(&parts, &empty);
    proof {
        assert(empty@ =~= Seq::<char>::empty());
    }
    r
}

/// True when `p` occurs somewhere in `s`.
pub open spec fn contains_sub(s: Seq<char>, p: Seq<char>) -> bool {
    first_match_from(s, p, 0) is Some
}

proof fn lemma_first_match_iff(s: Seq<char>, p: Seq<char>, from: int)
    requires
        0 <= from,
        p.len() > 0,
    ensures
        (first_match_from(s, p, from) is Some) <==> exists|j: int|
            from <= j && matches_at(s, p, j),
    decreases s.len() - from,
{
    if from + p.len() > s.len() {
        assert forall|j: int| from <= j implies !matches_at(s, p, j) by {}
    } else if matches_at(s, p, from) {
    } else {
        lemma_first_match_iff(s, p, from + 1);
        if exists|j: int| from <= j && matches_at(s, p, j) {
            let j = choose|j: int| from <= j && matches_at(s, p, j);
            assert(from + 1 <= j && matches_at(s, p, j));
        }
    }
}

/// A pattern occurs somewhere in `s` exactly when some position matches it.
pub proof fn lemma_contains_sub_iff(s: Seq<char>, p: Seq<char>)
    requires
        p.len() > 0,
    ensures
        contains_sub(s, p) <==> exists|i: int| #[trigger] matches_at(s, p, i),
{
    lemma_first_match_iff(s, p, 0);
    if exists|i: int| #[trigger] matches_at(s, p, i) {
        let i = choose|i: int| #[trigger] matches_at(s, p, i);
        assert(0 <= i && matches_at(s, p, i));
    }
}

/// A one-character pattern occurs in `s` exactly when the character does.
pub proof fn lemma_contains_one(s: Seq<char>, c: char)
    ensures
        contains_sub(s, seq![c]) <==> s.contains(c),
{
    lemma_first_match_iff(s, seq![c], 0);
    assert forall|i: int| 0 <= i < s.len() implies (matches_at(s, seq![c], i) <==> s[i] == c) by {
        assert(s.subrange(i, i + 1) =~= seq![s[i]]);
        if matches_at(s, seq![c], i) {
            assert(s.subrange(i, i + 1)[0] == c);
        }
    }
    if s.contains(c) {
        let i = choose|i: int| 0 <= i < s.len() && s[i] == c;
        assert(matches_at(s, seq![c], i));
    }
    if contains_sub(s, seq![c]) {
        let j = choose|j: int| 0 <= j && matches_at(s, seq![c], j);
        assert(s[j] == c);
    }
}

/// The whitespace characters this crate recognises.
pub open spec fn is_ws(c: char) -> bool {
    c == ' ' || c == '\t' || c == '\n' || c == '\r'
}

/// Executable test for `is_ws`.
pub fn is_ws_char(c: char) -> (r: bool)
    ensures
        r == is_ws(c),
{
    c == ' ' || c == '\t' || c == '\n' || c == '\r'
}

/// The number of leading whitespace characters of `s`.
pub open spec fn ws_prefix_len(s: Seq<char>) -> int
    decreases s.len(),
{
    if s.len() == 0 {
        0
    } else if !is_ws(s[0]) {
        0
    } else {
        1 + ws_prefix_len(s.drop_first())
    }
}

proof fn lemma_ws_prefix(s: Seq<char>, i: int)
    requires
        0 <= i <= s.len(),
        forall|j: int| 0 <= j < i ==> is_ws(s[j]),
        i < s.len() ==> !is_ws(s[i]),
    ensures
        ws_prefix_len(s) == i,
    decreases s.len(),
{
    if s.len() == 0 {
    } else if i == 0 {
    } else {
        lemma_ws_prefix(s.drop_first(), i - 1);
    }
}

/// `s` without its leading whitespace.
pub open spec fn trim_start_spec(s: Seq<char>) -> Seq<char> {
    s.subrange(ws_prefix_len_clamped(s), s.len() as int)
}

/// `ws_prefix_len` is between 0 and the length; restated for use in subranges.
pub open spec fn ws_prefix_len_clamped(s: Seq<char>) -> int {
    ws_prefix_len(s)
}

/// Count the leading whitespace characters.
pub fn ws_count(a: &Vec<char>) -> (r: usize)
    ensures
        r == ws_prefix_len(a@),
        r <= a@.len(),
{
    let mut i: usize = 0;
    while i < a.len() && is_ws_char(a[i])
        invariant
            i <= a@.len(),
            forall|j: int| 0 <= j < i ==> is_ws(a@[j]),
        decreases a.len() - i,
    {
        i = i + 1;
    }
    proof {
        lemma_ws_prefix(a@, i as int);
    }
    i
}

/// Remove leading whitespace.
pub fn trim_start(a: &Vec<char>) -> (r: Vec<char>)
    ensures
        r@ == trim_start_spec(a@),
{
    let mut i: usize = 0;
    while i < a.len() && is_ws_char(a[i])
        invariant
            i <= a@.len(),
            forall|j: int| 0 <= j < i ==> is_ws(a@[j]),
        decreases a.len() - i,
    {
        i = i + 1;
    }
    proof {
        lemma_ws_prefix(a@, i as int);
    }
    subrange_vec(a, i, a.len())
}

/// The number of trailing whitespace characters of `s`.
pub open spec fn ws_suffix_len(s: Seq<char>) -> int
    decreases s.len(),
{
    if s.len() == 0 {
        0
    } else if !is_ws(s.last()) {
        0
    } else {
        1 + ws_suffix_len(s.drop_last())
    }
}

proof fn lemma_ws_suffix(s: Seq<char>, i: int)
    requires
        0 <= i <= s.len(),
        forall|j: int| i <= j < s.len() ==> is_ws(s[j]),
        i > 0 ==> !is_ws(s[i - 1]),
    ensures
        ws_suffix_len(s) == s.len() - i,
    decreases s.len(),
{
    if s.len() == 0 {
    } else if i == s.len() as int {
        assert(!is_ws(s.last()));
    } else {
        assert(is_ws(s[s.len() - 1]));
        assert(forall|j: int| i <= j < s.drop_last().len() ==> is_ws(s.drop_last()[j]));
        lemma_ws_suffix(s.drop_last(), i);
    }
}

/// `s` without its trailing whitespace.
pub open spec fn trim_end_spec(s: Seq<char>) -> Seq<char> {
    s.subrange(0, s.len() - ws_suffix_len(s))
}

/// Remove trailing whitespace.
pub fn trim_end(a: &Vec<char>) -> (r: Vec<char>)
    ensures
        r@ == trim_end_spec(a@),
{
    let mut i: usize = a.len();
    while i > 0 && is_ws_char(a[i - 1])
        invariant
            i <= a@.len(),
            forall|j: int| i <= j < a@.len() ==> is_ws(a@[j]),
        decreases i,
    {
        i = i - 1;
    }
    proof {
        lemma_ws_suffix(a@, i as int);
    }
    subrange_vec(a, 0, i)
}

/// `s` without leading and trailing whitespace.
pub open spec fn trim_spec(s: Seq<char>) -> Seq<char> {
    trim_start_spec(trim_end_spec(s))
}

/// Remove leading and trailing whitespace.
pub fn trim(a: &Vec<char>) -> (r: Vec<char>)
    ensures
        r@ == trim_spec(a@),
{
    let e = trim_end(a);
    trim_start(&e)
}

/// ASCII case folding for one character.
pub open spec fn fold_char(c: char) -> char {
    if 'A' <= c && c <= 'Z' {
        (((c as u8) + 32) as char)
    } else {
        c
    }
}

/// Fold the ASCII uppercase characters of `a` to lowercase.
pub fn fold_chars(a: &Vec<char>) -> (r: Vec<char>)
    ensures
        r@.len() == a@.len(),
        forall|i: int| 0 <= i < a@.len() ==> r@[i] == fold_char(a@[i]),
{
    let mut out: Vec<char> = Vec::new();
    let mut i: usize = 0;
    while i < a.len()
        invariant
            i <= a@.len(),
            out@.len() == i,
            forall|j: int| 0 <= j < i ==> out@[j] == fold_char(a@[j]),
        decreases a.len() - i,
    {
        let c = a[i];
        if 'A' <= c && c <= 'Z' {
            out.push(((c as u8) + 32) as char);
        } else {
            out.push(c);
        }
        i = i + 1;
    }
    out
}

/// The number of occurrences of `c` in `s`.
pub open spec fn count_char_spec(s: Seq<char>, c: char) -> nat
    decreases s.len(),
{
    if s.len() == 0 {
        0
    } else {
        count_char_spec(s.drop_last(), c) + (if s.last() == c {
            1nat
        } else {
            0nat
        })
    }
}

/// Count the occurrences of `c` in `a`.
pub fn count_char(a: &Vec<char>, c: char) -> (r: usize)
    ensures
        r == count_char_spec(a@, c),
{
    let mut n: usize = 0;
    let mut i: usize = 0;
    while i < a.len()
        invariant
            i <= a@.len(),
            n == count_char_spec(a@.subrange(0, i as int), c),
            n <= i,
        decreases a.len() - i,
    {
        proof {
            assert(a@.subrange(0, i + 1).drop_last() =~= a@.subrange(0, i as int));
        }
        if a[i] == c {
            n = n + 1;
        }
        i = i + 1;
    }
    proof {
        assert(a@.subrange(0, a@.len() as int) =~= a@);
    }
    n
}

/// The non-whitespace characters of `s`, in order.
pub open spec fn non_ws_spec(s: Seq<char>) -> Seq<char>
    decreases s.len(),
{
    if s.len() == 0 {
        Seq::empty()
    } else if is_ws(s.last()) {
        non_ws_spec(s.drop_last())
    } else {
        non_ws_spec(s.drop_last()).push(s.last())
    }
}

/// Keep only the non-whitespace characters of `a`.
pub fn non_ws(a: &Vec<char>) -> (r: Vec<char>)
    ensures
        r@ == non_ws_spec(a@),
{
    let mut out: Vec<char> = Vec::new();
    let mut i: usize = 0;
    while i < a.len()
        invariant
            i <= a@.len(),
            out@ == non_ws_spec(a@.subrange(0, i as int)),
        decreases a.len() - i,
    {
        proof {
            assert(a@.subrange(0, i + 1).drop_last() =~= a@.subrange(0, i as int));
        }
        if !is_ws_char(a[i]) {
            out.push(a[i]);
        }
        i = i + 1;
    }
    proof {
        assert(a@.subrange(0, a@.len() as int) =~= a@);
    }
    out
}

/// A line with its trailing carriage return removed.
pub open spec fn strip_cr_spec(l: Seq<char>) -> Seq<char> {
    if l.len() > 0 && l.last() == '\r' {
        l.drop_last()
    } else {
        l
    }
}

/// The lines of `s`: pieces cut at every newline, the final piece dropped
/// when `s` ends with a newline, each piece stripped of a trailing carriage
/// return. Mirrors how lines of source text are conventionally enumerated.
pub open spec fn lines_spec(s: Seq<char>) -> Seq<Seq<char>> {
    if s.len() == 0 {
        Seq::empty()
    } else {
        let parts = split_spec(s, seq!['\n']);
        let kept = if s.last() == '\n' {
            parts.drop_last()
        } else {
            parts
        };
        strip_cr_all(kept)
    }
}

/// Splitting always yields at least one piece.
pub proof fn lemma_split_len(s: Seq<char>, p: Seq<char>)
    requires
        p.len() > 0,
    ensures
        split_spec(s, p).len() > 0,
    decreases s.len(),
{
}

/// Cut `a` into lines.
pub fn lines(a: &Vec<char>) -> (r: Vec<Vec<char>>)
    ensures
        views(r@) == lines_spec(a@),
{
    if a.len() == 0 {
        let out: Vec<Vec<char>> = Vec::new();
        proof {
            assert(views(out@) =~= lines_spec(a@));
        }
        return out;
    }
    let sep: Vec<char> = vec!['\n'];
    proof {
        assert(sep@ =~= seq!['\n']);
    }
    let mut parts = split(a, &sep);
    let ghost parts0 = views(parts@);
    proof {
        lemma_split_len(a@, seq!['\n']);
    }
    if a[a.len() - 1] == '\n' {
        parts.pop();
        proof {
            assert(views(parts@) =~= parts0.drop_last());
        }
    }
    let ghost kept = views(parts@);
    let mut out: Vec<Vec<char>> = Vec::new();
    let mut i: usize = 0;
    while i < parts.len()
        invariant
            i <= parts@.len(),
            kept == views(parts@),
            out@.len() == i,
            views(out@) == strip_cr_all(kept.subrange(0, i as int)),
        decreases parts.len() - i,
    {
        let line = &parts[i];
        let stripped = if line.len() > 0 && line[line.len() - 1] == '\r' {
            subrange_vec(line, 0, line.len() - 1)
        } else {
            clone_chars(line)
        };
        proof {
            assert(line@ == kept[i as int]);
            assert(stripped@ == strip_cr_spec(kept[i as int])) by {
                if kept[i as int].len() > 0 && kept[i as int].last() == '\r' {
                    assert(stripped@ =~= kept[i as int].drop_last());
                }
            }
        }
        out.push(stripped);
        proof {
            assert forall|j: int| 0 <= j < i + 1 implies views(out@)[j] == strip_cr_all(
                kept.subrange(0, i + 1),
            )[j] by {
                assert(views(out@)[j] == out@[j]@);
                assert(strip_cr_all(kept.subrange(0, i + 1))[j] == strip_cr_spec(
                    kept.subrange(0, i + 1)[j],
                ));
                if j < i {
                    assert(out@[j]@ == strip_cr_all(kept.subrange(0, i as int))[j]);
                }
            }
            assert(views(out@) =~= strip_cr_all(kept.subrange(0, i + 1)));
        }
        i = i + 1;
    }
    proof {
        assert(kept.subrange(0, kept.len() as int) =~= kept);
        assert(views(out@) =~= lines_spec(a@));
    }
    out
}

} // verus!
