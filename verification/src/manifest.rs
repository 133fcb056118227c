//! Manifest text for temporary helper crates, and package-name
//! normalisation.

use vstd::prelude::*;

verus! {

use crate::text::{chars_of, join_spec, push_str, string_of, string_views};

/// `s` with every occurrence of `from` replaced by `to`, character-wise.
pub open spec fn swap_chars(s: Seq<char>, from: char, to: char) -> Seq<char> {
    s.map_values(|c: char| if c == from { to } else { c })
}

/// Replace every occurrence of one character.
fn swap_char(s: &str, from: char, to: char) -> (r: String)
    ensures
        r@ == swap_chars(s@, from, to),
{
    let cs = chars_of(s);
    let mut out: Vec<char> = Vec::new();
    let mut i: usize = 0;
    while i < cs.len()
        invariant
            i <= cs@.len(),
            cs@ == s@,
            out@.len() == i,
            forall|j: int| 0 <= j < i ==> out@[j] == (if s@[j] == from { to } else { s@[j] }),
        decreases cs.len() - i,
    {
        if cs[i] == from {
            out.push(to);
        } else {
            out.push(cs[i]);
        }
        i = i + 1;
    }
    proof {
        assert(out@ =~= swap_chars(s@, from, to));
    }
    string_of(&out)
}

/// Convert a package name into its canonical import form by replacing
/// hyphens with underscores.
pub fn to_import_name(package_name: &str) -> (r: String)
    ensures
        r@ == swap_chars(package_name@, '-', '_'),
{
    swap_char(package_name, '-', '_')
}

/// The feature list fragment of a generated manifest: each feature quoted,
/// the list bracketed; empty when no features are requested.
pub open spec fn features_fragment(features: Option<Seq<Seq<char>>>) -> Seq<char> {
    match features {
        Option::None => Seq::empty(),
        Option::Some(fs) => ", features = ["@ + join_spec(
            fs.map_values(|f: Seq<char>| "\""@ + f + "\""@),
            ", "@,
        ) + "]"@,
    }
}

/// The whole manifest text for a helper crate depending on `dependency`:
/// a fixed package header, then one dependency line with the package name
/// written with hyphens, the requested version (or any version), and the
/// requested features.
pub open spec fn dummy_manifest_spec(
    dependency: Seq<char>,
    version: Option<Seq<char>>,
    features: Option<Seq<Seq<char>>>,
) -> Seq<char> {
    "[package]\nname = \"dummy-crate\"\nversion = \"0.1.0\"\n\n[dependencies]\n"@ + swap_chars(
        dependency,
        '_',
        '-',
    ) + " = { version = \""@ + (match version {
        Option::None => "*"@,
        Option::Some(v) => v,
    }) + "\""@ + features_fragment(features) + " }\n"@
}

/// Construct a minimal manifest for a temporary crate that depends on
/// `dependency`.
pub fn generate_dummy_manifest(
    dependency: &str,
    version: Option<String>,
    features: Option<&Vec<String>>,
) -> (r: String)
    ensures
        r@ == dummy_manifest_spec(
            dependency@,
            match version {
                Option::None => Option::None,
                Option::Some(v) => Option::Some(v@),
            },
            match features {
                Option::None => Option::None,
                Option::Some(fs) => Option::Some(string_views(fs@)),
            },
        ),
{
    let mut out = crate::syntax::lit(
        "[package]\nname = \"dummy-crate\"\nversion = \"0.1.0\"\n\n[dependencies]\n",
    );
    push_str(&mut out, swap_char(dependency, '_', '-').as_str());
    push_str(&mut out, " = { version = \"");
    match &version {
        Option::None => push_str(&mut out, "*"),
        Option::Some(v) => push_str(&mut out, v.as_str()),
    }
    push_str(&mut out, "\"");
    match features {
        Option::None => {},
        Option::Some(fs) => {
            push_str(&mut out, ", features = [");
            let mut quoted: Vec<String> = Vec::new();
            let mut i: usize = 0;
            while i < fs.len()
                invariant
                    i <= fs@.len(),
                    quoted@.len() == i,
                    forall|j: int|
                        0 <= j < i ==> #[trigger] string_views(quoted@)[j] == "\""@ + string_views(
                            fs@,
                        )[j] + "\""@,
                decreases fs.len() - i,
            {
                let mut q = crate::syntax::lit("\"");
                push_str(&mut q, fs[i].as_str());
                push_str(&mut q, "\"");
                let ghost prev = quoted@;
                quoted.push(q);
                proof {
                    assert forall|j: int| 0 <= j < i + 1 implies #[trigger] string_views(
                        quoted@,
                    )[j] == "\""@ + string_views(fs@)[j] + "\""@ by {
                        assert(string_views(quoted@)[j] == quoted@[j]@);
                        assert(string_views(fs@)[j] == fs@[j]@);
                        if j < i {
                            assert(quoted@[j] == prev[j]);
                            assert(string_views(prev)[j] == prev[j]@);
                        }
                    }
                }
                i = i + 1;
            }
            proof {
                assert(string_views(quoted@) =~= string_views(fs@).map_values(
                    |f: Seq<char>| "\""@ + f + "\""@,
                ));
            }
            push_str(&mut out, crate::text::join_strings(&quoted, ", ").as_str());
            push_str(&mut out, "]");
        },
    }
    push_str(&mut out, " }\n");
    proof {
        assert(out@ =~= dummy_manifest_spec(
            dependency@,
            match version {
                Option::None => Option::None,
                Option::Some(v) => Option::Some(v@),
            },
            match features {
                Option::None => Option::<Seq<Seq<char>>>::None,
                Option::Some(fs) => Option::Some(string_views(fs@)),
            },
        ));
    }
    out
}

} // verus!
