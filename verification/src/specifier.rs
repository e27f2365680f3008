//! Canonical module specifiers: the relative diff rendered with forward
//! slashes, the target extension normalized to `.js` or `.json`, and an
//! explicit `./` prefix where the diff does not already start with `./` or
//! `../`.

use vstd::prelude::*;
use crate::diff::get_relative_path;
use crate::diff::has_containing_directory;
use crate::diff::lemma_lcp_bounds;
use crate::diff::spec_diff;
use crate::diff::spec_lcp;
use crate::extension::is_json_file_path;
use crate::extension::set_component_extension;
use crate::extension::spec_ext_chars;
use crate::extension::spec_is_json_path;
use crate::extension::spec_set_extension;
use crate::segments::join_segments;
use crate::segments::seg_views;
use crate::segments::spec_join;
use crate::segments::spec_segments;

verus! {

/// A backslash rendered as a forward slash; every other character kept.
pub open spec fn spec_forward(c: char) -> char {
    if c == '\\' {
        '/'
    } else {
        c
    }
}

/// `s` with every backslash rendered as a forward slash.
pub open spec fn spec_slashify(s: Seq<char>) -> Seq<char> {
    s.map(|i: int, c: char| spec_forward(c))
}

/// Whether `s` already starts with `./` or `../`.
pub open spec fn spec_starts_relative(s: Seq<char>) -> bool {
    ||| (s.len() >= 2 && s[0] == '.' && s[1] == '/')
    ||| (s.len() >= 3 && s[0] == '.' && s[1] == '.' && s[2] == '/')
}

/// The diff with its final component's extension rewritten to `json` or
/// `js`. An empty diff, or one that ends with an `..` step and so has no
/// final file name, is kept as it is.
pub open spec fn spec_rewrite_diff(d: Seq<Seq<char>>, json: bool) -> Seq<Seq<char>> {
    if d.len() == 0 || d.last() == seq!['.', '.'] {
        d
    } else {
        d.update(d.len() - 1, spec_set_extension(d.last(), spec_ext_chars(json)))
    }
}

/// The canonical specifier referencing `to` from the file `from`: the diff
/// from `from`'s containing directory to `to`, its extension normalized,
/// joined with `/`, backslashes rendered as `/`, and `./` prepended where
/// the result does not already start with `./` or `../`.
pub open spec fn spec_relative_specifier(from: Seq<char>, to: Seq<char>) -> Seq<char> {
    let d = spec_diff(spec_segments(from).drop_last(), spec_segments(to));
    let d2 = spec_rewrite_diff(d, spec_is_json_path(to));
    let j = spec_slashify(spec_join(d2));
    if spec_starts_relative(j) {
        j
    } else {
        seq!['.', '/'] + j
    }
}

/// Whether the component `s` is a single `..` step.
fn is_parent_step(s: &str) -> (b: bool)
    ensures
        b == (s@ == seq!['.', '.']),
{
    let len = s.unicode_len();
    if len != 2 {
        proof {
            assert(s@ != seq!['.', '.']);
        }
        return false;
    }
    let b = s.get_char(0) == '.' && s.get_char(1) == '.';
    proof {
        if b {
            assert(s@ =~= seq!['.', '.']);
        }
    }
    b
}

/// `s` with every backslash rendered as a forward slash.
fn slashify(s: &str) -> (r: String)
    ensures
        r@ == spec_slashify(s@),
{
    let len = s.unicode_len();
    let mut r = String::new();
    let mut i: usize = 0;
    proof {
        assert(r@ =~= spec_slashify(s@.take(0)));
    }
    while i < len
        invariant
            i <= len,
            len == s@.len(),
            r@ == spec_slashify(s@.take(i as int)),
        decreases len - i,
    {
        let ghost prev = r@;
        let c = s.get_char(i);
        if c == '\\' {
            r.append("/");
            proof {
                reveal_strlit("/");
                assert("/"@ =~= seq!['/']);
            }
        } else {
            let piece = s.substring_char(i, i + 1);
            r.append(piece);
            proof {
                assert(piece@ =~= seq![c]);
            }
        }
        proof {
            assert(r@ =~= prev.push(spec_forward(s@[i as int])));
            assert(spec_slashify(s@.take(i as int + 1)) =~= spec_slashify(s@.take(i as int)).push(
                spec_forward(s@[i as int]),
            ));
        }
        i = i + 1;
    }
    proof {
        assert(s@.take(len as int) =~= s@);
    }
    r
}

/// Whether `s` starts with `./` or `../`.
fn starts_relative(s: &str) -> (b: bool)
    ensures
        b == spec_starts_relative(s@),
{
    let len = s.unicode_len();
    if len >= 2 && s.get_char(0) == '.' && s.get_char(1) == '/' {
        true
    } else if len >= 3 && s.get_char(0) == '.' && s.get_char(1) == '.' && s.get_char(2) == '/' {
        true
    } else {
        false
    }
}

/// The module specifier that source text inside `from` should use to
/// reference `to`. The result always starts with `./` or `../`, contains
/// no backslash, and carries extension `.json` exactly when `to` is a JSON
/// path, `.js` otherwise. `from` must not be a filesystem root.
pub fn get_relative_specifier(from: &str, to: &str) -> (specifier: String)
    requires
        has_containing_directory(from@),
    ensures
        specifier@ == spec_relative_specifier(from@, to@),
        spec_starts_relative(specifier@),
        forall|i: int| 0 <= i < specifier@.len() ==> specifier@[i] != '\\',
{
    let mut d = get_relative_path(from, to);
    let json = is_json_file_path(to);
    let ghost dv = seg_views(d@);
    if d.len() > 0 && !is_parent_step(d[d.len() - 1].as_str()) {
        let idx = d.len() - 1;
        let renamed = set_component_extension(d[idx].as_str(), json);
        let _old = d.pop();
        d.push(renamed);
        proof {
            assert(seg_views(d@) =~= spec_rewrite_diff(dv, json));
        }
    } else {
        proof {
            assert(seg_views(d@) =~= spec_rewrite_diff(dv, json));
        }
    }
    let joined = join_segments(&d);
    let slashed = slashify(joined.as_str());
    proof {
        assert(forall|i: int|
            0 <= i < slashed@.len() ==> #[trigger] slashed@[i] != '\\') by {
            assert(forall|i: int|
                0 <= i < slashed@.len() ==> #[trigger] slashed@[i] == spec_forward(
                    joined@[i],
                ));
        }
    }
    if starts_relative(slashed.as_str()) {
        slashed
    } else {
        let mut r = String::from_str("./");
        r.append(slashed.as_str());
        proof {
            reveal_strlit("./");
            assert("./"@ =~= seq!['.', '/']);
            assert(r@ =~= seq!['.', '/'] + slashed@);
        }
        r
    }
}

/// A suffix of `s` is also a suffix of `prefix + s`.
proof fn lemma_suffix_after_prepend(prefix: Seq<char>, s: Seq<char>, suf: Seq<char>)
    requires
        suf.is_suffix_of(s),
    ensures
        suf.is_suffix_of(prefix + s),
{
    let whole = prefix + s;
    assert(suf =~= whole.subrange(whole.len() - suf.len(), whole.len() as int));
}

/// Rendering backslashes as forward slashes keeps any suffix that holds
/// no backslash.
proof fn lemma_suffix_slashify(s: Seq<char>, suf: Seq<char>)
    requires
        suf.is_suffix_of(s),
        forall|i: int| 0 <= i < suf.len() ==> suf[i] != '\\',
    ensures
        suf.is_suffix_of(spec_slashify(s)),
{
    let j = spec_slashify(s);
    assert(suf =~= j.subrange(j.len() - suf.len(), j.len() as int));
}

/// Extension normalization: wherever the diff from `from`'s containing
/// directory down to `to` ends in a named component (the target's file
/// name), the specifier's extension is exactly `.json` when `to`'s own
/// extension is `json` up to case, and exactly `.js` otherwise, whatever
/// extension `to` actually carried. The two excluded shapes are a target
/// that is an ancestor of `from`'s directory (the diff ends in a `..`
/// step or is empty) and a target whose final component is itself `..`:
/// there the diff has no file name to rewrite.
pub proof fn lemma_extension_normalized(from: Seq<char>, to: Seq<char>)
    requires
        has_containing_directory(from),
        spec_lcp(spec_segments(from).drop_last(), spec_segments(to)) < spec_segments(to).len(),
        spec_segments(to).last() != seq!['.', '.'],
    ensures
        spec_is_json_path(to) ==> seq!['.', 'j', 's', 'o', 'n'].is_suffix_of(
            spec_relative_specifier(from, to),
        ),
        !spec_is_json_path(to) ==> seq!['.', 'j', 's'].is_suffix_of(
            spec_relative_specifier(from, to),
        ),
{
    let p = spec_segments(from).drop_last();
    let t = spec_segments(to);
    let k = spec_lcp(p, t) as int;
    lemma_lcp_bounds(p, t);
    let json = spec_is_json_path(to);
    let d = spec_diff(p, t);
    assert(d.len() == (p.len() - k) + (t.len() - k));
    assert(d.last() == t.skip(k)[t.len() - k - 1]);
    assert(d.last() == t.last());
    let renamed = spec_set_extension(d.last(), spec_ext_chars(json));
    let d2 = spec_rewrite_diff(d, json);
    assert(d2.last() == renamed);
    let suf = seq!['.'] + spec_ext_chars(json);
    assert(suf.is_suffix_of(renamed)) by {
        assert(suf =~= renamed.subrange(renamed.len() - suf.len(), renamed.len() as int));
    }
    let j = spec_join(d2);
    assert(suf.is_suffix_of(j)) by {
        if d2.len() == 1 {
            assert(j == renamed);
        } else {
            assert(j == spec_join(d2.drop_last()) + seq!['/'] + d2.last());
            lemma_suffix_after_prepend(spec_join(d2.drop_last()) + seq!['/'], renamed, suf);
            assert((spec_join(d2.drop_last()) + seq!['/']) + renamed =~= j);
        }
    }
    assert(forall|i: int| 0 <= i < suf.len() ==> suf[i] != '\\');
    lemma_suffix_slashify(j, suf);
    let js = spec_slashify(j);
    if !spec_starts_relative(js) {
        lemma_suffix_after_prepend(seq!['.', '/'], js, suf);
    }
    if json {
        assert(suf =~= seq!['.', 'j', 's', 'o', 'n']);
    } else {
        assert(suf =~= seq!['.', 'j', 's']);
    }
}

/// Re-running the specifier computation with identical inputs yields an
/// identical output: the specifier is a function of the two paths alone,
/// with no hidden state.
pub proof fn lemma_specifier_deterministic(
    from: Seq<char>,
    to: Seq<char>,
    first: Seq<char>,
    second: Seq<char>,
)
    requires
        first == spec_relative_specifier(from, to),
        second == spec_relative_specifier(from, to),
    ensures
        first == second,
{
}

} // verus!
