//! Classifying and rewriting the extension of a path's final component.
//!
//! The extension of a component is the part after its last `.`, except that
//! a component whose only `.` is its first character (a hidden file) has no
//! extension.

use vstd::prelude::*;
use crate::segments::seg_views;
use crate::segments::spec_segments;
use crate::segments::split_segments;

verus! {

/// Index of the last `.` in `name`, or `-1` if `name` has none.
pub open spec fn spec_last_dot(name: Seq<char>) -> int
    decreases name.len(),
{
    if name.len() == 0 {
        -1
    } else if name.last() == '.' {
        name.len() - 1
    } else {
        spec_last_dot(name.drop_last())
    }
}

/// The extension of a single path component, if it has one.
pub open spec fn spec_extension(name: Seq<char>) -> Option<Seq<char>> {
    let d = spec_last_dot(name);
    if d <= 0 {
        None
    } else {
        Some(name.skip(d + 1))
    }
}

/// Whether `e` equals `json` up to ASCII case.
pub open spec fn is_json_chars(e: Seq<char>) -> bool {
    &&& e.len() == 4
    &&& (e[0] == 'j' || e[0] == 'J')
    &&& (e[1] == 's' || e[1] == 'S')
    &&& (e[2] == 'o' || e[2] == 'O')
    &&& (e[3] == 'n' || e[3] == 'N')
}

/// Whether the final component of `path` carries a `json` extension,
/// compared case-insensitively. A path without components or without an
/// extension is not a JSON path.
pub open spec fn spec_is_json_path(path: Seq<char>) -> bool {
    let segs = spec_segments(path);
    &&& segs.len() > 0
    &&& match spec_extension(segs.last()) {
        Some(e) => is_json_chars(e),
        None => false,
    }
}

/// `spec_last_dot` finds a `.` within `name`, and nothing follows it but
/// non-`.` characters.
pub proof fn lemma_last_dot_range(name: Seq<char>)
    ensures
        -1 <= spec_last_dot(name) < name.len(),
        spec_last_dot(name) >= 0 ==> name[spec_last_dot(name)] == '.',
    decreases name.len(),
{
    if name.len() == 0 {
    } else if name.last() == '.' {
    } else {
        lemma_last_dot_range(name.drop_last());
    }
}

/// Finds the index of the last `.` in `name`, if any.
fn last_dot_index(name: &str) -> (r: Option<usize>)
    ensures
        match r {
            Some(d) => spec_last_dot(name@) == d as int,
            None => spec_last_dot(name@) == -1,
        },
{
    let len = name.unicode_len();
    let mut i: usize = len;
    proof {
        assert(name@.take(len as int) =~= name@);
    }
    while i > 0
        invariant
            i <= len,
            len == name@.len(),
            spec_last_dot(name@) == spec_last_dot(name@.take(i as int)),
        decreases i,
    {
        let c = name.get_char(i - 1);
        proof {
            let t = name@.take(i as int);
            assert(t.last() == c);
            assert(t.drop_last() =~= name@.take(i as int - 1));
        }
        if c == '.' {
            return Some(i - 1);
        }
        i = i - 1;
    }
    proof {
        assert(name@.take(0) =~= Seq::<char>::empty());
    }
    None
}

/// Whether the extension of the single component `name` is `json` up to
/// ASCII case.
fn component_has_json_extension(name: &str) -> (b: bool)
    ensures
        b == match spec_extension(name@) {
            Some(e) => is_json_chars(e),
            None => false,
        },
{
    let len = name.unicode_len();
    match last_dot_index(name) {
        None => false,
        Some(d) => {
            proof {
                lemma_last_dot_range(name@);
            }
            if d == 0 {
                false
            } else if len - d - 1 != 4 {
                false
            } else {
                let c0 = name.get_char(d + 1);
                let c1 = name.get_char(d + 2);
                let c2 = name.get_char(d + 3);
                let c3 = name.get_char(d + 4);
                (c0 == 'j' || c0 == 'J') && (c1 == 's' || c1 == 'S') && (c2 == 'o' || c2 == 'O')
                    && (c3 == 'n' || c3 == 'N')
            }
        },
    }
}

/// Whether the final component of `path` has extension `json`, compared
/// case-insensitively. A path without an extension is never a JSON path.
pub fn is_json_file_path(path: &str) -> (b: bool)
    ensures
        b == spec_is_json_path(path@),
{
    let segs = split_segments(path);
    if segs.len() == 0 {
        return false;
    }
    let name = &segs[segs.len() - 1];
    proof {
        assert(seg_views(segs@).last() == name@);
    }
    component_has_json_extension(name.as_str())
}

/// The component `name` with its extension replaced by `ext`; a component
/// without an extension gets `.` and `ext` appended.
pub open spec fn spec_set_extension(name: Seq<char>, ext: Seq<char>) -> Seq<char> {
    let d = spec_last_dot(name);
    let stem = if d <= 0 {
        name
    } else {
        name.take(d)
    };
    stem + seq!['.'] + ext
}

/// The canonical extension characters: `json` for JSON targets, `js` for
/// everything else.
pub open spec fn spec_ext_chars(json: bool) -> Seq<char> {
    if json {
        seq!['j', 's', 'o', 'n']
    } else {
        seq!['j', 's']
    }
}

/// Rewrites the extension of the single component `name` to `json` or `js`.
pub(crate) fn set_component_extension(name: &str, json: bool) -> (r: String)
    ensures
        r@ == spec_set_extension(name@, spec_ext_chars(json)),
{
    let len = name.unicode_len();
    proof {
        lemma_last_dot_range(name@);
    }
    let stem_end: usize = match last_dot_index(name) {
        Some(d) => if d > 0 {
            d
        } else {
            len
        },
        None => len,
    };
    let mut r = String::from_str(name.substring_char(0, stem_end));
    if json {
        r.append(".json");
    } else {
        r.append(".js");
    }
    proof {
        let d = spec_last_dot(name@);
        if d <= 0 {
            assert(name@.subrange(0, len as int) =~= name@);
        }
        if json {
            reveal_strlit(".json");
            assert(".json"@ =~= seq!['.'] + spec_ext_chars(true));
        } else {
            reveal_strlit(".js");
            assert(".js"@ =~= seq!['.'] + spec_ext_chars(false));
        }
        assert(r@ =~= spec_set_extension(name@, spec_ext_chars(json)));
    }
    r
}

} // verus!
