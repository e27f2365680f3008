//! Converting a file-scheme URL, given as its decoded path segments, into
//! a native-looking absolute path string.
//!
//! File URLs for Windows paths carry the drive letter as their first path
//! segment (`file:///C:/...`), and the drive must not receive a leading
//! slash; every other file URL denotes a POSIX path and must.

use vstd::prelude::*;
use crate::segments::join_segments;
use crate::segments::seg_views;
use crate::segments::spec_join;

verus! {

/// Whether `c` is an ASCII letter.
pub open spec fn spec_is_ascii_letter(c: char) -> bool {
    ||| (65 <= c as u32 && c as u32 <= 90)
    ||| (97 <= c as u32 && c as u32 <= 122)
}

/// Whether `s` is a Windows drive-letter segment: exactly one ASCII letter
/// followed by `:` and nothing else.
pub open spec fn spec_is_windows_segment(s: Seq<char>) -> bool {
    s.len() == 2 && spec_is_ascii_letter(s[0]) && s[1] == ':'
}

/// The path denoted by the segments of a file URL: the segments joined
/// with `/`, with a leading `/` unless the first segment is a Windows
/// drive letter.
pub open spec fn spec_url_file_path(segs: Seq<Seq<char>>) -> Seq<char> {
    if segs.len() > 0 && spec_is_windows_segment(segs[0]) {
        spec_join(segs)
    } else {
        seq!['/'] + spec_join(segs)
    }
}

/// A URL whose scheme is `file`, decomposed into its decoded path
/// segments. The scheme is carried so that the conversion can state its
/// precondition; a well-formed module graph only ever holds file URLs.
pub struct FileUrl {
    /// The URL's scheme; must be exactly `file` for conversion.
    pub scheme: String,
    /// The URL's path segments, in order, percent-decoded.
    pub segments: Vec<String>,
}

impl FileUrl {
    /// Whether this URL's scheme is exactly `file`.
    pub open spec fn is_file_scheme(self) -> bool {
        self.scheme@ == "file"@
    }

    /// The views of this URL's path segments.
    pub open spec fn segment_views(self) -> Seq<Seq<char>> {
        seg_views(self.segments@)
    }
}

/// Whether `specifier` is a Windows drive-letter segment.
pub fn is_windows_path_segment(specifier: &str) -> (b: bool)
    ensures
        b == spec_is_windows_segment(specifier@),
{
    let len = specifier.unicode_len();
    if len != 2 {
        return false;
    }
    let c0 = specifier.get_char(0);
    let c1 = specifier.get_char(1);
    let u = c0 as u32;
    ((65 <= u && u <= 90) || (97 <= u && u <= 122)) && c1 == ':'
}

/// The native-style absolute path string denoted by the file URL `url`:
/// its segments joined with `/`, given a leading slash exactly when the
/// first segment is not a Windows drive letter. The URL must have the
/// `file` scheme and at least one segment; a file URL always has both, so
/// anything else is a caller defect and is ruled out here.
pub fn url_to_file_path(url: &FileUrl) -> (path: String)
    requires
        url.is_file_scheme(),
        url.segments@.len() >= 1,
    ensures
        path@ == spec_url_file_path(url.segment_views()),
{
    let joined = join_segments(&url.segments);
    if is_windows_path_segment(url.segments[0].as_str()) {
        joined
    } else {
        let mut r = String::from_str("/");
        r.append(joined.as_str());
        proof {
            reveal_strlit("/");
            assert("/"@ =~= seq!['/']);
            assert(r@ =~= seq!['/'] + joined@);
        }
        r
    }
}

} // verus!
