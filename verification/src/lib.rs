//! Canonical, platform-independent module specifiers.
//!
//! Given two absolute file locations this library computes the relative
//! import string one file should use to reference the other, and it
//! converts file-scheme URLs (given as their decoded path segments) into
//! native-looking path strings. All path handling is explicit segment
//! manipulation over `/`-separated strings, so the results do not depend
//! on the conventions of the host operating system.

pub mod diff;
pub mod extension;
pub mod file_url;
pub mod segments;
pub mod specifier;

use vstd::prelude::*;

verus! {

pub use diff::get_relative_path;
pub use diff::has_containing_directory;
pub use diff::spec_diff;
pub use diff::spec_lcp;
pub use extension::is_json_file_path;
pub use extension::spec_is_json_path;
pub use file_url::FileUrl;
pub use file_url::is_windows_path_segment;
pub use file_url::spec_is_windows_segment;
pub use file_url::spec_url_file_path;
pub use file_url::url_to_file_path;
pub use specifier::get_relative_specifier;
pub use specifier::lemma_extension_normalized;
pub use specifier::lemma_specifier_deterministic;
pub use specifier::spec_relative_specifier;
pub use specifier::spec_starts_relative;
pub use segments::seg_views;
pub use segments::spec_segments;
pub use segments::split_segments;
pub use segments::spec_join;
pub use segments::join_segments;

} // verus!
