use module_specifiers::get_relative_path;
use module_specifiers::get_relative_specifier;
use module_specifiers::is_json_file_path;
use module_specifiers::is_windows_path_segment;
use module_specifiers::join_segments;
use module_specifiers::split_segments;
use module_specifiers::url_to_file_path;
use module_specifiers::FileUrl;

fn file_url(segments: &[&str]) -> FileUrl {
    FileUrl {
        scheme: "file".to_string(),
        segments: segments.iter().map(|s| s.to_string()).collect(),
    }
}

#[test]
fn sibling_target_gets_dot_slash_and_js() {
    assert_eq!(
        get_relative_specifier("/project/src/a.ts", "/project/src/b.ts"),
        "./b.js"
    );
}

#[test]
fn cousin_json_target_keeps_json_extension() {
    assert_eq!(
        get_relative_specifier("/project/src/a.ts", "/project/lib/c.json"),
        "../lib/c.json"
    );
}

#[test]
fn specifier_always_starts_relative_and_uses_forward_slashes() {
    let deep = get_relative_specifier("/a/b/c/d.ts", "/x/y.ts");
    assert_eq!(deep, "../../../x/y.js");
    assert!(deep.starts_with("../"));
    assert!(!deep.contains('\\'));
    let near = get_relative_specifier("/a/b.ts", "/a/c.ts");
    assert!(near.starts_with("./"));
    assert!(!near.contains('\\'));
}

#[test]
fn extension_rewrite_is_case_insensitive_and_unconditional() {
    assert_eq!(
        get_relative_specifier("/p/a.ts", "/p/q/file.JSON"),
        "./q/file.json"
    );
    assert_eq!(
        get_relative_specifier("/p/a.ts", "/p/q/file.Json"),
        "./q/file.json"
    );
    assert_eq!(get_relative_specifier("/p/a.ts", "/p/q/file.rs"), "./q/file.js");
    assert_eq!(get_relative_specifier("/p/a.ts", "/p/q/noext"), "./q/noext.js");
}

#[test]
fn hidden_file_has_no_extension_and_gets_js_appended() {
    assert_eq!(get_relative_specifier("/p/a.ts", "/p/.json"), "./.json.js");
}

#[test]
fn target_at_containing_directory_yields_bare_prefix() {
    assert_eq!(get_relative_specifier("/a/b/c.ts", "/a/b"), "./");
}

#[test]
fn target_above_containing_directory_keeps_parent_step() {
    assert_eq!(get_relative_specifier("/a/b/c.ts", "/a"), "./..");
}

#[test]
fn backslash_inside_segment_is_rendered_forward() {
    assert_eq!(
        get_relative_specifier("/p/a.ts", "/p/dir\\x/b.ts"),
        "./dir/x/b.js"
    );
}

#[test]
fn repeated_runs_give_identical_output() {
    let first = get_relative_specifier("/project/src/a.ts", "/project/lib/c.json");
    let second = get_relative_specifier("/project/src/a.ts", "/project/lib/c.json");
    assert_eq!(first, second);
}

#[test]
fn relative_path_lists_parent_steps_then_target_components() {
    let diff = get_relative_path("/project/src/a.ts", "/project/lib/c.json");
    let expected: Vec<String> = ["..", "lib", "c.json"].iter().map(|s| s.to_string()).collect();
    assert_eq!(diff, expected);
    let sibling = get_relative_path("/project/src/a.ts", "/project/src/b.ts");
    let expected_sibling: Vec<String> = ["b.ts"].iter().map(|s| s.to_string()).collect();
    assert_eq!(sibling, expected_sibling);
}

#[test]
fn json_classification_is_case_insensitive() {
    assert!(is_json_file_path("DATA.JSON"));
    assert!(!is_json_file_path("data.ts"));
    assert!(!is_json_file_path("noext"));
}

#[test]
fn json_classification_reads_final_component() {
    assert!(is_json_file_path("/x/y/data.JsOn"));
    assert!(is_json_file_path("data.json/"));
    assert!(!is_json_file_path("/x/data.json/readme.md"));
    assert!(!is_json_file_path(".json"));
    assert!(!is_json_file_path(""));
}

#[test]
fn windows_drive_url_has_no_leading_slash() {
    let url = file_url(&["C:", "Users", "x", "file.ts"]);
    assert_eq!(url_to_file_path(&url), "C:/Users/x/file.ts");
}

#[test]
fn posix_url_keeps_leading_slash() {
    let url = file_url(&["home", "user", "file.ts"]);
    assert_eq!(url_to_file_path(&url), "/home/user/file.ts");
}

#[test]
fn single_segment_urls() {
    assert_eq!(url_to_file_path(&file_url(&["file.ts"])), "/file.ts");
    assert_eq!(url_to_file_path(&file_url(&["c:"])), "c:");
}

#[test]
fn drive_letter_segments_are_exactly_letter_colon() {
    assert!(is_windows_path_segment("c:"));
    assert!(is_windows_path_segment("Z:"));
    assert!(!is_windows_path_segment("ab"));
    assert!(!is_windows_path_segment("1:"));
    assert!(!is_windows_path_segment("c:/"));
    assert!(!is_windows_path_segment(""));
}

#[test]
fn splitting_drops_empty_components_and_joining_restores_order() {
    let segs = split_segments("/a//b/c/");
    let expected: Vec<String> = ["a", "b", "c"].iter().map(|s| s.to_string()).collect();
    assert_eq!(segs, expected);
    assert_eq!(join_segments(&segs), "a/b/c");
    assert_eq!(split_segments(""), Vec::<String>::new());
}
