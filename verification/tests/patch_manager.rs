use gregory::patch_manager::{patch_file_name, patch_names, sanitize, PatchError};

#[test]
fn test_sanitize_strips_bad_chars() {
    let name = "my/patch:name*here";
    let s = sanitize(name);
    assert!(!s.contains('/'));
    assert!(!s.contains(':'));
    assert!(!s.contains('*'));
}

#[test]
fn sanitize_replaces_each_disallowed_char() {
    assert_eq!(sanitize("my/patch:name*here"), "my_patch_name_here");
    assert_eq!(sanitize("a.b"), "a_b");
    assert_eq!(sanitize("../evil"), "___evil");
}

#[test]
fn sanitize_keeps_letters_digits_dash_underscore_space() {
    assert_eq!(sanitize("Bass-1_lead 2"), "Bass-1_lead 2");
    assert_eq!(sanitize("été ü3"), "été ü3");
}

#[test]
fn sanitize_trims_spaces() {
    assert_eq!(sanitize("  warm pad  "), "warm pad");
    assert_eq!(sanitize("   "), "");
    assert_eq!(sanitize(""), "");
    assert_eq!(sanitize(" /x/ "), "_x_");
}

#[test]
fn sanitize_tab_becomes_underscore() {
    assert_eq!(sanitize("\tpad\t"), "_pad_");
}

#[test]
fn sanitize_twice_is_sanitize_once() {
    for name in ["my/patch:name*here", "  a  b  ", "*", "Ω mega", "x\ny"] {
        let once = sanitize(name);
        assert_eq!(sanitize(&once), once);
    }
}

#[test]
fn patch_file_name_appends_extension() {
    assert_eq!(patch_file_name("test_patch_roundtrip"), "test_patch_roundtrip.toml");
    assert_eq!(patch_file_name(" my/patch "), "my_patch.toml");
    assert_eq!(patch_file_name(""), ".toml");
}

#[test]
fn patch_names_keeps_toml_stems_sorted() {
    let files: Vec<String> = ["b.toml", "a.toml", "c.txt", ".toml", "x.toml.bak", "Z.toml", "a.b.toml", "toml"]
        .iter()
        .map(|s| s.to_string())
        .collect();
    let names = patch_names(&files);
    assert_eq!(names, vec!["Z", "a", "a.b", "b"]);
}

#[test]
fn patch_names_of_no_files_is_empty() {
    assert!(patch_names(&Vec::new()).is_empty());
}

#[test]
fn patch_names_orders_prefix_first() {
    let files: Vec<String> = ["pad 2.toml", "pad.toml", "pad 10.toml"].iter().map(|s| s.to_string()).collect();
    assert_eq!(patch_names(&files), vec!["pad", "pad 10", "pad 2"]);
}

#[test]
fn patch_error_messages() {
    assert_eq!(PatchError::Io("boom".to_string()).message(), "IO error: boom");
    assert_eq!(PatchError::Serialize("bad".to_string()).message(), "Serialize error: bad");
    assert_eq!(PatchError::Deserialize("x".to_string()).message(), "Deserialize error: x");
}

#[test]
fn saved_name_is_listed() {
    let files = vec![patch_file_name("test_patch_list"), "notes.txt".to_string(), patch_file_name("a:b")];
    let names = patch_names(&files);
    assert!(names.contains(&"test_patch_list".to_owned()));
    assert!(names.contains(&"a_b".to_owned()));
}

#[test]
fn name_sanitized_to_nothing_is_not_listed() {
    let files = vec![patch_file_name("   ")];
    assert_eq!(files[0], ".toml");
    assert!(patch_names(&files).is_empty());
}

#[test]
fn sanitize_maps_before_trimming() {
    assert_eq!(sanitize("  a b  "), "a b");
    assert_eq!(sanitize("\t x "), "_ x");
    assert_eq!(sanitize("../x.toml"), "___x_toml");
    assert_eq!(sanitize("café"), "café");
    assert_eq!(sanitize("a\\b"), "a_b");
}

#[test]
fn clean_name_is_kept() {
    assert_eq!(sanitize("test_patch_list"), "test_patch_list");
}
