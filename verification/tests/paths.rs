use std::path::PathBuf;
use tedge_core::separate_path_and_file_name;

fn split(input: &str) -> (PathBuf, String) {
    let (path, name) = separate_path_and_file_name(input).unwrap();
    (PathBuf::from(path), name.to_string())
}

#[test]
fn test_separate_path_and_file_name() {
    let cases = [
        ("/tedge", "", "tedge"),
        ("/tedge/some/dir/file", "tedge/some/dir", "file"),
        ("/tedge/some/dir/", "tedge/some/dir", ""),
    ];
    for (input, expected_path, expected_file_name) in cases {
        let (actual_path, actual_file_name) = split(input);
        assert_eq!(actual_path, PathBuf::from(expected_path));
        assert_eq!(actual_file_name, expected_file_name);
    }
}

#[test]
fn separate_without_slash_gives_none() {
    assert!(separate_path_and_file_name("tedge").is_none());
    assert!(separate_path_and_file_name("").is_none());
}

#[test]
fn separate_relative_path_keeps_directory() {
    let (path, name) = separate_path_and_file_name("a/b/c.txt").unwrap();
    assert_eq!(path, "a/b");
    assert_eq!(name, "c.txt");
}

#[test]
fn separate_drops_only_one_leading_slash() {
    let (path, name) = separate_path_and_file_name("//etc/passwd").unwrap();
    assert_eq!(path, "/etc");
    assert_eq!(name, "passwd");
}

#[test]
fn separate_handles_non_ascii_names() {
    let (path, name) = separate_path_and_file_name("/dossier/é/fichier-ü").unwrap();
    assert_eq!(path, "dossier/é");
    assert_eq!(name, "fichier-ü");
}

#[test]
fn separate_rejoins_to_input() {
    for input in ["/tedge/some/dir/file", "x/y", "/a", "//b/c", "no/", "/"] {
        let (path, name) = separate_path_and_file_name(input).unwrap();
        let plain = format!("{}/{}", path, name);
        let led = format!("/{}/{}", path, name);
        assert!(plain == input || led == input, "{}", input);
        assert!(!name.contains('/'));
    }
}
