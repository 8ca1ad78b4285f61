use std::path::Path;
use tedge_core::path_key;

const SAMPLES: &[&str] = &[
    "", "/", "//", "/t", "/t/", "//t", "/t//", "t", "t/", "./t", "./t/", ".", "./", ".//t", "/./t",
    "/t/.", "/t/./u", "t/./u", "t/u", "t//u", "t/u/.", "/t/..", "/t/../u", "..", "../t", "a/.b",
    "/a.", "/a/.", "a/./", "/é/ü/", "/é//ü",
];

#[test]
fn keys_of_sample_paths() {
    assert_eq!(path_key("/t/"), "/t");
    assert_eq!(path_key("//t//u/"), "/t/u");
    assert_eq!(path_key("/t/./u/."), "/t/u");
    assert_eq!(path_key("./t"), "./t");
    assert_eq!(path_key("t/./"), "t");
    assert_eq!(path_key("/"), "/");
    assert_eq!(path_key(""), "");
    assert_eq!(path_key("/t/../u"), "/t/../u");
}

#[test]
fn keys_agree_with_std_path_equality() {
    for a in SAMPLES {
        for b in SAMPLES {
            assert_eq!(
                Path::new(a) == Path::new(b),
                path_key(a) == path_key(b),
                "{:?} and {:?}",
                a,
                b
            );
        }
    }
}
