use nimbus::path::{extract_filename, get_file_name, join_path};

#[test]
fn extract_filename_takes_what_follows_the_last_slash() {
    assert_eq!(extract_filename("/Users/me/Downloads/CS246_assignment1.pdf"), Some("CS246_assignment1.pdf"));
    assert_eq!(extract_filename("plain.txt"), Some("plain.txt"));
    assert_eq!(extract_filename("/tmp/dir/"), Some(""));
    assert_eq!(extract_filename(""), Some(""));
}

#[test]
fn get_file_name_agrees_with_std() {
    let paths = [
        "", "/", ".", "..", "a", "/a", "a/", "a//", "/usr/bin/", "tmp/foo.txt", "foo.txt/.",
        "foo.txt/.//", "foo.txt/..", "./a", "./", "/.", "./.", "/..", "a/b/c.d", "a/./b/.", ".a",
        "..a", "a/...", "//", "a/ b", "é/ü.txt",
    ];
    for p in paths {
        let expected = std::path::Path::new(p).file_name().and_then(|n| n.to_str());
        assert_eq!(get_file_name(p), expected, "path {:?}", p);
    }
}

#[test]
fn join_path_agrees_with_std() {
    let parts = ["", "/", "a", "a/", "/a", "/a/", "b", "b/c", "/b", ".", "é"];
    for base in parts {
        for segment in parts {
            let expected = std::path::Path::new(base).join(segment);
            assert_eq!(join_path(base, segment), expected.to_str().unwrap(), "{:?} {:?}", base, segment);
        }
    }
}
