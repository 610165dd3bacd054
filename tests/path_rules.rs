use phone_sync::paths::{
    collection_urls_for, file_name_of, order_deepest_first, path_depth, remote_path_for,
    split_last_slash, split_segments, trim_slashes_end, url_for,
};

#[test]
fn remote_path_without_prefix_is_relative_path() {
    assert_eq!(remote_path_for("", "a.txt"), "a.txt");
    assert_eq!(remote_path_for("", "sub/dir/b.txt"), "sub/dir/b.txt");
}

#[test]
fn remote_path_with_prefix() {
    assert_eq!(remote_path_for("remote/dir", "test_file1.txt"), "remote/dir/test_file1.txt");
}

#[test]
fn remote_path_prefix_loses_trailing_slashes() {
    assert_eq!(remote_path_for("remote/dir//", "a.txt"), "remote/dir/a.txt");
    assert_eq!(remote_path_for("/", "a.txt"), "/a.txt");
}

#[test]
fn trimming_trailing_slashes() {
    assert_eq!(trim_slashes_end("http://h/dav///"), "http://h/dav");
    assert_eq!(trim_slashes_end("abc"), "abc");
    assert_eq!(trim_slashes_end("///"), "");
}

#[test]
fn url_joins_with_one_slash() {
    assert_eq!(url_for("http://localhost:8080/", "a.txt"), "http://localhost:8080/a.txt");
    assert_eq!(url_for("http://localhost:8080", "x/y"), "http://localhost:8080/x/y");
}

#[test]
fn splitting_at_last_slash() {
    assert_eq!(split_last_slash("sub/dir/b.txt"), ("sub/dir".to_string(), "b.txt".to_string()));
    assert_eq!(split_last_slash("b.txt"), ("".to_string(), "b.txt".to_string()));
    assert_eq!(file_name_of("x/hashes.yaml"), "hashes.yaml");
}

#[test]
fn segments_skip_empty_pieces() {
    assert_eq!(split_segments("/a//b/c/"), vec!["a", "b", "c"]);
    assert!(split_segments("").is_empty());
    assert_eq!(path_depth("sub/dir/b.txt"), 3);
    assert_eq!(path_depth("a.txt"), 1);
}

#[test]
fn nested_file_creates_each_directory_in_order() {
    let urls = collection_urls_for("http://localhost:8080/", "sub/dir/b.txt");
    assert_eq!(urls, vec!["http://localhost:8080/sub/", "http://localhost:8080/sub/dir/"]);
}

#[test]
fn top_level_file_needs_no_directory() {
    assert!(collection_urls_for("http://localhost:8080", "a.txt").is_empty());
}

#[test]
fn deeper_files_come_first() {
    let paths: Vec<String> =
        vec!["a.txt", "sub/dir/b.txt", "sub/c.txt", "d.txt", "x/y/z/e.txt"]
            .into_iter()
            .map(String::from)
            .collect();
    let ordered = order_deepest_first(&paths);
    assert_eq!(ordered, vec!["x/y/z/e.txt", "sub/dir/b.txt", "sub/c.txt", "d.txt", "a.txt"]);
}
