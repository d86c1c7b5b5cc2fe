use tidy::classify::{extension, join_path, target_dir_for_extension};

#[test]
fn extension_after_last_dot() {
    assert_eq!(extension("a.txt"), Some("txt".to_string()));
    assert_eq!(extension("archive.tar.gz"), Some("gz".to_string()));
    assert_eq!(extension("Photo.JPG"), Some("JPG".to_string()));
}

#[test]
fn extension_absent() {
    assert_eq!(extension("readme"), None);
    assert_eq!(extension(".bashrc"), None);
    assert_eq!(extension(""), None);
}

#[test]
fn extension_empty_after_trailing_dot() {
    assert_eq!(extension("notes."), Some(String::new()));
}

#[test]
fn extension_non_ascii_name() {
    assert_eq!(extension("résumé.pdf"), Some("pdf".to_string()));
    assert_eq!(extension("data.ñ"), Some("ñ".to_string()));
}

#[test]
fn join_adds_one_separator() {
    assert_eq!(join_path("./sorted", "txt"), "./sorted/txt");
    assert_eq!(join_path("sorted/", "md"), "sorted/md");
    assert_eq!(join_path("", "rs"), "rs");
    assert_eq!(join_path("/", "png"), "/png");
}

#[test]
fn target_dir_is_root_and_extension() {
    assert_eq!(
        target_dir_for_extension("./sorted", "a.txt"),
        Some("./sorted/txt".to_string())
    );
    assert_eq!(
        target_dir_for_extension("out", "lib.tar.gz"),
        Some("out/gz".to_string())
    );
}

#[test]
fn target_dir_none_without_extension() {
    assert_eq!(target_dir_for_extension("./sorted", "readme"), None);
    assert_eq!(target_dir_for_extension("./sorted", ".gitignore"), None);
}
