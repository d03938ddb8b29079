use http_server::utils::{parse_directory_from_args, parse_file_name_from_url};

fn args(items: &[&str]) -> Vec<String> {
    items.iter().map(|s| s.to_string()).collect()
}

#[test]
fn test_directory_defaults_to_the_current_one() {
    assert_eq!(parse_directory_from_args(&args(&[])), "./");
    assert_eq!(parse_directory_from_args(&args(&["server"])), "./");
    assert_eq!(parse_directory_from_args(&args(&["server", "-d", "/x/"])), "./");
}

#[test]
fn test_directory_follows_the_flag() {
    assert_eq!(
        parse_directory_from_args(&args(&["server", "--directory", "/tmp/data/"])),
        "/tmp/data/"
    );
    assert_eq!(
        parse_directory_from_args(&args(&["server", "directory", "/srv/"])),
        "/srv/"
    );
    assert_eq!(
        parse_directory_from_args(&args(&["--directory", "a", "--directory", "b"])),
        "a"
    );
    assert_eq!(
        parse_directory_from_args(&args(&["--directory", "--directory", "b"])),
        "--directory"
    );
}

#[test]
fn test_directory_flag_without_a_value_is_ignored() {
    assert_eq!(parse_directory_from_args(&args(&["server", "--directory"])), "./");
    assert_eq!(parse_directory_from_args(&args(&["directory"])), "./");
}

#[test]
fn test_file_name_is_what_follows_the_prefix() {
    assert_eq!(parse_file_name_from_url("/files/test.txt", "/files/"), "test.txt");
    assert_eq!(parse_file_name_from_url("/files/", "/files/"), "");
    assert_eq!(parse_file_name_from_url("/files/a/b", ""), "/files/a/b");
    assert_eq!(parse_file_name_from_url("/files/é.txt", "/f*les/"), "é.txt");
}
