use lightd::security::{validate_path, validate_read_path, validate_write_path, PathError};

#[test]
fn test_reject_parent_directory() {
    let root = "/tmp/test_volume";
    assert!(validate_path(root, "../etc/passwd").is_err());
    assert!(validate_path(root, "foo/../../etc/passwd").is_err());
    assert!(validate_path(root, "./../../etc/passwd").is_err());
}

#[test]
fn test_reject_absolute_paths() {
    let root = "/tmp/test_volume";
    assert!(validate_path(root, "/etc/passwd").is_err());
    assert!(validate_path(root, "/tmp/test").is_err());
}

#[test]
fn test_accept_valid_paths() {
    let root = "/tmp/test_volume";
    assert!(validate_path(root, "foo/bar.txt").is_ok());
    assert!(validate_path(root, "data/config.json").is_ok());
    assert!(validate_path(root, "test.txt").is_ok());
}

#[test]
fn test_reject_empty_path() {
    let root = "/tmp/test_volume";
    assert!(validate_path(root, "").is_err());
    assert!(validate_path(root, "   ").is_err());
}

#[test]
fn path_errors_name_the_rule() {
    let root = "/srv/v1";
    assert_eq!(validate_path(root, " \t").unwrap_err(), PathError::Empty);
    assert_eq!(validate_path(root, "\\share").unwrap_err(), PathError::Absolute);
    assert_eq!(validate_path(root, "C:/x").unwrap_err(), PathError::DriveLetter);
    assert_eq!(validate_path(root, "a/..b").unwrap_err(), PathError::Traversal);
}

#[test]
fn valid_path_is_joined_under_root() {
    assert_eq!(validate_path("/srv/v1", "a/b.txt").unwrap(), "/srv/v1/a/b.txt");
    assert_eq!(validate_path("/srv/v1/", "a").unwrap(), "/srv/v1/a");
}

#[test]
fn read_path_checks_existence_and_boundary() {
    let root = "/srv/v1";
    assert_eq!(validate_read_path(root, "a.txt", "/srv/v1", None).unwrap_err(), PathError::NotFound);
    assert_eq!(
        validate_read_path(root, "link", "/srv/v1", Some("/etc/passwd")).unwrap_err(),
        PathError::EscapesVolume
    );
    assert_eq!(
        validate_read_path(root, "link", "/srv/v1", Some("/srv/v10/x")).unwrap_err(),
        PathError::EscapesVolume
    );
    assert_eq!(validate_read_path(root, "a.txt", "/srv/v1", Some("/srv/v1/a.txt")).unwrap(), "/srv/v1/a.txt");
}

#[test]
fn write_path_checks_parent_boundary() {
    let root = "/srv/v1";
    assert_eq!(validate_write_path(root, "new/a.txt", "/srv/v1", None).unwrap(), "/srv/v1/new/a.txt");
    assert_eq!(
        validate_write_path(root, "d/a.txt", "/srv/v1", Some("/tmp")).unwrap_err(),
        PathError::EscapesVolume
    );
    assert!(validate_write_path(root, "d/a.txt", "/srv/v1", Some("/srv/v1/d")).is_ok());
}
