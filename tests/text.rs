use smart_organizer::text::{decimal_string, eq_ignore_ascii_case, split_pieces};
use smart_organizer::paths::split_extension;
use smart_organizer::errors::OrganizerError;

#[test]
fn decimal_forms() {
    assert_eq!(decimal_string(0), "0");
    assert_eq!(decimal_string(7), "7");
    assert_eq!(decimal_string(120), "120");
    assert_eq!(decimal_string(18446744073709551616), "18446744073709551616");
}

#[test]
fn case_insensitive_comparison() {
    assert!(eq_ignore_ascii_case("JPG", "jpg"));
    assert!(eq_ignore_ascii_case("", ""));
    assert!(!eq_ignore_ascii_case("jpg", "jpeg"));
    assert!(!eq_ignore_ascii_case("a", "b"));
}

#[test]
fn splitting_on_separator() {
    assert_eq!(split_pieces("a|b||c", '|'), vec!["a", "b", "", "c"]);
    assert_eq!(split_pieces("", '|'), vec![""]);
    assert_eq!(split_pieces("x|", '|'), vec!["x", ""]);
}

#[test]
fn stem_and_extension() {
    assert_eq!(split_extension("photo.jpg"), ("photo".to_string(), Some("jpg".to_string())));
    assert_eq!(split_extension("a.tar.gz"), ("a.tar".to_string(), Some("gz".to_string())));
    assert_eq!(split_extension(".hidden"), (".hidden".to_string(), None));
    assert_eq!(split_extension("plain"), ("plain".to_string(), None));
    assert_eq!(split_extension("end."), ("end".to_string(), Some(String::new())));
}

#[test]
fn error_messages() {
    assert_eq!(OrganizerError::Io("disk full".to_string()).message(), "I/O error: disk full");
    assert_eq!(OrganizerError::Serde("bad".to_string()).message(), "Serde error: bad");
    assert_eq!(
        OrganizerError::PermissionDenied("/x".to_string()).message(),
        "Permission denied for path: /x"
    );
    assert_eq!(
        OrganizerError::DestinationExists("/y".to_string()).message(),
        "File already exists at destination: /y"
    );
    assert_eq!(OrganizerError::Other("odd".to_string()).message(), "Other error: odd");
}
