use file_organizer::dates::DateTime;
use file_organizer::entries::FileEntry;
use file_organizer::filtering::{create_matcher_from_config, ConfigError};
use file_organizer::find::FindCommand;

const FORMAT: &str = "[day]-[month]-[year] [hour]:[minute]";

fn entry(name: &str, size: u64) -> FileEntry {
    FileEntry {
        name: name.to_string(),
        path: format!("root/{name}"),
        size,
        created: DateTime {
            year: 2026,
            month: 10,
            day: 5,
            hour: 14,
            minute: 30,
            second: 45,
            nanosecond: 123,
        },
        modified: DateTime {
            year: 2026,
            month: 11,
            day: 6,
            hour: 9,
            minute: 15,
            second: 30,
            nanosecond: 456,
        },
        is_dir: false,
    }
}

fn empty_config() -> FindCommand {
    FindCommand {
        file_name: None,
        size: None,
        ext: None,
        datetime: None,
        modified: None,
        is_regex: false,
    }
}

#[test]
fn test_create_matcher_from_config_file_name_exact_match() {
    let mut find_command = empty_config();
    find_command.file_name = Some("matched.txt".to_string());

    let file_matcher = create_matcher_from_config(&find_command, FORMAT).unwrap();
    let matched_file = entry("matched.txt", 100);
    let not_matched_file = entry("not_matched.txt", 100);

    assert!(file_matcher.matches(&matched_file, FORMAT).unwrap());
    assert!(!file_matcher.matches(&not_matched_file, FORMAT).unwrap());
}

#[test]
fn test_create_matcher_from_config_file_name_regex_match() {
    let mut find_command = empty_config();
    find_command.file_name = Some(r"^matched\.txt$".to_string());
    find_command.is_regex = true;

    let file_matcher = create_matcher_from_config(&find_command, FORMAT).unwrap();
    let matched_file = entry("matched.txt", 100);
    let not_matched_file = entry("not_matched.txt", 100);

    assert!(file_matcher.matches(&matched_file, FORMAT).unwrap());
    assert!(!file_matcher.matches(&not_matched_file, FORMAT).unwrap());
}

#[test]
fn test_create_matcher_from_config_size_exact_match() {
    let mut find_command = empty_config();
    find_command.size = Some("1024".to_string());

    let file_matcher = create_matcher_from_config(&find_command, FORMAT).unwrap();
    let matched_file = entry("size_1024", 1024);
    let not_matched_file = entry("size_512", 512);

    assert!(file_matcher.matches(&matched_file, FORMAT).unwrap());
    assert!(!file_matcher.matches(&not_matched_file, FORMAT).unwrap());
}

#[test]
fn test_create_matcher_from_config_size_regex_match() {
    let mut find_command = empty_config();
    find_command.size = Some("10..".to_string());
    find_command.is_regex = true;

    let file_matcher = create_matcher_from_config(&find_command, FORMAT).unwrap();
    let matched_file = entry("size_1024", 1024);
    let not_matched_file = entry("size_512", 512);

    assert!(file_matcher.matches(&matched_file, FORMAT).unwrap());
    assert!(!file_matcher.matches(&not_matched_file, FORMAT).unwrap());
}

#[test]
fn test_create_matcher_from_config_ext_exact_match() {
    let mut find_command = empty_config();
    find_command.ext = Some("txt".to_string());

    let file_matcher = create_matcher_from_config(&find_command, FORMAT).unwrap();
    let matched_file = entry("file.txt", 100);
    let not_matched_file = entry("file.rs", 100);

    assert!(file_matcher.matches(&matched_file, FORMAT).unwrap());
    assert!(!file_matcher.matches(&not_matched_file, FORMAT).unwrap());
}

#[test]
fn test_create_matcher_from_config_ext_regex_match() {
    let mut find_command = empty_config();
    find_command.ext = Some(r"^txt$".to_string());
    find_command.is_regex = true;

    let file_matcher = create_matcher_from_config(&find_command, FORMAT).unwrap();
    let matched_file = entry("file.txt", 100);
    let not_matched_file = entry("file.rs", 100);

    assert!(file_matcher.matches(&matched_file, FORMAT).unwrap());
    assert!(!file_matcher.matches(&not_matched_file, FORMAT).unwrap());
}

#[test]
fn test_create_matcher_from_config_ext_empty_match() {
    let mut find_command = empty_config();
    find_command.ext = Some("".to_string());

    let file_matcher = create_matcher_from_config(&find_command, FORMAT).unwrap();
    let matched_file = entry("no_ext", 100);
    let not_matched_file = entry("file.txt", 100);

    assert!(file_matcher.matches(&matched_file, FORMAT).unwrap());
    assert!(!file_matcher.matches(&not_matched_file, FORMAT).unwrap());
}

#[test]
fn test_datetime_exact_matcher() {
    let mut find_command = empty_config();
    // the creation timestamp of the fixture entries, at minute precision
    find_command.datetime = Some("05-10-2026 14:30".to_string());

    let file_matcher = create_matcher_from_config(&find_command, FORMAT).unwrap();
    let matched_file = entry("any.txt", 100);
    let mut other = entry("other.txt", 100);
    other.created.minute = 31;

    assert!(file_matcher.matches(&matched_file, FORMAT).unwrap());
    assert!(!file_matcher.matches(&other, FORMAT).unwrap());
}

#[test]
fn test_datetime_regex_matcher() {
    let mut find_command = empty_config();
    find_command.datetime = Some("^05-10-2026.*".to_string());
    find_command.is_regex = true;

    let file_matcher = create_matcher_from_config(&find_command, FORMAT).unwrap();
    let matched_file = entry("any.txt", 100);
    let mut other = entry("other.txt", 100);
    other.created.day = 6;

    assert!(file_matcher.matches(&matched_file, FORMAT).unwrap());
    assert!(!file_matcher.matches(&other, FORMAT).unwrap());
}

#[test]
fn test_modified_exact_matcher() {
    let mut find_command = empty_config();
    // the modification timestamp of the fixture entries, at minute precision
    find_command.modified = Some("06-11-2026 09:15".to_string());

    let file_matcher = create_matcher_from_config(&find_command, FORMAT).unwrap();
    let matched_file = entry("any.txt", 100);
    let mut other = entry("other.txt", 100);
    other.modified.hour = 10;

    assert!(file_matcher.matches(&matched_file, FORMAT).unwrap());
    assert!(!file_matcher.matches(&other, FORMAT).unwrap());
}

#[test]
fn test_modified_regex_matcher() {
    let mut find_command = empty_config();
    find_command.modified = Some("^06-11-2026.*".to_string());
    find_command.is_regex = true;

    let file_matcher = create_matcher_from_config(&find_command, FORMAT).unwrap();
    let matched_file = entry("any.txt", 100);
    let mut other = entry("other.txt", 100);
    other.modified.month = 12;

    assert!(file_matcher.matches(&matched_file, FORMAT).unwrap());
    assert!(!file_matcher.matches(&other, FORMAT).unwrap());
}

#[test]
fn test_invalid_regex_is_rejected() {
    let mut find_command = empty_config();
    find_command.file_name = Some("[".to_string());
    find_command.is_regex = true;
    let err = create_matcher_from_config(&find_command, FORMAT).unwrap_err();
    assert_eq!(err, ConfigError::InvalidPattern);
}

#[test]
fn test_invalid_size_is_rejected() {
    let mut find_command = empty_config();
    find_command.size = Some("12a4".to_string());
    let err = create_matcher_from_config(&find_command, FORMAT).unwrap_err();
    assert_eq!(err, ConfigError::InvalidSizeValue);
}

#[test]
fn test_invalid_datetime_is_rejected() {
    let mut find_command = empty_config();
    find_command.datetime = Some("not a date".to_string());
    let err = create_matcher_from_config(&find_command, FORMAT).unwrap_err();
    assert_eq!(err, ConfigError::InvalidDateTime);
}

#[test]
fn test_no_filter_is_rejected() {
    let err = create_matcher_from_config(&empty_config(), FORMAT).unwrap_err();
    assert_eq!(err, ConfigError::NoFilterConfigured);
}

#[test]
fn test_exact_and_pattern_agree_on_size() {
    let mut exact = empty_config();
    exact.size = Some("1024".to_string());
    let mut pattern = empty_config();
    pattern.size = Some("^1024$".to_string());
    pattern.is_regex = true;

    let exact_matcher = create_matcher_from_config(&exact, FORMAT).unwrap();
    let pattern_matcher = create_matcher_from_config(&pattern, FORMAT).unwrap();
    for size in [0, 102, 512, 1024, 10240, 11024] {
        let e = entry("fixture.bin", size);
        assert_eq!(
            exact_matcher.matches(&e, FORMAT).unwrap(),
            pattern_matcher.matches(&e, FORMAT).unwrap()
        );
    }
}

#[test]
fn test_exact_and_pattern_agree_on_extension() {
    let mut exact = empty_config();
    exact.ext = Some("txt".to_string());
    let mut pattern = empty_config();
    pattern.ext = Some("^txt$".to_string());
    pattern.is_regex = true;

    let exact_matcher = create_matcher_from_config(&exact, FORMAT).unwrap();
    let pattern_matcher = create_matcher_from_config(&pattern, FORMAT).unwrap();
    for name in ["a.txt", "b.log", "c", "d.txt.bak", "e.tar.txt", ".txt"] {
        let e = entry(name, 100);
        assert_eq!(
            exact_matcher.matches(&e, FORMAT).unwrap(),
            pattern_matcher.matches(&e, FORMAT).unwrap()
        );
    }
}

#[test]
fn test_exact_and_pattern_agree_on_name() {
    let mut exact = empty_config();
    exact.file_name = Some("notes.md".to_string());
    let mut pattern = empty_config();
    pattern.file_name = Some(r"^notes\.md$".to_string());
    pattern.is_regex = true;

    let exact_matcher = create_matcher_from_config(&exact, FORMAT).unwrap();
    let pattern_matcher = create_matcher_from_config(&pattern, FORMAT).unwrap();
    for name in ["notes.md", "notes.mdx", "xnotes.md", "notes_md"] {
        let e = entry(name, 100);
        assert_eq!(
            exact_matcher.matches(&e, FORMAT).unwrap(),
            pattern_matcher.matches(&e, FORMAT).unwrap()
        );
    }
}

#[test]
fn test_first_populated_criterion_wins() {
    let mut find_command = empty_config();
    find_command.size = Some("7".to_string());
    find_command.ext = Some("txt".to_string());
    let matcher = create_matcher_from_config(&find_command, FORMAT).unwrap();
    // the size criterion is bound, not the extension criterion
    assert!(matcher.matches(&entry("a.log", 7), FORMAT).unwrap());
    assert!(!matcher.matches(&entry("a.txt", 8), FORMAT).unwrap());
}

#[test]
fn test_size_value_overflow_is_rejected() {
    let mut find_command = empty_config();
    find_command.size = Some("99999999999999999999".to_string());
    let err = create_matcher_from_config(&find_command, FORMAT).unwrap_err();
    assert_eq!(err, ConfigError::InvalidSizeValue);
}

#[test]
fn test_size_value_bare_plus_is_rejected() {
    let mut find_command = empty_config();
    find_command.size = Some("+".to_string());
    let err = create_matcher_from_config(&find_command, FORMAT).unwrap_err();
    assert_eq!(err, ConfigError::InvalidSizeValue);
}

#[test]
fn test_size_exact_accepts_leading_plus() {
    let mut find_command = empty_config();
    find_command.size = Some("+512".to_string());
    let matcher = create_matcher_from_config(&find_command, FORMAT).unwrap();
    assert!(matcher.matches(&entry("a", 512), FORMAT).unwrap());
}
