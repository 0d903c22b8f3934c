use file_organizer::commands::{Commands, FileAction, SortCommand};
use file_organizer::dates::DateTime;
use file_organizer::entries::FileEntry;
use file_organizer::filtering::{
    create_matcher_from_config, ExactMatchFilter, FileDateExtractor, FileExtensionExtractor,
    FileNameExtractor, FileSizeExtractor, FileSizeRegexExtractor, Filter, MatchError, RegexFilter,
};
use file_organizer::find::FindCommand;
use file_organizer::sorters::SortBy;

fn sample_entry() -> FileEntry {
    FileEntry {
        name: "report.tar.gz".to_string(),
        path: "root/report.tar.gz".to_string(),
        size: 4096,
        created: DateTime {
            year: 2026,
            month: 3,
            day: 2,
            hour: 7,
            minute: 5,
            second: 59,
            nanosecond: 999,
        },
        modified: DateTime {
            year: 2026,
            month: 3,
            day: 3,
            hour: 8,
            minute: 6,
            second: 1,
            nanosecond: 0,
        },
        is_dir: false,
    }
}

#[test]
fn test_extractors_read_the_right_attributes() {
    let entry = sample_entry();
    assert_eq!(FileNameExtractor.extract(&entry), "report.tar.gz");
    assert_eq!(FileSizeExtractor.extract(&entry), 4096);
    assert_eq!(FileSizeRegexExtractor.extract(&entry), "4096");
    assert_eq!(FileExtensionExtractor.extract(&entry), "gz");
    let normalized = FileDateExtractor.extract(&entry);
    assert_eq!(normalized.second, 0);
    assert_eq!(normalized.nanosecond, 0);
    assert_eq!(normalized.minute, 5);
    assert_eq!(normalized.year, 2026);
}

#[test]
fn test_extension_extraction_cases() {
    let mut entry = sample_entry();
    entry.name = "archive.tar.gz".to_string();
    assert_eq!(FileExtensionExtractor.extract(&entry), "gz");
    entry.name = "nodots".to_string();
    assert_eq!(FileExtensionExtractor.extract(&entry), "");
    entry.name = "trailing.".to_string();
    assert_eq!(FileExtensionExtractor.extract(&entry), "");
}

#[test]
fn test_exact_match_filter_direct() {
    let filter = ExactMatchFilter::new("alpha".to_string());
    assert!(filter.is_matched("alpha".to_string()));
    assert!(!filter.is_matched("beta".to_string()));
    let numeric = ExactMatchFilter::new(7u64);
    assert!(numeric.is_matched(7));
    assert!(!numeric.is_matched(8));
}

#[test]
fn test_regex_filter_direct() {
    let filter = RegexFilter::new("ab+c").unwrap();
    assert!(filter.is_matched("xxabbbcyy".to_string()));
    assert!(!filter.is_matched("ac".to_string()));
    assert!(RegexFilter::new("(").is_err());
}

#[test]
fn test_date_render_failure_surfaces() {
    let mut config = FindCommand::default();
    config.datetime = Some(".*".to_string());
    config.is_regex = true;
    let matcher = create_matcher_from_config(&config, "[day]-[month]-[year]").unwrap();
    // an offset component cannot be rendered from a plain timestamp
    let err = matcher.matches(&sample_entry(), "[offset_hour]").unwrap_err();
    assert_eq!(err, MatchError::DateRenderFailed);
}

#[test]
fn test_find_command_default_is_empty() {
    let config = FindCommand::default();
    assert!(config.file_name.is_none());
    assert!(config.size.is_none());
    assert!(config.ext.is_none());
    assert!(config.datetime.is_none());
    assert!(config.modified.is_none());
    assert!(!config.is_regex);
}

#[test]
fn test_commands_holds_find_configuration() {
    let mut config = FindCommand::default();
    config.ext = Some("txt".to_string());
    let command = Commands::Find(config);
    match command {
        Commands::Find(inner) => assert_eq!(inner.ext.as_deref(), Some("txt")),
    }
}

#[test]
fn test_file_action_from_sort_command() {
    let mut command = SortCommand {
        directory: ".".to_string(),
        copy: true,
        move_arg: false,
        sort_by: SortBy::default(),
        search_hidden: false,
        search_recursive: false,
    };
    assert_eq!(FileAction::from(&command), FileAction::Copy);
    command.copy = false;
    command.move_arg = true;
    assert_eq!(FileAction::from(&command), FileAction::Move);
}

#[test]
fn test_sort_by_default_is_date() {
    assert!(matches!(SortBy::default(), SortBy::Date));
}

#[test]
fn test_find_arguments_bundles() {
    let directory = "somewhere".to_string();
    let name = "a.txt".to_string();
    let output = "plain".to_string();
    let args = file_organizer::find::FindArguments::new(
        &directory,
        Some(&name),
        None,
        None,
        None,
        true,
        &output,
        false,
        true,
    );
    assert_eq!(args.directory, "somewhere");
    assert_eq!(args.file_name.unwrap(), "a.txt");
    assert!(args.size.is_none());
    assert!(args.search_hidden);
    assert!(!args.is_regex);
    assert!(args.is_recursive);

    let other = file_organizer::find_arguments::FindArguments::new(
        &directory,
        None,
        None,
        None,
        None,
        false,
        &output,
        true,
        false,
    );
    assert_eq!(other.directory, "somewhere");
    assert_eq!(other.output, "plain");
    assert!(other.is_regex);
    assert!(!other.is_recursive);
}
