//! The matching pipeline: attribute extractors, exact-match and
//! pattern-match filters, and the matcher that binds one extractor to one
//! filter according to the configured criterion.

use vstd::prelude::*;
use crate::dates::{
    DateTime, datetime_parse, datetime_render, format_datetime, normalize_to_minute,
    normalized_minute, parse_datetime,
};
use crate::entries::{EntrySpec, FileEntry};
use crate::find::FindCommand;
use crate::text::{dec_str, extension_of, extension_str, parse_u64, parse_u64_spec, u64_to_dec};

verus! {

// ---------------------------------------------------------------------------
// The trusted bridge to the regex crate
// ---------------------------------------------------------------------------

#[verifier::external_type_specification]
#[verifier::external_body]
pub struct ExRegex(regex::Regex);

/// Whether a pattern text compiles as a regular expression (what
/// `regex::Regex::new` accepts).
pub uninterp spec fn regex_valid(pat: Seq<char>) -> bool;

/// The pattern text a compiled regex was built from (what
/// `regex::Regex::as_str` returns).
pub uninterp spec fn regex_source(re: regex::Regex) -> Seq<char>;

/// Whether a pattern matches anywhere in a text (what
/// `regex::Regex::is_match` returns for a regex compiled from the pattern).
pub uninterp spec fn regex_match(pat: Seq<char>, text: Seq<char>) -> bool;

/// Relies on `regex::Regex::new`: compilation succeeds exactly for valid
/// pattern texts, and the compiled regex keeps the pattern text it was
/// built from, as `regex::Regex::as_str` reports.
#[verifier::external_body]
fn compile_pattern(pat: &str) -> (r: Option<regex::Regex>)
    ensures
        r is Some <==> regex_valid(pat@),
        r matches Some(re) ==> regex_source(re) == pat@,
{
    regex::Regex::new(pat).ok()
}

/// Relies on `regex::Regex::is_match`: whether there is a match anywhere in
/// the text; the result depends on the regex's pattern and the text alone.
#[verifier::external_body]
fn regex_is_match(re: &regex::Regex, text: &str) -> (r: bool)
    ensures
        r == regex_match(regex_source(*re), text@),
{
    re.is_match(text)
}

// ---------------------------------------------------------------------------
// Errors
// ---------------------------------------------------------------------------

/// A configuration rejected while building a matcher.
#[derive(Clone, Copy, PartialEq, Eq, Structural, Debug)]
pub enum ConfigError {
    /// The pattern text does not compile as a regular expression.
    InvalidPattern,
    /// The size criterion is not a valid unsigned integer in exact mode.
    InvalidSizeValue,
    /// The date criterion does not parse against the datetime format.
    InvalidDateTime,
    /// No criterion is set at all.
    NoFilterConfigured,
}

/// A failure while evaluating a matcher on one entry.
#[derive(Clone, Copy, PartialEq, Eq, Structural, Debug)]
pub enum MatchError {
    /// The entry's timestamp cannot be rendered through the datetime format.
    DateRenderFailed,
}

// ---------------------------------------------------------------------------
// Filters
// ---------------------------------------------------------------------------

/// A filter: tests one extracted value against the criterion it holds.
pub trait Filter<FilterValue> {
    /// Which values the filter accepts.
    spec fn accepts(&self, v: &FilterValue) -> bool;

    /// Tests one extracted value.
    fn is_matched(&self, filter_value: FilterValue) -> (r: bool)
        ensures
            r == self.accepts(&filter_value),
    ;
}

/// A filter that compares values for equality.
#[derive(Debug)]
pub struct ExactMatchFilter<CompareValue> {
    pub compare_value: CompareValue,
}

impl<CompareValue> ExactMatchFilter<CompareValue> {
    /// Builds the filter from the value it will compare against.
    pub fn new(compare_value: CompareValue) -> (r: Self)
        ensures
            r.compare_value == compare_value,
    {
        Self { compare_value }
    }
}

impl Filter<String> for ExactMatchFilter<String> {
    open spec fn accepts(&self, v: &String) -> bool {
        self.compare_value@ == v@
    }

    fn is_matched(&self, filter_value: String) -> (r: bool) {
        self.compare_value == filter_value
    }
}

impl Filter<u64> for ExactMatchFilter<u64> {
    open spec fn accepts(&self, v: &u64) -> bool {
        self.compare_value == *v
    }

    fn is_matched(&self, filter_value: u64) -> (r: bool) {
        self.compare_value == filter_value
    }
}

impl Filter<DateTime> for ExactMatchFilter<DateTime> {
    open spec fn accepts(&self, v: &DateTime) -> bool {
        self.compare_value == *v
    }

    fn is_matched(&self, filter_value: DateTime) -> (r: bool) {
        self.compare_value == filter_value
    }
}

/// A filter that tests whether a compiled pattern matches the value.
#[derive(Debug)]
pub struct RegexFilter {
    pub regex: regex::Regex,
}

impl RegexFilter {
    /// The pattern text this filter was compiled from.
    pub open spec fn pattern(&self) -> Seq<char> {
        regex_source(self.regex)
    }

    /// Compiles a pattern into a filter; fails exactly when the pattern
    /// text is not a valid regular expression.
    pub fn new(regex_pattern: &str) -> (r: Result<RegexFilter, ConfigError>)
        ensures
            r is Ok <==> regex_valid(regex_pattern@),
            r matches Ok(f) ==> f.pattern() == regex_pattern@,
            r matches Err(e) ==> e == ConfigError::InvalidPattern,
    {
        match compile_pattern(regex_pattern) {
            Some(re) => Ok(RegexFilter { regex: re }),
            None => Err(ConfigError::InvalidPattern),
        }
    }
}

impl Filter<String> for RegexFilter {
    open spec fn accepts(&self, v: &String) -> bool {
        regex_match(self.pattern(), v@)
    }

    fn is_matched(&self, filter_value: String) -> (r: bool) {
        regex_is_match(&self.regex, filter_value.as_str())
    }
}

// ---------------------------------------------------------------------------
// Extractors
// ---------------------------------------------------------------------------

/// Extracts the raw entry name.
pub struct FileNameExtractor;

impl FileNameExtractor {
    /// The entry's name, not its full path.
    pub fn extract(&self, file: &FileEntry) -> (r: String)
        ensures
            r@ == file@.name,
    {
        file.name.clone()
    }
}

/// Extracts the byte size as an unsigned integer, for exact matching.
pub struct FileSizeExtractor;

impl FileSizeExtractor {
    /// The entry's byte length.
    pub fn extract(&self, file: &FileEntry) -> (r: u64)
        ensures
            r == file@.size,
    {
        file.size
    }
}

/// Extracts the byte size rendered as decimal text, for pattern matching.
pub struct FileSizeRegexExtractor;

impl FileSizeRegexExtractor {
    /// The entry's byte length in decimal.
    pub fn extract(&self, file: &FileEntry) -> (r: String)
        ensures
            r@ == dec_str(file@.size as nat),
    {
        u64_to_dec(file.size)
    }
}

/// Extracts the extension: the characters after the last '.' of the name,
/// or empty text when the name holds none.
pub struct FileExtensionExtractor;

impl FileExtensionExtractor {
    /// The entry's extension.
    pub fn extract(&self, file: &FileEntry) -> (r: String)
        ensures
            r@ == extension_of(file@.name),
    {
        extension_str(file.name.as_str())
    }
}

/// Extracts the creation timestamp normalized to minute precision, for
/// exact matching.
pub struct FileDateExtractor;

impl FileDateExtractor {
    /// The entry's creation timestamp with seconds and sub-seconds zeroed.
    pub fn extract(&self, file: &FileEntry) -> (r: DateTime)
        ensures
            r == normalized_minute(file@.created),
    {
        normalize_to_minute(&file.created)
    }
}

/// Extracts the unnormalized creation timestamp rendered through the
/// configured datetime format, for pattern matching.
pub struct FileDateRegexExtractor;

impl FileDateRegexExtractor {
    /// The entry's creation timestamp as text; fails when the format cannot
    /// render it.
    pub fn extract(&self, file: &FileEntry, datetime_format: &str) -> (r: Result<
        String,
        MatchError,
    >)
        ensures
            match r {
                Ok(s) => datetime_render(datetime_format@, file@.created) == Some(s@),
                Err(e) => datetime_render(datetime_format@, file@.created) is None && e
                    == MatchError::DateRenderFailed,
            },
    {
        match format_datetime(datetime_format, &file.created) {
            Some(s) => Ok(s),
            None => Err(MatchError::DateRenderFailed),
        }
    }
}

// ---------------------------------------------------------------------------
// The matcher
// ---------------------------------------------------------------------------

/// One bound extractor-filter pair: a closed set of tagged variants, one
/// per attribute and mode.
#[derive(Debug)]
pub enum FileMatcher {
    NameExact(ExactMatchFilter<String>),
    NamePattern(RegexFilter),
    SizeExact(ExactMatchFilter<u64>),
    SizePattern(RegexFilter),
    ExtensionExact(ExactMatchFilter<String>),
    ExtensionPattern(RegexFilter),
    CreatedExact(ExactMatchFilter<DateTime>),
    CreatedPattern(RegexFilter),
    ModifiedExact(ExactMatchFilter<DateTime>),
    ModifiedPattern(RegexFilter),
}

impl FileMatcher {
    /// What matching one entry yields: whether the entry's attribute meets
    /// the criterion, or a failure to render the entry's timestamp through
    /// the datetime format in date-pattern mode.
    pub open spec fn matches_spec(&self, e: EntrySpec, fmt: Seq<char>) -> Result<
        bool,
        MatchError,
    > {
        match self {
            FileMatcher::NameExact(f) => Ok(f.compare_value@ == e.name),
            FileMatcher::NamePattern(f) => Ok(regex_match(f.pattern(), e.name)),
            FileMatcher::SizeExact(f) => Ok(f.compare_value == e.size),
            FileMatcher::SizePattern(f) => Ok(regex_match(f.pattern(), dec_str(e.size as nat))),
            FileMatcher::ExtensionExact(f) => Ok(f.compare_value@ == extension_of(e.name)),
            FileMatcher::ExtensionPattern(f) => Ok(regex_match(f.pattern(), extension_of(e.name))),
            FileMatcher::CreatedExact(f) => Ok(f.compare_value == normalized_minute(e.created)),
            FileMatcher::CreatedPattern(f) => match datetime_render(fmt, e.created) {
                Some(s) => Ok(regex_match(f.pattern(), s)),
                None => Err(MatchError::DateRenderFailed),
            },
            FileMatcher::ModifiedExact(f) => Ok(f.compare_value == normalized_minute(e.modified)),
            FileMatcher::ModifiedPattern(f) => match datetime_render(fmt, e.modified) {
                Some(s) => Ok(regex_match(f.pattern(), s)),
                None => Err(MatchError::DateRenderFailed),
            },
        }
    }

    /// Evaluates this matcher on one entry: extracts the bound attribute
    /// and tests it against the bound filter.
    pub fn matches(&self, file: &FileEntry, datetime_format: &str) -> (r: Result<bool, MatchError>)
        ensures
            r == self.matches_spec(file@, datetime_format@),
    {
        match self {
            FileMatcher::NameExact(f) => Ok(f.is_matched(FileNameExtractor.extract(file))),
            FileMatcher::NamePattern(f) => Ok(f.is_matched(FileNameExtractor.extract(file))),
            FileMatcher::SizeExact(f) => Ok(f.is_matched(FileSizeExtractor.extract(file))),
            FileMatcher::SizePattern(f) => Ok(f.is_matched(FileSizeRegexExtractor.extract(file))),
            FileMatcher::ExtensionExact(f) => Ok(
                f.is_matched(FileExtensionExtractor.extract(file)),
            ),
            FileMatcher::ExtensionPattern(f) => Ok(
                f.is_matched(FileExtensionExtractor.extract(file)),
            ),
            FileMatcher::CreatedExact(f) => Ok(f.is_matched(FileDateExtractor.extract(file))),
            FileMatcher::CreatedPattern(f) => match FileDateRegexExtractor.extract(
                file,
                datetime_format,
            ) {
                Ok(s) => Ok(f.is_matched(s)),
                Err(e) => Err(e),
            },
            FileMatcher::ModifiedExact(f) => Ok(
                f.is_matched(normalize_to_minute(&file.modified)),
            ),
            FileMatcher::ModifiedPattern(f) => match format_datetime(
                datetime_format,
                &file.modified,
            ) {
                Some(s) => Ok(f.is_matched(s)),
                None => Err(MatchError::DateRenderFailed),
            },
        }
    }
}

/// Builds the matcher a find configuration asks for. The first populated
/// criterion wins, in the order name, size, extension, creation date,
/// modification date; with none populated, no filter is configured. In
/// exact mode a size criterion must parse as an unsigned integer and a date
/// criterion must parse against the datetime format; in pattern mode the
/// criterion text must compile as a regular expression.
pub fn create_matcher_from_config(config: &FindCommand, datetime_format: &str) -> (r: Result<
    FileMatcher,
    ConfigError,
>)
    ensures
        config.file_name matches Some(name) ==> {
            &&& !config.is_regex ==> r is Ok
            &&& !config.is_regex ==> (r matches Ok(m) ==> (m matches FileMatcher::NameExact(f)
                && f.compare_value@ == name@))
            &&& config.is_regex ==> {
                &&& r is Ok <==> regex_valid(name@)
                &&& r matches Ok(m) ==> (m matches FileMatcher::NamePattern(f) && f.pattern()
                    == name@)
                &&& r matches Err(e) ==> e == ConfigError::InvalidPattern
            }
        },
        config.size matches Some(size) ==> config.file_name is None ==> {
            &&& !config.is_regex ==> {
                &&& r is Ok <==> parse_u64_spec(size@) is Some
                &&& r matches Ok(m) ==> (m matches FileMatcher::SizeExact(f) && Some(
                    f.compare_value,
                ) == parse_u64_spec(size@))
                &&& r matches Err(e) ==> e == ConfigError::InvalidSizeValue
            }
            &&& config.is_regex ==> {
                &&& r is Ok <==> regex_valid(size@)
                &&& r matches Ok(m) ==> (m matches FileMatcher::SizePattern(f) && f.pattern()
                    == size@)
                &&& r matches Err(e) ==> e == ConfigError::InvalidPattern
            }
        },
        config.ext matches Some(ext) ==> config.file_name is None && config.size is None ==> {
            &&& !config.is_regex ==> r is Ok
            &&& !config.is_regex ==> (r matches Ok(m) ==> (m matches FileMatcher::ExtensionExact(f)
                && f.compare_value@ == ext@))
            &&& config.is_regex ==> {
                &&& r is Ok <==> regex_valid(ext@)
                &&& r matches Ok(m) ==> (m matches FileMatcher::ExtensionPattern(f) && f.pattern()
                    == ext@)
                &&& r matches Err(e) ==> e == ConfigError::InvalidPattern
            }
        },
        config.datetime matches Some(dt) ==> config.file_name is None && config.size is None
            && config.ext is None ==> {
            &&& !config.is_regex ==> {
                &&& r is Ok <==> datetime_parse(datetime_format@, dt@) is Some
                &&& r matches Ok(m) ==> (m matches FileMatcher::CreatedExact(f) && Some(
                    f.compare_value,
                ) == datetime_parse(datetime_format@, dt@))
                &&& r matches Err(e) ==> e == ConfigError::InvalidDateTime
            }
            &&& config.is_regex ==> {
                &&& r is Ok <==> regex_valid(dt@)
                &&& r matches Ok(m) ==> (m matches FileMatcher::CreatedPattern(f) && f.pattern()
                    == dt@)
                &&& r matches Err(e) ==> e == ConfigError::InvalidPattern
            }
        },
        config.modified matches Some(md) ==> config.file_name is None && config.size is None
            && config.ext is None && config.datetime is None ==> {
            &&& !config.is_regex ==> {
                &&& r is Ok <==> datetime_parse(datetime_format@, md@) is Some
                &&& r matches Ok(m) ==> (m matches FileMatcher::ModifiedExact(f) && Some(
                    f.compare_value,
                ) == datetime_parse(datetime_format@, md@))
                &&& r matches Err(e) ==> e == ConfigError::InvalidDateTime
            }
            &&& config.is_regex ==> {
                &&& r is Ok <==> regex_valid(md@)
                &&& r matches Ok(m) ==> (m matches FileMatcher::ModifiedPattern(f) && f.pattern()
                    == md@)
                &&& r matches Err(e) ==> e == ConfigError::InvalidPattern
            }
        },
        config.file_name is None && config.size is None && config.ext is None && config.datetime
            is None && config.modified is None ==> r == Err::<FileMatcher, ConfigError>(
            ConfigError::NoFilterConfigured,
        ),
{
    if let Some(file_name) = &config.file_name {
        if !config.is_regex {
            Ok(FileMatcher::NameExact(ExactMatchFilter::new(file_name.clone())))
        } else {
            match RegexFilter::new(file_name.as_str()) {
                Ok(f) => Ok(FileMatcher::NamePattern(f)),
                Err(e) => Err(e),
            }
        }
    } else if let Some(size) = &config.size {
        if !config.is_regex {
            match parse_u64(size.as_str()) {
                Some(number) => Ok(FileMatcher::SizeExact(ExactMatchFilter::new(number))),
                None => Err(ConfigError::InvalidSizeValue),
            }
        } else {
            match RegexFilter::new(size.as_str()) {
                Ok(f) => Ok(FileMatcher::SizePattern(f)),
                Err(e) => Err(e),
            }
        }
    } else if let Some(ext) = &config.ext {
        if !config.is_regex {
            Ok(FileMatcher::ExtensionExact(ExactMatchFilter::new(ext.clone())))
        } else {
            match RegexFilter::new(ext.as_str()) {
                Ok(f) => Ok(FileMatcher::ExtensionPattern(f)),
                Err(e) => Err(e),
            }
        }
    } else if let Some(datetime) = &config.datetime {
        if !config.is_regex {
            match parse_datetime(datetime_format, datetime.as_str()) {
                Some(dt) => Ok(FileMatcher::CreatedExact(ExactMatchFilter::new(dt))),
                None => Err(ConfigError::InvalidDateTime),
            }
        } else {
            match RegexFilter::new(datetime.as_str()) {
                Ok(f) => Ok(FileMatcher::CreatedPattern(f)),
                Err(e) => Err(e),
            }
        }
    } else if let Some(modified) = &config.modified {
        if !config.is_regex {
            match parse_datetime(datetime_format, modified.as_str()) {
                Some(dt) => Ok(FileMatcher::ModifiedExact(ExactMatchFilter::new(dt))),
                None => Err(ConfigError::InvalidDateTime),
            }
        } else {
            match RegexFilter::new(modified.as_str()) {
                Ok(f) => Ok(FileMatcher::ModifiedPattern(f)),
                Err(e) => Err(e),
            }
        }
    } else {
        Err(ConfigError::NoFilterConfigured)
    }
}

} // verus!
