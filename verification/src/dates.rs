//! The calendar model: a timestamp as plain calendar and clock components,
//! minute-precision normalization, calendar-date labels, and the trusted
//! bridge to the `time` crate for parsing and rendering through a
//! caller-supplied format description.

use vstd::prelude::*;
use crate::text::{dec_str, digit_char};

verus! {

/// One timestamp, split into plain components. The components are carried
/// as the platform reports them; no validity is assumed of a value built
/// directly by a caller.
#[derive(Clone, Copy, PartialEq, Eq, Structural, Debug)]
pub struct DateTime {
    pub year: i32,
    pub month: u8,
    pub day: u8,
    pub hour: u8,
    pub minute: u8,
    pub second: u8,
    pub nanosecond: u32,
}

/// The same timestamp with seconds and sub-second components zeroed.
pub open spec fn normalized_minute(dt: DateTime) -> DateTime {
    DateTime { second: 0, nanosecond: 0, ..dt }
}

/// Normalizes a timestamp to minute precision: seconds and sub-second
/// components are zeroed.
pub fn normalize_to_minute(dt: &DateTime) -> (r: DateTime)
    ensures
        r == normalized_minute(*dt),
{
    DateTime { second: 0, nanosecond: 0, ..*dt }
}

/// A number rendered in decimal with at least two digits.
pub open spec fn pad2_spec(n: nat) -> Seq<char> {
    if n < 10 {
        seq!['0'] + dec_str(n)
    } else {
        dec_str(n)
    }
}

/// A number rendered in decimal with at least four digits.
pub open spec fn pad4_spec(n: nat) -> Seq<char> {
    if n < 10 {
        seq!['0', '0', '0'] + dec_str(n)
    } else if n < 100 {
        seq!['0', '0'] + dec_str(n)
    } else if n < 1000 {
        seq!['0'] + dec_str(n)
    } else {
        dec_str(n)
    }
}

fn pad2(n: u64) -> (r: String)
    ensures
        r@ == pad2_spec(n as nat),
{
    proof {
        reveal_strlit("0");
        assert("0"@ =~= seq!['0']);
    }
    if n < 10 {
        let mut s = "0".to_owned();
        s.append(crate::text::u64_to_dec(n).as_str());
        proof {
            assert(s@ =~= pad2_spec(n as nat));
        }
        s
    } else {
        crate::text::u64_to_dec(n)
    }
}

fn pad4(n: u64) -> (r: String)
    ensures
        r@ == pad4_spec(n as nat),
{
    proof {
        reveal_strlit("0");
        reveal_strlit("00");
        reveal_strlit("000");
        assert("0"@ =~= seq!['0']);
        assert("00"@ =~= seq!['0', '0']);
        assert("000"@ =~= seq!['0', '0', '0']);
    }
    let digits = crate::text::u64_to_dec(n);
    let mut s = if n < 10 {
        "000".to_owned()
    } else if n < 100 {
        "00".to_owned()
    } else if n < 1000 {
        "0".to_owned()
    } else {
        String::new()
    };
    s.append(digits.as_str());
    proof {
        assert(s@ =~= pad4_spec(n as nat));
    }
    s
}

/// The calendar date of a timestamp in its natural textual form: a sign for
/// negative years, the year padded to four digits, then zero-padded month
/// and day, separated by '-'.
pub open spec fn date_label_spec(dt: DateTime) -> Seq<char> {
    let sign: Seq<char> = if dt.year < 0 {
        seq!['-']
    } else {
        Seq::empty()
    };
    let abs: nat = if dt.year < 0 {
        (-(dt.year as int)) as nat
    } else {
        dt.year as nat
    };
    sign + pad4_spec(abs) + seq!['-'] + pad2_spec(dt.month as nat) + seq!['-'] + pad2_spec(
        dt.day as nat,
    )
}

/// Renders the calendar date of a timestamp, time of day omitted.
pub fn date_label(dt: &DateTime) -> (r: String)
    ensures
        r@ == date_label_spec(*dt),
{
    proof {
        reveal_strlit("-");
        assert("-"@ =~= seq!['-']);
    }
    let mut s = if dt.year < 0 {
        "-".to_owned()
    } else {
        String::new()
    };
    let abs: u64 = if dt.year < 0 {
        (-(dt.year as i64)) as u64
    } else {
        dt.year as u64
    };
    s.append(pad4(abs).as_str());
    s.append("-");
    s.append(pad2(dt.month as u64).as_str());
    s.append("-");
    s.append(pad2(dt.day as u64).as_str());
    proof {
        assert(s@ =~= date_label_spec(*dt));
    }
    s
}

/// The timestamp that parsing a text against a format description yields,
/// or nothing when the format is invalid or the text does not match it.
/// The result is a function of the two texts alone.
pub uninterp spec fn datetime_parse(fmt: Seq<char>, s: Seq<char>) -> Option<DateTime>;

/// Relies on `time::format_description::parse` and
/// `time::PrimitiveDateTime::parse`: both results depend on the format text
/// and the input text alone. An invalid format and an unparseable text both
/// yield nothing.
#[verifier::external_body]
pub(crate) fn parse_datetime(fmt: &str, s: &str) -> (r: Option<DateTime>)
    ensures
        r == datetime_parse(fmt@, s@),
{
    let items = time::format_description::parse(fmt).ok()?;
    let dt = time::PrimitiveDateTime::parse(s, &items).ok()?;
    Some(DateTime {
        year: dt.year(),
        month: u8::from(dt.month()),
        day: dt.day(),
        hour: dt.hour(),
        minute: dt.minute(),
        second: dt.second(),
        nanosecond: dt.nanosecond(),
    })
}

/// The text that rendering a timestamp through a format description yields,
/// or nothing when the format is invalid or cannot be applied. The result
/// is a function of the format text and the timestamp alone.
pub uninterp spec fn datetime_render(fmt: Seq<char>, dt: DateTime) -> Option<Seq<char>>;

/// Relies on `time::format_description::parse` and
/// `time::PrimitiveDateTime::format`: the rendered text depends on the
/// format text and the timestamp's components alone. An invalid format,
/// out-of-range components, or a format that needs more than a calendar
/// date and time of day all yield nothing.
#[verifier::external_body]
pub(crate) fn format_datetime(fmt: &str, dt: &DateTime) -> (r: Option<String>)
    ensures
        match r {
            Some(s) => datetime_render(fmt@, *dt) == Some(s@),
            None => datetime_render(fmt@, *dt) is None,
        },
{
    let items = time::format_description::parse(fmt).ok()?;
    let month = time::Month::try_from(dt.month).ok()?;
    let date = time::Date::from_calendar_date(dt.year, month, dt.day).ok()?;
    let tod = time::Time::from_hms_nano(dt.hour, dt.minute, dt.second, dt.nanosecond).ok()?;
    time::PrimitiveDateTime::new(date, tod).format(&items).ok()
}

} // verus!
