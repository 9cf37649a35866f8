//! Changelog entries, written as `<author>:<content>:<yyyy-mm-dd>`.

use chrono::Datelike;
use vstd::prelude::*;
use vstd::string::*;

use crate::calendar::{is_calendar_date, midnight_seconds, CalendarDate, SECONDS_PER_DAY};
use crate::error::{AppError, ErrorKind, ErrorView};
use crate::text::{count_of, lemma_split_len, split, split_at_char};

verus! {

/// One changelog entry: who wrote it, what it says, and the midnight (UTC)
/// that begins its day, in seconds since the start of 1970.
#[derive(Debug, Clone, PartialEq, Eq)]
pub struct ChangelogEntry {
    pub author: String,
    pub content: String,
    pub timestamp: i64,
}

/// The mathematical value of a [`ChangelogEntry`].
pub struct ChangelogView {
    pub author: Seq<char>,
    pub content: Seq<char>,
    pub timestamp: int,
}

impl ChangelogView {
    /// The timestamp is a midnight: it holds no time of day.
    pub open spec fn wf(self) -> bool {
        self.timestamp % (SECONDS_PER_DAY as int) == 0
    }
}

impl View for ChangelogEntry {
    type V = ChangelogView;

    open spec fn view(&self) -> ChangelogView {
        ChangelogView {
            author: self.author@,
            content: self.content@,
            timestamp: self.timestamp as int,
        }
    }
}

/// Year, month and day as they were read, or what was wrong with the text.
pub type DateFields = Result<(i32, u32, u32), String>;

/// The mathematical value of [`DateFields`].
pub open spec fn date_fields_view(fields: DateFields) -> Result<(int, int, int), Seq<char>> {
    match fields {
        Ok((year, month, day)) => Ok((year as int, month as int, day as int)),
        Err(detail) => Err(detail@),
    }
}

/// What chrono reads from `raw` as a date written in `format`: year, month and
/// day, or the text of its parse error.
pub uninterp spec fn parsed_date(raw: Seq<char>, format: Seq<char>) -> Result<
    (int, int, int),
    Seq<char>,
>;

/// The form in which a changelog entry gives its date.
pub open spec fn date_format() -> Seq<char> {
    "%Y-%m-%d"@
}

/// The error for the date text `date`, which cannot be read as a day of the
/// calendar. The message says why (`detail`), quotes the text as it was
/// written, and gives the form that a date must have.
pub open spec fn date_error(date: Seq<char>, detail: Seq<char>) -> ErrorView {
    ErrorView {
        kind: ErrorKind::InvalidDate,
        cause: "error while parsing date time: "@ + detail + ", invalid date argument:"@ + date
            + " it needs to be of the form <yyyy-mm-dd>"@,
    }
}

/// The error for a value that is no changelog entry.
pub open spec fn changelog_error(raw: Seq<char>) -> ErrorView {
    ErrorView {
        kind: ErrorKind::InvalidChangelogEntry,
        cause: "invalid file argument:"@ + raw
            + " it needs to be of the form <author>:<content>:<yyyy-mm-dd>"@,
    }
}

/// The entry of `author` and `content` on the day that `date` holds, or the
/// error for a date that was not read or is no day of the calendar.
/// `date_text` is the date as it was written, for the message of that error.
pub open spec fn changelog_on(
    author: Seq<char>,
    content: Seq<char>,
    date_text: Seq<char>,
    date: Result<(int, int, int), Seq<char>>,
) -> Result<ChangelogView, ErrorView> {
    match date {
        Ok((year, month, day)) => if is_calendar_date(year, month, day) {
            Ok(ChangelogView { author, content, timestamp: midnight_seconds(year, month, day) })
        } else {
            Err(date_error(date_text, "no such day in the calendar"@))
        },
        Err(detail) => Err(date_error(date_text, detail)),
    }
}

/// The changelog entry that `raw` stands for: `raw` cut at its colons must
/// give exactly three pieces, and the third must be read as a date.
pub open spec fn changelog_of(raw: Seq<char>) -> Result<ChangelogView, ErrorView> {
    let parts = split_at_char(raw, ':');
    if parts.len() == 3 {
        changelog_on(parts[0], parts[1], parts[2], parsed_date(parts[2], date_format()))
    } else {
        Err(changelog_error(raw))
    }
}

/// Calls chrono's `NaiveDate::parse_from_str` on `raw` and `format`, and hands
/// out the year, month and day of the date it returns, or the text that its
/// error displays. Nothing is said of what chrono accepts: the result is the
/// one that `parsed_date` names for these two arguments.
#[verifier::external_body]
fn read_date(raw: &str, format: &str) -> (fields: DateFields)
    ensures
        date_fields_view(fields) == parsed_date(raw@, format@),
{
    match chrono::NaiveDate::parse_from_str(raw, format) {
        Ok(date) => Ok((date.year(), date.month(), date.day())),
        Err(e) => Err(e.to_string()),
    }
}

/// The error for the unreadable date text `date`.
fn date_failure(date: &str, detail: &str) -> (e: AppError)
    ensures
        e@ == date_error(date@, detail@),
{
    AppError::new(
        ErrorKind::InvalidDate,
        String::from_str("error while parsing date time: ").concat(detail).concat(
            ", invalid date argument:",
        ).concat(date).concat(" it needs to be of the form <yyyy-mm-dd>"),
    )
}

/// Makes the changelog entry of `author` and `content` from the fields of its
/// date, as they were read from `date_text`.
///
/// Fails with `InvalidDate` where the date was not read and where the fields
/// name no day of the calendar. The message gives the reason, the date text
/// as it was written and the form `<yyyy-mm-dd>`.
pub fn changelog_entry(author: String, content: String, date_text: &str, date: DateFields) -> (r:
    Result<ChangelogEntry, AppError>)
    ensures
        match changelog_on(author@, content@, date_text@, date_fields_view(date)) {
            Ok(entry) => r is Ok && r->Ok_0@ == entry && entry.wf(),
            Err(e) => r is Err && r->Err_0@ == e,
        },
{
    match date {
        Ok((year, month, day)) => match CalendarDate::new(year, month, day) {
            Some(date) => Ok(
                ChangelogEntry { author, content, timestamp: date.midnight_timestamp() },
            ),
            None => Err(date_failure(date_text, "no such day in the calendar")),
        },
        Err(detail) => Err(date_failure(date_text, detail.as_str())),
    }
}

/// Reads one `<author>:<content>:<yyyy-mm-dd>` value.
///
/// Fails with `InvalidChangelogEntry`, and a message that quotes the value
/// and the expected form, unless the value has exactly three parts; and with
/// `InvalidDate` where the third part is not read as a date.
pub fn parse_changelog(raw: &str) -> (r: Result<ChangelogEntry, AppError>)
    ensures
        match changelog_of(raw@) {
            Ok(entry) => r is Ok && r->Ok_0@ == entry && entry.wf(),
            Err(e) => r is Err && r->Err_0@ == e,
        },
{
    let mut parts = split(raw, ':');
    let ghost pieces = split_at_char(raw@, ':');
    assert(parts@.len() == pieces.len());
    if parts.len() != 3 {
        return Err(
            AppError::new(
                ErrorKind::InvalidChangelogEntry,
                String::from_str("invalid file argument:").concat(raw).concat(
                    " it needs to be of the form <author>:<content>:<yyyy-mm-dd>",
                ),
            ),
        );
    }
    assert(parts@[0]@ == pieces[0] && parts@[1]@ == pieces[1] && parts@[2]@ == pieces[2]);
    let date = parts.pop().unwrap();
    let content = parts.pop().unwrap();
    let author = parts.pop().unwrap();
    let fields = read_date(date.as_str(), "%Y-%m-%d");
    changelog_entry(author, content, date.as_str(), fields)
}

/// A value that does not have exactly two colons, and so not exactly three
/// parts, is no changelog entry.
pub proof fn law_changelog_needs_three_parts(raw: Seq<char>)
    requires
        count_of(raw, ':') != 2,
    ensures
        changelog_of(raw) == Err::<ChangelogView, ErrorView>(changelog_error(raw)),
        changelog_of(raw)->Err_0.kind == ErrorKind::InvalidChangelogEntry,
{
    lemma_split_len(raw, ':');
}

/// A value of three parts whose third part does not name a day of the
/// calendar, or is not read as a date at all, fails with `InvalidDate`, and
/// the message holds the reason, that third part as it was written, and the
/// form that a date must have.
pub proof fn law_invalid_date_is_reported(raw: Seq<char>)
    requires
        count_of(raw, ':') == 2,
        match parsed_date(split_at_char(raw, ':')[2], date_format()) {
            Ok((year, month, day)) => !is_calendar_date(year, month, day),
            Err(_) => true,
        },
    ensures
        changelog_of(raw) is Err,
        changelog_of(raw)->Err_0.kind == ErrorKind::InvalidDate,
        changelog_of(raw)->Err_0 == date_error(
            split_at_char(raw, ':')[2],
            match parsed_date(split_at_char(raw, ':')[2], date_format()) {
                Ok(_) => "no such day in the calendar"@,
                Err(detail) => detail,
            },
        ),
{
    lemma_split_len(raw, ':');
}

/// A value of three parts whose third part is read as a day of the calendar
/// is the entry of its first two parts at the midnight that begins that day.
pub proof fn law_valid_changelog(raw: Seq<char>)
    requires
        count_of(raw, ':') == 2,
        parsed_date(split_at_char(raw, ':')[2], date_format()) matches Ok((year, month, day))
            && is_calendar_date(year, month, day),
    ensures
        changelog_of(raw) matches Ok(entry) && entry.author == split_at_char(raw, ':')[0]
            && entry.content == split_at_char(raw, ':')[1] && entry.wf(),
{
    lemma_split_len(raw, ':');
    let fields = parsed_date(split_at_char(raw, ':')[2], date_format())->Ok_0;
    let days = crate::calendar::days_since_epoch(fields.0, fields.1, fields.2);
    assert((SECONDS_PER_DAY * days) % (SECONDS_PER_DAY as int) == 0) by (nonlinear_arith);
}

} // verus!
