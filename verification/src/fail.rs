use vstd::prelude::*;

use chrono::Datelike;
use chrono::Timelike;

use crate::foldview::LogEntry;
use crate::term::Key;

verus! {

/// Everything that can go wrong in the library.  Stale results
/// (`StaleError`, `StalePreviewError`) are the expected outcome of a
/// cancelled generation and are filtered before logging; the rest are real
/// failures.
#[derive(Debug, Clone)]
pub enum WError {
    /// An I/O failure, carried as the failure's text.
    IoError(String),
    /// A previewer could not build any preview for the named file.
    PreviewFailed { file: String },
    /// A previewer observed that its generation was superseded and gave up.
    StalePreviewError { file: String },
    /// A stale value was accessed.
    StaleError,
    /// An asynchronous value was read before its producer finished, or its
    /// producer failed.
    NotReady,
    /// No external previewer matches the file.
    NoPreviewerFound,
    /// The file's MIME type could not be determined.
    MimeUndetermined,
    /// An external previewer process could not be started.
    SubprocessSpawnFailed,
    /// An external previewer wrote output that is not valid UTF-8.
    SubprocessOutputNotUtf8,
    /// `take_files` was called while the preview is not a directory listing.
    WidgetNoFilesError,
    /// A container was asked for a widget it does not hold.
    NoWidgetError,
    /// The ratios handed to an `HBox` do not fit its widget count.
    HBoxWrongRatioError { wnum: usize, ratio: Vec<usize> },
    /// A widget of the wrong variant was found.
    WrongWidgetError { got: String, wanted: String },
    /// A popup widget is done and hands control back.
    PopupFinished,
    /// The terminal has been resized.
    TerminalResizedError,
    /// A widget has been resized.
    WidgetResizedError,
    /// A key with no binding was pressed.
    WidgetUndefinedKeyError { key: Key },
    /// A path turned out not to lie in the expected directory.
    WrongDirectoryError { path: String, dir: String },
    /// Metadata for an entry was already processed.
    MetadataProcessedError,
    /// A line in the settings file could not be parsed.
    ConfigLineError(String),
    /// The minibuffer's input changed.
    MiniBufferInputUpdated(String),
    /// A plain log message, not a failure.
    Log(String),
    /// A value that was needed was absent.
    NoneError,
    /// The user asked to quit.
    Quit,
    /// Tags are not loaded yet.
    TagsNotLoadedYetError,
    /// No bookmark is recorded under the requested key.
    BookmarkNotFound,
    /// No bookmark path is set in the popup.
    BookmarkPathNotFound,
}

pub type WResult<T> = Result<T, WError>;

/// The cause recorded with a log entry.
#[derive(Debug, Clone)]
pub enum ErrorCause {
    Str(String),
}

impl WError {
    /// True for the errors that only mean "this generation was superseded".
    pub open spec fn spec_is_stale_kind(&self) -> bool {
        self is StaleError || self is StalePreviewError
    }

    /// Whether this error only reports superseded work, which is filtered
    /// out before logging.
    pub fn is_stale_kind(&self) -> (r: bool)
        ensures
            r == self.spec_is_stale_kind(),
    {
        match self {
            WError::StaleError => true,
            WError::StalePreviewError { .. } => true,
            _ => false,
        }
    }

    pub fn quit() -> (r: WResult<()>)
        ensures
            r == WResult::<()>::Err(WError::Quit),
    {
        Err(WError::Quit)
    }

    pub fn wrong_ratio<T>(wnum: usize, ratio: Vec<usize>) -> (r: WResult<T>)
        ensures
            r matches Err(e) && e == (WError::HBoxWrongRatioError { wnum, ratio }),
    {
        Err(WError::HBoxWrongRatioError { wnum, ratio })
    }

    pub fn no_widget<T>() -> (r: WResult<T>)
        ensures
            r matches Err(e) && e == WError::NoWidgetError,
    {
        Err(WError::NoWidgetError)
    }

    pub fn wrong_widget<T>(got: &str, wanted: &str) -> (r: WResult<T>)
        ensures
            r matches Err(e) && e matches WError::WrongWidgetError { got: g, wanted: w }
                && g@ == got@ && w@ == wanted@,
    {
        Err(WError::WrongWidgetError { got: got.to_owned(), wanted: wanted.to_owned() })
    }

    pub fn popup_finished<T>() -> (r: WResult<T>)
        ensures
            r matches Err(e) && e == WError::PopupFinished,
    {
        Err(WError::PopupFinished)
    }

    pub fn tags_not_loaded<T>() -> (r: WResult<T>)
        ensures
            r matches Err(e) && e == WError::TagsNotLoadedYetError,
    {
        Err(WError::TagsNotLoadedYetError)
    }

    pub fn undefined_key<T>(key: Key) -> (r: WResult<T>)
        ensures
            r matches Err(e) && e == (WError::WidgetUndefinedKeyError { key }),
    {
        Err(WError::WidgetUndefinedKeyError { key })
    }

    pub fn terminal_resized<T>() -> (r: WResult<T>)
        ensures
            r matches Err(e) && e == WError::TerminalResizedError,
    {
        Err(WError::TerminalResizedError)
    }

    pub fn widget_resized<T>() -> (r: WResult<T>)
        ensures
            r matches Err(e) && e == WError::WidgetResizedError,
    {
        Err(WError::WidgetResizedError)
    }

    pub fn stale<T>() -> (r: WResult<T>)
        ensures
            r matches Err(e) && e == WError::StaleError,
    {
        Err(WError::StaleError)
    }

    pub fn config_error<T>(line: String) -> (r: WResult<T>)
        ensures
            r matches Err(e) && e == WError::ConfigLineError(line),
    {
        Err(WError::ConfigLineError(line))
    }

    pub fn metadata_processed<T>() -> (r: WResult<T>)
        ensures
            r matches Err(e) && e == WError::MetadataProcessedError,
    {
        Err(WError::MetadataProcessedError)
    }

    pub fn no_files<T>() -> (r: WResult<T>)
        ensures
            r matches Err(e) && e == WError::WidgetNoFilesError,
    {
        Err(WError::WidgetNoFilesError)
    }

    pub fn input_updated<T>(input: String) -> (r: WResult<T>)
        ensures
            r matches Err(e) && e == WError::MiniBufferInputUpdated(input),
    {
        Err(WError::MiniBufferInputUpdated(input))
    }

    pub fn wrong_directory<T>(path: String, dir: String) -> (r: WResult<T>)
        ensures
            r matches Err(e) && e == (WError::WrongDirectoryError { path, dir }),
    {
        Err(WError::WrongDirectoryError { path, dir })
    }
}

/// The text of each error, as shown in the log.
pub open spec fn spec_message(e: WError) -> Seq<char> {
    match e {
        WError::IoError(s) => "IO error: "@ + s@ + " "@,
        WError::PreviewFailed { file } => "Previewer failed on file: "@ + file@,
        WError::StalePreviewError { file } => "StalePreviewer for file: "@ + file@,
        WError::StaleError => "Accessed stale value"@,
        WError::NotReady => "Async value not ready yet"@,
        WError::NoPreviewerFound => "No previewer found"@,
        WError::MimeUndetermined => "No MIME type found for this file"@,
        WError::SubprocessSpawnFailed => "Failed to spawn subprocess"@,
        WError::SubprocessOutputNotUtf8 => "Failed to parse into UTF8"@,
        WError::WidgetNoFilesError => "No files to take from widget"@,
        WError::NoWidgetError => "No widget found"@,
        WError::HBoxWrongRatioError { wnum, ratio: _ } => "HBox ratio mismatch: "@
            + crate::term::spec_decimal(wnum as int) + " widgets"@,
        WError::WrongWidgetError { got, wanted } => "Got wrong widget: "@ + got@ + "! Wanted: "@
            + wanted@,
        WError::PopupFinished => "Widget finnished"@,
        WError::TerminalResizedError => "Terminal has been resized!"@,
        WError::WidgetResizedError => "Widget has been resized!"@,
        WError::WidgetUndefinedKeyError { key: _ } => "Undefined key!"@,
        WError::WrongDirectoryError { path, dir } => "Path: "@ + path@
            + " not in this directory: "@ + dir@,
        WError::MetadataProcessedError => "Metadata already processed"@,
        WError::ConfigLineError(s) => "Invalid line in settings file: "@ + s@,
        WError::MiniBufferInputUpdated(_) => "New input in Minibuffer"@,
        WError::Log(s) => s@,
        WError::NoneError => "Was None!"@,
        WError::Quit => "You wanted this!"@,
        WError::TagsNotLoadedYetError => "Tags not loaded yet"@,
        WError::BookmarkNotFound => "Bookmark not found!"@,
        WError::BookmarkPathNotFound => "No bookmark path found!"@,
    }
}

impl WError {
    /// The error's text, for the log and the status line.
    pub fn message(&self) -> (r: String)
        ensures
            r@ == spec_message(*self),
    {
        match self {
            WError::IoError(s) => {
                let mut m = String::from_str("IO error: ");
                m.append(s.as_str());
                m.append(" ");
                m
            }
            WError::PreviewFailed { file } => {
                let mut m = String::from_str("Previewer failed on file: ");
                m.append(file.as_str());
                m
            }
            WError::StalePreviewError { file } => {
                let mut m = String::from_str("StalePreviewer for file: ");
                m.append(file.as_str());
                m
            }
            WError::StaleError => String::from_str("Accessed stale value"),
            WError::NotReady => String::from_str("Async value not ready yet"),
            WError::NoPreviewerFound => String::from_str("No previewer found"),
            WError::MimeUndetermined => String::from_str("No MIME type found for this file"),
            WError::SubprocessSpawnFailed => String::from_str("Failed to spawn subprocess"),
            WError::SubprocessOutputNotUtf8 => String::from_str("Failed to parse into UTF8"),
            WError::WidgetNoFilesError => String::from_str("No files to take from widget"),
            WError::NoWidgetError => String::from_str("No widget found"),
            WError::HBoxWrongRatioError { wnum, ratio: _ } => {
                let mut m = String::from_str("HBox ratio mismatch: ");
                crate::term::push_decimal(&mut m, *wnum as u64);
                m.append(" widgets");
                m
            }
            WError::WrongWidgetError { got, wanted } => {
                let mut m = String::from_str("Got wrong widget: ");
                m.append(got.as_str());
                m.append("! Wanted: ");
                m.append(wanted.as_str());
                m
            }
            WError::PopupFinished => String::from_str("Widget finnished"),
            WError::TerminalResizedError => String::from_str("Terminal has been resized!"),
            WError::WidgetResizedError => String::from_str("Widget has been resized!"),
            WError::WidgetUndefinedKeyError { key: _ } => String::from_str("Undefined key!"),
            WError::WrongDirectoryError { path, dir } => {
                let mut m = String::from_str("Path: ");
                m.append(path.as_str());
                m.append(" not in this directory: ");
                m.append(dir.as_str());
                m
            }
            WError::MetadataProcessedError => String::from_str("Metadata already processed"),
            WError::ConfigLineError(s) => {
                let mut m = String::from_str("Invalid line in settings file: ");
                m.append(s.as_str());
                m
            }
            WError::MiniBufferInputUpdated(_) => String::from_str("New input in Minibuffer"),
            WError::Log(s) => String::from_str(s.as_str()),
            WError::NoneError => String::from_str("Was None!"),
            WError::Quit => String::from_str("You wanted this!"),
            WError::TagsNotLoadedYetError => String::from_str("Tags not loaded yet"),
            WError::BookmarkNotFound => String::from_str("Bookmark not found!"),
            WError::BookmarkPathNotFound => String::from_str("No bookmark path found!"),
        }
    }
}

/// Relies on chrono's `Local::now` and its `Datelike` and `Timelike`
/// accessors: the month runs from 1 to 12, the day of month from 1 to
/// 31, the hour from 0 to 23 and the minute from 0 to 59.  Which moment
/// comes back depends on the clock and the machine's time zone; chrono
/// itself aborts if the system clock predates the Unix epoch, an
/// environmental edge no precondition here can exclude.
#[verifier::external_body]
fn local_now_parts() -> (r: (i64, u64, u64, u64, u64))
    ensures
        1 <= r.1 <= 12,
        1 <= r.2 <= 31,
        r.3 <= 23,
        r.4 <= 59,
{
    let now = chrono::Local::now();
    (
        now.year() as i64,
        now.month() as u64,
        now.day() as u64,
        now.hour() as u64,
        now.minute() as u64,
    )
}

/// A calendar date and wall-clock time, written out as
/// `YYYY-MM-DD HH:MM`.
pub open spec fn spec_stamp(y: int, mo: int, d: int, h: int, mi: int) -> Seq<char> {
    spec_stamp_year(y) + "-"@ + crate::term::spec_pad_decimal(mo, 2) + "-"@
        + crate::term::spec_pad_decimal(d, 2) + " "@ + crate::term::spec_pad_decimal(h, 2) + ":"@
        + crate::term::spec_pad_decimal(mi, 2)
}

/// The year, four digits and a sign for years before the epoch.
pub open spec fn spec_stamp_year(y: int) -> Seq<char> {
    if y >= 0 {
        crate::term::spec_pad_decimal(y, 4)
    } else {
        seq!['-'] + crate::term::spec_pad_decimal(-y, 4)
    }
}

/// The current local time, formatted for the log.
pub fn now_stamp() -> (r: String)
    ensures
        exists|y: int, mo: int, d: int, h: int, mi: int|
            1 <= mo <= 12 && 1 <= d <= 31 && 0 <= h <= 23 && 0 <= mi <= 59 && r@ == spec_stamp(
                y,
                mo,
                d,
                h,
                mi,
            ),
{
    let (y, mo, d, h, mi) = local_now_parts();
    let mut s = String::new();
    if y >= 0 {
        crate::term::push_pad_decimal(&mut s, y as u64, 4);
    } else {
        s.append("-");
        let mag: u64 = ((-(y + 1)) as u64) + 1;
        crate::term::push_pad_decimal(&mut s, mag, 4);
        proof {
            reveal_strlit("-");
            assert(s@ =~= spec_stamp_year(y as int));
        }
    }
    s.append("-");
    crate::term::push_pad_decimal(&mut s, mo, 2);
    s.append("-");
    crate::term::push_pad_decimal(&mut s, d, 2);
    s.append(" ");
    crate::term::push_pad_decimal(&mut s, h, 2);
    s.append(":");
    crate::term::push_pad_decimal(&mut s, mi, 2);
    proof {
        assert(s@ =~= spec_stamp(y as int, mo as int, d as int, h as int, mi as int));
    }
    s
}

/// The process-wide log.  It was once an implicit global; here it is an
/// explicit service handed to whoever needs to record a failure.
#[derive(Debug)]
pub struct Log {
    entries: Vec<LogEntry>,
}

impl Log {
    pub closed spec fn spec_entries(&self) -> Seq<LogEntry> {
        self.entries@
    }

    pub fn new() -> (l: Log)
        ensures
            l.spec_entries().len() == 0,
    {
        Log { entries: Vec::new() }
    }

    /// Record one already-built entry.
    pub fn put_log(&mut self, entry: LogEntry)
        ensures
            final(self).spec_entries() == old(self).spec_entries().push(entry),
    {
        self.entries.push(entry);
    }

    /// Record an error, stamped with the current local time.
    pub fn put_error(&mut self, err: &WError)
        ensures
            final(self).spec_entries().len() == old(self).spec_entries().len() + 1,
            forall|k: int|
                0 <= k < old(self).spec_entries().len() ==> final(self).spec_entries()[k] == old(
                    self,
                ).spec_entries()[k],
            crate::foldview::spec_entry_reports(
                final(self).spec_entries().last(),
                *err,
            ),
    {
        let stamp = now_stamp();
        let entry = LogEntry::from_error(err, stamp.as_str());
        self.entries.push(entry);
    }

    /// Hand all recorded entries out, leaving the log empty.
    pub fn get_logs(&mut self) -> (r: Vec<LogEntry>)
        ensures
            r@ == old(self).spec_entries(),
            final(self).spec_entries().len() == 0,
    {
        let mut drained: Vec<LogEntry> = Vec::new();
        core::mem::swap(&mut drained, &mut self.entries);
        drained
    }
}

/// What recording an outcome does to the log: a real failure appends
/// exactly one entry reporting it, while a success or a stale result —
/// the expected outcome of a cancelled generation — leaves the log
/// untouched.
pub open spec fn spec_logged(
    before: Seq<LogEntry>,
    after: Seq<LogEntry>,
    err: Option<WError>,
) -> bool {
    match err {
        Some(e) => if e.spec_is_stale_kind() {
            after == before
        } else {
            &&& after.len() == before.len() + 1
            &&& forall|k: int| 0 <= k < before.len() ==> after[k] == before[k]
            &&& crate::foldview::spec_entry_reports(after.last(), e)
        },
        None => after == before,
    }
}

/// Record failures without disturbing the flow of control: stale
/// results are filtered out before logging.
pub trait ErrorLog: Sized {
    /// The failure this outcome carries, if any.
    spec fn spec_error(&self) -> Option<WError>;

    fn log(self, log: &mut Log)
        ensures
            spec_logged(old(log).spec_entries(), final(log).spec_entries(), self.spec_error()),
    ;

    fn log_and(self, log: &mut Log) -> (r: Self)
        ensures
            r == self,
            spec_logged(old(log).spec_entries(), final(log).spec_entries(), self.spec_error()),
    ;
}

impl<T> ErrorLog for Result<T, WError> {
    open spec fn spec_error(&self) -> Option<WError> {
        match self {
            Ok(_) => None,
            Err(e) => Some(*e),
        }
    }

    fn log(self, log: &mut Log) {
        match &self {
            Err(e) => {
                if !e.is_stale_kind() {
                    log.put_error(e);
                }
            }
            Ok(_) => {}
        }
    }

    fn log_and(self, log: &mut Log) -> (r: Self) {
        match &self {
            Err(e) => {
                if !e.is_stale_kind() {
                    log.put_error(e);
                }
            }
            Ok(_) => {}
        }
        self
    }
}

} // verus!
