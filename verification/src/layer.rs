use vstd::prelude::*;

use time::format_description::OwnedFormatItem;

use crate::level::PyLevel;

verus! {

/// A parsed description of how timestamps are written.
#[verifier::external_type_specification]
#[verifier::external_body]
pub struct ExOwnedFormatItem(OwnedFormatItem);

/// Trusted: cloning a parsed time format description (derived `Clone` of `time`'s
/// `OwnedFormatItem`); nothing is claimed of the copy.
pub assume_specification[ <OwnedFormatItem as Clone>::clone ](item: &OwnedFormatItem) -> OwnedFormatItem;

/// What the `time` crate parses a format description into, or the text of its error where it
/// refuses the description.
pub uninterp spec fn time_format_parse(description: Seq<char>) -> Result<OwnedFormatItem, Seq<char>>;

/// Trusted: `time::format_description::parse_owned::<2>` parses `description`; its error is
/// turned into its `Display` text. The parsed item, or that text, depends on `description` alone.
#[verifier::external_body]
fn parse_time_format(description: &str) -> (r: Result<OwnedFormatItem, String>)
    ensures
        match r {
            Ok(item) => time_format_parse(description@) == Ok::<OwnedFormatItem, Seq<char>>(item),
            Err(m) => time_format_parse(description@) == Err::<OwnedFormatItem, Seq<char>>(m@),
        },
{
    time::format_description::parse_owned::<2>(description).map_err(|e| e.to_string())
}

/// How events are laid out.
#[derive(Clone, Copy, Debug, PartialEq, Eq, Structural)]
pub enum PyFormat {
    Full,
    Compact,
    Pretty,
    Json,
}

/// How a non-blocking writer treats a full buffer.
#[derive(Clone, Copy, Debug, PartialEq, Eq, Structural)]
pub enum NonBlocking {
    /// Drop what does not fit.
    Lossy,
    /// Wait until it fits.
    Complete,
}

impl NonBlocking {
    /// Whether the writer drops what does not fit.
    pub fn lossy(self) -> (r: bool)
        ensures
            r == (self == NonBlocking::Lossy),
    {
        match self {
            NonBlocking::Lossy => true,
            NonBlocking::Complete => false,
        }
    }
}

/// A standard stream to log to.
#[derive(Clone, Copy, Debug, PartialEq, Eq, Structural)]
pub enum PyLogFile {
    Stdout,
    Stderr,
}

/// How often a rolling log file starts anew.
#[derive(Clone, Copy, Debug, PartialEq, Eq, Structural)]
pub enum PyRotation {
    Minutely,
    Hourly,
    Daily,
    Weekly,
    Never,
}

/// Log files in `dir` whose names start with `prefix`, started anew by `rotation`.
#[derive(Clone, Debug)]
pub struct PyRollingLog {
    pub dir: String,
    pub prefix: String,
    pub rotation: PyRotation,
}

impl PyRollingLog {
    /// The rolling log in `dir` with the prefix `prefix`.
    pub fn new(dir: String, prefix: String, rotation: PyRotation) -> (r: PyRollingLog)
        ensures
            r.dir@ == dir@,
            r.prefix@ == prefix@,
            r.rotation == rotation,
    {
        PyRollingLog { dir, prefix, rotation }
    }
}

/// Where a formatting layer writes.
#[derive(Clone, Debug)]
pub enum LogFile {
    Stdout,
    Stderr,
    /// The file at this path, appended to.
    Path(String),
    Rolling(PyRollingLog),
}

/// The argument `file` was none of the accepted kinds; Python sees a `TypeError`.
#[derive(Clone, Copy, Debug, PartialEq, Eq, Structural)]
pub struct LogFileError;

impl LogFileError {
    /// The text of the error.
    pub fn message(self) -> (r: &'static str)
        ensures
            r@ == "expected a File, a RollingLog, or a string"@,
    {
        "expected a File, a RollingLog, or a string"
    }
}

impl LogFile {
    /// The log file that an argument stands for, tried as a `File`, then as a `RollingLog`, then
    /// as a string (a path).
    pub fn from_candidates(file: Option<PyLogFile>, rolling: Option<PyRollingLog>, path: Option<String>) -> (r:
        Result<LogFile, LogFileError>)
        ensures
            file == Some(PyLogFile::Stdout) ==> r matches Ok(LogFile::Stdout),
            file == Some(PyLogFile::Stderr) ==> r matches Ok(LogFile::Stderr),
            file is None && rolling is Some ==> (r matches Ok(LogFile::Rolling(x)) && x.dir@
                == rolling->0.dir@ && x.prefix@ == rolling->0.prefix@ && x.rotation
                == rolling->0.rotation),
            file is None && rolling is None && path is Some ==> (r matches Ok(LogFile::Path(p)) && p@
                == path->0@),
            r is Err <==> (file is None && rolling is None && path is None),
    {
        match file {
            Some(PyLogFile::Stdout) => Ok(LogFile::Stdout),
            Some(PyLogFile::Stderr) => Ok(LogFile::Stderr),
            None => match rolling {
                Some(rolling) => Ok(LogFile::Rolling(rolling)),
                None => match path {
                    Some(path) => Ok(LogFile::Path(path)),
                    None => Err(LogFileError),
                },
            },
        }
    }
}

// ---------------------------------------------------------------------------------------------
// Span events
// ---------------------------------------------------------------------------------------------

/// Which points in a span's life are logged as events: a set of flags.
#[derive(Clone, Copy, Debug, PartialEq, Eq, Structural)]
pub struct SpanEvents {
    bits: u8,
}

impl View for SpanEvents {
    type V = u8;

    closed spec fn view(&self) -> u8 {
        self.bits
    }
}

impl SpanEvents {
    /// A span's creation.
    pub fn new_span() -> (r: SpanEvents)
        ensures
            r@ == 1,
    {
        SpanEvents { bits: 1 }
    }

    /// Each entry into a span.
    pub fn enter() -> (r: SpanEvents)
        ensures
            r@ == 2,
    {
        SpanEvents { bits: 2 }
    }

    /// Each exit from a span.
    pub fn exit() -> (r: SpanEvents)
        ensures
            r@ == 4,
    {
        SpanEvents { bits: 4 }
    }

    /// A span's closing.
    pub fn close() -> (r: SpanEvents)
        ensures
            r@ == 8,
    {
        SpanEvents { bits: 8 }
    }

    /// Nothing (the default).
    pub fn none() -> (r: SpanEvents)
        ensures
            r@ == 0,
    {
        SpanEvents { bits: 0 }
    }

    /// Entries and exits.
    pub fn active() -> (r: SpanEvents)
        ensures
            r@ == 6,
    {
        SpanEvents { bits: 6 }
    }

    /// Every point.
    pub fn full() -> (r: SpanEvents)
        ensures
            r@ == 15,
    {
        SpanEvents { bits: 15 }
    }

    /// The points of either set.
    pub fn union(self, other: SpanEvents) -> (r: SpanEvents)
        ensures
            r@ == self@ | other@,
    {
        SpanEvents { bits: self.bits | other.bits }
    }

    /// The points of both sets.
    pub fn intersection(self, other: SpanEvents) -> (r: SpanEvents)
        ensures
            r@ == self@ & other@,
    {
        SpanEvents { bits: self.bits & other.bits }
    }

    /// Whether every point of `other` is in this set.
    pub fn contains(self, other: SpanEvents) -> (r: bool)
        ensures
            r == (self@ & other@ == other@),
    {
        self.bits & other.bits == other.bits
    }
}

/// Uniting or intersecting sets of span events does not depend on their order; uniting with
/// nothing changes nothing; a union contains each of its parts; the union with every point
/// contains each of the four single points.
pub proof fn law_span_events(a: SpanEvents, b: SpanEvents)
    ensures
        a@ | b@ == b@ | a@,
        a@ & b@ == b@ & a@,
        (a@ | b@) & a@ == a@,
        (a@ | b@) & b@ == b@,
        a@ | 0u8 == a@,
        (15u8 | a@) & 1u8 == 1u8,
        (15u8 | a@) & 2u8 == 2u8,
        (15u8 | a@) & 4u8 == 4u8,
        (15u8 | a@) & 8u8 == 8u8,
{
    let x = a@;
    let y = b@;
    assert(x | y == y | x) by (bit_vector);
    assert(x & y == y & x) by (bit_vector);
    assert((x | y) & x == x) by (bit_vector);
    assert((x | y) & y == y) by (bit_vector);
    assert(x | 0u8 == x) by (bit_vector);
    assert((15u8 | x) & 1u8 == 1u8) by (bit_vector);
    assert((15u8 | x) & 2u8 == 2u8) by (bit_vector);
    assert((15u8 | x) & 4u8 == 4u8) by (bit_vector);
    assert((15u8 | x) & 8u8 == 8u8) by (bit_vector);
}

// ---------------------------------------------------------------------------------------------
// Timestamps
// ---------------------------------------------------------------------------------------------

/// One of the predefined layouts of timestamps.
#[derive(Clone, Copy, Debug, PartialEq, Eq, Structural)]
pub enum PredefinedFormat {
    /// `[year]-[month]-[day] [hour]:[minute]:[second][offset_hour sign:mandatory]:[offset_minute]`
    YyyyMmDdHhMmSsOffset,
    /// `[year]-[month]-[day] [hour]:[minute]:[second]`
    YyyyMmDdHhMmSs,
    /// `[month]-[day] [hour]:[minute]:[second][offset_hour sign:mandatory]:[offset_minute]`
    MmDdHhMmSsOffset,
    /// `[month]-[day] [hour]:[minute]:[second]`
    MmDdHhMmSs,
    /// `[hour]:[minute]:[second][offset_hour sign:mandatory]:[offset_minute]`
    HhMmSsOffset,
    /// `[hour]:[minute]:[second]`
    HhMmSs,
}

/// How timestamps are written.
#[derive(Clone)]
pub enum TimeFormat {
    /// A description that the user wrote.
    Custom(OwnedFormatItem),
    Predefined(PredefinedFormat),
    /// ISO 8601 with six decimal digits of seconds.
    Iso8601,
    /// ISO 8601 with whole seconds.
    Iso8601NoSubseconds,
}

/// A format description was refused; Python sees a `ValueError` with this text.
pub struct TimeFormatError {
    pub message: String,
}

impl TimeFormat {
    /// The format that the description `format` gives, or the parser's complaint.
    pub fn new(format: String) -> (r: Result<TimeFormat, TimeFormatError>)
        ensures
            match time_format_parse(format@) {
                Ok(item) => r matches Ok(f) && f == TimeFormat::Custom(item),
                Err(m) => r matches Err(e) && e.message@ == m,
            },
    {
        match parse_time_format(format.as_str()) {
            Ok(item) => Ok(TimeFormat::Custom(item)),
            Err(message) => Err(TimeFormatError { message }),
        }
    }
}

/// Which clock timestamps come from.
#[derive(Clone, Copy, Debug, PartialEq, Eq, Structural)]
pub enum Time {
    Utc,
    Local,
}

/// How events are timestamped.
#[derive(Clone)]
pub enum Timer {
    /// The system time, as `tracing` writes it by default.
    SystemTime,
    /// The time since the program started.
    Uptime,
    Custom(Time, TimeFormat),
}

/// What was passed as `format` to `Timer(...)`.
pub enum FormatArg {
    Text(String),
    Format(TimeFormat),
    /// Anything else.
    Other,
}

/// Why `Timer(...)` refused its arguments.
pub enum TimerError {
    /// The format description was refused; a `ValueError`.
    InvalidFormat(TimeFormatError),
    /// `format` was neither a string nor a `TimeFormat`; a `TypeError`.
    WrongType,
}

impl TimerError {
    /// The text of the error.
    pub fn message(&self) -> (r: String)
        ensures
            r@ == match self {
                TimerError::InvalidFormat(e) => e.message@,
                TimerError::WrongType => "`format` type must be TimeFormat or str"@,
            },
    {
        match self {
            TimerError::InvalidFormat(e) => e.message.clone(),
            TimerError::WrongType => "`format` type must be TimeFormat or str".to_owned(),
        }
    }
}

impl Timer {
    /// The timer of `Timer(format, time)`: a string is parsed as a format description, a
    /// `TimeFormat` is taken as it is, anything else is refused.
    pub fn custom(format: FormatArg, time: Time) -> (r: Result<Timer, TimerError>)
        ensures
            format is Text ==> match time_format_parse(format->Text_0@) {
                Ok(item) => r matches Ok(t) && t == Timer::Custom(time, TimeFormat::Custom(item)),
                Err(m) => r matches Err(e) && e matches TimerError::InvalidFormat(x) && x.message@ == m,
            },
            format is Format ==> (r matches Ok(t) && t matches Timer::Custom(tm, f) && tm == time
                && f == format->Format_0),
            format is Other ==> r matches Err(TimerError::WrongType),
    {
        match format {
            FormatArg::Text(text) => match TimeFormat::new(text) {
                Ok(f) => Ok(Timer::Custom(time, f)),
                Err(e) => Err(TimerError::InvalidFormat(e)),
            },
            FormatArg::Format(f) => Ok(Timer::Custom(time, f)),
            FormatArg::Other => Err(TimerError::WrongType),
        }
    }

    /// The predefined timer with this clock and this layout.
    pub fn human(time: Time, format: PredefinedFormat) -> (r: Timer)
        ensures
            r matches Timer::Custom(tm, TimeFormat::Predefined(p)) && tm == time && p == format,
    {
        Timer::Custom(time, TimeFormat::Predefined(format))
    }
}

// ---------------------------------------------------------------------------------------------
// Formatting layers
// ---------------------------------------------------------------------------------------------

/// What a formatting layer was configured with; options left `None` keep `tracing`'s defaults.
#[derive(Clone)]
pub struct FmtLayer {
    pub log_level: PyLevel,
    pub file: LogFile,
    pub format: PyFormat,
    pub fmt_span: SpanEvents,
    pub non_blocking: Option<NonBlocking>,
    pub log_internal_errors: Option<bool>,
    pub timer: Option<Timer>,
    pub with_ansi: Option<bool>,
    pub with_file: Option<bool>,
    pub with_level: Option<bool>,
    pub with_line_number: Option<bool>,
    pub with_target: Option<bool>,
    pub with_thread_ids: Option<bool>,
}

impl FmtLayer {
    /// The layer of `FmtLayer(log_level=..., file=..., ...)`: every option as it was given.
    #[allow(clippy::too_many_arguments)]
    pub fn new(
        log_level: PyLevel,
        file: LogFile,
        format: PyFormat,
        fmt_span: SpanEvents,
        non_blocking: Option<NonBlocking>,
        log_internal_errors: Option<bool>,
        timer: Option<Timer>,
        with_ansi: Option<bool>,
        with_file: Option<bool>,
        with_level: Option<bool>,
        with_line_number: Option<bool>,
        with_target: Option<bool>,
        with_thread_ids: Option<bool>,
    ) -> (r: FmtLayer)
        ensures
            r == (FmtLayer {
                log_level,
                file,
                format,
                fmt_span,
                non_blocking,
                log_internal_errors,
                timer,
                with_ansi,
                with_file,
                with_level,
                with_line_number,
                with_target,
                with_thread_ids,
            }),
    {
        FmtLayer {
            log_level,
            file,
            format,
            fmt_span,
            non_blocking,
            log_internal_errors,
            timer,
            with_ansi,
            with_file,
            with_level,
            with_line_number,
            with_target,
            with_thread_ids,
        }
    }

    /// The layer of `FmtLayer()` without arguments: level `INFO`, standard output, the full
    /// format, no span events, blocking writes, system time.
    pub fn default_layer() -> (r: FmtLayer)
        ensures
            r.log_level == PyLevel::Info,
            r.file is Stdout,
            r.format == PyFormat::Full,
            r.fmt_span@ == 0,
            r.non_blocking is None,
            r.log_internal_errors is None,
            r.timer matches Some(Timer::SystemTime),
            r.with_ansi is None && r.with_file is None && r.with_level is None,
            r.with_line_number is None && r.with_target is None && r.with_thread_ids is None,
    {
        FmtLayer {
            log_level: PyLevel::default_level(),
            file: LogFile::Stdout,
            format: PyFormat::Full,
            fmt_span: SpanEvents::none(),
            non_blocking: None,
            log_internal_errors: None,
            timer: Some(Timer::SystemTime),
            with_ansi: None,
            with_file: None,
            with_level: None,
            with_line_number: None,
            with_target: None,
            with_thread_ids: None,
        }
    }

    /// Whether the layer needs a level filter (not at `TRACE`, where nothing is filtered out).
    pub fn needs_level_filter(&self) -> (r: bool)
        ensures
            r == (self.log_level != PyLevel::Trace),
    {
        self.log_level.needs_level_filter()
    }

    /// How the layer is built: the options that were given, in the order in which they are
    /// applied; the clock (none at all where `timer` is `None`); the level filter, which a layer
    /// at `TRACE` does without; and where and how it writes.
    pub fn plan(self) -> (r: LayerPlan)
        ensures
            r.settings@ == given_settings(self),
            r.span_events == self.fmt_span,
            r.format == self.format,
            r.level_filter == (if self.log_level == PyLevel::Trace {
                None
            } else {
                Some(self.log_level)
            }),
            r.non_blocking == self.non_blocking,
            r.writer == self.file,
            timer_plan_of(r.timer, self.timer),
    {
        let mut settings: Vec<(LayerSetting, bool)> = Vec::new();
        push_given(&mut settings, LayerSetting::LogInternalErrors, self.log_internal_errors);
        push_given(&mut settings, LayerSetting::Ansi, self.with_ansi);
        push_given(&mut settings, LayerSetting::File, self.with_file);
        push_given(&mut settings, LayerSetting::Level, self.with_level);
        push_given(&mut settings, LayerSetting::LineNumber, self.with_line_number);
        push_given(&mut settings, LayerSetting::Target, self.with_target);
        push_given(&mut settings, LayerSetting::ThreadIds, self.with_thread_ids);
        let level_filter = if self.log_level.needs_level_filter() {
            Some(self.log_level)
        } else {
            None
        };
        let timer = match self.timer {
            None => TimerPlan::Without,
            Some(Timer::SystemTime) => TimerPlan::SystemTime,
            Some(Timer::Uptime) => TimerPlan::Uptime,
            Some(Timer::Custom(Time::Utc, f)) => TimerPlan::Utc(f),
            Some(Timer::Custom(Time::Local, f)) => TimerPlan::Local(f),
        };
        LayerPlan {
            settings,
            span_events: self.fmt_span,
            format: self.format,
            level_filter,
            non_blocking: self.non_blocking,
            writer: self.file,
            timer,
        }
    }
}

/// An option of `tracing`'s formatting layer that is set only when the user gave it.
#[derive(Clone, Copy, Debug, PartialEq, Eq, Structural)]
pub enum LayerSetting {
    LogInternalErrors,
    Ansi,
    File,
    Level,
    LineNumber,
    Target,
    ThreadIds,
}

/// The clock of a layer, as it is built.
pub enum TimerPlan {
    /// `tracing`'s default timestamps.
    SystemTime,
    Uptime,
    /// No timestamps at all.
    Without,
    /// UTC time, in this format.
    Utc(TimeFormat),
    /// Local time (at the offset of the moment the layer is built), in this format.
    Local(TimeFormat),
}

/// The steps that build a formatting layer: what `tracing_subscriber` is asked for, in order.
pub struct LayerPlan {
    /// Each option that was given, with its value, in the order of application.
    pub settings: Vec<(LayerSetting, bool)>,
    pub span_events: SpanEvents,
    pub writer: LogFile,
    /// Writes go through a background worker, lossy or not; its guard must outlive the layer.
    pub non_blocking: Option<NonBlocking>,
    pub timer: TimerPlan,
    pub format: PyFormat,
    /// The most verbose level that passes, where anything is filtered out at all.
    pub level_filter: Option<PyLevel>,
}

/// The setting `s` with its value, where one was given.
pub open spec fn given(s: LayerSetting, o: Option<bool>) -> Seq<(LayerSetting, bool)> {
    match o {
        Some(b) => seq![(s, b)],
        None => Seq::empty(),
    }
}

/// The options of a layer that were given, in the order in which they are applied.
pub open spec fn given_settings(l: FmtLayer) -> Seq<(LayerSetting, bool)> {
    given(LayerSetting::LogInternalErrors, l.log_internal_errors) + given(
        LayerSetting::Ansi,
        l.with_ansi,
    ) + given(LayerSetting::File, l.with_file) + given(LayerSetting::Level, l.with_level) + given(
        LayerSetting::LineNumber,
        l.with_line_number,
    ) + given(LayerSetting::Target, l.with_target) + given(
        LayerSetting::ThreadIds,
        l.with_thread_ids,
    )
}

/// The part of a plan for setting `s` holds `x` exactly when `x` names `s` with the value given.
proof fn lemma_given(s: LayerSetting, o: Option<bool>, x: (LayerSetting, bool))
    ensures
        given(s, o).contains(x) <==> (x.0 == s && o == Some(x.1)),
{
    if o is Some {
        assert(given(s, o)[0] == (s, o->0));
    }
}

/// A concatenation holds what either part holds.
proof fn lemma_concat_contains<A>(a: Seq<A>, b: Seq<A>, x: A)
    ensures
        (a + b).contains(x) <==> a.contains(x) || b.contains(x),
{
    if (a + b).contains(x) {
        let i = choose|i: int| 0 <= i < (a + b).len() && (a + b)[i] == x;
        if i < a.len() {
            assert(a[i] == x);
        } else {
            assert(b[i - a.len()] == x);
        }
    }
    if a.contains(x) {
        let i = choose|i: int| 0 <= i < a.len() && a[i] == x;
        assert((a + b)[i] == x);
    }
    if b.contains(x) {
        let i = choose|i: int| 0 <= i < b.len() && b[i] == x;
        assert((a + b)[i + a.len()] == x);
    }
}

/// The plan holds a setting with a value exactly when the option of that name was given so.
proof fn lemma_settings_contain(l: FmtLayer, x: (LayerSetting, bool))
    ensures
        given_settings(l).contains(x) <==> ((x.0 == LayerSetting::LogInternalErrors
            && l.log_internal_errors == Some(x.1)) || (x.0 == LayerSetting::Ansi && l.with_ansi
            == Some(x.1)) || (x.0 == LayerSetting::File && l.with_file == Some(x.1)) || (x.0
            == LayerSetting::Level && l.with_level == Some(x.1)) || (x.0 == LayerSetting::LineNumber
            && l.with_line_number == Some(x.1)) || (x.0 == LayerSetting::Target && l.with_target
            == Some(x.1)) || (x.0 == LayerSetting::ThreadIds && l.with_thread_ids == Some(x.1))),
{
    let g1 = given(LayerSetting::LogInternalErrors, l.log_internal_errors);
    let g2 = given(LayerSetting::Ansi, l.with_ansi);
    let g3 = given(LayerSetting::File, l.with_file);
    let g4 = given(LayerSetting::Level, l.with_level);
    let g5 = given(LayerSetting::LineNumber, l.with_line_number);
    let g6 = given(LayerSetting::Target, l.with_target);
    let g7 = given(LayerSetting::ThreadIds, l.with_thread_ids);
    lemma_concat_contains(g1, g2, x);
    lemma_concat_contains(g1 + g2, g3, x);
    lemma_concat_contains(g1 + g2 + g3, g4, x);
    lemma_concat_contains(g1 + g2 + g3 + g4, g5, x);
    lemma_concat_contains(g1 + g2 + g3 + g4 + g5, g6, x);
    lemma_concat_contains(g1 + g2 + g3 + g4 + g5 + g6, g7, x);
    lemma_given(LayerSetting::LogInternalErrors, l.log_internal_errors, x);
    lemma_given(LayerSetting::Ansi, l.with_ansi, x);
    lemma_given(LayerSetting::File, l.with_file, x);
    lemma_given(LayerSetting::Level, l.with_level, x);
    lemma_given(LayerSetting::LineNumber, l.with_line_number, x);
    lemma_given(LayerSetting::Target, l.with_target, x);
    lemma_given(LayerSetting::ThreadIds, l.with_thread_ids, x);
}

/// The position of a setting in the order of application.
pub open spec fn setting_order(s: LayerSetting) -> int {
    match s {
        LayerSetting::LogInternalErrors => 0,
        LayerSetting::Ansi => 1,
        LayerSetting::File => 2,
        LayerSetting::Level => 3,
        LayerSetting::LineNumber => 4,
        LayerSetting::Target => 5,
        LayerSetting::ThreadIds => 6,
    }
}

/// Appending a part whose settings all come later keeps the settings in strictly ascending order.
proof fn lemma_ascending_append(a: Seq<(LayerSetting, bool)>, s: LayerSetting, o: Option<bool>)
    requires
        forall|i: int, j: int|
            0 <= i < j < a.len() ==> setting_order(#[trigger] a[i].0) < setting_order(#[trigger] a[j].0),
        forall|i: int| 0 <= i < a.len() ==> setting_order(#[trigger] a[i].0) < setting_order(s),
    ensures
        forall|i: int, j: int|
            0 <= i < j < (a + given(s, o)).len() ==> setting_order(#[trigger] (a + given(s, o))[i].0)
                < setting_order(#[trigger] (a + given(s, o))[j].0),
        forall|i: int| 0 <= i < (a + given(s, o)).len() ==> setting_order(#[trigger] (a + given(s, o))[i].0)
            <= setting_order(s),
{
    let b = a + given(s, o);
    assert forall|i: int, j: int| 0 <= i < j < b.len() implies setting_order(#[trigger] b[i].0)
        < setting_order(#[trigger] b[j].0) by {
        if j >= a.len() {
            assert(b[j] == given(s, o)[j - a.len()]);
            assert(b[i] == a[i]);
        } else {
            assert(b[i] == a[i] && b[j] == a[j]);
        }
    }
    assert forall|i: int| 0 <= i < b.len() implies setting_order(#[trigger] b[i].0) <= setting_order(s) by {
        if i >= a.len() {
            assert(b[i] == given(s, o)[i - a.len()]);
        } else {
            assert(b[i] == a[i]);
        }
    }
}

/// Each setting of a layer's plan carries the option of its own name: the plan holds
/// `(setting, b)` exactly when that option was given as `b`; the settings come in a fixed order,
/// each at most once.
pub proof fn law_settings_follow_options(l: FmtLayer, b: bool)
    ensures
        given_settings(l).contains((LayerSetting::LogInternalErrors, b)) <==> l.log_internal_errors
            == Some(b),
        given_settings(l).contains((LayerSetting::Ansi, b)) <==> l.with_ansi == Some(b),
        given_settings(l).contains((LayerSetting::File, b)) <==> l.with_file == Some(b),
        given_settings(l).contains((LayerSetting::Level, b)) <==> l.with_level == Some(b),
        given_settings(l).contains((LayerSetting::LineNumber, b)) <==> l.with_line_number == Some(b),
        given_settings(l).contains((LayerSetting::Target, b)) <==> l.with_target == Some(b),
        given_settings(l).contains((LayerSetting::ThreadIds, b)) <==> l.with_thread_ids == Some(b),
        forall|i: int, j: int|
            0 <= i < j < given_settings(l).len() ==> setting_order(#[trigger] given_settings(l)[i].0)
                < setting_order(#[trigger] given_settings(l)[j].0),
{
    lemma_settings_contain(l, (LayerSetting::LogInternalErrors, b));
    lemma_settings_contain(l, (LayerSetting::Ansi, b));
    lemma_settings_contain(l, (LayerSetting::File, b));
    lemma_settings_contain(l, (LayerSetting::Level, b));
    lemma_settings_contain(l, (LayerSetting::LineNumber, b));
    lemma_settings_contain(l, (LayerSetting::Target, b));
    lemma_settings_contain(l, (LayerSetting::ThreadIds, b));
    let g1 = given(LayerSetting::LogInternalErrors, l.log_internal_errors);
    let e = Seq::<(LayerSetting, bool)>::empty();
    assert(e + g1 =~= g1);
    lemma_ascending_append(e, LayerSetting::LogInternalErrors, l.log_internal_errors);
    lemma_ascending_append(g1, LayerSetting::Ansi, l.with_ansi);
    let a2 = g1 + given(LayerSetting::Ansi, l.with_ansi);
    lemma_ascending_append(a2, LayerSetting::File, l.with_file);
    let a3 = a2 + given(LayerSetting::File, l.with_file);
    lemma_ascending_append(a3, LayerSetting::Level, l.with_level);
    let a4 = a3 + given(LayerSetting::Level, l.with_level);
    lemma_ascending_append(a4, LayerSetting::LineNumber, l.with_line_number);
    let a5 = a4 + given(LayerSetting::LineNumber, l.with_line_number);
    lemma_ascending_append(a5, LayerSetting::Target, l.with_target);
    let a6 = a5 + given(LayerSetting::Target, l.with_target);
    lemma_ascending_append(a6, LayerSetting::ThreadIds, l.with_thread_ids);
}

/// The clock plan `p` is the one that the timer option `t` asks for.
pub open spec fn timer_plan_of(p: TimerPlan, t: Option<Timer>) -> bool {
    match t {
        None => p is Without,
        Some(Timer::SystemTime) => p is SystemTime,
        Some(Timer::Uptime) => p is Uptime,
        Some(Timer::Custom(Time::Utc, f)) => p matches TimerPlan::Utc(g) && g == f,
        Some(Timer::Custom(Time::Local, f)) => p matches TimerPlan::Local(g) && g == f,
    }
}

/// Appends the setting `s` with its value, where one was given.
fn push_given(settings: &mut Vec<(LayerSetting, bool)>, s: LayerSetting, o: Option<bool>)
    ensures
        final(settings)@ == old(settings)@ + given(s, o),
{
    if let Some(b) = o {
        settings.push((s, b));
    }
    proof {
        assert(final(settings)@ =~= old(settings)@ + given(s, o));
    }
}

/// How `init()` without layers sets up logging: one layer in the default format with system
/// time, writing to standard output through a lossy background worker, at `INFO`.
pub fn default_init_plan() -> (r: LayerPlan)
    ensures
        r.settings@.len() == 0,
        r.span_events@ == 0,
        r.writer is Stdout,
        r.non_blocking == Some(NonBlocking::Lossy),
        r.timer is SystemTime,
        r.format == PyFormat::Full,
        r.level_filter == Some(PyLevel::Info),
{
    LayerPlan {
        settings: Vec::new(),
        span_events: SpanEvents::none(),
        writer: LogFile::Stdout,
        non_blocking: Some(NonBlocking::Lossy),
        timer: TimerPlan::SystemTime,
        format: PyFormat::Full,
        level_filter: Some(PyLevel::default_level()),
    }
}

} // verus!
