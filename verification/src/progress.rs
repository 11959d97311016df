//! The typed snapshot of one reporting interval, its status tag, the elapsed
//! output duration, and the error values that flow through the result stream.

use vstd::prelude::*;

verus! {

use crate::num::NumError;
use crate::num::Decimal;

/// What ffmpeg is going to do next, as the `progress` terminator reports it.
#[derive(Debug, Clone, Copy, PartialEq, Eq, Structural)]
pub enum Status {
    /// Ffmpeg will keep emitting progress intervals.
    Continue,
    /// Ffmpeg has finished; the stream ends after this interval.
    End,
}

impl Default for Status {
    /// A fresh interval starts as `Continue` until the terminator says
    /// otherwise.
    fn default() -> (r: Self)
        ensures
            r == Status::Continue,
    {
        Status::Continue
    }
}

/// An elapsed output duration, split into whole seconds and the microseconds
/// that remain below one second.
#[derive(Debug, Clone, Copy, PartialEq, Eq, Structural)]
pub struct Duration {
    /// Whole seconds.
    pub secs: u64,
    /// Microseconds past the last whole second; always below one million.
    pub micros: u32,
}

impl Duration {
    /// The microsecond count is a genuine remainder.
    pub open spec fn wf(self) -> bool {
        self.micros < 1_000_000
    }

    /// The duration as a total count of microseconds.
    pub open spec fn spec_as_micros(self) -> int {
        self.secs as int * 1_000_000 + self.micros as int
    }

    /// The duration denoted by a microsecond count.
    pub open spec fn spec_from_micros(us: int) -> Duration {
        Duration { secs: (us / 1_000_000) as u64, micros: (us % 1_000_000) as u32 }
    }

    /// Converts ffmpeg's `out_time_us` microsecond count, exactly: the result
    /// denotes the same number of microseconds.
    pub fn from_micros(us: u64) -> (r: Duration)
        ensures
            r == Duration::spec_from_micros(us as int),
            r.wf(),
            r.spec_as_micros() == us as int,
    {
        let secs = us / 1_000_000;
        let micros = (us % 1_000_000) as u32;
        proof {
            vstd::arithmetic::div_mod::lemma_fundamental_div_mod(us as int, 1_000_000);
        }
        Duration { secs, micros }
    }
}

/// One reporting interval's progress, every field optional because ffmpeg
/// only sends what it knows; a field reported as `N/A` becomes absent again.
#[derive(Debug, Clone, Copy, PartialEq)]
pub struct Progress {
    /// What frame ffmpeg is on.
    pub frame: Option<u64>,
    /// What framerate ffmpeg is processing at.
    pub fps: Option<Decimal>,
    /// How many bytes ffmpeg has output so far.
    pub total_size: Option<u64>,
    /// How far into the output ffmpeg has processed.
    pub out_time: Option<Duration>,
    /// How many frames were duplicated.
    pub dup_frames: Option<u64>,
    /// How many frames were dropped.
    pub drop_frames: Option<u64>,
    /// Processing speed relative to real-time playback.
    pub speed: Option<Decimal>,
    /// What ffmpeg will do after this interval.
    pub status: Status,
}

impl Progress {
    /// The all-absent snapshot every interval starts from.
    pub open spec fn spec_new() -> Progress {
        Progress {
            frame: None,
            fps: None,
            total_size: None,
            out_time: None,
            dup_frames: None,
            drop_frames: None,
            speed: None,
            status: Status::Continue,
        }
    }

    /// A fresh accumulator with every field absent and status `Continue`.
    pub fn new() -> (r: Progress)
        ensures
            r == Progress::spec_new(),
    {
        Progress {
            frame: None,
            fps: None,
            total_size: None,
            out_time: None,
            dup_frames: None,
            drop_frames: None,
            speed: None,
            status: Status::Continue,
        }
    }
}

impl Default for Progress {
    fn default() -> (r: Self)
        ensures
            r == Progress::spec_new(),
    {
        Progress::new()
    }
}

/// An error item of the result stream.  Every unrecoverable condition is
/// surfaced as exactly one of these, after which the stream closes.
#[derive(Debug, Clone, PartialEq)]
pub enum Error {
    /// Reading from or setting up the reporting connection failed; carries
    /// the failure's text.
    IoError(String),
    /// A line held no `=` separator; carries the offending line.
    KeyValueParseError(String),
    /// The `progress` key carried a value other than `continue` or `end`;
    /// carries that value.
    UnknownStatusError(String),
    /// A recognized field's value was neither `N/A` nor numeric; carries the
    /// parse cause and the offending substring.
    OtherParseError(NumError, String),
}

/// The mathematical shape of an [`Error`]: the same variants over character
/// sequences.
pub enum ErrorView {
    IoError(Seq<char>),
    KeyValueParseError(Seq<char>),
    UnknownStatusError(Seq<char>),
    OtherParseError(NumError, Seq<char>),
}

impl View for Error {
    type V = ErrorView;

    open spec fn view(&self) -> ErrorView {
        match self {
            Error::IoError(m) => ErrorView::IoError(m@),
            Error::KeyValueParseError(l) => ErrorView::KeyValueParseError(l@),
            Error::UnknownStatusError(v) => ErrorView::UnknownStatusError(v@),
            Error::OtherParseError(c, t) => ErrorView::OtherParseError(*c, t@),
        }
    }
}

impl Error {
    /// A human-readable description: a fixed prefix naming the error kind,
    /// followed by the carried text.
    pub fn message(&self) -> (r: String)
        ensures
            match self@ {
                ErrorView::IoError(m) => r@ == "Io Error: "@ + m,
                ErrorView::KeyValueParseError(l) => r@ == "Invalid key=value pair: "@ + l,
                ErrorView::UnknownStatusError(v) => r@ == "Unknown status: "@ + v,
                ErrorView::OtherParseError(_, t) => r@ == "Parse Error: "@ + t,
            },
    {
        match self {
            Error::IoError(m) => String::from_str("Io Error: ").concat(m.as_str()),
            Error::KeyValueParseError(l) => String::from_str("Invalid key=value pair: ").concat(
                l.as_str(),
            ),
            Error::UnknownStatusError(v) => String::from_str("Unknown status: ").concat(v.as_str()),
            Error::OtherParseError(_, t) => String::from_str("Parse Error: ").concat(t.as_str()),
        }
    }
}

} // verus!
