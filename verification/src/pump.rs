//! The progress pump's decision core: an accumulator that is fed the
//! subprocess's lines one at a time and says, for each, what to publish on
//! the result stream and whether the stream closes.
//!
//! The asynchronous shell around the library owns the socket and the channel;
//! it reads a line, hands it here, and performs the returned action.  Every
//! decision — which field a line updates, when an interval completes, which
//! error closes the stream — is made and verified here.

use vstd::prelude::*;

verus! {

use crate::num::NumError;
use crate::num::Decimal;
use crate::num::spec_parse_u64;
use crate::num::spec_parse_decimal;
use crate::num::spec_parse_speed;
use crate::num::parse_u64;
use crate::num::parse_decimal;
use crate::num::parse_speed;
use crate::progress::Duration;
use crate::progress::Error;
use crate::progress::ErrorView;
use crate::progress::Progress;
use crate::progress::Status;
use crate::text::spec_parse_line;
use crate::text::parse_line;
use crate::text::str_eq;

/// The pump's state between lines: the interval being accumulated, and
/// whether the result stream has closed (after which nothing more is
/// published).
pub struct Pump {
    /// The snapshot under construction for the current interval.
    pub current: Progress,
    /// True once the stream has closed; later lines publish nothing.
    pub closed: bool,
}

/// What updating an unsigned integer field with a value yields: absent for
/// `N/A`, the number otherwise, or the parse failure.
pub open spec fn spec_u64_update(v: Seq<char>) -> Result<Option<u64>, NumError> {
    if v == "N/A"@ {
        Ok(None)
    } else {
        match spec_parse_u64(v) {
            Ok(m) => Ok(Some(m as u64)),
            Err(e) => Err(e),
        }
    }
}

/// What updating a decimal field (`fps`) with a value yields.
pub open spec fn spec_dec_update(v: Seq<char>) -> Result<Option<Decimal>, NumError> {
    if v == "N/A"@ {
        Ok(None)
    } else {
        match spec_parse_decimal(v) {
            Ok((neg, m, sc)) => Ok(
                Some(Decimal { neg, mantissa: m as u64, scale: sc as usize }),
            ),
            Err(e) => Err(e),
        }
    }
}

/// What updating the `speed` field with a value yields: the trailing unit
/// character is stripped before the decimal parse.
pub open spec fn spec_speed_update(v: Seq<char>) -> Result<Option<Decimal>, NumError> {
    if v == "N/A"@ {
        Ok(None)
    } else {
        match spec_parse_speed(v) {
            Ok((neg, m, sc)) => Ok(
                Some(Decimal { neg, mantissa: m as u64, scale: sc as usize }),
            ),
            Err(e) => Err(e),
        }
    }
}

/// What updating `out_time` from an `out_time_us` microsecond count yields.
pub open spec fn spec_time_update(v: Seq<char>) -> Result<Option<Duration>, NumError> {
    if v == "N/A"@ {
        Ok(None)
    } else {
        match spec_parse_u64(v) {
            Ok(us) => Ok(Some(Duration::spec_from_micros(us))),
            Err(e) => Err(e),
        }
    }
}

/// The substring a failed `speed` parse reports: the value with its trailing
/// unit character already stripped.
pub open spec fn spec_speed_offending(v: Seq<char>) -> Seq<char> {
    if v.len() == 0 {
        v
    } else {
        v.subrange(0, v.len() - 1)
    }
}

/// One step of the pump on an already split `key=value` pair: the state
/// afterwards and the item, if any, published on the result stream.
pub open spec fn spec_feed_kv(p: Pump, k: Seq<char>, v: Seq<char>) -> (Pump, Option<
    Result<Progress, ErrorView>,
>) {
    if k == "frame"@ {
        match spec_u64_update(v) {
            Ok(f) => (Pump { current: Progress { frame: f, ..p.current }, closed: p.closed }, None),
            Err(e) => (
                Pump { current: p.current, closed: true },
                Some(Err(ErrorView::OtherParseError(e, v))),
            ),
        }
    } else if k == "fps"@ {
        match spec_dec_update(v) {
            Ok(f) => (Pump { current: Progress { fps: f, ..p.current }, closed: p.closed }, None),
            Err(e) => (
                Pump { current: p.current, closed: true },
                Some(Err(ErrorView::OtherParseError(e, v))),
            ),
        }
    } else if k == "total_size"@ {
        match spec_u64_update(v) {
            Ok(f) => (
                Pump { current: Progress { total_size: f, ..p.current }, closed: p.closed },
                None,
            ),
            Err(e) => (
                Pump { current: p.current, closed: true },
                Some(Err(ErrorView::OtherParseError(e, v))),
            ),
        }
    } else if k == "out_time_us"@ {
        match spec_time_update(v) {
            Ok(f) => (
                Pump { current: Progress { out_time: f, ..p.current }, closed: p.closed },
                None,
            ),
            Err(e) => (
                Pump { current: p.current, closed: true },
                Some(Err(ErrorView::OtherParseError(e, v))),
            ),
        }
    } else if k == "dup_frames"@ {
        match spec_u64_update(v) {
            Ok(f) => (
                Pump { current: Progress { dup_frames: f, ..p.current }, closed: p.closed },
                None,
            ),
            Err(e) => (
                Pump { current: p.current, closed: true },
                Some(Err(ErrorView::OtherParseError(e, v))),
            ),
        }
    } else if k == "drop_frames"@ {
        match spec_u64_update(v) {
            Ok(f) => (
                Pump { current: Progress { drop_frames: f, ..p.current }, closed: p.closed },
                None,
            ),
            Err(e) => (
                Pump { current: p.current, closed: true },
                Some(Err(ErrorView::OtherParseError(e, v))),
            ),
        }
    } else if k == "speed"@ {
        match spec_speed_update(v) {
            Ok(f) => (Pump { current: Progress { speed: f, ..p.current }, closed: p.closed }, None),
            Err(e) => (
                Pump { current: p.current, closed: true },
                Some(Err(ErrorView::OtherParseError(e, spec_speed_offending(v)))),
            ),
        }
    } else if k == "progress"@ {
        if v == "continue"@ {
            (
                Pump { current: Progress::spec_new(), closed: p.closed },
                Some(Ok(Progress { status: Status::Continue, ..p.current })),
            )
        } else if v == "end"@ {
            (
                Pump { current: Progress::spec_new(), closed: p.closed },
                Some(Ok(Progress { status: Status::End, ..p.current })),
            )
        } else {
            (
                Pump { current: Progress::spec_new(), closed: true },
                Some(Err(ErrorView::UnknownStatusError(v))),
            )
        }
    } else {
        (p, None)
    }
}

/// One step of the pump on a raw line, exactly as the wire protocol says:
/// nothing once closed; a format error when the line has no `=`; otherwise
/// the field update, interval emission, or error of [`spec_feed_kv`].
pub open spec fn spec_feed(p: Pump, line: Seq<char>) -> (Pump, Option<
    Result<Progress, ErrorView>,
>) {
    if p.closed {
        (p, None)
    } else {
        match spec_parse_line(line) {
            None => (
                Pump { current: p.current, closed: true },
                Some(Err(ErrorView::KeyValueParseError(line))),
            ),
            Some(kv) => spec_feed_kv(p, kv.0, kv.1),
        }
    }
}

/// The view of one published stream item.
pub open spec fn one_item_view(r: Result<Progress, Error>) -> Result<Progress, ErrorView> {
    match r {
        Ok(p) => Ok(p),
        Err(e) => Err(e@),
    }
}

/// The view of what one step published.
pub open spec fn item_view(r: Option<Result<Progress, Error>>) -> Option<
    Result<Progress, ErrorView>,
> {
    match r {
        None => None,
        Some(it) => Some(one_item_view(it)),
    }
}

/// The views of a sequence of published stream items.
pub open spec fn items_view(items: Seq<Result<Progress, Error>>) -> Seq<
    Result<Progress, ErrorView>,
> {
    items.map_values(|r: Result<Progress, Error>| one_item_view(r))
}

/// The views of a sequence of lines.
pub open spec fn line_views(lines: Seq<String>) -> Seq<Seq<char>> {
    lines.map_values(|s: String| s@)
}

/// The pump run over a whole sequence of lines: the final state and every
/// published item, in the order of the lines that produced them.
pub open spec fn spec_feed_all(p: Pump, lines: Seq<Seq<char>>) -> (Pump, Seq<
    Result<Progress, ErrorView>,
>)
    decreases lines.len(),
{
    if lines.len() == 0 {
        (p, Seq::empty())
    } else {
        let prev = spec_feed_all(p, lines.drop_last());
        let step = spec_feed(prev.0, lines.last());
        match step.1 {
            None => (step.0, prev.1),
            Some(it) => (step.0, prev.1.push(it)),
        }
    }
}

/// Once the stream has closed, no later line changes the state or publishes
/// anything: an error item is always the stream's last.
pub proof fn lemma_closed_pump_is_silent(p: Pump, lines: Seq<Seq<char>>)
    requires
        p.closed,
    ensures
        spec_feed_all(p, lines) == (p, Seq::<Result<Progress, ErrorView>>::empty()),
    decreases lines.len(),
{
    if lines.len() > 0 {
        lemma_closed_pump_is_silent(p, lines.drop_last());
    }
}

fn u64_update(v: &String) -> (r: Result<Option<u64>, NumError>)
    ensures
        r == spec_u64_update(v@),
{
    if str_eq(v.as_str(), "N/A") {
        Ok(None)
    } else {
        match parse_u64(v.as_str()) {
            Ok(x) => Ok(Some(x)),
            Err(e) => Err(e),
        }
    }
}

fn dec_update(v: &String) -> (r: Result<Option<Decimal>, NumError>)
    ensures
        r == spec_dec_update(v@),
{
    if str_eq(v.as_str(), "N/A") {
        Ok(None)
    } else {
        match parse_decimal(v.as_str()) {
            Ok(x) => Ok(Some(x)),
            Err(e) => Err(e),
        }
    }
}

fn speed_update(v: &String) -> (r: Result<Option<Decimal>, NumError>)
    ensures
        r == spec_speed_update(v@),
{
    if str_eq(v.as_str(), "N/A") {
        Ok(None)
    } else {
        match parse_speed(v.as_str()) {
            Ok(x) => Ok(Some(x)),
            Err(e) => Err(e),
        }
    }
}

fn time_update(v: &String) -> (r: Result<Option<Duration>, NumError>)
    ensures
        r == spec_time_update(v@),
{
    if str_eq(v.as_str(), "N/A") {
        Ok(None)
    } else {
        match parse_u64(v.as_str()) {
            Ok(us) => Ok(Some(Duration::from_micros(us))),
            Err(e) => Err(e),
        }
    }
}

impl Pump {
    /// The state the pump starts in: an all-absent interval, stream open.
    pub open spec fn spec_new() -> Pump {
        Pump { current: Progress::spec_new(), closed: false }
    }

    /// A pump ready for the first line.
    pub fn new() -> (r: Pump)
        ensures
            r == Pump::spec_new(),
    {
        Pump { current: Progress::new(), closed: false }
    }

    /// Feeds one raw line from the reporting connection.  Returns the item to
    /// publish on the result stream, if this line completed an interval or
    /// raised an error; the caller publishes it and, once `closed` holds,
    /// stops publishing.
    pub fn feed_line(&mut self, line: &str) -> (r: Option<Result<Progress, Error>>)
        ensures
            *final(self) == spec_feed(*old(self), line@).0,
            item_view(r) == spec_feed(*old(self), line@).1,
    {
        if self.closed {
            return None;
        }
        match parse_line(line) {
            None => {
                self.closed = true;
                Some(Err(Error::KeyValueParseError(String::from_str(line))))
            },
            Some((key, value)) => {
                if str_eq(key.as_str(), "frame") {
                    match u64_update(&value) {
                        Ok(f) => {
                            self.current.frame = f;
                            None
                        },
                        Err(e) => {
                            self.closed = true;
                            Some(Err(Error::OtherParseError(e, value)))
                        },
                    }
                } else if str_eq(key.as_str(), "fps") {
                    match dec_update(&value) {
                        Ok(f) => {
                            self.current.fps = f;
                            None
                        },
                        Err(e) => {
                            self.closed = true;
                            Some(Err(Error::OtherParseError(e, value)))
                        },
                    }
                } else if str_eq(key.as_str(), "total_size") {
                    match u64_update(&value) {
                        Ok(f) => {
                            self.current.total_size = f;
                            None
                        },
                        Err(e) => {
                            self.closed = true;
                            Some(Err(Error::OtherParseError(e, value)))
                        },
                    }
                } else if str_eq(key.as_str(), "out_time_us") {
                    match time_update(&value) {
                        Ok(f) => {
                            self.current.out_time = f;
                            None
                        },
                        Err(e) => {
                            self.closed = true;
                            Some(Err(Error::OtherParseError(e, value)))
                        },
                    }
                } else if str_eq(key.as_str(), "dup_frames") {
                    match u64_update(&value) {
                        Ok(f) => {
                            self.current.dup_frames = f;
                            None
                        },
                        Err(e) => {
                            self.closed = true;
                            Some(Err(Error::OtherParseError(e, value)))
                        },
                    }
                } else if str_eq(key.as_str(), "drop_frames") {
                    match u64_update(&value) {
                        Ok(f) => {
                            self.current.drop_frames = f;
                            None
                        },
                        Err(e) => {
                            self.closed = true;
                            Some(Err(Error::OtherParseError(e, value)))
                        },
                    }
                } else if str_eq(key.as_str(), "speed") {
                    match speed_update(&value) {
                        Ok(f) => {
                            self.current.speed = f;
                            None
                        },
                        Err(e) => {
                            self.closed = true;
                            let n = value.as_str().unicode_len();
                            let off = if n == 0 {
                                value
                            } else {
                                String::from_str(value.as_str().substring_char(0, n - 1))
                            };
                            Some(Err(Error::OtherParseError(e, off)))
                        },
                    }
                } else if str_eq(key.as_str(), "progress") {
                    if str_eq(value.as_str(), "continue") {
                        let mut snap = self.current;
                        snap.status = Status::Continue;
                        self.current = Progress::new();
                        Some(Ok(snap))
                    } else if str_eq(value.as_str(), "end") {
                        let mut snap = self.current;
                        snap.status = Status::End;
                        self.current = Progress::new();
                        Some(Ok(snap))
                    } else {
                        self.closed = true;
                        self.current = Progress::new();
                        Some(Err(Error::UnknownStatusError(value)))
                    }
                } else {
                    None
                }
            },
        }
    }

    /// Feeds a whole sequence of lines and collects every published item, in
    /// order: interval N's snapshot always precedes interval N+1's.
    pub fn feed_lines(&mut self, lines: &Vec<String>) -> (out: Vec<Result<Progress, Error>>)
        ensures
            *final(self) == spec_feed_all(*old(self), line_views(lines@)).0,
            items_view(out@) == spec_feed_all(*old(self), line_views(lines@)).1,
    {
        let mut out: Vec<Result<Progress, Error>> = Vec::new();
        let mut i: usize = 0;
        while i < lines.len()
            invariant
                i <= lines@.len(),
                *self == spec_feed_all(*old(self), line_views(lines@.subrange(0, i as int))).0,
                items_view(out@) == spec_feed_all(
                    *old(self),
                    line_views(lines@.subrange(0, i as int)),
                ).1,
            decreases lines@.len() - i,
        {
            proof {
                let lv = line_views(lines@.subrange(0, i as int));
                let lv2 = line_views(lines@.subrange(0, i + 1));
                assert(lv2.drop_last() =~= lv);
                assert(lv2.last() == lines@[i as int]@);
            }
            let item = self.feed_line(lines[i].as_str());
            match item {
                None => {},
                Some(it) => {
                    proof {
                        assert(items_view(out@.push(it)) =~= items_view(out@).push(
                            one_item_view(it),
                        ));
                    }
                    out.push(it);
                },
            }
            i += 1;
        }
        proof {
            assert(lines@.subrange(0, lines@.len() as int) =~= lines@);
        }
        out
    }
}

} // verus!
