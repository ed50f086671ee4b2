//! Scanners for the progress lines that the two external tools print, and the
//! throttles that decide which of them the operator sees.
use vstd::prelude::*;
use crate::text::{
    all_digits, chars_of, contains, contains_seq, count_spec, digits_end, digits_end_spec,
    find_from, first_occurrence, is_space, occurs_at, is_space_char, lemma_first_occurrence, parse_count,
    run_end, run_end_spec, skip_spaces, skip_spaces_spec,
};

verus! {

/// The position at which a trailing run of `%` signs in `s[from..to]` begins.
pub open spec fn trim_percents_spec(s: Seq<char>, from: int, to: int) -> int
    decreases to - from,
{
    if to > from && s[to - 1] == '%' {
        trim_percents_spec(s, from, to - 1)
    } else {
        to
    }
}

/// The integer part of a decimal number `s[from..to]`, written as digits,
/// optionally followed by a point and more digits.
pub open spec fn decimal_int_spec(s: Seq<char>, from: int, to: int) -> Option<u64> {
    let k = digits_end_spec(s, from, to);
    if k == from {
        None
    } else if k == to || (s[k] == '.' && all_digits(s, k + 1, to)) {
        count_spec(s, from, k)
    } else {
        None
    }
}

/// The whole percentage written by a word `s[from..to]` such as `45.2%`.
pub open spec fn percent_word_spec(s: Seq<char>, from: int, to: int) -> Option<u64> {
    if from < to && s[to - 1] == '%' {
        decimal_int_spec(s, from, trim_percents_spec(s, from, to))
    } else {
        None
    }
}

/// A word of `s` (a maximal run of characters other than white space) starts at `i`.
pub open spec fn is_word_start(s: Seq<char>, i: int) -> bool {
    0 <= i < s.len() && !is_space(s[i]) && (i == 0 || is_space(s[i - 1]))
}

/// The first word of `s` at or after `i` that is a percentage, read as one.
pub open spec fn first_percent_from(s: Seq<char>, i: int) -> Option<u64>
    decreases s.len() - i,
{
    if i < 0 || i >= s.len() {
        None
    } else if is_word_start(s, i) && percent_word_spec(s, i, run_end_spec(s, i, s.len() as int))
        is Some {
        percent_word_spec(s, i, run_end_spec(s, i, s.len() as int))
    } else {
        first_percent_from(s, i + 1)
    }
}

/// What a line of the downloader's output says about progress.
#[derive(Debug, Clone, Copy, PartialEq, Eq, Structural)]
pub enum DownloadLine {
    /// A partial progress line, with its whole percentage.
    Percent(u64),
    /// The line that reports the download complete.
    Complete,
    /// Anything else.
    Other,
}

pub open spec fn download_line_spec(s: Seq<char>) -> DownloadLine {
    if contains_seq(s, "[download]"@) && contains_seq(s, "%"@) && !contains_seq(s, "100%"@) {
        match first_percent_from(s, 0) {
            Some(p) => DownloadLine::Percent(p),
            None => DownloadLine::Other,
        }
    } else if contains_seq(s, "[download] 100%"@) {
        DownloadLine::Complete
    } else {
        DownloadLine::Other
    }
}

fn trim_percents(s: &Vec<char>, from: usize, to: usize) -> (r: usize)
    requires
        from <= to <= s@.len(),
    ensures
        r == trim_percents_spec(s@, from as int, to as int),
        from <= r <= to,
{
    let mut e = to;
    while e > from && s[e - 1] == '%'
        invariant
            from <= e <= to <= s@.len(),
            trim_percents_spec(s@, from as int, to as int) == trim_percents_spec(
                s@,
                from as int,
                e as int,
            ),
        decreases e,
    {
        e = e - 1;
    }
    e
}

fn decimal_int(s: &Vec<char>, from: usize, to: usize) -> (r: Option<u64>)
    requires
        from <= to <= s@.len(),
    ensures
        r == decimal_int_spec(s@, from as int, to as int),
{
    let k = digits_end(s, from, to);
    if k == from {
        None
    } else if k == to {
        parse_count(s, from, k)
    } else if s[k] == '.' && digits_end(s, k + 1, to) == to {
        parse_count(s, from, k)
    } else {
        proof {
            if s@[k as int] == '.' && all_digits(s@, k + 1, to as int) {
                lemma_digits_end_full(s@, k + 1, to as int);
            }
        }
        None
    }
}

proof fn lemma_digits_end_full(s: Seq<char>, from: int, to: int)
    requires
        0 <= from <= to <= s.len(),
        all_digits(s, from, to),
    ensures
        digits_end_spec(s, from, to) == to,
    decreases to - from,
{
    if from < to {
        lemma_digits_end_full(s, from + 1, to);
    }
}

/// The whole percentage written by the word `s[from..to]`, if it is one.
fn percent_word(s: &Vec<char>, from: usize, to: usize) -> (r: Option<u64>)
    requires
        from <= to <= s@.len(),
    ensures
        r == percent_word_spec(s@, from as int, to as int),
{
    if from < to && s[to - 1] == '%' {
        let e = trim_percents(s, from, to);
        decimal_int(s, from, e)
    } else {
        None
    }
}

/// The first word of `s` that is a percentage, read as one.
fn first_percent(s: &Vec<char>) -> (r: Option<u64>)
    ensures
        r == first_percent_from(s@, 0),
{
    let n = s.len();
    let mut i: usize = 0;
    while i < n
        invariant
            n == s@.len(),
            i <= n,
            first_percent_from(s@, 0) == first_percent_from(s@, i as int),
        decreases n - i,
    {
        if !is_space_char(s[i]) && (i == 0 || is_space_char(s[i - 1])) {
            let e = run_end(s, i, n);
            let p = percent_word(s, i, e);
            if p.is_some() {
                return p;
            }
        }
        i = i + 1;
    }
    None
}

/// Classifies one line of the downloader's output.
pub fn classify_download_line(line: &str) -> (r: DownloadLine)
    ensures
        r == download_line_spec(line@),
{
    let s = chars_of(line);
    if contains(&s, "[download]") && contains(&s, "%") && !contains(&s, "100%") {
        match first_percent(&s) {
            Some(p) => DownloadLine::Percent(p),
            None => DownloadLine::Other,
        }
    } else if contains(&s, "[download] 100%") {
        DownloadLine::Complete
    } else {
        DownloadLine::Other
    }
}

/// The advance, in whole percent, that a download must make before it is shown.
pub const PERCENT_STEP: u64 = 20;

/// The advance, in frames, that a conversion must make before it is shown.
pub const FRAME_STEP: u64 = 1000;

/// Every this many lines, a conversion line with a time marker is shown as a sign
/// of life.
pub const ALIVE_EVERY: u64 = 100;

/// The next state and the notice of the download throttle, given the last
/// percentage shown and what a line said.
pub open spec fn download_step_spec(last: u64, l: DownloadLine) -> (u64, Option<u64>) {
    match l {
        DownloadLine::Percent(p) => if p >= 100 {
            (last, Some(100))
        } else if p >= last + PERCENT_STEP {
            (p, Some(p))
        } else {
            (last, None)
        },
        DownloadLine::Complete => (last, Some(100)),
        DownloadLine::Other => (last, None),
    }
}

/// The throttle of one download's progress: a percentage under 100 is shown only
/// once it is at least `PERCENT_STEP` past the last one shown; a reading of 100
/// or more, and the completion line, are always shown as 100.
#[derive(Debug, Clone, Copy, PartialEq, Eq, Structural)]
pub struct DownloadProgress {
    pub last_shown: u64,
}

impl DownloadProgress {
    pub fn new() -> (r: DownloadProgress)
        ensures
            r.last_shown == 0,
    {
        DownloadProgress { last_shown: 0 }
    }

    /// Feeds one classified line; returns the percentage to show, if any.
    pub fn step(&mut self, l: DownloadLine) -> (r: Option<u64>)
        ensures
            (final(self).last_shown, r) == download_step_spec(old(self).last_shown, l),
    {
        match l {
            DownloadLine::Percent(p) => {
                if p >= 100 {
                    Some(100)
                } else if self.last_shown <= u64::MAX - PERCENT_STEP && p >= self.last_shown
                    + PERCENT_STEP {
                    self.last_shown = p;
                    Some(p)
                } else {
                    None
                }
            },
            DownloadLine::Complete => Some(100),
            DownloadLine::Other => None,
        }
    }

    /// Feeds one line of the downloader's output; returns the percentage to
    /// show, if any.
    pub fn observe(&mut self, line: &str) -> (r: Option<u64>)
        ensures
            (final(self).last_shown, r) == download_step_spec(
                old(self).last_shown,
                download_line_spec(line@),
            ),
    {
        let l = classify_download_line(line);
        self.step(l)
    }
}

/// The next state and the notice of the frame throttle, given the last frame
/// shown and the frame counter a progress line carried, if any.
pub open spec fn frame_step_spec(last: u64, frame: Option<u64>) -> (u64, Option<u64>) {
    match frame {
        Some(f) => if f >= last + FRAME_STEP {
            (f, Some(f))
        } else {
            (last, None)
        },
        None => (last, None),
    }
}

/// The state of a download throttle after `lines`, from `last`, with the
/// percentages it showed, in order.
pub open spec fn download_run(last: u64, lines: Seq<DownloadLine>) -> (u64, Seq<u64>)
    decreases lines.len(),
{
    if lines.len() == 0 {
        (last, seq![])
    } else {
        let (mid, shown) = download_run(last, lines.drop_last());
        let (next, notice) = download_step_spec(mid, lines.last());
        (
            next,
            match notice {
                Some(p) => shown.push(p),
                None => shown,
            },
        )
    }
}

/// Over any run of downloader lines, every partial percentage shown lies at
/// least `PERCENT_STEP` above the state the run started from and above every
/// partial percentage shown before it; reaching 100 is shown as 100.
pub proof fn download_notices_are_spaced(last: u64, lines: Seq<DownloadLine>)
    ensures
        forall|i: int|
            0 <= i < download_run(last, lines).1.len() && #[trigger] download_run(
                last,
                lines,
            ).1[i] < 100 ==> download_run(last, lines).1[i] >= last + PERCENT_STEP,
        forall|i: int, j: int|
            0 <= i < j < download_run(last, lines).1.len() && #[trigger] download_run(
                last,
                lines,
            ).1[i] < 100 && #[trigger] download_run(last, lines).1[j] < 100 ==> download_run(
                last,
                lines,
            ).1[j] >= download_run(last, lines).1[i] + PERCENT_STEP,
{
    lemma_download_run(last, lines);
}

proof fn lemma_download_run(last: u64, lines: Seq<DownloadLine>)
    ensures
        download_run(last, lines).0 >= last,
        forall|i: int|
            0 <= i < download_run(last, lines).1.len() && #[trigger] download_run(
                last,
                lines,
            ).1[i] < 100 ==> download_run(last, lines).1[i] >= last + PERCENT_STEP
                && download_run(last, lines).1[i] <= download_run(last, lines).0,
        forall|i: int|
            0 <= i < download_run(last, lines).1.len() ==> #[trigger] download_run(
                last,
                lines,
            ).1[i] <= 100,
        forall|i: int, j: int|
            0 <= i < j < download_run(last, lines).1.len() && #[trigger] download_run(
                last,
                lines,
            ).1[i] < 100 && #[trigger] download_run(last, lines).1[j] < 100 ==> download_run(
                last,
                lines,
            ).1[j] >= download_run(last, lines).1[i] + PERCENT_STEP,
    decreases lines.len(),
{
    if lines.len() > 0 {
        lemma_download_run(last, lines.drop_last());
    }
}

/// The state of a frame throttle after a run of frame readings, from `last`,
/// with the frames it showed, in order.
pub open spec fn frame_run(last: u64, frames: Seq<Option<u64>>) -> (u64, Seq<u64>)
    decreases frames.len(),
{
    if frames.len() == 0 {
        (last, seq![])
    } else {
        let (mid, shown) = frame_run(last, frames.drop_last());
        let (next, notice) = frame_step_spec(mid, frames.last());
        (
            next,
            match notice {
                Some(f) => shown.push(f),
                None => shown,
            },
        )
    }
}

/// Over any run of frame readings, every frame shown lies at least `FRAME_STEP`
/// above the state the run started from and above every frame shown before it.
pub proof fn frame_notices_are_spaced(last: u64, frames: Seq<Option<u64>>)
    ensures
        forall|i: int|
            0 <= i < frame_run(last, frames).1.len() ==> #[trigger] frame_run(last, frames).1[i]
                >= last + FRAME_STEP,
        forall|i: int, j: int|
            0 <= i < j < frame_run(last, frames).1.len() ==> #[trigger] frame_run(last, frames).1[j]
                >= #[trigger] frame_run(last, frames).1[i] + FRAME_STEP,
{
    lemma_frame_run(last, frames);
}

proof fn lemma_frame_run(last: u64, frames: Seq<Option<u64>>)
    ensures
        frame_run(last, frames).0 >= last,
        forall|i: int|
            0 <= i < frame_run(last, frames).1.len() ==> #[trigger] frame_run(last, frames).1[i]
                >= last + FRAME_STEP && frame_run(last, frames).1[i] <= frame_run(last, frames).0,
        forall|i: int, j: int|
            0 <= i < j < frame_run(last, frames).1.len() ==> #[trigger] frame_run(last, frames).1[j]
                >= #[trigger] frame_run(last, frames).1[i] + FRAME_STEP,
    decreases frames.len(),
{
    if frames.len() > 0 {
        lemma_frame_run(last, frames.drop_last());
    }
}

/// Where the value written after the first `key` of `s` lies: the first word
/// between that `key` and the next one (or the end of the line).
pub open spec fn field_span(s: Seq<char>, key: Seq<char>) -> Option<(int, int)> {
    match first_occurrence(s, key, 0) {
        None => None,
        Some(i) => {
            let start = i + key.len();
            let end = match first_occurrence(s, key, start) {
                Some(j) => j,
                None => s.len() as int,
            };
            let a = skip_spaces_spec(s, start, end);
            if a == end {
                None
            } else {
                Some((a, run_end_spec(s, a, end)))
            }
        },
    }
}

/// The frame counter of a transcoder progress line, if it has a readable one.
pub open spec fn frame_value(s: Seq<char>) -> Option<u64> {
    match field_span(s, "frame="@) {
        Some((a, e)) => count_spec(s, a, e),
        None => None,
    }
}

/// The speed text of a transcoder progress line, or `?` where it has none.
pub open spec fn speed_text(s: Seq<char>) -> Seq<char> {
    match field_span(s, "speed="@) {
        Some((a, e)) => s.subrange(a, e),
        None => "?"@,
    }
}

/// A line carries both a frame counter and a speed marker.
pub open spec fn is_frame_line(s: Seq<char>) -> bool {
    contains_seq(s, "frame="@) && contains_seq(s, "speed="@)
}

fn field(s: &Vec<char>, key: &str) -> (r: Option<(usize, usize)>)
    ensures
        r matches Some((a, e)) ==> field_span(s@, key@) == Some((a as int, e as int)) && a <= e
            <= s@.len(),
        r is None ==> field_span(s@, key@) is None,
{
    let n = s.len();
    match find_from(s, key, 0) {
        None => None,
        Some(i) => {
            proof {
                lemma_first_occurrence(s@, key@, 0);
                let j = first_occurrence(s@, key@, 0)->0;
                assert(occurs_at(s@, key@, j));
                assert(i as int == j);
            }
            let start = i + key.unicode_len();
            let end = match find_from(s, key, start) {
                Some(j) => j,
                None => s.len(),
            };
            proof {
                lemma_first_occurrence(s@, key@, start as int);
                if first_occurrence(s@, key@, start as int) is Some {
                    let j = first_occurrence(s@, key@, start as int)->0;
                    assert(occurs_at(s@, key@, j));
                    assert(end as int == j);
                }
            }
            let a = skip_spaces(s, start, end);
            if a == end {
                None
            } else {
                Some((a, run_end(s, a, end)))
            }
        },
    }
}

/// What the conversion throttle shows for one line.
#[derive(Debug, Clone, PartialEq, Eq)]
pub enum ConvertNotice {
    /// A frame counter that has advanced far enough, with the speed text.
    Frame { frame: u64, speed: String },
    /// A sign of life from a line without a frame counter.
    Alive,
    /// Nothing to show.
    Quiet,
}

/// The throttle of one conversion's progress.
#[derive(Debug, Clone, Copy, PartialEq, Eq, Structural)]
pub struct ConvertProgress {
    /// Lines seen so far (clamped at `u64::MAX`).
    pub lines_seen: u64,
    /// The frame counter shown last, or 0.
    pub last_frame: u64,
}

impl ConvertProgress {
    pub fn new() -> (r: ConvertProgress)
        ensures
            r.lines_seen == 0,
            r.last_frame == 0,
    {
        ConvertProgress { lines_seen: 0, last_frame: 0 }
    }

    /// Feeds one line of the transcoder's diagnostic output; returns what to show.
    pub fn observe(&mut self, line: &str) -> (r: ConvertNotice)
        ensures
            final(self).lines_seen == if old(self).lines_seen < u64::MAX {
                old(self).lines_seen + 1
            } else {
                old(self).lines_seen as int
            },
            is_frame_line(line@) ==> final(self).last_frame == frame_step_spec(
                old(self).last_frame,
                frame_value(line@),
            ).0,
            is_frame_line(line@) ==> (if frame_step_spec(
                old(self).last_frame,
                frame_value(line@),
            ).1 is Some {
                &&& r matches ConvertNotice::Frame { frame, speed }
                &&& Some(r->frame) == frame_step_spec(old(self).last_frame, frame_value(line@)).1
                &&& r->speed@ == speed_text(line@)
            } else {
                r is Quiet
            }),
            !is_frame_line(line@) ==> final(self).last_frame == old(self).last_frame,
            !is_frame_line(line@) ==> (if final(self).lines_seen % ALIVE_EVERY == 0
                && contains_seq(line@, "time="@) {
                r is Alive
            } else {
                r is Quiet
            }),
    {
        if self.lines_seen < u64::MAX {
            self.lines_seen = self.lines_seen + 1;
        }
        let s = chars_of(line);
        if contains(&s, "frame=") && contains(&s, "speed=") {
            let f = match field(&s, "frame=") {
                Some((a, e)) => parse_count(&s, a, e),
                None => None,
            };
            match f {
                Some(f) => {
                    if self.last_frame <= u64::MAX - FRAME_STEP && f >= self.last_frame
                        + FRAME_STEP {
                        let speed = match field(&s, "speed=") {
                            Some((a, e)) => line.substring_char(a, e).to_owned(),
                            None => "?".to_owned(),
                        };
                        self.last_frame = f;
                        ConvertNotice::Frame { frame: f, speed }
                    } else {
                        ConvertNotice::Quiet
                    }
                },
                None => ConvertNotice::Quiet,
            }
        } else if self.lines_seen % ALIVE_EVERY == 0 && contains(&s, "time=") {
            ConvertNotice::Alive
        } else {
            ConvertNotice::Quiet
        }
    }
}

} // verus!
