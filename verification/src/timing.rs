//! Stream-clock arithmetic: converting container timestamps to wall-clock
//! units, the sampling rate limit, and progress reporting.

use vstd::prelude::*;

verus! {

/// A container time base: the rational factor `num / den` that scales raw
/// presentation timestamps into seconds.
#[derive(Clone, Copy, PartialEq, Eq, Structural, Debug)]
pub struct TimeBase {
    pub num: i64,
    pub den: i64,
}

impl TimeBase {
    /// A usable time base is a non-negative ratio with a positive divisor.
    pub open spec fn wf(self) -> bool {
        0 <= self.num && 1 <= self.den
    }
}

/// Milliseconds that `pts` raw timestamp units denote under time base
/// `num / den`, truncated toward zero.
pub open spec fn spec_pts_to_ms(pts: int, num: int, den: int) -> int {
    pts * num * 1000 / den
}

/// Seconds that `pts` raw timestamp units denote under time base
/// `num / den`, truncated toward zero.
pub open spec fn spec_pts_to_s(pts: int, num: int, den: int) -> int {
    pts * num / den
}

/// Converts a presentation timestamp to milliseconds.
pub fn pts_to_ms(pts: i64, tb: TimeBase) -> (ms: i64)
    requires
        tb.wf(),
        0 <= pts,
        pts * tb.num <= i64::MAX,
        spec_pts_to_ms(pts as int, tb.num as int, tb.den as int) <= i64::MAX,
    ensures
        ms == spec_pts_to_ms(pts as int, tb.num as int, tb.den as int),
{
    let wide: i128 = (pts as i128) * (tb.num as i128) * 1000 / (tb.den as i128);
    wide as i64
}

/// Converts a presentation timestamp to whole seconds.
pub fn pts_to_s(pts: i64, tb: TimeBase) -> (s: i64)
    requires
        tb.wf(),
        0 <= pts,
        pts * tb.num <= i64::MAX,
    ensures
        s == spec_pts_to_s(pts as int, tb.num as int, tb.den as int),
{
    let wide: i128 = (pts as i128) * (tb.num as i128) / (tb.den as i128);
    wide as i64
}

/// Absolute difference of two instants, as a mathematical integer.
pub open spec fn spec_abs_diff(a: int, b: int) -> int {
    if a >= b {
        a - b
    } else {
        b - a
    }
}

/// The sampling rate limit: a frame is worth segmenting only when at least
/// `min_gap_ms` milliseconds separate it from the previously sampled frame.
/// Frames closer than that are skipped outright; this bounds recognition
/// cost and is not a merge decision.
pub fn sample_gap_ok(prev_ms: i64, cur_ms: i64, min_gap_ms: i64) -> (ok: bool)
    ensures
        ok == (spec_abs_diff(cur_ms as int, prev_ms as int) >= min_gap_ms),
{
    let diff: i128 = (cur_ms as i128) - (prev_ms as i128);
    let abs: i128 = if diff >= 0 {
        diff
    } else {
        -diff
    };
    abs >= (min_gap_ms as i128)
}

/// Whether `frame_number` falls on the sampling cadence of one frame in
/// every `stride`.
pub fn is_sample_frame(frame_number: u64, stride: u64) -> (on: bool)
    requires
        1 <= stride,
    ensures
        on == (frame_number as int % stride as int == 0),
{
    frame_number % stride == 0
}

/// Completion percentage of the run, clamped to `0..=100`; `-1` when the
/// container reports no usable total duration.
pub open spec fn spec_progress_percent(cur_s: int, total_s: int) -> int {
    if total_s <= 0 {
        -1
    } else if cur_s * 100 / total_s > 100 {
        100
    } else {
        cur_s * 100 / total_s
    }
}

/// Computes the progress percentage forwarded to the progress reporter.
pub fn progress_percent(cur_s: i64, total_s: i64) -> (p: i32)
    requires
        0 <= cur_s,
    ensures
        p == spec_progress_percent(cur_s as int, total_s as int),
{
    if total_s <= 0 {
        -1
    } else {
        let wide: i128 = (cur_s as i128) * 100 / (total_s as i128);
        if wide > 100 {
            100
        } else {
            wide as i32
        }
    }
}

/// Progress through the input by bytes consumed, in coarse 256-byte
/// blocks as the demultiplexer accounts for them.
pub open spec fn spec_input_progress_percent(consumed: int, total: int) -> int {
    (consumed / 256) * 100 / (total / 256)
}

/// Completion percentage for a caption pass that knows only how many
/// bytes of the input it has consumed.  The total must be large enough
/// to hold at least one 256-byte block.
pub fn input_progress_percent(consumed: i64, total: i64) -> (p: i64)
    requires
        0 <= consumed,
        255 < total,
    ensures
        p == spec_input_progress_percent(consumed as int, total as int),
{
    let wide: i128 = ((consumed as i128) / 256) * 100 / ((total as i128) / 256);
    proof {
        assert((consumed as i128) / 256 * 100 / ((total as i128) / 256) <= (consumed as i128))
            by (nonlinear_arith)
            requires
                0 <= consumed as i128,
                255 < total as i128,
        ;
    }
    wide as i64
}

/// Whether a live stream owes the reporter a new update: one is due each
/// time the position enters a new ten-second bucket.
pub fn live_report_due(cur_s: i32, last_reported: i32) -> (due: bool)
    requires
        0 <= cur_s,
    ensures
        due == (last_reported != cur_s / 10),
{
    last_reported != cur_s / 10
}

/// The decode timestamp used for reporting: when the field clock still
/// reads zero but the demultiplexer's global clock has started, the
/// global clock's elapsed time stands in.
pub fn effective_timestamp(fts: i64, global_inited: bool, global_ts: i64, min_global_ts: i64) -> (t:
    i64)
    requires
        min_global_ts <= global_ts,
        global_ts - min_global_ts <= i64::MAX,
    ensures
        t == (if fts == 0 && global_inited {
            global_ts - min_global_ts
        } else {
            fts as int
        }),
{
    if fts == 0 && global_inited {
        global_ts - min_global_ts
    } else {
        fts
    }
}

/// Splits a position in whole seconds into the minute and second fields the
/// progress reporter takes.
pub fn progress_clock(cur_s: i64) -> (mmss: (i32, i32))
    requires
        0 <= cur_s,
        cur_s / 60 <= i32::MAX,
    ensures
        mmss.0 == cur_s as int / 60,
        mmss.1 == cur_s as int % 60,
{
    ((cur_s / 60) as i32, (cur_s % 60) as i32)
}

} // verus!
