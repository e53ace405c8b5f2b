//! Subtitle cues and the cue assembler: a per-source state machine that
//! folds a stream of `(timestamp, recognized text)` samples into discrete,
//! finalized subtitle cues.
//!
//! Consecutive samples whose text differs by less than one fifth of the
//! shorter text's length are treated as recognition jitter over one
//! displayed subtitle and absorbed; a larger difference closes the open cue
//! and opens the next one right after it.

use crate::editdist::{edit_distance, edit_distance_string, spec_min};
use vstd::prelude::*;
use vstd::string::StrSliceExecFns;

verus! {

/// How a cue reached the output: burned into the pixels, or carried as a
/// normal bitstream caption.
#[derive(Clone, Copy, PartialEq, Eq, Structural, Debug)]
pub enum CueMode {
    Burn,
    Normal,
}

/// Mathematical value of a finalized cue.
pub struct CueModel {
    pub text: Seq<char>,
    pub begin_ms: int,
    pub end_ms: int,
    pub mode: CueMode,
}

/// A single timestamped subtitle text span.
pub struct Cue {
    pub text: String,
    pub begin_ms: i64,
    pub end_ms: i64,
    pub mode: CueMode,
}

impl View for Cue {
    type V = CueModel;

    open spec fn view(&self) -> CueModel {
        CueModel {
            text: self.text@,
            begin_ms: self.begin_ms as int,
            end_ms: self.end_ms as int,
            mode: self.mode,
        }
    }
}

impl Cue {
    /// An independent copy of this cue.
    pub fn duplicate(&self) -> (r: Cue)
        ensures
            r@ == self@,
    {
        Cue {
            text: self.text.clone(),
            begin_ms: self.begin_ms,
            end_ms: self.end_ms,
            mode: self.mode,
        }
    }
}

/// A cue occupies a well-defined, non-negative time span.
pub open spec fn cue_wf(c: CueModel) -> bool {
    0 <= c.begin_ms <= c.end_ms
}

/// Every cue in the sequence is well formed.
pub open spec fn cues_wf(s: Seq<CueModel>) -> bool {
    forall|k: int| 0 <= k < s.len() ==> cue_wf(#[trigger] s[k])
}

/// Begin times never decrease along the sequence.
pub open spec fn cues_sorted(s: Seq<CueModel>) -> bool {
    forall|x: int, y: int| 0 <= x < y < s.len() ==> s[x].begin_ms <= s[y].begin_ms
}

/// Mathematical value of one recognition sample.
pub struct SampleModel {
    pub text: Seq<char>,
    pub timestamp_ms: int,
}

/// Text recognized on one sampled frame (or one bitstream caption record),
/// with the stream position it was seen at.  An empty text means no visible
/// subtitle at that sample.
pub struct RecognitionSample {
    pub text: String,
    pub timestamp_ms: i64,
}

impl View for RecognitionSample {
    type V = SampleModel;

    open spec fn view(&self) -> SampleModel {
        SampleModel { text: self.text@, timestamp_ms: self.timestamp_ms as int }
    }
}

/// Index of the first double line break in `s` at or after `i`, or
/// `s.len()` when there is none.
pub open spec fn first_double_break_from(s: Seq<char>, i: int) -> int
    decreases s.len() - i,
{
    if i + 1 >= s.len() {
        s.len() as int
    } else if s[i] == '\n' && s[i + 1] == '\n' {
        i
    } else {
        first_double_break_from(s, i + 1)
    }
}

/// Recognized text cut at the first double line break: recognizer artifacts
/// after the true subtitle line are discarded.
pub open spec fn spec_trim_break(s: Seq<char>) -> Seq<char> {
    s.take(first_double_break_from(s, 0))
}

/// The first double break lies between `i` and the end of `s`.
pub proof fn lemma_first_double_break_range(s: Seq<char>, i: int)
    requires
        0 <= i <= s.len(),
    ensures
        i <= first_double_break_from(s, i) <= s.len(),
    decreases s.len() - i,
{
    if i + 1 >= s.len() {
    } else if s[i] == '\n' && s[i + 1] == '\n' {
    } else {
        lemma_first_double_break_range(s, i + 1);
    }
}

/// Cuts a recognized string at the first double line break.
pub fn trim_at_double_break(s: &str) -> (t: String)
    ensures
        t@ == spec_trim_break(s@),
{
    let n = s.unicode_len();
    if n < 2 {
        proof {
            assert(s@.take(s@.len() as int) =~= s@);
        }
        return s.to_owned();
    }
    let mut i: usize = 0;
    while i < n - 1
        invariant
            2 <= n == s@.len(),
            i <= n - 1,
            first_double_break_from(s@, 0) == first_double_break_from(s@, i as int),
        decreases n - i,
    {
        let c1 = s.get_char(i);
        let c2 = s.get_char(i + 1);
        if c1 == '\n' && c2 == '\n' {
            proof {
                lemma_first_double_break_range(s@, i as int);
                assert(first_double_break_from(s@, i as int) == i);
            }
            let cut = s.substring_char(0, i);
            return cut.to_owned();
        }
        i += 1;
    }
    proof {
        assert(first_double_break_from(s@, i as int) == s@.len());
        assert(s@.take(s@.len() as int) =~= s@);
    }
    s.to_owned()
}

/// Whether a new sample's text is mere recognition jitter over the open
/// cue's text: the edit distance is below one fifth of the shorter length.
pub open spec fn is_noise(cur: Seq<char>, prev: Seq<char>) -> bool {
    5 * edit_distance(cur, prev) < spec_min(cur.len() as int, prev.len() as int)
}

/// Mathematical value of an open, not yet finalized cue.
pub struct PendingModel {
    pub text: Seq<char>,
    pub begin_ms: int,
}

/// An open cue: its text so far and the begin time it will carry.
pub struct PendingCue {
    pub text: String,
    pub begin_ms: i64,
}

impl View for PendingCue {
    type V = PendingModel;

    open spec fn view(&self) -> PendingModel {
        PendingModel { text: self.text@, begin_ms: self.begin_ms as int }
    }
}

/// Mathematical state of a cue assembler: the open cue if any, the floating
/// end-of-last-activity marker, and the history of emitted cues.
pub struct AsmModel {
    pub pending: Option<PendingModel>,
    pub last_end_ms: int,
    pub emitted: Seq<CueModel>,
    pub mode: CueMode,
}

impl AsmModel {
    /// State of a freshly created assembler.
    pub open spec fn init(mode: CueMode) -> AsmModel {
        AsmModel { pending: None, last_end_ms: 0, emitted: Seq::empty(), mode }
    }

    /// Internal invariant: emitted cues are well formed and ordered, the
    /// marker never falls behind them, and an open cue begins after the
    /// last emitted one.
    pub open spec fn wf(self) -> bool {
        &&& 0 <= self.last_end_ms
        &&& cues_wf(self.emitted)
        &&& cues_sorted(self.emitted)
        &&& (self.emitted.len() > 0 ==> self.last_end_ms >= self.emitted.last().begin_ms)
        &&& match self.pending {
            Some(p) => {
                &&& p.text.len() > 0
                &&& 0 <= p.begin_ms
                &&& (self.emitted.len() > 0 ==> p.begin_ms > self.emitted.last().begin_ms)
            },
            None => true,
        }
    }

    /// Earliest timestamp the next observed sample may carry.
    pub open spec fn min_next_ts(self) -> int {
        match self.pending {
            Some(p) => p.begin_ms,
            None => self.last_end_ms,
        }
    }

    /// A sample at `ts` may be observed in this state.
    pub open spec fn can_observe(self, ts: int) -> bool {
        self.min_next_ts() <= ts < i64::MAX
    }
}

/// One observation step of the cue assembler, over already trimmed text
/// `t`.  Returns the successor state and the cue finalized by the step, if
/// any.
pub open spec fn observe_step(m: AsmModel, t: Seq<char>, ts: int) -> (AsmModel, Option<
    CueModel,
>) {
    match m.pending {
        None => {
            if t.len() == 0 {
                // No text and no open cue: only the floating marker moves;
                // it is the candidate begin time of the next cue.
                (AsmModel { last_end_ms: ts, ..m }, None)
            } else {
                // Text appeared: open a cue right after the marker.
                (
                    AsmModel {
                        pending: Some(PendingModel { text: t, begin_ms: m.last_end_ms + 1 }),
                        ..m
                    },
                    None,
                )
            }
        },
        Some(p) => {
            if t.len() == 0 {
                // The text disappeared: the open cue ends here.
                let c = CueModel { text: p.text, begin_ms: p.begin_ms, end_ms: ts, mode: m.mode };
                (
                    AsmModel {
                        pending: None,
                        last_end_ms: ts,
                        emitted: m.emitted.push(c),
                        ..m
                    },
                    Some(c),
                )
            } else if is_noise(t, p.text) {
                // Recognition jitter over the same subtitle: absorbed.
                (m, None)
            } else {
                // A genuine text change: close the open cue at this sample
                // and open the next one right after it.
                let c = CueModel { text: p.text, begin_ms: p.begin_ms, end_ms: ts, mode: m.mode };
                (
                    AsmModel {
                        pending: Some(PendingModel { text: t, begin_ms: ts + 1 }),
                        last_end_ms: ts,
                        emitted: m.emitted.push(c),
                        ..m
                    },
                    Some(c),
                )
            }
        },
    }
}

/// The end-of-stream step: an open cue that was never finalized is closed
/// with its end equal to its begin and emitted once.
pub open spec fn flush_step(m: AsmModel) -> (AsmModel, Option<CueModel>) {
    match m.pending {
        Some(p) => {
            let c = CueModel {
                text: p.text,
                begin_ms: p.begin_ms,
                end_ms: p.begin_ms,
                mode: m.mode,
            };
            (
                AsmModel {
                    pending: None,
                    last_end_ms: if m.last_end_ms >= p.begin_ms {
                        m.last_end_ms
                    } else {
                        p.begin_ms
                    },
                    emitted: m.emitted.push(c),
                    ..m
                },
                Some(c),
            )
        },
        None => (m, None),
    }
}

/// Observation preserves the invariant, and the next admissible timestamp
/// moves at most one past the observed one.
pub proof fn lemma_observe_step_wf(m: AsmModel, t: Seq<char>, ts: int)
    requires
        m.wf(),
        m.can_observe(ts),
    ensures
        observe_step(m, t, ts).0.wf(),
        observe_step(m, t, ts).0.min_next_ts() <= ts + 1,
{
}

/// The flush step preserves the invariant.
pub proof fn lemma_flush_step_wf(m: AsmModel)
    requires
        m.wf(),
    ensures
        flush_step(m).0.wf(),
{
}

/// The cue assembler for one source.
pub struct CueAssembler {
    /// The open cue, if any.
    pub pending: Option<PendingCue>,
    /// End of the last activity: the candidate begin time of the next cue.
    pub last_end_ms: i64,
    /// Mode stamped on every cue this assembler emits.
    pub mode: CueMode,
    /// History of the cues emitted so far, oldest first.
    pub emitted: Ghost<Seq<CueModel>>,
}

impl View for CueAssembler {
    type V = AsmModel;

    open spec fn view(&self) -> AsmModel {
        AsmModel {
            pending: match self.pending {
                Some(p) => Some(p@),
                None => None,
            },
            last_end_ms: self.last_end_ms as int,
            emitted: self.emitted@,
            mode: self.mode,
        }
    }
}

impl CueAssembler {
    /// A fresh assembler with no open cue and the marker at the stream
    /// origin.
    pub fn new(mode: CueMode) -> (a: CueAssembler)
        ensures
            a@ == AsmModel::init(mode),
            a@.wf(),
    {
        let a = CueAssembler {
            pending: None,
            last_end_ms: 0,
            mode,
            emitted: Ghost(Seq::empty()),
        };
        proof {
            assert(a@.emitted =~= AsmModel::init(mode).emitted);
        }
        a
    }

    /// Observes one recognition sample.  The sample's text is first cut at
    /// the first double line break; the rest follows `observe_step`.
    /// When a sample within the similarity threshold of the open cue
    /// arrives, the state is left exactly as it was and no boundary is
    /// made; a genuine change finalizes the open cue at this sample's
    /// timestamp and the returned cue is the one appended to the history.
    pub fn observe(&mut self, sample: &RecognitionSample) -> (out: Option<Cue>)
        requires
            old(self)@.wf(),
            old(self)@.can_observe(sample.timestamp_ms as int),
        ensures
            final(self)@.wf(),
            final(self)@.min_next_ts() <= sample.timestamp_ms + 1,
            ({
                let (m2, e) = observe_step(
                    old(self)@,
                    spec_trim_break(sample.text@),
                    sample.timestamp_ms as int,
                );
                &&& final(self)@ == m2
                &&& match (out, e) {
                    (Some(c), Some(cm)) => c@ == cm,
                    (None, None) => true,
                    _ => false,
                }
            }),
    {
        proof {
            lemma_observe_step_wf(
                self@,
                spec_trim_break(sample.text@),
                sample.timestamp_ms as int,
            );
        }
        let t: String = trim_at_double_break(sample.text.as_str());
        let ts = sample.timestamp_ms;
        let t_is_empty = t.as_str().is_empty();
        let pend = self.pending.take();
        match pend {
            None => {
                if t_is_empty {
                    self.last_end_ms = ts;
                    None
                } else {
                    self.pending = Some(
                        PendingCue { text: t, begin_ms: self.last_end_ms + 1 },
                    );
                    None
                }
            },
            Some(p) => {
                if t_is_empty {
                    let ghost cm = CueModel {
                        text: p.text@,
                        begin_ms: p.begin_ms as int,
                        end_ms: ts as int,
                        mode: self.mode,
                    };
                    let c = Cue { text: p.text, begin_ms: p.begin_ms, end_ms: ts, mode: self.mode };
                    self.last_end_ms = ts;
                    self.emitted = Ghost(self.emitted@.push(cm));
                    Some(c)
                } else {
                    let d = edit_distance_string(t.as_str(), p.text.as_str());
                    let la = t.as_str().unicode_len();
                    let lb = p.text.as_str().unicode_len();
                    let shorter = if la <= lb {
                        la
                    } else {
                        lb
                    };
                    if 5 * (d as u128) < (shorter as u128) {
                        self.pending = Some(p);
                        None
                    } else {
                        let ghost cm = CueModel {
                            text: p.text@,
                            begin_ms: p.begin_ms as int,
                            end_ms: ts as int,
                            mode: self.mode,
                        };
                        let c = Cue {
                            text: p.text,
                            begin_ms: p.begin_ms,
                            end_ms: ts,
                            mode: self.mode,
                        };
                        self.pending = Some(PendingCue { text: t, begin_ms: ts + 1 });
                        self.last_end_ms = ts;
                        self.emitted = Ghost(self.emitted@.push(cm));
                        Some(c)
                    }
                }
            },
        }
    }

    /// End-of-stream flush: if a cue is still open it is finalized exactly
    /// once, with end equal to begin, and emitted.
    pub fn flush(&mut self) -> (out: Option<Cue>)
        requires
            old(self)@.wf(),
        ensures
            final(self)@.wf(),
            ({
                let (m2, e) = flush_step(old(self)@);
                &&& final(self)@ == m2
                &&& match (out, e) {
                    (Some(c), Some(cm)) => c@ == cm,
                    (None, None) => true,
                    _ => false,
                }
            }),
    {
        proof {
            lemma_flush_step_wf(self@);
        }
        let pend = self.pending.take();
        match pend {
            Some(p) => {
                let ghost cm = CueModel {
                    text: p.text@,
                    begin_ms: p.begin_ms as int,
                    end_ms: p.begin_ms as int,
                    mode: self.mode,
                };
                let c = Cue {
                    text: p.text,
                    begin_ms: p.begin_ms,
                    end_ms: p.begin_ms,
                    mode: self.mode,
                };
                if self.last_end_ms < c.begin_ms {
                    self.last_end_ms = c.begin_ms;
                }
                self.emitted = Ghost(self.emitted@.push(cm));
                Some(c)
            },
            None => None,
        }
    }
}

/// Every cue sequence a well-formed assembler has emitted keeps begin at or
/// before end on each cue, and begin times non-decreasing across cues.
pub proof fn lemma_emitted_cues_ordered(m: AsmModel)
    requires
        m.wf(),
    ensures
        cues_wf(m.emitted),
        cues_sorted(m.emitted),
{
}

/// A non-empty sample within the relative edit-distance threshold of the
/// open cue is absorbed: the assembler is left unchanged and no cue
/// boundary is made.
pub proof fn lemma_noise_sample_merges(m: AsmModel, p: PendingModel, t: Seq<char>, ts: int)
    requires
        m.wf(),
        m.pending == Some(p),
        t.len() > 0,
        is_noise(t, p.text),
    ensures
        observe_step(m, t, ts) == (m, Option::<CueModel>::None),
{
}

/// A non-empty sample at or above the threshold finalizes the open cue at
/// the sample's timestamp and opens the next cue one past the emitted
/// cue's end.
pub proof fn lemma_text_change_splits(m: AsmModel, p: PendingModel, t: Seq<char>, ts: int)
    requires
        m.wf(),
        m.pending == Some(p),
        t.len() > 0,
        !is_noise(t, p.text),
    ensures
        ({
            let (m2, e) = observe_step(m, t, ts);
            let c = CueModel { text: p.text, begin_ms: p.begin_ms, end_ms: ts, mode: m.mode };
            &&& e == Some(c)
            &&& m2.emitted == m.emitted.push(c)
            &&& m2.pending == Some(PendingModel { text: t, begin_ms: c.end_ms + 1 })
        }),
{
}

/// End-of-stream flush of an open cue emits it exactly once, with end
/// equal to begin, and leaves nothing open.
pub proof fn lemma_flush_emits_pending(m: AsmModel, p: PendingModel)
    requires
        m.wf(),
        m.pending == Some(p),
    ensures
        ({
            let (m2, e) = flush_step(m);
            let c = CueModel {
                text: p.text,
                begin_ms: p.begin_ms,
                end_ms: p.begin_ms,
                mode: m.mode,
            };
            &&& e == Some(c)
            &&& m2.emitted == m.emitted.push(c)
            &&& m2.pending is None
        }),
{
}

} // verus!
