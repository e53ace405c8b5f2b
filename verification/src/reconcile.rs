//! The dual-source reconciler: interleaves two independently paced cue
//! sources — the frame-sampled recognition path and the bitstream caption
//! path — into one output stream whose cues leave in non-decreasing begin
//! order.
//!
//! The reconciler holds at most one finalized cue per source.  A source
//! with an empty slot is asked for its next cue first; once both slots are
//! settled the cue with the smaller begin time leaves, the caption source
//! first on ties, as the authoritative one.  A source's end is sticky:
//! after its end of stream, or after a fatal decode error, the source is
//! never asked again and the other source is drained to completion.

use crate::cue::{cue_wf, cues_sorted, cues_wf, Cue, CueModel};
use vstd::multiset::Multiset;
use vstd::prelude::*;

verus! {

/// What the reconciliation loop should do next.
#[derive(Clone, Copy, PartialEq, Eq, Structural, Debug)]
pub enum ReconcileAction {
    /// Pull the next finalized cue from the frame-sampled source.
    NeedOcr,
    /// Pull the next finalized cue from the bitstream caption source.
    NeedCaption,
    /// Forward the buffered frame-sampled cue to the output sink.
    EmitOcr,
    /// Forward the buffered caption cue to the output sink.
    EmitCaption,
    /// Both sources have ended and nothing is buffered.
    Finished,
}

/// Mathematical state of the reconciler.
pub struct RecModel {
    pub ocr_next: Option<CueModel>,
    pub cap_next: Option<CueModel>,
    pub ocr_done: bool,
    pub cap_done: bool,
    pub last_begin_ms: int,
    pub emitted: Seq<CueModel>,
}

impl RecModel {
    /// Internal invariant: what left the reconciler is well formed and
    /// ordered, the watermark equals the last emitted begin, and buffered
    /// cues never fall behind the watermark.
    pub open spec fn wf(self) -> bool {
        &&& cues_wf(self.emitted)
        &&& cues_sorted(self.emitted)
        &&& 0 <= self.last_begin_ms
        &&& (self.emitted.len() > 0 ==> self.last_begin_ms == self.emitted.last().begin_ms)
        &&& (self.emitted.len() == 0 ==> self.last_begin_ms == 0)
        &&& match self.ocr_next {
            Some(c) => cue_wf(c) && c.begin_ms >= self.last_begin_ms,
            None => true,
        }
        &&& match self.cap_next {
            Some(c) => cue_wf(c) && c.begin_ms >= self.last_begin_ms,
            None => true,
        }
    }
}

/// The decision at the head of each loop iteration: fill empty slots of
/// live sources first, then let the earlier buffered cue leave, the
/// caption cue first when begin times tie.
pub open spec fn spec_next_action(m: RecModel) -> ReconcileAction {
    if !m.ocr_done && m.ocr_next is None {
        ReconcileAction::NeedOcr
    } else if !m.cap_done && m.cap_next is None {
        ReconcileAction::NeedCaption
    } else {
        match (m.ocr_next, m.cap_next) {
            (Some(a), Some(b)) => if b.begin_ms <= a.begin_ms {
                ReconcileAction::EmitCaption
            } else {
                ReconcileAction::EmitOcr
            },
            (Some(a), None) => ReconcileAction::EmitOcr,
            (None, Some(b)) => ReconcileAction::EmitCaption,
            (None, None) => ReconcileAction::Finished,
        }
    }
}

/// Step policy for pulling work: the frame-sampled source is advanced only
/// while it is not already ahead of the caption source, so neither decoder
/// runs arbitrarily far ahead of the other.  On equal start times the
/// caption source goes first, as the authoritative one.
pub fn should_advance_ocr(ocr_start_ms: i64, caption_start_ms: i64, captions_done: bool) -> (go:
    bool)
    ensures
        go == (captions_done || ocr_start_ms < caption_start_ms),
{
    captions_done || ocr_start_ms < caption_start_ms
}

/// The reconciler: one buffered cue per source, sticky per-source end
/// flags, and the history of what has left for the output sink.
pub struct Reconciler {
    /// Next finalized cue of the frame-sampled source, if pulled already.
    pub ocr_next: Option<Cue>,
    /// Next finalized cue of the caption source, if pulled already.
    pub cap_next: Option<Cue>,
    /// The frame-sampled source has ended (end of stream or fatal error).
    pub ocr_done: bool,
    /// The caption source has ended (end of stream or fatal error).
    pub cap_done: bool,
    /// Begin time of the last cue that left, `0` before the first.
    pub last_begin_ms: i64,
    /// History of the cues that left, oldest first.
    pub emitted: Ghost<Seq<CueModel>>,
}

impl View for Reconciler {
    type V = RecModel;

    open spec fn view(&self) -> RecModel {
        RecModel {
            ocr_next: match self.ocr_next {
                Some(c) => Some(c@),
                None => None,
            },
            cap_next: match self.cap_next {
                Some(c) => Some(c@),
                None => None,
            },
            ocr_done: self.ocr_done,
            cap_done: self.cap_done,
            last_begin_ms: self.last_begin_ms as int,
            emitted: self.emitted@,
        }
    }
}

impl Reconciler {
    /// A fresh reconciler: nothing buffered, both sources live.
    pub fn new() -> (r: Reconciler)
        ensures
            r@.wf(),
            r@.ocr_next is None,
            r@.cap_next is None,
            !r@.ocr_done,
            !r@.cap_done,
            r@.emitted == Seq::<CueModel>::empty(),
            r@.last_begin_ms == 0,
    {
        let r = Reconciler {
            ocr_next: None,
            cap_next: None,
            ocr_done: false,
            cap_done: false,
            last_begin_ms: 0,
            emitted: Ghost(Seq::empty()),
        };
        proof {
            assert(r@.emitted =~= Seq::<CueModel>::empty());
        }
        r
    }

    /// What the loop should do next.
    pub fn next_action(&self) -> (a: ReconcileAction)
        ensures
            a == spec_next_action(self@),
    {
        if !self.ocr_done && self.ocr_next.is_none() {
            ReconcileAction::NeedOcr
        } else if !self.cap_done && self.cap_next.is_none() {
            ReconcileAction::NeedCaption
        } else {
            match (&self.ocr_next, &self.cap_next) {
                (Some(a), Some(b)) => if b.begin_ms <= a.begin_ms {
                    ReconcileAction::EmitCaption
                } else {
                    ReconcileAction::EmitOcr
                },
                (Some(_), None) => ReconcileAction::EmitOcr,
                (None, Some(_)) => ReconcileAction::EmitCaption,
                (None, None) => ReconcileAction::Finished,
            }
        }
    }

    /// Buffers the next finalized cue pulled from the frame-sampled
    /// source.  The source must hand cues in non-decreasing begin order,
    /// so the new cue may not fall behind the watermark.
    pub fn give_ocr(&mut self, c: Cue)
        requires
            old(self)@.wf(),
            spec_next_action(old(self)@) == ReconcileAction::NeedOcr,
            cue_wf(c@),
            c@.begin_ms >= old(self)@.last_begin_ms,
        ensures
            final(self)@.wf(),
            final(self)@ == (RecModel { ocr_next: Some(c@), ..old(self)@ }),
    {
        self.ocr_next = Some(c);
    }

    /// Buffers the next finalized cue pulled from the caption source,
    /// under the same ordering obligation.
    pub fn give_caption(&mut self, c: Cue)
        requires
            old(self)@.wf(),
            spec_next_action(old(self)@) == ReconcileAction::NeedCaption,
            cue_wf(c@),
            c@.begin_ms >= old(self)@.last_begin_ms,
        ensures
            final(self)@.wf(),
            final(self)@ == (RecModel { cap_next: Some(c@), ..old(self)@ }),
    {
        self.cap_next = Some(c);
    }

    /// Marks the frame-sampled source as ended, after its end of stream or
    /// a fatal decode error.  The flag is sticky; the caption source keeps
    /// draining.
    pub fn end_ocr(&mut self)
        requires
            old(self)@.wf(),
        ensures
            final(self)@.wf(),
            final(self)@ == (RecModel { ocr_done: true, ..old(self)@ }),
    {
        self.ocr_done = true;
    }

    /// Marks the caption source as ended; sticky, the other source keeps
    /// draining.
    pub fn end_caption(&mut self)
        requires
            old(self)@.wf(),
        ensures
            final(self)@.wf(),
            final(self)@ == (RecModel { cap_done: true, ..old(self)@ }),
    {
        self.cap_done = true;
    }

    /// Lets the earlier buffered cue leave for the output sink.  The cue
    /// that leaves never begins before any cue that left earlier.
    pub fn emit_next(&mut self) -> (c: Cue)
        requires
            old(self)@.wf(),
            spec_next_action(old(self)@) == ReconcileAction::EmitOcr || spec_next_action(
                old(self)@,
            ) == ReconcileAction::EmitCaption,
        ensures
            final(self)@.wf(),
            cue_wf(c@),
            c@.begin_ms >= old(self)@.last_begin_ms,
            final(self)@.emitted == old(self)@.emitted.push(c@),
            final(self)@.last_begin_ms == c@.begin_ms,
            final(self)@.ocr_done == old(self)@.ocr_done,
            final(self)@.cap_done == old(self)@.cap_done,
            spec_next_action(old(self)@) == ReconcileAction::EmitCaption ==> {
                &&& old(self)@.cap_next == Some(c@)
                &&& final(self)@.cap_next is None
                &&& final(self)@.ocr_next == old(self)@.ocr_next
            },
            spec_next_action(old(self)@) == ReconcileAction::EmitOcr ==> {
                &&& old(self)@.ocr_next == Some(c@)
                &&& final(self)@.ocr_next is None
                &&& final(self)@.cap_next == old(self)@.cap_next
            },
    {
        let take_caption = match (&self.ocr_next, &self.cap_next) {
            (Some(a), Some(b)) => b.begin_ms <= a.begin_ms,
            (Some(_), None) => false,
            _ => true,
        };
        let c = if take_caption {
            self.cap_next.take().unwrap()
        } else {
            self.ocr_next.take().unwrap()
        };
        self.last_begin_ms = c.begin_ms;
        self.emitted = Ghost(self.emitted@.push(c@));
        c
    }
}

/// Whatever has left a well-formed reconciler is a well-formed cue
/// sequence in non-decreasing begin order, across both sources combined.
pub proof fn lemma_reconciler_output_ordered(m: RecModel)
    requires
        m.wf(),
    ensures
        cues_wf(m.emitted),
        cues_sorted(m.emitted),
{
}

/// Contents of a buffered slot, as a multiset.
pub open spec fn opt_multiset(o: Option<CueModel>) -> Multiset<CueModel> {
    match o {
        Some(c) => Multiset::singleton(c),
        None => Multiset::empty(),
    }
}

/// Drains two whole finalized cue streams through the reconciler: for any
/// interleaving of the two sources' cue timestamps, the merged output
/// carries exactly the cues of both sources, in globally non-decreasing
/// begin order.  A source cut short by a fatal error is simply handed here
/// as the shorter stream; the other source still drains completely.
pub fn reconcile_streams(ocr_cues: &Vec<Cue>, caption_cues: &Vec<Cue>) -> (out: Vec<Cue>)
    requires
        cues_wf(ocr_cues@.map_values(|c: Cue| c@)),
        cues_sorted(ocr_cues@.map_values(|c: Cue| c@)),
        cues_wf(caption_cues@.map_values(|c: Cue| c@)),
        cues_sorted(caption_cues@.map_values(|c: Cue| c@)),
    ensures
        cues_wf(out@.map_values(|c: Cue| c@)),
        cues_sorted(out@.map_values(|c: Cue| c@)),
        out@.map_values(|c: Cue| c@).to_multiset() == ocr_cues@.map_values(
            |c: Cue| c@,
        ).to_multiset().add(caption_cues@.map_values(|c: Cue| c@).to_multiset()),
{
    broadcast use vstd::seq_lib::group_to_multiset_ensures;
    broadcast use vstd::multiset::group_multiset_axioms;

    let ghost vo = ocr_cues@.map_values(|c: Cue| c@);
    let ghost vc = caption_cues@.map_values(|c: Cue| c@);
    let mut rec = Reconciler::new();
    let mut out: Vec<Cue> = Vec::new();
    let mut i: usize = 0;
    let mut j: usize = 0;
    proof {
        assert(vo.take(0) =~= Seq::<CueModel>::empty());
        assert(vc.take(0) =~= Seq::<CueModel>::empty());
        assert(rec@.emitted.to_multiset().add(opt_multiset(rec@.ocr_next)).add(
            opt_multiset(rec@.cap_next),
        ) =~= vo.take(0).to_multiset().add(vc.take(0).to_multiset()));
    }
    loop
        invariant
            rec@.wf(),
            i <= vo.len(),
            j <= vc.len(),
            vo == ocr_cues@.map_values(|c: Cue| c@),
            vc == caption_cues@.map_values(|c: Cue| c@),
            cues_wf(vo),
            cues_sorted(vo),
            cues_wf(vc),
            cues_sorted(vc),
            rec@.ocr_done ==> i == vo.len(),
            rec@.cap_done ==> j == vc.len(),
            (match rec@.ocr_next {
                Some(c) => i > 0 && c == vo[i - 1],
                None => true,
            }),
            (match rec@.cap_next {
                Some(c) => j > 0 && c == vc[j - 1],
                None => true,
            }),
            (rec@.ocr_next is None && i < vo.len() ==> vo[i as int].begin_ms
                >= rec@.last_begin_ms),
            (rec@.cap_next is None && j < vc.len() ==> vc[j as int].begin_ms
                >= rec@.last_begin_ms),
            out@.map_values(|c: Cue| c@) == rec@.emitted,
            rec@.emitted.to_multiset().add(opt_multiset(rec@.ocr_next)).add(
                opt_multiset(rec@.cap_next),
            ) == vo.take(i as int).to_multiset().add(vc.take(j as int).to_multiset()),
        ensures
            spec_next_action(rec@) == ReconcileAction::Finished,
        decreases 2 * (vo.len() - i) + 2 * (vc.len() - j) + (if rec@.ocr_next is Some {
            1int
        } else {
            0int
        }) + (if rec@.cap_next is Some {
            1int
        } else {
            0int
        }) + (if !rec@.ocr_done {
            1int
        } else {
            0int
        }) + (if !rec@.cap_done {
            1int
        } else {
            0int
        }),
    {
        let act = rec.next_action();
        if act == ReconcileAction::NeedOcr {
            if i < ocr_cues.len() {
                let c = ocr_cues[i].duplicate();
                proof {
                    assert(c@ == vo[i as int]);
                    assert(cue_wf(vo[i as int]));
                }
                let ghost pre = rec@;
                rec.give_ocr(c);
                i += 1;
                proof {
                    assert(vo.take(i as int) =~= vo.take(i - 1).push(vo[i - 1]));
                    vo.take(i - 1).to_multiset_ensures();
                    assert(vo.take(i - 1).push(vo[i - 1]).to_multiset() =~= vo.take(
                        i - 1,
                    ).to_multiset().insert(vo[i - 1]));
                    let lhs = rec@.emitted.to_multiset().add(opt_multiset(rec@.ocr_next)).add(
                        opt_multiset(rec@.cap_next),
                    );
                    let rhs = vo.take(i as int).to_multiset().add(vc.take(j as int).to_multiset());
                    assert forall|x: CueModel| lhs.count(x) == rhs.count(x) by {
                        assert(Multiset::<CueModel>::empty().count(x) == 0);
                        if x == vo[i - 1] {
                            assert(Multiset::singleton(vo[i - 1]).count(x) == 1);
                        } else {
                            assert(Multiset::singleton(vo[i - 1]).count(x) == 0);
                        }
                        assert(pre.emitted.to_multiset().add(opt_multiset(pre.ocr_next)).add(
                            opt_multiset(pre.cap_next),
                        ).count(x) == vo.take(i - 1).to_multiset().add(
                            vc.take(j as int).to_multiset(),
                        ).count(x));
                    };
                    assert(lhs =~= rhs);
                }
            } else {
                rec.end_ocr();
            }
        } else if act == ReconcileAction::NeedCaption {
            if j < caption_cues.len() {
                let c = caption_cues[j].duplicate();
                proof {
                    assert(c@ == vc[j as int]);
                    assert(cue_wf(vc[j as int]));
                }
                let ghost pre = rec@;
                rec.give_caption(c);
                j += 1;
                proof {
                    assert(vc.take(j as int) =~= vc.take(j - 1).push(vc[j - 1]));
                    vc.take(j - 1).to_multiset_ensures();
                    assert(vc.take(j - 1).push(vc[j - 1]).to_multiset() =~= vc.take(
                        j - 1,
                    ).to_multiset().insert(vc[j - 1]));
                    let lhs = rec@.emitted.to_multiset().add(opt_multiset(rec@.ocr_next)).add(
                        opt_multiset(rec@.cap_next),
                    );
                    let rhs = vo.take(i as int).to_multiset().add(vc.take(j as int).to_multiset());
                    assert forall|x: CueModel| lhs.count(x) == rhs.count(x) by {
                        assert(Multiset::<CueModel>::empty().count(x) == 0);
                        if x == vc[j - 1] {
                            assert(Multiset::singleton(vc[j - 1]).count(x) == 1);
                        } else {
                            assert(Multiset::singleton(vc[j - 1]).count(x) == 0);
                        }
                        assert(pre.emitted.to_multiset().add(opt_multiset(pre.ocr_next)).add(
                            opt_multiset(pre.cap_next),
                        ).count(x) == vo.take(i as int).to_multiset().add(
                            vc.take(j - 1).to_multiset(),
                        ).count(x));
                    };
                    assert(lhs =~= rhs);
                }
            } else {
                rec.end_caption();
            }
        } else if act == ReconcileAction::EmitOcr || act == ReconcileAction::EmitCaption {
            let ghost pre = rec@;
            let c = rec.emit_next();
            proof {
                if pre.ocr_next is None && i < vo.len() {
                    assert(vo[i as int].begin_ms >= pre.last_begin_ms);
                }
                if act == ReconcileAction::EmitOcr && i < vo.len() {
                    // the next frame-sampled cue does not fall behind the
                    // one that just left
                    assert(vo[i - 1].begin_ms <= vo[i as int].begin_ms);
                }
                if act == ReconcileAction::EmitCaption && j < vc.len() {
                    assert(vc[j - 1].begin_ms <= vc[j as int].begin_ms);
                }
                pre.emitted.to_multiset_ensures();
                assert(pre.emitted.push(c@).to_multiset() =~= pre.emitted.to_multiset().insert(
                    c@,
                ));
                let lhs = rec@.emitted.to_multiset().add(opt_multiset(rec@.ocr_next)).add(
                    opt_multiset(rec@.cap_next),
                );
                let rhs = vo.take(i as int).to_multiset().add(vc.take(j as int).to_multiset());
                assert forall|x: CueModel| lhs.count(x) == rhs.count(x) by {
                    assert(Multiset::<CueModel>::empty().count(x) == 0);
                    if x == c@ {
                        assert(Multiset::singleton(c@).count(x) == 1);
                    } else {
                        assert(Multiset::singleton(c@).count(x) == 0);
                    }
                    assert(pre.emitted.to_multiset().add(opt_multiset(pre.ocr_next)).add(
                        opt_multiset(pre.cap_next),
                    ).count(x) == rhs.count(x));
                };
                assert(lhs =~= rhs);
            }
            out.push(c);
            proof {
                assert(out@.map_values(|c2: Cue| c2@) =~= rec@.emitted);
            }
        } else {
            break;
        }
    }
    proof {
        assert(vo.take(vo.len() as int) =~= vo);
        assert(vc.take(vc.len() as int) =~= vc);
        assert(out@.map_values(|c: Cue| c@).to_multiset() =~= vo.to_multiset().add(
            vc.to_multiset(),
        ));
    }
    out
}

} // verus!
