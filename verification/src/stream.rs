//! One linear pass over a recognized-sample stream: every sample is
//! observed in order by a single cue assembler, and the stream's end
//! flushes whatever cue is still open.

use crate::cue::{
    cues_sorted, cues_wf, flush_step, lemma_flush_step_wf, lemma_observe_step_wf, observe_step,
    spec_trim_break, AsmModel, Cue, CueAssembler, CueMode, CueModel, RecognitionSample,
    SampleModel,
};
use vstd::prelude::*;

verus! {

/// The assembler state after observing `samples` in order, starting from
/// `m`.
pub open spec fn run_model(m: AsmModel, samples: Seq<SampleModel>) -> AsmModel
    decreases samples.len(),
{
    if samples.len() == 0 {
        m
    } else {
        run_model(
            observe_step(m, spec_trim_break(samples.first().text), samples.first().timestamp_ms).0,
            samples.drop_first(),
        )
    }
}

/// Running one more sample is one more observation step.
pub proof fn lemma_run_model_push(m: AsmModel, samples: Seq<SampleModel>, x: SampleModel)
    ensures
        run_model(m, samples.push(x)) == observe_step(
            run_model(m, samples),
            spec_trim_break(x.text),
            x.timestamp_ms,
        ).0,
    decreases samples.len(),
{
    reveal_with_fuel(run_model, 3);
    if samples.len() == 0 {
        assert(samples.push(x).first() == x);
        assert(samples.push(x).drop_first() =~= Seq::<SampleModel>::empty());
    } else {
        assert(samples.push(x).first() == samples.first());
        assert(samples.push(x).drop_first() =~= samples.drop_first().push(x));
        lemma_run_model_push(
            observe_step(m, spec_trim_break(samples.first().text), samples.first().timestamp_ms).0,
            samples.drop_first(),
            x,
        );
    }
}

/// A sample stream is admissible when its timestamps are non-negative,
/// below the clock's ceiling, and strictly increasing.
pub open spec fn samples_admissible(s: Seq<SampleModel>) -> bool {
    &&& forall|k: int| 0 <= k < s.len() ==> 0 <= #[trigger] s[k].timestamp_ms < i64::MAX
    &&& forall|k: int| 0 < k < s.len() ==> s[k - 1].timestamp_ms < #[trigger] s[k].timestamp_ms
}

/// Cues finalized by observing a whole admissible stream and flushing at
/// its end.
pub open spec fn spec_assemble(samples: Seq<SampleModel>, mode: CueMode) -> Seq<CueModel> {
    flush_step(run_model(AsmModel::init(mode), samples)).0.emitted
}

/// Observing an admissible stream preserves the assembler's invariant,
/// and afterwards the next admissible timestamp lies at most one past the
/// stream's last sample.
pub proof fn lemma_run_model_wf(m: AsmModel, samples: Seq<SampleModel>)
    requires
        m.wf(),
        forall|k: int| 0 <= k < samples.len() ==> 0 <= #[trigger] samples[k].timestamp_ms
            < i64::MAX,
        forall|k: int|
            0 < k < samples.len() ==> samples[k - 1].timestamp_ms < #[trigger] samples[k].timestamp_ms,
        samples.len() > 0 ==> m.min_next_ts() <= samples[0].timestamp_ms,
    ensures
        run_model(m, samples).wf(),
        samples.len() > 0 ==> run_model(m, samples).min_next_ts() <= samples.last().timestamp_ms
            + 1,
        samples.len() == 0 ==> run_model(m, samples) == m,
    decreases samples.len(),
{
    if samples.len() > 0 {
        let s0 = samples.first();
        lemma_observe_step_wf(m, spec_trim_break(s0.text), s0.timestamp_ms);
        let m1 = observe_step(m, spec_trim_break(s0.text), s0.timestamp_ms).0;
        let rest = samples.drop_first();
        assert(forall|k: int| 0 <= k < rest.len() ==> rest[k] == samples[k + 1]);
        if rest.len() > 0 {
            assert(m1.min_next_ts() <= s0.timestamp_ms + 1 <= rest[0].timestamp_ms);
        }
        lemma_run_model_wf(m1, rest);
        if rest.len() > 0 {
            assert(rest.last() == samples.last());
        }
    }
}

/// Every cue sequence one assembler instance emits over a whole
/// admissible stream keeps begin at or before end on each cue, and the
/// cues leave in non-decreasing begin order.
pub proof fn lemma_assemble_ordered(samples: Seq<SampleModel>, mode: CueMode)
    requires
        samples_admissible(samples),
    ensures
        cues_wf(spec_assemble(samples, mode)),
        cues_sorted(spec_assemble(samples, mode)),
{
    lemma_run_model_wf(AsmModel::init(mode), samples);
    lemma_flush_step_wf(run_model(AsmModel::init(mode), samples));
}

/// Folds a whole recognized-sample stream into finalized cues: the
/// per-source half of one linear processing pass, with the end-of-stream
/// flush included.
pub fn assemble_samples(samples: &Vec<RecognitionSample>, mode: CueMode) -> (cues: Vec<Cue>)
    requires
        samples_admissible(samples@.map_values(|s: RecognitionSample| s@)),
    ensures
        cues@.map_values(|c: Cue| c@) == spec_assemble(
            samples@.map_values(|s: RecognitionSample| s@),
            mode,
        ),
{
    let ghost views = samples@.map_values(|s: RecognitionSample| s@);
    let mut assembler = CueAssembler::new(mode);
    let mut cues: Vec<Cue> = Vec::new();
    let mut k: usize = 0;
    while k < samples.len()
        invariant
            k <= samples@.len(),
            views == samples@.map_values(|s: RecognitionSample| s@),
            samples_admissible(views),
            assembler@.wf(),
            assembler@ == run_model(AsmModel::init(mode), views.take(k as int)),
            k > 0 ==> assembler@.min_next_ts() <= views[k - 1].timestamp_ms + 1,
            k == 0 ==> assembler@ == AsmModel::init(mode),
            cues@.map_values(|c: Cue| c@) == assembler@.emitted,
        decreases samples@.len() - k,
    {
        proof {
            assert(views[k as int] == samples@[k as int]@);
            if k > 0 {
                assert(views[k - 1].timestamp_ms < views[k as int].timestamp_ms);
            }
            assert(assembler@.can_observe(views[k as int].timestamp_ms));
            lemma_run_model_push(
                AsmModel::init(mode),
                views.take(k as int),
                views[k as int],
            );
            assert(views.take(k as int).push(views[k as int]) =~= views.take(k + 1));
        }
        let out = assembler.observe(&samples[k]);
        match out {
            Some(c) => {
                cues.push(c);
                proof {
                    assert(cues@.map_values(|c2: Cue| c2@) =~= assembler@.emitted);
                }
            },
            None => {},
        }
        k += 1;
    }
    proof {
        assert(views.take(views.len() as int) =~= views);
    }
    let fin = assembler.flush();
    match fin {
        Some(c) => {
            cues.push(c);
            proof {
                assert(cues@.map_values(|c2: Cue| c2@) =~= assembler@.emitted);
            }
        },
        None => {},
    }
    cues
}

} // verus!
