//! Tests of the cue assembler, the edit-distance measure and the
//! recognized-text trimming.

use hardsubx::cue::{trim_at_double_break, CueAssembler, CueMode, RecognitionSample};
use hardsubx::editdist::edit_distance_string;
use hardsubx::stream::assemble_samples;

fn sample(text: &str, ts: i64) -> RecognitionSample {
    RecognitionSample { text: String::from(text), timestamp_ms: ts }
}

#[test]
fn edit_distance_classic() {
    assert_eq!(edit_distance_string("kitten", "sitting"), 3);
    assert_eq!(edit_distance_string("sitting", "kitten"), 3);
}

#[test]
fn edit_distance_empty_sides() {
    assert_eq!(edit_distance_string("", ""), 0);
    assert_eq!(edit_distance_string("", "abc"), 3);
    assert_eq!(edit_distance_string("abcd", ""), 4);
}

#[test]
fn edit_distance_same_text() {
    assert_eq!(edit_distance_string("HELLO", "HELLO"), 0);
}

#[test]
fn edit_distance_suffix_growth() {
    assert_eq!(edit_distance_string("HELLO", "HELLO WORLD"), 6);
}

#[test]
fn trim_cuts_at_first_double_break() {
    assert_eq!(trim_at_double_break("line one\n\nnoise below"), "line one");
    assert_eq!(trim_at_double_break("a\n\nb\n\nc"), "a");
}

#[test]
fn trim_keeps_text_without_break() {
    assert_eq!(trim_at_double_break("just a line"), "just a line");
    assert_eq!(trim_at_double_break("two\nlines"), "two\nlines");
    assert_eq!(trim_at_double_break(""), "");
    assert_eq!(trim_at_double_break("\n"), "\n");
}

#[test]
fn trim_break_at_start_gives_empty() {
    assert_eq!(trim_at_double_break("\n\nrest"), "");
}

#[test]
fn sample_stream_hello_world() {
    // ["", "HELLO", "HELLO", "HELLO WORLD", ""] at 0..4000 ms: the two
    // near-identical greetings merge; the longer text splits off a new
    // cue beginning right after the first one's end; the final empty
    // sample closes it at its own timestamp.
    let samples = vec![
        sample("", 0),
        sample("HELLO", 1000),
        sample("HELLO", 2000),
        sample("HELLO WORLD", 3000),
        sample("", 4000),
    ];
    let cues = assemble_samples(&samples, CueMode::Burn);
    assert_eq!(cues.len(), 2);
    assert_eq!(cues[0].text, "HELLO");
    assert_eq!(cues[0].begin_ms, 1);
    assert_eq!(cues[0].end_ms, 3000);
    assert_eq!(cues[1].text, "HELLO WORLD");
    assert_eq!(cues[1].begin_ms, 3001);
    assert_eq!(cues[1].end_ms, 4000);
    assert_eq!(cues[1].begin_ms, cues[0].end_ms + 1);
}

#[test]
fn all_empty_stream_emits_nothing() {
    // Only the floating empty-marker timestamp advances.
    let mut assembler = CueAssembler::new(CueMode::Burn);
    assert!(assembler.observe(&sample("", 0)).is_none());
    assert!(assembler.observe(&sample("", 500)).is_none());
    assert!(assembler.observe(&sample("", 900)).is_none());
    assert!(assembler.pending.is_none());
    assert_eq!(assembler.last_end_ms, 900);
    assert!(assembler.flush().is_none());
}

#[test]
fn all_empty_stream_through_driver() {
    let samples = vec![sample("", 0), sample("", 500), sample("", 900)];
    let cues = assemble_samples(&samples, CueMode::Burn);
    assert_eq!(cues.len(), 0);
}

#[test]
fn flush_open_cue_zero_duration() {
    // End-of-stream with an open pending cue: exactly one finalize and
    // emit, with end equal to begin.
    let mut assembler = CueAssembler::new(CueMode::Burn);
    assert!(assembler.observe(&sample("HI THERE", 100)).is_none());
    let flushed = assembler.flush().expect("open cue must be emitted");
    assert_eq!(flushed.text, "HI THERE");
    assert_eq!(flushed.begin_ms, 1);
    assert_eq!(flushed.end_ms, flushed.begin_ms);
    assert!(assembler.pending.is_none());
    assert!(assembler.flush().is_none());
}

#[test]
fn noise_sample_is_absorbed() {
    // Distance 1 against a ten-character cue: 5 * 1 < 10, so the sample
    // is jitter and the state does not change.
    let mut assembler = CueAssembler::new(CueMode::Burn);
    assert!(assembler.observe(&sample("ABCDEFGHIJ", 1000)).is_none());
    let out = assembler.observe(&sample("ABCDEFGHIX", 2000));
    assert!(out.is_none());
    let p = assembler.pending.as_ref().expect("cue stays open");
    assert_eq!(p.text, "ABCDEFGHIJ");
    assert_eq!(p.begin_ms, 1);
}

#[test]
fn threshold_distance_splits() {
    // Distance 2 against a ten-character cue: 5 * 2 is not below 10, so
    // the prior cue is finalized and the next begins right after it.
    let mut assembler = CueAssembler::new(CueMode::Burn);
    assert!(assembler.observe(&sample("ABCDEFGHIJ", 1000)).is_none());
    let out = assembler.observe(&sample("ABCDEFGHXY", 2000));
    let closed = out.expect("a genuine change closes the cue");
    assert_eq!(closed.text, "ABCDEFGHIJ");
    assert_eq!(closed.begin_ms, 1);
    assert_eq!(closed.end_ms, 2000);
    let p = assembler.pending.as_ref().expect("the new cue is open");
    assert_eq!(p.text, "ABCDEFGHXY");
    assert_eq!(p.begin_ms, 2001);
}

#[test]
fn emitted_begins_never_decrease() {
    let samples = vec![
        sample("FIRST LINE HERE", 1000),
        sample("SECOND LINE HERE", 2000),
        sample("", 2500),
        sample("THIRD LINE HERE", 4000),
        sample("FOURTH LINE HERE", 5000),
    ];
    let cues = assemble_samples(&samples, CueMode::Burn);
    assert!(cues.len() >= 2);
    for w in cues.windows(2) {
        assert!(w[0].begin_ms <= w[1].begin_ms);
    }
    for c in &cues {
        assert!(c.begin_ms <= c.end_ms);
    }
}

#[test]
fn reopen_after_gap_begins_after_marker() {
    // A cue closed by an empty sample leaves the marker at that sample;
    // the next text opens one millisecond past it.
    let samples = vec![
        sample("FIRST CUE TEXT", 100),
        sample("", 200),
        sample("SECOND CUE TEXT", 300),
    ];
    let cues = assemble_samples(&samples, CueMode::Burn);
    assert_eq!(cues.len(), 2);
    assert_eq!(cues[0].text, "FIRST CUE TEXT");
    assert_eq!(cues[0].begin_ms, 1);
    assert_eq!(cues[0].end_ms, 200);
    assert_eq!(cues[1].text, "SECOND CUE TEXT");
    assert_eq!(cues[1].begin_ms, 201);
    // never finalized before the stream ended: zero duration
    assert_eq!(cues[1].end_ms, cues[1].begin_ms);
}

#[test]
fn trimmed_noise_tail_still_merges() {
    // The recognizer tail after a double break is discarded before the
    // similarity decision.
    let mut assembler = CueAssembler::new(CueMode::Burn);
    assert!(assembler.observe(&sample("SAME TEXT", 1000)).is_none());
    let out = assembler.observe(&sample("SAME TEXT\n\nartifacts here", 2000));
    assert!(out.is_none());
    assert_eq!(assembler.pending.as_ref().unwrap().text, "SAME TEXT");
}
