//! Tests of the segmenter, the stream clock, the demux dispatch and the
//! dual-source reconciler.

use hardsubx::config::{effective_ocr_mode, ColorMode, HardsubConfig, OcrMode};
use hardsubx::cue::{Cue, CueMode};
use hardsubx::demux::{demux_dispatch, force_multiprogram, DemuxAction, StreamMode};
use hardsubx::reconcile::{
    reconcile_streams, should_advance_ocr, ReconcileAction, Reconciler,
};
use hardsubx::segment::{
    hue_select_mask, luminance_mask, roi_lower_quarter, roi_ticker_band, segment_bright,
    segment_color, HuePlane, Plane,
};
use hardsubx::timing::{
    effective_timestamp, input_progress_percent, is_sample_frame, live_report_due,
    progress_clock, progress_percent, pts_to_ms, pts_to_s, sample_gap_ok, TimeBase,
};

fn cue(text: &str, begin: i64, end: i64) -> Cue {
    Cue { text: String::from(text), begin_ms: begin, end_ms: end, mode: CueMode::Normal }
}

#[test]
fn pts_conversion_exact() {
    let tb = TimeBase { num: 1, den: 90000 };
    assert_eq!(pts_to_ms(90000, tb), 1000);
    assert_eq!(pts_to_ms(45000, tb), 500);
    assert_eq!(pts_to_s(90000, tb), 1);
    assert_eq!(pts_to_s(89999, tb), 0);
    let film = TimeBase { num: 1001, den: 24000 };
    assert_eq!(pts_to_ms(24000, film), 1001000);
}

#[test]
fn progress_reporting() {
    assert_eq!(progress_percent(50, 200), 25);
    assert_eq!(progress_percent(200, 200), 100);
    assert_eq!(progress_percent(300, 200), 100);
    assert_eq!(progress_percent(10, 0), -1);
    assert_eq!(progress_percent(10, -3), -1);
    assert_eq!(progress_clock(125), (2, 5));
    assert_eq!(progress_clock(59), (0, 59));
}

#[test]
fn input_progress_by_bytes() {
    assert_eq!(input_progress_percent(512, 1024), 50);
    assert_eq!(input_progress_percent(0, 256), 0);
    assert_eq!(input_progress_percent(1024, 1024), 100);
    assert_eq!(input_progress_percent(300, 2560), 10);
}

#[test]
fn live_reporting_every_ten_seconds() {
    assert!(!live_report_due(25, 2));
    assert!(live_report_due(30, 2));
    assert!(!live_report_due(5, 0));
    assert!(live_report_due(10, 0));
}

#[test]
fn effective_timestamp_fallback() {
    assert_eq!(effective_timestamp(0, true, 500, 200), 300);
    assert_eq!(effective_timestamp(0, false, 500, 200), 0);
    assert_eq!(effective_timestamp(42, true, 500, 200), 42);
}

#[test]
fn sampling_rate_limit() {
    assert!(!sample_gap_ok(0, 500, 600));
    assert!(sample_gap_ok(0, 600, 600));
    assert!(sample_gap_ok(600, 0, 600));
    assert!(is_sample_frame(50, 25));
    assert!(!is_sample_frame(51, 25));
    assert!(is_sample_frame(0, 25));
}

#[test]
fn region_of_interest_rows() {
    assert_eq!(roi_lower_quarter(100), 75);
    assert_eq!(roi_lower_quarter(5), 3);
    assert_eq!(roi_lower_quarter(0), 0);
    assert_eq!(roi_ticker_band(100), 92);
    assert_eq!(roi_ticker_band(1080), 993);
}

#[test]
fn luminance_mask_thresholds_roi() {
    // 2 columns, 4 rows; region of interest starts at row 2.
    let lum = Plane::from_data(2, 4, vec![200, 200, 200, 10, 200, 10, 250, 90]);
    let mask = luminance_mask(&lum, 100, 2);
    assert_eq!(mask.data, vec![0, 0, 0, 0, 255, 0, 255, 0]);
}

#[test]
fn bright_mask_needs_flat_bright_pixels() {
    // A pixel is on only where the edge mask is absent and the
    // luminance exceeds the threshold, inside the region of interest.
    let lum = Plane::from_data(2, 2, vec![200, 200, 200, 50]);
    let edge = Plane::from_data(2, 2, vec![0, 255, 0, 0]);
    let mask = segment_bright(&lum, &edge, 100, 1);
    assert_eq!(mask.data, vec![0, 0, 255, 0]);
}

#[test]
fn bright_mask_is_deterministic() {
    // Segmenting the same frame twice with identical configuration
    // yields bit-identical masks.
    let lum = Plane::from_data(3, 2, vec![10, 120, 130, 240, 35, 250]);
    let edge = Plane::from_data(3, 2, vec![0, 255, 0, 0, 0, 255]);
    let first = segment_bright(&lum, &edge, 100, 0);
    let second = segment_bright(&lum, &edge, 100, 0);
    assert_eq!(first.data, second.data);
    assert_eq!(first.width, second.width);
    assert_eq!(first.height, second.height);
}

#[test]
fn color_mask_combines_three_planes() {
    let edge = Plane::from_data(2, 2, vec![0, 0, 0, 255]);
    let binarized = Plane::from_data(2, 2, vec![0, 255, 0, 0]);
    let hue_dilated = Plane::from_data(2, 2, vec![255, 255, 0, 255]);
    let mask = segment_color(&edge, &binarized, &hue_dilated, 0);
    assert_eq!(mask.data, vec![255, 0, 0, 0]);
}

#[test]
fn color_mask_is_deterministic() {
    let edge = Plane::from_data(2, 2, vec![0, 0, 255, 0]);
    let binarized = Plane::from_data(2, 2, vec![0, 0, 0, 0]);
    let hue_dilated = Plane::from_data(2, 2, vec![255, 0, 255, 255]);
    let first = segment_color(&edge, &binarized, &hue_dilated, 1);
    let second = segment_color(&edge, &binarized, &hue_dilated, 1);
    assert_eq!(first.data, second.data);
}

#[test]
fn hue_selection_window() {
    // Kept exactly within twenty degrees of the target hue.
    let hues = HuePlane::from_data(3, 2, vec![100, 119, 120, 81, 80, 359]);
    let mask = hue_select_mask(&hues, 100);
    assert_eq!(mask.data, vec![255, 255, 0, 255, 0, 0]);
}

#[test]
fn effective_mode_forces_word_for_italics() {
    let mut cfg = HardsubConfig {
        color_mode: ColorMode::White,
        ocr_mode: OcrMode::Frame,
        lum_thresh: 50,
        hue_target: 0,
        conf_thresh: 0,
        min_gap_ms: 500,
        detect_italics: true,
        stride: 25,
    };
    assert_eq!(effective_ocr_mode(&cfg), OcrMode::Word);
    cfg.detect_italics = false;
    assert_eq!(effective_ocr_mode(&cfg), OcrMode::Frame);
}

#[test]
fn stream_mode_mapping_is_total() {
    assert_eq!(StreamMode::from_code(0), StreamMode::ElementaryOrNotFound);
    assert_eq!(StreamMode::from_code(1), StreamMode::Transport);
    assert_eq!(StreamMode::from_code(2), StreamMode::Program);
    assert_eq!(StreamMode::from_code(3), StreamMode::Asf);
    assert_eq!(StreamMode::from_code(4), StreamMode::McpoodlesRaw);
    assert_eq!(StreamMode::from_code(5), StreamMode::Rcwt);
    assert_eq!(StreamMode::from_code(6), StreamMode::Myth);
    assert_eq!(StreamMode::from_code(7), StreamMode::Mp4);
    assert_eq!(StreamMode::from_code(8), StreamMode::HexDump);
    assert_eq!(StreamMode::from_code(9), StreamMode::Wtv);
    assert_eq!(StreamMode::from_code(10), StreamMode::Ffmpeg);
    assert_eq!(StreamMode::from_code(11), StreamMode::Gxf);
    assert_eq!(StreamMode::from_code(12), StreamMode::Mkv);
    assert_eq!(StreamMode::from_code(13), StreamMode::Mxf);
    assert_eq!(StreamMode::from_code(16), StreamMode::Autodetect);
    assert_eq!(StreamMode::from_code(14), StreamMode::Unrecognized);
    assert_eq!(StreamMode::from_code(-1), StreamMode::Unrecognized);
    assert_eq!(StreamMode::from_code(1000), StreamMode::Unrecognized);
}

#[test]
fn demux_dispatch_mapping() {
    assert_eq!(
        demux_dispatch(StreamMode::ElementaryOrNotFound),
        DemuxAction::FetchGeneral
    );
    assert_eq!(demux_dispatch(StreamMode::Transport), DemuxAction::FetchTransport);
    assert_eq!(demux_dispatch(StreamMode::Program), DemuxAction::FetchProgram);
    assert_eq!(demux_dispatch(StreamMode::Asf), DemuxAction::FetchAsf);
    assert_eq!(demux_dispatch(StreamMode::Wtv), DemuxAction::FetchWtv);
    assert_eq!(demux_dispatch(StreamMode::Mp4), DemuxAction::Unsupported);
    assert_eq!(demux_dispatch(StreamMode::Unrecognized), DemuxAction::Unsupported);
}

#[test]
fn multiprogram_forced_only_for_transport_raw_captions() {
    assert!(force_multiprogram(StreamMode::Transport, 5));
    assert!(!force_multiprogram(StreamMode::Transport, 4));
    assert!(!force_multiprogram(StreamMode::Program, 5));
}

#[test]
fn advance_policy_prefers_captions_on_tie() {
    assert!(!should_advance_ocr(5, 5, false));
    assert!(should_advance_ocr(4, 5, false));
    assert!(!should_advance_ocr(6, 5, false));
    assert!(should_advance_ocr(6, 5, true));
}

#[test]
fn merged_output_is_ordered() {
    // Dual-source ordering: the merged sequence is globally
    // non-decreasing in begin time.
    let ocr = vec![cue("A1", 10, 20), cue("A2", 100, 150)];
    let caps = vec![cue("B1", 5, 8), cue("B2", 50, 60), cue("B3", 120, 130)];
    let out = reconcile_streams(&ocr, &caps);
    assert_eq!(out.len(), 5);
    let texts: Vec<&str> = out.iter().map(|c| c.text.as_str()).collect();
    assert_eq!(texts, vec!["B1", "A1", "B2", "A2", "B3"]);
    for w in out.windows(2) {
        assert!(w[0].begin_ms <= w[1].begin_ms);
    }
}

#[test]
fn merge_tie_caption_first() {
    let ocr = vec![cue("A", 40, 50)];
    let caps = vec![cue("B", 40, 45)];
    let out = reconcile_streams(&ocr, &caps);
    assert_eq!(out.len(), 2);
    assert_eq!(out[0].text, "B");
    assert_eq!(out[1].text, "A");
}

#[test]
fn one_empty_source_passes_through() {
    let ocr: Vec<Cue> = Vec::new();
    let caps = vec![cue("B1", 1, 2), cue("B2", 3, 4)];
    let out = reconcile_streams(&ocr, &caps);
    assert_eq!(out.len(), 2);
    assert_eq!(out[0].text, "B1");
    assert_eq!(out[1].text, "B2");
}

#[test]
fn source_failure_drains_other() {
    // A fatal error stops the frame-sampled source mid-stream; the three
    // caption cues still waiting are all emitted, in order.
    let mut rec = Reconciler::new();
    let mut out: Vec<Cue> = Vec::new();
    let mut caps = vec![cue("B3", 120, 130), cue("B2", 50, 60), cue("B1", 15, 20)];
    let mut ocr = vec![cue("A1", 10, 30)];
    let mut ocr_failed = false;
    loop {
        match rec.next_action() {
            ReconcileAction::NeedOcr => {
                if let Some(c) = ocr.pop() {
                    let begin = c.begin_ms;
                    assert!(begin >= rec.last_begin_ms && begin <= c.end_ms && begin >= 0);
                    rec.give_ocr(c);
                } else {
                    // the decoder reports a fatal error here: sticky end,
                    // no further pulls on this source
                    ocr_failed = true;
                    rec.end_ocr();
                }
            }
            ReconcileAction::NeedCaption => {
                if let Some(c) = caps.pop() {
                    let begin = c.begin_ms;
                    assert!(begin >= rec.last_begin_ms && begin <= c.end_ms && begin >= 0);
                    rec.give_caption(c);
                } else {
                    rec.end_caption();
                }
            }
            ReconcileAction::EmitOcr | ReconcileAction::EmitCaption => {
                out.push(rec.emit_next());
            }
            ReconcileAction::Finished => break,
        }
    }
    assert!(ocr_failed);
    let texts: Vec<&str> = out.iter().map(|c| c.text.as_str()).collect();
    assert_eq!(texts, vec!["A1", "B1", "B2", "B3"]);
    for w in out.windows(2) {
        assert!(w[0].begin_ms <= w[1].begin_ms);
    }
}

#[test]
fn cue_duplicate_copies_fields() {
    let c = cue("COPY ME", 7, 9);
    let d = c.duplicate();
    assert_eq!(d.text, "COPY ME");
    assert_eq!(d.begin_ms, 7);
    assert_eq!(d.end_ms, 9);
    assert_eq!(d.mode, CueMode::Normal);
}
