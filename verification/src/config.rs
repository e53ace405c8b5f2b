//! Per-run configuration of the extraction pipeline.

use vstd::prelude::*;

verus! {

/// Which kind of burned-in subtitle pixels the segmenter looks for.
#[derive(Clone, Copy, PartialEq, Eq, Structural, Debug)]
pub enum ColorMode {
    /// Bright (white) subtitles found by luminance thresholding.
    White,
    /// Colored subtitles found by hue selection.
    Color,
}

/// Granularity at which the text recognizer is asked to work.
#[derive(Clone, Copy, PartialEq, Eq, Structural, Debug)]
pub enum OcrMode {
    Word,
    Letter,
    Frame,
}

/// Immutable per-run configuration.
#[derive(Clone, Copy, PartialEq, Eq, Structural, Debug)]
pub struct HardsubConfig {
    /// Subtitle color family the segmenter targets.
    pub color_mode: ColorMode,
    /// Requested recognition granularity.
    pub ocr_mode: OcrMode,
    /// Luminance above which a pixel counts as bright.
    pub lum_thresh: u8,
    /// Target hue in degrees for colored subtitles.
    pub hue_target: u16,
    /// Recognizer confidence threshold, in percent.
    pub conf_thresh: u8,
    /// Minimum milliseconds between two sampled frames.
    pub min_gap_ms: i64,
    /// Whether italic text is expected.
    pub detect_italics: bool,
    /// Frames between two samples.
    pub stride: u64,
}

impl HardsubConfig {
    /// A usable configuration: the hue is an angle, the confidence a
    /// percentage, the cadence positive.
    pub open spec fn wf(self) -> bool {
        &&& self.hue_target < 360
        &&& self.conf_thresh <= 100
        &&& 0 <= self.min_gap_ms
        &&& 1 <= self.stride
    }
}

/// The recognition granularity actually used: italic text is recognized
/// more reliably word by word, so expecting italics forces word mode.
pub fn effective_ocr_mode(cfg: &HardsubConfig) -> (mode: OcrMode)
    ensures
        mode == (if cfg.detect_italics {
            OcrMode::Word
        } else {
            cfg.ocr_mode
        }),
{
    if cfg.detect_italics {
        OcrMode::Word
    } else {
        cfg.ocr_mode
    }
}

} // verus!
