//! Extraction of burned-in ("hardsub") subtitle text from sampled video
//! frames, and its reconciliation with bitstream captions.
//!
//! The crate holds the decision core of that pipeline: turning a frame's
//! derived pixel planes into a text-probability mask, folding a stream of
//! recognized text samples into timestamped subtitle cues, and interleaving
//! two independently paced cue sources into one output stream ordered by
//! begin time.  Decoding, color conversion, image morphology and character
//! recognition are outside collaborators; they hand this crate plain pixel
//! planes and recognized strings and take cues back.

pub mod config;
pub mod cue;
pub mod demux;
pub mod editdist;
pub mod reconcile;
pub mod segment;
pub mod stream;
pub mod timing;
