//! The container stream modes the demultiplexer can report, as a closed
//! tagged type with a total mapping from the external integer domain, and
//! the dispatch deciding how more demultiplexed data is fetched.

use vstd::prelude::*;

verus! {

/// Stream mode of the input container, as the demultiplexer reports it.
#[derive(Clone, Copy, PartialEq, Eq, Structural, Debug)]
pub enum StreamMode {
    ElementaryOrNotFound,
    Transport,
    Program,
    Asf,
    McpoodlesRaw,
    Rcwt,
    Myth,
    Mp4,
    HexDump,
    Wtv,
    Ffmpeg,
    Gxf,
    Mkv,
    Mxf,
    Autodetect,
    /// Any integer the external interface does not define.
    Unrecognized,
}

/// Total mapping from the demultiplexer's integer domain.
pub open spec fn spec_stream_mode(code: i32) -> StreamMode {
    if code == 0 {
        StreamMode::ElementaryOrNotFound
    } else if code == 1 {
        StreamMode::Transport
    } else if code == 2 {
        StreamMode::Program
    } else if code == 3 {
        StreamMode::Asf
    } else if code == 4 {
        StreamMode::McpoodlesRaw
    } else if code == 5 {
        StreamMode::Rcwt
    } else if code == 6 {
        StreamMode::Myth
    } else if code == 7 {
        StreamMode::Mp4
    } else if code == 8 {
        StreamMode::HexDump
    } else if code == 9 {
        StreamMode::Wtv
    } else if code == 10 {
        StreamMode::Ffmpeg
    } else if code == 11 {
        StreamMode::Gxf
    } else if code == 12 {
        StreamMode::Mkv
    } else if code == 13 {
        StreamMode::Mxf
    } else if code == 16 {
        StreamMode::Autodetect
    } else {
        StreamMode::Unrecognized
    }
}

impl StreamMode {
    /// Maps the raw integer the demultiplexer hands over; any undefined
    /// value becomes `Unrecognized` instead of ending the process.
    pub fn from_code(code: i32) -> (mode: StreamMode)
        ensures
            mode == spec_stream_mode(code),
    {
        if code == 0 {
            StreamMode::ElementaryOrNotFound
        } else if code == 1 {
            StreamMode::Transport
        } else if code == 2 {
            StreamMode::Program
        } else if code == 3 {
            StreamMode::Asf
        } else if code == 4 {
            StreamMode::McpoodlesRaw
        } else if code == 5 {
            StreamMode::Rcwt
        } else if code == 6 {
            StreamMode::Myth
        } else if code == 7 {
            StreamMode::Mp4
        } else if code == 8 {
            StreamMode::HexDump
        } else if code == 9 {
            StreamMode::Wtv
        } else if code == 10 {
            StreamMode::Ffmpeg
        } else if code == 11 {
            StreamMode::Gxf
        } else if code == 12 {
            StreamMode::Mkv
        } else if code == 13 {
            StreamMode::Mxf
        } else if code == 16 {
            StreamMode::Autodetect
        } else {
            StreamMode::Unrecognized
        }
    }
}

/// Which fetch routine the caption side of the loop must call for more
/// demultiplexed data.
#[derive(Clone, Copy, PartialEq, Eq, Structural, Debug)]
pub enum DemuxAction {
    FetchGeneral,
    FetchTransport,
    FetchProgram,
    FetchAsf,
    FetchWtv,
    /// No fetch routine exists for this mode: a configuration error,
    /// fatal to the whole run before any output is attempted.
    Unsupported,
}

/// The fetch routine for each stream mode.
pub open spec fn spec_demux_dispatch(mode: StreamMode) -> DemuxAction {
    match mode {
        StreamMode::ElementaryOrNotFound => DemuxAction::FetchGeneral,
        StreamMode::Transport => DemuxAction::FetchTransport,
        StreamMode::Program => DemuxAction::FetchProgram,
        StreamMode::Asf => DemuxAction::FetchAsf,
        StreamMode::Wtv => DemuxAction::FetchWtv,
        _ => DemuxAction::Unsupported,
    }
}

/// Decides how more demultiplexed data is fetched for the caption source.
pub fn demux_dispatch(mode: StreamMode) -> (action: DemuxAction)
    ensures
        action == spec_demux_dispatch(mode),
{
    match mode {
        StreamMode::ElementaryOrNotFound => DemuxAction::FetchGeneral,
        StreamMode::Transport => DemuxAction::FetchTransport,
        StreamMode::Program => DemuxAction::FetchProgram,
        StreamMode::Asf => DemuxAction::FetchAsf,
        StreamMode::Wtv => DemuxAction::FetchWtv,
        _ => DemuxAction::Unsupported,
    }
}

/// Whether the run must switch the demultiplexer to multiprogram
/// handling: a transport stream written to the raw-caption output format
/// (the external writer's format code for it is 5).
pub fn force_multiprogram(mode: StreamMode, write_format: u32) -> (fm: bool)
    ensures
        fm == (mode == StreamMode::Transport && write_format == 5),
{
    mode == StreamMode::Transport && write_format == 5
}

} // verus!
