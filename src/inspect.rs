//! Reading one container's structural metadata.
//!
//! The box-level parsing belongs to an outside parser: its outcome for a
//! file is handed in as a `Result<ContainerSummary, String>`. This module
//! re-checks that the file exists and joins the summary to its path.
use vstd::prelude::*;
use vstd::string::StringExecFns;
use crate::error::MovcatError;

verus! {

/// What the container parser reports of one file.
#[derive(Debug, Clone)]
pub struct ContainerSummary {
    /// In units of `timescale`.
    pub duration: u64,
    /// Units per second.
    pub timescale: u32,
    pub major_brand: String,
    pub track_count: usize,
    pub video_tracks: usize,
    pub audio_tracks: usize,
}

/// The metadata of one input, in concatenation order.
#[derive(Debug, Clone)]
pub struct MovInfo {
    pub path: String,
    pub duration: u64,
    pub timescale: u32,
    pub major_brand: String,
    pub track_count: usize,
    pub video_tracks: usize,
    pub audio_tracks: usize,
}

impl ContainerSummary {
    /// A positive timescale, and no more video and audio tracks than
    /// tracks in all.
    pub open spec fn wf(self) -> bool {
        self.timescale > 0 && self.video_tracks + self.audio_tracks <= self.track_count
    }
}

impl MovInfo {
    /// A positive timescale, and no more video and audio tracks than
    /// tracks in all.
    pub open spec fn wf(self) -> bool {
        self.timescale > 0 && self.video_tracks + self.audio_tracks <= self.track_count
    }

    /// The summary of `path` as the parser gave it.
    pub open spec fn describes(self, path: String, s: ContainerSummary) -> bool {
        self.path == path && self.duration == s.duration && self.timescale == s.timescale
            && self.major_brand == s.major_brand && self.track_count == s.track_count
            && self.video_tracks == s.video_tracks && self.audio_tracks == s.audio_tracks
    }

    /// At least one video or audio track.
    pub open spec fn has_media(self) -> bool {
        self.video_tracks > 0 || self.audio_tracks > 0
    }
}

/// The diagnostic for a report that breaks the metadata invariant.
pub open spec fn broken_metadata_text() -> Seq<char> {
    "track counts or timescale out of range"@
}

/// The outcome of inspecting `path`, given whether it exists and what the
/// parser reported.
pub open spec fn inspected(
    path: String,
    exists: bool,
    probe: Result<ContainerSummary, String>,
    r: Result<MovInfo, MovcatError>,
) -> bool {
    if !exists {
        r == Err::<MovInfo, MovcatError>(MovcatError::FileNotFound { path })
    } else {
        match probe {
            Err(d) => r == Err::<MovInfo, MovcatError>(
                MovcatError::UnreadableContainer { path, diagnostic: d },
            ),
            Ok(s) => if s.wf() {
                r is Ok && r->Ok_0.describes(path, s)
            } else {
                r is Err && r->Err_0 is UnreadableContainer && r->Err_0->UnreadableContainer_path
                    == path && r->Err_0->UnreadableContainer_diagnostic@ == broken_metadata_text()
            },
        }
    }
}

/// Relies on `std::path::Path::exists`: whether the path names an entry on
/// disk at the time of the call. Nothing is promised of the answer.
#[verifier::external_body]
pub(crate) fn path_exists(path: &String) -> (r: bool) {
    std::path::Path::new(path.as_str()).exists()
}

/// Inspects `path` given whether it exists and the parser's report on it:
/// a missing file fails with `FileNotFound`, a parser failure with
/// `UnreadableContainer` carrying the parser's text, and so does a report
/// that breaks the metadata invariant (a zero timescale, or more video and
/// audio tracks than tracks in all).
pub fn inspect_observed(path: &String, exists: bool, probe: &Result<ContainerSummary, String>) -> (r:
    Result<MovInfo, MovcatError>)
    ensures
        inspected(*path, exists, *probe, r),
        r is Ok ==> r->Ok_0.wf(),
{
    if !exists {
        return Err(MovcatError::FileNotFound { path: path.clone() });
    }
    match probe {
        Err(d) => Err(MovcatError::UnreadableContainer { path: path.clone(), diagnostic: d.clone() }),
        Ok(s) => if s.timescale == 0 || s.video_tracks > s.track_count || s.audio_tracks
            > s.track_count - s.video_tracks {
            Err(
                MovcatError::UnreadableContainer {
                    path: path.clone(),
                    diagnostic: String::from_str("track counts or timescale out of range"),
                },
            )
        } else {
            Ok(
            MovInfo {
                path: path.clone(),
                duration: s.duration,
                timescale: s.timescale,
                major_brand: s.major_brand.clone(),
                track_count: s.track_count,
                video_tracks: s.video_tracks,
                audio_tracks: s.audio_tracks,
            },
        )
        },
    }
}

/// Inspects `path`: checks on disk, at the time of the call, that it
/// exists, then reads the parser's report on it. The result is what
/// `inspect_observed` gives for one of the two answers on existence.
pub fn analyze_mov_file(path: &String, probe: &Result<ContainerSummary, String>) -> (r: Result<
    MovInfo,
    MovcatError,
>)
    ensures
        exists|e: bool| inspected(*path, e, *probe, r),
        r is Ok ==> probe is Ok && r->Ok_0.wf(),
{
    let exists = path_exists(path);
    inspect_observed(path, exists, probe)
}

} // verus!
