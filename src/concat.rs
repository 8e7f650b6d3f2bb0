//! Driving the external stream-copy muxer.
//!
//! A `ConcatJob` is a state machine: CheckingTool, BuildingManifest
//! (resolving the inputs, then WritingManifest), Invoking, CleaningUp, then
//! Done or Failed. Each step is taken only from the phase before it. The caller performs each
//! `Action` it returns (probing the tool, resolving paths, writing the
//! manifest, running the tool, removing the manifest) and hands the outcome
//! back through the matching method. Once the tool has been run the
//! manifest is always removed, whatever the tool reported.
use vstd::prelude::*;
use vstd::string::StringExecFns;
use crate::error::MovcatError;

verus! {

/// Where a job stands.
#[derive(Debug, Clone, Copy, PartialEq, Eq, Structural)]
pub enum Phase {
    CheckingTool,
    BuildingManifest,
    /// The manifest's content is built and its write was asked for.
    WritingManifest,
    Invoking,
    CleaningUp,
    Done,
    Failed,
}

/// What the caller is asked to do next.
#[derive(Debug)]
pub enum Action {
    /// Resolve each input of the job to its absolute, canonical form.
    ResolvePaths,
    /// Write `content` to the manifest file at `path`.
    WriteManifest { path: String, content: String },
    /// Run the muxer with these arguments and wait for it.
    RunTool { args: Vec<String> },
    /// Delete the manifest file at `path`; a failure to delete is ignored.
    RemoveManifest { path: String },
    /// The job is over, with this result.
    Finish(Result<(), MovcatError>),
}

/// One concatenation: its inputs in order, the output path, and where the
/// manifest goes.
#[derive(Debug)]
pub struct ConcatJob {
    pub inputs: Vec<String>,
    pub output: String,
    pub manifest_path: String,
    pub phase: Phase,
    /// The muxer's verdict, held while the manifest is removed.
    pub verdict: Result<(), MovcatError>,
}

/// One manifest line: `file '<path>'`.
pub open spec fn manifest_line(p: Seq<char>) -> Seq<char> {
    "file '"@ + p + "'\n"@
}

/// The manifest for these paths: one line each, in order.
pub open spec fn manifest_of(paths: Seq<String>) -> Seq<char>
    decreases paths.len(),
{
    if paths.len() == 0 {
        seq![]
    } else {
        manifest_of(paths.drop_last()) + manifest_line(paths.last()@)
    }
}

/// The muxer's arguments: concat demuxer reading the manifest, unsafe
/// paths allowed, stream copy, timestamps shifted to start at zero, and the
/// output overwritten.
pub open spec fn tool_args_of(manifest: Seq<char>, output: Seq<char>) -> Seq<Seq<char>> {
    seq![
        "-f"@,
        "concat"@,
        "-safe"@,
        "0"@,
        "-i"@,
        manifest,
        "-c"@,
        "copy"@,
        "-avoid_negative_ts"@,
        "make_zero"@,
        "-y"@,
        output,
    ]
}

/// Builds the manifest text for paths already made absolute.
pub fn manifest_text(paths: &Vec<String>) -> (r: String)
    ensures
        r@ == manifest_of(paths@),
{
    let mut r = String::new();
    let mut i: usize = 0;
    while i < paths.len()
        invariant
            0 <= i <= paths@.len(),
            r@ == manifest_of(paths@.take(i as int)),
        decreases paths.len() - i,
    {
        let ghost before = r@;
        r.append("file '");
        r.append(paths[i].as_str());
        r.append("'\n");
        proof {
            assert(paths@.take(i as int + 1).drop_last() == paths@.take(i as int));
            assert(r@ == before + manifest_line(paths@[i as int]@));
        }
        i = i + 1;
    }
    proof {
        assert(paths@.take(paths@.len() as int) == paths@);
    }
    r
}

/// Builds the muxer's argument list.
pub fn tool_arguments(manifest: &String, output: &String) -> (r: Vec<String>)
    ensures
        r@.len() == 12,
        forall|i: int| 0 <= i < 12 ==> (#[trigger] r@[i])@ == tool_args_of(manifest@, output@)[i],
{
    let mut r: Vec<String> = Vec::new();
    r.push(String::from_str("-f"));
    r.push(String::from_str("concat"));
    r.push(String::from_str("-safe"));
    r.push(String::from_str("0"));
    r.push(String::from_str("-i"));
    r.push(manifest.clone());
    r.push(String::from_str("-c"));
    r.push(String::from_str("copy"));
    r.push(String::from_str("-avoid_negative_ts"));
    r.push(String::from_str("make_zero"));
    r.push(String::from_str("-y"));
    r.push(output.clone());
    r
}

pub open spec fn all_resolved(rs: Seq<Result<String, String>>) -> bool {
    forall|i: int| 0 <= i < rs.len() ==> (#[trigger] rs[i]) is Ok
}

/// The paths of an all-successful resolution, in order.
pub open spec fn resolved_paths(rs: Seq<Result<String, String>>) -> Seq<String> {
    rs.map_values(|r: Result<String, String>| r->Ok_0)
}

impl ConcatJob {
    /// The inputs, output and manifest location are the same in both.
    pub open spec fn same_job(self, other: ConcatJob) -> bool {
        self.inputs == other.inputs && self.output == other.output && self.manifest_path
            == other.manifest_path
    }

    /// A job over `inputs`, in that order, writing `output`; the manifest
    /// goes to `manifest_path`. The first step is to probe for the muxer.
    pub fn new(inputs: Vec<String>, output: String, manifest_path: String) -> (r: ConcatJob)
        ensures
            r.inputs == inputs,
            r.output == output,
            r.manifest_path == manifest_path,
            r.phase == Phase::CheckingTool,
            r.verdict == Ok::<(), MovcatError>(()),
    {
        ConcatJob { inputs, output, manifest_path, phase: Phase::CheckingTool, verdict: Ok(()) }
    }

    /// The muxer was probed. If it is absent the job fails at once with
    /// `ExternalToolMissing`, before any manifest exists; otherwise the
    /// inputs are to be resolved.
    pub fn on_tool_probe(&mut self, present: bool) -> (a: Action)
        requires
            old(self).phase == Phase::CheckingTool,
        ensures
            final(self).same_job(*old(self)),
            final(self).verdict == old(self).verdict,
            present ==> final(self).phase == Phase::BuildingManifest && a is ResolvePaths,
            !present ==> final(self).phase == Phase::Failed && a == Action::Finish(
                Err(MovcatError::ExternalToolMissing),
            ),
    {
        if present {
            self.phase = Phase::BuildingManifest;
            Action::ResolvePaths
        } else {
            self.phase = Phase::Failed;
            Action::Finish(Err(MovcatError::ExternalToolMissing))
        }
    }

    /// The inputs were resolved: `resolved[i]` is the canonical path of
    /// `inputs[i]`, or why it could not be had. The first failure fails the
    /// job with `PathResolution`; otherwise the manifest, one line per input
    /// in job order, is to be written.
    pub fn on_paths_resolved(&mut self, resolved: Vec<Result<String, String>>) -> (a: Action)
        requires
            old(self).phase == Phase::BuildingManifest,
            resolved@.len() == old(self).inputs@.len(),
        ensures
            final(self).same_job(*old(self)),
            final(self).verdict == old(self).verdict,
            all_resolved(resolved@) ==> final(self).phase == Phase::WritingManifest && a
                is WriteManifest && a->WriteManifest_path == old(self).manifest_path
                && a->WriteManifest_content@ == manifest_of(resolved_paths(resolved@)),
            !all_resolved(resolved@) ==> final(self).phase == Phase::Failed && exists|k: int|
                0 <= k < resolved@.len() && all_resolved(resolved@.take(k))
                    && (#[trigger] resolved@[k]) is Err && a == Action::Finish(
                    Err(
                        MovcatError::PathResolution {
                            path: old(self).inputs@[k],
                            diagnostic: resolved@[k]->Err_0,
                        },
                    ),
                ),
    {
        let mut paths: Vec<String> = Vec::new();
        let mut i: usize = 0;
        while i < resolved.len()
            invariant
                *self == *old(self),
                resolved@.len() == self.inputs@.len(),
                0 <= i <= resolved@.len(),
                all_resolved(resolved@.take(i as int)),
                paths@ == resolved_paths(resolved@.take(i as int)),
            decreases resolved.len() - i,
        {
            match &resolved[i] {
                Ok(p) => {
                    paths.push(p.clone());
                    proof {
                        let t = resolved@.take(i as int + 1);
                        assert(t.drop_last() == resolved@.take(i as int));
                        assert(resolved_paths(t) == resolved_paths(resolved@.take(i as int)).push(
                            *p,
                        ));
                        assert forall|j: int| 0 <= j < t.len() implies (#[trigger] t[j]) is Ok by {
                            if j < i {
                                assert(t[j] == resolved@.take(i as int)[j]);
                            }
                        }
                    }
                },
                Err(d) => {
                    self.phase = Phase::Failed;
                    proof {
                        assert(!all_resolved(resolved@));
                    }
                    return Action::Finish(
                        Err(
                            MovcatError::PathResolution {
                                path: self.inputs[i].clone(),
                                diagnostic: d.clone(),
                            },
                        ),
                    );
                },
            }
            i = i + 1;
        }
        proof {
            assert(resolved@.take(resolved@.len() as int) == resolved@);
        }
        self.phase = Phase::WritingManifest;
        Action::WriteManifest { path: self.manifest_path.clone(), content: manifest_text(&paths) }
    }

    /// The manifest write finished. A failure fails the job with
    /// `ManifestWrite`; otherwise the muxer is to be run in stream-copy mode
    /// on the manifest.
    pub fn on_manifest_written(&mut self, written: Result<(), String>) -> (a: Action)
        requires
            old(self).phase == Phase::WritingManifest,
        ensures
            final(self).same_job(*old(self)),
            final(self).verdict == old(self).verdict,
            written is Ok ==> final(self).phase == Phase::Invoking && a is RunTool
                && a->RunTool_args@.len() == 12 && forall|i: int|
                0 <= i < 12 ==> (#[trigger] a->RunTool_args@[i])@ == tool_args_of(
                    old(self).manifest_path@,
                    old(self).output@,
                )[i],
            written is Err ==> final(self).phase == Phase::Failed && a == Action::Finish(
                Err(
                    MovcatError::ManifestWrite {
                        path: old(self).manifest_path,
                        diagnostic: written->Err_0,
                    },
                ),
            ),
    {
        match written {
            Ok(()) => {
                self.phase = Phase::Invoking;
                Action::RunTool { args: tool_arguments(&self.manifest_path, &self.output) }
            },
            Err(d) => {
                self.phase = Phase::Failed;
                Action::Finish(
                    Err(MovcatError::ManifestWrite { path: self.manifest_path.clone(), diagnostic: d }),
                )
            },
        }
    }

    /// The muxer returned, or could not be run. Whatever happened, the
    /// manifest is to be removed next; the verdict, success exactly when
    /// the muxer reported success, is held until then, and a failure
    /// carries the muxer's diagnostic text unchanged.
    pub fn on_tool_exit(&mut self, success: bool, diagnostic: String) -> (a: Action)
        requires
            old(self).phase == Phase::Invoking,
        ensures
            final(self).same_job(*old(self)),
            final(self).phase == Phase::CleaningUp,
            a == (Action::RemoveManifest { path: old(self).manifest_path }),
            success ==> final(self).verdict == Ok::<(), MovcatError>(()),
            !success ==> final(self).verdict == Err::<(), MovcatError>(
                MovcatError::ExternalToolFailure { diagnostic },
            ),
    {
        self.phase = Phase::CleaningUp;
        self.verdict = if success {
            Ok(())
        } else {
            Err(MovcatError::ExternalToolFailure { diagnostic })
        };
        Action::RemoveManifest { path: self.manifest_path.clone() }
    }

    /// The manifest removal was attempted; its own outcome never changes
    /// the job's result. The job ends with the muxer's verdict, which the
    /// returned action now owns.
    pub fn on_manifest_removed(&mut self) -> (a: Action)
        requires
            old(self).phase == Phase::CleaningUp,
        ensures
            final(self).same_job(*old(self)),
            a == Action::Finish(old(self).verdict),
            old(self).verdict is Ok ==> final(self).phase == Phase::Done,
            old(self).verdict is Err ==> final(self).phase == Phase::Failed,
    {
        let mut verdict: Result<(), MovcatError> = Ok(());
        std::mem::swap(&mut verdict, &mut self.verdict);
        if verdict.is_ok() {
            self.phase = Phase::Done;
        } else {
            self.phase = Phase::Failed;
        }
        Action::Finish(verdict)
    }
}

} // verus!
