//! Deciding whether a set of containers can be joined.
//!
//! Every entry must carry at least one video or audio track. Entries that
//! differ from the first in major brand or timescale are only reported:
//! stream copy often still yields a playable file.
use vstd::prelude::*;
use crate::error::MovcatError;
use crate::inspect::{
    ContainerSummary, MovInfo, broken_metadata_text, inspect_observed, path_exists,
};

verus! {

/// What differs between an entry and the first entry of the set.
#[derive(Debug, Clone, Copy, PartialEq, Eq, Structural)]
pub enum Mismatch {
    MajorBrand,
    Timescale,
}

/// A non-fatal finding: entry `index` differs from entry 0.
#[derive(Debug, Clone, Copy, PartialEq, Eq, Structural)]
pub struct Warning {
    pub index: usize,
    pub kind: Mismatch,
}

/// The ordered entries of one job, in concatenation order, with the
/// warnings found across them.
#[derive(Debug, Clone)]
pub struct CompatibilitySet {
    pub infos: Vec<MovInfo>,
    pub warnings: Vec<Warning>,
}

/// The warnings for the first `n` entries: for each entry from the second
/// on, a brand warning and then a timescale warning where it differs from
/// the first entry.
pub open spec fn mismatch_warnings(infos: Seq<MovInfo>, n: int) -> Seq<Warning>
    decreases n,
{
    if n <= 1 {
        seq![]
    } else {
        let prev = mismatch_warnings(infos, n - 1);
        let i = n - 1;
        let with_brand = if infos[i].major_brand@ != infos[0].major_brand@ {
            prev.push(Warning { index: i as usize, kind: Mismatch::MajorBrand })
        } else {
            prev
        };
        if infos[i].timescale != infos[0].timescale {
            with_brand.push(Warning { index: i as usize, kind: Mismatch::Timescale })
        } else {
            with_brand
        }
    }
}

pub open spec fn all_have_media(infos: Seq<MovInfo>) -> bool {
    forall|i: int| 0 <= i < infos.len() ==> (#[trigger] infos[i]).has_media()
}

/// The result of validating `infos`: the first entry without media fails
/// the set; otherwise the set is the entries in their order, with the
/// mismatch warnings.
pub open spec fn validated(infos: Seq<MovInfo>, r: Result<CompatibilitySet, MovcatError>) -> bool {
    match r {
        Ok(set) => all_have_media(infos) && set.infos@ == infos && set.warnings@
            == mismatch_warnings(infos, infos.len() as int),
        Err(e) => exists|k: int|
            0 <= k < infos.len() && all_have_media(infos.take(k)) && !(#[trigger] infos[k]).has_media()
                && e == MovcatError::NoMediaTracks { path: infos[k].path },
    }
}

/// The mismatch warnings of a set, entry by entry.
fn compatibility_warnings(infos: &Vec<MovInfo>) -> (r: Vec<Warning>)
    ensures
        r@ == mismatch_warnings(infos@, infos@.len() as int),
{
    let mut r: Vec<Warning> = Vec::new();
    if infos.len() <= 1 {
        return r;
    }
    let mut i: usize = 1;
    while i < infos.len()
        invariant
            1 <= i <= infos@.len(),
            r@ == mismatch_warnings(infos@, i as int),
        decreases infos.len() - i,
    {
        if infos[i].major_brand != infos[0].major_brand {
            r.push(Warning { index: i, kind: Mismatch::MajorBrand });
        }
        if infos[i].timescale != infos[0].timescale {
            r.push(Warning { index: i, kind: Mismatch::Timescale });
        }
        i = i + 1;
    }
    r
}

/// Validates the inspected entries of one job: fails with `NoMediaTracks`
/// on the first entry with neither video nor audio, and otherwise keeps the
/// entries in their order and reports brand and timescale mismatches
/// against the first entry without failing.
pub fn check_compatibility(infos: Vec<MovInfo>) -> (r: Result<CompatibilitySet, MovcatError>)
    ensures
        validated(infos@, r),
        r is Ok <==> all_have_media(infos@),
{
    let mut i: usize = 0;
    while i < infos.len()
        invariant
            0 <= i <= infos@.len(),
            all_have_media(infos@.take(i as int)),
        decreases infos.len() - i,
    {
        if infos[i].video_tracks == 0 && infos[i].audio_tracks == 0 {
            proof {
                assert(!infos@[i as int].has_media());
            }
            return Err(MovcatError::NoMediaTracks { path: infos[i].path.clone() });
        }
        proof {
            assert forall|j: int| 0 <= j < i + 1 implies (#[trigger] infos@.take(i + 1)[j]).has_media() by {
                if j < i {
                    assert(infos@.take(i as int)[j] == infos@[j]);
                }
            }
        }
        i = i + 1;
    }
    proof {
        assert(infos@.take(infos@.len() as int) == infos@);
    }
    let warnings = compatibility_warnings(&infos);
    Ok(CompatibilitySet { infos, warnings })
}

/// A report that inspection accepts and that carries media.
pub open spec fn probe_usable(p: Result<ContainerSummary, String>) -> bool {
    p is Ok && p->Ok_0.wf() && (p->Ok_0.video_tracks > 0 || p->Ok_0.audio_tracks > 0)
}

/// An entry passes: the file exists, and its report is accepted and
/// carries media.
pub open spec fn entry_usable(exists: bool, p: Result<ContainerSummary, String>) -> bool {
    exists && probe_usable(p)
}

/// `e` is the error that a failing entry gives: `FileNotFound` for a
/// missing file; else `UnreadableContainer` with the parser's text, or with
/// the broken-metadata text; else `NoMediaTracks`.
pub open spec fn entry_error(
    file: String,
    exists: bool,
    p: Result<ContainerSummary, String>,
    e: MovcatError,
) -> bool {
    if !exists {
        e == MovcatError::FileNotFound { path: file }
    } else {
        match p {
            Err(d) => e == MovcatError::UnreadableContainer { path: file, diagnostic: d },
            Ok(s) => if s.wf() {
                e == MovcatError::NoMediaTracks { path: file }
            } else {
                e is UnreadableContainer && e->UnreadableContainer_path == file
                    && e->UnreadableContainer_diagnostic@ == broken_metadata_text()
            },
        }
    }
}

/// The result of validating `files`, given whether each exists and the
/// parser's report on each: success exactly when every entry passes, with
/// the entries in input order and the mismatch warnings; otherwise the
/// error of the first entry that does not pass.
pub open spec fn observed_outcome(
    files: Seq<String>,
    exists: Seq<bool>,
    probes: Seq<Result<ContainerSummary, String>>,
    r: Result<CompatibilitySet, MovcatError>,
) -> bool {
    &&& (r is Ok <==> forall|i: int|
        0 <= i < files.len() ==> #[trigger] entry_usable(exists[i], probes[i]))
    &&& match r {
        Ok(set) => set.infos@.len() == files.len() && (forall|i: int|
            0 <= i < files.len() ==> (#[trigger] set.infos@[i]).describes(
                files[i],
                probes[i]->Ok_0,
            )) && set.warnings@ == mismatch_warnings(set.infos@, set.infos@.len() as int),
        Err(e) => exists|k: int|
            0 <= k < files.len() && (forall|j: int|
                0 <= j < k ==> #[trigger] entry_usable(exists[j], probes[j])) && !entry_usable(
                exists[k],
                probes[k],
            ) && entry_error(#[trigger] files[k], exists[k], probes[k], e),
    }
}

/// Validates the inputs of one job, in order, given whether each file
/// exists (`exists[i]`) and the parser's report on it (`probes[i]`). Each
/// file is inspected and then required to carry media before the next is
/// looked at, so the first failing file decides the error; brand and
/// timescale differences only add warnings.
pub fn validate_observed(
    files: &Vec<String>,
    exists: &Vec<bool>,
    probes: &Vec<Result<ContainerSummary, String>>,
) -> (r: Result<CompatibilitySet, MovcatError>)
    requires
        files.len() == exists.len(),
        files.len() == probes.len(),
    ensures
        observed_outcome(files@, exists@, probes@, r),
        r is Ok ==> all_have_media(r->Ok_0.infos@),
{
    let mut infos: Vec<MovInfo> = Vec::new();
    let mut i: usize = 0;
    while i < files.len()
        invariant
            files@.len() == exists@.len(),
            files@.len() == probes@.len(),
            0 <= i <= files@.len(),
            infos@.len() == i,
            all_have_media(infos@),
            forall|j: int| 0 <= j < i ==> #[trigger] entry_usable(exists@[j], probes@[j]),
            forall|j: int|
                0 <= j < i ==> (#[trigger] infos@[j]).describes(files@[j], probes@[j]->Ok_0),
        decreases files.len() - i,
    {
        let info = match inspect_observed(&files[i], exists[i], &probes[i]) {
            Ok(info) => info,
            Err(e) => {
                proof {
                    assert(!entry_usable(exists@[i as int], probes@[i as int]));
                    assert(entry_error(files@[i as int], exists@[i as int], probes@[i as int], e));
                }
                return Err(e);
            },
        };
        if info.video_tracks == 0 && info.audio_tracks == 0 {
            let e = MovcatError::NoMediaTracks { path: files[i].clone() };
            proof {
                assert(!entry_usable(exists@[i as int], probes@[i as int]));
                assert(entry_error(files@[i as int], exists@[i as int], probes@[i as int], e));
            }
            return Err(e);
        }
        infos.push(info);
        i = i + 1;
    }
    let warnings = compatibility_warnings(&infos);
    Ok(CompatibilitySet { infos, warnings })
}

/// Inspects and validates the inputs of one job, in order: `probes[i]` is
/// the parser's report on `files[i]`. Whether each file exists is read from
/// disk first; the result is what `validate_observed` gives for those
/// answers.
pub fn validate_input_files(files: &Vec<String>, probes: &Vec<Result<ContainerSummary, String>>) -> (r:
    Result<CompatibilitySet, MovcatError>)
    requires
        files.len() == probes.len(),
    ensures
        exists|ex: Seq<bool>|
            ex.len() == files@.len() && #[trigger] observed_outcome(files@, ex, probes@, r),
{
    let mut exists: Vec<bool> = Vec::new();
    let mut i: usize = 0;
    while i < files.len()
        invariant
            0 <= i <= files@.len(),
            exists@.len() == i,
        decreases files.len() - i,
    {
        exists.push(path_exists(&files[i]));
        i = i + 1;
    }
    let r = validate_observed(files, &exists, probes);
    proof {
        assert(observed_outcome(files@, exists@, probes@, r));
    }
    r
}

/// Brand and timescale differences never fail a set: two entries that both
/// carry media validate, and a brand that differs from the first entry's is
/// recorded as a warning on the second entry.
pub proof fn lemma_brand_mismatch_warns(a: MovInfo, b: MovInfo)
    requires
        a.has_media(),
        b.has_media(),
        a.major_brand@ != b.major_brand@,
    ensures
        all_have_media(seq![a, b]),
        mismatch_warnings(seq![a, b], 2).contains(Warning { index: 1, kind: Mismatch::MajorBrand }),
{
    let s = seq![a, b];
    assert(s[0] == a && s[1] == b);
    assert(mismatch_warnings(s, 1).len() == 0);
    let w = Warning { index: 1, kind: Mismatch::MajorBrand };
    let wb = mismatch_warnings(s, 1).push(w);
    let all = mismatch_warnings(s, 2);
    assert(all == wb || all == wb.push(Warning { index: 1, kind: Mismatch::Timescale }));
    assert(all[0] == w);
}

} // verus!
