//! Output naming and the report of a run over many images.
//!
//! Each image of a run is read, transformed and written on its own. What
//! happened to it is recorded as an `Outcome`; a run is summed up from the
//! outcomes of its images.

use vstd::prelude::*;
use vstd::string::StringExecFns;

verus! {

/// What became of one image of a run.
#[derive(Clone, Copy, Debug, PartialEq, Eq, Structural)]
pub enum Outcome {
    /// The transformed image was written.
    Written,
    /// The input could not be read as an image.
    DecodeFailed,
    /// The output could not be written.
    EncodeFailed,
}

/// How a run was started.
#[derive(Clone, Copy, Debug, PartialEq, Eq, Structural)]
pub enum Mode {
    /// On one image file.
    File,
    /// On the images of a directory.
    Directory,
}

/// The sum of a run: how many images were written, and which were not, by
/// their position in the run.
#[derive(Debug, PartialEq, Eq)]
pub struct BatchReport {
    pub written: usize,
    pub failed: Vec<usize>,
}

/// The number of images that were written.
pub open spec fn written_count(outcomes: Seq<Outcome>) -> nat
    decreases outcomes.len(),
{
    if outcomes.len() == 0 {
        0
    } else if outcomes.last() == Outcome::Written {
        written_count(outcomes.drop_last()) + 1
    } else {
        written_count(outcomes.drop_last())
    }
}

/// The positions of the images that were not written, in ascending order.
pub open spec fn failed_items(outcomes: Seq<Outcome>) -> Seq<usize>
    decreases outcomes.len(),
{
    if outcomes.len() == 0 {
        Seq::empty()
    } else if outcomes.last() == Outcome::Written {
        failed_items(outcomes.drop_last())
    } else {
        failed_items(outcomes.drop_last()).push((outcomes.len() - 1) as usize)
    }
}

/// The exit status of a run. A run on a directory ends with status 0
/// whatever became of its images; a run on one file ends with status 1 if
/// that image was not written.
pub open spec fn exit_status(mode: Mode, outcomes: Seq<Outcome>) -> u8 {
    if mode == Mode::File && failed_items(outcomes).len() > 0 {
        1
    } else {
        0
    }
}

/// A run counts every image once: as written, or as failed.
pub proof fn lemma_report_is_complete(outcomes: Seq<Outcome>)
    ensures
        written_count(outcomes) + failed_items(outcomes).len() == outcomes.len(),
    decreases outcomes.len(),
{
    if outcomes.len() > 0 {
        lemma_report_is_complete(outcomes.drop_last());
    }
}

/// A run in which every image was written reports no failure.
pub proof fn lemma_all_written(outcomes: Seq<Outcome>)
    requires
        forall|i: int| 0 <= i < outcomes.len() ==> outcomes[i] == Outcome::Written,
    ensures
        written_count(outcomes) == outcomes.len(),
        failed_items(outcomes) == Seq::<usize>::empty(),
    decreases outcomes.len(),
{
    if outcomes.len() > 0 {
        lemma_all_written(outcomes.drop_last());
    }
}

/// One failure does not touch the rest of a run: where every image but the
/// one at position `k` was written, all the others are counted as written,
/// the report names position `k` and no other, and a run on a directory ends
/// with the status that it has when every image is written.
pub proof fn lemma_one_failure_is_isolated(outcomes: Seq<Outcome>, k: int)
    requires
        0 <= k < outcomes.len(),
        outcomes.len() <= usize::MAX,
        outcomes[k] != Outcome::Written,
        forall|i: int| 0 <= i < outcomes.len() && i != k ==> outcomes[i] == Outcome::Written,
    ensures
        written_count(outcomes) == outcomes.len() - 1,
        failed_items(outcomes) == seq![k as usize],
        exit_status(Mode::Directory, outcomes) == exit_status(
            Mode::Directory,
            outcomes.update(k, Outcome::Written),
        ),
    decreases outcomes.len(),
{
    let rest = outcomes.drop_last();
    if k == outcomes.len() - 1 {
        lemma_all_written(rest);
        assert(failed_items(outcomes) =~= seq![k as usize]);
    } else {
        lemma_one_failure_is_isolated(rest, k);
    }
}

/// The name of the file that the transformed image is written to: the stem
/// of the input's name, then `_cropped.png`.
pub fn output_file_name(stem: &str) -> (name: String)
    ensures
        name@ == stem@ + "_cropped.png"@,
{
    String::from_str(stem).concat("_cropped.png")
}

/// Sums up a run from the outcomes of its images.
pub fn summarize(outcomes: &Vec<Outcome>) -> (report: BatchReport)
    ensures
        report.written == written_count(outcomes@),
        report.failed@ == failed_items(outcomes@),
{
    let mut written: usize = 0;
    let mut failed: Vec<usize> = Vec::new();
    let mut i: usize = 0;
    while i < outcomes.len()
        invariant
            i <= outcomes.len(),
            written == written_count(outcomes@.take(i as int)),
            failed@ == failed_items(outcomes@.take(i as int)),
            written <= i,
        decreases outcomes.len() - i,
    {
        assert(outcomes@.take(i + 1).drop_last() =~= outcomes@.take(i as int));
        match outcomes[i] {
            Outcome::Written => {
                written += 1;
            },
            _ => {
                failed.push(i);
            },
        }
        i += 1;
    }
    assert(outcomes@.take(i as int) =~= outcomes@);
    BatchReport { written, failed }
}

/// The exit status of a run with the given report.
pub fn exit_code(mode: Mode, report: &BatchReport) -> (code: u8)
    ensures
        code == if mode == Mode::File && report.failed@.len() > 0 {
            1u8
        } else {
            0u8
        },
{
    match mode {
        Mode::File => if report.failed.len() > 0 {
            1
        } else {
            0
        },
        Mode::Directory => 0,
    }
}

} // verus!
