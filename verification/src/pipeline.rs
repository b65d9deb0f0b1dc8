//! Orchestration of the codec pipeline, one stage at a time.
//!
//! The orchestrator owns no codec: the caller performs each action it
//! hands out (run a stage, flush the output, delete the partial output)
//! and reports back whether the action succeeded. The state machine below
//! guarantees that compression either succeeds through every stage and a
//! final flush, or ends in a cleanup of the partially written destination;
//! only a failed cleanup leaves a file behind, and that case is reported
//! as a distinct compound failure.

use vstd::prelude::*;

use crate::extension::Extension;
use crate::format::CompressionFormat;
use crate::validate::spec_first_is_archive;

verus! {

/// Whether a stage may stream bounded memory or must buffer its whole
/// payload.
#[derive(Clone, Copy, Debug, PartialEq, Eq, Structural)]
pub enum PipelineMode {
    Streaming,
    Buffered,
}

/// One format bound to the execution mode it runs under.
#[derive(Clone, Copy, Debug, PartialEq, Eq, Structural)]
pub struct PipelineStage {
    pub format: CompressionFormat,
    pub mode: PipelineMode,
}

/// Zip cannot be produced or consumed as a single-pass stream: whenever it
/// stands in a chain of more than one format it runs buffered.
pub open spec fn spec_mode_for(f: CompressionFormat, chain_len: int) -> PipelineMode {
    if f == CompressionFormat::Zip && chain_len > 1 {
        PipelineMode::Buffered
    } else {
        PipelineMode::Streaming
    }
}

/// The stages of a compression run, in application order: index 0 is the
/// chain's first format, applied first.
pub fn plan_compression_stages(chain: &Vec<CompressionFormat>) -> (r: Vec<PipelineStage>)
    ensures
        r@.len() == chain@.len(),
        forall|i: int|
            0 <= i < chain@.len() ==> #[trigger] r@[i] == (PipelineStage {
                format: chain@[i],
                mode: spec_mode_for(chain@[i], chain@.len() as int),
            }),
{
    let n = chain.len();
    let mut r: Vec<PipelineStage> = Vec::new();
    let mut i: usize = 0;
    while i < n
        invariant
            n == chain@.len(),
            i <= n,
            r@.len() == i,
            forall|j: int|
                0 <= j < i ==> #[trigger] r@[j] == (PipelineStage {
                    format: chain@[j],
                    mode: spec_mode_for(chain@[j], chain@.len() as int),
                }),
        decreases n - i,
    {
        let f = chain[i];
        let mode = if matches!(f, CompressionFormat::Zip) && n > 1 {
            PipelineMode::Buffered
        } else {
            PipelineMode::Streaming
        };
        r.push(PipelineStage { format: f, mode });
        i += 1;
    }
    r
}

/// The stages of a decompression run: the chain walked backwards, the
/// outermost applied format (the chain's last) undone first.
pub fn plan_decompression_stages(chain: &Vec<CompressionFormat>) -> (r: Vec<PipelineStage>)
    ensures
        r@.len() == chain@.len(),
        forall|i: int|
            0 <= i < chain@.len() ==> #[trigger] r@[i] == (PipelineStage {
                format: chain@[chain@.len() - 1 - i],
                mode: spec_mode_for(chain@[chain@.len() - 1 - i], chain@.len() as int),
            }),
{
    let n = chain.len();
    let mut r: Vec<PipelineStage> = Vec::new();
    let mut i: usize = 0;
    while i < n
        invariant
            n == chain@.len(),
            i <= n,
            r@.len() == i,
            forall|j: int|
                0 <= j < i ==> #[trigger] r@[j] == (PipelineStage {
                    format: chain@[chain@.len() - 1 - j],
                    mode: spec_mode_for(chain@[chain@.len() - 1 - j], chain@.len() as int),
                }),
        decreases n - i,
    {
        let f = chain[n - 1 - i];
        let mode = if matches!(f, CompressionFormat::Zip) && n > 1 {
            PipelineMode::Buffered
        } else {
            PipelineMode::Streaming
        };
        r.push(PipelineStage { format: f, mode });
        i += 1;
    }
    r
}

/// Whether a run over this chain holds a buffered Zip stage, so the user
/// is owed the in-memory warning.
pub fn needs_zip_memory_warning(chain: &Vec<CompressionFormat>) -> (r: bool)
    ensures
        r == (chain@.len() > 1 && chain@.contains(CompressionFormat::Zip)),
{
    if chain.len() <= 1 {
        return false;
    }
    let mut i: usize = 0;
    while i < chain.len()
        invariant
            i <= chain@.len(),
            chain@.len() > 1,
            forall|j: int| 0 <= j < i ==> chain@[j] != CompressionFormat::Zip,
        decreases chain@.len() - i,
    {
        if matches!(chain[i], CompressionFormat::Zip) {
            proof {
                assert(chain@[i as int] == CompressionFormat::Zip);
                assert(chain@.contains(CompressionFormat::Zip));
            }
            return true;
        }
        i += 1;
    }
    proof {
        assert(!chain@.contains(CompressionFormat::Zip));
    }
    false
}

/// The text of the warning that a chained Zip stage runs entirely in
/// memory.
pub open spec fn zip_memory_warning_text() -> Seq<char> {
    "\tThere is a limitation for .zip archives with extra extensions. (e.g. <file>.zip.gz)\n\tThe design of .zip makes it impossible to compress via stream, so it must be done entirely in memory.\n\tBy compressing .zip with extra compression formats, you can run out of RAM if the file is too large!"@
}

/// The warning owed before a compression run whose chained Zip stage must
/// buffer everything in memory.
pub fn warn_user_about_in_memory_zip_compression() -> (r: String)
    ensures
        r@ == zip_memory_warning_text(),
{
    String::from_str(
        "\tThere is a limitation for .zip archives with extra extensions. (e.g. <file>.zip.gz)\n\tThe design of .zip makes it impossible to compress via stream, so it must be done entirely in memory.\n\tBy compressing .zip with extra compression formats, you can run out of RAM if the file is too large!",
    )
}

/// The warning owed before a decompression run whose chained Zip stage
/// must buffer everything in memory.
pub fn warn_user_about_in_memory_zip_decompression() -> (r: String)
    ensures
        r@ == zip_memory_warning_text(),
{
    String::from_str(
        "\tThere is a limitation for .zip archives with extra extensions. (e.g. <file>.zip.gz)\n\tThe design of .zip makes it impossible to compress via stream, so it must be done entirely in memory.\n\tBy compressing .zip with extra compression formats, you can run out of RAM if the file is too large!",
    )
}

/// Whether the last decompression stage expands into several entries (the
/// chain's first format is archive-capable) rather than writing the single
/// file named by the residual base name.
pub fn decompression_expands_entries(exts: &Vec<Extension>) -> (r: bool)
    ensures
        r == spec_first_is_archive(exts@),
{
    if exts.len() == 0 {
        return false;
    }
    exts[0].is_archive()
}

/// The compound diagnostic owed when a failed run could not delete its
/// partial output: a corrupted file now exists at a path the user did not
/// expect, which is reported distinctly from the failure itself.
pub fn cleanup_failure_error(output_path: &str, cause: &str) -> (r: crate::error::FinalError)
    ensures
        r.kind == crate::error::ErrorKind::CleanupFailure,
        r.title@ == "Compression failed and the partial output could not be deleted"@,
        crate::error::texts_of(r.details@) == seq![
            "Compression failed and we could not delete '"@ + output_path@ + "'."@,
            "Error: "@ + cause@,
        ],
        crate::error::texts_of(r.hints@) == seq![
            "Please manually delete '"@ + output_path@ + "'."@,
        ],
{
    let e = crate::error::FinalError::with_title(
        crate::error::ErrorKind::CleanupFailure,
        String::from_str("Compression failed and the partial output could not be deleted"),
    ).detail(
        String::from_str("Compression failed and we could not delete '").concat(output_path)
            .concat("'."),
    ).detail(String::from_str("Error: ").concat(cause)).hint(
        String::from_str("Please manually delete '").concat(output_path).concat("'."),
    );
    proof {
        assert(crate::error::texts_of(e.details@) =~= seq![
            "Compression failed and we could not delete '"@ + output_path@ + "'."@,
            "Error: "@ + cause@,
        ]);
        assert(crate::error::texts_of(e.hints@) =~= seq![
            "Please manually delete '"@ + output_path@ + "'."@,
        ]);
    }
    e
}

/// Where a compression run stands.
#[derive(Clone, Copy, Debug, PartialEq, Eq, Structural)]
pub enum PipelineState {
    /// Created; no stage started yet.
    Pending,
    /// Stage `stage` is running.
    StageRunning { stage: usize },
    /// Every stage succeeded; the wrapped stream is being flushed to the
    /// destination file.
    Finalizing,
    /// A stage or the flush failed; the partial destination file is being
    /// deleted.
    CleaningUp,
    /// The run succeeded; the destination file holds the output.
    Done,
    /// The run failed. `cleaned` tells whether the partial destination
    /// file was deleted; when it was not, a corrupted file remains at a
    /// path the user did not expect, and a compound failure is owed.
    Failed { cleaned: bool },
}

/// What the caller must do next.
#[derive(Clone, Copy, Debug, PartialEq, Eq, Structural)]
pub enum PipelineAction {
    /// Run stage `stage` under `mode` and report the outcome.
    RunStage { stage: usize, mode: PipelineMode },
    /// Flush the wrapped stream to the destination file.
    FlushOutput,
    /// Delete the partially written destination file.
    DeleteDestination,
}

/// One transition of the compression state machine on the outcome of the
/// action the state asked for. Terminal states and `Pending` do not move.
pub open spec fn spec_step(n: int, s: PipelineState, ok: bool) -> PipelineState {
    match s {
        PipelineState::Pending => s,
        PipelineState::StageRunning { stage } => if !ok {
            PipelineState::CleaningUp
        } else if stage + 1 < n {
            PipelineState::StageRunning { stage: (stage + 1) as usize }
        } else {
            PipelineState::Finalizing
        },
        PipelineState::Finalizing => if ok {
            PipelineState::Done
        } else {
            PipelineState::CleaningUp
        },
        PipelineState::CleaningUp => PipelineState::Failed { cleaned: ok },
        PipelineState::Done => s,
        PipelineState::Failed { .. } => s,
    }
}

/// A compression run: the planned stages and where the run stands.
pub struct CompressionPipeline {
    pub stages: Vec<PipelineStage>,
    pub state: PipelineState,
}

/// The machine's internal consistency: a running stage index is in range,
/// and there is at least one stage.
pub open spec fn pipeline_wf(p: CompressionPipeline) -> bool {
    &&& p.stages@.len() >= 1
    &&& match p.state {
        PipelineState::StageRunning { stage } => stage < p.stages@.len(),
        _ => true,
    }
}

impl CompressionPipeline {
    /// A run over a non-empty stage plan, not yet started. The destination
    /// file is created (empty) before the first stage runs.
    pub fn new(stages: Vec<PipelineStage>) -> (r: CompressionPipeline)
        requires
            stages@.len() >= 1,
        ensures
            pipeline_wf(r),
            r.state == PipelineState::Pending,
            r.stages@ == stages@,
    {
        CompressionPipeline { stages, state: PipelineState::Pending }
    }

    /// Starts the run: the first stage becomes current.
    pub fn start(&mut self)
        requires
            pipeline_wf(*old(self)),
            old(self).state == PipelineState::Pending,
        ensures
            pipeline_wf(*final(self)),
            final(self).state == (PipelineState::StageRunning { stage: 0usize }),
            final(self).stages@ == old(self).stages@,
    {
        self.state = PipelineState::StageRunning { stage: 0 };
    }

    /// What the caller must do in the current state; `None` in `Pending`
    /// and in the terminal states.
    pub fn current_action(&self) -> (r: Option<PipelineAction>)
        requires
            pipeline_wf(*self),
        ensures
            r == match self.state {
                PipelineState::Pending => None::<PipelineAction>,
                PipelineState::StageRunning { stage } => Some(PipelineAction::RunStage {
                    stage,
                    mode: self.stages@[stage as int].mode,
                }),
                PipelineState::Finalizing => Some(PipelineAction::FlushOutput),
                PipelineState::CleaningUp => Some(PipelineAction::DeleteDestination),
                PipelineState::Done => None::<PipelineAction>,
                PipelineState::Failed { .. } => None::<PipelineAction>,
            },
    {
        match self.state {
            PipelineState::Pending => None,
            PipelineState::StageRunning { stage } => Some(PipelineAction::RunStage {
                stage,
                mode: self.stages[stage].mode,
            }),
            PipelineState::Finalizing => Some(PipelineAction::FlushOutput),
            PipelineState::CleaningUp => Some(PipelineAction::DeleteDestination),
            PipelineState::Done => None,
            PipelineState::Failed { .. } => None,
        }
    }

    /// Reports the outcome of the current action and advances the run.
    /// A failed stage or flush moves to cleanup; codec failures are never
    /// retried, since corrupted content does not mend itself.
    pub fn advance(&mut self, ok: bool)
        requires
            pipeline_wf(*old(self)),
            !(old(self).state is Pending),
            !(old(self).state is Done),
            !(old(self).state is Failed),
        ensures
            pipeline_wf(*final(self)),
            final(self).stages@ == old(self).stages@,
            final(self).state == spec_step(old(self).stages@.len() as int, old(self).state, ok),
    {
        let n = self.stages.len();
        match self.state {
            PipelineState::StageRunning { stage } => {
                if !ok {
                    self.state = PipelineState::CleaningUp;
                } else if stage + 1 < n {
                    self.state = PipelineState::StageRunning { stage: stage + 1 };
                } else {
                    self.state = PipelineState::Finalizing;
                }
            },
            PipelineState::Finalizing => {
                if ok {
                    self.state = PipelineState::Done;
                } else {
                    self.state = PipelineState::CleaningUp;
                }
            },
            PipelineState::CleaningUp => {
                self.state = PipelineState::Failed { cleaned: ok };
            },
            _ => {},
        }
    }

    /// Whether the run has ended, well or badly.
    pub fn is_finished(&self) -> (r: bool)
        ensures
            r == (self.state is Done || self.state is Failed),
    {
        matches!(self.state, PipelineState::Done | PipelineState::Failed { .. })
    }
}

/// The state after feeding a run the outcomes in `evs`, one per action,
/// starting from the first stage; paired with whether a file exists at the
/// destination path, which is created before the first stage and deleted
/// exactly by a successful cleanup.
pub open spec fn spec_run_with_destination(
    n: int,
    s: PipelineState,
    dest_exists: bool,
    evs: Seq<bool>,
) -> (PipelineState, bool)
    decreases evs.len(),
{
    if evs.len() == 0 {
        (s, dest_exists)
    } else {
        let s2 = spec_step(n, s, evs[0]);
        let d2 = if s is CleaningUp && evs[0] {
            false
        } else {
            dest_exists
        };
        spec_run_with_destination(n, s2, d2, evs.drop_first())
    }
}

/// The destination-file invariant of every run, from any reachable point:
/// while the run is underway the created file is there; a cleaned-up
/// failure has deleted it; success keeps it; and only the compound
/// failure-of-cleanup case leaves it behind after a failure.
pub open spec fn spec_destination_invariant(s: PipelineState, dest_exists: bool) -> bool {
    match s {
        PipelineState::Failed { cleaned } => dest_exists == !cleaned,
        _ => dest_exists,
    }
}

proof fn lemma_destination_invariant_preserved(
    n: int,
    s: PipelineState,
    dest_exists: bool,
    evs: Seq<bool>,
)
    requires
        spec_destination_invariant(s, dest_exists),
    ensures
        spec_destination_invariant(
            spec_run_with_destination(n, s, dest_exists, evs).0,
            spec_run_with_destination(n, s, dest_exists, evs).1,
        ),
    decreases evs.len(),
{
    if evs.len() > 0 {
        let s2 = spec_step(n, s, evs[0]);
        let d2 = if s is CleaningUp && evs[0] {
            false
        } else {
            dest_exists
        };
        lemma_destination_invariant_preserved(n, s2, d2, evs.drop_first());
    }
}

/// Failure cleanup: however a compression run goes, if it ends failed and
/// cleaned, no file is left at the destination path; if it succeeds, the
/// output file is there; and a file left behind by a failure happens only
/// in the compound case where the cleanup itself failed, which the run
/// reports distinctly.
pub proof fn lemma_failure_leaves_no_destination(n: int, evs: Seq<bool>)
    ensures
        ({
            let r = spec_run_with_destination(
                n,
                PipelineState::StageRunning { stage: 0usize },
                true,
                evs,
            );
            &&& r.0 == (PipelineState::Failed { cleaned: true }) ==> !r.1
            &&& r.0 == PipelineState::Done ==> r.1
            &&& r.0 == (PipelineState::Failed { cleaned: false }) ==> r.1
        }),
{
    lemma_destination_invariant_preserved(
        n,
        PipelineState::StageRunning { stage: 0usize },
        true,
        evs,
    );
}

/// A run that ends `Done` passed through every remaining stage and the
/// final flush, each succeeding, in order: none was skipped.
pub proof fn lemma_success_runs_every_stage(n: int, stage: usize, evs: Seq<bool>)
    requires
        stage < n <= usize::MAX,
        spec_run_with_destination(
            n,
            PipelineState::StageRunning { stage },
            true,
            evs,
        ).0 == PipelineState::Done,
    ensures
        evs.len() >= n - stage + 1,
        forall|i: int| 0 <= i < n - stage + 1 ==> evs[i],
    decreases evs.len(),
{
    let s = PipelineState::StageRunning { stage };
    if evs.len() == 0 {
        // The run cannot already be done while a stage is current.
    } else {
        if !evs[0] {
            lemma_stuck_after_cleanup(n, true, evs.drop_first());
        } else if stage + 1 < n {
            lemma_success_runs_every_stage(n, (stage + 1) as usize, evs.drop_first());
            assert forall|i: int| 0 <= i < n - stage + 1 implies evs[i] by {
                if i > 0 {
                    assert(evs.drop_first()[i - 1] == evs[i]);
                }
            }
        } else {
            lemma_finalizing_success(n, evs.drop_first());
            assert forall|i: int| 0 <= i < n - stage + 1 implies evs[i] by {
                if i > 0 {
                    assert(evs.drop_first()[i - 1] == evs[i]);
                }
            }
        }
    }
}

proof fn lemma_finalizing_success(n: int, evs: Seq<bool>)
    requires
        spec_run_with_destination(n, PipelineState::Finalizing, true, evs).0
            == PipelineState::Done,
    ensures
        evs.len() >= 1,
        evs[0],
    decreases evs.len(),
{
    if evs.len() == 0 {
    } else if !evs[0] {
        lemma_stuck_after_cleanup(n, true, evs.drop_first());
    }
}

proof fn lemma_stuck_after_cleanup(n: int, d: bool, evs: Seq<bool>)
    ensures
        !(spec_run_with_destination(n, PipelineState::CleaningUp, d, evs).0
            == PipelineState::Done),
    decreases evs.len(),
{
    if evs.len() > 0 {
        let d2 = if evs[0] {
            false
        } else {
            d
        };
        lemma_failed_stays(n, evs[0], d2, evs.drop_first());
    }
}

proof fn lemma_failed_stays(n: int, c: bool, d: bool, evs: Seq<bool>)
    ensures
        spec_run_with_destination(n, PipelineState::Failed { cleaned: c }, d, evs).0
            == (PipelineState::Failed { cleaned: c }),
    decreases evs.len(),
{
    if evs.len() > 0 {
        lemma_failed_stays(n, c, d, evs.drop_first());
    }
}

/// Where a decompression run stands. Failures abort further stages for
/// the file at once and roll nothing back: entries already fully
/// extracted by prior files stay.
#[derive(Clone, Copy, Debug, PartialEq, Eq, Structural)]
pub enum DecompressionState {
    /// Created; no stage started yet.
    Pending,
    /// Undo stage `stage` is running, outermost first.
    StageRunning { stage: usize },
    /// Every wrapping stage is undone; the innermost payload is being
    /// materialized: expanded into entries when the innermost format is
    /// an archive, written as the single base-named file otherwise.
    Extracting,
    /// The run succeeded.
    Done,
    /// A stage or the materialization failed; nothing is rolled back.
    Failed,
}

/// What the caller must do next in a decompression run.
#[derive(Clone, Copy, Debug, PartialEq, Eq, Structural)]
pub enum DecompressionAction {
    /// Undo stage `stage` under `mode` and report the outcome.
    RunStage { stage: usize, mode: PipelineMode },
    /// Expand the payload into entries under the output directory.
    ExtractEntries,
    /// Write the payload as the single file named by the residual base.
    WriteSingleFile,
}

/// One transition of the decompression machine: `n` counts the planned
/// stages, of which the last is the materialization step.
pub open spec fn spec_decompress_step(n: int, s: DecompressionState, ok: bool) -> DecompressionState {
    match s {
        DecompressionState::Pending => s,
        DecompressionState::StageRunning { stage } => if !ok {
            DecompressionState::Failed
        } else if stage + 2 < n {
            DecompressionState::StageRunning { stage: (stage + 1) as usize }
        } else {
            DecompressionState::Extracting
        },
        DecompressionState::Extracting => if ok {
            DecompressionState::Done
        } else {
            DecompressionState::Failed
        },
        DecompressionState::Done => s,
        DecompressionState::Failed => s,
    }
}

/// A decompression run: the planned stages, walked outermost first,
/// whether the innermost format expands into entries, and where the run
/// stands.
pub struct DecompressionPipeline {
    pub stages: Vec<PipelineStage>,
    pub expands_entries: bool,
    pub state: DecompressionState,
}

/// The machine's internal consistency: a running stage index is among the
/// non-final stages, and there is at least one stage.
pub open spec fn decompression_wf(p: DecompressionPipeline) -> bool {
    &&& p.stages@.len() >= 1
    &&& match p.state {
        DecompressionState::StageRunning { stage } => stage + 1 < p.stages@.len(),
        _ => true,
    }
}

impl DecompressionPipeline {
    /// A run over a non-empty stage plan, not yet started.
    pub fn new(stages: Vec<PipelineStage>, expands_entries: bool) -> (r: DecompressionPipeline)
        requires
            stages@.len() >= 1,
        ensures
            decompression_wf(r),
            r.state == DecompressionState::Pending,
            r.stages@ == stages@,
            r.expands_entries == expands_entries,
    {
        DecompressionPipeline { stages, expands_entries, state: DecompressionState::Pending }
    }

    /// Starts the run: with more than one stage the outermost undo stage
    /// becomes current; a single-stage run goes straight to
    /// materialization.
    pub fn start(&mut self)
        requires
            decompression_wf(*old(self)),
            old(self).state == DecompressionState::Pending,
        ensures
            decompression_wf(*final(self)),
            final(self).stages@ == old(self).stages@,
            final(self).expands_entries == old(self).expands_entries,
            final(self).state == if old(self).stages@.len() > 1 {
                DecompressionState::StageRunning { stage: 0usize }
            } else {
                DecompressionState::Extracting
            },
    {
        if self.stages.len() > 1 {
            self.state = DecompressionState::StageRunning { stage: 0 };
        } else {
            self.state = DecompressionState::Extracting;
        }
    }

    /// What the caller must do in the current state; `None` in `Pending`
    /// and in the terminal states.
    pub fn current_action(&self) -> (r: Option<DecompressionAction>)
        requires
            decompression_wf(*self),
        ensures
            r == match self.state {
                DecompressionState::Pending => None::<DecompressionAction>,
                DecompressionState::StageRunning { stage } => Some(DecompressionAction::RunStage {
                    stage,
                    mode: self.stages@[stage as int].mode,
                }),
                DecompressionState::Extracting => if self.expands_entries {
                    Some(DecompressionAction::ExtractEntries)
                } else {
                    Some(DecompressionAction::WriteSingleFile)
                },
                DecompressionState::Done => None::<DecompressionAction>,
                DecompressionState::Failed => None::<DecompressionAction>,
            },
    {
        match self.state {
            DecompressionState::Pending => None,
            DecompressionState::StageRunning { stage } => Some(DecompressionAction::RunStage {
                stage,
                mode: self.stages[stage].mode,
            }),
            DecompressionState::Extracting => if self.expands_entries {
                Some(DecompressionAction::ExtractEntries)
            } else {
                Some(DecompressionAction::WriteSingleFile)
            },
            DecompressionState::Done => None,
            DecompressionState::Failed => None,
        }
    }

    /// Reports the outcome of the current action and advances the run.
    /// Any failure ends the run for this file at once: malformed content
    /// is not recoverable by retrying, and files already extracted stay.
    pub fn advance(&mut self, ok: bool)
        requires
            decompression_wf(*old(self)),
            !(old(self).state is Pending),
            !(old(self).state is Done),
            !(old(self).state is Failed),
        ensures
            decompression_wf(*final(self)),
            final(self).stages@ == old(self).stages@,
            final(self).expands_entries == old(self).expands_entries,
            final(self).state == spec_decompress_step(
                old(self).stages@.len() as int,
                old(self).state,
                ok,
            ),
    {
        let n = self.stages.len();
        match self.state {
            DecompressionState::StageRunning { stage } => {
                if !ok {
                    self.state = DecompressionState::Failed;
                } else if stage + 2 < n {
                    self.state = DecompressionState::StageRunning { stage: stage + 1 };
                } else {
                    self.state = DecompressionState::Extracting;
                }
            },
            DecompressionState::Extracting => {
                if ok {
                    self.state = DecompressionState::Done;
                } else {
                    self.state = DecompressionState::Failed;
                }
            },
            _ => {},
        }
    }
}

} // verus!
