use ouch::pipeline::{
    needs_zip_memory_warning, plan_compression_stages, plan_decompression_stages,
    warn_user_about_in_memory_zip_compression, warn_user_about_in_memory_zip_decompression,
    CompressionPipeline, DecompressionAction, DecompressionPipeline, DecompressionState,
    PipelineAction, PipelineMode, PipelineState,
};
use ouch::CompressionFormat;

#[test]
fn compression_stages_follow_chain_order_streaming() {
    let chain = vec![CompressionFormat::Tar, CompressionFormat::Gzip];
    let stages = plan_compression_stages(&chain);
    assert_eq!(stages.len(), 2);
    assert_eq!(stages[0].format, CompressionFormat::Tar);
    assert_eq!(stages[0].mode, PipelineMode::Streaming);
    assert_eq!(stages[1].format, CompressionFormat::Gzip);
    assert_eq!(stages[1].mode, PipelineMode::Streaming);
}

#[test]
fn zip_in_a_chain_of_more_than_one_runs_buffered() {
    let chain = vec![CompressionFormat::Zip, CompressionFormat::Gzip];
    let stages = plan_compression_stages(&chain);
    assert_eq!(stages[0].mode, PipelineMode::Buffered);
    assert_eq!(stages[1].mode, PipelineMode::Streaming);
}

#[test]
fn zip_alone_streams() {
    let chain = vec![CompressionFormat::Zip];
    let stages = plan_compression_stages(&chain);
    assert_eq!(stages[0].mode, PipelineMode::Streaming);
}

#[test]
fn decompression_stages_walk_the_chain_backwards() {
    let chain = vec![
        CompressionFormat::Tar,
        CompressionFormat::Gzip,
        CompressionFormat::Xz,
    ];
    let stages = plan_decompression_stages(&chain);
    assert_eq!(stages.len(), 3);
    assert_eq!(stages[0].format, CompressionFormat::Xz);
    assert_eq!(stages[1].format, CompressionFormat::Gzip);
    assert_eq!(stages[2].format, CompressionFormat::Tar);
}

#[test]
fn zip_memory_warning_is_owed_only_for_chained_zip() {
    assert!(needs_zip_memory_warning(&vec![
        CompressionFormat::Zip,
        CompressionFormat::Gzip
    ]));
    assert!(!needs_zip_memory_warning(&vec![CompressionFormat::Zip]));
    assert!(!needs_zip_memory_warning(&vec![
        CompressionFormat::Tar,
        CompressionFormat::Gzip
    ]));
    let w = warn_user_about_in_memory_zip_compression();
    assert!(w.contains("limitation for .zip archives"));
    assert_eq!(w, warn_user_about_in_memory_zip_decompression());
}

#[test]
fn successful_run_walks_every_stage_then_flushes() {
    let stages = plan_compression_stages(&vec![
        CompressionFormat::Tar,
        CompressionFormat::Gzip,
    ]);
    let mut p = CompressionPipeline::new(stages);
    assert_eq!(p.current_action(), None);
    p.start();
    assert_eq!(
        p.current_action(),
        Some(PipelineAction::RunStage { stage: 0, mode: PipelineMode::Streaming })
    );
    p.advance(true);
    assert_eq!(
        p.current_action(),
        Some(PipelineAction::RunStage { stage: 1, mode: PipelineMode::Streaming })
    );
    p.advance(true);
    assert_eq!(p.current_action(), Some(PipelineAction::FlushOutput));
    p.advance(true);
    assert_eq!(p.state, PipelineState::Done);
    assert!(p.is_finished());
}

#[test]
fn failed_stage_forces_destination_cleanup() {
    // A codec failure mid-compression: the next action is deleting the
    // partial destination file, and the run ends failed-but-cleaned, so
    // no file is left at the destination path.
    let stages = plan_compression_stages(&vec![
        CompressionFormat::Tar,
        CompressionFormat::Gzip,
    ]);
    let mut p = CompressionPipeline::new(stages);
    p.start();
    p.advance(true);
    p.advance(false);
    assert_eq!(p.state, PipelineState::CleaningUp);
    assert_eq!(p.current_action(), Some(PipelineAction::DeleteDestination));
    p.advance(true);
    assert_eq!(p.state, PipelineState::Failed { cleaned: true });
    assert!(p.is_finished());
}

#[test]
fn failed_cleanup_is_reported_as_compound_failure() {
    let stages = plan_compression_stages(&vec![CompressionFormat::Gzip]);
    let mut p = CompressionPipeline::new(stages);
    p.start();
    p.advance(false);
    p.advance(false);
    assert_eq!(p.state, PipelineState::Failed { cleaned: false });
}

#[test]
fn failed_flush_also_cleans_up() {
    let stages = plan_compression_stages(&vec![CompressionFormat::Gzip]);
    let mut p = CompressionPipeline::new(stages);
    p.start();
    p.advance(true);
    assert_eq!(p.current_action(), Some(PipelineAction::FlushOutput));
    p.advance(false);
    assert_eq!(p.current_action(), Some(PipelineAction::DeleteDestination));
    p.advance(true);
    assert_eq!(p.state, PipelineState::Failed { cleaned: true });
}

#[test]
fn decompression_undoes_wrappers_then_extracts_entries() {
    // out.tar.gz: the gzip wrapper is undone first; the innermost tar
    // expands into entries.
    let stages = plan_decompression_stages(&vec![
        CompressionFormat::Tar,
        CompressionFormat::Gzip,
    ]);
    let mut p = DecompressionPipeline::new(stages, true);
    p.start();
    assert_eq!(
        p.current_action(),
        Some(DecompressionAction::RunStage { stage: 0, mode: PipelineMode::Streaming })
    );
    p.advance(true);
    assert_eq!(p.current_action(), Some(DecompressionAction::ExtractEntries));
    p.advance(true);
    assert_eq!(p.state, DecompressionState::Done);
}

#[test]
fn single_stage_decompression_writes_the_base_named_file() {
    let stages = plan_decompression_stages(&vec![CompressionFormat::Gzip]);
    let mut p = DecompressionPipeline::new(stages, false);
    p.start();
    assert_eq!(p.current_action(), Some(DecompressionAction::WriteSingleFile));
    p.advance(true);
    assert_eq!(p.state, DecompressionState::Done);
}

#[test]
fn failed_decompression_stage_aborts_without_rollback() {
    let stages = plan_decompression_stages(&vec![
        CompressionFormat::Tar,
        CompressionFormat::Gzip,
    ]);
    let mut p = DecompressionPipeline::new(stages, true);
    p.start();
    p.advance(false);
    assert_eq!(p.state, DecompressionState::Failed);
    assert_eq!(p.current_action(), None);
}

#[test]
fn compound_cleanup_failure_names_the_stranded_file() {
    let e = ouch::pipeline::cleanup_failure_error("out.tar.gz", "permission denied");
    assert_eq!(e.kind, ouch::error::ErrorKind::CleanupFailure);
    assert_eq!(
        e.details[0],
        "Compression failed and we could not delete 'out.tar.gz'."
    );
    assert_eq!(e.details[1], "Error: permission denied");
    assert_eq!(e.hints[0], "Please manually delete 'out.tar.gz'.");
}
