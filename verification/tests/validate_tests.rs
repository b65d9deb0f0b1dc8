use ouch::error::ErrorKind;
use ouch::extension::extensions_from_path;
use ouch::validate::{suggest_with_archive, validate_output_chain};

#[test]
fn empty_chain_is_rejected_with_suggestions() {
    let exts = extensions_from_path("archive");
    let r = validate_output_chain("archive", 7, &exts, false);
    let e = r.err().unwrap();
    assert_eq!(e.kind, ErrorKind::EmptyChain);
    assert_eq!(e.title, "Cannot compress to 'archive'.");
    assert_eq!(e.details[0], "You shall supply the compression format");
    assert_eq!(e.hints[1], "  ouch compress <FILES>... archive.tar.gz");
    assert_eq!(e.hints[2], "  ouch compress <FILES>... archive.zip");
    assert_eq!(e.hints[5], "  ouch compress <FILES>... archive --format tar.gz");
}

#[test]
fn several_files_into_non_archive_chain_is_rejected_with_rewrite() {
    // A [Gzip] chain cannot take two files; the rewrite inserts `tar`
    // right before `gz` in the output path text.
    let exts = extensions_from_path("file.gz");
    assert_eq!(exts.len(), 1);
    let r = validate_output_chain("file.gz", 4, &exts, true);
    let e = r.err().unwrap();
    assert_eq!(e.kind, ErrorKind::MultiFileNeedsArchive);
    assert_eq!(e.title, "Cannot compress to 'file.gz'.");
    assert_eq!(
        e.details[1],
        "The compression format 'gz' cannot receive multiple files."
    );
    assert_eq!(e.hints[0], "Try inserting '.tar' or '.zip' before 'gz'.");
    assert_eq!(e.hints[1], "From: file.gz");
    assert_eq!(e.hints[2], "To:   file.tar.gz");
}

#[test]
fn archive_past_position_zero_is_rejected() {
    // The chain of `x.gz.tar` is [Gzip, Tar]: the archive is not at
    // position 0, which is illegal.
    let exts = extensions_from_path("x.gz.tar");
    assert_eq!(exts.len(), 2);
    let r = validate_output_chain("x.gz.tar", 1, &exts, false);
    let e = r.err().unwrap();
    assert_eq!(e.kind, ErrorKind::ArchiveFormatMisplaced);
    assert_eq!(e.details[0], "Found the format 'tar' in an incorrect position.");
    assert_eq!(
        e.details[1],
        "'tar' can only be used at the start of the file extension."
    );
    assert_eq!(e.hints[1], "Otherwise, remove the last 'tar' from 'x.gz.tar'.");
}

#[test]
fn archive_first_chain_over_several_files_is_legal() {
    let exts = extensions_from_path("out.tar.gz");
    assert!(validate_output_chain("out.tar.gz", 3, &exts, true).is_ok());
}

#[test]
fn single_file_non_archive_chain_is_legal() {
    let exts = extensions_from_path("f.gz");
    assert!(validate_output_chain("f.gz", 1, &exts, false).is_ok());
}

#[test]
fn misplaced_archive_beats_nothing_when_multi_file_check_fires_first() {
    // Checks run in order: the several-files failure short-circuits the
    // misplaced-archive one.
    let exts = extensions_from_path("x.gz.tar.xz");
    let r = validate_output_chain("x.gz.tar.xz", 1, &exts, true);
    let e = r.err().unwrap();
    assert_eq!(e.kind, ErrorKind::MultiFileNeedsArchive);
}

#[test]
fn suggestion_inserts_tar_at_extension_start() {
    let s = suggest_with_archive("dir/file.bz.xz", 8);
    assert_eq!(s, "dir/file.tar.bz.xz");
}
