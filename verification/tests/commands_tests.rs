use ouch::archive::{Entry, TarCompressor};
use ouch::commands::{check_missing_formats, check_not_archives};
use ouch::error::ErrorKind;
use ouch::extension::extensions_from_path;

#[test]
fn input_without_chain_is_rejected_before_decompression() {
    let files = vec!["data".to_string(), "x.tar.gz".to_string()];
    let formats = vec![extensions_from_path("data"), extensions_from_path("x.tar.gz")];
    let e = check_missing_formats(&files, &formats).unwrap();
    assert_eq!(e.kind, ErrorKind::MissingExtension);
    assert_eq!(e.title, "Cannot decompress files without extensions");
    assert_eq!(e.details[0], "Files without supported extensions: data");
    assert_eq!(e.hints[4], "  ouch decompress data --format tar.gz");
}

#[test]
fn all_inputs_with_chains_pass_the_missing_check() {
    let files = vec!["x.tar.gz".to_string()];
    let formats = vec![extensions_from_path("x.tar.gz")];
    assert!(check_missing_formats(&files, &formats).is_none());
}

#[test]
fn several_missing_inputs_are_listed_together() {
    let files = vec!["a".to_string(), "b".to_string()];
    let formats = vec![extensions_from_path("a"), extensions_from_path("b")];
    let e = check_missing_formats(&files, &formats).unwrap();
    assert_eq!(e.details[0], "Files without supported extensions: a, b");
}

#[test]
fn listing_a_non_archive_is_rejected() {
    let files = vec!["x.gz".to_string()];
    let formats = vec![extensions_from_path("x.gz")];
    let e = check_not_archives(&files, &formats).unwrap();
    assert_eq!(e.kind, ErrorKind::NotAnArchive);
    assert_eq!(e.title, "Cannot list archive contents");
    assert_eq!(e.details[0], "Only archives can have their contents listed");
    assert_eq!(e.details[1], "Files are not archives: x.gz");
    assert!(e.hints.is_empty());
}

#[test]
fn listing_archives_passes_the_check() {
    let files = vec!["x.tar.gz".to_string(), "y.zip".to_string()];
    let formats = vec![extensions_from_path("x.tar.gz"), extensions_from_path("y.zip")];
    assert!(check_not_archives(&files, &formats).is_none());
}

#[test]
fn tar_from_memory_is_rejected_as_codec_failure() {
    let r = TarCompressor::make_archive_from_memory(&vec![1, 2, 3]);
    let e = r.err().unwrap();
    assert_eq!(e.kind, ErrorKind::CodecFailure);
    assert_eq!(e.title, ".tar.tar and .zip.tar is currently unimplemented.");
}

#[test]
fn tar_stage_accepts_only_file_lists() {
    let t = TarCompressor {};
    assert!(t.accepts(&Entry::Files(vec!["a".to_string()])));
    assert!(!t.accepts(&Entry::InMemory(vec![0, 1])));
}
