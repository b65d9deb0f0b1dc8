use ouch::extension::extensions_from_path;
use ouch::resolve::{check_mime_type, infer_format_from_magic, QuestionPolicy};
use ouch::CompressionFormat;

#[test]
fn declined_question_aborts_whole_batch_without_changes() {
    // A file with no extension whose content sniffs as Gzip, under an
    // always-decline policy: the whole batch stops, nothing is modified,
    // and no error is raised.
    let mut formats = vec![Vec::new()];
    let sniffed = vec![Some(CompressionFormat::Gzip)];
    let proceed = check_mime_type(&mut formats, &sniffed, QuestionPolicy::AlwaysNo);
    assert!(!proceed);
    assert!(formats[0].is_empty());
}

#[test]
fn accepted_question_appends_the_sniffed_extension() {
    let mut formats = vec![Vec::new()];
    let sniffed = vec![Some(CompressionFormat::Gzip)];
    let proceed = check_mime_type(&mut formats, &sniffed, QuestionPolicy::AlwaysYes);
    assert!(proceed);
    assert_eq!(formats[0].len(), 1);
    assert_eq!(formats[0][0].display_text, "gz");
    assert_eq!(formats[0][0].compression_formats, vec![CompressionFormat::Gzip]);
}

#[test]
fn disagreeing_sniff_asks_and_decline_aborts() {
    let mut formats = vec![extensions_from_path("x.zip")];
    let sniffed = vec![Some(CompressionFormat::Gzip)];
    let proceed = check_mime_type(&mut formats, &sniffed, QuestionPolicy::AlwaysNo);
    assert!(!proceed);
}

#[test]
fn agreeing_sniff_is_silent() {
    let mut formats = vec![extensions_from_path("x.tar.gz")];
    let sniffed = vec![Some(CompressionFormat::Gzip)];
    let proceed = check_mime_type(&mut formats, &sniffed, QuestionPolicy::AlwaysNo);
    assert!(proceed);
    assert_eq!(formats[0].len(), 2);
}

#[test]
fn failed_sniff_is_silent() {
    let mut formats = vec![extensions_from_path("x.gz"), Vec::new()];
    let sniffed = vec![None, None];
    let proceed = check_mime_type(&mut formats, &sniffed, QuestionPolicy::AlwaysNo);
    assert!(proceed);
    assert!(formats[1].is_empty());
}

#[test]
fn one_decline_gates_the_whole_multi_file_batch() {
    let mut formats = vec![extensions_from_path("x.gz"), Vec::new()];
    let sniffed = vec![Some(CompressionFormat::Gzip), Some(CompressionFormat::Gzip)];
    let proceed = check_mime_type(&mut formats, &sniffed, QuestionPolicy::AlwaysNo);
    assert!(!proceed);
    assert_eq!(formats[0].len(), 1);
    assert!(formats[1].is_empty());
}

#[test]
fn magic_numbers_sniff_the_right_formats() {
    assert_eq!(
        infer_format_from_magic(&vec![0x1F, 0x8B, 0x08, 0x00]),
        Some(CompressionFormat::Gzip)
    );
    assert_eq!(
        infer_format_from_magic(&vec![0x50, 0x4B, 0x03, 0x04]),
        Some(CompressionFormat::Zip)
    );
    assert_eq!(
        infer_format_from_magic(&vec![0x42, 0x5A, 0x68, 0x39]),
        Some(CompressionFormat::Bzip2)
    );
    assert_eq!(
        infer_format_from_magic(&vec![0xFD, 0x37, 0x7A, 0x58, 0x5A, 0x00]),
        Some(CompressionFormat::Xz)
    );
    assert_eq!(
        infer_format_from_magic(&vec![0x28, 0xB5, 0x2F, 0xFD]),
        Some(CompressionFormat::Zstd)
    );
    assert_eq!(
        infer_format_from_magic(&vec![0x04, 0x22, 0x4D, 0x18]),
        Some(CompressionFormat::Lz4)
    );
    let mut tarish = vec![0u8; 262];
    tarish[257] = 0x75;
    tarish[258] = 0x73;
    tarish[259] = 0x74;
    tarish[260] = 0x61;
    tarish[261] = 0x72;
    assert_eq!(infer_format_from_magic(&tarish), Some(CompressionFormat::Tar));
    assert_eq!(infer_format_from_magic(&vec![0x00, 0x01, 0x02, 0x03]), None);
    assert_eq!(infer_format_from_magic(&Vec::new()), None);
}
