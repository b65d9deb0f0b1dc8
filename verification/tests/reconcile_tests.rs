use ouch::extension::{extensions_from_path, flatten_compression_formats};
use ouch::reconcile::elide_applied_formats;
use ouch::CompressionFormat;

#[test]
fn already_applied_prefix_is_elided() {
    // Compressing `x.tar.gz` into `x.tar.gz.xz` leaves only [Xz] to do.
    let input = extensions_from_path("x.tar.gz");
    let output = extensions_from_path("x.tar.gz.xz");
    let (remaining, partial) = elide_applied_formats(&input, &output);
    assert!(partial);
    let flat = flatten_compression_formats(&remaining);
    assert_eq!(flat, vec![CompressionFormat::Xz]);
    let texts: Vec<String> = remaining.iter().map(|e| e.display_text.clone()).collect();
    assert_eq!(texts, vec!["xz"]);
}

#[test]
fn match_ending_inside_combined_alias_cuts_it_down() {
    // `x.tar` into `x.tgz`: Tar is already applied, so of the combined
    // alias only Gzip is left, under its original spelling.
    let input = extensions_from_path("x.tar");
    let output = extensions_from_path("x.tgz");
    let (remaining, partial) = elide_applied_formats(&input, &output);
    assert!(partial);
    assert_eq!(remaining.len(), 1);
    assert_eq!(remaining[0].display_text, "tgz");
    assert_eq!(remaining[0].compression_formats, vec![CompressionFormat::Gzip]);
}

#[test]
fn mismatch_at_the_first_token_changes_nothing() {
    let input = extensions_from_path("x.gz");
    let output = extensions_from_path("x.xz");
    let (remaining, partial) = elide_applied_formats(&input, &output);
    assert!(!partial);
    let flat = flatten_compression_formats(&remaining);
    assert_eq!(flat, vec![CompressionFormat::Xz]);
}

#[test]
fn empty_input_chain_changes_nothing() {
    let input = extensions_from_path("x");
    let output = extensions_from_path("x.gz");
    let (remaining, partial) = elide_applied_formats(&input, &output);
    assert!(!partial);
    assert_eq!(remaining.len(), 1);
    assert_eq!(remaining[0].display_text, "gz");
}

#[test]
fn mismatch_after_a_match_stops_the_walk() {
    // `x.tar.gz` into `x.tar.bz.xz`: Tar matches, Gzip against Bzip2 does
    // not; everything from the mismatch on is kept.
    let input = extensions_from_path("x.tar.gz");
    let output = extensions_from_path("x.tar.bz.xz");
    let (remaining, partial) = elide_applied_formats(&input, &output);
    assert!(partial);
    let flat = flatten_compression_formats(&remaining);
    assert_eq!(flat, vec![CompressionFormat::Bzip2, CompressionFormat::Xz]);
}
