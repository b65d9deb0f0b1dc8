//! Legality of a candidate output chain, checked before compression starts.
//!
//! Three checks run in order, the first failure short-circuiting the rest:
//! an empty chain, a non-archive chain over several inputs, and an
//! archive-capable extension anywhere but first.

use vstd::prelude::*;

use crate::error::{ErrorKind, FinalError, texts_of};
use crate::extension::Extension;
use crate::format::spec_is_archive;

verus! {

/// The first canonical format of this extension is archive-capable.
pub open spec fn ext_is_archive(e: Extension) -> bool {
    e.compression_formats@.len() > 0 && spec_is_archive(e.compression_formats@[0])
}

/// The chain starts with an archive-capable extension.
pub open spec fn spec_first_is_archive(s: Seq<Extension>) -> bool {
    s.len() > 0 && ext_is_archive(s[0])
}

/// An archive-capable extension stands at some position other than 0.
pub open spec fn spec_has_misplaced_archive(s: Seq<Extension>) -> bool {
    exists|i: int| 1 <= i < s.len() && ext_is_archive(#[trigger] s[i])
}

/// A chain is legal for the given inputs: it is non-empty, it starts with
/// an archive when the inputs are several, and no archive stands later.
pub open spec fn spec_chain_is_legal(s: Seq<Extension>, several_files: bool) -> bool {
    &&& s.len() > 0
    &&& (several_files ==> spec_first_is_archive(s))
    &&& !spec_has_misplaced_archive(s)
}

/// The title shared by the three compression-side diagnostics.
pub open spec fn cannot_compress_title(path: Seq<char>) -> Seq<char> {
    "Cannot compress to '"@ + path + "'."@
}

/// Detail lines of the empty-chain diagnostic.
pub open spec fn empty_chain_details() -> Seq<Seq<char>> {
    seq!["You shall supply the compression format"@]
}

/// Hint lines of the empty-chain diagnostic.
pub open spec fn empty_chain_hints(path: Seq<char>) -> Seq<Seq<char>> {
    seq![
        "Try adding supported extensions (see --help):"@,
        "  ouch compress <FILES>... "@ + path + ".tar.gz"@,
        "  ouch compress <FILES>... "@ + path + ".zip"@,
        ""@,
        "Alternatively, you can overwrite this option by using the '--format' flag:"@,
        "  ouch compress <FILES>... "@ + path + " --format tar.gz"@,
    ]
}

/// Detail lines of the several-inputs-without-archive diagnostic.
pub open spec fn multi_file_details(d0: Seq<char>) -> Seq<Seq<char>> {
    seq![
        "You are trying to compress multiple files."@,
        "The compression format '"@ + d0 + "' cannot receive multiple files."@,
        "The only supported formats that archive files into an archive are .tar and .zip."@,
    ]
}

/// Hint lines of the several-inputs-without-archive diagnostic, including
/// the before/after rewrite of the output path.
pub open spec fn multi_file_hints(d0: Seq<char>, path: Seq<char>, suggested: Seq<char>) -> Seq<
    Seq<char>,
> {
    seq![
        "Try inserting '.tar' or '.zip' before '"@ + d0 + "'."@,
        "From: "@ + path,
        "To:   "@ + suggested,
    ]
}

/// Detail lines of the misplaced-archive diagnostic.
pub open spec fn misplaced_details(d: Seq<char>) -> Seq<Seq<char>> {
    seq![
        "Found the format '"@ + d + "' in an incorrect position."@,
        "'"@ + d + "' can only be used at the start of the file extension."@,
    ]
}

/// Hint lines of the misplaced-archive diagnostic.
pub open spec fn misplaced_hints(d: Seq<char>, path: Seq<char>) -> Seq<Seq<char>> {
    seq![
        "If you wish to compress multiple files, start the extension with '"@ + d + "'."@,
        "Otherwise, remove the last '"@ + d + "' from '"@ + path + "'."@,
    ]
}

/// In every canonical extension, the formats are non-empty and only the
/// first can be archive-capable: no entry of the table hides an archive
/// behind a compression stage.
pub proof fn lemma_wf_extension_archive_only_first(e: Extension)
    requires
        crate::extension::wf_extension(e),
    ensures
        e.compression_formats@.len() > 0,
        forall|j: int|
            1 <= j < e.compression_formats@.len() ==> !spec_is_archive(
                #[trigger] e.compression_formats@[j],
            ),
{
}

proof fn lemma_flat_archive_anywhere(s: Seq<Extension>)
    requires
        crate::extension::wf_chain(s),
    ensures
        (exists|i: int|
            0 <= i < crate::extension::flat_formats(s).len() && spec_is_archive(
                #[trigger] crate::extension::flat_formats(s)[i],
            )) <==> (exists|k: int| 0 <= k < s.len() && ext_is_archive(#[trigger] s[k])),
    decreases s.len(),
{
    let fl = crate::extension::flat_formats(s);
    if s.len() == 0 {
    } else {
        let e = s[0];
        let rest = s.drop_first();
        assert(crate::extension::wf_chain(rest)) by {
            assert forall|k: int| 0 <= k < rest.len() implies crate::extension::wf_extension(
                #[trigger] rest[k],
            ) by {
                assert(rest[k] == s[k + 1]);
            }
        }
        lemma_flat_archive_anywhere(rest);
        lemma_wf_extension_archive_only_first(e);
        let fr = crate::extension::flat_formats(rest);
        let el: int = e.compression_formats@.len() as int;
        assert(fl == e.compression_formats@ + fr);
        assert forall|i: int| 0 <= i < fl.len() && spec_is_archive(
            #[trigger] fl[i],
        ) implies (exists|k: int| 0 <= k < s.len() && ext_is_archive(#[trigger] s[k])) by {
            if i < el {
                assert(fl[i] == e.compression_formats@[i]);
                assert(i == 0);
                assert(ext_is_archive(s[0]));
            } else {
                assert(fl[i] == fr[i - el]);
                let k = choose|k: int| 0 <= k < rest.len() && ext_is_archive(#[trigger] rest[k]);
                assert(s[k + 1] == rest[k]);
                assert(ext_is_archive(s[k + 1]));
            }
        }
        assert forall|k: int| 0 <= k < s.len() && ext_is_archive(
            #[trigger] s[k],
        ) implies (exists|i: int| 0 <= i < fl.len() && spec_is_archive(#[trigger] fl[i])) by {
            if k == 0 {
                assert(fl[0] == e.compression_formats@[0]);
            } else {
                assert(rest[k - 1] == s[k]);
                let i = choose|i: int|
                    0 <= i < fr.len() && spec_is_archive(#[trigger] fr[i]);
                assert(fl[el + i] == fr[i]);
            }
        }
    }
}

/// The extension-level checks of this validator agree with the token-level
/// statement of chain legality: for a canonical chain, the chain starts
/// with an archive exactly when its flat expansion does, and an archive
/// extension stands past position 0 exactly when an archive-capable token
/// stands past position 0 of the flat expansion.
pub proof fn lemma_legality_over_flat_tokens(s: Seq<Extension>)
    requires
        crate::extension::wf_chain(s),
    ensures
        spec_first_is_archive(s) <==> (crate::extension::flat_formats(s).len() > 0
            && spec_is_archive(crate::extension::flat_formats(s)[0])),
        spec_has_misplaced_archive(s) <==> exists|i: int|
            1 <= i < crate::extension::flat_formats(s).len() && spec_is_archive(
                #[trigger] crate::extension::flat_formats(s)[i],
            ),
{
    let fl = crate::extension::flat_formats(s);
    if s.len() > 0 {
        let e = s[0];
        let rest = s.drop_first();
        lemma_wf_extension_archive_only_first(e);
        assert(fl == e.compression_formats@ + crate::extension::flat_formats(rest));
        assert(fl[0] == e.compression_formats@[0]);
        assert(crate::extension::wf_chain(rest)) by {
            assert forall|k: int| 0 <= k < rest.len() implies crate::extension::wf_extension(
                #[trigger] rest[k],
            ) by {
                assert(rest[k] == s[k + 1]);
            }
        }
        lemma_flat_archive_anywhere(rest);
        let fr = crate::extension::flat_formats(rest);
        let el: int = e.compression_formats@.len() as int;
        assert forall|i: int| 1 <= i < fl.len() && spec_is_archive(
            #[trigger] fl[i],
        ) implies spec_has_misplaced_archive(s) by {
            if i < el {
                assert(fl[i] == e.compression_formats@[i]);
            } else {
                assert(fl[i] == fr[i - el]);
                let k = choose|k: int| 0 <= k < rest.len() && ext_is_archive(#[trigger] rest[k]);
                assert(s[k + 1] == rest[k]);
                assert(ext_is_archive(s[k + 1]));
            }
        }
        if spec_has_misplaced_archive(s) {
            let k = choose|k: int| 1 <= k < s.len() && ext_is_archive(#[trigger] s[k]);
            assert(rest[k - 1] == s[k]);
            assert(ext_is_archive(rest[k - 1]));
            let i = choose|i: int| 0 <= i < fr.len() && spec_is_archive(#[trigger] fr[i]);
            assert(fl[el + i] == fr[i]);
            assert(el + i >= 1);
            assert(spec_is_archive(fl[el + i]));
        }
    }
}

/// The misplaced-archive diagnostic `e` names the first archive-capable
/// extension past position 0, at index `i`.
pub open spec fn misplaced_archive_diag(
    s: Seq<Extension>,
    path: Seq<char>,
    e: FinalError,
    i: int,
) -> bool {
    &&& 1 <= i < s.len()
    &&& ext_is_archive(s[i])
    &&& forall|j: int| 1 <= j < i ==> !ext_is_archive(#[trigger] s[j])
    &&& texts_of(e.details@) == misplaced_details(s[i].display_text@)
    &&& texts_of(e.hints@) == misplaced_hints(s[i].display_text@, path)
}

/// The corrected output path suggested when several inputs need an archive:
/// `.tar` inserted right where the extension text starts.
pub fn suggest_with_archive(output_path: &str, base_len: usize) -> (r: String)
    requires
        base_len <= output_path@.len(),
    ensures
        r@ == output_path@.subrange(0, base_len as int) + ".tar"@ + output_path@.subrange(
            base_len as int,
            output_path@.len() as int,
        ),
{
    let n: usize = output_path.unicode_len();
    String::from_str(output_path.substring_char(0, base_len)).concat(".tar").concat(
        output_path.substring_char(base_len, n),
    )
}

/// Checks a candidate output chain before compression begins.
///
/// `output_path` is the textual output path, `base_len` the length of its
/// part before the extension text (so the parsed chain's dotted text is
/// exactly the rest), `exts` the chain parsed from it, and `several_files`
/// whether the input set holds more than one logical item.
///
/// Returns `Ok` exactly when the chain is legal; otherwise the first failing
/// check, in order, determines the error, whose kind, title, details and
/// hints are all pinned below.
pub fn validate_output_chain(
    output_path: &str,
    base_len: usize,
    exts: &Vec<Extension>,
    several_files: bool,
) -> (r: Result<(), FinalError>)
    requires
        base_len <= output_path@.len(),
    ensures
        r is Ok <==> spec_chain_is_legal(exts@, several_files),
        r is Err ==> {
            let e = r->Err_0;
            &&& e.title@ == cannot_compress_title(output_path@)
            &&& if exts@.len() == 0 {
                &&& e.kind == ErrorKind::EmptyChain
                &&& texts_of(e.details@) == empty_chain_details()
                &&& texts_of(e.hints@) == empty_chain_hints(output_path@)
            } else if !spec_first_is_archive(exts@) && several_files {
                &&& e.kind == ErrorKind::MultiFileNeedsArchive
                &&& texts_of(e.details@) == multi_file_details(exts@[0].display_text@)
                &&& texts_of(e.hints@) == multi_file_hints(
                    exts@[0].display_text@,
                    output_path@,
                    output_path@.subrange(0, base_len as int) + ".tar"@ + output_path@.subrange(
                        base_len as int,
                        output_path@.len() as int,
                    ),
                )
            } else {
                &&& e.kind == ErrorKind::ArchiveFormatMisplaced
                &&& exists|i: int| misplaced_archive_diag(exts@, output_path@, e, i)
            }
        },
{
    let title = String::from_str("Cannot compress to '").concat(output_path).concat("'.");
    if exts.len() == 0 {
        let e = FinalError::with_title(ErrorKind::EmptyChain, title).detail(
            String::from_str("You shall supply the compression format"),
        ).hint(String::from_str("Try adding supported extensions (see --help):")).hint(
            String::from_str("  ouch compress <FILES>... ").concat(output_path).concat(".tar.gz"),
        ).hint(
            String::from_str("  ouch compress <FILES>... ").concat(output_path).concat(".zip"),
        ).hint(String::from_str("")).hint(
            String::from_str("Alternatively, you can overwrite this option by using the '--format' flag:"),
        ).hint(
            String::from_str("  ouch compress <FILES>... ").concat(output_path).concat(
                " --format tar.gz",
            ),
        );
        proof {
            assert(texts_of(e.details@) =~= empty_chain_details());
            assert(texts_of(e.hints@) =~= empty_chain_hints(output_path@));
        }
        return Err(e);
    }
    if !exts[0].is_archive() && several_files {
        let d0: &str = exts[0].display_text.as_str();
        let suggested = suggest_with_archive(output_path, base_len);
        let e = FinalError::with_title(ErrorKind::MultiFileNeedsArchive, title).detail(
            String::from_str("You are trying to compress multiple files."),
        ).detail(
            String::from_str("The compression format '").concat(d0).concat(
                "' cannot receive multiple files.",
            ),
        ).detail(
            String::from_str("The only supported formats that archive files into an archive are .tar and .zip."),
        ).hint(
            String::from_str("Try inserting '.tar' or '.zip' before '").concat(d0).concat("'."),
        ).hint(String::from_str("From: ").concat(output_path)).hint(
            String::from_str("To:   ").concat(suggested.as_str()),
        );
        proof {
            assert(texts_of(e.details@) =~= multi_file_details(exts@[0].display_text@));
            assert(texts_of(e.hints@) =~= multi_file_hints(
                exts@[0].display_text@,
                output_path@,
                suggested@,
            ));
        }
        return Err(e);
    }
    let mut i: usize = 1;
    while i < exts.len()
        invariant
            1 <= i,
            exts@.len() > 0,
            several_files ==> spec_first_is_archive(exts@),
            forall|j: int| 1 <= j < i && j < exts@.len() ==> !ext_is_archive(#[trigger] exts@[j]),
            title@ == cannot_compress_title(output_path@),
            base_len <= output_path@.len(),
        decreases exts@.len() - i,
    {
        if exts[i].is_archive() {
            let d: &str = exts[i].display_text.as_str();
            let e = FinalError::with_title(ErrorKind::ArchiveFormatMisplaced, title).detail(
                String::from_str("Found the format '").concat(d).concat(
                    "' in an incorrect position.",
                ),
            ).detail(
                String::from_str("'").concat(d).concat(
                    "' can only be used at the start of the file extension.",
                ),
            ).hint(
                String::from_str("If you wish to compress multiple files, start the extension with '")
                    .concat(d).concat("'."),
            ).hint(
                String::from_str("Otherwise, remove the last '").concat(d).concat("' from '")
                    .concat(output_path).concat("'."),
            );
            proof {
                assert(texts_of(e.details@) =~= misplaced_details(exts@[i as int].display_text@));
                assert(texts_of(e.hints@) =~= misplaced_hints(
                    exts@[i as int].display_text@,
                    output_path@,
                ));
                assert(misplaced_archive_diag(exts@, output_path@, e, i as int));
            }
            return Err(e);
        }
        i += 1;
    }
    Ok(())
}

} // verus!
