//! Resolving ambiguous or missing extensions against a content sniff.
//!
//! Before decompression or listing, each input is held against the format
//! its content sniffs as. A file with no recognized extension whose content
//! does sniff raises a question; so does a recognized outermost extension
//! that disagrees with the sniff. A declined question aborts the whole
//! batch before any destructive work; a decline is not an error.

use vstd::prelude::*;

use crate::extension::{
    chain_model, ext_model, flat_formats, flatten_compression_formats, ExtParts, Extension,
};
use crate::format::CompressionFormat;

verus! {

/// How questions to the user are answered when no one can be asked:
/// always yes, or always no.
#[derive(Clone, Copy, Debug, PartialEq, Eq, Structural)]
pub enum QuestionPolicy {
    AlwaysYes,
    AlwaysNo,
}

/// The extension text the sniffer reports for a format.
pub open spec fn spec_sniffed_text(f: CompressionFormat) -> Seq<char> {
    match f {
        CompressionFormat::Tar => "tar"@,
        CompressionFormat::Zip => "zip"@,
        CompressionFormat::Gzip => "gz"@,
        CompressionFormat::Bzip2 => "bz"@,
        CompressionFormat::Lz4 => "lz4"@,
        CompressionFormat::Xz => "xz"@,
        CompressionFormat::Zstd => "zst"@,
    }
}

/// The single-format extension a sniffed format stands for.
pub fn sniffed_extension(f: CompressionFormat) -> (r: Extension)
    ensures
        r.compression_formats@ == seq![f],
        r.display_text@ == spec_sniffed_text(f),
{
    let mut v: Vec<CompressionFormat> = Vec::new();
    v.push(f);
    proof {
        assert(v@ =~= seq![f]);
    }
    let text = match f {
        CompressionFormat::Tar => String::from_str("tar"),
        CompressionFormat::Zip => String::from_str("zip"),
        CompressionFormat::Gzip => String::from_str("gz"),
        CompressionFormat::Bzip2 => String::from_str("bz"),
        CompressionFormat::Lz4 => String::from_str("lz4"),
        CompressionFormat::Xz => String::from_str("xz"),
        CompressionFormat::Zstd => String::from_str("zst"),
    };
    Extension { compression_formats: v, display_text: text }
}

/// The format a bounded prefix of a file's bytes sniffs as, by magic
/// number; `None` when no magic matches.
pub open spec fn spec_infer(b: Seq<u8>) -> Option<CompressionFormat> {
    if b.len() >= 4 && b[0] == 0x50 && b[1] == 0x4B && ((b[2] == 0x03 && b[3] == 0x04) || (b[2]
        == 0x05 && b[3] == 0x06) || (b[2] == 0x07 && b[3] == 0x08)) {
        Some(CompressionFormat::Zip)
    } else if b.len() >= 262 && b[257] == 0x75 && b[258] == 0x73 && b[259] == 0x74 && b[260]
        == 0x61 && b[261] == 0x72 {
        Some(CompressionFormat::Tar)
    } else if b.len() >= 3 && b[0] == 0x1F && b[1] == 0x8B && b[2] == 0x08 {
        Some(CompressionFormat::Gzip)
    } else if b.len() >= 3 && b[0] == 0x42 && b[1] == 0x5A && b[2] == 0x68 {
        Some(CompressionFormat::Bzip2)
    } else if b.len() >= 6 && b[0] == 0xFD && b[1] == 0x37 && b[2] == 0x7A && b[3] == 0x58 && b[4]
        == 0x5A && b[5] == 0x00 {
        Some(CompressionFormat::Xz)
    } else if b.len() >= 4 && b[0] == 0x04 && b[1] == 0x22 && b[2] == 0x4D && b[3] == 0x18 {
        Some(CompressionFormat::Lz4)
    } else if b.len() >= 4 && b[0] == 0x28 && b[1] == 0xB5 && b[2] == 0x2F && b[3] == 0xFD {
        Some(CompressionFormat::Zstd)
    } else {
        None
    }
}

/// Sniffs a format from the leading bytes of a file, handed in by the
/// caller; checks magic numbers only, reading nothing itself.
pub fn infer_format_from_magic(b: &Vec<u8>) -> (r: Option<CompressionFormat>)
    ensures
        r == spec_infer(b@),
{
    if b.len() >= 4 && b[0] == 0x50 && b[1] == 0x4B && ((b[2] == 0x03 && b[3] == 0x04) || (b[2]
        == 0x05 && b[3] == 0x06) || (b[2] == 0x07 && b[3] == 0x08)) {
        Some(CompressionFormat::Zip)
    } else if b.len() >= 262 && b[257] == 0x75 && b[258] == 0x73 && b[259] == 0x74 && b[260]
        == 0x61 && b[261] == 0x72 {
        Some(CompressionFormat::Tar)
    } else if b.len() >= 3 && b[0] == 0x1F && b[1] == 0x8B && b[2] == 0x08 {
        Some(CompressionFormat::Gzip)
    } else if b.len() >= 3 && b[0] == 0x42 && b[1] == 0x5A && b[2] == 0x68 {
        Some(CompressionFormat::Bzip2)
    } else if b.len() >= 6 && b[0] == 0xFD && b[1] == 0x37 && b[2] == 0x7A && b[3] == 0x58 && b[4]
        == 0x5A && b[5] == 0x00 {
        Some(CompressionFormat::Xz)
    } else if b.len() >= 4 && b[0] == 0x04 && b[1] == 0x22 && b[2] == 0x4D && b[3] == 0x18 {
        Some(CompressionFormat::Lz4)
    } else if b.len() >= 4 && b[0] == 0x28 && b[1] == 0xB5 && b[2] == 0x2F && b[3] == 0xFD {
        Some(CompressionFormat::Zstd)
    } else {
        None
    }
}

/// The outermost applied format of a chain: the last format of its flat
/// expansion, the first to be undone during decompression.
pub open spec fn spec_outermost(m: Seq<ExtParts>) -> Option<CompressionFormat> {
    if spec_flat(m).len() == 0 {
        None
    } else {
        Some(spec_flat(m).last())
    }
}

/// The flat formats of a chain model.
pub open spec fn spec_flat(m: Seq<ExtParts>) -> Seq<CompressionFormat>
    decreases m.len(),
{
    if m.len() == 0 {
        Seq::<CompressionFormat>::empty()
    } else {
        m[0].formats + spec_flat(m.drop_first())
    }
}

/// This file raises a question: its content sniffs as some format while
/// its name either shows no chain at all or an outermost format that
/// disagrees.
pub open spec fn spec_needs_question(m: Seq<ExtParts>, sniff: Option<CompressionFormat>) -> bool {
    match sniff {
        Option::None => false,
        Option::Some(f) => m.len() == 0 || spec_outermost(m) != Some(f),
    }
}

/// The chain of one file after a batch that proceeded: a file with no
/// chain and a successful sniff gains the sniffed extension; every other
/// file keeps its chain.
pub open spec fn spec_resolved(m: Seq<ExtParts>, sniff: Option<CompressionFormat>) -> Seq<
    ExtParts,
> {
    match sniff {
        Option::None => m,
        Option::Some(f) => if m.len() == 0 {
            seq![ExtParts { formats: seq![f], text: spec_sniffed_text(f) }]
        } else {
            m
        },
    }
}

proof fn lemma_spec_flat_agrees(s: Seq<Extension>)
    ensures
        spec_flat(chain_model(s)) == flat_formats(s),
    decreases s.len(),
{
    if s.len() > 0 {
        lemma_spec_flat_agrees(s.drop_first());
        assert(chain_model(s).drop_first() =~= chain_model(s.drop_first()));
        assert(chain_model(s)[0] == ext_model(s[0]));
    }
}

/// Holds each file's chain against its sniffed format, raising one
/// question per ambiguous file, with answers fixed by policy.
///
/// Returns `true` and the per-file resolved chains when every question was
/// answered yes (or none arose); returns `false`, leaving `formats`
/// untouched, when the policy declines a question, which aborts the whole
/// batch before any side effect.
pub fn check_mime_type(
    formats: &mut Vec<Vec<Extension>>,
    sniffed: &Vec<Option<CompressionFormat>>,
    question_policy: QuestionPolicy,
) -> (proceed: bool)
    requires
        old(formats)@.len() == sniffed@.len(),
    ensures
        proceed == !(question_policy == QuestionPolicy::AlwaysNo && exists|i: int|
            0 <= i < old(formats)@.len() && spec_needs_question(
                chain_model(#[trigger] old(formats)@[i]@),
                sniffed@[i],
            )),
        proceed ==> {
            &&& final(formats)@.len() == old(formats)@.len()
            &&& forall|i: int|
                0 <= i < old(formats)@.len() ==> chain_model(#[trigger] final(formats)@[i]@)
                    == spec_resolved(chain_model(old(formats)@[i]@), sniffed@[i])
        },
        !proceed ==> final(formats)@ == old(formats)@,
{
    let n = formats.len();
    let mut updated: Vec<Vec<Extension>> = Vec::new();
    let mut i: usize = 0;
    while i < n
        invariant
            n == old(formats)@.len() == sniffed@.len(),
            formats@ == old(formats)@,
            i <= n,
            updated@.len() == i,
            forall|j: int|
                0 <= j < i ==> chain_model(#[trigger] updated@[j]@) == spec_resolved(
                    chain_model(old(formats)@[j]@),
                    sniffed@[j],
                ),
            forall|j: int|
                0 <= j < i ==> !(question_policy == QuestionPolicy::AlwaysNo
                    && spec_needs_question(chain_model(#[trigger] old(formats)@[j]@), sniffed@[j])),
        decreases n - i,
    {
        let chain = &formats[i];
        let ghost m = chain_model(chain@);
        if chain.len() == 0 {
            match sniffed[i] {
                Some(f) => {
                    // A file with no extension whose content sniffs: ask
                    // whether to treat it as the sniffed format.
                    if matches!(question_policy, QuestionPolicy::AlwaysNo) {
                        return false;
                    }
                    let mut c = crate::extension::copy_chain_tail(chain, 0);
                    let e = sniffed_extension(f);
                    proof {
                        crate::extension::lemma_chain_model_push(c@, e);
                        assert(chain_model(chain@).skip(0) =~= chain_model(chain@));
                    }
                    c.push(e);
                    proof {
                        assert(chain_model(c@) =~= spec_resolved(m, sniffed@[i as int]));
                    }
                    updated.push(c);
                },
                None => {
                    // No chain and no sniff: leave it; the batch later
                    // rejects it as missing a format.
                    let c = crate::extension::copy_chain_tail(chain, 0);
                    proof {
                        assert(chain_model(chain@).skip(0) =~= chain_model(chain@));
                    }
                    updated.push(c);
                },
            }
        } else {
            match sniffed[i] {
                Some(f) => {
                    let flat = flatten_compression_formats(chain);
                    proof {
                        lemma_spec_flat_agrees(chain@);
                    }
                    let disagree = if flat.len() == 0 {
                        true
                    } else {
                        flat[flat.len() - 1] != f
                    };
                    if disagree {
                        // The written extension disagrees with the sniff:
                        // warn, and ask whether to continue.
                        if matches!(question_policy, QuestionPolicy::AlwaysNo) {
                            return false;
                        }
                    }
                    let c = crate::extension::copy_chain_tail(chain, 0);
                    proof {
                        assert(chain_model(chain@).skip(0) =~= chain_model(chain@));
                    }
                    updated.push(c);
                },
                None => {
                    // Sniffing failed on a named chain: silently continue.
                    let c = crate::extension::copy_chain_tail(chain, 0);
                    proof {
                        assert(chain_model(chain@).skip(0) =~= chain_model(chain@));
                    }
                    updated.push(c);
                },
            }
        }
        i += 1;
    }
    *formats = updated;
    true
}

} // verus!
