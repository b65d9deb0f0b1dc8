//! Parsing the chain of recognized extensions out of a file name.
//!
//! A recognized suffix is a dot followed by one of the texts in the table
//! below. The parser strips such suffixes right to left until none is left,
//! collecting one [`Extension`] per stripped suffix, leftmost first, and
//! returns the residual base name.

use vstd::prelude::*;

use crate::format::CompressionFormat;

verus! {

/// One recognized extension of a file name: the canonical formats it stands
/// for, and the text it was spelled with (which may be a combined alias,
/// e.g. `tgz` stands for `[Tar, Gzip]`).
pub struct Extension {
    pub compression_formats: Vec<CompressionFormat>,
    pub display_text: String,
}

/// The canonical formats a recognized extension text stands for; `None` for
/// any unrecognized text.
pub open spec fn spec_formats_of_text(t: Seq<char>) -> Option<Seq<CompressionFormat>> {
    if t == "tar"@ {
        Some(seq![CompressionFormat::Tar])
    } else if t == "zip"@ {
        Some(seq![CompressionFormat::Zip])
    } else if t == "gz"@ {
        Some(seq![CompressionFormat::Gzip])
    } else if t == "bz"@ {
        Some(seq![CompressionFormat::Bzip2])
    } else if t == "bz2"@ {
        Some(seq![CompressionFormat::Bzip2])
    } else if t == "xz"@ {
        Some(seq![CompressionFormat::Xz])
    } else if t == "lz"@ {
        Some(seq![CompressionFormat::Xz])
    } else if t == "lzma"@ {
        Some(seq![CompressionFormat::Xz])
    } else if t == "zst"@ {
        Some(seq![CompressionFormat::Zstd])
    } else if t == "lz4"@ {
        Some(seq![CompressionFormat::Lz4])
    } else if t == "tgz"@ {
        Some(seq![CompressionFormat::Tar, CompressionFormat::Gzip])
    } else if t == "tbz"@ {
        Some(seq![CompressionFormat::Tar, CompressionFormat::Bzip2])
    } else if t == "txz"@ {
        Some(seq![CompressionFormat::Tar, CompressionFormat::Xz])
    } else if t == "tzst"@ {
        Some(seq![CompressionFormat::Tar, CompressionFormat::Zstd])
    } else {
        None
    }
}

/// An extension value is canonical when its formats are exactly what its
/// display text stands for in the table.
pub open spec fn wf_extension(e: Extension) -> bool {
    spec_formats_of_text(e.display_text@) == Some(e.compression_formats@)
}

/// Every extension of the chain is canonical.
pub open spec fn wf_chain(s: Seq<Extension>) -> bool {
    forall|i: int| 0 <= i < s.len() ==> wf_extension(#[trigger] s[i])
}

/// The text a chain of extensions contributes to a file name: a dot before
/// each display text, in chain order.
pub open spec fn dotted_text(s: Seq<Extension>) -> Seq<char>
    decreases s.len(),
{
    if s.len() == 0 {
        Seq::<char>::empty()
    } else {
        seq!['.'] + s[0].display_text@ + dotted_text(s.drop_first())
    }
}

/// The flat sequence of canonical formats of a chain, combined aliases
/// expanded in place.
pub open spec fn flat_formats(s: Seq<Extension>) -> Seq<CompressionFormat>
    decreases s.len(),
{
    if s.len() == 0 {
        Seq::<CompressionFormat>::empty()
    } else {
        s[0].compression_formats@ + flat_formats(s.drop_first())
    }
}

/// `t` occurs at the end of `s`, preceded by a dot.
pub open spec fn is_dotted_suffix_of(t: Seq<char>, s: Seq<char>) -> bool {
    &&& s.len() > t.len()
    &&& s[s.len() - t.len() - 1] == '.'
    &&& s.subrange(s.len() - t.len(), s.len() as int) == t
}

/// Some recognized text occurs as a dotted suffix of `s`: parsing `s` would
/// strip at least one more extension.
pub open spec fn has_known_dotted_suffix(s: Seq<char>) -> bool {
    exists|t: Seq<char>|
        spec_formats_of_text(t) is Some && is_dotted_suffix_of(t, s)
}

proof fn lemma_dotted_text_prepend(e: Extension, s: Seq<Extension>)
    ensures
        dotted_text(seq![e] + s) == seq!['.'] + e.display_text@ + dotted_text(s),
{
    let w = seq![e] + s;
    assert(w[0] == e);
    assert(w.drop_first() =~= s);
}

/// `flat_formats` distributes over appending one extension at the end.
pub proof fn lemma_flat_formats_push(s: Seq<Extension>, e: Extension)
    ensures
        flat_formats(s.push(e)) == flat_formats(s) + e.compression_formats@,
    decreases s.len(),
{
    if s.len() == 0 {
        assert(s.push(e)[0] == e);
        assert(s.push(e).drop_first() =~= Seq::<Extension>::empty());
        assert(flat_formats(Seq::<Extension>::empty()) == Seq::<CompressionFormat>::empty());
        assert(flat_formats(s.push(e)) =~= flat_formats(s) + e.compression_formats@);
    } else {
        assert(s.push(e).drop_first() =~= s.drop_first().push(e));
        lemma_flat_formats_push(s.drop_first(), e);
        assert(s.push(e)[0] == s[0]);
        assert(flat_formats(s.push(e)) =~= flat_formats(s) + e.compression_formats@);
    }
}

/// `name[start..end] == pat`, decided character by character.
fn str_range_eq(name: &str, start: usize, end: usize, pat: &str) -> (r: bool)
    requires
        start <= end <= name@.len(),
    ensures
        r == (name@.subrange(start as int, end as int) == pat@),
{
    let pl: usize = pat.unicode_len();
    if end - start != pl {
        proof {
            assert(name@.subrange(start as int, end as int).len() != pat@.len());
        }
        return false;
    }
    let mut j: usize = 0;
    while j < pl
        invariant
            start <= end <= name@.len(),
            end - start == pl == pat@.len(),
            j <= pl,
            forall|k: int| 0 <= k < j ==> name@[start + k] == pat@[k],
        decreases pl - j,
    {
        if name.get_char(start + j) != pat.get_char(j) {
            proof {
                assert(name@.subrange(start as int, end as int)[j as int] != pat@[j as int]);
            }
            return false;
        }
        j += 1;
    }
    proof {
        assert(name@.subrange(start as int, end as int) =~= pat@);
    }
    true
}

/// Tries to match `"." + text` at the end of `name[0..end]`; on a match,
/// returns the index of the dot and the matched text taken from the name.
fn attempt_suffix(name: &str, end: usize, text: &str) -> (r: Option<(usize, String)>)
    requires
        end <= name@.len(),
    ensures
        match r {
            Option::None => !is_dotted_suffix_of(text@, name@.subrange(0, end as int)),
            Option::Some((dot, d)) => {
                &&& dot + 1 + text@.len() == end
                &&& name@[dot as int] == '.'
                &&& d@ == text@
                &&& d@ == name@.subrange(dot + 1, end as int)
            },
        },
{
    let ghost s = name@.subrange(0, end as int);
    let tl: usize = text.unicode_len();
    if end > tl {
        let dot: usize = end - tl - 1;
        proof {
            assert(s[dot as int] == name@[dot as int]);
            assert(s.subrange(end - tl, end as int) =~= name@.subrange(end - tl, end as int));
        }
        if name.get_char(dot) == '.' && str_range_eq(name, end - tl, end, text) {
            let d = String::from_str(name.substring_char(end - tl, end));
            return Some((dot, d));
        }
        proof {
            assert(s.len() - text@.len() - 1 == dot);
            assert(!is_dotted_suffix_of(text@, s));
        }
        None
    } else {
        proof {
            assert(s.len() <= text@.len());
        }
        None
    }
}


/// An extension standing for one canonical format.
fn ext_of_one(f0: CompressionFormat, d: String) -> (r: Extension)
    ensures
        r.compression_formats@ == seq![f0],
        r.display_text@ == d@,
{
    let mut f: Vec<CompressionFormat> = Vec::new();
    f.push(f0);
    proof {
        assert(f@ =~= seq![f0]);
    }
    Extension { compression_formats: f, display_text: d }
}

/// An extension standing for two canonical formats (a combined alias).
fn ext_of_two(f0: CompressionFormat, f1: CompressionFormat, d: String) -> (r: Extension)
    ensures
        r.compression_formats@ == seq![f0, f1],
        r.display_text@ == d@,
{
    let mut f: Vec<CompressionFormat> = Vec::new();
    f.push(f0);
    f.push(f1);
    proof {
        assert(f@ =~= seq![f0, f1]);
    }
    Extension { compression_formats: f, display_text: d }
}

/// Tries every recognized text as a dotted suffix of `name[0..end]`.
/// On a match, returns the new end (the dot's index) and the canonical
/// extension; `None` means no recognized dotted suffix is left.
fn strip_one_suffix(name: &str, end: usize) -> (r: Option<(usize, Extension)>)
    requires
        end <= name@.len(),
    ensures
        match r {
            Option::None => !has_known_dotted_suffix(name@.subrange(0, end as int)),
            Option::Some((ne, ext)) => {
                &&& ne < end
                &&& ne + 1 + ext.display_text@.len() == end
                &&& name@[ne as int] == '.'
                &&& ext.display_text@ == name@.subrange(ne + 1, end as int)
                &&& wf_extension(ext)
                &&& ext.compression_formats@.len() > 0
            },
        },
{
    proof {
        reveal_strlit("tar");
        reveal_strlit("zip");
        reveal_strlit("gz");
        reveal_strlit("bz");
        reveal_strlit("bz2");
        reveal_strlit("xz");
        reveal_strlit("lz");
        reveal_strlit("lzma");
        reveal_strlit("zst");
        reveal_strlit("lz4");
        reveal_strlit("tgz");
        reveal_strlit("tbz");
        reveal_strlit("txz");
        reveal_strlit("tzst");
        assert("tar"@[0] == 't' && "tar"@[1] == 'a');
        assert("zip"@[0] == 'z' && "zip"@[1] == 'i');
        assert("gz"@[0] == 'g' && "gz"@[1] == 'z');
        assert("bz"@[0] == 'b' && "bz"@[1] == 'z');
        assert("bz2"@[0] == 'b' && "bz2"@[1] == 'z');
        assert("xz"@[0] == 'x' && "xz"@[1] == 'z');
        assert("lz"@[0] == 'l' && "lz"@[1] == 'z');
        assert("lzma"@[0] == 'l' && "lzma"@[1] == 'z');
        assert("zst"@[0] == 'z' && "zst"@[1] == 's');
        assert("lz4"@[0] == 'l' && "lz4"@[1] == 'z');
        assert("tgz"@[0] == 't' && "tgz"@[1] == 'g');
        assert("tbz"@[0] == 't' && "tbz"@[1] == 'b');
        assert("txz"@[0] == 't' && "txz"@[1] == 'x');
        assert("tzst"@[0] == 't' && "tzst"@[1] == 'z');
    }
    if let Some((ne, d)) = attempt_suffix(name, end, "tar") {
        return Some((ne, ext_of_one(CompressionFormat::Tar, d)));
    }
    if let Some((ne, d)) = attempt_suffix(name, end, "zip") {
        return Some((ne, ext_of_one(CompressionFormat::Zip, d)));
    }
    if let Some((ne, d)) = attempt_suffix(name, end, "gz") {
        return Some((ne, ext_of_one(CompressionFormat::Gzip, d)));
    }
    if let Some((ne, d)) = attempt_suffix(name, end, "bz") {
        return Some((ne, ext_of_one(CompressionFormat::Bzip2, d)));
    }
    if let Some((ne, d)) = attempt_suffix(name, end, "bz2") {
        return Some((ne, ext_of_one(CompressionFormat::Bzip2, d)));
    }
    if let Some((ne, d)) = attempt_suffix(name, end, "xz") {
        return Some((ne, ext_of_one(CompressionFormat::Xz, d)));
    }
    if let Some((ne, d)) = attempt_suffix(name, end, "lz") {
        return Some((ne, ext_of_one(CompressionFormat::Xz, d)));
    }
    if let Some((ne, d)) = attempt_suffix(name, end, "lzma") {
        return Some((ne, ext_of_one(CompressionFormat::Xz, d)));
    }
    if let Some((ne, d)) = attempt_suffix(name, end, "zst") {
        return Some((ne, ext_of_one(CompressionFormat::Zstd, d)));
    }
    if let Some((ne, d)) = attempt_suffix(name, end, "lz4") {
        return Some((ne, ext_of_one(CompressionFormat::Lz4, d)));
    }
    if let Some((ne, d)) = attempt_suffix(name, end, "tgz") {
        return Some((ne, ext_of_two(CompressionFormat::Tar, CompressionFormat::Gzip, d)));
    }
    if let Some((ne, d)) = attempt_suffix(name, end, "tbz") {
        return Some((ne, ext_of_two(CompressionFormat::Tar, CompressionFormat::Bzip2, d)));
    }
    if let Some((ne, d)) = attempt_suffix(name, end, "txz") {
        return Some((ne, ext_of_two(CompressionFormat::Tar, CompressionFormat::Xz, d)));
    }
    if let Some((ne, d)) = attempt_suffix(name, end, "tzst") {
        return Some((ne, ext_of_two(CompressionFormat::Tar, CompressionFormat::Zstd, d)));
    }
    proof {
        let s = name@.subrange(0, end as int);
        assert forall|t: Seq<char>|
            spec_formats_of_text(t) is Some implies !is_dotted_suffix_of(t, s) by {
            if spec_formats_of_text(t) is Some {
                assert(t == "tar"@ || t == "zip"@ || t == "gz"@ || t == "bz"@ || t == "bz2"@
                    || t == "xz"@ || t == "lz"@ || t == "lzma"@ || t == "zst"@ || t == "lz4"@
                    || t == "tgz"@ || t == "tbz"@ || t == "txz"@ || t == "tzst"@);
            }
        }
    }
    None
}

/// Strips every recognized dotted suffix from `name`, right to left, and
/// returns the residual base name together with the extension chain,
/// leftmost extension first.
///
/// The three clauses pin the result down: the name decomposes into the base
/// followed by the dotted display texts; every extension is canonical; and
/// the base carries no further recognized dotted suffix, so parsing is
/// maximal. A name with no recognized suffix comes back unchanged with an
/// empty chain.
pub fn separate_known_extensions_from_name(name: &str) -> (r: (String, Vec<Extension>))
    ensures
        name@ == r.0@ + dotted_text(r.1@),
        wf_chain(r.1@),
        !has_known_dotted_suffix(r.0@),
{
    let mut end: usize = name.unicode_len();
    let mut exts: Vec<Extension> = Vec::new();
    proof {
        assert(name@ =~= name@.subrange(0, end as int) + dotted_text(exts@));
    }
    loop
        invariant
            end <= name@.len(),
            name@ == name@.subrange(0, end as int) + dotted_text(exts@),
            wf_chain(exts@),
        ensures
            end <= name@.len(),
            name@ == name@.subrange(0, end as int) + dotted_text(exts@),
            wf_chain(exts@),
            !has_known_dotted_suffix(name@.subrange(0, end as int)),
        decreases end,
    {
        match strip_one_suffix(name, end) {
            Some((ne, ext)) => {
                proof {
                    let w = seq![ext] + exts@;
                    lemma_dotted_text_prepend(ext, exts@);
                    assert(exts@.insert(0, ext) =~= w);
                    assert(name@.subrange(0, end as int) =~= name@.subrange(0, ne as int)
                        + seq!['.'] + ext.display_text@);
                    assert(name@ =~= name@.subrange(0, ne as int) + dotted_text(w));
                    assert forall|i: int| 0 <= i < w.len() implies wf_extension(#[trigger] w[i]) by {
                        if i > 0 {
                            assert(w[i] == exts@[i - 1]);
                        }
                    }
                }
                exts.insert(0, ext);
                end = ne;
            },
            None => {
                break;
            },
        }
    }
    let base = String::from_str(name.substring_char(0, end));
    (base, exts)
}

/// The extension chain implied by a file name, leftmost extension first.
pub fn extensions_from_path(name: &str) -> (r: Vec<Extension>)
    ensures
        wf_chain(r@),
        exists|base: Seq<char>|
            name@ == base + dotted_text(r@) && !has_known_dotted_suffix(base),
{
    let (base, exts) = separate_known_extensions_from_name(name);
    proof {
        assert(name@ == base@ + dotted_text(exts@) && !has_known_dotted_suffix(base@));
    }
    exts
}

/// The flat sequence of canonical formats of a chain, combined aliases such
/// as `tgz` expanded in place.
pub fn flatten_compression_formats(exts: &Vec<Extension>) -> (r: Vec<CompressionFormat>)
    ensures
        r@ == flat_formats(exts@),
{
    let mut r: Vec<CompressionFormat> = Vec::new();
    let mut i: usize = 0;
    proof {
        assert(exts@.subrange(0, 0) =~= Seq::<Extension>::empty());
    }
    while i < exts.len()
        invariant
            i <= exts@.len(),
            r@ == flat_formats(exts@.subrange(0, i as int)),
        decreases exts@.len() - i,
    {
        let fs = &exts[i].compression_formats;
        let mut j: usize = 0;
        while j < fs.len()
            invariant
                i < exts@.len(),
                j <= fs@.len(),
                fs@ == exts@[i as int].compression_formats@,
                r@ == flat_formats(exts@.subrange(0, i as int)) + fs@.subrange(0, j as int),
            decreases fs@.len() - j,
        {
            let f = fs[j];
            r.push(f);
            proof {
                assert(fs@.subrange(0, j + 1) =~= fs@.subrange(0, j as int).push(fs@[j as int]));
                assert(r@ =~= flat_formats(exts@.subrange(0, i as int)) + fs@.subrange(0, j + 1));
            }
            j += 1;
        }
        proof {
            let pre = exts@.subrange(0, i as int);
            lemma_flat_formats_push(pre, exts@[i as int]);
            assert(pre.push(exts@[i as int]) =~= exts@.subrange(0, i + 1));
            assert(fs@.subrange(0, fs@.len() as int) =~= fs@);
        }
        i += 1;
    }
    proof {
        assert(exts@.subrange(0, exts@.len() as int) =~= exts@);
    }
    r
}

/// The mathematical content of one extension: its canonical formats and
/// its display text.
pub struct ExtParts {
    pub formats: Seq<CompressionFormat>,
    pub text: Seq<char>,
}

/// The mathematical content of an extension value.
pub open spec fn ext_model(e: Extension) -> ExtParts {
    ExtParts { formats: e.compression_formats@, text: e.display_text@ }
}

/// The mathematical content of a chain of extensions.
pub open spec fn chain_model(s: Seq<Extension>) -> Seq<ExtParts> {
    s.map_values(|e: Extension| ext_model(e))
}

/// The chain model distributes over appending one extension.
pub proof fn lemma_chain_model_push(s: Seq<Extension>, e: Extension)
    ensures
        chain_model(s.push(e)) == chain_model(s).push(ext_model(e)),
{
    assert forall|t: int| 0 <= t < s.len() + 1 implies chain_model(s.push(e))[t] == chain_model(
        s,
    ).push(ext_model(e))[t] by {
        if t < s.len() {
            assert(s.push(e)[t] == s[t]);
        } else {
            assert(s.push(e)[t] == e);
        }
    }
    assert(chain_model(s.push(e)) =~= chain_model(s).push(ext_model(e)));
}

/// Whether two strings hold the same characters.
pub fn str_eq(a: &str, b: &str) -> (r: bool)
    ensures
        r == (a@ == b@),
{
    let n: usize = a.unicode_len();
    let r = str_range_eq(a, 0, n, b);
    proof {
        assert(a@.subrange(0, a@.len() as int) =~= a@);
    }
    r
}

/// A copy of one extension, equal in content.
pub fn copy_extension(e: &Extension) -> (r: Extension)
    ensures
        ext_model(r) == ext_model(*e),
{
    let mut f: Vec<CompressionFormat> = Vec::new();
    let mut j: usize = 0;
    while j < e.compression_formats.len()
        invariant
            j <= e.compression_formats@.len(),
            f@ == e.compression_formats@.subrange(0, j as int),
        decreases e.compression_formats@.len() - j,
    {
        f.push(e.compression_formats[j]);
        proof {
            assert(f@ =~= e.compression_formats@.subrange(0, j + 1));
        }
        j += 1;
    }
    proof {
        assert(e.compression_formats@.subrange(0, e.compression_formats@.len() as int)
            =~= e.compression_formats@);
    }
    Extension { compression_formats: f, display_text: e.display_text.clone() }
}

/// A copy of the tail of a chain, from index `from` on, equal in content.
pub fn copy_chain_tail(v: &Vec<Extension>, from: usize) -> (r: Vec<Extension>)
    requires
        from <= v@.len(),
    ensures
        chain_model(r@) == chain_model(v@).skip(from as int),
{
    let mut r: Vec<Extension> = Vec::new();
    let mut j: usize = from;
    proof {
        assert(chain_model(r@) =~= chain_model(v@).subrange(from as int, from as int));
    }
    while j < v.len()
        invariant
            from <= j <= v@.len(),
            chain_model(r@) == chain_model(v@).subrange(from as int, j as int),
        decreases v@.len() - j,
    {
        let c = copy_extension(&v[j]);
        proof {
            lemma_chain_model_push(r@, c);
        }
        r.push(c);
        proof {
            assert(chain_model(r@) =~= chain_model(v@).subrange(from as int, j + 1));
        }
        j += 1;
    }
    proof {
        assert(chain_model(v@).subrange(from as int, v@.len() as int)
            =~= chain_model(v@).skip(from as int));
    }
    r
}

impl Extension {
    /// A new extension value from parts; used when a combined alias has to
    /// be cut down to the formats still to apply, keeping its spelling.
    pub fn new(compression_formats: Vec<CompressionFormat>, display_text: String) -> (r: Extension)
        ensures
            r.compression_formats@ == compression_formats@,
            r.display_text@ == display_text@,
    {
        Extension { compression_formats, display_text }
    }

    /// Whether the first of this extension's formats is archive-capable.
    pub fn is_archive(&self) -> (r: bool)
        ensures
            r == (self.compression_formats@.len() > 0
                && crate::format::spec_is_archive(self.compression_formats@[0])),
    {
        if self.compression_formats.len() > 0 {
            self.compression_formats[0].is_archive_format()
        } else {
            false
        }
    }
}

} // verus!
