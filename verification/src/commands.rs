//! Batch-level checks run before decompression or listing side effects.

use vstd::prelude::*;

use crate::error::{texts_of, ErrorKind, FinalError};
use crate::extension::Extension;
use crate::validate::spec_first_is_archive;

verus! {

/// The paths among `files` whose chain is empty, in order.
pub open spec fn spec_paths_missing_format(
    files: Seq<String>,
    formats: Seq<Vec<Extension>>,
) -> Seq<Seq<char>>
    decreases files.len(),
{
    if files.len() == 0 || formats.len() == 0 {
        Seq::<Seq<char>>::empty()
    } else if formats[0]@.len() == 0 {
        seq![files[0]@] + spec_paths_missing_format(files.drop_first(), formats.drop_first())
    } else {
        spec_paths_missing_format(files.drop_first(), formats.drop_first())
    }
}

/// The paths among `files` whose chain does not start with an archive.
pub open spec fn spec_paths_not_archives(
    files: Seq<String>,
    formats: Seq<Vec<Extension>>,
) -> Seq<Seq<char>>
    decreases files.len(),
{
    if files.len() == 0 || formats.len() == 0 {
        Seq::<Seq<char>>::empty()
    } else if !spec_first_is_archive(formats[0]@) {
        seq![files[0]@] + spec_paths_not_archives(files.drop_first(), formats.drop_first())
    } else {
        spec_paths_not_archives(files.drop_first(), formats.drop_first())
    }
}

/// The texts joined with a comma and a space between each two.
pub open spec fn spec_join_comma(l: Seq<Seq<char>>) -> Seq<char>
    decreases l.len(),
{
    if l.len() == 0 {
        Seq::<char>::empty()
    } else if l.len() == 1 {
        l[0]
    } else {
        l[0] + ", "@ + spec_join_comma(l.drop_first())
    }
}

fn missing_from(files: &Vec<String>, formats: &Vec<Vec<Extension>>, i: usize) -> (r: Vec<String>)
    requires
        files@.len() == formats@.len(),
        i <= files@.len(),
    ensures
        texts_of(r@) == spec_paths_missing_format(files@.skip(i as int), formats@.skip(i as int)),
    decreases files@.len() - i,
{
    if i == files.len() {
        let r: Vec<String> = Vec::new();
        proof {
            assert(texts_of(r@) =~= Seq::<Seq<char>>::empty());
        }
        return r;
    }
    let mut rest = missing_from(files, formats, i + 1);
    proof {
        assert(files@.skip(i as int)[0] == files@[i as int]);
        assert(formats@.skip(i as int)[0] == formats@[i as int]);
        assert(files@.skip(i as int).drop_first() =~= files@.skip(i + 1));
        assert(formats@.skip(i as int).drop_first() =~= formats@.skip(i + 1));
    }
    if formats[i].len() == 0 {
        rest.insert(0, files[i].clone());
        proof {
            assert(texts_of(rest@) =~= seq![files@[i as int]@] + spec_paths_missing_format(
                files@.skip(i + 1),
                formats@.skip(i + 1),
            ));
        }
        rest
    } else {
        rest
    }
}

fn not_archives_from(
    files: &Vec<String>,
    formats: &Vec<Vec<Extension>>,
    i: usize,
) -> (r: Vec<String>)
    requires
        files@.len() == formats@.len(),
        i <= files@.len(),
    ensures
        texts_of(r@) == spec_paths_not_archives(files@.skip(i as int), formats@.skip(i as int)),
    decreases files@.len() - i,
{
    if i == files.len() {
        let r: Vec<String> = Vec::new();
        proof {
            assert(texts_of(r@) =~= Seq::<Seq<char>>::empty());
        }
        return r;
    }
    let mut rest = not_archives_from(files, formats, i + 1);
    proof {
        assert(files@.skip(i as int)[0] == files@[i as int]);
        assert(formats@.skip(i as int)[0] == formats@[i as int]);
        assert(files@.skip(i as int).drop_first() =~= files@.skip(i + 1));
        assert(formats@.skip(i as int).drop_first() =~= formats@.skip(i + 1));
    }
    let chain = &formats[i];
    let is_arch = if chain.len() == 0 {
        false
    } else {
        chain[0].is_archive()
    };
    if !is_arch {
        rest.insert(0, files[i].clone());
        proof {
            assert(texts_of(rest@) =~= seq![files@[i as int]@] + spec_paths_not_archives(
                files@.skip(i + 1),
                formats@.skip(i + 1),
            ));
        }
        rest
    } else {
        rest
    }
}

fn join_comma(l: &Vec<String>, i: usize) -> (r: String)
    requires
        i <= l@.len(),
    ensures
        r@ == spec_join_comma(texts_of(l@).skip(i as int)),
    decreases l@.len() - i,
{
    proof {
        assert(texts_of(l@).len() == l@.len());
    }
    if i == l.len() {
        let r = String::from_str("");
        proof {
            reveal_strlit("");
            assert(r@ =~= Seq::<char>::empty());
        }
        return r;
    }
    proof {
        assert(texts_of(l@).skip(i as int)[0] == l@[i as int]@);
        assert(texts_of(l@).skip(i as int).drop_first() =~= texts_of(l@).skip(i + 1));
    }
    if i + 1 == l.len() {
        let r = l[i].clone();
        proof {
            assert(texts_of(l@).skip(i as int).len() == 1);
        }
        return r;
    }
    let rest = join_comma(l, i + 1);
    l[i].clone().concat(", ").concat(rest.as_str())
}

/// Checks, before any decompression side effect, that every input carries
/// a detectable chain. Returns the missing-extension diagnostic, naming
/// the offending paths, exactly when some chain is empty.
pub fn check_missing_formats(
    files: &Vec<String>,
    formats: &Vec<Vec<Extension>>,
) -> (r: Option<FinalError>)
    requires
        files@.len() == formats@.len(),
    ensures
        r is Some <==> exists|i: int|
            0 <= i < formats@.len() && (#[trigger] formats@[i])@.len() == 0,
        r is Some ==> {
            let e = r->0;
            &&& e.kind == ErrorKind::MissingExtension
            &&& e.title@ == "Cannot decompress files without extensions"@
            &&& texts_of(e.details@) == seq![
                "Files without supported extensions: "@ + spec_join_comma(
                    spec_paths_missing_format(files@, formats@),
                ),
                "Decompression formats are detected automatically by the file extension"@,
            ]
            &&& texts_of(e.hints@) == seq![
                "Provide a file with a supported extension:"@,
                "  ouch decompress example.tar.gz"@,
                ""@,
                "Or overwrite this option with the '--format' flag:"@,
                "  ouch decompress "@ + spec_paths_missing_format(files@, formats@)[0]
                    + " --format tar.gz"@,
            ]
        },
{
    let missing = missing_from(files, formats, 0);
    proof {
        assert(files@.skip(0) =~= files@);
        assert(formats@.skip(0) =~= formats@);
        lemma_missing_nonempty_iff(files@, formats@);
    }
    if missing.len() == 0 {
        return None;
    }
    let joined = join_comma(&missing, 0);
    proof {
        assert(texts_of(missing@).skip(0) =~= texts_of(missing@));
    }
    let first: &str = missing[0].as_str();
    let e = FinalError::with_title(
        ErrorKind::MissingExtension,
        String::from_str("Cannot decompress files without extensions"),
    ).detail(
        String::from_str("Files without supported extensions: ").concat(joined.as_str()),
    ).detail(
        String::from_str("Decompression formats are detected automatically by the file extension"),
    ).hint(String::from_str("Provide a file with a supported extension:")).hint(
        String::from_str("  ouch decompress example.tar.gz"),
    ).hint(String::from_str("")).hint(
        String::from_str("Or overwrite this option with the '--format' flag:"),
    ).hint(String::from_str("  ouch decompress ").concat(first).concat(" --format tar.gz"));
    proof {
        assert(texts_of(e.details@) =~= seq![
            "Files without supported extensions: "@ + spec_join_comma(
                spec_paths_missing_format(files@, formats@),
            ),
            "Decompression formats are detected automatically by the file extension"@,
        ]);
        assert(texts_of(e.hints@) =~= seq![
            "Provide a file with a supported extension:"@,
            "  ouch decompress example.tar.gz"@,
            ""@,
            "Or overwrite this option with the '--format' flag:"@,
            "  ouch decompress "@ + spec_paths_missing_format(files@, formats@)[0]
                + " --format tar.gz"@,
        ]);
    }
    Some(e)
}

proof fn lemma_missing_nonempty_iff(files: Seq<String>, formats: Seq<Vec<Extension>>)
    requires
        files.len() == formats.len(),
    ensures
        spec_paths_missing_format(files, formats).len() > 0 <==> exists|i: int|
            0 <= i < formats.len() && (#[trigger] formats[i])@.len() == 0,
    decreases files.len(),
{
    if files.len() > 0 {
        lemma_missing_nonempty_iff(files.drop_first(), formats.drop_first());
        if formats[0]@.len() == 0 {
        } else {
            assert forall|i: int|
                0 <= i < formats.len() && (#[trigger] formats[i])@.len() == 0 implies exists|k: int|
                0 <= k < formats.drop_first().len() && (#[trigger] formats.drop_first()[
                    k
                ])@.len() == 0 by {
                if 0 <= i < formats.len() && formats[i]@.len() == 0 {
                    assert(formats.drop_first()[i - 1] == formats[i]);
                }
            }
            assert forall|k: int|
                0 <= k < formats.drop_first().len() && (#[trigger] formats.drop_first()[
                    k
                ])@.len() == 0 implies exists|i: int|
                0 <= i < formats.len() && (#[trigger] formats[i])@.len() == 0 by {
                if 0 <= k < formats.drop_first().len() && formats.drop_first()[k]@.len() == 0 {
                    assert(formats[k + 1] == formats.drop_first()[k]);
                }
            }
        }
    }
}

proof fn lemma_not_archives_nonempty_iff(files: Seq<String>, formats: Seq<Vec<Extension>>)
    requires
        files.len() == formats.len(),
    ensures
        spec_paths_not_archives(files, formats).len() > 0 <==> exists|i: int|
            0 <= i < formats.len() && !spec_first_is_archive((#[trigger] formats[i])@),
    decreases files.len(),
{
    if files.len() > 0 {
        lemma_not_archives_nonempty_iff(files.drop_first(), formats.drop_first());
        if !spec_first_is_archive(formats[0]@) {
        } else {
            assert forall|i: int|
                0 <= i < formats.len() && !spec_first_is_archive(
                    (#[trigger] formats[i])@,
                ) implies exists|k: int|
                0 <= k < formats.drop_first().len() && !spec_first_is_archive(
                    (#[trigger] formats.drop_first()[k])@,
                ) by {
                if 0 <= i < formats.len() && !spec_first_is_archive(formats[i]@) {
                    assert(formats.drop_first()[i - 1] == formats[i]);
                }
            }
            assert forall|k: int|
                0 <= k < formats.drop_first().len() && !spec_first_is_archive(
                    (#[trigger] formats.drop_first()[k])@,
                ) implies exists|i: int|
                0 <= i < formats.len() && !spec_first_is_archive((#[trigger] formats[i])@) by {
                if 0 <= k < formats.drop_first().len() && !spec_first_is_archive(
                    formats.drop_first()[k]@,
                ) {
                    assert(formats[k + 1] == formats.drop_first()[k]);
                }
            }
        }
    }
}

/// Checks, before listing, that every input's chain starts with an
/// archive: only archives can have their contents listed. Returns the
/// diagnostic, naming the offending paths, exactly when one does not.
pub fn check_not_archives(
    files: &Vec<String>,
    formats: &Vec<Vec<Extension>>,
) -> (r: Option<FinalError>)
    requires
        files@.len() == formats@.len(),
    ensures
        r is Some <==> exists|i: int|
            0 <= i < formats@.len() && !spec_first_is_archive((#[trigger] formats@[i])@),
        r is Some ==> {
            let e = r->0;
            &&& e.kind == ErrorKind::NotAnArchive
            &&& e.title@ == "Cannot list archive contents"@
            &&& texts_of(e.details@) == seq![
                "Only archives can have their contents listed"@,
                "Files are not archives: "@ + spec_join_comma(
                    spec_paths_not_archives(files@, formats@),
                ),
            ]
            &&& e.hints@.len() == 0
        },
{
    let non = not_archives_from(files, formats, 0);
    proof {
        assert(files@.skip(0) =~= files@);
        assert(formats@.skip(0) =~= formats@);
        lemma_not_archives_nonempty_iff(files@, formats@);
    }
    if non.len() == 0 {
        return None;
    }
    let joined = join_comma(&non, 0);
    proof {
        assert(texts_of(non@).skip(0) =~= texts_of(non@));
    }
    let e = FinalError::with_title(
        ErrorKind::NotAnArchive,
        String::from_str("Cannot list archive contents"),
    ).detail(String::from_str("Only archives can have their contents listed")).detail(
        String::from_str("Files are not archives: ").concat(joined.as_str()),
    );
    proof {
        assert(texts_of(e.details@) =~= seq![
            "Only archives can have their contents listed"@,
            "Files are not archives: "@ + spec_join_comma(
                spec_paths_not_archives(files@, formats@),
            ),
        ]);
    }
    Some(e)
}

} // verus!
