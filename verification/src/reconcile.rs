//! Reconciling an output chain against formats an input already carries.
//!
//! When a single input's name already shows a recognized chain (compressing
//! `x.tar.gz` to `x.tar.gz.xz`), the formats already applied must not be
//! applied again: the common prefix of the two chains, walked from the
//! format applied first, is elided from the output chain. When the match
//! ends inside a combined alias, the alias is cut down to the formats still
//! to apply, keeping its spelling.

use vstd::prelude::*;

use crate::extension::{chain_model, copy_chain_tail, ext_model, ExtParts, Extension};
use crate::format::CompressionFormat;

verus! {

/// The output chain left after eliding what the input chain already
/// applied: extensions whose formats match are dropped pairwise; a match
/// that ends strictly inside one extension leaves that extension cut down
/// to its unmatched formats; the first mismatch stops the walk.
pub open spec fn spec_elide(inp: Seq<ExtParts>, out: Seq<ExtParts>) -> Seq<ExtParts>
    decreases inp.len(),
{
    if inp.len() == 0 || out.len() == 0 {
        out
    } else if inp[0].formats == out[0].formats {
        spec_elide(inp.drop_first(), out.drop_first())
    } else if inp[0].formats.len() < out[0].formats.len() && inp[0].formats == out[0].formats.subrange(
        0,
        inp[0].formats.len() as int,
    ) {
        seq![
            ExtParts {
                formats: out[0].formats.skip(inp[0].formats.len() as int),
                text: out[0].text,
            },
        ] + out.drop_first()
    } else {
        out
    }
}

/// Whether the walk matched anything at all, i.e. partial compression was
/// detected and a notice is due.
pub open spec fn spec_partial_detected(inp: Seq<ExtParts>, out: Seq<ExtParts>) -> bool {
    if inp.len() == 0 || out.len() == 0 {
        false
    } else if inp[0].formats == out[0].formats {
        true
    } else {
        inp[0].formats.len() < out[0].formats.len() && inp[0].formats == out[0].formats.subrange(
            0,
            inp[0].formats.len() as int,
        )
    }
}

/// Whether two format vectors hold the same formats.
fn formats_eq(a: &Vec<CompressionFormat>, b: &Vec<CompressionFormat>) -> (r: bool)
    ensures
        r == (a@ == b@),
{
    if a.len() != b.len() {
        return false;
    }
    let mut j: usize = 0;
    while j < a.len()
        invariant
            a@.len() == b@.len(),
            j <= a@.len(),
            forall|k: int| 0 <= k < j ==> a@[k] == b@[k],
        decreases a@.len() - j,
    {
        if a[j] != b[j] {
            return false;
        }
        j += 1;
    }
    proof {
        assert(a@ =~= b@);
    }
    true
}

/// Whether `a` is a strict prefix of `b`.
fn formats_strict_prefix(a: &Vec<CompressionFormat>, b: &Vec<CompressionFormat>) -> (r: bool)
    ensures
        r == (a@.len() < b@.len() && a@ == b@.subrange(0, a@.len() as int)),
{
    if a.len() >= b.len() {
        return false;
    }
    let mut j: usize = 0;
    while j < a.len()
        invariant
            a@.len() < b@.len(),
            j <= a@.len(),
            forall|k: int| 0 <= k < j ==> a@[k] == b@[k],
        decreases a@.len() - j,
    {
        if a[j] != b[j] {
            proof {
                assert(b@.subrange(0, a@.len() as int)[j as int] == b@[j as int]);
            }
            return false;
        }
        j += 1;
    }
    proof {
        assert(a@ =~= b@.subrange(0, a@.len() as int));
    }
    true
}

/// The formats of `b` from index `k` on.
fn formats_from(b: &Vec<CompressionFormat>, k: usize) -> (r: Vec<CompressionFormat>)
    requires
        k <= b@.len(),
    ensures
        r@ == b@.skip(k as int),
{
    let mut r: Vec<CompressionFormat> = Vec::new();
    let mut j: usize = k;
    proof {
        assert(r@ =~= b@.subrange(k as int, k as int));
    }
    while j < b.len()
        invariant
            k <= j <= b@.len(),
            r@ == b@.subrange(k as int, j as int),
        decreases b@.len() - j,
    {
        r.push(b[j]);
        proof {
            assert(r@ =~= b@.subrange(k as int, j + 1));
        }
        j += 1;
    }
    proof {
        assert(b@.subrange(k as int, b@.len() as int) =~= b@.skip(k as int));
    }
    r
}

fn elide_from(
    input_exts: &Vec<Extension>,
    output_exts: &Vec<Extension>,
    i: usize,
) -> (r: (Vec<Extension>, bool))
    requires
        i <= input_exts@.len(),
        i <= output_exts@.len(),
    ensures
        chain_model(r.0@) == spec_elide(
            chain_model(input_exts@).skip(i as int),
            chain_model(output_exts@).skip(i as int),
        ),
        r.1 == spec_partial_detected(
            chain_model(input_exts@).skip(i as int),
            chain_model(output_exts@).skip(i as int),
        ),
    decreases input_exts@.len() - i,
{
    let ghost inm = chain_model(input_exts@).skip(i as int);
    let ghost outm = chain_model(output_exts@).skip(i as int);
    if i == input_exts.len() || i == output_exts.len() {
        let tail = copy_chain_tail(output_exts, i);
        proof {
            assert(inm.len() == 0 || outm.len() == 0);
        }
        return (tail, false);
    }
    proof {
        assert(inm[0] == ext_model(input_exts@[i as int]));
        assert(outm[0] == ext_model(output_exts@[i as int]));
    }
    if formats_eq(&input_exts[i].compression_formats, &output_exts[i].compression_formats) {
        let (rem, _) = elide_from(input_exts, output_exts, i + 1);
        proof {
            assert(inm.drop_first() =~= chain_model(input_exts@).skip(i + 1));
            assert(outm.drop_first() =~= chain_model(output_exts@).skip(i + 1));
        }
        return (rem, true);
    }
    if formats_strict_prefix(
        &input_exts[i].compression_formats,
        &output_exts[i].compression_formats,
    ) {
        let k: usize = input_exts[i].compression_formats.len();
        let leftover = formats_from(&output_exts[i].compression_formats, k);
        let cut = Extension::new(leftover, output_exts[i].display_text.clone());
        let mut rem: Vec<Extension> = Vec::new();
        proof {
            crate::extension::lemma_chain_model_push(rem@, cut);
        }
        rem.push(cut);
        let tail = copy_chain_tail(output_exts, i + 1);
        let mut j: usize = 0;
        proof {
            assert(chain_model(rem@) =~= seq![ext_model(cut)]);
        }
        while j < tail.len()
            invariant
                j <= tail@.len(),
                chain_model(rem@) == seq![ext_model(cut)] + chain_model(tail@).subrange(
                    0,
                    j as int,
                ),
            decreases tail@.len() - j,
        {
            let c = crate::extension::copy_extension(&tail[j]);
            proof {
                crate::extension::lemma_chain_model_push(rem@, c);
            }
            rem.push(c);
            proof {
                assert(chain_model(rem@) =~= seq![ext_model(cut)] + chain_model(tail@).subrange(
                    0,
                    j + 1,
                ));
            }
            j += 1;
        }
        proof {
            assert(chain_model(tail@).subrange(0, tail@.len() as int) =~= chain_model(tail@));
            assert(outm.drop_first() =~= chain_model(output_exts@).skip(i + 1));
            assert(chain_model(rem@) =~= spec_elide(inm, outm));
        }
        return (rem, true);
    }
    let tail = copy_chain_tail(output_exts, i);
    (tail, false)
}

/// Elides from the output chain the formats the input chain shows as
/// already applied, walking both chains from the format applied first and
/// stopping at the first mismatch. Returns the remaining output chain and
/// whether partial compression was detected (in which case the caller owes
/// the user an informational notice). With an empty input chain, or no
/// match at all, the output chain comes back unchanged.
pub fn elide_applied_formats(
    input_exts: &Vec<Extension>,
    output_exts: &Vec<Extension>,
) -> (r: (Vec<Extension>, bool))
    ensures
        chain_model(r.0@) == spec_elide(chain_model(input_exts@), chain_model(output_exts@)),
        r.1 == spec_partial_detected(chain_model(input_exts@), chain_model(output_exts@)),
{
    let r = elide_from(input_exts, output_exts, 0);
    proof {
        assert(chain_model(input_exts@).skip(0) =~= chain_model(input_exts@));
        assert(chain_model(output_exts@).skip(0) =~= chain_model(output_exts@));
    }
    r
}

} // verus!
