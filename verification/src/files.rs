//! Plain facts about the input set that the chain logic reads.

use vstd::prelude::*;

use crate::extension::str_eq;

verus! {

/// What the chain logic needs to know of one input path: its textual form
/// and whether it is a directory, and an empty one.
pub struct FileMeta {
    pub path: String,
    pub is_dir: bool,
    pub dir_is_empty: bool,
}

/// The input set stands for more than one logical item: several paths, or
/// any path that is a non-empty directory.
pub open spec fn spec_several_files(files: Seq<FileMeta>) -> bool {
    files.len() > 1 || exists|i: int|
        0 <= i < files.len() && files[i].is_dir && !files[i].dir_is_empty
}

/// Whether the input set stands for more than one logical item.
pub fn represents_several_files(files: &Vec<FileMeta>) -> (r: bool)
    ensures
        r == spec_several_files(files@),
{
    if files.len() > 1 {
        return true;
    }
    let mut i: usize = 0;
    while i < files.len()
        invariant
            i <= files@.len(),
            files@.len() <= 1,
            forall|j: int|
                0 <= j < i ==> !(#[trigger] files@[j].is_dir && !files@[j].dir_is_empty),
        decreases files@.len() - i,
    {
        if files[i].is_dir && !files[i].dir_is_empty {
            return true;
        }
        i += 1;
    }
    false
}

/// The input paths with every occurrence of `out` removed, order kept.
pub open spec fn spec_without_output(files: Seq<String>, out: Seq<char>) -> Seq<String>
    decreases files.len(),
{
    if files.len() == 0 {
        files
    } else if files[0]@ == out {
        spec_without_output(files.drop_first(), out)
    } else {
        seq![files[0]] + spec_without_output(files.drop_first(), out)
    }
}

fn without_output_from(files: &Vec<String>, output_path: &str, i: usize) -> (r: Vec<String>)
    requires
        i <= files@.len(),
    ensures
        r@ == spec_without_output(files@.skip(i as int), output_path@),
    decreases files@.len() - i,
{
    if i == files.len() {
        let r: Vec<String> = Vec::new();
        proof {
            assert(files@.skip(i as int).len() == 0);
        }
        return r;
    }
    let mut rest = without_output_from(files, output_path, i + 1);
    proof {
        assert(files@.skip(i as int)[0] == files@[i as int]);
        assert(files@.skip(i as int).drop_first() =~= files@.skip(i + 1));
    }
    if str_eq(files[i].as_str(), output_path) {
        rest
    } else {
        rest.insert(0, files[i].clone());
        proof {
            assert(rest@ =~= seq![files@[i as int]] + spec_without_output(
                files@.skip(i + 1),
                output_path@,
            ));
        }
        rest
    }
}

/// Drops every input path equal to the output path, keeping the order of
/// the rest, so that an output laid among the inputs is not compressed
/// into itself. The caller owes the user a notice for each dropped path.
pub fn deduplicate_input_files(files: &mut Vec<String>, output_path: &str)
    ensures
        final(files)@ == spec_without_output(old(files)@, output_path@),
{
    let kept = without_output_from(files, output_path, 0);
    proof {
        assert(old(files)@.skip(0) =~= old(files)@);
    }
    *files = kept;
}

} // verus!
