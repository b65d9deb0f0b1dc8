use ouch::files::{deduplicate_input_files, represents_several_files, FileMeta};

fn plain(path: &str) -> FileMeta {
    FileMeta { path: path.to_string(), is_dir: false, dir_is_empty: false }
}

fn dir(path: &str, empty: bool) -> FileMeta {
    FileMeta { path: path.to_string(), is_dir: true, dir_is_empty: empty }
}

#[test]
fn one_plain_file_is_not_several() {
    assert!(!represents_several_files(&vec![plain("a.txt")]));
}

#[test]
fn two_paths_are_several() {
    assert!(represents_several_files(&vec![plain("a"), plain("b")]));
}

#[test]
fn one_non_empty_directory_is_several() {
    assert!(represents_several_files(&vec![dir("d", false)]));
}

#[test]
fn one_empty_directory_is_not_several() {
    assert!(!represents_several_files(&vec![dir("d", true)]));
}

#[test]
fn no_files_is_not_several() {
    assert!(!represents_several_files(&Vec::new()));
}

#[test]
fn input_equal_to_output_is_dropped() {
    let mut files = vec!["a.gz".to_string(), "out.gz".to_string(), "b.gz".to_string()];
    deduplicate_input_files(&mut files, "out.gz");
    assert_eq!(files, vec!["a.gz".to_string(), "b.gz".to_string()]);
}

#[test]
fn every_occurrence_of_the_output_is_dropped() {
    let mut files = vec!["out".to_string(), "out".to_string()];
    deduplicate_input_files(&mut files, "out");
    assert!(files.is_empty());
}

#[test]
fn unrelated_inputs_are_kept_in_order() {
    let mut files = vec!["b".to_string(), "a".to_string()];
    deduplicate_input_files(&mut files, "c");
    assert_eq!(files, vec!["b".to_string(), "a".to_string()]);
}
