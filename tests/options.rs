use screenr::options::{build_known_library, reassign_library, validate_inputs, InputError};
use screenr::{assign_reader, ReaderType};

#[test]
fn assign_reader_by_suffix() {
    assert_eq!(assign_reader("a/b.fastq.gz"), Some(ReaderType::FASTQGZ));
    assert_eq!(assign_reader("x.fq.gz"), Some(ReaderType::FASTQGZ));
    assert_eq!(assign_reader("x.fasta.gz"), Some(ReaderType::FASTAGZ));
    assert_eq!(assign_reader("x.fa.gz"), Some(ReaderType::FASTAGZ));
    assert_eq!(assign_reader("x.fastq"), Some(ReaderType::FASTQ));
    assert_eq!(assign_reader("x.fq"), Some(ReaderType::FASTQ));
    assert_eq!(assign_reader("x.fasta"), Some(ReaderType::FASTA));
    assert_eq!(assign_reader("x.fa"), Some(ReaderType::FASTA));
}

#[test]
fn assign_reader_unknown_suffix() {
    assert_eq!(assign_reader("x.txt"), None);
    assert_eq!(assign_reader("x.fastq.bz2"), None);
    assert_eq!(assign_reader("xfastqxgz"), None);
    assert_eq!(assign_reader(""), None);
}

#[test]
fn validate_inputs_cases() {
    assert_eq!(validate_inputs(&vec!["a.fq"], true, &vec!["s1"], "GTTTAAGAG"), Ok(()));
    assert_eq!(
        validate_inputs(&vec!["a.fq", "b.fq"], true, &vec!["s1"], "GTTTAAGAG"),
        Err(InputError::CountMismatch)
    );
    assert_eq!(
        validate_inputs(&vec!["a.fq", "b.fq"], false, &vec!["s1"], "GTTTAAGAG"),
        Err(InputError::CountMismatch)
    );
    assert_eq!(
        validate_inputs(&vec!["a.fq"], false, &vec!["s1"], "GTTTAAGAG"),
        Err(InputError::LibraryMissing)
    );
    assert_eq!(
        validate_inputs(&vec!["a.fq"], false, &vec!["s1"], "GT"),
        Err(InputError::LibraryMissing)
    );
    assert_eq!(
        validate_inputs(&vec!["a.fq"], true, &vec!["s1"], "GTTTA"),
        Err(InputError::GuideTooShort)
    );
    assert_eq!(validate_inputs(&vec!["a.fq"], true, &vec!["s1"], "GTTTAA"), Ok(()));
}

#[test]
fn known_libraries_listed() {
    let known = build_known_library();
    assert_eq!(known, vec!["all", "h1", "h2", "h3", "h4", "h5", "h6", "h7"]);
}

#[test]
fn reassign_library_shorthand() {
    assert_eq!(
        reassign_library("/opt/screenr", "h3"),
        Some("/opt/screenr/data/libraries/CRISPRi_v2_crop28.h3.fasta.gz".to_string())
    );
    assert_eq!(
        reassign_library("/base", "all"),
        Some("/base/data/libraries/CRISPRi_v2_crop28.all.fasta.gz".to_string())
    );
    assert_eq!(reassign_library("/base", "h8"), None);
    assert_eq!(reassign_library("/base", "lib.fasta"), None);
}
