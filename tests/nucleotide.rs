use screenr::nucleotide::complement_base;
use screenr::reverse_complement;

#[test]
fn reverse_complement_of_bases() {
    assert_eq!(reverse_complement("GTTTAAGAG"), "CTCTTAAAC");
    assert_eq!(reverse_complement("AACG"), "CGTT");
    assert_eq!(reverse_complement(""), "");
}

#[test]
fn reverse_complement_passes_other_characters_through() {
    assert_eq!(reverse_complement("ANcG-"), "-CcNT");
    assert_eq!(complement_base('N'), 'N');
    assert_eq!(complement_base('a'), 'a');
}

#[test]
fn reverse_complement_twice_is_identity() {
    for s in ["ACGTTGCA", "GTTTAAGAG", "NNACGT.x", "A"] {
        assert_eq!(reverse_complement(&reverse_complement(s)), s);
    }
}
