//! Classification of input files by the suffix of their name.

use vstd::prelude::*;
use crate::text::{chars_of, ends_with, has_suffix};

verus! {

/// The input formats that can be read.
#[derive(Debug, Clone, Copy, PartialEq, Eq, Structural)]
pub enum ReaderType {
    FASTQ,
    FASTQGZ,
    FASTA,
    FASTAGZ,
}

/// The format of a file by its name: `.fastq.gz`/`.fq.gz`, `.fasta.gz`/`.fa.gz`,
/// `.fastq`/`.fq`, `.fasta`/`.fa`; any other name has none.
pub open spec fn reader_type_of(name: Seq<char>) -> Option<ReaderType> {
    if ends_with(name, ".fastq.gz"@) || ends_with(name, ".fq.gz"@) {
        Some(ReaderType::FASTQGZ)
    } else if ends_with(name, ".fasta.gz"@) || ends_with(name, ".fa.gz"@) {
        Some(ReaderType::FASTAGZ)
    } else if ends_with(name, ".fastq"@) || ends_with(name, ".fq"@) {
        Some(ReaderType::FASTQ)
    } else if ends_with(name, ".fasta"@) || ends_with(name, ".fa"@) {
        Some(ReaderType::FASTA)
    } else {
        None
    }
}

/// Classifies a file by the suffix of its name; `None` for an unrecognised name.
pub fn assign_reader(s: &str) -> (r: Option<ReaderType>)
    ensures
        r == reader_type_of(s@),
{
    let name = chars_of(s);
    if has_suffix(&name, ".fastq.gz") || has_suffix(&name, ".fq.gz") {
        Some(ReaderType::FASTQGZ)
    } else if has_suffix(&name, ".fasta.gz") || has_suffix(&name, ".fa.gz") {
        Some(ReaderType::FASTAGZ)
    } else if has_suffix(&name, ".fastq") || has_suffix(&name, ".fq") {
        Some(ReaderType::FASTQ)
    } else if has_suffix(&name, ".fasta") || has_suffix(&name, ".fa") {
        Some(ReaderType::FASTA)
    } else {
        None
    }
}

} // verus!
