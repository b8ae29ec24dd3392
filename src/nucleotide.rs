//! Base complements and reverse complements of nucleotide text.

use vstd::prelude::*;
use crate::text::chars_of;

verus! {

/// The Watson-Crick partner of a base; any other character is its own partner.
pub open spec fn complement(c: char) -> char {
    if c == 'A' {
        'T'
    } else if c == 'T' {
        'A'
    } else if c == 'G' {
        'C'
    } else if c == 'C' {
        'G'
    } else {
        c
    }
}

/// The sequence read backwards, each character replaced by its complement.
pub open spec fn reverse_complement_of(s: Seq<char>) -> Seq<char> {
    Seq::new(s.len(), |i: int| complement(s[s.len() - 1 - i]))
}

/// Complement of a single base.
pub fn complement_base(c: char) -> (r: char)
    ensures
        r == complement(c),
{
    match c {
        'A' => 'T',
        'T' => 'A',
        'G' => 'C',
        'C' => 'G',
        _ => c,
    }
}

/// Reverse complement of a sequence.
pub fn reverse_complement(s: &str) -> (r: String)
    ensures
        r@ == reverse_complement_of(s@),
{
    let bases = chars_of(s);
    let mut out = String::new();
    let mut i: usize = bases.len();
    while i > 0
        invariant
            i <= bases.len(),
            bases@ == s@,
            out@ == reverse_complement_of(s@).take((s@.len() - i) as int),
        decreases i,
    {
        i = i - 1;
        out.push(complement_base(bases[i]));
        assert(out@ =~= reverse_complement_of(s@).take((s@.len() - i) as int));
    }
    assert(out@ =~= reverse_complement_of(s@));
    out
}

/// Taking the reverse complement twice gives back the sequence it started from.
pub proof fn lemma_reverse_complement_involutive(s: Seq<char>)
    ensures
        reverse_complement_of(reverse_complement_of(s)) == s,
{
    assert(reverse_complement_of(reverse_complement_of(s)) =~= s);
}

} // verus!
