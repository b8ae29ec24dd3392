//! Checks and defaults for the run's options that need no I/O.

use vstd::prelude::*;
use vstd::string::{StrSliceExecFns, StringExecFns};
use crate::text::{decimal, push_decimal};

verus! {

/// Why the options of a run were refused before any matching.
#[derive(Debug, Clone, Copy, PartialEq, Eq, Structural)]
pub enum InputError {
    /// The number of input files differs from the number of sample names.
    CountMismatch,
    /// The guide library file does not exist.
    LibraryMissing,
    /// The flank sequence has 5 bases or fewer.
    GuideTooShort,
}

/// The shortest flank accepted is one base longer than this.
pub const MIN_GUIDE_LEN: usize = 5;

/// The outcome of validating `n_inputs` inputs, `n_names` names, whether the library exists,
/// and a flank of `guide_len` characters, checked in that order.
pub open spec fn validation(n_inputs: nat, n_names: nat, library_exists: bool, guide_len: nat) -> Result<
    (),
    InputError,
> {
    if n_inputs != n_names {
        Err(InputError::CountMismatch)
    } else if !library_exists {
        Err(InputError::LibraryMissing)
    } else if guide_len <= MIN_GUIDE_LEN {
        Err(InputError::GuideTooShort)
    } else {
        Ok(())
    }
}

/// Confirms that there is one sample name per input file, that the library file exists (as
/// found by the caller), and that the flank is longer than `MIN_GUIDE_LEN` bases.
pub fn validate_inputs(
    input_sequences: &Vec<&str>,
    library_exists: bool,
    names: &Vec<&str>,
    guide_sequence: &str,
) -> (r: Result<(), InputError>)
    ensures
        r == validation(
            input_sequences.len() as nat,
            names.len() as nat,
            library_exists,
            guide_sequence@.len(),
        ),
{
    if input_sequences.len() != names.len() {
        Err(InputError::CountMismatch)
    } else if !library_exists {
        Err(InputError::LibraryMissing)
    } else if guide_sequence.unicode_len() <= MIN_GUIDE_LEN {
        Err(InputError::GuideTooShort)
    } else {
        Ok(())
    }
}

/// The shorthand names of the bundled libraries: `all`, then `h1` to `h7`.
pub open spec fn known_libraries() -> Seq<Seq<char>> {
    Seq::new(8, |i: int| if i == 0 { "all"@ } else { seq!['h'] + decimal(i as nat) })
}

/// The shorthand names of the bundled libraries.
pub fn build_known_library() -> (r: Vec<String>)
    ensures
        r@.map_values(|s: String| s@) == known_libraries(),
{
    let mut known: Vec<String> = Vec::new();
    known.push(String::from_str("all"));
    for i in 1..8u64
        invariant
            known.len() == i,
            forall|j: int| 0 <= j < i ==> #[trigger] known@[j]@ == known_libraries()[j],
    {
        let mut name = String::from_str("h");
        proof {
            reveal_strlit("h");
        }
        push_decimal(&mut name, i);
        assert(name@ =~= seq!['h'] + decimal(i as nat));
        assert(name@ == known_libraries()[i as int]);
        known.push(name);
    }
    assert(known@.map_values(|s: String| s@) =~= known_libraries());
    known
}

/// The path of a bundled library under the directory `base`.
pub open spec fn bundled_library_path(base: Seq<char>, lib: Seq<char>) -> Seq<char> {
    base + "/data/libraries/CRISPRi_v2_crop28."@ + lib + ".fasta.gz"@
}

/// The path of the bundled library that `lib` names under `base`, or `None` when `lib` names
/// none.
pub fn reassign_library(base: &str, lib: &str) -> (r: Option<String>)
    ensures
        r is Some <==> known_libraries().contains(lib@),
        r matches Some(p) ==> p@ == bundled_library_path(base@, lib@),
{
    let known = build_known_library();
    let wanted = String::from_str(lib);
    let mut found = false;
    for i in 0..known.len()
        invariant
            known@.map_values(|s: String| s@) == known_libraries(),
            wanted@ == lib@,
            found <==> exists|j: int| 0 <= j < i && known@[j]@ == lib@,
    {
        if known[i] == wanted {
            assert(known@[i as int]@ == lib@);
            found = true;
        } else {
            assert(known@[i as int]@ != lib@);
        }
    }
    proof {
        if found {
            let j = choose|j: int| 0 <= j < known.len() && known@[j]@ == lib@;
            assert(known_libraries()[j] == lib@);
        } else {
            assert forall|j: int| 0 <= j < known_libraries().len() implies known_libraries()[j]
                != lib@ by {
                assert(known_libraries()[j] == known@[j]@);
            }
        }
    }
    if found {
        let mut path = String::from_str(base);
        path.append("/data/libraries/CRISPRi_v2_crop28.");
        path.append(lib);
        path.append(".fasta.gz");
        Some(path)
    } else {
        None
    }
}

} // verus!
