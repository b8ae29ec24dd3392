//! Counting of guide sequences (sgRNAs) in sequencing reads for pooled screens.
//!
//! A [`Library`] holds the guides of a screen and their per-sample counts. Each read is
//! oriented by a flank sequence, cut down to the protospacer in front of the flank, looked up
//! among the guides, and counted for its sample.

pub mod filetype;
pub mod lemmas;
pub mod library;
pub mod nucleotide;
pub mod options;
pub mod pattern;
pub mod record;
pub mod text;
pub mod text_index;

pub use filetype::{assign_reader, ReaderType};
pub use library::{Library, LibraryError, Orientation};
pub use nucleotide::reverse_complement;
pub use record::{FastaRecord, FastqRecord};
