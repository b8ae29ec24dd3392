//! Records read from FASTA and FASTQ input.

use vstd::prelude::*;
use vstd::string::StringExecFns;
use crate::text::{chars_of, trim_text, trimmed};

verus! {

/// `s` without its leading `>` characters.
pub open spec fn strip_markers(s: Seq<char>) -> Seq<char>
    decreases s.len(),
{
    if s.len() > 0 && s[0] == '>' {
        strip_markers(s.drop_first())
    } else {
        s
    }
}

/// Line `i` of one entry, trimmed; empty where the input ended before it.
pub open spec fn field_line(lines: Seq<Seq<char>>, i: int) -> Seq<char> {
    if 0 <= i < lines.len() {
        trimmed(lines[i])
    } else {
        Seq::empty()
    }
}

/// Drops the leading `>` characters of a header line.
pub fn strip_header_marker(s: &str) -> (r: String)
    ensures
        r@ == strip_markers(s@),
{
    let cs = chars_of(s);
    let mut k: usize = 0;
    assert(s@.skip(0) =~= s@);
    while k < cs.len() && cs[k] == '>'
        invariant
            k <= cs.len(),
            cs@ == s@,
            strip_markers(s@) == strip_markers(s@.skip(k as int)),
        decreases cs.len() - k,
    {
        assert(s@.skip(k as int).drop_first() =~= s@.skip(k + 1));
        k = k + 1;
    }
    let mut out = String::new();
    let start = k;
    while k < cs.len()
        invariant
            start <= k <= cs.len(),
            cs@ == s@,
            out@ == s@.subrange(start as int, k as int),
        decreases cs.len() - k,
    {
        out.push(cs[k]);
        assert(out@ =~= s@.subrange(start as int, k + 1));
        k = k + 1;
    }
    assert(out@ =~= s@.skip(start as int));
    out
}

/// One FASTA entry: a name and a sequence.
#[derive(Debug)]
pub struct FastaRecord {
    name: String,
    seq: String,
}

impl View for FastaRecord {
    /// (name, sequence)
    type V = (Seq<char>, Seq<char>);

    closed spec fn view(&self) -> (Seq<char>, Seq<char>) {
        (self.name@, self.seq@)
    }
}

impl FastaRecord {
    /// A record with an empty name and an empty sequence.
    pub fn new() -> (r: Self)
        ensures
            r@ == (Seq::<char>::empty(), Seq::<char>::empty()),
    {
        FastaRecord { name: String::new(), seq: String::new() }
    }

    /// The record of one entry from its trimmed header and sequence lines, or `None` when the
    /// name or the sequence comes out empty (which ends a stream).
    pub fn from_fields(header: &str, seq: &str) -> (r: Option<FastaRecord>)
        ensures
            r is Some <==> strip_markers(header@).len() > 0 && seq@.len() > 0,
            r matches Some(rec) ==> rec@ == (strip_markers(header@), seq@),
    {
        let mut rec = FastaRecord::new();
        let name = strip_header_marker(header);
        rec.add_name(name.as_str());
        rec.add_seq(seq);
        assert(rec@.0 =~= strip_markers(header@));
        assert(rec@.1 =~= seq@);
        if !rec.is_empty() {
            Some(rec)
        } else {
            None
        }
    }

    /// The record of one entry from the lines read for it: the header line, then the sequence
    /// line; fewer lines where the input ended. Each line is trimmed, the header loses its `>`.
    pub fn from_lines(lines: &Vec<String>) -> (r: Option<FastaRecord>)
        ensures
            ({
                let ls = lines@.map_values(|l: String| l@);
                let name = strip_markers(field_line(ls, 0));
                let seq = field_line(ls, 1);
                &&& r is Some <==> name.len() > 0 && seq.len() > 0
                &&& r matches Some(rec) ==> rec@ == (name, seq)
            }),
    {
        let header = if lines.len() > 0 { trim_text(lines[0].as_str()) } else { "" };
        let seq = if lines.len() > 1 { trim_text(lines[1].as_str()) } else { "" };
        proof {
            reveal_strlit("");
        }
        Self::from_fields(header, seq)
    }

    /// Appends `s` to the name.
    pub fn add_name(&mut self, s: &str)
        ensures
            final(self)@ == (old(self)@.0 + s@, old(self)@.1),
    {
        self.name.append(s)
    }

    /// Appends `s` to the sequence.
    pub fn add_seq(&mut self, s: &str)
        ensures
            final(self)@ == (old(self)@.0, old(self)@.1 + s@),
    {
        self.seq.append(s)
    }

    /// A record is empty when its name or its sequence is.
    pub fn is_empty(&self) -> (r: bool)
        ensures
            r == (self@.0.len() == 0 || self@.1.len() == 0),
    {
        self.name.as_str().is_empty() || self.seq.as_str().is_empty()
    }

    pub fn get_name(&self) -> (r: &str)
        ensures
            r@ == self@.0,
    {
        self.name.as_str()
    }

    pub fn get_seq(&self) -> (r: &str)
        ensures
            r@ == self@.1,
    {
        self.seq.as_str()
    }
}

/// One FASTQ entry: a name, a sequence and its quality string.
#[derive(Debug)]
pub struct FastqRecord {
    name: String,
    seq: String,
    qual: String,
}

impl View for FastqRecord {
    /// (name, sequence, quality)
    type V = (Seq<char>, Seq<char>, Seq<char>);

    closed spec fn view(&self) -> (Seq<char>, Seq<char>, Seq<char>) {
        (self.name@, self.seq@, self.qual@)
    }
}

impl FastqRecord {
    /// A record whose three fields are empty.
    pub fn new() -> (r: Self)
        ensures
            r@ == (Seq::<char>::empty(), Seq::<char>::empty(), Seq::<char>::empty()),
    {
        FastqRecord { name: String::new(), seq: String::new(), qual: String::new() }
    }

    /// The record of one entry from its trimmed name, sequence and quality lines, or `None`
    /// when any of them is empty (which ends a stream).
    pub fn from_fields(name: &str, seq: &str, qual: &str) -> (r: Option<FastqRecord>)
        ensures
            r is Some <==> name@.len() > 0 && seq@.len() > 0 && qual@.len() > 0,
            r matches Some(rec) ==> rec@ == (name@, seq@, qual@),
    {
        let mut rec = FastqRecord::new();
        rec.add_name(name);
        rec.add_seq(seq);
        rec.add_qual(qual);
        assert(rec@.0 =~= name@);
        assert(rec@.1 =~= seq@);
        assert(rec@.2 =~= qual@);
        if !rec.is_empty() {
            Some(rec)
        } else {
            None
        }
    }

    /// The record of one entry from the lines read for it: name, sequence, separator and quality
    /// lines; fewer lines where the input ended. Each line is trimmed; the separator is ignored.
    pub fn from_lines(lines: &Vec<String>) -> (r: Option<FastqRecord>)
        ensures
            ({
                let ls = lines@.map_values(|l: String| l@);
                let name = field_line(ls, 0);
                let seq = field_line(ls, 1);
                let qual = field_line(ls, 3);
                &&& r is Some <==> name.len() > 0 && seq.len() > 0 && qual.len() > 0
                &&& r matches Some(rec) ==> rec@ == (name, seq, qual)
            }),
    {
        let name = if lines.len() > 0 { trim_text(lines[0].as_str()) } else { "" };
        let seq = if lines.len() > 1 { trim_text(lines[1].as_str()) } else { "" };
        let qual = if lines.len() > 3 { trim_text(lines[3].as_str()) } else { "" };
        proof {
            reveal_strlit("");
        }
        Self::from_fields(name, seq, qual)
    }

    /// Appends `s` to the name.
    pub fn add_name(&mut self, s: &str)
        ensures
            final(self)@ == (old(self)@.0 + s@, old(self)@.1, old(self)@.2),
    {
        self.name.append(s)
    }

    /// Appends `s` to the sequence.
    pub fn add_seq(&mut self, s: &str)
        ensures
            final(self)@ == (old(self)@.0, old(self)@.1 + s@, old(self)@.2),
    {
        self.seq.append(s)
    }

    /// Appends `s` to the quality string.
    pub fn add_qual(&mut self, s: &str)
        ensures
            final(self)@ == (old(self)@.0, old(self)@.1, old(self)@.2 + s@),
    {
        self.qual.append(s)
    }

    /// A record is empty when any of its three fields is.
    pub fn is_empty(&self) -> (r: bool)
        ensures
            r == (self@.0.len() == 0 || self@.1.len() == 0 || self@.2.len() == 0),
    {
        self.name.as_str().is_empty() || self.seq.as_str().is_empty()
            || self.qual.as_str().is_empty()
    }

    pub fn get_name(&self) -> (r: &str)
        ensures
            r@ == self@.0,
    {
        self.name.as_str()
    }

    pub fn get_seq(&self) -> (r: &str)
        ensures
            r@ == self@.1,
    {
        self.seq.as_str()
    }

    pub fn get_qual(&self) -> (r: &str)
        ensures
            r@ == self@.2,
    {
        self.qual.as_str()
    }
}

} // verus!
