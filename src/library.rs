//! The guide library: the flank searches, the protospacer index, and the per-sample counts.

use vstd::prelude::*;
use vstd::string::StringExecFns;
use vstd::string::StrSliceExecFns;
use crate::nucleotide::{reverse_complement, reverse_complement_of};
use crate::pattern::{
    LiteralPattern, contains, first_from, lemma_first_from_is_leftmost, literal_compiles,
};
use crate::record::{FastaRecord, FastqRecord};
use crate::lemmas::view_wf;
use crate::text::{decimal, push_decimal};
use crate::text_index::TextIndex;

verus! {

/// Why a library could not be set up.
#[derive(Debug, Clone, Copy, PartialEq, Eq, Structural)]
pub enum LibraryError {
    /// The regular expression engine refused the flank sequence or its reverse complement.
    FlankRejected,
}

/// The abstract state of a [`Library`].
pub ghost struct LibraryView {
    /// The flank sequence of the forward orientation.
    pub flank: Seq<char>,
    /// The number of samples, which is the length of every count vector.
    pub n_samples: nat,
    /// Protospacer (with its flank) to the row of the guide it belongs to.
    pub index: Map<Seq<char>, int>,
    /// Guide identifiers, in the order in which they were first loaded.
    pub names: Seq<Seq<char>>,
    /// The gene of each guide.
    pub genes: Seq<Seq<char>>,
    /// The per-sample counts of each guide.
    pub counts: Seq<Seq<int>>,
    /// Forward matches in the current pass.
    pub num_fwd: int,
    /// Reverse matches in the current pass.
    pub num_rev: int,
    /// Reads processed in the current pass.
    pub num_total: int,
    /// Reads ever handed to matching; never reset.
    pub reads_seen: int,
}

/// The gene of a guide: its identifier up to the first `_`, or all of it when there is none.
pub open spec fn gene_of(name: Seq<char>) -> Seq<char> {
    if exists|i: int| first_underscore(name, i) {
        name.take(choose|i: int| first_underscore(name, i))
    } else {
        name
    }
}

/// `i` is the position of the first `_` in `name`.
pub open spec fn first_underscore(name: Seq<char>, i: int) -> bool {
    &&& 0 <= i < name.len()
    &&& name[i] == '_'
    &&& forall|j: int| 0 <= j < i ==> name[j] != '_'
}

/// A count vector of `n` zeros.
pub open spec fn zeros(n: nat) -> Seq<int> {
    Seq::new(n, |i: int| 0)
}

/// The row that holds guide `name`, if it was loaded.
pub open spec fn row_of(names: Seq<Seq<char>>, name: Seq<char>) -> Option<int> {
    if exists|r: int| 0 <= r < names.len() && names[r] == name {
        Some(choose|r: int| 0 <= r < names.len() && names[r] == name)
    } else {
        None
    }
}

/// The state after loading one guide record: a new identifier gets a new row at the end, an
/// identifier seen before has its counts reset, and the protospacer now leads to that row
/// (a later protospacer replaces an earlier equal one).
pub open spec fn add_guide_spec(v: LibraryView, name: Seq<char>, seq: Seq<char>) -> LibraryView {
    match row_of(v.names, name) {
        Some(r) => LibraryView {
            index: v.index.insert(seq, r),
            counts: v.counts.update(r, zeros(v.n_samples)),
            ..v
        },
        None => LibraryView {
            index: v.index.insert(seq, v.names.len() as int),
            names: v.names.push(name),
            genes: v.genes.push(gene_of(name)),
            counts: v.counts.push(zeros(v.n_samples)),
            ..v
        },
    }
}

/// The state after loading the records `recs` (name, sequence) in order.
pub open spec fn load_spec(v: LibraryView, recs: Seq<(Seq<char>, Seq<char>)>) -> LibraryView
    decreases recs.len(),
{
    if recs.len() == 0 {
        v
    } else {
        add_guide_spec(load_spec(v, recs.drop_last()), recs.last().0, recs.last().1)
    }
}

/// A library for `flank` and `n` samples before any guide is loaded.
pub open spec fn empty_library(flank: Seq<char>, n: nat) -> LibraryView {
    LibraryView {
        flank,
        n_samples: n,
        index: Map::empty(),
        names: Seq::empty(),
        genes: Seq::empty(),
        counts: Seq::empty(),
        num_fwd: 0,
        num_rev: 0,
        num_total: 0,
        reads_seen: 0,
    }
}

/// The orientation in which a read presents the guide region.
#[derive(Debug, Clone, Copy, PartialEq, Eq, Structural)]
pub enum Orientation {
    /// The read holds the flank as given.
    Forward,
    /// The read holds the reverse complement of the flank, and not the flank.
    Reverse,
    /// The read holds neither.
    Unmatched,
}

/// Length of the protospacer that precedes the flank.
pub const PROTOSPACER_LEN: usize = 19;

/// The flank is searched for from this position of the read on, so that a full protospacer
/// always precedes it.
pub const SEARCH_START: usize = 20;

/// Orientation of `read` for `flank`: the flank itself wins over its reverse complement.
pub open spec fn orientation_of(flank: Seq<char>, read: Seq<char>) -> Orientation {
    if contains(read, flank) {
        Orientation::Forward
    } else if contains(read, reverse_complement_of(flank)) {
        Orientation::Reverse
    } else {
        Orientation::Unmatched
    }
}

/// The protospacer of `s`: from `PROTOSPACER_LEN` characters before the leftmost flank at or
/// after `SEARCH_START` to the end of that flank, in character positions.
pub open spec fn truncation(flank: Seq<char>, s: Seq<char>) -> Option<Seq<char>> {
    match first_from(flank, s, SEARCH_START as int) {
        Some(i) => Some(s.subrange(i - PROTOSPACER_LEN as int, i + flank.len())),
        None => None,
    }
}

/// The protospacer of a read in its orientation: reverse reads are turned around first.
pub open spec fn directed_protospacer(flank: Seq<char>, read: Seq<char>) -> Option<Seq<char>> {
    match orientation_of(flank, read) {
        Orientation::Forward => truncation(flank, read),
        Orientation::Reverse => truncation(flank, reverse_complement_of(read)),
        Orientation::Unmatched => None,
    }
}

/// The pass counters after the orientation of `read` was determined and a protospacer cut.
pub open spec fn tally(v: LibraryView, read: Seq<char>) -> LibraryView {
    if directed_protospacer(v.flank, read) is Some {
        if orientation_of(v.flank, read) == Orientation::Forward {
            LibraryView { num_fwd: v.num_fwd + 1, ..v }
        } else {
            LibraryView { num_rev: v.num_rev + 1, ..v }
        }
    } else {
        v
    }
}

/// The state after protospacer `p` was looked up for sample `idx`: a hit adds one to the count
/// of its guide.
pub open spec fn credit(v: LibraryView, p: Seq<char>, idx: int) -> LibraryView {
    if v.index.contains_key(p) {
        let r = v.index[p];
        LibraryView { counts: v.counts.update(r, v.counts[r].update(idx, v.counts[r][idx] + 1)), ..v }
    } else {
        v
    }
}

/// The state after matching one read for sample `idx`.
pub open spec fn match_step(v: LibraryView, read: Seq<char>, idx: int) -> LibraryView {
    let w = tally(LibraryView { reads_seen: v.reads_seen + 1, ..v }, read);
    match directed_protospacer(v.flank, read) {
        Some(p) => credit(w, p, idx),
        None => w,
    }
}

/// The state after one read of a pass: matched, and counted as processed.
pub open spec fn read_step(v: LibraryView, read: Seq<char>, idx: int) -> LibraryView {
    let w = match_step(v, read, idx);
    LibraryView { num_total: w.num_total + 1, ..w }
}

/// The state after the reads of one pass for sample `idx`, in order.
pub open spec fn pass_spec(v: LibraryView, reads: Seq<Seq<char>>, idx: int) -> LibraryView
    decreases reads.len(),
{
    if reads.len() == 0 {
        v
    } else {
        read_step(pass_spec(v, reads.drop_last(), idx), reads.last(), idx)
    }
}

/// The state after the pass counters were reset; counts are kept.
pub open spec fn cleared(v: LibraryView) -> LibraryView {
    LibraryView { num_fwd: 0, num_rev: 0, num_total: 0, ..v }
}

/// The per-pass summary: forward, reverse and total matches, and reads processed.
pub open spec fn summary_text(v: LibraryView) -> Seq<char> {
    "---\nFwd Matches:\t"@ + decimal(v.num_fwd as nat) + "\nRev Matches:\t"@ + decimal(
        v.num_rev as nat,
    ) + "\nTotal Matches:\t"@ + decimal((v.num_fwd + v.num_rev) as nat)
        + "\nTotal Processed:\t"@ + decimal(v.num_total as nat) + "\n---\n"@
}

/// Each label preceded by a tab.
pub open spec fn label_cells(labels: Seq<Seq<char>>) -> Seq<char>
    decreases labels.len(),
{
    if labels.len() == 0 {
        Seq::empty()
    } else {
        label_cells(labels.drop_last()) + seq!['\t'] + labels.last()
    }
}

/// Each count in decimal, preceded by a tab.
pub open spec fn count_cells(counts: Seq<int>) -> Seq<char>
    decreases counts.len(),
{
    if counts.len() == 0 {
        Seq::empty()
    } else {
        count_cells(counts.drop_last()) + seq!['\t'] + decimal(counts.last() as nat)
    }
}

/// The header row of the count table.
pub open spec fn header_line(labels: Seq<Seq<char>>) -> Seq<char> {
    "sgRNA\tGene"@ + label_cells(labels) + seq!['\n']
}

/// The row of one guide: identifier, gene and counts.
pub open spec fn guide_line(name: Seq<char>, gene: Seq<char>, counts: Seq<int>) -> Seq<char> {
    name + seq!['\t'] + gene + count_cells(counts) + seq!['\n']
}

/// The rows of the first `k` guides, in load order.
pub open spec fn guide_lines(v: LibraryView, k: int) -> Seq<char>
    decreases k,
{
    if k <= 0 {
        Seq::empty()
    } else {
        guide_lines(v, k - 1) + guide_line(v.names[k - 1], v.genes[k - 1], v.counts[k - 1])
    }
}

/// The count table: header row, then one row per guide in load order.
pub open spec fn table_text(v: LibraryView, labels: Seq<Seq<char>>) -> Seq<char> {
    header_line(labels) + guide_lines(v, v.names.len() as int)
}

/// A count vector of `n` zeros.
fn zero_counts(n: usize) -> (r: Vec<u64>)
    ensures
        r.len() == n,
        forall|j: int| 0 <= j < n ==> r@[j] == 0,
{
    let mut r: Vec<u64> = Vec::new();
    for i in 0..n
        invariant
            r.len() == i,
            forall|j: int| 0 <= j < i ==> r@[j] == 0,
    {
        r.push(0);
    }
    r
}

/// Parses the gene from a guide identifier.
pub fn parse_gene(name: &str) -> (r: String)
    ensures
        r@ == gene_of(name@),
{
    let mut gene = String::new();
    let mut done = false;
    for c in it: name.chars()
        invariant
            it.seq() == name@,
            !done ==> gene@ == name@.take(it.index() as int) && forall|j: int|
                0 <= j < it.index() ==> name@[j] != '_',
            done ==> gene@ == gene_of(name@),
    {
        if !done {
            if c == '_' {
                proof {
                    let i = it.index() as int;
                    assert(first_underscore(name@, i));
                    let k = choose|k: int| first_underscore(name@, k);
                    assert(k == i);
                }
                done = true;
            } else {
                gene.push(c);
                assert(gene@ =~= name@.take(it.index() as int + 1));
            }
        }
    }
    proof {
        if !done {
            assert(gene@ =~= name@);
            assert(!exists|i: int| first_underscore(name@, i));
        }
    }
    gene
}

/// The guide library: flank searches, protospacer index, and counts.
pub struct Library {
    fwd: LiteralPattern,
    rev: LiteralPattern,
    keys: TextIndex,
    key_rows: Vec<usize>,
    names: TextIndex,
    genes: Vec<String>,
    counts: Vec<Vec<u64>>,
    num_fwd: u64,
    num_rev: u64,
    num_total: u64,
    reads_seen: u64,
    n_samples: usize,
}

impl View for Library {
    type V = LibraryView;

    closed spec fn view(&self) -> LibraryView {
        LibraryView {
            flank: self.fwd@,
            n_samples: self.n_samples as nat,
            index: Map::new(
                |p: Seq<char>| exists|k: int| 0 <= k < self.keys@.len() && self.keys@[k] == p,
                |p: Seq<char>|
                    self.key_rows@[choose|k: int| 0 <= k < self.keys@.len() && self.keys@[k] == p] as int,
            ),
            names: self.names@,
            genes: self.genes@.map_values(|s: String| s@),
            counts: self.counts@.map_values(|c: Vec<u64>| c@.map_values(|x: u64| x as int)),
            num_fwd: self.num_fwd as int,
            num_rev: self.num_rev as int,
            num_total: self.num_total as int,
            reads_seen: self.reads_seen as int,
        }
    }
}

impl Library {
    /// The structure of the tables: sound protospacer and identifier indexes, parallel vectors
    /// of equal length, every protospacer leading to a row, every count vector of length
    /// `n_samples`, and the reverse search built from the reverse complement of the flank.
    pub closed spec fn tables_wf(&self) -> bool {
        &&& self.rev@ == reverse_complement_of(self.fwd@)
        &&& self.keys.wf()
        &&& self.names.wf()
        &&& self.keys@.len() == self.key_rows.len()
        &&& forall|i: int| 0 <= i < self.key_rows.len() ==> self.key_rows@[i] < self.names@.len()
        &&& self.genes.len() == self.names@.len()
        &&& self.counts.len() == self.names@.len()
        &&& forall|i: int| 0 <= i < self.genes.len() ==> self.genes@[i]@ == gene_of(self.names@[i])
        &&& forall|i: int| 0 <= i < self.counts.len() ==> self.counts@[i].len() == self.n_samples
    }

    /// Every count is at most `bound`.
    pub closed spec fn cells_within(&self, bound: int) -> bool {
        forall|i: int, j: int|
            0 <= i < self.counts.len() && 0 <= j < self.counts@[i].len() ==> self.counts@[i]@[j]
                <= bound
    }

    /// Every counter is at most `bound`.
    pub closed spec fn counters_within(&self, bound: int) -> bool {
        &&& self.cells_within(bound)
        &&& self.num_fwd + self.num_rev <= bound
        &&& self.num_total <= bound
    }

    /// Well-formed: sound tables, and no counter above the number of reads ever seen (so that
    /// no counter can overflow while that number does not).
    pub open spec fn wf(&self) -> bool {
        self.tables_wf() && self.counters_within(self@.reads_seen)
    }

    proof fn lemma_index_at(&self, k: int)
        requires
            self.tables_wf(),
            0 <= k < self.keys@.len(),
        ensures
            self@.index.contains_key(self.keys@[k]),
            self@.index[self.keys@[k]] == self.key_rows@[k] as int,
    {
        let p = self.keys@[k];
        self.keys.lemma_distinct();
        assert(0 <= k < self.keys@.len() && self.keys@[k] == p);
        let c = choose|c: int| 0 <= c < self.keys@.len() && self.keys@[c] == p;
        assert(c == k);
    }

    /// Position of guide `name` in the identifier table.
    fn find_name(&self, name: &String) -> (r: Option<usize>)
        requires
            self.tables_wf(),
        ensures
            match r {
                Some(i) => i < self.names@.len() && row_of(self@.names, name@) == Some(i as int),
                None => row_of(self@.names, name@) is None,
            },
    {
        let r = self.names.find(name);
        proof {
            if let Some(i) = r {
                self.names.lemma_distinct();
                let c = choose|c: int| 0 <= c < self@.names.len() && self@.names[c] == name@;
                assert(c == i);
            }
        }
        r
    }

    /// Position of protospacer `seq` in the key table.
    fn find_key(&self, seq: &String) -> (r: Option<usize>)
        requires
            self.tables_wf(),
        ensures
            match r {
                Some(k) => k < self.keys@.len() && self.keys@[k as int] == seq@,
                None => !self@.index.contains_key(seq@),
            },
    {
        self.keys.find(seq)
    }

    /// Loads one guide: its identifier `name` and its protospacer `seq`.
    pub fn add_guide(&mut self, name: &str, seq: &str)
        requires
            old(self).wf(),
        ensures
            final(self).wf(),
            final(self)@ == add_guide_spec(old(self)@, name@, seq@),
    {
        let ghost v = self@;
        let name_s = String::from_str(name);
        let zero = zero_counts(self.n_samples);
        assert(zero@.map_values(|x: u64| x as int) =~= zeros(self.n_samples as nat));
        let row = match self.find_name(&name_s) {
            Some(r) => {
                self.counts.set(r, zero);
                r
            },
            None => {
                let r = self.names.len();
                self.names.push(name_s);
                self.genes.push(parse_gene(name));
                self.counts.push(zero);
                r
            },
        };
        assert(self@.names =~= add_guide_spec(v, name@, seq@).names);
        assert(self@.genes =~= add_guide_spec(v, name@, seq@).genes);
        assert(self@.counts =~= add_guide_spec(v, name@, seq@).counts);
        assert(self.tables_wf());
        assert(self.counters_within(self.reads_seen as int));
        let ghost mid = *self;
        let seq_s = String::from_str(seq);
        match self.find_key(&seq_s) {
            Some(k) => {
                self.key_rows.set(k, row);
                proof {
                    assert forall|p: Seq<char>| #[trigger] self@.index.contains_key(p) implies
                        self@.index[p] == v.index.insert(seq@, row as int)[p] by {
                        let c = choose|c: int| 0 <= c < self.keys@.len() && self.keys@[c] == p;
                        mid.lemma_index_at(c);
                        self.lemma_index_at(c);
                        self.keys.lemma_distinct();
                        if p == seq@ {
                            assert(c == k);
                        } else {
                            assert(c != k);
                        }
                    }
                    assert forall|p: Seq<char>| #[trigger] v.index.insert(seq@, row as int).contains_key(p)
                        implies self@.index.contains_key(p) by {
                        if p != seq@ {
                            let c = choose|c: int| 0 <= c < mid.keys@.len() && mid.keys@[c] == p;
                            self.lemma_index_at(c);
                        } else {
                            self.lemma_index_at(k as int);
                        }
                    }
                }
            },
            None => {
                proof {
                    assert forall|i: int| 0 <= i < self.keys@.len() implies self.keys@[i] != seq_s@ by {
                        if self.keys@[i] == seq_s@ {
                            self.lemma_index_at(i);
                        }
                    }
                }
                self.keys.push(seq_s);
                self.key_rows.push(row);
                proof {
                    assert forall|p: Seq<char>| #[trigger] self@.index.contains_key(p) implies
                        self@.index[p] == v.index.insert(seq@, row as int)[p] by {
                        let c = choose|c: int| 0 <= c < self.keys@.len() && self.keys@[c] == p;
                        self.lemma_index_at(c);
                        if c < mid.keys@.len() {
                            mid.lemma_index_at(c);
                        }
                    }
                    assert forall|p: Seq<char>| #[trigger] v.index.insert(seq@, row as int).contains_key(p)
                        implies self@.index.contains_key(p) by {
                        if p != seq@ {
                            let c = choose|c: int| 0 <= c < mid.keys@.len() && mid.keys@[c] == p;
                            self.lemma_index_at(c);
                        } else {
                            self.lemma_index_at(mid.keys@.len() as int);
                        }
                    }
                }
            },
        }
        assert(self@.index =~= add_guide_spec(v, name@, seq@).index);
        assert(self.tables_wf());
        assert(self.counters_within(self.reads_seen as int));
    }

    /// Loads guide records (identifier, protospacer) in order.
    pub fn load_library(&mut self, records: &Vec<FastaRecord>)
        requires
            old(self).wf(),
        ensures
            final(self).wf(),
            final(self)@ == load_spec(old(self)@, records@.map_values(|r: FastaRecord| r@)),
    {
        let ghost v = self@;
        let ghost recs = records@.map_values(|r: FastaRecord| r@);
        let n = records.len();
        for i in 0..n
            invariant
                n == records.len(),
                recs == records@.map_values(|r: FastaRecord| r@),
                self.wf(),
                self@ == load_spec(v, recs.take(i as int)),
        {
            let rec = &records[i];
            self.add_guide(rec.get_name(), rec.get_seq());
            assert(recs.take(i + 1).drop_last() =~= recs.take(i as int));
        }
        assert(recs.take(n as int) =~= recs);
    }

    /// Cuts the protospacer out of `seq`: the `PROTOSPACER_LEN` characters before the leftmost
    /// flank found at or after `SEARCH_START`, through the end of that flank.
    pub fn truncate_seq(&self, seq: &str) -> (r: Option<String>)
        ensures
            match r {
                Some(p) => truncation(self@.flank, seq@) == Some(p@),
                None => truncation(self@.flank, seq@) is None,
            },
    {
        if seq.unicode_len() < SEARCH_START {
            return None;
        }
        match self.fwd.find_from(seq, SEARCH_START) {
            Some(i) => {
                proof {
                    lemma_first_from_is_leftmost(self@.flank, seq@, SEARCH_START as int);
                }
                let flank_len = self.fwd.text().unicode_len();
                let t = seq.substring_char(i - PROTOSPACER_LEN, i + flank_len);
                Some(String::from_str(t))
            },
            None => None,
        }
    }

    /// Orientation of a read: forward when it holds the flank, else reverse when it holds the
    /// flank's reverse complement, else unmatched.
    pub fn determine_orientation(&self, seq: &str) -> (r: Orientation)
        requires
            self.tables_wf(),
        ensures
            r == orientation_of(self@.flank, seq@),
    {
        if self.fwd.is_match(seq) {
            Orientation::Forward
        } else if self.rev.is_match(seq) {
            Orientation::Reverse
        } else {
            Orientation::Unmatched
        }
    }

    /// Determines the orientation of the read and cuts its protospacer, counting a forward or a
    /// reverse match when one is cut. Counts of guides are not touched.
    pub fn get_direction(&mut self, record: &FastqRecord) -> (r: Option<String>)
        requires
            old(self).tables_wf(),
            old(self)@.num_fwd + old(self)@.num_rev < u64::MAX,
        ensures
            final(self).tables_wf(),
            forall|b: int| old(self).cells_within(b) ==> final(self).cells_within(b),
            final(self)@ == tally(old(self)@, record@.1),
            match r {
                Some(p) => directed_protospacer(old(self)@.flank, record@.1) == Some(p@),
                None => directed_protospacer(old(self)@.flank, record@.1) is None,
            },
    {
        let seq = record.get_seq();
        match self.determine_orientation(seq) {
            Orientation::Forward => match self.truncate_seq(seq) {
                Some(s) => {
                    self.num_fwd = self.num_fwd + 1;
                    Some(s)
                },
                None => None,
            },
            Orientation::Reverse => {
                let rc = reverse_complement(seq);
                match self.truncate_seq(rc.as_str()) {
                    Some(s) => {
                        self.num_rev = self.num_rev + 1;
                        Some(s)
                    },
                    None => None,
                }
            },
            Orientation::Unmatched => None,
        }
    }

    /// Looks `seq` up among the protospacers and, on a hit, adds one to the count of its guide
    /// for sample `idx`.
    fn match_lib(&mut self, seq: &String, idx: usize)
        requires
            old(self).tables_wf(),
            idx < old(self)@.n_samples,
            old(self).cells_within(old(self)@.reads_seen - 1),
            old(self)@.reads_seen <= u64::MAX,
        ensures
            final(self).tables_wf(),
            final(self).cells_within(old(self)@.reads_seen),
            final(self)@ == credit(old(self)@, seq@, idx as int),
    {
        let ghost v = self@;
        match self.find_key(seq) {
            Some(k) => {
                let row = self.key_rows[k];
                proof {
                    self.lemma_index_at(k as int);
                }
                let ghost before = self.counts@;
                let c = self.counts[row][idx];
                self.counts[row][idx] = c + 1;
                proof {
                    let r = row as int;
                    assert(self.counts@[r]@ == before[r]@.update(idx as int, (c + 1) as u64));
                    assert(forall|i: int| 0 <= i < before.len() && i != r ==> self.counts@[i] == before[i]);
                    assert(self.counts@[r]@.map_values(|x: u64| x as int) =~= v.counts[r].update(
                        idx as int,
                        v.counts[r][idx as int] + 1,
                    ));
                }
                assert(self@.counts =~= credit(v, seq@, idx as int).counts);
            },
            None => {},
        }
    }

    /// Matches one read for sample `idx`: orientation, protospacer, lookup, count.
    pub fn match_seq(&mut self, record: &FastqRecord, idx: usize)
        requires
            old(self).wf(),
            idx < old(self)@.n_samples,
            old(self)@.reads_seen < u64::MAX,
        ensures
            final(self).wf(),
            final(self)@ == match_step(old(self)@, record@.1, idx as int),
    {
        self.reads_seen = self.reads_seen + 1;
        match self.get_direction(record) {
            Some(seq) => self.match_lib(&seq, idx),
            None => {},
        }
    }

    /// Matches one read for sample `idx` and counts it as processed.
    pub fn process_read(&mut self, record: &FastqRecord, idx: usize)
        requires
            old(self).wf(),
            idx < old(self)@.n_samples,
            old(self)@.reads_seen < u64::MAX,
        ensures
            final(self).wf(),
            final(self)@ == read_step(old(self)@, record@.1, idx as int),
    {
        self.match_seq(record, idx);
        self.num_total = self.num_total + 1;
    }

    /// The summary of the current pass.
    pub fn summary(&self) -> (r: String)
        requires
            self.wf(),
        ensures
            r@ == summary_text(self@),
    {
        let mut out = String::from_str("---\nFwd Matches:\t");
        push_decimal(&mut out, self.num_fwd);
        out.append("\nRev Matches:\t");
        push_decimal(&mut out, self.num_rev);
        out.append("\nTotal Matches:\t");
        push_decimal(&mut out, self.num_fwd + self.num_rev);
        out.append("\nTotal Processed:\t");
        push_decimal(&mut out, self.num_total);
        out.append("\n---\n");
        out
    }

    /// Resets the pass counters; the counts are kept.
    pub fn clear_summary(&mut self)
        requires
            old(self).wf(),
        ensures
            final(self).wf(),
            final(self)@ == cleared(old(self)@),
    {
        self.num_fwd = 0;
        self.num_rev = 0;
        self.num_total = 0;
    }

    /// Starts a pass: the pass counters begin at zero; the counts are kept.
    pub fn start_pass(&mut self)
        requires
            old(self).wf(),
        ensures
            final(self).wf(),
            final(self)@ == cleared(old(self)@),
    {
        self.clear_summary();
    }

    /// Ends a pass: returns its summary and resets the pass counters.
    pub fn finish_pass(&mut self) -> (r: String)
        requires
            old(self).wf(),
        ensures
            final(self).wf(),
            r@ == summary_text(old(self)@),
            final(self)@ == cleared(old(self)@),
    {
        let r = self.summary();
        self.clear_summary();
        r
    }

    /// Runs one whole pass for sample `idx` over `reads`: the pass counters start at zero, each
    /// read is processed in order, then the pass summary is returned and the counters are reset.
    pub fn match_reader(&mut self, reads: &Vec<FastqRecord>, idx: usize) -> (r: String)
        requires
            old(self).wf(),
            idx < old(self)@.n_samples,
            old(self)@.reads_seen + reads.len() <= u64::MAX,
        ensures
            final(self).wf(),
            r@ == summary_text(
                pass_spec(cleared(old(self)@), reads@.map_values(|x: FastqRecord| x@.1), idx as int),
            ),
            final(self)@ == cleared(
                pass_spec(cleared(old(self)@), reads@.map_values(|x: FastqRecord| x@.1), idx as int),
            ),
    {
        self.start_pass();
        let ghost v = self@;
        let ghost seqs = reads@.map_values(|x: FastqRecord| x@.1);
        let n = reads.len();
        for i in 0..n
            invariant
                n == reads.len(),
                seqs == reads@.map_values(|x: FastqRecord| x@.1),
                idx < v.n_samples,
                v.reads_seen + n <= u64::MAX,
                self.wf(),
                self@ == pass_spec(v, seqs.take(i as int), idx as int),
                self@.reads_seen == v.reads_seen + i,
                self@.n_samples == v.n_samples,
        {
            self.process_read(&reads[i], idx);
            assert(seqs.take(i + 1).drop_last() =~= seqs.take(i as int));
        }
        assert(seqs.take(n as int) =~= seqs);
        self.finish_pass()
    }

    /// The count table for the sample labels `labels`: a tab-separated header row, then one row
    /// per guide in load order with its identifier, gene and counts.
    pub fn render_table(&self, labels: &Vec<&str>) -> (r: String)
        requires
            self.wf(),
        ensures
            r@ == table_text(self@, labels@.map_values(|l: &str| l@)),
    {
        let ghost ls = labels@.map_values(|l: &str| l@);
        let mut out = String::from_str("sgRNA\tGene");
        for i in 0..labels.len()
            invariant
                ls == labels@.map_values(|l: &str| l@),
                out@ == "sgRNA\tGene"@ + label_cells(ls.take(i as int)),
        {
            out.push('\t');
            out.append(labels[i]);
            assert(ls.take(i + 1).drop_last() =~= ls.take(i as int));
            assert(out@ =~= "sgRNA\tGene"@ + label_cells(ls.take(i + 1)));
        }
        assert(ls.take(labels.len() as int) =~= ls);
        out.push('\n');
        assert(out@ =~= header_line(ls));
        let n = self.names.len();
        for k in 0..n
            invariant
                n == self.names@.len(),
                self.wf(),
                out@ == header_line(ls) + guide_lines(self@, k as int),
        {
            out.append(self.names.get(k).as_str());
            out.push('\t');
            out.append(self.genes[k].as_str());
            let ghost before = out@;
            let row = &self.counts[k];
            let ghost cs = self@.counts[k as int];
            assert(cs == row@.map_values(|x: u64| x as int));
            for j in 0..row.len()
                invariant
                    cs == row@.map_values(|x: u64| x as int),
                    out@ == before + count_cells(cs.take(j as int)),
            {
                out.push('\t');
                push_decimal(&mut out, row[j]);
                assert(cs.take(j + 1).drop_last() =~= cs.take(j as int));
                assert(out@ =~= before + count_cells(cs.take(j + 1)));
            }
            assert(cs.take(row.len() as int) =~= cs);
            out.push('\n');
            assert(out@ =~= header_line(ls) + guide_lines(self@, k + 1));
        }
        out
    }

    /// The identifier of the guide whose protospacer is exactly `protospacer`.
    pub fn lookup(&self, protospacer: &str) -> (r: Option<String>)
        requires
            self.tables_wf(),
        ensures
            match r {
                Some(id) => self@.index.contains_key(protospacer@) && id@ == self@.names[self@.index[protospacer@]],
                None => !self@.index.contains_key(protospacer@),
            },
    {
        let p = String::from_str(protospacer);
        match self.find_key(&p) {
            Some(k) => {
                proof {
                    self.lemma_index_at(k as int);
                }
                let row = self.key_rows[k];
                Some(self.names.get(row).clone())
            },
            None => None,
        }
    }

    /// The per-sample counts of guide `name`, if it was loaded.
    pub fn guide_counts(&self, name: &str) -> (r: Option<Vec<u64>>)
        requires
            self.tables_wf(),
        ensures
            match r {
                Some(c) => row_of(self@.names, name@) matches Some(row) && c@.map_values(
                    |x: u64| x as int,
                ) == self@.counts[row],
                None => row_of(self@.names, name@) is None,
            },
    {
        let n = String::from_str(name);
        match self.find_name(&n) {
            Some(row) => {
                let src = &self.counts[row];
                let mut out: Vec<u64> = Vec::new();
                for j in 0..src.len()
                    invariant
                        out@ == src@.take(j as int),
                {
                    out.push(src[j]);
                    assert(out@ =~= src@.take(j + 1));
                }
                assert(out@ =~= src@);
                Some(out)
            },
            None => None,
        }
    }

    /// The number of samples.
    pub fn n_samples(&self) -> (r: usize)
        ensures
            r == self@.n_samples,
    {
        self.n_samples
    }

    /// Forward matches in the current pass.
    pub fn num_fwd(&self) -> (r: u64)
        ensures
            r == self@.num_fwd,
    {
        self.num_fwd
    }

    /// Reverse matches in the current pass.
    pub fn num_rev(&self) -> (r: u64)
        ensures
            r == self@.num_rev,
    {
        self.num_rev
    }

    /// Reads processed in the current pass.
    pub fn num_total(&self) -> (r: u64)
        ensures
            r == self@.num_total,
    {
        self.num_total
    }

    /// Reads ever handed to matching.
    pub fn reads_seen(&self) -> (r: u64)
        ensures
            r == self@.reads_seen,
    {
        self.reads_seen
    }

    /// A well-formed library has a sound abstract state.
    pub proof fn lemma_view_wf(&self)
        requires
            self.tables_wf(),
        ensures
            view_wf(self@),
    {
        let v = self@;
        assert forall|p: Seq<char>| #[trigger] v.index.contains_key(p) implies 0 <= v.index[p]
            < v.counts.len() by {
            let k = choose|k: int| 0 <= k < self.keys@.len() && self.keys@[k] == p;
            self.lemma_index_at(k);
        }
        assert forall|r: int| 0 <= r < v.counts.len() implies #[trigger] v.counts[r].len()
            == v.n_samples by {
            assert(v.counts[r] == self.counts@[r]@.map_values(|x: u64| x as int));
        }
        assert forall|r: int, j: int| 0 <= r < v.counts.len() && 0 <= j < v.counts[r].len()
            implies #[trigger] v.counts[r][j] >= 0 by {
            assert(v.counts[r] == self.counts@[r]@.map_values(|x: u64| x as int));
        }
    }

    /// A library for the flank `guide_seq` and `n_samples` samples, with no guide loaded.
    pub fn new(guide_seq: &str, n_samples: usize) -> (r: Result<Library, LibraryError>)
        ensures
            r is Ok <==> literal_compiles(guide_seq@) && literal_compiles(
                reverse_complement_of(guide_seq@),
            ),
            r matches Ok(lib) ==> lib.wf() && lib@ == empty_library(guide_seq@, n_samples as nat),
    {
        let rc_guide = reverse_complement(guide_seq);
        let fwd = match LiteralPattern::new(guide_seq) {
            Ok(p) => p,
            Err(_) => return Err(LibraryError::FlankRejected),
        };
        let rev = match LiteralPattern::new(rc_guide.as_str()) {
            Ok(p) => p,
            Err(_) => return Err(LibraryError::FlankRejected),
        };
        let lib = Library {
            fwd,
            rev,
            keys: TextIndex::new(),
            key_rows: Vec::new(),
            names: TextIndex::new(),
            genes: Vec::new(),
            counts: Vec::new(),
            num_fwd: 0,
            num_rev: 0,
            num_total: 0,
            reads_seen: 0,
            n_samples,
        };
        assert(lib@.index =~= Map::empty());
        assert(lib@.names =~= Seq::empty());
        assert(lib@.genes =~= Seq::empty());
        assert(lib@.counts =~= Seq::empty());
        Ok(lib)
    }
}

} // verus!
