//! Properties of matching, counting and rendering, stated over the library's abstract state.

use vstd::prelude::*;
use crate::library::{
    add_guide_spec, cleared, directed_protospacer, empty_library, guide_lines, load_spec,
    match_step, orientation_of, pass_spec, read_step, table_text, tally, truncation, zeros,
    LibraryView, Orientation, PROTOSPACER_LEN, SEARCH_START,
};
use crate::nucleotide::reverse_complement_of;
use crate::pattern::{contains, first_from, lemma_first_from_is_leftmost};

verus! {

/// The abstract state is sound: every protospacer leads to an existing row, and every row has
/// one count per sample.
pub open spec fn view_wf(v: LibraryView) -> bool {
    &&& v.genes.len() == v.names.len()
    &&& v.counts.len() == v.names.len()
    &&& forall|p: Seq<char>| #[trigger] v.index.contains_key(p) ==> 0 <= v.index[p] < v.counts.len()
    &&& forall|r: int| 0 <= r < v.counts.len() ==> #[trigger] v.counts[r].len() == v.n_samples
    &&& forall|r: int, j: int|
        0 <= r < v.counts.len() && 0 <= j < v.counts[r].len() ==> #[trigger] v.counts[r][j] >= 0
}

/// The sum of the counts of sample `idx` over all guides.
pub open spec fn column_sum(counts: Seq<Seq<int>>, idx: int) -> int
    decreases counts.len(),
{
    if counts.len() == 0 {
        0
    } else {
        column_sum(counts.drop_last(), idx) + counts.last()[idx]
    }
}

/// A read holding the flank is forward, and its protospacer is cut from the read itself; one
/// holding only the flank's reverse complement is reverse, and its protospacer is cut from the
/// read's reverse complement; a cut counts one forward or reverse match. A read holding neither
/// is unmatched: matching it cuts nothing and changes no count and no match counter.
pub proof fn lemma_orientation_classes(v: LibraryView, read: Seq<char>, idx: int)
    ensures
        contains(read, v.flank) ==> {
            &&& orientation_of(v.flank, read) == Orientation::Forward
            &&& directed_protospacer(v.flank, read) == truncation(v.flank, read)
            &&& tally(v, read) == if truncation(v.flank, read) is Some {
                LibraryView { num_fwd: v.num_fwd + 1, ..v }
            } else {
                v
            }
        },
        !contains(read, v.flank) && contains(read, reverse_complement_of(v.flank)) ==> {
            &&& orientation_of(v.flank, read) == Orientation::Reverse
            &&& directed_protospacer(v.flank, read) == truncation(
                v.flank,
                reverse_complement_of(read),
            )
            &&& tally(v, read) == if truncation(v.flank, reverse_complement_of(read)) is Some {
                LibraryView { num_rev: v.num_rev + 1, ..v }
            } else {
                v
            }
        },
        !contains(read, v.flank) && !contains(read, reverse_complement_of(v.flank)) ==> {
            &&& orientation_of(v.flank, read) == Orientation::Unmatched
            &&& directed_protospacer(v.flank, read) is None
            &&& tally(v, read) == v
            &&& match_step(v, read, idx) == LibraryView { reads_seen: v.reads_seen + 1, ..v }
            &&& read_step(v, read, idx).counts == v.counts
        },
{
}

/// A flank found at or after `SEARCH_START` leaves room for a whole protospacer before it: the
/// cut starts at position 1 or later and ends inside the read, and holds the protospacer and
/// the flank.
pub proof fn lemma_truncation_in_bounds(flank: Seq<char>, s: Seq<char>)
    ensures
        first_from(flank, s, SEARCH_START as int) matches Some(i) ==> {
            &&& i - PROTOSPACER_LEN as int >= 1
            &&& i + flank.len() <= s.len()
        },
        truncation(flank, s) matches Some(p) ==> p.len() == PROTOSPACER_LEN + flank.len(),
{
    lemma_first_from_is_leftmost(flank, s, SEARCH_START as int);
}

/// Adding one to a single count adds one to the sum of that sample's column.
proof fn lemma_column_sum_credit(counts: Seq<Seq<int>>, r: int, idx: int)
    requires
        0 <= r < counts.len(),
        0 <= idx < counts[r].len(),
    ensures
        column_sum(counts.update(r, counts[r].update(idx, counts[r][idx] + 1)), idx)
            == column_sum(counts, idx) + 1,
    decreases counts.len(),
{
    let u = counts.update(r, counts[r].update(idx, counts[r][idx] + 1));
    if r == counts.len() - 1 {
        assert(u.drop_last() =~= counts.drop_last());
    } else {
        lemma_column_sum_credit(counts.drop_last(), r, idx);
        assert(u.drop_last() =~= counts.drop_last().update(
            r,
            counts.drop_last()[r].update(idx, counts.drop_last()[r][idx] + 1),
        ));
    }
}

/// What one read does to the column of its sample, to the pass counters, and to the rest.
proof fn lemma_read_step(v: LibraryView, read: Seq<char>, idx: int)
    requires
        view_wf(v),
        0 <= idx < v.n_samples,
    ensures
        view_wf(read_step(v, read, idx)),
        read_step(v, read, idx).flank == v.flank,
        read_step(v, read, idx).index == v.index,
        read_step(v, read, idx).n_samples == v.n_samples,
        read_step(v, read, idx).names == v.names,
        read_step(v, read, idx).genes == v.genes,
        read_step(v, read, idx).num_total == v.num_total + 1,
        read_step(v, read, idx).reads_seen == v.reads_seen + 1,
        ({
            let w = read_step(v, read, idx);
            let matched: int = if directed_protospacer(v.flank, read) is Some { 1 } else { 0 };
            let hit: int = if (directed_protospacer(v.flank, read) matches Some(p)
                && v.index.contains_key(p)) {
                1
            } else {
                0
            };
            &&& w.num_fwd + w.num_rev == v.num_fwd + v.num_rev + matched
            &&& column_sum(w.counts, idx) == column_sum(v.counts, idx) + hit
            &&& hit <= matched
        }),
{
    let w = read_step(v, read, idx);
    if let Some(p) = directed_protospacer(v.flank, read) {
        if v.index.contains_key(p) {
            let r = v.index[p];
            lemma_column_sum_credit(v.counts, r, idx);
            assert forall|q: int| 0 <= q < w.counts.len() implies #[trigger] w.counts[q].len()
                == w.n_samples by {
                if q == r {
                } else {
                }
            }
            assert forall|q: int, j: int| 0 <= q < w.counts.len() && 0 <= j < w.counts[q].len()
                implies #[trigger] w.counts[q][j] >= 0 by {
                if q == r && j == idx {
                } else {
                    assert(w.counts[q][j] == v.counts[q][j]);
                }
            }
        }
    }
}

/// The state of a pass keeps the flank, the index, the identifiers and the shape of the counts.
proof fn lemma_pass_frame(v: LibraryView, reads: Seq<Seq<char>>, idx: int)
    requires
        view_wf(v),
        0 <= idx < v.n_samples,
    ensures
        view_wf(pass_spec(v, reads, idx)),
        pass_spec(v, reads, idx).flank == v.flank,
        pass_spec(v, reads, idx).index == v.index,
        pass_spec(v, reads, idx).n_samples == v.n_samples,
        pass_spec(v, reads, idx).names == v.names,
        pass_spec(v, reads, idx).genes == v.genes,
        pass_spec(v, reads, idx).num_total == v.num_total + reads.len(),
        pass_spec(v, reads, idx).reads_seen == v.reads_seen + reads.len(),
    decreases reads.len(),
{
    if reads.len() > 0 {
        lemma_pass_frame(v, reads.drop_last(), idx);
        lemma_read_step(pass_spec(v, reads.drop_last(), idx), reads.last(), idx);
    }
}

/// Over one pass for sample `idx`, the counts of that sample gain at most the forward and
/// reverse matches counted, and those are at most the reads processed. When every protospacer
/// cut from the reads is in the library, the gain equals the matches.
pub proof fn lemma_count_conservation(v: LibraryView, reads: Seq<Seq<char>>, idx: int)
    requires
        view_wf(v),
        0 <= idx < v.n_samples,
    ensures
        ({
            let w = pass_spec(v, reads, idx);
            &&& column_sum(w.counts, idx) - column_sum(v.counts, idx) <= (w.num_fwd + w.num_rev)
                - (v.num_fwd + v.num_rev)
            &&& (w.num_fwd + w.num_rev) - (v.num_fwd + v.num_rev) <= reads.len()
            &&& w.num_total == v.num_total + reads.len()
            &&& (forall|i: int|
                0 <= i < reads.len() ==> (#[trigger] directed_protospacer(v.flank, reads[i]) matches Some(
                    p,
                ) ==> v.index.contains_key(p))) ==> column_sum(w.counts, idx) - column_sum(
                v.counts,
                idx,
            ) == (w.num_fwd + w.num_rev) - (v.num_fwd + v.num_rev)
        }),
    decreases reads.len(),
{
    if reads.len() > 0 {
        let init = reads.drop_last();
        lemma_count_conservation(v, init, idx);
        lemma_pass_frame(v, init, idx);
        let u = pass_spec(v, init, idx);
        lemma_read_step(u, reads.last(), idx);
        if forall|i: int|
            0 <= i < reads.len() ==> (#[trigger] directed_protospacer(v.flank, reads[i]) matches Some(
                p,
            ) ==> v.index.contains_key(p)) {
            assert forall|i: int| 0 <= i < init.len() implies (#[trigger] directed_protospacer(
                v.flank,
                init[i],
            ) matches Some(p) ==> v.index.contains_key(p)) by {
                assert(init[i] == reads[i]);
            }
            assert(directed_protospacer(v.flank, reads[reads.len() - 1]) matches Some(p)
                ==> v.index.contains_key(p));
        }
    }
}

/// The table depends on the guides and their counts alone: resetting the pass counters does not
/// change it.
pub proof fn lemma_table_ignores_pass_counters(v: LibraryView, labels: Seq<Seq<char>>)
    ensures
        table_text(cleared(v), labels) == table_text(v, labels),
{
    lemma_guide_lines_ignore_pass_counters(v, v.names.len() as int);
}

proof fn lemma_guide_lines_ignore_pass_counters(v: LibraryView, k: int)
    ensures
        guide_lines(cleared(v), k) == guide_lines(v, k),
    decreases k,
{
    if k > 0 {
        lemma_guide_lines_ignore_pass_counters(v, k - 1);
    }
}

/// The sum of a column whose entries are all zero is zero.
proof fn lemma_column_sum_zero(counts: Seq<Seq<int>>, idx: int)
    requires
        forall|r: int| 0 <= r < counts.len() ==> #[trigger] counts[r][idx] == 0,
    ensures
        column_sum(counts, idx) == 0,
    decreases counts.len(),
{
    if counts.len() > 0 {
        lemma_column_sum_zero(counts.drop_last(), idx);
    }
}

/// The sum of a column whose entries are all non-negative is non-negative.
proof fn lemma_column_sum_nonneg(counts: Seq<Seq<int>>, idx: int)
    requires
        forall|r: int| 0 <= r < counts.len() ==> #[trigger] counts[r][idx] >= 0,
    ensures
        column_sum(counts, idx) >= 0,
    decreases counts.len(),
{
    if counts.len() > 0 {
        lemma_column_sum_nonneg(counts.drop_last(), idx);
    }
}

/// Loading guide records into a new library gives a sound state whose counts are all zero and
/// whose pass counters are zero.
pub proof fn lemma_loaded_library(flank: Seq<char>, n: nat, recs: Seq<(Seq<char>, Seq<char>)>)
    ensures
        ({
            let v = load_spec(empty_library(flank, n), recs);
            &&& view_wf(v)
            &&& v.flank == flank
            &&& v.n_samples == n
            &&& v.num_fwd == 0 && v.num_rev == 0 && v.num_total == 0 && v.reads_seen == 0
            &&& forall|r: int, j: int|
                0 <= r < v.counts.len() && 0 <= j < v.counts[r].len() ==> #[trigger] v.counts[r][j]
                    == 0
        }),
    decreases recs.len(),
{
    if recs.len() > 0 {
        lemma_loaded_library(flank, n, recs.drop_last());
        let u = load_spec(empty_library(flank, n), recs.drop_last());
        let v = add_guide_spec(u, recs.last().0, recs.last().1);
        assert(v == load_spec(empty_library(flank, n), recs));
        let row = match crate::library::row_of(u.names, recs.last().0) {
            Some(r) => r,
            None => u.names.len() as int,
        };
        if let Some(r) = crate::library::row_of(u.names, recs.last().0) {
            assert(0 <= r < u.names.len());
        }
        assert forall|p: Seq<char>| #[trigger] v.index.contains_key(p) implies 0 <= v.index[p]
            < v.counts.len() by {
            if p != recs.last().1 {
                assert(u.index.contains_key(p));
            }
        }
        assert forall|r: int| 0 <= r < v.counts.len() implies #[trigger] v.counts[r].len()
            == v.n_samples by {
            if r == row {
                assert(v.counts[r] == zeros(n));
            } else {
                assert(v.counts[r] == u.counts[r]);
            }
        }
        assert forall|r: int, j: int| 0 <= r < v.counts.len() && 0 <= j < v.counts[r].len()
            implies #[trigger] v.counts[r][j] == 0 by {
            if r == row {
                assert(v.counts[r] == zeros(n));
            } else {
                assert(v.counts[r] == u.counts[r]);
            }
        }
    }
}

/// From a freshly loaded library, one pass of reads for sample `idx` processes exactly those
/// reads, keeps every count non-negative, and leaves the counts of that sample adding up to at
/// most the number of reads.
pub proof fn lemma_fresh_pass(
    flank: Seq<char>,
    n: nat,
    recs: Seq<(Seq<char>, Seq<char>)>,
    reads: Seq<Seq<char>>,
    idx: int,
)
    requires
        0 <= idx < n,
    ensures
        ({
            let w = pass_spec(load_spec(empty_library(flank, n), recs), reads, idx);
            &&& view_wf(w)
            &&& w.num_total == reads.len()
            &&& 0 <= column_sum(w.counts, idx) <= reads.len()
        }),
{
    lemma_loaded_library(flank, n, recs);
    let v = load_spec(empty_library(flank, n), recs);
    assert forall|r: int| 0 <= r < v.counts.len() implies #[trigger] v.counts[r][idx] == 0 by {
        assert(v.counts[r][idx] == 0);
    }
    lemma_column_sum_zero(v.counts, idx);
    lemma_count_conservation(v, reads, idx);
    lemma_pass_frame(v, reads, idx);
    let w = pass_spec(v, reads, idx);
    assert forall|r: int| 0 <= r < w.counts.len() implies #[trigger] w.counts[r][idx] >= 0 by {
        assert(w.counts[r].len() == w.n_samples);
        assert(w.counts[r][idx] >= 0);
    }
    lemma_column_sum_nonneg(w.counts, idx);
}

/// One read changes at most the count of sample `idx` of one guide, and only upwards.
proof fn lemma_read_step_counts(v: LibraryView, read: Seq<char>, idx: int)
    requires
        view_wf(v),
        0 <= idx < v.n_samples,
    ensures
        read_step(v, read, idx).counts.len() == v.counts.len(),
        forall|r: int, j: int|
            0 <= r < v.counts.len() && 0 <= j < v.counts[r].len() ==> {
                let c = #[trigger] read_step(v, read, idx).counts[r][j];
                &&& j != idx ==> c == v.counts[r][j]
                &&& c >= v.counts[r][j]
            },
{
    let w = read_step(v, read, idx);
    if let Some(p) = directed_protospacer(v.flank, read) {
        if v.index.contains_key(p) {
            let q = v.index[p];
            assert forall|r: int, j: int|
                0 <= r < v.counts.len() && 0 <= j < v.counts[r].len() implies {
                    let c = #[trigger] w.counts[r][j];
                    &&& j != idx ==> c == v.counts[r][j]
                    &&& c >= v.counts[r][j]
                } by {
                if r != q {
                    assert(w.counts[r] == v.counts[r]);
                }
            }
        }
    }
}

/// A pass for sample `idx` keeps the identifiers, the genes, the protospacer index and the
/// number of samples; it changes only the counts of sample `idx`, and never lowers a count.
pub proof fn lemma_pass_counts(v: LibraryView, reads: Seq<Seq<char>>, idx: int)
    requires
        view_wf(v),
        0 <= idx < v.n_samples,
    ensures
        ({
            let w = pass_spec(v, reads, idx);
            &&& view_wf(w)
            &&& w.flank == v.flank
            &&& w.names == v.names
            &&& w.genes == v.genes
            &&& w.index == v.index
            &&& w.n_samples == v.n_samples
            &&& w.counts.len() == v.counts.len()
            &&& forall|r: int, j: int|
                0 <= r < v.counts.len() && 0 <= j < v.counts[r].len() ==> {
                    let c = #[trigger] w.counts[r][j];
                    &&& j != idx ==> c == v.counts[r][j]
                    &&& c >= v.counts[r][j]
                }
        }),
    decreases reads.len(),
{
    lemma_pass_frame(v, reads, idx);
    if reads.len() > 0 {
        let init = reads.drop_last();
        lemma_pass_counts(v, init, idx);
        lemma_pass_frame(v, init, idx);
        let u = pass_spec(v, init, idx);
        lemma_read_step_counts(u, reads.last(), idx);
        let w = pass_spec(v, reads, idx);
        assert forall|r: int, j: int|
            0 <= r < v.counts.len() && 0 <= j < v.counts[r].len() implies {
                let c = #[trigger] w.counts[r][j];
                &&& j != idx ==> c == v.counts[r][j]
                &&& c >= v.counts[r][j]
            } by {
            assert(u.counts[r].len() == v.counts[r].len());
            assert(u.counts[r][j] >= v.counts[r][j]);
        }
    }
}

} // verus!
