//! A set of distinct texts, each found by its position, with lookup through hash buckets.
//!
//! The texts are kept in insertion order in a `Vec`. Each of `N_BUCKETS` buckets lists the
//! positions of the texts whose rolling hash (`bucket_of`) falls into it, so a lookup compares
//! the wanted text with the texts of one bucket only. The invariant says that the texts are
//! distinct and that every position is listed in the bucket of its text, and only there.

use vstd::prelude::*;

verus! {

/// Number of hash buckets.
pub const N_BUCKETS: usize = 16384;

/// Multiplier of the rolling hash.
pub const HASH_MUL: u64 = 31;

/// The bucket of a text: a rolling hash of its characters, reduced at each step.
pub open spec fn bucket_of(s: Seq<char>) -> int
    decreases s.len(),
{
    if s.len() == 0 {
        0
    } else {
        (bucket_of(s.drop_last()) * HASH_MUL + s.last() as u32) % (N_BUCKETS as int)
    }
}

/// Distinct texts in insertion order.
pub struct TextIndex {
    items: Vec<String>,
    buckets: Vec<Vec<usize>>,
}

impl View for TextIndex {
    type V = Seq<Seq<char>>;

    closed spec fn view(&self) -> Seq<Seq<char>> {
        self.items@.map_values(|s: String| s@)
    }
}

/// The bucket of `s`, computed.
fn hash_text(s: &str) -> (r: usize)
    ensures
        r == bucket_of(s@),
        r < N_BUCKETS,
{
    let mut h: u64 = 0;
    for c in it: s.chars()
        invariant
            it.seq() == s@,
            h == bucket_of(s@.take(it.index() as int)),
            h < N_BUCKETS,
    {
        proof {
            let t = s@.take(it.index() + 1);
            assert(t.drop_last() =~= s@.take(it.index() as int));
        }
        h = (h * HASH_MUL + (c as u32) as u64) % (N_BUCKETS as u64);
    }
    assert(s@.take(s@.len() as int) =~= s@);
    h as usize
}

impl TextIndex {
    /// The texts are distinct, and each bucket lists exactly the positions of the texts that
    /// hash to it.
    pub closed spec fn wf(&self) -> bool {
        &&& self.buckets.len() == N_BUCKETS
        &&& forall|i: int, j: int|
            #![trigger self.items@[i], self.items@[j]]
            0 <= i < self.items.len() && 0 <= j < self.items.len() && i != j ==> self.items@[i]@
                != self.items@[j]@
        &&& forall|b: int, j: int|
            0 <= b < N_BUCKETS && 0 <= j < self.buckets@[b].len() ==> {
                let k = #[trigger] self.buckets@[b]@[j];
                &&& k < self.items.len()
                &&& bucket_of(self.items@[k as int]@) == b
            }
        &&& forall|k: int| 0 <= k < self.items.len() ==> #[trigger] self.listed(k)
    }

    /// Position `k` is listed in the bucket of its text.
    pub closed spec fn listed(&self, k: int) -> bool {
        exists|j: int|
            0 <= j < self.buckets@[bucket_of(self.items@[k]@)].len()
                && self.buckets@[bucket_of(self.items@[k]@)]@[j] == k
    }

    /// The texts of a well-formed index are distinct.
    pub proof fn lemma_distinct(&self)
        requires
            self.wf(),
        ensures
            forall|i: int, j: int|
                0 <= i < self@.len() && 0 <= j < self@.len() && i != j ==> self@[i] != self@[j],
    {
        assert forall|i: int, j: int|
            0 <= i < self@.len() && 0 <= j < self@.len() && i != j implies self@[i] != self@[j] by {
            assert(self@[i] == self.items@[i]@ && self@[j] == self.items@[j]@);
        }
    }

    /// An empty index.
    pub fn new() -> (r: TextIndex)
        ensures
            r.wf(),
            r@ == Seq::<Seq<char>>::empty(),
    {
        let mut buckets: Vec<Vec<usize>> = Vec::new();
        for b in 0..N_BUCKETS
            invariant
                buckets.len() == b,
                forall|i: int| 0 <= i < b ==> (#[trigger] buckets@[i]).len() == 0,
        {
            buckets.push(Vec::new());
        }
        let r = TextIndex { items: Vec::new(), buckets };
        assert(r@ =~= Seq::<Seq<char>>::empty());
        r
    }

    /// The number of texts.
    pub fn len(&self) -> (r: usize)
        ensures
            r == self@.len(),
    {
        self.items.len()
    }

    /// The text at position `i`.
    pub fn get(&self, i: usize) -> (r: &String)
        requires
            i < self@.len(),
        ensures
            r@ == self@[i as int],
    {
        &self.items[i]
    }

    /// The position of `s`, if it is in the index.
    pub fn find(&self, s: &String) -> (r: Option<usize>)
        requires
            self.wf(),
        ensures
            match r {
                Some(i) => i < self@.len() && self@[i as int] == s@,
                None => forall|i: int| 0 <= i < self@.len() ==> self@[i] != s@,
            },
    {
        let b = hash_text(s.as_str());
        let bucket = &self.buckets[b];
        for j in 0..bucket.len()
            invariant
                self.wf(),
                b == bucket_of(s@),
                b < N_BUCKETS,
                bucket@ == self.buckets@[b as int]@,
                forall|t: int| 0 <= t < j ==> self.items@[bucket@[t] as int]@ != s@,
        {
            let k = bucket[j];
            assert(self.buckets@[b as int]@[j as int] == k);
            if self.items[k] == *s {
                return Some(k);
            }
        }
        proof {
            assert forall|i: int| 0 <= i < self@.len() implies self@[i] != s@ by {
                if self@[i] == s@ {
                    assert(self.items@[i]@ == s@);
                    assert(self.listed(i));
                    let j = choose|j: int|
                        0 <= j < self.buckets@[bucket_of(self.items@[i]@)].len()
                            && self.buckets@[bucket_of(self.items@[i]@)]@[j] == i;
                    assert(bucket@[j] == i);
                }
            }
        }
        None
    }

    /// Adds `s`, which is not in the index yet, at the end.
    pub fn push(&mut self, s: String)
        requires
            old(self).wf(),
            forall|i: int| 0 <= i < old(self)@.len() ==> old(self)@[i] != s@,
        ensures
            final(self).wf(),
            final(self)@ == old(self)@.push(s@),
    {
        let ghost old_items = self.items@;
        let ghost old_buckets = self.buckets@;
        let b = hash_text(s.as_str());
        let k = self.items.len();
        self.items.push(s);
        self.buckets[b].push(k);
        proof {
            assert(self.items@[k as int]@ == s@);
            assert forall|i: int| 0 <= i < old_items.len() implies old_items[i]@ != self.items@[k as int]@ by {
                assert(old(self)@[i] == old_items[i]@);
            }
            assert forall|q: int, j: int|
                0 <= q < N_BUCKETS && 0 <= j < self.buckets@[q].len() implies {
                    let m = #[trigger] self.buckets@[q]@[j];
                    &&& m < self.items.len()
                    &&& bucket_of(self.items@[m as int]@) == q
                } by {
                if q != b || j < old_buckets[q].len() {
                    assert(self.buckets@[q]@[j] == old_buckets[q]@[j]);
                }
            }
            assert forall|i: int| 0 <= i < self.items.len() implies #[trigger] self.listed(i) by {
                if i < k {
                    assert(old(self).listed(i));
                    let q = bucket_of(old_items[i]@);
                    let j = choose|j: int|
                        0 <= j < old_buckets[q].len() && old_buckets[q]@[j] == i;
                    assert(self.buckets@[q]@[j] == i);
                } else {
                    let j = old_buckets[b as int].len() as int;
                    assert(self.buckets@[b as int]@[j] == i);
                }
            }
        }
        assert(self.buckets.len() == N_BUCKETS);
        assert forall|i: int, j: int|
            0 <= i < self.items.len() && 0 <= j < self.items.len() && i != j implies self.items@[i]@
                != self.items@[j]@ by {
            if i < k && j < k {
                assert(self.items@[i] == old_items[i] && self.items@[j] == old_items[j]);
            } else if i < k {
                assert(self.items@[i] == old_items[i]);
            } else {
                assert(self.items@[j] == old_items[j]);
            }
        }
        assert(self@ =~= old(self)@.push(s@));
    }
}

} // verus!
