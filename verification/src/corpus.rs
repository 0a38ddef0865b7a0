//! Seed corpus: an immutable, deduplicated sequence of byte strings.
//!
//! The corpus is built once from the raw contents of the seed files (read by
//! the caller) and never changes afterwards. Two files with identical bytes
//! count once; the first occurrence decides the position. Fuzzing selects
//! seeds by index modulo the corpus size, so an empty corpus is rejected at
//! construction.

use vstd::prelude::*;

verus! {

/// Error from building the corpus.
#[derive(Debug, PartialEq, Eq, Structural, Clone, Copy)]
pub enum CorpusError {
    /// No distinct seed remained after deduplication.
    Empty,
}

/// The byte-string views of a list of byte vectors.
pub open spec fn views_of(s: Seq<Vec<u8>>) -> Seq<Seq<u8>> {
    s.map_values(|v: Vec<u8>| v@)
}

/// First-occurrence deduplication: keeps each distinct byte string once, in
/// the order in which it first appears.
pub open spec fn dedup_first(s: Seq<Seq<u8>>) -> Seq<Seq<u8>>
    decreases s.len(),
{
    if s.len() == 0 {
        Seq::empty()
    } else {
        let pre = dedup_first(s.drop_last());
        if pre.contains(s.last()) {
            pre
        } else {
            pre.push(s.last())
        }
    }
}

/// An element occurs in the deduplicated sequence exactly when it occurs in
/// the original.
pub proof fn lemma_dedup_first_contains(s: Seq<Seq<u8>>)
    ensures
        forall|x: Seq<u8>| dedup_first(s).contains(x) <==> s.contains(x),
    decreases s.len(),
{
    if s.len() > 0 {
        lemma_dedup_first_contains(s.drop_last());
        assert forall|x: Seq<u8>| s.contains(x) implies dedup_first(s).contains(x) by {
            if x == s.last() {
                if !dedup_first(s.drop_last()).contains(x) {
                    assert(dedup_first(s) == dedup_first(s.drop_last()).push(x));
                    assert(dedup_first(s).last() == x);
                }
            } else {
                let i = choose|i: int| 0 <= i < s.len() && s[i] == x;
                assert(s.drop_last()[i] == x);
                assert(s.drop_last().contains(x));
                let j = choose|j: int|
                    0 <= j < dedup_first(s.drop_last()).len() && dedup_first(s.drop_last())[j] == x;
                assert(dedup_first(s)[j] == x);
            }
        }
        assert forall|x: Seq<u8>| dedup_first(s).contains(x) implies s.contains(x) by {
            let pre = dedup_first(s.drop_last());
            let j = choose|j: int| 0 <= j < dedup_first(s).len() && dedup_first(s)[j] == x;
            if j < pre.len() {
                assert(pre[j] == x);
                assert(pre.contains(x));
                assert(s.drop_last().contains(x));
                let i = choose|i: int| 0 <= i < s.drop_last().len() && s.drop_last()[i] == x;
                assert(s[i] == x);
                assert(s.contains(x));
            } else {
                assert(x == s.last());
                assert(s[s.len() - 1] == x);
                assert(s.contains(x));
            }
        }
    }
}

/// Deduplication never repeats an element.
pub proof fn lemma_dedup_first_no_duplicates(s: Seq<Seq<u8>>)
    ensures
        dedup_first(s).no_duplicates(),
    decreases s.len(),
{
    if s.len() > 0 {
        lemma_dedup_first_no_duplicates(s.drop_last());
        let pre = dedup_first(s.drop_last());
        if !pre.contains(s.last()) {
            assert forall|i: int, j: int|
                0 <= i < pre.push(s.last()).len() && 0 <= j < pre.push(s.last()).len() && i
                    != j implies pre.push(s.last())[i] != pre.push(s.last())[j] by {
                if i < pre.len() && j < pre.len() {
                } else if j == pre.len() {
                    assert(pre.push(s.last())[i] == pre[i]);
                    assert(!pre.contains(s.last()));
                } else {
                    assert(pre.push(s.last())[j] == pre[j]);
                    assert(!pre.contains(s.last()));
                }
            }
        }
    }
}

/// A non-empty input leaves at least one entry after deduplication.
pub proof fn lemma_dedup_first_nonempty(s: Seq<Seq<u8>>)
    requires
        s.len() > 0,
    ensures
        dedup_first(s).len() > 0,
    decreases s.len(),
{
    if s.drop_last().len() > 0 {
        lemma_dedup_first_nonempty(s.drop_last());
    }
}

/// The number of corpus entries is the number of pairwise distinct byte
/// strings among the inputs, whatever order the inputs come in.
pub proof fn lemma_corpus_size_is_distinct_count(s: Seq<Seq<u8>>)
    ensures
        dedup_first(s).len() == s.to_set().len(),
{
    lemma_dedup_first_contains(s);
    lemma_dedup_first_no_duplicates(s);
    assert(dedup_first(s).to_set() =~= s.to_set());
    dedup_first(s).unique_seq_to_set();
}

/// Reordering the input files never changes the corpus size: it depends only
/// on the set of distinct byte strings.
pub proof fn lemma_corpus_size_order_independent(s: Seq<Seq<u8>>, t: Seq<Seq<u8>>)
    requires
        s.to_set() == t.to_set(),
    ensures
        dedup_first(s).len() == dedup_first(t).len(),
{
    lemma_corpus_size_is_distinct_count(s);
    lemma_corpus_size_is_distinct_count(t);
}

/// Byte-for-byte equality of two byte vectors.
fn bytes_eq(a: &Vec<u8>, b: &Vec<u8>) -> (r: bool)
    ensures
        r == (a@ == b@),
{
    if a.len() != b.len() {
        return false;
    }
    let mut i: usize = 0;
    while i < a.len()
        invariant
            i <= a@.len(),
            a@.len() == b@.len(),
            forall|j: int| 0 <= j < i ==> a@[j] == b@[j],
        decreases a@.len() - i,
    {
        if a[i] != b[i] {
            return false;
        }
        i += 1;
    }
    proof {
        assert(a@ =~= b@);
    }
    true
}

/// Whether `x` already occurs among the collected entries.
fn contains_entry(list: &Vec<Vec<u8>>, x: &Vec<u8>) -> (r: bool)
    ensures
        r == views_of(list@).contains(x@),
{
    let mut i: usize = 0;
    while i < list.len()
        invariant
            i <= list@.len(),
            forall|j: int| 0 <= j < i ==> views_of(list@)[j] != x@,
        decreases list@.len() - i,
    {
        if bytes_eq(&list[i], x) {
            proof {
                assert(views_of(list@)[i as int] == x@);
            }
            return true;
        }
        i += 1;
    }
    proof {
        assert forall|j: int| 0 <= j < views_of(list@).len() implies views_of(list@)[j] != x@ by {}
    }
    false
}

/// Copies a byte vector.
fn copy_bytes(src: &Vec<u8>) -> (r: Vec<u8>)
    ensures
        r@ == src@,
{
    let mut out: Vec<u8> = Vec::new();
    let mut i: usize = 0;
    while i < src.len()
        invariant
            i <= src@.len(),
            out@ == src@.take(i as int),
        decreases src@.len() - i,
    {
        out.push(src[i]);
        proof {
            assert(out@ =~= src@.take(i + 1));
        }
        i += 1;
    }
    proof {
        assert(src@.take(src@.len() as int) =~= src@);
    }
    out
}

/// Immutable deduplicated seed corpus.
pub struct Corpus {
    entries: Vec<Vec<u8>>,
}

impl View for Corpus {
    type V = Seq<Seq<u8>>;

    closed spec fn view(&self) -> Seq<Seq<u8>> {
        views_of(self.entries@)
    }
}

impl Corpus {
    /// A corpus is well formed when no entry repeats.
    pub open spec fn wf(&self) -> bool {
        self@.no_duplicates()
    }

    /// Builds the corpus from the raw contents of the seed files, collapsing
    /// byte-identical contents to the first occurrence. Fails exactly when no
    /// entry at all was supplied.
    pub fn from_entries(entries: &Vec<Vec<u8>>) -> (r: Result<Corpus, CorpusError>)
        ensures
            match r {
                Ok(c) => c@ == dedup_first(views_of(entries@)) && c@.len() > 0 && c.wf(),
                Err(e) => e == CorpusError::Empty,
            },
            r is Err <==> entries@.len() == 0,
    {
        let ghost all = views_of(entries@);
        let mut out: Vec<Vec<u8>> = Vec::new();
        let mut i: usize = 0;
        while i < entries.len()
            invariant
                i <= entries@.len(),
                views_of(out@) == dedup_first(all.take(i as int)),
                all == views_of(entries@),
            decreases entries@.len() - i,
        {
            proof {
                assert(all.take(i + 1).drop_last() =~= all.take(i as int));
                assert(all.take(i + 1).last() == all[i as int]);
                assert(all[i as int] == entries@[i as int]@);
            }
            if !contains_entry(&out, &entries[i]) {
                let ghost pre = out@;
                let copied = copy_bytes(&entries[i]);
                out.push(copied);
                proof {
                    assert(views_of(out@) =~= views_of(pre).push(entries@[i as int]@));
                }
            }
            i += 1;
        }
        proof {
            assert(all.take(entries@.len() as int) =~= all);
        }
        if out.len() == 0 {
            proof {
                if entries@.len() > 0 {
                    lemma_dedup_first_nonempty(all);
                }
            }
            Err(CorpusError::Empty)
        } else {
            proof {
                lemma_dedup_first_no_duplicates(all);
            }
            Ok(Corpus { entries: out })
        }
    }

    /// Number of distinct seeds.
    pub fn len(&self) -> (n: usize)
        ensures
            n == self@.len(),
    {
        self.entries.len()
    }

    /// The seed at position `i`.
    pub fn get(&self, i: usize) -> (r: &Vec<u8>)
        requires
            i < self@.len(),
        ensures
            r@ == self@[i as int],
    {
        proof {
            assert(views_of(self.entries@)[i as int] == self.entries@[i as int]@);
        }
        &self.entries[i]
    }
}

} // verus!
