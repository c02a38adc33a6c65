//! Network activity that counts towards a page's quiescence: a URL that the
//! page keeps requesting (polling, say) only counts its first few times.
use vstd::prelude::*;

verus! {

/// How many requests of one URL count as activity.
pub const MAX_HITS_PER_URL: u32 = 3;

/// How often each URL was requested, counted up to one past the limit.
pub struct UrlHits {
    counts: Vec<(String, u32)>,
}

/// The counts of a list of entries, as a map from URL to count.
pub open spec fn counts_map(entries: Seq<(String, u32)>) -> Map<Seq<char>, nat>
    decreases entries.len(),
{
    if entries.len() == 0 {
        Map::empty()
    } else {
        let last = entries.last();
        counts_map(entries.drop_last()).insert(last.0@, last.1 as nat)
    }
}

/// No URL has two entries.
pub open spec fn distinct_urls(entries: Seq<(String, u32)>) -> bool {
    forall|i: int, j: int| 0 <= i < j < entries.len() ==> (#[trigger] entries[i]).0@ != (#[trigger] entries[j]).0@
}

/// The count of a URL in the map, zero when absent.
pub open spec fn hits_of(counts: Map<Seq<char>, nat>, url: Seq<char>) -> nat {
    if counts.contains_key(url) { counts[url] } else { 0 }
}

proof fn lemma_counts_map_entry(entries: Seq<(String, u32)>, i: int)
    requires
        distinct_urls(entries),
        0 <= i < entries.len(),
    ensures
        counts_map(entries).contains_key(entries[i].0@),
        counts_map(entries)[entries[i].0@] == entries[i].1 as nat,
    decreases entries.len(),
{
    if i < entries.len() - 1 {
        lemma_counts_map_entry(entries.drop_last(), i);
    }
}

proof fn lemma_counts_map_absent(entries: Seq<(String, u32)>, url: Seq<char>)
    requires
        forall|i: int| 0 <= i < entries.len() ==> (#[trigger] entries[i]).0@ != url,
    ensures
        !counts_map(entries).contains_key(url),
    decreases entries.len(),
{
    if entries.len() > 0 {
        lemma_counts_map_absent(entries.drop_last(), url);
    }
}

proof fn lemma_counts_map_update(entries: Seq<(String, u32)>, i: int, count: u32)
    requires
        distinct_urls(entries),
        0 <= i < entries.len(),
    ensures
        counts_map(entries.update(i, (entries[i].0, count))) == counts_map(entries).insert(entries[i].0@, count as nat),
    decreases entries.len(),
{
    let updated = entries.update(i, (entries[i].0, count));
    if i == entries.len() - 1 {
        assert(updated.drop_last() =~= entries.drop_last());
        assert(counts_map(entries).insert(entries[i].0@, count as nat) =~= counts_map(entries.drop_last()).insert(
            entries[i].0@,
            count as nat,
        ));
    } else {
        lemma_counts_map_update(entries.drop_last(), i, count);
        assert(updated.drop_last() =~= entries.drop_last().update(i, (entries[i].0, count)));
        assert(counts_map(updated) =~= counts_map(entries).insert(entries[i].0@, count as nat));
    }
}

impl UrlHits {
    /// The counts, by URL.
    pub closed spec fn view(&self) -> Map<Seq<char>, nat> {
        counts_map(self.counts@)
    }

    #[verifier::type_invariant]
    closed spec fn well_formed(self) -> bool {
        distinct_urls(self.counts@)
    }

    /// No URL counted yet.
    pub fn new() -> (r: Self)
        ensures
            r.view() == Map::<Seq<char>, nat>::empty(),
    {
        UrlHits { counts: Vec::new() }
    }

    /// Counts one more request of `url`, and answers whether it still
    /// counts as activity: whether it is among the first
    /// [MAX_HITS_PER_URL] requests of the URL.
    pub fn record_hit(&mut self, url: String) -> (r: bool)
        ensures
            r == (hits_of(old(self).view(), url@) < MAX_HITS_PER_URL),
            final(self).view() == old(self).view().insert(
                url@,
                if hits_of(old(self).view(), url@) <= MAX_HITS_PER_URL {
                    hits_of(old(self).view(), url@) + 1
                } else {
                    hits_of(old(self).view(), url@)
                },
            ),
    {
        proof {
            use_type_invariant(&*self);
        }
        let mut i: usize = 0;
        while i < self.counts.len()
            invariant
                i <= self.counts@.len(),
                distinct_urls(self.counts@),
                self.counts@ == old(self).counts@,
                forall|j: int| 0 <= j < i ==> (#[trigger] self.counts@[j]).0@ != url@,
            decreases self.counts@.len() - i,
        {
            if self.counts[i].0.eq(&url) {
                let count = self.counts[i].1;
                proof {
                    lemma_counts_map_entry(self.counts@, i as int);
                }
                let next = if count <= MAX_HITS_PER_URL { count + 1 } else { count };
                let key = self.counts[i].0.clone();
                let ghost before = self.counts@;
                let mut counts: Vec<(String, u32)> = Vec::new();
                std::mem::swap(&mut counts, &mut self.counts);
                counts.set(i, (key, next));
                proof {
                    lemma_counts_map_update(before, i as int, next);
                    assert(counts@ == before.update(i as int, (before[i as int].0, next)));
                    assert forall|a: int, b: int| 0 <= a < b < counts@.len() implies (#[trigger] counts@[a]).0@
                        != (#[trigger] counts@[b]).0@ by {
                        assert(counts@[a].0@ == before[a].0@);
                        assert(counts@[b].0@ == before[b].0@);
                    }
                }
                self.counts = counts;
                return count < MAX_HITS_PER_URL;
            }
            i = i + 1;
        }
        proof {
            lemma_counts_map_absent(self.counts@, url@);
        }
        let ghost before = self.counts@;
        let mut counts: Vec<(String, u32)> = Vec::new();
                std::mem::swap(&mut counts, &mut self.counts);
        counts.push((url, 1));
        proof {
            assert(counts@.drop_last() =~= before);
            assert forall|a: int, b: int| 0 <= a < b < counts@.len() implies (#[trigger] counts@[a]).0@
                != (#[trigger] counts@[b]).0@ by {
                if b < before.len() {
                    assert(counts@[a] == before[a]);
                    assert(counts@[b] == before[b]);
                }
            }
        }
        self.counts = counts;
        true
    }
}

} // verus!
