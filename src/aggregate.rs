use vstd::prelude::*;
use crate::extract::{column_pairs, pair_fields, somes};

verus! {

/// How many entries of `s` equal `a`.
pub open spec fn occurrences<A>(s: Seq<A>, a: A) -> nat
    decreases s.len(),
{
    if s.len() == 0 {
        0
    } else {
        occurrences(s.drop_last(), a) + if s.last() == a { 1nat } else { 0nat }
    }
}

/// The first component of each pair.
pub open spec fn firsts<A, B>(s: Seq<(A, B)>) -> Seq<A> {
    s.map_values(|p: (A, B)| p.0)
}

/// `keys` and `counts` together tally `obs`: the keys are the distinct
/// values of `obs`, each once, and each count is how often its key occurs.
pub open spec fn is_tally<K>(obs: Seq<K>, keys: Seq<K>, counts: Seq<usize>) -> bool {
    &&& keys.len() == counts.len()
    &&& forall|k1: int, k2: int| 0 <= k1 < k2 < keys.len() ==> keys[k1] != keys[k2]
    &&& forall|k: int|
        0 <= k < keys.len() ==> counts[k] as nat == occurrences(obs, keys[k]) && counts[k] >= 1
    &&& forall|j: int| 0 <= j < obs.len() ==> keys.contains(#[trigger] obs[j])
}

pub proof fn lemma_occurrences_push<A>(s: Seq<A>, e: A, a: A)
    ensures
        occurrences(s.push(e), a) == occurrences(s, a) + if e == a { 1nat } else { 0nat },
{
    assert(s.push(e).drop_last() =~= s);
}

pub proof fn lemma_occurrences_bound<A>(s: Seq<A>, a: A)
    ensures
        occurrences(s, a) <= s.len(),
    decreases s.len(),
{
    if s.len() > 0 {
        lemma_occurrences_bound(s.drop_last(), a);
    }
}

/// One step of a tally: `e` is counted in, under its key if it has one,
/// else under a new key at the end.
proof fn lemma_tally_step<K>(
    obs: Seq<K>,
    keys: Seq<K>,
    counts: Seq<usize>,
    e: K,
    keys2: Seq<K>,
    counts2: Seq<usize>,
)
    requires
        is_tally(obs, keys, counts),
        (exists|k: int|
            0 <= k < keys.len() && keys[k] == e && keys2 == keys && counts2 == counts.update(
                k,
                (counts[k] + 1) as usize,
            ) && counts[k] + 1 <= usize::MAX) || ((forall|k: int| 0 <= k < keys.len() ==> keys[k] != e)
            && keys2 == keys.push(e) && counts2 == counts.push(1)),
    ensures
        is_tally(obs.push(e), keys2, counts2),
{
    assert forall|k: int| 0 <= k < keys2.len() implies counts2[k] as nat == occurrences(
        obs.push(e),
        keys2[k],
    ) && counts2[k] >= 1 by {
        lemma_occurrences_push(obs, e, keys2[k]);
        if k == keys.len() {
            assert(occurrences(obs, e) == 0) by {
                if occurrences(obs, e) > 0 {
                    lemma_occurrence_witness(obs, e);
                }
            }
        }
    }
    assert forall|j: int| 0 <= j < obs.push(e).len() implies keys2.contains(#[trigger] obs.push(e)[j]) by {
        if j < obs.len() {
            assert(keys.contains(obs[j]));
            let k = choose|k: int| 0 <= k < keys.len() && keys[k] == obs[j];
            assert(keys2[k] == obs.push(e)[j]);
        } else {
            if keys2 == keys.push(e) {
                assert(keys2[keys.len() as int] == e);
            } else {
                let k = choose|k: int|
                    0 <= k < keys.len() && keys[k] == e && keys2 == keys && counts2 == counts.update(
                        k,
                        (counts[k] + 1) as usize,
                    ) && counts[k] + 1 <= usize::MAX;
                assert(keys2[k] == obs.push(e)[j]);
            }
        }
    }
}

/// A value that occurs has a position.
proof fn lemma_occurrence_witness<A>(s: Seq<A>, a: A)
    requires
        occurrences(s, a) > 0,
    ensures
        exists|j: int| 0 <= j < s.len() && s[j] == a,
    decreases s.len(),
{
    if s.last() == a {
        assert(s[s.len() - 1] == a);
    } else {
        lemma_occurrence_witness(s.drop_last(), a);
        let j = choose|j: int| 0 <= j < s.len() - 1 && s.drop_last()[j] == a;
        assert(s[j] == a);
    }
}

/// Position of the key `(x, y)` among `keys`, if it is there.
fn position_of_pair(keys: &Vec<(String, String)>, x: &String, y: &String) -> (r: Option<usize>)
    ensures
        match r {
            Some(k) => k < keys.len() && keys.deep_view()[k as int] == (x@, y@),
            None => forall|k: int| 0 <= k < keys.len() ==> keys.deep_view()[k] != (x@, y@),
        },
{
    let mut k: usize = 0;
    while k < keys.len()
        invariant
            0 <= k <= keys.len(),
            forall|j: int| 0 <= j < k ==> keys.deep_view()[j] != (x@, y@),
        decreases keys.len() - k,
    {
        if keys[k].0 == *x && keys[k].1 == *y {
            return Some(k);
        }
        k += 1;
    }
    None
}

/// Position of `x` among `keys`, if it is there.
fn position_of(keys: &Vec<String>, x: &String) -> (r: Option<usize>)
    ensures
        match r {
            Some(k) => k < keys.len() && keys.deep_view()[k as int] == x@,
            None => forall|k: int| 0 <= k < keys.len() ==> keys.deep_view()[k] != x@,
        },
{
    let mut k: usize = 0;
    while k < keys.len()
        invariant
            0 <= k <= keys.len(),
            forall|j: int| 0 <= j < k ==> keys.deep_view()[j] != x@,
        decreases keys.len() - k,
    {
        if keys[k] == *x {
            return Some(k);
        }
        k += 1;
    }
    None
}

/// Counts each distinct pair of `obs`, keys in order of first appearance.
fn tally_pairs(obs: &Vec<(String, String)>) -> (r: (Vec<(String, String)>, Vec<usize>))
    ensures
        is_tally(obs.deep_view(), r.0.deep_view(), r.1@),
{
    let mut keys: Vec<(String, String)> = Vec::new();
    let mut counts: Vec<usize> = Vec::new();
    let mut i: usize = 0;
    proof {
        assert(obs.deep_view().take(0) =~= Seq::<(Seq<char>, Seq<char>)>::empty());
    }
    while i < obs.len()
        invariant
            0 <= i <= obs.len(),
            is_tally(obs.deep_view().take(i as int), keys.deep_view(), counts@),
        decreases obs.len() - i,
    {
        let ghost prefix = obs.deep_view().take(i as int);
        let ghost old_keys = keys.deep_view();
        let ghost old_counts = counts@;
        let ghost e = obs.deep_view()[i as int];
        assert(obs.deep_view().take(i + 1) =~= prefix.push(e));
        match position_of_pair(&keys, &obs[i].0, &obs[i].1) {
            Some(k) => {
                proof {
                    lemma_occurrences_bound(prefix, e);
                }
                let c = counts[k] + 1;
                counts.set(k, c);
                proof {
                    lemma_tally_step(prefix, old_keys, old_counts, e, keys.deep_view(), counts@);
                }
            },
            None => {
                keys.push((obs[i].0.clone(), obs[i].1.clone()));
                counts.push(1);
                proof {
                    assert(keys.deep_view() =~= old_keys.push(e));
                    lemma_tally_step(prefix, old_keys, old_counts, e, keys.deep_view(), counts@);
                }
            },
        }
        i += 1;
    }
    assert(obs.deep_view().take(obs.len() as int) =~= obs.deep_view());
    (keys, counts)
}

/// Counts each distinct first component of `obs`, keys in order of first
/// appearance.
fn tally_firsts(obs: &Vec<(String, String)>) -> (r: (Vec<String>, Vec<usize>))
    ensures
        is_tally(firsts(obs.deep_view()), r.0.deep_view(), r.1@),
{
    let ghost all = firsts(obs.deep_view());
    let mut keys: Vec<String> = Vec::new();
    let mut counts: Vec<usize> = Vec::new();
    let mut i: usize = 0;
    proof {
        assert(all.take(0) =~= Seq::<Seq<char>>::empty());
    }
    while i < obs.len()
        invariant
            0 <= i <= obs.len(),
            all == firsts(obs.deep_view()),
            is_tally(all.take(i as int), keys.deep_view(), counts@),
        decreases obs.len() - i,
    {
        let ghost prefix = all.take(i as int);
        let ghost old_keys = keys.deep_view();
        let ghost old_counts = counts@;
        let ghost e = all[i as int];
        assert(all.take(i + 1) =~= prefix.push(e));
        match position_of(&keys, &obs[i].0) {
            Some(k) => {
                proof {
                    lemma_occurrences_bound(prefix, e);
                }
                let c = counts[k] + 1;
                counts.set(k, c);
                proof {
                    lemma_tally_step(prefix, old_keys, old_counts, e, keys.deep_view(), counts@);
                }
            },
            None => {
                keys.push(obs[i].0.clone());
                counts.push(1);
                proof {
                    assert(keys.deep_view() =~= old_keys.push(e));
                    lemma_tally_step(prefix, old_keys, old_counts, e, keys.deep_view(), counts@);
                }
            },
        }
        i += 1;
    }
    assert(all.take(obs.len() as int) =~= all);
    (keys, counts)
}

/// The (category, subcategory) pairs that the records hold in columns `xi`
/// and `yi`, in record order; records without both fields are left out.
pub open spec fn observed_pairs(records: Seq<Option<Seq<Seq<char>>>>, xi: int, yi: int) -> Seq<
    (Seq<char>, Seq<char>),
> {
    somes(pair_fields(records, xi, yi))
}

/// Occurrence counts of (category, subcategory) pairs and of categories.
#[derive(Debug)]
pub struct CategoryCounts {
    /// Each distinct (category, subcategory) pair, in order of first appearance.
    pub pair_keys: Vec<(String, String)>,
    /// How often the pair at the same position occurs.
    pub pair_counts: Vec<usize>,
    /// Each distinct category, in order of first appearance.
    pub categories: Vec<String>,
    /// How often the category at the same position occurs.
    pub category_counts: Vec<usize>,
}

impl CategoryCounts {
    /// The counts tally the pairs `obs`.
    pub open spec fn tallies(&self, obs: Seq<(Seq<char>, Seq<char>)>) -> bool {
        &&& is_tally(obs, self.pair_keys.deep_view(), self.pair_counts@)
        &&& is_tally(firsts(obs), self.categories.deep_view(), self.category_counts@)
    }

    /// Keys and counts line up.
    pub open spec fn wf(&self) -> bool {
        &&& self.pair_keys.len() == self.pair_counts.len()
        &&& self.categories.len() == self.category_counts.len()
    }

    /// The largest category count: the top of the bar chart's value axis;
    /// 0 where there are no categories.
    pub fn max_frequency(&self) -> (r: usize)
        ensures
            forall|k: int| 0 <= k < self.category_counts.len() ==> self.category_counts[k] <= r,
            self.category_counts.len() == 0 ==> r == 0,
            self.category_counts.len() > 0 ==> self.category_counts@.contains(r),
    {
        let mut best: usize = 0;
        let mut i: usize = 0;
        while i < self.category_counts.len()
            invariant
                0 <= i <= self.category_counts.len(),
                forall|k: int| 0 <= k < i ==> self.category_counts[k] <= best,
                i == 0 ==> best == 0,
                i > 0 ==> self.category_counts@.contains(best),
            decreases self.category_counts.len() - i,
        {
            if i == 0 || self.category_counts[i] > best {
                best = self.category_counts[i];
                assert(self.category_counts@[i as int] == best);
            }
            i += 1;
        }
        best
    }

    /// One (category, count, subcategory) row per distinct pair, in the
    /// order of `pair_keys`: the segments of the stacked bars.
    pub fn bar_rows(&self) -> (r: Vec<(String, usize, String)>)
        requires
            self.wf(),
        ensures
            r.len() == self.pair_keys.len(),
            forall|k: int|
                0 <= k < r.len() ==> #[trigger] r.deep_view()[k] == (
                    self.pair_keys.deep_view()[k].0,
                    self.pair_counts[k],
                    self.pair_keys.deep_view()[k].1,
                ),
    {
        let mut out: Vec<(String, usize, String)> = Vec::new();
        let mut i: usize = 0;
        while i < self.pair_keys.len()
            invariant
                0 <= i <= self.pair_keys.len(),
                self.wf(),
                out.len() == i,
                forall|k: int|
                    0 <= k < i ==> #[trigger] out.deep_view()[k] == (
                        self.pair_keys.deep_view()[k].0,
                        self.pair_counts[k],
                        self.pair_keys.deep_view()[k].1,
                    ),
            decreases self.pair_keys.len() - i,
        {
            let ghost before = out.deep_view();
            out.push((self.pair_keys[i].0.clone(), self.pair_counts[i], self.pair_keys[i].1.clone()));
            assert(out.deep_view() =~= before.push(
                (self.pair_keys.deep_view()[i as int].0, self.pair_counts[i as int], self.pair_keys.deep_view()[i as int].1),
            ));
            i += 1;
        }
        out
    }
}

/// Counts the (category, subcategory) pairs of columns `xi` and `yi`, and
/// the categories alone, over the records that were read and hold both
/// fields.
pub fn count_categories(records: &Vec<Option<Vec<String>>>, xi: usize, yi: usize) -> (r:
    CategoryCounts)
    ensures
        r.wf(),
        r.tallies(observed_pairs(records.deep_view(), xi as int, yi as int)),
{
    let obs = column_pairs(records, xi, yi);
    let (pair_keys, pair_counts) = tally_pairs(&obs);
    let (categories, category_counts) = tally_firsts(&obs);
    CategoryCounts { pair_keys, pair_counts, categories, category_counts }
}

/// `keys` holds `k` with the count `c` beside it.
pub open spec fn counted_as<K>(keys: Seq<K>, counts: Seq<usize>, k: K, c: usize) -> bool {
    exists|j: int| 0 <= j < keys.len() && keys[j] == k && counts[j] == c
}

/// A tally is determined by what it counts: two tallies of the same values
/// hold the same keys, each with the same count.
pub proof fn lemma_tally_determined<K>(
    obs: Seq<K>,
    keys1: Seq<K>,
    counts1: Seq<usize>,
    keys2: Seq<K>,
    counts2: Seq<usize>,
)
    requires
        is_tally(obs, keys1, counts1),
        is_tally(obs, keys2, counts2),
    ensures
        keys1.to_set() == keys2.to_set(),
        forall|i: int|
            0 <= i < keys1.len() ==> #[trigger] counted_as(keys2, counts2, keys1[i], counts1[i]),
{
    assert forall|i: int| 0 <= i < keys1.len() implies #[trigger] counted_as(
        keys2,
        counts2,
        keys1[i],
        counts1[i],
    ) by {
        lemma_tally_key_in_other(obs, keys1, counts1, keys2, counts2, i);
    }
    assert forall|x: K| keys1.to_set().contains(x) implies keys2.to_set().contains(x) by {
        let i = choose|i: int| 0 <= i < keys1.len() && keys1[i] == x;
        lemma_tally_key_in_other(obs, keys1, counts1, keys2, counts2, i);
    }
    assert forall|x: K| keys2.to_set().contains(x) implies keys1.to_set().contains(x) by {
        let i = choose|i: int| 0 <= i < keys2.len() && keys2[i] == x;
        lemma_tally_key_in_other(obs, keys2, counts2, keys1, counts1, i);
    }
    assert(keys1.to_set() =~= keys2.to_set());
}

proof fn lemma_tally_key_in_other<K>(
    obs: Seq<K>,
    keys1: Seq<K>,
    counts1: Seq<usize>,
    keys2: Seq<K>,
    counts2: Seq<usize>,
    i: int,
)
    requires
        is_tally(obs, keys1, counts1),
        is_tally(obs, keys2, counts2),
        0 <= i < keys1.len(),
    ensures
        counted_as(keys2, counts2, keys1[i], counts1[i]),
{
    assert(counts1[i] as nat == occurrences(obs, keys1[i]) && counts1[i] >= 1);
    lemma_occurrence_witness(obs, keys1[i]);
    let p = choose|p: int| 0 <= p < obs.len() && obs[p] == keys1[i];
    assert(keys2.contains(obs[p]));
    let j = choose|j: int| 0 <= j < keys2.len() && keys2[j] == obs[p];
    assert(counts2[j] as nat == occurrences(obs, keys2[j]));
}

/// Nothing observed, nothing counted.
pub proof fn lemma_tally_of_nothing<K>(keys: Seq<K>, counts: Seq<usize>)
    requires
        is_tally(Seq::<K>::empty(), keys, counts),
    ensures
        keys.len() == 0,
        counts.len() == 0,
{
    if keys.len() > 0 {
        assert(counts[0] as nat == occurrences(Seq::<K>::empty(), keys[0]));
    }
}

} // verus!
