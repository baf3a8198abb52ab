//! Ordering a score list by one of the sort choices of the score
//! commands. Every choice orders by one value of the score, largest first except
//! for `Oldest`; scores with equal keys keep their order.

use vstd::prelude::*;

verus! {

/// How a score list can be ordered.
#[derive(Debug, Clone, Copy, PartialEq, Eq, Structural)]
pub enum SortChoices {
    Recent,
    Oldest,
    Accuracy,
    Combo,
    Score,
    PP,
    Bpm,
    Stars,
    Length,
    Misses,
}

/// Whether a choice puts the largest key first.
pub open spec fn largest_first(c: SortChoices) -> bool {
    c != SortChoices::Oldest
}

/// Whether entry `i` comes before entry `j`: its key comes first in the
/// chosen direction, or the keys are equal and it came first before.
pub open spec fn comes_before(keys: Seq<i64>, largest: bool, i: int, j: int) -> bool {
    if largest {
        keys[i] > keys[j] || (keys[i] == keys[j] && i < j)
    } else {
        keys[i] < keys[j] || (keys[i] == keys[j] && i < j)
    }
}

/// `p` lists the entries `0..keys.len()` in sorted order: each entry
/// once, every pair in the order of `comes_before`.
pub open spec fn sorts(keys: Seq<i64>, largest: bool, p: Seq<usize>) -> bool {
    &&& p.len() == keys.len()
    &&& forall|k: int| 0 <= k < p.len() ==> p[k] < keys.len()
    &&& forall|a: int, b: int|
        0 <= a < b < p.len() ==> #[trigger] comes_before(keys, largest, p[a] as int, p[b] as int)
}

/// The sort order of the keys (there is exactly one, see
/// `lemma_sorts_unique`).
pub open spec fn sorted_order(keys: Seq<i64>, largest: bool) -> Seq<usize> {
    choose|p: Seq<usize>| sorts(keys, largest, p)
}

fn comes_before_exec(keys: &Vec<i64>, largest: bool, i: usize, j: usize) -> (r: bool)
    requires
        i < keys@.len(),
        j < keys@.len(),
    ensures
        r == comes_before(keys@, largest, i as int, j as int),
{
    if largest {
        keys[i] > keys[j] || (keys[i] == keys[j] && i < j)
    } else {
        keys[i] < keys[j] || (keys[i] == keys[j] && i < j)
    }
}

/// The positions of the entries in sorted order: a stable sort of the
/// keys, largest first when `largest` holds.
pub fn sort_order(keys: &Vec<i64>, largest: bool) -> (p: Vec<usize>)
    ensures
        sorts(keys@, largest, p@),
        p@ == sorted_order(keys@, largest),
{
    let n = keys.len();
    let mut r: Vec<usize> = Vec::new();
    let mut i: usize = 0;
    while i < n
        invariant
            n == keys@.len(),
            i <= n,
            r@.len() == i,
            forall|k: int| 0 <= k < r@.len() ==> r@[k] < i,
            forall|a: int, b: int|
                0 <= a < b < r@.len() ==> #[trigger] comes_before(
                    keys@,
                    largest,
                    r@[a] as int,
                    r@[b] as int,
                ),
        decreases n - i,
    {
        let mut j: usize = 0;
        let mut found = false;
        while j < r.len() && !found
            invariant
                n == keys@.len(),
                i < n,
                r@.len() == i,
                j <= r@.len(),
                forall|k: int| 0 <= k < r@.len() ==> r@[k] < i,
                forall|k: int| 0 <= k < j ==> comes_before(keys@, largest, r@[k] as int, i as int),
                found ==> j < r@.len() && comes_before(keys@, largest, i as int, r@[j as int] as int),
            decreases r@.len() - j + (if found { 0int } else { 1int }),
        {
            if comes_before_exec(keys, largest, i, r[j]) {
                found = true;
            } else {
                j = j + 1;
            }
        }
        let ghost old_r = r@;
        proof {
            assert forall|k: int| j <= k < old_r.len() implies comes_before(
                keys@,
                largest,
                i as int,
                old_r[k] as int,
            ) by {
                if k > j {
                    assert(comes_before(keys@, largest, old_r[j as int] as int, old_r[k] as int));
                }
            }
        }
        r.insert(j, i);
        proof {
            assert forall|a: int, b: int| 0 <= a < b < r@.len() implies #[trigger] comes_before(
                keys@,
                largest,
                r@[a] as int,
                r@[b] as int,
            ) by {
                if b < j {
                    assert(comes_before(keys@, largest, old_r[a] as int, old_r[b] as int));
                } else if b == j {
                    assert(r@[a] == old_r[a]);
                } else if a < j {
                    assert(r@[b] == old_r[b - 1]);
                    assert(comes_before(keys@, largest, old_r[a] as int, i as int));
                } else if a == j {
                    assert(r@[b] == old_r[b - 1]);
                } else {
                    assert(comes_before(keys@, largest, old_r[a - 1] as int, old_r[b - 1] as int));
                }
            }
        }
        i = i + 1;
    }
    proof {
        lemma_sorts_unique(keys@, largest, r@, sorted_order(keys@, largest));
    }
    r
}

/// Entries of a sort order are distinct.
proof fn lemma_sorts_distinct(keys: Seq<i64>, largest: bool, p: Seq<usize>, a: int, b: int)
    requires
        sorts(keys, largest, p),
        0 <= a < p.len(),
        0 <= b < p.len(),
        a != b,
    ensures
        p[a] != p[b],
{
    if a < b {
        assert(comes_before(keys, largest, p[a] as int, p[b] as int));
    } else {
        assert(comes_before(keys, largest, p[b] as int, p[a] as int));
    }
}

/// A sort order lists every entry.
proof fn lemma_sorts_covers(keys: Seq<i64>, largest: bool, p: Seq<usize>, x: usize)
    requires
        sorts(keys, largest, p),
        x < keys.len(),
    ensures
        p.contains(x),
{
    let n = keys.len() as int;
    let s = p.map_values(|v: usize| v as int);
    assert(s.no_duplicates()) by {
        assert forall|i: int, j: int| 0 <= i < s.len() && 0 <= j < s.len() && i != j implies s[i]
            != s[j] by {
            lemma_sorts_distinct(keys, largest, p, i, j);
        }
    }
    s.unique_seq_to_set();
    vstd::set_lib::lemma_int_range(0, n);
    let range = vstd::set_lib::set_int_range(0, n);
    assert(s.to_set().subset_of(range)) by {
        assert forall|v: int| s.to_set().contains(v) implies range.contains(v) by {
            let i = choose|i: int| 0 <= i < s.len() && s[i] == v;
            assert(p[i] < keys.len());
        }
    }
    vstd::seq_lib::seq_to_set_is_finite(s);
    vstd::set_lib::lemma_subset_equality(s.to_set(), range);
    assert(range.contains(x as int));
    assert(s.to_set().contains(x as int));
    let i = choose|i: int| 0 <= i < s.len() && s[i] == x as int;
    assert(p[i] == x);
}

/// Two entries never come before each other.
proof fn lemma_comes_before_asymmetric(keys: Seq<i64>, largest: bool, a: int, b: int)
    ensures
        !(comes_before(keys, largest, a, b) && comes_before(keys, largest, b, a)),
{
}

/// Sorting is deterministic: there is one sort order of given keys.
pub proof fn lemma_sorts_unique(keys: Seq<i64>, largest: bool, p: Seq<usize>, q: Seq<usize>)
    requires
        sorts(keys, largest, p),
        sorts(keys, largest, q),
    ensures
        p == q,
{
    lemma_sorts_prefix(keys, largest, p, q, p.len() as int);
    assert(p =~= q);
}

proof fn lemma_sorts_prefix(keys: Seq<i64>, largest: bool, p: Seq<usize>, q: Seq<usize>, k: int)
    requires
        sorts(keys, largest, p),
        sorts(keys, largest, q),
        0 <= k <= p.len(),
    ensures
        forall|i: int| 0 <= i < k ==> p[i] == q[i],
    decreases k,
{
    if k > 0 {
        lemma_sorts_prefix(keys, largest, p, q, k - 1);
        let i = k - 1;
        let a = p[i];
        let b = q[i];
        if a != b {
            lemma_sorts_covers(keys, largest, p, b);
            lemma_sorts_covers(keys, largest, q, a);
            let j = choose|j: int| 0 <= j < p.len() && p[j] == b;
            let m = choose|m: int| 0 <= m < q.len() && q[m] == a;
            if j < i {
                assert(q[j] == b);
                lemma_sorts_distinct(keys, largest, q, j, i);
            }
            if m < i {
                assert(p[m] == a);
                lemma_sorts_distinct(keys, largest, p, m, i);
            }
            assert(j > i);
            assert(m > i);
            assert(comes_before(keys, largest, p[i] as int, p[j] as int));
            assert(comes_before(keys, largest, q[i] as int, q[m] as int));
            lemma_comes_before_asymmetric(keys, largest, a as int, b as int);
        }
    }
}

/// What a score is ordered by. The integer fields are the score's and
/// its beatmap's own; a value that is a decimal number (accuracy, pp,
/// star rating, bpm) comes as an integer that orders as the number does
/// in its total order.
#[derive(Debug, Clone, Copy)]
pub struct SortFields {
    /// When the score was set (a Unix timestamp).
    pub ended_at: i64,
    pub max_combo: u32,
    pub score: u32,
    /// The beatmap's drain length in seconds.
    pub drain: i32,
    pub misses: u32,
    pub accuracy_order: i64,
    /// The score's pp, or the calculated pp where it has none.
    pub pp_order: i64,
    /// The star rating with the score's mods.
    pub stars_order: i64,
    /// The beatmap's bpm times the clock rate of the score's mods.
    pub bpm_order: i64,
}

/// The value a score is ordered by under a choice.
pub open spec fn sort_key_of(f: SortFields, c: SortChoices) -> i64 {
    match c {
        SortChoices::Recent => f.ended_at,
        SortChoices::Oldest => f.ended_at,
        SortChoices::Accuracy => f.accuracy_order,
        SortChoices::Combo => f.max_combo as i64,
        SortChoices::Score => f.score as i64,
        SortChoices::PP => f.pp_order,
        SortChoices::Length => f.drain as i64,
        SortChoices::Misses => f.misses as i64,
        SortChoices::Stars => f.stars_order,
        SortChoices::Bpm => f.bpm_order,
    }
}

/// The keys of the scores under a choice, one per score.
pub open spec fn keys_of(fields: Seq<SortFields>, c: SortChoices) -> Seq<i64> {
    Seq::new(fields.len(), |i: int| sort_key_of(fields[i], c))
}

/// The value a score is ordered by under a choice.
pub fn sort_key(f: &SortFields, c: SortChoices) -> (r: i64)
    ensures
        r == sort_key_of(*f, c),
{
    match c {
        SortChoices::Recent => f.ended_at,
        SortChoices::Oldest => f.ended_at,
        SortChoices::Accuracy => f.accuracy_order,
        SortChoices::Combo => f.max_combo as i64,
        SortChoices::Score => f.score as i64,
        SortChoices::PP => f.pp_order,
        SortChoices::Length => f.drain as i64,
        SortChoices::Misses => f.misses as i64,
        SortChoices::Stars => f.stars_order,
        SortChoices::Bpm => f.bpm_order,
    }
}

/// The items listed in the order `p`.
pub open spec fn arranged<T>(items: Seq<T>, p: Seq<usize>) -> Seq<T> {
    Seq::new(p.len(), |k: int| items[p[k] as int])
}

/// The direction of every sort choice: `Oldest` puts the smallest key
/// first, and each of the other choices the largest; scores with equal
/// keys keep their order.
pub proof fn lemma_sort_direction(keys: Seq<i64>, c: SortChoices, p: Seq<usize>)
    requires
        sorts(keys, largest_first(c), p),
    ensures
        c != SortChoices::Oldest ==> forall|a: int, b: int|
            0 <= a < b < p.len() ==> keys[#[trigger] p[a] as int] >= keys[#[trigger] p[b] as int],
        c == SortChoices::Oldest ==> forall|a: int, b: int|
            0 <= a < b < p.len() ==> keys[#[trigger] p[a] as int] <= keys[#[trigger] p[b] as int],
        forall|a: int, b: int|
            0 <= a < b < p.len() && keys[#[trigger] p[a] as int] == keys[#[trigger] p[b] as int] ==> p[a]
                < p[b],
{
    assert forall|a: int, b: int| 0 <= a < b < p.len() implies comes_before(
        keys,
        largest_first(c),
        #[trigger] p[a] as int,
        #[trigger] p[b] as int,
    ) by {}
}

/// What each sort choice orders by: the time the score was set for
/// `Recent` and `Oldest`, the score's own combo, score and misses, the
/// beatmap's drain length, and the order of the accuracy, pp, star rating
/// and bpm.
pub proof fn lemma_sort_keys(f: SortFields)
    ensures
        sort_key_of(f, SortChoices::Recent) == f.ended_at,
        sort_key_of(f, SortChoices::Oldest) == f.ended_at,
        sort_key_of(f, SortChoices::Accuracy) == f.accuracy_order,
        sort_key_of(f, SortChoices::Combo) == f.max_combo,
        sort_key_of(f, SortChoices::Score) == f.score,
        sort_key_of(f, SortChoices::PP) == f.pp_order,
        sort_key_of(f, SortChoices::Bpm) == f.bpm_order,
        sort_key_of(f, SortChoices::Stars) == f.stars_order,
        sort_key_of(f, SortChoices::Length) == f.drain,
        sort_key_of(f, SortChoices::Misses) == f.misses,
{
}

/// Orders the scores by the value the choice names (`fields[i]` describes
/// `scores[i]`), largest first except for `Oldest`; scores with equal
/// values keep their order.
pub fn sort_scores<T>(scores: Vec<T>, fields: &Vec<SortFields>, sort_by: SortChoices) -> (r: Vec<T>)
    requires
        fields@.len() == scores@.len(),
    ensures
        sorts(
            keys_of(fields@, sort_by),
            largest_first(sort_by),
            sorted_order(keys_of(fields@, sort_by), largest_first(sort_by)),
        ),
        r@ == arranged(scores@, sorted_order(keys_of(fields@, sort_by), largest_first(sort_by))),
        ({
            let keys = keys_of(fields@, sort_by);
            let p = sorted_order(keys, largest_first(sort_by));
            &&& sort_by != SortChoices::Oldest ==> forall|a: int, b: int|
                0 <= a < b < p.len() ==> keys[#[trigger] p[a] as int] >= keys[#[trigger] p[b] as int]
            &&& sort_by == SortChoices::Oldest ==> forall|a: int, b: int|
                0 <= a < b < p.len() ==> keys[#[trigger] p[a] as int] <= keys[#[trigger] p[b] as int]
        }),
{
    let largest = match sort_by {
        SortChoices::Oldest => false,
        _ => true,
    };
    let mut keys: Vec<i64> = Vec::new();
    let mut i: usize = 0;
    while i < fields.len()
        invariant
            i <= fields@.len(),
            keys@ == keys_of(fields@, sort_by).take(i as int),
        decreases fields@.len() - i,
    {
        keys.push(sort_key(&fields[i], sort_by));
        i = i + 1;
        assert(keys@ =~= keys_of(fields@, sort_by).take(i as int));
    }
    assert(keys@ =~= keys_of(fields@, sort_by));
    let keys = keys;
    let order = sort_order(&keys, largest);
    let n = scores.len();
    let ghost items = scores@;
    let mut source = scores;
    let mut reversed: Vec<T> = Vec::new();
    while source.len() > 0
        invariant
            source@ + reversed@.reverse() == items,
        decreases source@.len(),
    {
        let ghost before_s = source@;
        let ghost before_r = reversed@;
        let x = source.pop().unwrap();
        reversed.push(x);
        proof {
            assert(reversed@.reverse() =~= seq![x] + before_r.reverse());
            assert(before_s =~= source@.push(x));
        }
    }
    let mut slots: Vec<Option<T>> = Vec::new();
    while reversed.len() > 0
        invariant
            slots@.len() + reversed@.len() == items.len(),
            forall|k: int| 0 <= k < slots@.len() ==> slots@[k] == Some(items[k]),
            forall|k: int|
                0 <= k < reversed@.len() ==> reversed@[k] == items[items.len() - 1 - k],
        decreases reversed@.len(),
    {
        let x = reversed.pop().unwrap();
        slots.push(Some(x));
    }
    let mut r: Vec<T> = Vec::new();
    let mut k: usize = 0;
    while k < n
        invariant
            n == items.len(),
            n == keys@.len(),
            sorts(keys@, largest, order@),
            slots@.len() == n,
            k <= n,
            r@ == arranged(items, order@.take(k as int)),
            forall|m: int| k <= m < n ==> slots@[order@[m] as int] == Some(items[order@[m] as int]),
        decreases n - k,
    {
        let idx = order[k];
        let mut taken: Option<T> = None;
        std::mem::swap(&mut taken, &mut slots[idx]);
        proof {
            assert forall|m: int| k + 1 <= m < n implies slots@[order@[m] as int] == Some(
                items[order@[m] as int],
            ) by {
                lemma_sorts_distinct(keys@, largest, order@, k as int, m);
            }
        }
        if let Some(x) = taken {
            r.push(x);
        }
        k = k + 1;
        assert(r@ =~= arranged(items, order@.take(k as int)));
    }
    assert(order@.take(n as int) =~= order@);
    assert(largest == largest_first(sort_by));
    proof {
        lemma_sort_direction(keys@, sort_by, order@);
    }
    r
}

} // verus!
