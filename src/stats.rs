//! Median and mode of a list of integers.
use vstd::prelude::*;

verus! {

/// `s` is in ascending order.
pub open spec fn ascending(s: Seq<i32>) -> bool {
    forall|i: int, j: int| 0 <= i < j < s.len() ==> s[i] <= s[j]
}

/// How often `x` occurs in `s`.
pub open spec fn count_of(s: Seq<i32>, x: i32) -> nat {
    s.to_multiset().count(x)
}

/// `m` is a most frequent value of `s`, the smallest of them where several
/// occur equally often.
pub open spec fn is_mode(s: Seq<i32>, m: i32) -> bool {
    &&& s.contains(m)
    &&& forall|x: i32| count_of(s, x) <= count_of(s, m)
    &&& forall|x: i32| count_of(s, x) == count_of(s, m) ==> m <= x
}

/// A list of integers in ascending order, with its median and mode.
#[derive(Debug)]
pub struct Data {
    pub data: Vec<i32>,
    pub median: i32,
    pub mode: i32,
}

/// Puts `x` into the ascending list `v`, after the values not above it.
fn insert_in_order(v: &mut Vec<i32>, x: i32)
    requires
        ascending(old(v)@),
    ensures
        ascending(final(v)@),
        final(v)@.to_multiset() == old(v)@.to_multiset().insert(x),
{
    broadcast use vstd::seq_lib::group_to_multiset_ensures, vstd::multiset::group_multiset_axioms;

    let mut i: usize = 0;
    while i < v.len() && v[i] <= x
        invariant
            i <= v@.len(),
            forall|j: int| 0 <= j < i ==> v@[j] <= x,
        decreases v@.len() - i,
    {
        i = i + 1;
    }
    let ghost before = v@;
    v.insert(i, x);
    assert(v@ == before.insert(i as int, x));
    assert forall|a: int, b: int| 0 <= a < b < v@.len() implies v@[a] <= v@[b] by {
        if b < i {
        } else if b == i {
        } else if a < i {
            assert(v@[b] == before[b - 1]);
        } else if a == i {
            assert(v@[b] == before[b - 1]);
            assert(before[i as int] > x);
        } else {
            assert(v@[a] == before[a - 1] && v@[b] == before[b - 1]);
        }
    }
}

/// How often `x` occurs in `v`.
fn count(v: &Vec<i32>, x: i32) -> (r: usize)
    ensures
        r == count_of(v@, x),
{
    broadcast use vstd::seq_lib::group_to_multiset_ensures, vstd::multiset::group_multiset_axioms;

    let mut c: usize = 0;
    let mut j: usize = 0;
    assert(v@.take(0) =~= Seq::<i32>::empty());
    while j < v.len()
        invariant
            j <= v@.len(),
            c == count_of(v@.take(j as int), x),
            c <= j,
        decreases v@.len() - j,
    {
        assert(v@.take(j + 1) =~= v@.take(j as int).push(v@[j as int]));
        proof {
            vstd::seq_lib::to_multiset_build(v@.take(j as int), v@[j as int]);
        }
        if v[j] == x {
            c = c + 1;
        }
        j = j + 1;
    }
    assert(v@.take(j as int) =~= v@);
    c
}

impl Data {
    /// Sorts `data_vec` in place and describes it: the median is the middle
    /// value of the sorted list (the upper of the two middle ones for an even
    /// length), and the mode is the most frequent value, the smallest of them
    /// on a tie. The list must not be empty.
    pub fn new(data_vec: &mut Vec<i32>) -> (r: Data)
        requires
            old(data_vec)@.len() > 0,
        ensures
            final(data_vec)@.to_multiset() == old(data_vec)@.to_multiset(),
            ascending(final(data_vec)@),
            r.data@ == final(data_vec)@,
            r.median == final(data_vec)@[(final(data_vec)@.len() / 2) as int],
            is_mode(old(data_vec)@, r.mode),
    {
        broadcast use vstd::seq_lib::group_to_multiset_ensures, vstd::multiset::group_multiset_axioms;

        let ghost original = data_vec@;
        let n = data_vec.len();
        // the mode: for each value, how often it occurs
        let mut mode = data_vec[0];
        let mut best = count(data_vec, mode);
        let mut i: usize = 1;
        while i < n
            invariant
                n == data_vec@.len(),
                data_vec@ == original,
                1 <= i <= n,
                original.contains(mode),
                best == count_of(original, mode),
                forall|j: int| 0 <= j < i ==> count_of(original, #[trigger] original[j]) <= best,
                forall|j: int|
                    0 <= j < i && count_of(original, #[trigger] original[j]) == best ==> mode
                        <= original[j],
            decreases n - i,
        {
            let x = data_vec[i];
            let c = count(data_vec, x);
            if c > best || (c == best && x < mode) {
                mode = x;
                best = c;
            }
            i = i + 1;
        }
        assert forall|x: i32| count_of(original, x) <= count_of(original, mode) by {
            if count_of(original, x) > 0 {
                let j = choose|j: int| 0 <= j < original.len() && original[j] == x;
            }
        }
        assert forall|x: i32| count_of(original, x) == count_of(original, mode) implies mode
            <= x by {
            assert(count_of(original, mode) > 0);
            let j = choose|j: int| 0 <= j < original.len() && original[j] == x;
        }
        // the sorted list
        let mut sorted: Vec<i32> = Vec::new();
        let mut k: usize = 0;
        assert(original.take(0) =~= Seq::<i32>::empty());
        while k < n
            invariant
                n == data_vec@.len(),
                data_vec@ == original,
                k <= n,
                ascending(sorted@),
                sorted@.to_multiset() == original.take(k as int).to_multiset(),
            decreases n - k,
        {
            assert(original.take(k + 1) =~= original.take(k as int).push(original[k as int]));
            proof {
                vstd::seq_lib::to_multiset_build(original.take(k as int), original[k as int]);
            }
            insert_in_order(&mut sorted, data_vec[k]);
            k = k + 1;
        }
        assert(original.take(n as int) =~= original);
        let mut copy: Vec<i32> = Vec::new();
        let mut m: usize = 0;
        while m < sorted.len()
            invariant
                m <= sorted@.len(),
                copy@ == sorted@.take(m as int),
            decreases sorted@.len() - m,
        {
            copy.push(sorted[m]);
            assert(copy@ =~= sorted@.take(m + 1));
            m = m + 1;
        }
        assert(copy@ =~= sorted@);
        assert(sorted@.to_multiset().len() == original.to_multiset().len());
        assert(sorted@.len() == n);
        let median = sorted[n / 2];
        *data_vec = sorted;
        Data { data: copy, median, mode }
    }
}

} // verus!
