//! Small verified vector exercises: mapping an offset over a vector and
//! removing duplicates while keeping first occurrences in order.

use vstd::prelude::*;

verus! {

/// The sequence `s` with `n` added to every element, as a mathematical map.
pub open spec fn seq_add_n(s: Seq<i32>, n: i32) -> Seq<i32> {
    s.map_values(|x: i32| (x + n) as i32)
}

/// `s` restricted to the first occurrence of each value, in order.
pub open spec fn dedup_seq(s: Seq<i32>) -> Seq<i32>
    decreases s.len(),
{
    if s.len() == 0 {
        seq![]
    } else {
        let prefix = dedup_seq(s.drop_last());
        if prefix.contains(s.last()) {
            prefix
        } else {
            prefix.push(s.last())
        }
    }
}

/// Returns a new vector with `n` added to every element of `v`.
pub fn add_n(v: Vec<i32>, n: i32) -> (r: Vec<i32>)
    requires
        forall|i: int| 0 <= i < v@.len() ==> i32::MIN <= #[trigger] v@[i] + n <= i32::MAX,
    ensures
        r@ == seq_add_n(v@, n),
{
    let mut vec: Vec<i32> = Vec::new();
    let mut i: usize = 0;
    while i < v.len()
        invariant
            i <= v@.len(),
            forall|j: int| 0 <= j < v@.len() ==> i32::MIN <= #[trigger] v@[j] + n <= i32::MAX,
            vec@ == seq_add_n(v@.take(i as int), n),
        decreases v@.len() - i,
    {
        vec.push(v[i] + n);
        i += 1;
        proof {
            assert(v@.take(i as int).drop_last() == v@.take(i - 1));
            assert(vec@ =~= seq_add_n(v@.take(i as int), n));
        }
    }
    proof {
        assert(v@.take(v@.len() as int) == v@);
    }
    vec
}

/// Adds `n` to every element of `v` in place.
pub fn add_n_inplace(v: &mut Vec<i32>, n: i32)
    requires
        forall|i: int|
            0 <= i < old(v)@.len() ==> i32::MIN <= #[trigger] old(v)@[i] + n <= i32::MAX,
    ensures
        final(v)@ == seq_add_n(old(v)@, n),
{
    let ghost orig = v@;
    let mut i: usize = 0;
    while i < v.len()
        invariant
            i <= orig.len(),
            v@.len() == orig.len(),
            forall|j: int| 0 <= j < orig.len() ==> i32::MIN <= #[trigger] orig[j] + n <= i32::MAX,
            forall|j: int| i <= j < orig.len() ==> v@[j] == orig[j],
            forall|j: int| 0 <= j < i ==> v@[j] == seq_add_n(orig, n)[j],
        decreases orig.len() - i,
    {
        proof {
            assert(v@[i as int] == orig[i as int]);
            assert(i32::MIN <= orig[i as int] + n <= i32::MAX);
        }
        let x = v[i] + n;
        v.set(i, x);
        i += 1;
    }
    proof {
        assert(v@ =~= seq_add_n(orig, n));
    }
}

/// Removes duplicate values from `v`, keeping the first occurrence of each
/// value and preserving their order. Membership in the already-kept values
/// is decided by a linear scan of the result: a hash set would serve too,
/// but nothing provable is known of hashed lookups on these keys, so the
/// scan is used and specified exactly.
pub fn dedup(v: &mut Vec<i32>)
    ensures
        final(v)@ == dedup_seq(old(v)@),
{
    let ghost orig = v@;
    let mut mark: Vec<i32> = Vec::new();
    let mut i: usize = 0;
    while i < v.len()
        invariant
            i <= orig.len(),
            v@ == orig,
            mark@ == dedup_seq(orig.take(i as int)),
        decreases orig.len() - i,
    {
        if !contains_value(&mark, v[i]) {
            mark.push(v[i]);
        }
        proof {
            assert(orig.take(i + 1).drop_last() == orig.take(i as int));
            assert(orig.take(i + 1).last() == orig[i as int]);
            assert(mark@ =~= dedup_seq(orig.take(i + 1)));
        }
        i += 1;
    }
    proof {
        assert(orig.take(orig.len() as int) == orig);
    }
    v.clear();
    let mut j: usize = 0;
    while j < mark.len()
        invariant
            j <= mark@.len(),
            mark@ == dedup_seq(orig),
            v@ == mark@.take(j as int),
        decreases mark@.len() - j,
    {
        v.push(mark[j]);
        j += 1;
        proof {
            assert(v@ =~= mark@.take(j as int));
        }
    }
    proof {
        assert(mark@.take(mark@.len() as int) == mark@);
    }
}

/// Linear scan for a value in a vector.
pub fn contains_value(v: &Vec<i32>, x: i32) -> (r: bool)
    ensures
        r == v@.contains(x),
{
    let mut i: usize = 0;
    while i < v.len()
        invariant
            i <= v@.len(),
            forall|j: int| 0 <= j < i ==> v@[j] != x,
        decreases v@.len() - i,
    {
        if v[i] == x {
            return true;
        }
        i += 1;
    }
    false
}

} // verus!
