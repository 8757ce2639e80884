//! The shared native counting core: given a sequence of native signed 64-bit
//! integers, return the most frequent one.

use vstd::prelude::*;

verus! {

/// Number of occurrences of `v` in `s`.
pub open spec fn count_of(s: Seq<i64>, v: i64) -> nat
    decreases s.len(),
{
    if s.len() == 0 {
        0
    } else {
        count_of(s.drop_last(), v) + if s.last() == v {
            1nat
        } else {
            0nat
        }
    }
}

/// `v` is a mode of `s`: it occurs in `s`, and no value occurs more often.
pub open spec fn is_mode(s: Seq<i64>, v: i64) -> bool {
    &&& s.contains(v)
    &&& forall|u: i64| count_of(s, u) <= count_of(s, v)
}

/// The contract of the native strategies: a mode of the input, with 0 as the
/// defined result for an empty input. When several values tie for the
/// greatest count, any of them is an acceptable answer.
pub open spec fn mode_result(s: Seq<i64>, v: i64) -> bool {
    if s.len() == 0 {
        v == 0
    } else {
        is_mode(s, v)
    }
}

/// No value occurs more often than the sequence is long.
pub proof fn lemma_count_le_len(s: Seq<i64>, v: i64)
    ensures
        count_of(s, v) <= s.len(),
    decreases s.len(),
{
    if s.len() > 0 {
        lemma_count_le_len(s.drop_last(), v);
    }
}

/// A value occurs a positive number of times exactly when it is an element.
pub proof fn lemma_count_pos_iff_contains(s: Seq<i64>, v: i64)
    ensures
        count_of(s, v) > 0 <==> s.contains(v),
    decreases s.len(),
{
    if s.len() > 0 {
        lemma_count_pos_iff_contains(s.drop_last(), v);
        if s.last() == v {
            assert(s[s.len() - 1] == v);
        } else {
            if s.contains(v) {
                let i = choose|i: int| 0 <= i < s.len() && s[i] == v;
                assert(s.drop_last()[i] == v);
            }
            if s.drop_last().contains(v) {
                let i = choose|i: int|
                    0 <= i < s.drop_last().len() && s.drop_last()[i] == v;
                assert(s[i] == v);
            }
        }
    }
}

/// Extending a prefix by one element raises the count of exactly that
/// element's value by one.
pub proof fn lemma_count_take_step(s: Seq<i64>, i: int, v: i64)
    requires
        0 <= i < s.len(),
    ensures
        count_of(s.take(i + 1), v) == count_of(s.take(i), v) + if s[i] == v {
            1nat
        } else {
            0nat
        },
{
    assert(s.take(i + 1).drop_last() =~= s.take(i));
    assert(s.take(i + 1).last() == s[i]);
}

/// `entries` is a frequency table for `s`: a mapping from value to count
/// with unique keys, holding exactly the values that occur in `s`, each
/// with its number of occurrences. No ordering of the entries is promised.
pub open spec fn frequency_table_for(entries: Seq<(i64, usize)>, s: Seq<i64>) -> bool {
    &&& forall|t: int|
        0 <= t < entries.len() ==> (#[trigger] entries[t]).1 == count_of(s, entries[t].0)
    &&& forall|t1: int, t2: int|
        0 <= t1 < t2 < entries.len() ==> (#[trigger] entries[t1]).0 != (#[trigger] entries[t2]).0
    &&& forall|j: int|
        0 <= j < s.len() ==> exists|t: int|
            0 <= t < entries.len() && (#[trigger] entries[t]).0 == #[trigger] s[j]
    &&& forall|t: int| 0 <= t < entries.len() ==> s.contains((#[trigger] entries[t]).0)
}

/// Sum of the counts of all entries of a table.
pub open spec fn total_count(entries: Seq<(i64, usize)>) -> nat
    decreases entries.len(),
{
    if entries.len() == 0 {
        0
    } else {
        total_count(entries.drop_last()) + entries.last().1 as nat
    }
}

/// Incrementing one entry's count raises the table's total by one.
proof fn lemma_total_count_update(entries: Seq<(i64, usize)>, t: int, k: i64, c: usize)
    requires
        0 <= t < entries.len(),
        entries[t].1 == c,
        c < usize::MAX,
    ensures
        total_count(entries.update(t, (k, (c + 1) as usize))) == total_count(entries) + 1,
    decreases entries.len(),
{
    let updated = entries.update(t, (k, (c + 1) as usize));
    if t == entries.len() - 1 {
        assert(updated.drop_last() =~= entries.drop_last());
        assert(updated.last() == (k, (c + 1) as usize));
    } else {
        assert(updated.drop_last() =~= entries.drop_last().update(t, (k, (c + 1) as usize)));
        assert(updated.last() == entries.last());
        lemma_total_count_update(entries.drop_last(), t, k, c);
    }
}

/// Position of the entry keyed by `v`, if the table has one.
fn find_key(entries: &Vec<(i64, usize)>, v: i64) -> (r: Option<usize>)
    ensures
        r matches Some(t) ==> t < entries@.len() && entries@[t as int].0 == v,
        r is None ==> forall|t: int| 0 <= t < entries@.len() ==> (#[trigger] entries@[t]).0 != v,
{
    let mut t: usize = 0;
    while t < entries.len()
        invariant
            t <= entries@.len(),
            forall|u: int| 0 <= u < t ==> (#[trigger] entries@[u]).0 != v,
        decreases entries@.len() - t,
    {
        if entries[t].0 == v {
            return Some(t);
        }
        t = t + 1;
    }
    None
}

/// One pass over the values: build the frequency table, starting empty and
/// incrementing the matching entry's count on each repeated value.
pub fn build_table(values: &[i64]) -> (entries: Vec<(i64, usize)>)
    ensures
        frequency_table_for(entries@, values@),
        total_count(entries@) == values@.len(),
{
    let mut entries: Vec<(i64, usize)> = Vec::new();
    let mut i: usize = 0;
    while i < values.len()
        invariant
            i <= values@.len(),
            frequency_table_for(entries@, values@.take(i as int)),
            total_count(entries@) == i,
        decreases values@.len() - i,
    {
        let ghost pre = values@.take(i as int);
        let ghost post = values@.take(i + 1);
        let v = values[i];
        proof {
            assert(post.drop_last() =~= pre);
            assert(post.last() == v);
            assert(post[i as int] == v);
            assert forall|u: i64| v != u implies count_of(post, u) == count_of(pre, u) by {
                lemma_count_take_step(values@, i as int, u);
            }
            lemma_count_take_step(values@, i as int, v);
            assert forall|x: i64| pre.contains(x) implies post.contains(x) by {
                let j = choose|j: int| 0 <= j < pre.len() && pre[j] == x;
                assert(post[j] == x);
            }
        }
        let ghost before = entries@;
        match find_key(&entries, v) {
            Some(t) => {
                let c = entries[t].1;
                proof {
                    lemma_count_le_len(pre, v);
                }
                entries[t] = (v, c + 1);
                proof {
                    lemma_total_count_update(before, t as int, v, c);
                    assert forall|j: int| 0 <= j < post.len() implies exists|u: int|
                        0 <= u < entries@.len() && (#[trigger] entries@[u]).0 == #[trigger] post[j] by {
                        if j < i {
                            assert(pre[j] == post[j]);
                            let u = choose|u: int|
                                0 <= u < before.len() && (#[trigger] before[u]).0 == pre[j];
                            assert(entries@[u].0 == post[j]);
                        } else {
                            assert(entries@[t as int].0 == post[j]);
                        }
                    }
                }
            },
            None => {
                proof {
                    lemma_count_pos_iff_contains(pre, v);
                    if pre.contains(v) {
                        let j = choose|j: int| 0 <= j < pre.len() && pre[j] == v;
                        let u = choose|u: int|
                            0 <= u < entries@.len() && (#[trigger] entries@[u]).0 == pre[j];
                    }
                    assert(count_of(pre, v) == 0);
                }
                entries.push((v, 1));
                proof {
                    assert(entries@.drop_last() =~= before);
                    assert(total_count(entries@) == total_count(before) + 1);
                    let last = entries@.len() - 1;
                    assert forall|j: int| 0 <= j < post.len() implies exists|u: int|
                        0 <= u < entries@.len() && (#[trigger] entries@[u]).0 == #[trigger] post[j] by {
                        if j < i {
                            assert(pre[j] == post[j]);
                            let u = choose|u: int|
                                0 <= u < before.len() && (#[trigger] before[u]).0 == pre[j];
                            assert(entries@[u].0 == post[j]);
                        } else {
                            assert(entries@[last].0 == post[j]);
                        }
                    }
                }
            },
        }
        i = i + 1;
    }
    proof {
        assert(values@.take(values@.len() as int) =~= values@);
    }
    entries
}

/// One pass over the table: an entry with the greatest count, or `None` when
/// the table is empty. The scan keeps the running best and replaces it only
/// on a strictly greater count.
pub fn max_entry(entries: &Vec<(i64, usize)>) -> (r: Option<(i64, usize)>)
    ensures
        r is Some <==> entries@.len() > 0,
        r matches Some(p) ==> (exists|t: int| 0 <= t < entries@.len() && entries@[t] == p)
            && forall|t: int| 0 <= t < entries@.len() ==> (#[trigger] entries@[t]).1 <= p.1,
{
    if entries.len() == 0 {
        return None;
    }
    let mut best = entries[0];
    let mut t: usize = 1;
    while t < entries.len()
        invariant
            1 <= t <= entries@.len(),
            exists|u: int| 0 <= u < entries@.len() && entries@[u] == best,
            forall|u: int| 0 <= u < t ==> (#[trigger] entries@[u]).1 <= best.1,
        decreases entries@.len() - t,
    {
        let e = entries[t];
        if e.1 > best.1 {
            best = e;
            proof {
                assert(entries@[t as int] == best);
            }
        }
        t = t + 1;
    }
    Some(best)
}

/// Most frequent element of the sequence, or `None` when it is empty. The
/// table's entries carry no defined order, so when several values tie for
/// the greatest count, whichever of them the scan settles on is returned;
/// the contract promises membership and maximality only.
pub fn mode_of(values: &[i64]) -> (r: Option<i64>)
    ensures
        r is Some <==> values@.len() > 0,
        r matches Some(v) ==> is_mode(values@, v),
{
    let entries = build_table(values);
    match max_entry(&entries) {
        None => {
            proof {
                if values@.len() > 0 {
                    let v0 = values@[0];
                    assert(values@[0] == v0);
                    assert(exists|t: int|
                        0 <= t < entries@.len() && (#[trigger] entries@[t]).0 == v0);
                }
            }
            None
        },
        Some((v, c)) => {
            proof {
                let t = choose|t: int| 0 <= t < entries@.len() && entries@[t] == (v, c);
                assert(values@.contains(v));
                assert(count_of(values@, v) == c);
                assert forall|u: i64| count_of(values@, u) <= count_of(values@, v) by {
                    if values@.contains(u) {
                        let j = choose|j: int| 0 <= j < values@.len() && values@[j] == u;
                        let w = choose|w: int|
                            0 <= w < entries@.len() && (#[trigger] entries@[w]).0 == values@[j];
                        assert(entries@[w].1 <= c);
                    } else {
                        lemma_count_pos_iff_contains(values@, u);
                    }
                }
            }
            Some(v)
        },
    }
}

/// The shared counting routine: the most frequent value of the sequence,
/// with 0 as the defined result for an empty input.
pub fn frequent_algorithm(values: &[i64]) -> (r: i64)
    ensures
        mode_result(values@, r),
{
    match mode_of(values) {
        Some(v) => v,
        None => 0,
    }
}

} // verus!
