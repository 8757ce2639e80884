//! Properties that relate the strategies to one another: on an input whose
//! most frequent value is unique, every strategy — native or
//! object-preserving — names that value, whatever representation it worked
//! over.

use vstd::prelude::*;

use crate::counter::count_of;
use crate::counter::is_mode;
use crate::counter::lemma_count_pos_iff_contains;
use crate::counter::mode_result;

verus! {

/// `m` is the unique mode of `s`: it occurs in `s`, and every other value
/// occurs strictly less often.
pub open spec fn unique_mode(s: Seq<i64>, m: i64) -> bool {
    &&& s.contains(m)
    &&& forall|u: i64| u != m ==> count_of(s, u) < count_of(s, m)
}

/// On an input with a unique mode, any value meeting the mode contract is
/// that mode: two strategies whose contracts promise a mode cannot
/// disagree.
pub proof fn lemma_unique_mode_determines(s: Seq<i64>, m: i64, v: i64)
    requires
        unique_mode(s, m),
        is_mode(s, v),
    ensures
        v == m,
{
    if v != m {
        assert(count_of(s, v) < count_of(s, m));
        assert(count_of(s, m) <= count_of(s, v));
    }
}

/// `k` relabels `s` faithfully: it has the same length, and two positions
/// carry equal keys exactly when they carry equal values. This is what the
/// host's hash and equality establish when each element is resolved to the
/// key of the first equal element seen.
pub open spec fn faithful_relabeling(s: Seq<i64>, k: Seq<i64>) -> bool {
    &&& k.len() == s.len()
    &&& forall|i: int, j: int|
        0 <= i < s.len() && 0 <= j < s.len() ==> (#[trigger] k[i] == #[trigger] k[j] <==> s[i]
            == s[j])
}

/// A faithful relabeling preserves every element's count: a key occurs in
/// the key stream exactly as often as the value it stands for occurs in the
/// value stream.
pub proof fn lemma_relabeling_preserves_counts(s: Seq<i64>, k: Seq<i64>)
    requires
        faithful_relabeling(s, k),
    ensures
        forall|i: int|
            0 <= i < s.len() ==> count_of(k, #[trigger] k[i]) == count_of(s, s[i]),
    decreases s.len(),
{
    if s.len() > 0 {
        let n = s.len() as int;
        let s1 = s.drop_last();
        let k1 = k.drop_last();
        assert(faithful_relabeling(s1, k1)) by {
            assert forall|i: int, j: int|
                0 <= i < s1.len() && 0 <= j < s1.len() implies (#[trigger] k1[i] == #[trigger] k1[j]
                <==> s1[i] == s1[j]) by {
                assert(k1[i] == k[i] && k1[j] == k[j]);
                assert(s1[i] == s[i] && s1[j] == s[j]);
            }
        }
        lemma_relabeling_preserves_counts(s1, k1);
        assert forall|i: int| 0 <= i < n implies count_of(k, #[trigger] k[i]) == count_of(
            s,
            s[i],
        ) by {
            if i < n - 1 {
                assert(count_of(k1, k1[i]) == count_of(s1, s1[i]));
                assert(count_of(k, k[i]) == count_of(k1, k[i]) + if k.last() == k[i] {
                    1nat
                } else {
                    0nat
                });
                assert(count_of(s, s[i]) == count_of(s1, s[i]) + if s.last() == s[i] {
                    1nat
                } else {
                    0nat
                });
                assert(k.last() == k[i] <==> s.last() == s[i]) by {
                    assert(k[n - 1] == k[i] <==> s[n - 1] == s[i]);
                }
            } else {
                if exists|j: int| 0 <= j < n - 1 && #[trigger] s[j] == s[n - 1] {
                    let j = choose|j: int| 0 <= j < n - 1 && #[trigger] s[j] == s[n - 1];
                    assert(k[j] == k[n - 1]);
                    assert(count_of(k, k[n - 1]) == count_of(k, k[j]));
                    assert(count_of(s, s[n - 1]) == count_of(s, s[j]));
                    assert(count_of(k, k[j]) == count_of(k1, k1[j]) + if k.last() == k[j] {
                        1nat
                    } else {
                        0nat
                    });
                    assert(count_of(s, s[j]) == count_of(s1, s1[j]) + if s.last() == s[j] {
                        1nat
                    } else {
                        0nat
                    });
                    assert(k.last() == k[j] <==> s.last() == s[j]);
                } else {
                    assert(!s1.contains(s[n - 1])) by {
                        if s1.contains(s[n - 1]) {
                            let j = choose|j: int| 0 <= j < s1.len() && s1[j] == s[n - 1];
                            assert(s[j] == s[n - 1]);
                        }
                    }
                    assert(!k1.contains(k[n - 1])) by {
                        if k1.contains(k[n - 1]) {
                            let j = choose|j: int| 0 <= j < k1.len() && k1[j] == k[n - 1];
                            assert(k[j] == k[n - 1]);
                            assert(s[j] == s[n - 1]);
                        }
                    }
                    lemma_count_pos_iff_contains(s1, s[n - 1]);
                    lemma_count_pos_iff_contains(k1, k[n - 1]);
                    assert(count_of(k, k[n - 1]) == count_of(k1, k[n - 1]) + 1nat);
                    assert(count_of(s, s[n - 1]) == count_of(s1, s[n - 1]) + 1nat);
                }
            }
        }
    }
}

/// A mode of a faithful key stream stands for a mode of the value stream:
/// if `h`, the key at position `i`, is a mode of the keys, then the value
/// at position `i` is a mode of the values.
pub proof fn lemma_relabeled_mode(s: Seq<i64>, k: Seq<i64>, h: i64, i: int)
    requires
        faithful_relabeling(s, k),
        is_mode(k, h),
        0 <= i < k.len(),
        k[i] == h,
    ensures
        is_mode(s, s[i]),
{
    lemma_relabeling_preserves_counts(s, k);
    assert(s.contains(s[i]));
    assert forall|u: i64| #[trigger] count_of(s, u) <= count_of(s, s[i]) by {
        if s.contains(u) {
            let j = choose|j: int| 0 <= j < s.len() && s[j] == u;
            assert(count_of(s, s[j]) == count_of(k, k[j]));
            assert(count_of(k, k[j]) <= count_of(k, h));
            assert(count_of(k, h) == count_of(s, s[i]));
        } else {
            lemma_count_pos_iff_contains(s, u);
        }
    }
}

/// The strategies agree on an input with a unique mode. `x` stands for the
/// successful result of a native strategy on the values `s`; `h`, found at
/// position `i` of a faithful key stream `k`, stands for the successful
/// result of an object-preserving strategy on the same content. Both name
/// the unique mode `m`.
pub proof fn lemma_strategies_agree(s: Seq<i64>, m: i64, x: i64, k: Seq<i64>, h: i64, i: int)
    requires
        unique_mode(s, m),
        mode_result(s, x),
        faithful_relabeling(s, k),
        is_mode(k, h),
        0 <= i < k.len(),
        k[i] == h,
    ensures
        x == m,
        s[i] == m,
{
    assert(s.len() > 0) by {
        assert(s.contains(m));
    }
    lemma_unique_mode_determines(s, m, x);
    lemma_relabeled_mode(s, k, h, i);
    lemma_unique_mode_determines(s, m, s[i]);
}

} // verus!
