//! Texts in order: how `str`'s `Ord` compares two texts (character by character, by code point,
//! a text before every longer text it begins), and a stable sort by such keys.

use vstd::prelude::*;
use crate::text::chars_of;

verus! {

/// Whether `a` comes strictly before `b`: at the first place they differ `a` has the smaller
/// character, or `a` ends there and `b` goes on.
pub open spec fn text_before(a: Seq<char>, b: Seq<char>) -> bool
    decreases a.len(),
{
    if a.len() == 0 {
        b.len() > 0
    } else if b.len() == 0 {
        false
    } else if a[0] != b[0] {
        (a[0] as int) < (b[0] as int)
    } else {
        text_before(a.drop_first(), b.drop_first())
    }
}

/// No text comes before itself, and of two texts at most one comes first.
pub proof fn lemma_before_asymmetric(a: Seq<char>, b: Seq<char>)
    ensures
        !(text_before(a, b) && text_before(b, a)),
        !text_before(a, a),
    decreases a.len(),
{
    if a.len() > 0 && b.len() > 0 && a[0] == b[0] {
        lemma_before_asymmetric(a.drop_first(), b.drop_first());
    }
    if a.len() > 0 {
        lemma_before_asymmetric(a.drop_first(), a.drop_first());
    }
}

/// Of two different texts, one comes first.
pub proof fn lemma_before_total(a: Seq<char>, b: Seq<char>)
    ensures
        a != b ==> text_before(a, b) || text_before(b, a),
    decreases a.len(),
{
    if a.len() > 0 && b.len() > 0 && a[0] == b[0] {
        lemma_before_total(a.drop_first(), b.drop_first());
        if a.drop_first() == b.drop_first() {
            assert(a =~= seq![a[0]] + a.drop_first());
            assert(b =~= seq![b[0]] + b.drop_first());
        }
    }
    if a.len() == 0 && b.len() == 0 {
        assert(a =~= b);
    }
    if a.len() > 0 && b.len() > 0 && a[0] != b[0] {
        assert((a[0] as int) != (b[0] as int));
    }
}

/// Coming first carries over.
pub proof fn lemma_before_transitive(a: Seq<char>, b: Seq<char>, c: Seq<char>)
    requires
        text_before(a, b),
        text_before(b, c),
    ensures
        text_before(a, c),
    decreases a.len(),
{
    if a.len() > 0 && b.len() > 0 && c.len() > 0 && a[0] == b[0] && b[0] == c[0] {
        lemma_before_transitive(a.drop_first(), b.drop_first(), c.drop_first());
    }
}

/// Whether `a` comes before `b` or is the same text.
pub open spec fn text_not_after(a: Seq<char>, b: Seq<char>) -> bool {
    !text_before(b, a)
}

/// `a < b` as `str` compares.
pub fn is_before(a: &str, b: &str) -> (r: bool)
    ensures
        r == text_before(a@, b@),
{
    let x = chars_of(a);
    let y = chars_of(b);
    let mut k: usize = 0;
    assert(a@.skip(0) =~= a@ && b@.skip(0) =~= b@);
    while k < x.len() && k < y.len()
        invariant
            x@ == a@,
            y@ == b@,
            k <= x@.len(),
            k <= y@.len(),
            text_before(a@, b@) == text_before(a@.skip(k as int), b@.skip(k as int)),
        decreases x.len() - k,
    {
        let p = x[k];
        let q = y[k];
        if p != q {
            proof {
                assert(a@.skip(k as int)[0] == p && b@.skip(k as int)[0] == q);
            }
            return p < q;
        }
        proof {
            assert(a@.skip(k as int).drop_first() =~= a@.skip(k + 1));
            assert(b@.skip(k as int).drop_first() =~= b@.skip(k + 1));
        }
        k = k + 1;
    }
    k == x.len() && k < y.len()
}

/// `p` holds each position below `n` once.
pub open spec fn is_permutation(p: Seq<usize>, n: int) -> bool {
    &&& p.len() == n
    &&& forall|i: int| 0 <= i < p.len() ==> (#[trigger] p[i]) < n
    &&& forall|i: int, j: int| 0 <= i < j < p.len() ==> (#[trigger] p[i]) != (#[trigger] p[j])
}

/// `p` lists the keys' positions in the keys' order, and keys that are the same text in the
/// order they stood.
pub open spec fn sorted_stably(keys: Seq<Seq<char>>, p: Seq<usize>) -> bool {
    forall|i: int, j: int|
        0 <= i < j < p.len() ==> text_not_after(keys[#[trigger] p[i] as int], keys[#[trigger] p[j] as int])
            && (keys[p[i] as int] == keys[p[j] as int] ==> p[i] < p[j])
}

/// The texts' characters.
pub open spec fn key_texts(v: Seq<String>) -> Seq<Seq<char>> {
    v.map_values(|s: String| s@)
}

/// The positions of the keys in a stable sort by them, as `sort_by` (a stable sort) leaves
/// them when it compares texts as `str` does.
pub fn stable_order(keys: &Vec<String>) -> (p: Vec<usize>)
    ensures
        is_permutation(p@, keys@.len() as int),
        sorted_stably(key_texts(keys@), p@),
{
    let ghost k = key_texts(keys@);
    let mut p: Vec<usize> = Vec::new();
    let mut i: usize = 0;
    while i < keys.len()
        invariant
            k == key_texts(keys@),
            i <= keys@.len(),
            p@.len() == i,
            forall|m: int| 0 <= m < p@.len() ==> (#[trigger] p@[m]) < i,
            forall|m: int, n: int| 0 <= m < n < p@.len() ==> (#[trigger] p@[m]) != (#[trigger] p@[n]),
            sorted_stably(k, p@),
        decreases keys.len() - i,
    {
        let mut j: usize = p.len();
        while j > 0 && is_before(keys[i].as_str(), keys[p[j - 1]].as_str())
            invariant
                k == key_texts(keys@),
                i < keys@.len(),
                j <= p@.len(),
                forall|m: int| 0 <= m < p@.len() ==> (#[trigger] p@[m]) < i,
                forall|m: int| j <= m < p@.len() ==> text_before(k[i as int], k[#[trigger] p@[m] as int]),
            decreases j,
        {
            j = j - 1;
        }
        let ghost old_p = p@;
        proof {
            assert(k[i as int] == keys@[i as int]@);
            if j > 0 {
                assert(!text_before(k[i as int], k[old_p[j - 1] as int]));
            }
        }
        p.insert(j, i);
        proof {
            let np = p@;
            assert(np =~= old_p.insert(j as int, i));
            assert forall|m: int| 0 <= m < np.len() implies (#[trigger] np[m]) < i + 1 by {
                if m < j {
                    assert(np[m] == old_p[m]);
                } else if m > j {
                    assert(np[m] == old_p[m - 1]);
                }
            }
            assert forall|m: int, n: int| 0 <= m < n < np.len() implies (#[trigger] np[m]) != (#[trigger] np[n]) by {
                if m < j && n < j {
                    assert(np[m] == old_p[m] && np[n] == old_p[n]);
                } else if m < j && n > j {
                    assert(np[m] == old_p[m] && np[n] == old_p[n - 1]);
                } else if m > j && n > j {
                    assert(np[m] == old_p[m - 1] && np[n] == old_p[n - 1]);
                } else if m == j {
                    assert(np[n] == old_p[n - 1]);
                } else {
                    assert(np[m] == old_p[m]);
                }
            }
            assert forall|a: int, b: int| 0 <= a < b < np.len() implies text_not_after(
                k[#[trigger] np[a] as int],
                k[#[trigger] np[b] as int],
            ) && (k[np[a] as int] == k[np[b] as int] ==> np[a] < np[b]) by {
                let ki = k[i as int];
                if a < j && b < j {
                    assert(np[a] == old_p[a] && np[b] == old_p[b]);
                } else if a > j && b > j {
                    assert(np[a] == old_p[a - 1] && np[b] == old_p[b - 1]);
                } else if a < j && b > j {
                    assert(np[a] == old_p[a] && np[b] == old_p[b - 1]);
                } else if a == j {
                    // the new key comes before everything it was moved in front of
                    assert(np[b] == old_p[b - 1]);
                    assert(text_before(ki, k[old_p[b - 1] as int]));
                    lemma_before_asymmetric(ki, k[old_p[b - 1] as int]);
                } else {
                    // b == j: everything left of the new key is not after it
                    assert(np[a] == old_p[a]);
                    let last = k[old_p[j - 1] as int];
                    assert(!text_before(ki, last));
                    if a < j - 1 {
                        assert(text_not_after(k[old_p[a] as int], last));
                        if text_before(ki, k[old_p[a] as int]) {
                            lemma_before_total(ki, last);
                            if ki != last {
                                lemma_before_transitive(last, ki, k[old_p[a] as int]);
                            } else {
                                lemma_before_asymmetric(ki, k[old_p[a] as int]);
                            }
                        }
                    }
                }
            }
        }
        i = i + 1;
    }
    p
}

} // verus!
