use std::collections::BTreeMap;
use vstd::prelude::*;

verus! {

/// Lexicographic order on keys, character by character; a proper prefix
/// comes first.
pub open spec fn key_lt(a: Seq<char>, b: Seq<char>) -> bool
    decreases a.len(),
{
    if b.len() == 0 {
        false
    } else if a.len() == 0 {
        true
    } else if a[0] != b[0] {
        (a[0] as u32) < (b[0] as u32)
    } else {
        key_lt(a.drop_first(), b.drop_first())
    }
}

/// `s` lists the pairs of `m`, each once, in increasing order of key.
pub open spec fn is_listing(s: Seq<(Seq<char>, Seq<char>)>, m: Map<Seq<char>, Seq<char>>) -> bool {
    &&& forall|i: int, j: int| 0 <= i < j < s.len() ==> key_lt(#[trigger] s[i].0, #[trigger] s[j].0)
    &&& forall|i: int| 0 <= i < s.len() ==> m.contains_key(#[trigger] s[i].0) && m[s[i].0] == s[i].1
    &&& forall|k: Seq<char>| #[trigger]
        m.contains_key(k) ==> exists|i: int| 0 <= i < s.len() && s[i].0 == k
}

pub proof fn lemma_key_lt_irreflexive(a: Seq<char>)
    ensures
        !key_lt(a, a),
    decreases a.len(),
{
    if a.len() > 0 {
        lemma_key_lt_irreflexive(a.drop_first());
    }
}

pub proof fn lemma_key_lt_transitive(a: Seq<char>, b: Seq<char>, c: Seq<char>)
    requires
        key_lt(a, b),
        key_lt(b, c),
    ensures
        key_lt(a, c),
    decreases a.len(),
{
    if a.len() > 0 && a[0] == b[0] && b[0] == c[0] {
        lemma_key_lt_transitive(a.drop_first(), b.drop_first(), c.drop_first());
    }
}

/// A label mapping has one listing only: whatever order its pairs were put
/// in, they come out in the same order, by key.
pub proof fn lemma_listing_unique(
    m: Map<Seq<char>, Seq<char>>,
    s1: Seq<(Seq<char>, Seq<char>)>,
    s2: Seq<(Seq<char>, Seq<char>)>,
)
    requires
        is_listing(s1, m),
        is_listing(s2, m),
    ensures
        s1 == s2,
    decreases s1.len(),
{
    if s1.len() == 0 {
        if s2.len() > 0 {
            assert(m.contains_key(s2[0].0));
        }
        assert(s1 =~= s2);
    } else {
        assert(m.contains_key(s1[0].0));
        assert(s2.len() > 0);
        let k1 = s1[0].0;
        let k2 = s2[0].0;
        if k1 != k2 {
            assert(m.contains_key(k2));
            let j1 = choose|j: int| 0 <= j < s1.len() && s1[j].0 == k2;
            let j2 = choose|j: int| 0 <= j < s2.len() && s2[j].0 == k1;
            assert(key_lt(s1[0].0, s1[j1].0));
            assert(key_lt(s2[0].0, s2[j2].0));
            lemma_key_lt_transitive(k1, k2, k1);
            lemma_key_lt_irreflexive(k1);
        }
        let rest = m.remove(k1);
        let t1 = s1.drop_first();
        let t2 = s2.drop_first();
        assert forall|i: int| 0 <= i < t1.len() implies rest.contains_key(#[trigger] t1[i].0)
            && rest[t1[i].0] == t1[i].1 by {
            assert(key_lt(s1[0].0, s1[i + 1].0));
            lemma_key_lt_irreflexive(k1);
        }
        assert forall|i: int| 0 <= i < t2.len() implies rest.contains_key(#[trigger] t2[i].0)
            && rest[t2[i].0] == t2[i].1 by {
            assert(key_lt(s2[0].0, s2[i + 1].0));
            lemma_key_lt_irreflexive(k1);
        }
        assert forall|k: Seq<char>| #[trigger] rest.contains_key(k) implies exists|i: int|
            0 <= i < t1.len() && t1[i].0 == k by {
            let i = choose|i: int| 0 <= i < s1.len() && s1[i].0 == k;
            assert(t1[i - 1].0 == k);
        }
        assert forall|k: Seq<char>| #[trigger] rest.contains_key(k) implies exists|i: int|
            0 <= i < t2.len() && t2[i].0 == k by {
            let i = choose|i: int| 0 <= i < s2.len() && s2[i].0 == k;
            assert(t2[i - 1].0 == k);
        }
        assert forall|i: int, j: int| 0 <= i < j < t1.len() implies key_lt(
            #[trigger] t1[i].0,
            #[trigger] t1[j].0,
        ) by {
            assert(key_lt(s1[i + 1].0, s1[j + 1].0));
        }
        assert forall|i: int, j: int| 0 <= i < j < t2.len() implies key_lt(
            #[trigger] t2[i].0,
            #[trigger] t2[j].0,
        ) by {
            assert(key_lt(s2[i + 1].0, s2[j + 1].0));
        }
        lemma_listing_unique(rest, t1, t2);
        assert(s1[0].1 == m[k1] && s2[0].1 == m[k1]);
        assert(s1 =~= seq![s1[0]] + t1);
        assert(s2 =~= seq![s2[0]] + t2);
    }
}

/// Relies on std's BTreeMap::iter, which yields each entry once in
/// increasing order of key; `String` keys compare by their UTF-8 bytes,
/// which orders them as their characters do.
#[verifier::external_body]
pub(crate) fn sorted_pairs(m: &BTreeMap<String, String>) -> (r: Vec<(String, String)>)
    ensures
        is_listing(r@.map_values(|p: (String, String)| (p.0@, p.1@)), m.deep_view()),
{
    m.iter().map(|(k, v)| (k.clone(), v.clone())).collect()
}

} // verus!
