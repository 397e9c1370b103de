//! Maps keyed by text, kept as vectors of (key, value) pairs whose keys are
//! pairwise distinct. The pairs stay in the order in which their keys were
//! first inserted.
use crate::text::{chars_of, lex_less, lex_lt, lemma_lex_total, lemma_lex_transitive, str_eq};
use vstd::prelude::*;

verus! {

/// The keys of the pairs, in order.
pub open spec fn assoc_keys<V>(v: Seq<(String, V)>) -> Seq<Seq<char>> {
    v.map_values(|e: (String, V)| e.0@)
}

/// No key occurs twice.
pub open spec fn distinct_keys<V>(v: Seq<(String, V)>) -> bool {
    forall|i: int, j: int| 0 <= i < v.len() && 0 <= j < v.len() && i != j ==> v[i].0@ != v[j].0@
}

/// The map that the pairs describe (a later pair wins over an earlier one).
pub open spec fn assoc_map<V>(v: Seq<(String, V)>) -> Map<Seq<char>, V>
    decreases v.len(),
{
    if v.len() == 0 {
        Map::empty()
    } else {
        assoc_map(v.drop_last()).insert(v.last().0@, v.last().1)
    }
}

pub proof fn lemma_assoc_dom<V>(v: Seq<(String, V)>, k: Seq<char>)
    ensures
        assoc_map(v).dom().contains(k) <==> exists|i: int| 0 <= i < v.len() && v[i].0@ == k,
    decreases v.len(),
{
    if v.len() > 0 {
        lemma_assoc_dom(v.drop_last(), k);
        if assoc_map(v).dom().contains(k) && v.last().0@ != k {
            let i = choose|i: int| 0 <= i < v.drop_last().len() && v.drop_last()[i].0@ == k;
            assert(v[i].0@ == k);
        }
        if exists|i: int| 0 <= i < v.len() && v[i].0@ == k {
            let i = choose|i: int| 0 <= i < v.len() && v[i].0@ == k;
            if i < v.len() - 1 {
                assert(v.drop_last()[i].0@ == k);
            }
        }
    }
}

pub proof fn lemma_assoc_value<V>(v: Seq<(String, V)>, i: int)
    requires
        distinct_keys(v),
        0 <= i < v.len(),
    ensures
        assoc_map(v).dom().contains(v[i].0@),
        assoc_map(v)[v[i].0@] == v[i].1,
    decreases v.len(),
{
    lemma_assoc_dom(v, v[i].0@);
    if i < v.len() - 1 {
        let w = v.drop_last();
        assert(w[i] == v[i]);
        lemma_assoc_value(w, i);
    }
}

pub proof fn lemma_assoc_update<V>(v: Seq<(String, V)>, i: int, e: (String, V))
    requires
        distinct_keys(v),
        0 <= i < v.len(),
        e.0@ == v[i].0@,
    ensures
        assoc_map(v.update(i, e)) == assoc_map(v).insert(e.0@, e.1),
        distinct_keys(v.update(i, e)),
    decreases v.len(),
{
    let u = v.update(i, e);
    if i == v.len() - 1 {
        assert(u.drop_last() =~= v.drop_last());
        assert(assoc_map(u) =~= assoc_map(v).insert(e.0@, e.1));
    } else {
        let w = v.drop_last();
        assert(u.drop_last() =~= w.update(i, e));
        lemma_assoc_update(w, i, e);
        assert(v.last().0@ != e.0@);
        assert(assoc_map(u) =~= assoc_map(v).insert(e.0@, e.1));
    }
}

pub proof fn lemma_assoc_remove<V>(v: Seq<(String, V)>, i: int)
    requires
        distinct_keys(v),
        0 <= i < v.len(),
    ensures
        assoc_map(v.remove(i)) == assoc_map(v).remove(v[i].0@),
        distinct_keys(v.remove(i)),
    decreases v.len(),
{
    let r = v.remove(i);
    let k = v[i].0@;
    if i == v.len() - 1 {
        assert(r =~= v.drop_last());
        lemma_assoc_dom(v.drop_last(), k);
        assert(assoc_map(r) =~= assoc_map(v).remove(k));
    } else {
        let w = v.drop_last();
        assert(r.drop_last() =~= w.remove(i));
        assert(r.last() == v.last());
        lemma_assoc_remove(w, i);
        assert(assoc_map(r) =~= assoc_map(v).remove(k));
    }
}

pub proof fn lemma_assoc_push<V>(v: Seq<(String, V)>, e: (String, V))
    requires
        distinct_keys(v),
        !assoc_map(v).dom().contains(e.0@),
    ensures
        assoc_map(v.push(e)) == assoc_map(v).insert(e.0@, e.1),
        distinct_keys(v.push(e)),
{
    lemma_assoc_dom(v, e.0@);
    assert(v.push(e).drop_last() =~= v);
    assert forall|i: int, j: int|
        0 <= i < v.push(e).len() && 0 <= j < v.push(e).len() && i != j implies v.push(e)[i].0@
        != v.push(e)[j].0@ by {
        if i < v.len() && j < v.len() {
        } else if i < v.len() {
            assert(v[i].0@ != e.0@);
        } else {
            assert(v[j].0@ != e.0@);
        }
    }
}

/// Index of the pair with the given key.
pub fn assoc_find<V>(v: &Vec<(String, V)>, k: &str) -> (r: Option<usize>)
    ensures
        r matches Some(i) ==> i < v.len() && v@[i as int].0@ == k@,
        r is None ==> forall|i: int| 0 <= i < v.len() ==> v@[i].0@ != k@,
        r is None <==> !assoc_map(v@).dom().contains(k@),
{
    let mut i: usize = 0;
    while i < v.len()
        invariant
            i <= v.len(),
            forall|j: int| 0 <= j < i ==> v@[j].0@ != k@,
        decreases v.len() - i,
    {
        if str_eq(v[i].0.as_str(), k) {
            proof {
                lemma_assoc_dom(v@, k@);
            }
            return Some(i);
        }
        i += 1;
    }
    proof {
        lemma_assoc_dom(v@, k@);
    }
    None
}

/// Sets the value of a key, adding the key at the end when it is new.
pub fn assoc_insert<V>(v: &mut Vec<(String, V)>, k: String, val: V)
    requires
        distinct_keys(old(v)@),
    ensures
        distinct_keys(final(v)@),
        assoc_map(final(v)@) == assoc_map(old(v)@).insert(k@, val),
        assoc_map(old(v)@).dom().contains(k@) ==> assoc_keys(final(v)@) == assoc_keys(old(v)@),
        !assoc_map(old(v)@).dom().contains(k@) ==> assoc_keys(final(v)@) == assoc_keys(
            old(v)@,
        ).push(k@),
{
    match assoc_find(v, k.as_str()) {
        Some(i) => {
            let ghost e = (k, val);
            proof {
                lemma_assoc_update(v@, i as int, e);
            }
            v.set(i, (k, val));
            proof {
                assert(assoc_keys(v@) =~= assoc_keys(old(v)@));
            }
        },
        None => {
            let ghost e = (k, val);
            proof {
                lemma_assoc_push(v@, e);
            }
            v.push((k, val));
            proof {
                assert(assoc_keys(v@) =~= assoc_keys(old(v)@).push(k@));
            }
        },
    }
}

/// Removes a key; says whether it was there.
pub fn assoc_remove<V>(v: &mut Vec<(String, V)>, k: &str) -> (removed: bool)
    requires
        distinct_keys(old(v)@),
    ensures
        distinct_keys(final(v)@),
        removed == assoc_map(old(v)@).dom().contains(k@),
        assoc_map(final(v)@) == assoc_map(old(v)@).remove(k@),
{
    match assoc_find(v, k) {
        Some(i) => {
            proof {
                lemma_assoc_remove(v@, i as int);
            }
            v.remove(i);
            true
        },
        None => {
            proof {
                assert(assoc_map(v@) =~= assoc_map(v@).remove(k@));
            }
            false
        },
    }
}

/// Looks a key up.
pub fn assoc_get<'a, V>(v: &'a Vec<(String, V)>, k: &str) -> (r: Option<&'a V>)
    requires
        distinct_keys(v@),
    ensures
        r is Some <==> assoc_map(v@).dom().contains(k@),
        r matches Some(x) ==> *x == assoc_map(v@)[k@],
{
    match assoc_find(v, k) {
        Some(i) => {
            proof {
                lemma_assoc_value(v@, i as int);
            }
            Some(&v[i].1)
        },
        None => None,
    }
}

pub open spec fn has_text(r: Seq<String>, x: Seq<char>) -> bool {
    exists|i: int| 0 <= i < r.len() && r[i]@ == x
}

pub open spec fn has_key<V>(v: Seq<(String, V)>, n: int, x: Seq<char>) -> bool {
    exists|i: int| 0 <= i < n && v[i].0@ == x
}

/// Strictly increasing in lexicographic order.
pub open spec fn strictly_sorted(s: Seq<Seq<char>>) -> bool {
    forall|i: int, j: int| 0 <= i < j < s.len() ==> lex_lt(s[i], s[j])
}

/// The keys of the map, sorted.
pub fn sorted_keys<V>(v: &Vec<(String, V)>) -> (r: Vec<String>)
    requires
        distinct_keys(v@),
    ensures
        r.len() == v.len(),
        strictly_sorted(r@.map_values(|s: String| s@)),
        forall|x: Seq<char>|
            #[trigger] assoc_map(v@).dom().contains(x) <==> exists|i: int| 0 <= i < r.len() && r@[i]@ == x,
{
    let mut r: Vec<String> = Vec::new();
    let mut k: usize = 0;
    while k < v.len()
        invariant
            k <= v.len(),
            distinct_keys(v@),
            r.len() == k,
            forall|i: int, j: int| 0 <= i < j < r.len() ==> lex_lt(#[trigger] r@[i]@, #[trigger] r@[j]@),
            forall|x: Seq<char>|
                #![trigger has_text(r@, x)]
                #![trigger has_key(v@, k as int, x)]
                has_text(r@, x) <==> has_key(v@, k as int, x),
        decreases v.len() - k,
    {
        let key = v[k].0.clone();
        let kc = chars_of(key.as_str());
        assert forall|i: int| 0 <= i < r.len() implies r@[i]@ != key@ by {
            if r@[i]@ == key@ {
                let x = r@[i]@;
                assert(has_text(r@, x));
                assert(has_key(v@, k as int, x));
                let m = choose|m: int| 0 <= m < k && #[trigger] v@[m].0@ == x;
                assert(v@[m].0@ == v@[k as int].0@);
            }
        }
        let mut j: usize = 0;
        while j < r.len() && !lex_less(&kc, &chars_of(r[j].as_str()))
            invariant
                j <= r.len(),
                kc@ == key@,
                forall|i: int| 0 <= i < j ==> lex_lt(#[trigger] r@[i]@, key@),
                forall|i: int| 0 <= i < r.len() ==> r@[i]@ != key@,
            decreases r.len() - j,
        {
            proof {
                lemma_lex_total(r@[j as int]@, key@);
            }
            j += 1;
        }
        let ghost old_r = r@;
        r.insert(j, key);
        proof {
            assert forall|a: int, b: int| 0 <= a < b < r.len() implies lex_lt(
                #[trigger] r@[a]@,
                #[trigger] r@[b]@,
            ) by {
                if b < j {
                    assert(r@[a] == old_r[a] && r@[b] == old_r[b]);
                } else if b == j {
                    assert(r@[a] == old_r[a]);
                } else if a == j {
                    assert(r@[b] == old_r[b - 1]);
                    if b - 1 > j {
                        assert(lex_lt(old_r[j as int]@, old_r[b - 1]@));
                        lemma_lex_transitive(key@, old_r[j as int]@, old_r[b - 1]@);
                    }
                } else if a < j {
                    assert(r@[a] == old_r[a] && r@[b] == old_r[b - 1]);
                } else {
                    assert(r@[a] == old_r[a - 1] && r@[b] == old_r[b - 1]);
                }
            }
            assert forall|x: Seq<char>|
                #[trigger] has_text(r@, x) <==> has_key(v@, k + 1, x) by {
                if has_text(r@, x) {
                    let i = choose|i: int| 0 <= i < r.len() && #[trigger] r@[i]@ == x;
                    if i < j {
                        assert(old_r[i]@ == x);
                        assert(has_text(old_r, x));
                    } else if i == j {
                        assert(v@[k as int].0@ == x);
                    } else {
                        assert(old_r[i - 1]@ == x);
                        assert(has_text(old_r, x));
                    }
                }
                if has_key(v@, k + 1, x) {
                    let i = choose|i: int| 0 <= i < k + 1 && #[trigger] v@[i].0@ == x;
                    if i == k {
                        assert(r@[j as int]@ == x);
                    } else {
                        assert(has_key(v@, k as int, x));
                        assert(has_text(old_r, x));
                        let m = choose|m: int| 0 <= m < old_r.len() && #[trigger] old_r[m]@ == x;
                        if m < j {
                            assert(r@[m] == old_r[m]);
                        } else {
                            assert(r@[m + 1] == old_r[m]);
                        }
                    }
                }
            }
        }
        k += 1;
    }
    proof {
        assert forall|x: Seq<char>|
            #[trigger] assoc_map(v@).dom().contains(x) <==> exists|i: int| 0 <= i < r.len() && r@[i]@ == x by {
            lemma_assoc_dom(v@, x);
            if exists|i: int| 0 <= i < r.len() && r@[i]@ == x {
                assert(has_text(r@, x));
                assert(has_key(v@, v.len() as int, x));
            }
            if exists|i: int| 0 <= i < v.len() && v@[i].0@ == x {
                assert(has_key(v@, v.len() as int, x));
                assert(has_text(r@, x));
            }
        }
        let m = r@.map_values(|s: String| s@);
        assert forall|a: int, b: int| 0 <= a < b < m.len() implies lex_lt(m[a], m[b]) by {
            assert(lex_lt(r@[a]@, r@[b]@));
        }
    }
    r
}

} // verus!
