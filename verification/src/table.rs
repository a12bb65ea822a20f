//! Tables of records by identifier, read in the order of identifiers.

use std::collections::BTreeMap;
use vstd::prelude::*;
use vstd::std_specs::iter::IteratorSpec;

verus! {

/// Whether `s` is in strictly increasing order.
pub open spec fn increasing(s: Seq<u128>) -> bool {
    forall|i: int, j: int| 0 <= i < j < s.len() ==> #[trigger] s[i] < #[trigger] s[j]
}

/// Whether `s` lists the keys of `m`, each once, in increasing order.
pub open spec fn lists_keys<V>(s: Seq<u128>, m: Map<u128, V>) -> bool {
    &&& increasing(s)
    &&& forall|k: u128| #[trigger] m.contains_key(k) <==> s.contains(k)
}

/// There is one increasing sequence of given members.
pub proof fn lemma_increasing_once(a: Seq<u128>, b: Seq<u128>)
    requires
        increasing(a),
        increasing(b),
        forall|k: u128| #[trigger] a.contains(k) <==> b.contains(k),
    ensures
        a == b,
    decreases a.len(),
{
    if a.len() == 0 {
        if b.len() > 0 {
            assert(b.contains(b[0]));
            assert(a.contains(b[0]));
        }
        assert(a =~= b);
    } else {
        assert(a.contains(a.last()));
        assert(b.contains(a.last()));
        let i = choose|i: int| 0 <= i < b.len() && b[i] == a.last();
        assert(b.contains(b.last()));
        assert(a.contains(b.last()));
        let j = choose|j: int| 0 <= j < a.len() && a[j] == b.last();
        if i < b.len() - 1 {
            assert(b[i] < b[b.len() - 1]);
        }
        if j < a.len() - 1 {
            assert(a[j] < a[a.len() - 1]);
        }
        assert(a.last() == b.last());
        let c = a.drop_last();
        let d = b.drop_last();
        assert forall|k: u128| #[trigger] c.contains(k) <==> d.contains(k) by {
            lemma_drop_last_members(a, k);
            lemma_drop_last_members(b, k);
        }
        lemma_increasing_once(c, d);
        assert(a =~= c.push(a.last()));
        assert(b =~= d.push(b.last()));
    }
}

proof fn lemma_drop_last_members(a: Seq<u128>, k: u128)
    requires
        increasing(a),
        a.len() > 0,
    ensures
        a.drop_last().contains(k) <==> a.contains(k) && k != a.last(),
{
    if a.contains(k) && k != a.last() {
        let i = choose|i: int| 0 <= i < a.len() && a[i] == k;
        assert(a.drop_last()[i] == k);
    }
    if a.drop_last().contains(k) {
        let i = choose|i: int| 0 <= i < a.len() - 1 && a.drop_last()[i] == k;
        assert(a[i] < a[a.len() - 1]);
    }
}

/// The keys of a table in increasing order.
pub open spec fn keys_in_order<V>(m: Map<u128, V>) -> Seq<u128> {
    choose|s: Seq<u128>| lists_keys(s, m)
}

/// The records of a table in the order of their keys.
pub open spec fn values_in_order<V>(m: Map<u128, V>) -> Seq<V> {
    keys_in_order(m).map_values(|k: u128| m[k])
}

/// A list of the keys in increasing order is the only one.
pub proof fn lemma_keys_in_order<V>(m: Map<u128, V>, s: Seq<u128>)
    requires
        lists_keys(s, m),
    ensures
        keys_in_order(m) == s,
{
    let chosen = keys_in_order(m);
    assert(lists_keys(chosen, m));
    assert forall|k: u128| #[trigger] chosen.contains(k) <==> s.contains(k) by {
        assert(m.contains_key(k) <==> s.contains(k));
    }
    lemma_increasing_once(chosen, s);
}

/// An increasing sequence with one more member.
spec fn with_key(s: Seq<u128>, k: u128) -> Seq<u128>
    decreases s.len(),
{
    if s.len() > 0 && s.last() > k {
        with_key(s.drop_last(), k).push(s.last())
    } else {
        s.push(k)
    }
}

proof fn lemma_with_key(s: Seq<u128>, k: u128)
    requires
        increasing(s),
        !s.contains(k),
    ensures
        increasing(with_key(s, k)),
        with_key(s, k).len() == s.len() + 1,
        forall|j: u128| #[trigger] with_key(s, k).contains(j) <==> s.contains(j) || j == k,
    decreases s.len(),
{
    let all = with_key(s, k);
    if s.len() > 0 && s.last() > k {
        let front = s.drop_last();
        let more = with_key(front, k);
        assert forall|j: u128| #[trigger] front.contains(j) <==> s.contains(j) && j
            != s.last() by {
            lemma_drop_last_members(s, j);
        }
        lemma_with_key(front, k);
        assert forall|j: u128| #[trigger] all.contains(j) <==> s.contains(j) || j == k by {
            if more.contains(j) {
                let i = choose|i: int| 0 <= i < more.len() && more[i] == j;
                assert(all[i] == j);
            }
            assert(all[more.len() as int] == s.last());
            if all.contains(j) && j != s.last() {
                let i = choose|i: int| 0 <= i < all.len() && all[i] == j;
                assert(more[i] == j);
            }
            assert(s[s.len() - 1] == s.last());
            assert(more.contains(j) <==> front.contains(j) || j == k);
        }
        assert forall|i: int, j: int| 0 <= i < j < all.len() implies #[trigger] all[i]
            < #[trigger] all[j] by {
            if j == more.len() {
                assert(more.contains(more[i]));
                if more[i] != k {
                    assert(front.contains(more[i]));
                    let x = choose|x: int| 0 <= x < front.len() && front[x] == more[i];
                    assert(s[x] < s[s.len() - 1]);
                }
            } else {
                assert(more[i] < more[j]);
            }
        }
    } else {
        assert forall|j: u128| #[trigger] all.contains(j) <==> s.contains(j) || j == k by {
            if s.contains(j) {
                let i = choose|i: int| 0 <= i < s.len() && s[i] == j;
                assert(all[i] == j);
            }
            assert(all[s.len() as int] == k);
        }
        if s.len() > 0 {
            assert(s.contains(s[s.len() - 1]));
        }
        assert forall|i: int, j: int| 0 <= i < j < all.len() implies #[trigger] all[i]
            < #[trigger] all[j] by {
            if j == s.len() {
                if i < s.len() - 1 {
                    assert(s[i] < s[s.len() - 1]);
                }
            } else {
                assert(s[i] < s[j]);
            }
        }
    }
}

/// The keys of a table can be listed in increasing order.
pub proof fn lemma_keys_can_be_listed<V>(m: Map<u128, V>)
    requires
        m.dom().finite(),
    ensures
        lists_keys(keys_in_order(m), m),
    decreases m.dom().len(),
{
    if m.dom().len() == 0 {
        assert forall|k: u128| !#[trigger] m.contains_key(k) by {
            assert(m.dom() =~= Set::empty());
        }
        assert(lists_keys(seq![], m));
    } else {
        let k = m.dom().choose();
        let fewer = m.remove(k);
        lemma_keys_can_be_listed(fewer);
        let s = keys_in_order(fewer);
        assert(!s.contains(k)) by {
            assert(!fewer.contains_key(k));
        }
        lemma_with_key(s, k);
        let all = with_key(s, k);
        assert forall|j: u128| #[trigger] m.contains_key(j) <==> all.contains(j) by {
            assert(fewer.contains_key(j) <==> m.contains_key(j) && j != k);
            assert(fewer.contains_key(j) <==> s.contains(j));
        }
        assert(lists_keys(all, m));
    }
}

/// The keys of a table are those of the table of its views.
pub proof fn lemma_keys_of_views<V: View>(m: Map<u128, V>, s: Seq<u128>)
    requires
        lists_keys(s, m),
    ensures
        keys_in_order(m.map_values(|v: V| v@)) == s,
{
    let n = m.map_values(|v: V| v@);
    assert forall|k: u128| #[trigger] n.contains_key(k) <==> s.contains(k) by {
        assert(m.contains_key(k) <==> s.contains(k));
    }
    lemma_keys_in_order(n, s);
}

/// The keys of a table in increasing order.
pub fn keys_of<V>(m: &BTreeMap<u128, V>) -> (r: Vec<u128>)
    ensures
        lists_keys(r@, m@),
{
    broadcast use vstd::std_specs::btree::group_btree_axioms;
    broadcast use vstd::laws_cmp::group_laws_cmp;

    let mut out: Vec<u128> = Vec::new();
    let entries = m.iter();
    let ghost listed = entries.remaining();
    let ghost keys = listed.map_values(|kv: (&u128, &V)| *kv.0);
    assert(vstd::laws_cmp::obeys_cmp::<u128>());
    assert(vstd::std_specs::btree::key_obeys_cmp_spec::<u128>());
    assert(vstd::std_specs::btree::increasing_seq(keys));
    for (k, _v) in it: entries
        invariant
            it.seq() == listed,
            keys == listed.map_values(|kv: (&u128, &V)| *kv.0),
            out@ == keys.take(it.index()),
    {
        out.push(*k);
    }
    proof {
        assert(out@ =~= keys);
        assert forall|i: int, j: int| 0 <= i < j < keys.len() implies #[trigger] keys[i]
            < #[trigger] keys[j] by {
            assert(vstd::std_specs::cmp::OrdSpec::cmp_spec(&keys[i], &keys[j]) is Less);
        }
        assert forall|k: u128| #[trigger] m@.contains_key(k) <==> keys.contains(k) by {
            if m@.contains_key(k) {
                let i = choose|i: int| 0 <= i < listed.len() && listed[i] == (&k, &m@[k]);
                assert(keys[i] == k);
            }
            if keys.contains(k) {
                let i = choose|i: int| 0 <= i < keys.len() && keys[i] == k;
                assert(m@.contains_key(*listed[i].0));
            }
        }
    }
    out
}

/// The record at `k`.
pub fn find<'a, V>(m: &'a BTreeMap<u128, V>, k: u128) -> (r: Option<&'a V>)
    ensures
        match r {
            Some(v) => m@.contains_key(k) && *v == m@[k],
            None => !m@.contains_key(k),
        },
{
    broadcast use vstd::std_specs::btree::group_btree_axioms;
    broadcast use vstd::laws_cmp::group_laws_cmp;

    assert(vstd::laws_cmp::obeys_cmp::<u128>());
    m.get(&k)
}

/// Sets the record at `k` and hands back the one that was there.
pub fn put<V>(m: &mut BTreeMap<u128, V>, k: u128, v: V) -> (r: Option<V>)
    ensures
        final(m)@ == old(m)@.insert(k, v),
        match r {
            Some(previous) => old(m)@.contains_key(k) && previous == old(m)@[k],
            None => !old(m)@.contains_key(k),
        },
{
    broadcast use vstd::std_specs::btree::group_btree_axioms;
    broadcast use vstd::laws_cmp::group_laws_cmp;

    assert(vstd::laws_cmp::obeys_cmp::<u128>());
    m.insert(k, v)
}

/// Removes the record at `k` and hands it back.
pub fn take<V>(m: &mut BTreeMap<u128, V>, k: u128) -> (r: Option<V>)
    ensures
        final(m)@ == old(m)@.remove(k),
        match r {
            Some(previous) => old(m)@.contains_key(k) && previous == old(m)@[k],
            None => !old(m)@.contains_key(k),
        },
{
    broadcast use vstd::std_specs::btree::group_btree_axioms;
    broadcast use vstd::laws_cmp::group_laws_cmp;

    assert(vstd::laws_cmp::obeys_cmp::<u128>());
    m.remove(&k)
}

/// Whether `k` is the first key of `m` whose record satisfies `p`.
pub open spec fn is_first<V>(m: Map<u128, V>, p: spec_fn(V) -> bool, k: u128) -> bool {
    &&& m.contains_key(k)
    &&& p(m[k])
    &&& forall|j: u128| #[trigger] m.contains_key(j) && j < k ==> !p(m[j])
}

/// The first key of `m` whose record satisfies `p`.
pub open spec fn first_match<V>(m: Map<u128, V>, p: spec_fn(V) -> bool) -> Option<u128> {
    if exists|k: u128| is_first(m, p, k) {
        Some(choose|k: u128| is_first(m, p, k))
    } else {
        None
    }
}

/// There is one first match.
pub proof fn lemma_first_match<V>(m: Map<u128, V>, p: spec_fn(V) -> bool, k: u128)
    requires
        is_first(m, p, k),
    ensures
        first_match(m, p) == Some(k),
{
    let chosen = choose|j: u128| is_first(m, p, j);
    assert(is_first(m, p, chosen));
    if chosen < k {
        assert(m.contains_key(chosen));
    } else if k < chosen {
        assert(m.contains_key(k));
    }
}

/// Whether some record of `m` satisfies `p`.
pub open spec fn any_match<V>(m: Map<u128, V>, p: spec_fn(V) -> bool) -> bool {
    exists|k: u128| #[trigger] m.contains_key(k) && p(m[k])
}

/// Where no record matches there is no first match.
pub proof fn lemma_no_match<V>(m: Map<u128, V>, p: spec_fn(V) -> bool)
    requires
        !any_match(m, p),
    ensures
        first_match(m, p) is None,
{
    assert forall|k: u128| !is_first(m, p, k) by {
        if is_first(m, p, k) {
            assert(m.contains_key(k) && p(m[k]));
        }
    }
}

/// Looks for the first record that satisfies `test`, which decides `p`.
pub fn first_where<V, F: Fn(&V) -> bool>(
    m: &BTreeMap<u128, V>,
    test: F,
    Ghost(p): Ghost<spec_fn(V) -> bool>,
) -> (r: Option<u128>)
    requires
        forall|v: &V| call_requires(test, (v,)),
        forall|v: &V, b: bool| call_ensures(test, (v,), b) ==> b == p(*v),
    ensures
        match r {
            Some(k) => is_first(m@, p, k),
            None => !any_match(m@, p),
        },
        r == first_match(m@, p),
{
    let keys = keys_of(m);
    let mut i: usize = 0;
    while i < keys.len()
        invariant
            lists_keys(keys@, m@),
            i <= keys@.len(),
            forall|v: &V| call_requires(test, (v,)),
            forall|v: &V, b: bool| call_ensures(test, (v,), b) ==> b == p(*v),
            forall|j: int| 0 <= j < i ==> !p(m@[#[trigger] keys@[j]]),
        decreases keys@.len() - i,
    {
        let k: u128 = keys[i];
        assert(keys@.contains(k));
        assert(m@.contains_key(k));
        if let Some(v) = find(m, k) {
            if test(v) {
                proof {
                    assert forall|j: u128| #[trigger] m@.contains_key(j) && j < k implies !p(m@[j]) by {
                        let at = choose|at: int| 0 <= at < keys@.len() && keys@[at] == j;
                        if at > i {
                            assert(keys@[i as int] < keys@[at]);
                        }
                    }
                    lemma_first_match(m@, p, k);
                }
                return Some(k);
            }
        }
        i += 1;
    }
    proof {
        assert forall|k: u128| #[trigger] m@.contains_key(k) implies !p(m@[k]) by {
            let at = choose|at: int| 0 <= at < keys@.len() && keys@[at] == k;
            assert(!p(m@[keys@[at]]));
        }
        lemma_no_match(m@, p);
    }
    None
}

/// A first match among records is one among their views.
pub proof fn lemma_first_match_view<V: View>(m: Map<u128, V>, q: spec_fn(V::V) -> bool)
    ensures
        first_match(m, |v: V| q(v@)) == first_match(m.map_values(|v: V| v@), q),
        any_match(m, |v: V| q(v@)) == any_match(m.map_values(|v: V| v@), q),
{
    let p = |v: V| q(v@);
    let n = m.map_values(|v: V| v@);
    assert forall|k: u128| is_first(m, p, k) <==> is_first(n, q, k) by {
        assert(forall|j: u128| m.contains_key(j) ==> p(#[trigger] m[j]) == q(n[j]));
        if is_first(m, p, k) {
            assert forall|j: u128| #[trigger] n.contains_key(j) && j < k implies !q(n[j]) by {
                assert(m.contains_key(j));
                assert(!p(m[j]));
            }
        }
        if is_first(n, q, k) {
            assert(m.contains_key(k) && p(m[k]));
            assert forall|j: u128| #[trigger] m.contains_key(j) && j < k implies !p(m[j]) by {
                assert(n.contains_key(j));
                assert(!q(n[j]));
            }
        }
    }
    if exists|k: u128| is_first(m, p, k) {
        let k = choose|k: u128| is_first(m, p, k);
        assert(is_first(n, q, k));
        lemma_first_match(m, p, k);
        lemma_first_match(n, q, k);
    } else {
        assert(forall|k: u128| !is_first(n, q, k));
    }
    if any_match(m, p) {
        let k = choose|k: u128| #[trigger] m.contains_key(k) && p(m[k]);
        assert(n.contains_key(k) && q(n[k]));
    }
    if any_match(n, q) {
        let k = choose|k: u128| #[trigger] n.contains_key(k) && q(n[k]);
        assert(m.contains_key(k) && p(m[k]));
    }
}

/// Whether `r` lists the records of `m` that satisfy `p`, in the order of their
/// keys.
pub open spec fn lists_matching<V>(r: Seq<V>, m: Map<u128, V>, p: spec_fn(V) -> bool) -> bool {
    exists|keys: Seq<u128>| #[trigger] lists_matching_at(r, m, p, keys)
}

/// Whether `r` lists the records of `m` that satisfy `p`, which stand at `keys`.
pub open spec fn lists_matching_at<V>(
    r: Seq<V>,
    m: Map<u128, V>,
    p: spec_fn(V) -> bool,
    keys: Seq<u128>,
) -> bool {
    &&& increasing(keys)
    &&& r.len() == keys.len()
    &&& forall|k: u128| #[trigger] keys.contains(k) <==> m.contains_key(k) && p(m[k])
    &&& forall|i: int| 0 <= i < r.len() ==> #[trigger] r[i] == m[keys[i]]
}

/// A table is read in the order of its keys: there is a list of all its keys,
/// each once and in increasing order, and what is read are the records at them.
pub proof fn law_table_is_read_in_order<V>(m: Map<u128, V>)
    requires
        m.dom().finite(),
    ensures
        exists|keys: Seq<u128>|
            {
                &&& #[trigger] keys.len() == values_in_order(m).len()
                &&& forall|k: u128| m.contains_key(k) <==> #[trigger] keys.contains(k)
                &&& forall|i: int, j: int|
                    0 <= i < j < keys.len() ==> #[trigger] keys[i] < #[trigger] keys[j]
                &&& forall|i: int|
                    0 <= i < keys.len() ==> #[trigger] values_in_order(m)[i] == m[keys[i]]
            },
{
    lemma_keys_can_be_listed(m);
    let keys = keys_in_order(m);
    assert(keys.len() == values_in_order(m).len());
}

/// Where a record matches there is a first one.
pub proof fn lemma_first_match_exists<V>(m: Map<u128, V>, p: spec_fn(V) -> bool, k: u128)
    requires
        m.contains_key(k),
        p(m[k]),
    ensures
        first_match(m, p) is Some,
    decreases k,
{
    if exists|j: u128| #[trigger] m.contains_key(j) && j < k && p(m[j]) {
        let j = choose|j: u128| #[trigger] m.contains_key(j) && j < k && p(m[j]);
        lemma_first_match_exists(m, p, j);
    } else {
        assert(is_first(m, p, k));
    }
}

/// A list of the matching records has every record that matches and no other.
pub proof fn law_matching_records_are_listed<V>(
    r: Seq<V>,
    m: Map<u128, V>,
    p: spec_fn(V) -> bool,
    k: u128,
    i: int,
)
    requires
        lists_matching(r, m, p),
    ensures
        m.contains_key(k) && p(m[k]) ==> r.contains(m[k]),
        0 <= i < r.len() ==> p(r[i]) && exists|j: u128| #[trigger] m.contains_key(j) && m[j] == r[i],
{
    let keys = choose|keys: Seq<u128>| lists_matching_at(r, m, p, keys);
    if m.contains_key(k) && p(m[k]) {
        assert(keys.contains(k));
        let at = choose|at: int| 0 <= at < keys.len() && keys[at] == k;
        assert(r[at] == m[k]);
    }
    if 0 <= i < r.len() {
        assert(keys.contains(keys[i]));
        assert(m.contains_key(keys[i]));
    }
}

} // verus!
