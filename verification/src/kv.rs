use vstd::prelude::*;

use crate::strutil::str_eq;

verus! {

/// Association lists with `String` keys stand in for hash maps throughout the
/// crate: every lookup and update is specified against the `Map` value built
/// by `kv_map`, and every holder keeps the `kv_keys_unique` invariant.
pub open spec fn kv_keys_unique<V>(s: Seq<(String, V)>) -> bool {
    forall|i: int, j: int| 0 <= i < j < s.len() ==> s[i].0@ != s[j].0@
}

pub open spec fn kv_has_key<V>(s: Seq<(String, V)>, k: Seq<char>) -> bool {
    exists|i: int| 0 <= i < s.len() && s[i].0@ == k
}

/// The map an association list denotes; a repeated key takes its last value.
pub open spec fn kv_map<V>(s: Seq<(String, V)>) -> Map<Seq<char>, V>
    decreases s.len(),
{
    if s.len() == 0 {
        Map::empty()
    } else {
        kv_map(s.drop_last()).insert(s.last().0@, s.last().1)
    }
}

pub proof fn lemma_kv_map_dom<V>(s: Seq<(String, V)>)
    ensures
        forall|k: Seq<char>| kv_map(s).dom().contains(k) <==> kv_has_key(s, k),
    decreases s.len(),
{
    if s.len() > 0 {
        lemma_kv_map_dom(s.drop_last());
        assert forall|k: Seq<char>| kv_map(s).dom().contains(k) implies kv_has_key(s, k) by {
            if k == s.last().0@ {
                let i = s.len() - 1;
                assert(0 <= i < s.len() && s[i as int].0@ == k);
            } else {
                assert(kv_map(s.drop_last()).dom().contains(k));
                assert(kv_has_key(s.drop_last(), k));
                let i = choose|i: int| 0 <= i < s.drop_last().len() && s.drop_last()[i].0@ == k;
                assert(s.drop_last()[i] == s[i]);
                assert(0 <= i < s.len() && s[i].0@ == k);
            }
        }
        assert forall|k: Seq<char>| kv_has_key(s, k) implies kv_map(s).dom().contains(k) by {
            let i = choose|i: int| 0 <= i < s.len() && s[i].0@ == k;
            if i < s.len() - 1 {
                assert(s.drop_last()[i] == s[i]);
                assert(kv_has_key(s.drop_last(), k));
            }
        }
    }
}

pub proof fn lemma_kv_map_index<V>(s: Seq<(String, V)>, i: int)
    requires
        kv_keys_unique(s),
        0 <= i < s.len(),
    ensures
        kv_map(s).dom().contains(s[i].0@),
        kv_map(s)[s[i].0@] == s[i].1,
    decreases s.len(),
{
    lemma_kv_map_dom(s);
    if i < s.len() - 1 {
        assert(kv_keys_unique(s.drop_last())) by {
            assert(forall|x: int, y: int|
                0 <= x < y < s.drop_last().len() ==> s.drop_last()[x].0@ != s.drop_last()[y].0@);
        }
        lemma_kv_map_index(s.drop_last(), i);
        assert(s[i].0@ != s.last().0@);
    }
}

/// Appending a fresh key adds one binding and leaves the rest alone.
pub proof fn lemma_kv_map_push<V>(s: Seq<(String, V)>, p: (String, V))
    ensures
        kv_map(s.push(p)) == kv_map(s).insert(p.0@, p.1),
{
    assert(s.push(p).drop_last() =~= s);
    assert(s.push(p).last() == p);
}

/// Updating the value at an existing key's index updates just that binding.
pub proof fn lemma_kv_map_update<V>(s: Seq<(String, V)>, i: int, p: (String, V))
    requires
        kv_keys_unique(s),
        0 <= i < s.len(),
        p.0@ == s[i].0@,
    ensures
        kv_map(s.update(i, p)) == kv_map(s).insert(p.0@, p.1),
        kv_keys_unique(s.update(i, p)),
    decreases s.len(),
{
    let t = s.update(i, p);
    assert(kv_keys_unique(t));
    if i == s.len() - 1 {
        assert(t.drop_last() =~= s.drop_last());
        assert(kv_map(t) =~= kv_map(s).insert(p.0@, p.1));
    } else {
        assert(kv_keys_unique(s.drop_last()));
        assert(t.drop_last() =~= s.drop_last().update(i, p));
        lemma_kv_map_update(s.drop_last(), i, p);
        assert(t.last() == s.last());
        assert(kv_map(t) =~= kv_map(s.drop_last()).insert(p.0@, p.1).insert(s.last().0@, s.last().1));
        assert(s[i].0@ != s.last().0@);
        assert(kv_map(s.drop_last()).insert(p.0@, p.1).insert(s.last().0@, s.last().1)
            =~= kv_map(s.drop_last()).insert(s.last().0@, s.last().1).insert(p.0@, p.1));
    }
}

/// The list with each `String` key replaced by its character sequence; two
/// lists with the same `kv_view` denote the same map.
pub open spec fn kv_view<V>(s: Seq<(String, V)>) -> Seq<(Seq<char>, V)> {
    s.map_values(|p: (String, V)| (p.0@, p.1))
}

pub proof fn lemma_kv_view_map<V>(a: Seq<(String, V)>, b: Seq<(String, V)>)
    requires
        kv_view(a) == kv_view(b),
    ensures
        a.len() == b.len(),
        kv_map(a) == kv_map(b),
        kv_keys_unique(a) == kv_keys_unique(b),
        forall|k: Seq<char>| kv_has_key(a, k) == kv_has_key(b, k),
    decreases a.len(),
{
    assert(kv_view(a).len() == a.len());
    assert(kv_view(b).len() == b.len());
    assert forall|i: int| 0 <= i < a.len() implies a[i].0@ == b[i].0@ && a[i].1 == b[i].1 by {
        assert(kv_view(a)[i] == (a[i].0@, a[i].1));
        assert(kv_view(b)[i] == (b[i].0@, b[i].1));
    }
    if a.len() > 0 {
        assert(kv_view(a.drop_last()) =~= kv_view(b.drop_last()));
        lemma_kv_view_map(a.drop_last(), b.drop_last());
        assert(kv_map(a) =~= kv_map(b));
    } else {
        assert(kv_map(a) =~= kv_map(b));
    }
    assert forall|k: Seq<char>| kv_has_key(a, k) == kv_has_key(b, k) by {
        if kv_has_key(a, k) {
            let i = choose|i: int| 0 <= i < a.len() && a[i].0@ == k;
            assert(b[i].0@ == k);
        }
        if kv_has_key(b, k) {
            let i = choose|i: int| 0 <= i < b.len() && b[i].0@ == k;
            assert(a[i].0@ == k);
        }
    }
}

/// The map denoted by a view-level association list.
pub open spec fn vkv_map<V>(s: Seq<(Seq<char>, V)>) -> Map<Seq<char>, V>
    decreases s.len(),
{
    if s.len() == 0 {
        Map::empty()
    } else {
        vkv_map(s.drop_last()).insert(s.last().0, s.last().1)
    }
}

pub proof fn lemma_kv_map_is_vkv_map<V>(s: Seq<(String, V)>)
    ensures
        kv_map(s) == vkv_map(kv_view(s)),
    decreases s.len(),
{
    if s.len() > 0 {
        lemma_kv_map_is_vkv_map(s.drop_last());
        assert(kv_view(s).drop_last() =~= kv_view(s.drop_last()));
        assert(kv_view(s).last() == (s.last().0@, s.last().1));
        assert(kv_map(s) =~= vkv_map(kv_view(s)));
    } else {
        assert(kv_map(s) =~= vkv_map(kv_view(s)));
    }
}

/// The index of `key` in the list, if any.
pub fn kv_find<V>(v: &Vec<(String, V)>, key: &str) -> (r: Option<usize>)
    ensures
        match r {
            Some(i) => i < v@.len() && v@[i as int].0@ == key@,
            None => !kv_has_key(v@, key@),
        },
{
    let mut i: usize = 0;
    while i < v.len()
        invariant
            i <= v@.len(),
            forall|j: int| 0 <= j < i ==> v@[j].0@ != key@,
        decreases v@.len() - i,
    {
        if str_eq(v[i].0.as_str(), key) {
            return Some(i);
        }
        i = i + 1;
    }
    None
}

/// Replaces the value at position `i`, keeping the key.
pub fn kv_set_at<V>(v: &mut Vec<(String, V)>, i: usize, value: V)
    requires
        i < old(v)@.len(),
    ensures
        final(v)@ == old(v)@.update(i as int, (old(v)@[i as int].0, value)),
{
    let pair = v.remove(i);
    v.insert(i, (pair.0, value));
    proof {
        assert(v@ =~= old(v)@.update(i as int, (old(v)@[i as int].0, value)));
    }
}

/// The first index of key `k` in a view-level list, or `-1`.
pub open spec fn sfind<V>(s: Seq<(Seq<char>, V)>, k: Seq<char>) -> int
    decreases s.len(),
{
    if s.len() == 0 {
        -1
    } else if s.first().0 == k {
        0
    } else {
        let r = sfind(s.drop_first(), k);
        if r < 0 {
            -1
        } else {
            r + 1
        }
    }
}

pub proof fn lemma_sfind<V>(s: Seq<(Seq<char>, V)>, k: Seq<char>)
    ensures
        sfind(s, k) >= 0 ==> sfind(s, k) < s.len() && s[sfind(s, k)].0 == k,
        sfind(s, k) < 0 ==> forall|i: int| 0 <= i < s.len() ==> (#[trigger] s[i]).0 != k,
        sfind(s, k) >= 0 ==> forall|i: int| 0 <= i < sfind(s, k) ==> (#[trigger] s[i]).0 != k,
    decreases s.len(),
{
    if s.len() > 0 && s.first().0 != k {
        lemma_sfind(s.drop_first(), k);
        if sfind(s.drop_first(), k) < 0 {
            assert forall|i: int| 0 <= i < s.len() implies (#[trigger] s[i]).0 != k by {
                if i > 0 {
                    assert(s.drop_first()[i - 1] == s[i]);
                }
            }
        } else {
            assert forall|i: int| 0 <= i < sfind(s, k) implies (#[trigger] s[i]).0 != k by {
                if i > 0 {
                    assert(s.drop_first()[i - 1] == s[i]);
                }
            }
            assert(s.drop_first()[sfind(s.drop_first(), k)] == s[sfind(s, k)]);
        }
    }
}

/// Appending cannot move an existing key's first index, and places a fresh
/// key at the end.
pub proof fn lemma_sfind_push<V>(s: Seq<(Seq<char>, V)>, p: (Seq<char>, V), k: Seq<char>)
    ensures
        k != p.0 ==> sfind(s.push(p), k) == sfind(s, k),
        k == p.0 && sfind(s, k) < 0 ==> sfind(s.push(p), k) == s.len(),
        k == p.0 && sfind(s, k) >= 0 ==> sfind(s.push(p), k) == sfind(s, k),
    decreases s.len(),
{
    let t = s.push(p);
    if s.len() == 0 {
        assert(t.first() == p);
        assert(t.drop_first() =~= Seq::<(Seq<char>, V)>::empty());
        assert(sfind(t.drop_first(), k) == -1);
        if t.first().0 == k {
            assert(sfind(t, k) == 0);
        } else {
            assert(sfind(t, k) == -1);
        }
        assert(sfind(s, k) == -1);
    } else {
        assert(t.first() == s.first());
        assert(t.drop_first() =~= s.drop_first().push(p));
        lemma_sfind_push(s.drop_first(), p, k);
        assert(sfind(t.drop_first(), k) == sfind(s.drop_first().push(p), k));
        if s.first().0 == k {
            assert(sfind(t, k) == 0);
            assert(sfind(s, k) == 0);
        }
    }
}

/// Replacing a value in place, key kept, moves no first index.
pub proof fn lemma_sfind_update<V>(s: Seq<(Seq<char>, V)>, i: int, p: (Seq<char>, V), k: Seq<char>)
    requires
        0 <= i < s.len(),
        p.0 == s[i].0,
    ensures
        sfind(s.update(i, p), k) == sfind(s, k),
    decreases s.len(),
{
    let t = s.update(i, p);
    assert(t.len() == s.len());
    assert(t.first() == if i == 0 { p } else { s.first() });
    if i == 0 {
        if s.first().0 != k {
            assert(t.drop_first() =~= s.drop_first());
        }
    } else {
        if s.first().0 != k {
            assert(t.drop_first() =~= s.drop_first().update(i - 1, p));
            lemma_sfind_update(s.drop_first(), i - 1, p, k);
        }
    }
}

/// Decides key uniqueness for an association list.
pub fn keys_unique_check<V>(v: &Vec<(String, V)>) -> (r: bool)
    ensures
        r == kv_keys_unique(v@),
{
    let mut i: usize = 0;
    while i < v.len()
        invariant
            i <= v@.len(),
            forall|x: int, y: int| 0 <= x < y < v@.len() && y < i ==> v@[x].0@ != v@[y].0@,
        decreases v@.len() - i,
    {
        let mut j: usize = 0;
        while j < i
            invariant
                j <= i,
                i < v@.len(),
                forall|x: int| 0 <= x < j ==> v@[x].0@ != v@[i as int].0@,
            decreases i - j,
        {
            if str_eq(v[j].0.as_str(), v[i].0.as_str()) {
                return false;
            }
            j = j + 1;
        }
        i = i + 1;
    }
    true
}

} // verus!
