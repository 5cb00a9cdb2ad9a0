//! Insertion-ordered string-keyed association lists: the map model used for
//! the compose file's keyed sections.
use vstd::prelude::*;

verus! {

/// The map denoted by a list of entries; a later entry for a key replaces an
/// earlier one.
pub open spec fn kv_map<V>(s: Seq<(Seq<char>, V)>) -> Map<Seq<char>, V>
    decreases s.len(),
{
    if s.len() == 0 {
        Map::empty()
    } else {
        kv_map(s.drop_last()).insert(s.last().0, s.last().1)
    }
}

/// No key occurs twice.
pub open spec fn unique_keys<V>(s: Seq<(Seq<char>, V)>) -> bool {
    forall|i: int, j: int| 0 <= i < j < s.len() ==> (#[trigger] s[i]).0 != (#[trigger] s[j]).0
}

/// The keys, in order.
pub open spec fn kv_keys<V>(s: Seq<(Seq<char>, V)>) -> Seq<Seq<char>> {
    Seq::new(s.len(), |i: int| s[i].0)
}

pub proof fn lemma_kv_map_domain<V>(s: Seq<(Seq<char>, V)>, key: Seq<char>)
    ensures
        kv_map(s).contains_key(key) <==> exists|i: int| 0 <= i < s.len() && (#[trigger] s[i]).0 == key,
    decreases s.len(),
{
    if s.len() > 0 {
        let t = s.drop_last();
        lemma_kv_map_domain(t, key);
        assert(forall|i: int| 0 <= i < t.len() ==> t[i] == s[i]);
        if kv_map(s).contains_key(key) && key != s.last().0 {
            let i = choose|i: int| 0 <= i < t.len() && (#[trigger] t[i]).0 == key;
            assert(s[i].0 == key);
        }
        if exists|i: int| 0 <= i < s.len() && (#[trigger] s[i]).0 == key {
            let i = choose|i: int| 0 <= i < s.len() && (#[trigger] s[i]).0 == key;
            if i < s.len() - 1 {
                assert(t[i].0 == key);
            }
        }
    }
}

/// With unique keys, each entry is what the map holds for its key.
pub proof fn lemma_kv_map_entry<V>(s: Seq<(Seq<char>, V)>, i: int)
    requires
        unique_keys(s),
        0 <= i < s.len(),
    ensures
        kv_map(s).contains_key(s[i].0),
        kv_map(s)[s[i].0] == s[i].1,
    decreases s.len(),
{
    let t = s.drop_last();
    if i < s.len() - 1 {
        assert(t[i] == s[i]);
        assert(unique_keys(t)) by {
            assert forall|a: int, b: int| 0 <= a < b < t.len() implies (#[trigger] t[a]).0 != (#[trigger] t[b]).0 by {
                assert(t[a] == s[a] && t[b] == s[b]);
            }
        }
        lemma_kv_map_entry(t, i);
        assert(s[i].0 != s.last().0);
    }
}

proof fn lemma_kv_map_update<V>(s: Seq<(Seq<char>, V)>, i: int, x: V)
    requires
        unique_keys(s),
        0 <= i < s.len(),
    ensures
        kv_map(s.update(i, (s[i].0, x))) =~= kv_map(s).insert(s[i].0, x),
    decreases s.len(),
{
    let k = s[i].0;
    let u = s.update(i, (k, x));
    let t = s.drop_last();
    if i == s.len() - 1 {
        assert(u.drop_last() =~= t);
    } else {
        assert(u.drop_last() =~= t.update(i, (k, x)));
        assert(t[i] == s[i]);
        assert(unique_keys(t)) by {
            assert forall|a: int, b: int| 0 <= a < b < t.len() implies (#[trigger] t[a]).0 != (#[trigger] t[b]).0 by {
                assert(t[a] == s[a] && t[b] == s[b]);
            }
        }
        lemma_kv_map_update(t, i, x);
        assert(s[i].0 != s.last().0);
        assert(u.last() == s.last());
    }
}

/// Index of the entry with key `k`, if any.
pub fn kv_find<V>(v: &Vec<(String, V)>, k: &str) -> (r: Option<usize>)
    ensures
        r matches Some(i) ==> i < v@.len() && v@[i as int].0@ == k@
            && forall|j: int| 0 <= j < i ==> (#[trigger] v@[j]).0@ != k@,
        r is None ==> forall|i: int| 0 <= i < v@.len() ==> (#[trigger] v@[i]).0@ != k@,
{
    let mut i: usize = 0;
    while i < v.len()
        invariant
            i <= v@.len(),
            forall|j: int| 0 <= j < i ==> (#[trigger] v@[j]).0@ != k@,
        decreases v@.len() - i,
    {
        if crate::text::str_eq(v[i].0.as_str(), k) {
            return Some(i);
        }
        i = i + 1;
    }
    None
}

/// The value of the first entry whose key is `k`.
pub open spec fn kv_lookup<V>(s: Seq<(String, V)>, k: Seq<char>) -> Option<V>
    decreases s.len(),
{
    if s.len() == 0 {
        None
    } else if s[0].0@ == k {
        Some(s[0].1)
    } else {
        kv_lookup(s.drop_first(), k)
    }
}

pub proof fn lemma_kv_lookup_at<V>(s: Seq<(String, V)>, k: Seq<char>, i: int)
    requires
        0 <= i < s.len(),
        s[i].0@ == k,
        forall|j: int| 0 <= j < i ==> (#[trigger] s[j]).0@ != k,
    ensures
        kv_lookup(s, k) == Some(s[i].1),
    decreases s.len(),
{
    if i > 0 {
        assert(s[0].0@ != k);
        let t = s.drop_first();
        assert forall|j: int| 0 <= j < i - 1 implies (#[trigger] t[j]).0@ != k by {
            assert(t[j] == s[j + 1]);
        }
        lemma_kv_lookup_at(t, k, i - 1);
    }
}

pub proof fn lemma_kv_lookup_none<V>(s: Seq<(String, V)>, k: Seq<char>)
    requires
        forall|j: int| 0 <= j < s.len() ==> (#[trigger] s[j]).0@ != k,
    ensures
        kv_lookup(s, k) is None,
    decreases s.len(),
{
    if s.len() > 0 {
        assert(s[0].0@ != k);
        let t = s.drop_first();
        assert forall|j: int| 0 <= j < t.len() implies (#[trigger] t[j]).0@ != k by {
            assert(t[j] == s[j + 1]);
        }
        lemma_kv_lookup_none(t, k);
    }
}

/// Looks up `k`: the first entry with that key.
pub fn kv_get<'a, V>(v: &'a Vec<(String, V)>, k: &str) -> (r: Option<&'a V>)
    ensures
        match r {
            Some(x) => kv_lookup(v@, k@) == Some(*x),
            None => kv_lookup(v@, k@) is None,
        },
{
    match kv_find(v, k) {
        Some(i) => {
            proof { lemma_kv_lookup_at(v@, k@, i as int); }
            Some(&v[i].1)
        },
        None => {
            proof { lemma_kv_lookup_none(v@, k@); }
            None
        },
    }
}

pub proof fn lemma_kv_lookup_push<V>(s: Seq<(String, V)>, e: (String, V), k: Seq<char>)
    ensures
        kv_lookup(s.push(e), k) == match kv_lookup(s, k) {
            Some(x) => Some(x),
            None => if e.0@ == k { Some(e.1) } else { None },
        },
    decreases s.len(),
{
    let u = s.push(e);
    if s.len() > 0 {
        assert(u[0] == s[0]);
        assert(u.drop_first() =~= s.drop_first().push(e));
        lemma_kv_lookup_push(s.drop_first(), e, k);
        if s[0].0@ == k {
            assert(kv_lookup(u, k) == Some(s[0].1));
        } else {
            assert(kv_lookup(u, k) == kv_lookup(u.drop_first(), k));
            assert(kv_lookup(s, k) == kv_lookup(s.drop_first(), k));
        }
    } else {
        assert(u[0] == e);
        assert(u.drop_first() =~= Seq::<(String, V)>::empty());
        assert(kv_lookup(u.drop_first(), k) is None);
    }
}

pub proof fn lemma_kv_lookup_some<V>(s: Seq<(String, V)>, k: Seq<char>)
    ensures
        kv_lookup(s, k) is Some <==> key_views(s).contains(k),
    decreases s.len(),
{
    if s.len() > 0 {
        let t = s.drop_first();
        lemma_kv_lookup_some(t, k);
        if key_views(t).contains(k) {
            let j = choose|j: int| 0 <= j < key_views(t).len() && key_views(t)[j] == k;
            assert(key_views(s)[j + 1] == k);
        }
        if key_views(s).contains(k) && s[0].0@ != k {
            let j = choose|j: int| 0 <= j < key_views(s).len() && key_views(s)[j] == k;
            assert(j != 0);
            assert(key_views(t)[j - 1] == k);
        }
        assert(key_views(s)[0] == s[0].0@);
    }
}

pub proof fn lemma_contains_push<A>(s: Seq<A>, y: A, k: A)
    ensures
        s.push(y).contains(k) <==> (s.contains(k) || y == k),
{
    if s.contains(k) {
        let j = choose|j: int| 0 <= j < s.len() && s[j] == k;
        assert(s.push(y)[j] == k);
    }
    if y == k {
        assert(s.push(y)[s.len() as int] == k);
    }
    if s.push(y).contains(k) && y != k {
        let j = choose|j: int| 0 <= j < s.push(y).len() && s.push(y)[j] == k;
        assert(j < s.len());
        assert(s[j] == k);
    }
}

/// `t` with each entry of `o` appended, in order, whose key `t` (as grown
/// so far) does not hold yet: entries already present win.
pub open spec fn absorb<V>(t: Seq<(String, V)>, o: Seq<(String, V)>) -> Seq<(String, V)>
    decreases o.len(),
{
    if o.len() == 0 {
        t
    } else {
        let a = absorb(t, o.drop_last());
        if key_views(a).contains(o.last().0@) { a } else { a.push(o.last()) }
    }
}

pub proof fn lemma_absorb_keys<V>(t: Seq<(String, V)>, o: Seq<(String, V)>, k: Seq<char>)
    ensures
        key_views(absorb(t, o)).contains(k) <==> (key_views(t).contains(k) || key_views(o).contains(k)),
    decreases o.len(),
{
    if o.len() > 0 {
        let o1 = o.drop_last();
        let a = absorb(t, o1);
        lemma_absorb_keys(t, o1, k);
        lemma_absorb_keys(t, o1, o.last().0@);
        assert(key_views(o) =~= key_views(o1).push(o.last().0@));
        lemma_contains_push(key_views(o1), o.last().0@, k);
        if !key_views(a).contains(o.last().0@) {
            assert(key_views(a.push(o.last())) =~= key_views(a).push(o.last().0@));
            lemma_contains_push(key_views(a), o.last().0@, k);
        }
    }
}

/// The entries already present keep their values; an entry of `o` counts
/// only for a key `t` lacks (the first such entry).
pub proof fn lemma_absorb_lookup<V>(t: Seq<(String, V)>, o: Seq<(String, V)>, k: Seq<char>)
    ensures
        kv_lookup(absorb(t, o), k) == match kv_lookup(t, k) {
            Some(x) => Some(x),
            None => kv_lookup(o, k),
        },
    decreases o.len(),
{
    if o.len() > 0 {
        let o1 = o.drop_last();
        let e = o.last();
        let a = absorb(t, o1);
        lemma_absorb_lookup(t, o1, k);
        assert(o =~= o1.push(e));
        lemma_kv_lookup_push(o1, e, k);
        if key_views(a).contains(e.0@) {
            if e.0@ == k && kv_lookup(t, k) is None && kv_lookup(o1, k) is None {
                lemma_kv_lookup_some(t, k);
                lemma_kv_lookup_some(o1, k);
                lemma_absorb_keys(t, o1, k);
            }
        } else {
            lemma_kv_lookup_push(a, e, k);
        }
    }
}

pub proof fn lemma_absorb_prefix<V>(t: Seq<(String, V)>, o: Seq<(String, V)>)
    ensures
        t.len() <= absorb(t, o).len(),
        absorb(t, o).take(t.len() as int) == t,
    decreases o.len(),
{
    if o.len() > 0 {
        lemma_absorb_prefix(t, o.drop_last());
        let a = absorb(t, o.drop_last());
        assert(a.push(o.last()).take(t.len() as int) =~= a.take(t.len() as int));
    } else {
        assert(t.take(t.len() as int) =~= t);
    }
}

/// Appends, in order, each entry of `o` whose key `t` does not hold yet.
pub fn absorb_entries<V>(t: &mut Vec<(String, V)>, o: Vec<(String, V)>)
    requires
        unique_key_views(old(t)@),
    ensures
        final(t)@ == absorb(old(t)@, o@),
        unique_key_views(final(t)@),
{
    let ghost t0 = t@;
    let ghost o0 = o@;
    let mut rest = o;
    let mut rev: Vec<(String, V)> = Vec::new();
    while rest.len() > 0
        invariant
            rest@ + rev@.reverse() == o0,
        decreases rest@.len(),
    {
        let ghost r0 = rest@;
        let ghost v0 = rev@;
        let x = rest.pop().unwrap();
        rev.push(x);
        proof {
            assert(r0 == rest@.push(x));
            assert(rev@.reverse() =~= seq![x] + v0.reverse());
            assert(rest@ + rev@.reverse() =~= r0 + v0.reverse());
        }
    }
    assert(rev@.reverse() =~= o0);
    let n = rev.len();
    let mut i: usize = 0;
    assert(o0.take(0) =~= Seq::<(String, V)>::empty());
    while rev.len() > 0
        invariant
            n == o0.len(),
            i + rev@.len() == n,
            rev@.reverse() =~= o0.skip(i as int),
            t@ == absorb(t0, o0.take(i as int)),
            unique_key_views(t@),
        decreases rev@.len(),
    {
        let ghost before = rev@;
        let e = rev.pop().unwrap();
        proof {
            assert(before == rev@.push(e));
            assert(before.reverse()[0] == e);
            assert(o0[i as int] == e);
            assert(o0.take(i + 1).drop_last() =~= o0.take(i as int));
            assert(o0.take(i + 1).last() == e);
            assert(rev@.reverse() =~= before.reverse().skip(1));
        }
        match kv_find(t, e.0.as_str()) {
            Some(j) => {
                proof {
                    assert(key_views(t@)[j as int] == e.0@);
                    assert(key_views(t@).contains(e.0@));
                }
            },
            None => {
                proof {
                    assert(!key_views(t@).contains(e.0@)) by {
                        if key_views(t@).contains(e.0@) {
                            let j = choose|j: int| 0 <= j < key_views(t@).len() && key_views(t@)[j] == e.0@;
                            assert(t@[j].0@ == e.0@);
                        }
                    }
                }
                let ghost t1 = t@;
                t.push(e);
                proof {
                    assert forall|a: int, b: int| 0 <= a < b < t@.len() implies (#[trigger] t@[a]).0@ != (#[trigger] t@[b]).0@ by {
                        if b == t@.len() - 1 {
                            assert(key_views(t1)[a] == t1[a].0@);
                        } else {
                            assert(t@[a] == t1[a] && t@[b] == t1[b]);
                        }
                    }
                }
            },
        }
        i = i + 1;
    }
    assert(o0.take(n as int) =~= o0);
}

/// The keys of a list with string keys, viewed.
pub open spec fn key_views<V>(s: Seq<(String, V)>) -> Seq<Seq<char>> {
    Seq::new(s.len(), |i: int| s[i].0@)
}

/// No key occurs twice (keys compared by their characters).
pub open spec fn unique_key_views<V>(s: Seq<(String, V)>) -> bool {
    forall|i: int, j: int| 0 <= i < j < s.len() ==> (#[trigger] s[i]).0@ != (#[trigger] s[j]).0@
}

/// Sets `k` to `x`: replaces the value of an existing entry in place, or
/// appends a new entry.
pub fn kv_set<V: DeepView>(v: &mut Vec<(String, V)>, k: String, x: V)
    requires
        unique_key_views(old(v)@),
    ensures
        unique_key_views(final(v)@),
        kv_map(final(v).deep_view()) == kv_map(old(v).deep_view()).insert(k@, x.deep_view()),
        key_views(final(v)@) == (if key_views(old(v)@).contains(k@) { key_views(old(v)@) } else { key_views(old(v)@).push(k@) }),
{
    let ghost s0 = v.deep_view();
    let ghost x_view = x.deep_view();
    let ghost k_view = k@;
    assert(unique_keys(s0)) by {
        assert forall|a: int, b: int| 0 <= a < b < s0.len() implies (#[trigger] s0[a]).0 != (#[trigger] s0[b]).0 by {
            assert(s0[a].0 == v@[a].0@ && s0[b].0 == v@[b].0@);
        }
    }
    match kv_find(v, k.as_str()) {
        Some(i) => {
            let ghost old_v = v@;
            v.set(i, (k, x));
            proof {
                assert(s0[i as int].0 == k_view);
                lemma_kv_map_update(s0, i as int, x_view);
                assert(v.deep_view() =~= s0.update(i as int, (s0[i as int].0, x_view)));
                assert(key_views(v@) =~= key_views(old_v));
                assert(key_views(old_v)[i as int] == k_view);
                assert(forall|a: int| 0 <= a < v@.len() ==> (#[trigger] v@[a]).0@ == old_v[a].0@);
            }
        },
        None => {
            let ghost old_v = v@;
            v.push((k, x));
            proof {
                assert(v.deep_view() =~= s0.push((k_view, x_view)));
                assert(v.deep_view().drop_last() =~= s0);
                assert(key_views(v@) =~= key_views(old_v).push(k_view));
                assert(!key_views(old_v).contains(k_view)) by {
                    if key_views(old_v).contains(k_view) {
                        let a = choose|a: int| 0 <= a < key_views(old_v).len() && key_views(old_v)[a] == k_view;
                        assert(old_v[a].0@ == k_view);
                    }
                }
                assert forall|a: int, b: int| 0 <= a < b < v@.len() implies (#[trigger] v@[a]).0@ != (#[trigger] v@[b]).0@ by {
                    if b == v@.len() - 1 {
                        assert(old_v[a].0@ != k_view);
                    } else {
                        assert(v@[a] == old_v[a] && v@[b] == old_v[b]);
                    }
                }
            }
        },
    }
}

/// Collapses a list of entries into one entry per key, the last value of a
/// key winning (as collecting into a map does).
pub fn collect_last_wins<V: DeepView>(entries: Vec<(String, V)>) -> (r: Vec<(String, V)>)
    ensures
        unique_key_views(r@),
        kv_map(r.deep_view()) == kv_map(entries.deep_view()),
{
    let ghost e = entries.deep_view();
    let mut r: Vec<(String, V)> = Vec::new();
    let mut rest = entries;
    let mut taken: Vec<(String, V)> = Vec::new();
    // Walk the entries from the front by reversing once.
    while rest.len() > 0
        invariant
            taken@.len() + rest@.len() == e.len(),
            e =~= rest.deep_view() + taken.deep_view().reverse(),
        decreases rest@.len(),
    {
        let ghost before_rest = rest.deep_view();
        let ghost before_taken = taken.deep_view();
        let x = rest.pop().unwrap();
        proof {
            assert(before_rest =~= rest.deep_view().push(x.deep_view()));
        }
        taken.push(x);
        proof {
            assert(taken.deep_view() =~= before_taken.push(x.deep_view()));
            assert(taken.deep_view().reverse() =~= seq![x.deep_view()] + before_taken.reverse());
        }
    }
    assert(rest.deep_view() =~= Seq::<(Seq<char>, V::V)>::empty());
    let mut i: usize = 0;
    let n = taken.len();
    assert(kv_map(e.take(0)) =~= kv_map(r.deep_view()));
    while taken.len() > 0
        invariant
            i + taken@.len() == n,
            n == e.len(),
            e =~= taken.deep_view().reverse().take(0) + e,
            taken.deep_view().reverse() =~= e.skip(i as int),
            unique_key_views(r@),
            kv_map(r.deep_view()) == kv_map(e.take(i as int)),
        decreases taken@.len(),
    {
        let ghost before = taken.deep_view();
        let (k, x) = taken.pop().unwrap();
        proof {
            assert(before =~= taken.deep_view().push((k@, x.deep_view())));
            assert(before.reverse()[0] == (k@, x.deep_view()));
            assert(e[i as int] == (k@, x.deep_view()));
            assert(e.take(i + 1).drop_last() =~= e.take(i as int));
            assert(taken.deep_view().reverse() =~= before.reverse().skip(1));
        }
        kv_set(&mut r, k, x);
        i = i + 1;
    }
    assert(e.take(n as int) =~= e);
    r
}

} // verus!
