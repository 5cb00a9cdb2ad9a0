//! Dependency ordering over services identified by position.
use vstd::prelude::*;

verus! {

/// `deps[i]` lists the positions that `i` depends on; every entry is a valid
/// position.
pub open spec fn deps_in_range(deps: Seq<Seq<usize>>) -> bool {
    forall|i: int, k: int| 0 <= i < deps.len() && 0 <= k < deps[i].len() ==> #[trigger] deps[i][k] < deps.len()
}

/// `order` lists every position exactly once, and every dependency of an
/// entry comes before it.
pub open spec fn valid_index_order(deps: Seq<Seq<usize>>, order: Seq<usize>) -> bool {
    &&& order.no_duplicates()
    &&& forall|p: int| 0 <= p < order.len() ==> #[trigger] order[p] < deps.len()
    &&& forall|i: usize| (i as int) < deps.len() ==> order.contains(i)
    &&& deps_before(deps, order)
}

/// Number of `false` entries.
pub open spec fn count_false(s: Seq<bool>) -> nat
    decreases s.len(),
{
    if s.len() == 0 {
        0
    } else {
        count_false(s.drop_last()) + if s.last() { 0nat } else { 1nat }
    }
}

proof fn lemma_count_false_update(s: Seq<bool>, i: int)
    requires
        0 <= i < s.len(),
        !s[i],
    ensures
        count_false(s.update(i, true)) + 1 == count_false(s),
    decreases s.len(),
{
    let t = s.update(i, true);
    if i < s.len() - 1 {
        assert(t.drop_last() =~= s.drop_last().update(i, true));
        lemma_count_false_update(s.drop_last(), i);
    } else {
        assert(t.drop_last() =~= s.drop_last());
    }
}

/// If some position of `order` holds an unplaced entry, there is a first one.
proof fn lemma_first_unplaced(order: Seq<usize>, placed: Seq<bool>, p0: int) -> (p: int)
    requires
        0 <= p0 < order.len(),
        order[p0] < placed.len(),
        !placed[order[p0] as int],
        forall|p: int| 0 <= p < order.len() ==> #[trigger] order[p] < placed.len(),
    ensures
        0 <= p <= p0,
        !placed[order[p] as int],
        forall|q: int| 0 <= q < p ==> placed[#[trigger] order[q] as int],
    decreases p0,
{
    if exists|q: int| 0 <= q < p0 && !placed[#[trigger] order[q] as int] {
        let q = choose|q: int| 0 <= q < p0 && !placed[#[trigger] order[q] as int];
        lemma_first_unplaced(order, placed, q)
    } else {
        p0
    }
}

/// Every dependency of an entry of `order` occurs earlier in `order`.
pub open spec fn deps_before(d: Seq<Seq<usize>>, order: Seq<usize>) -> bool {
    forall|p: int, k: int|
        0 <= p < order.len() && 0 <= k < d[order[p] as int].len() ==> #[trigger] occurs_before(order, p, d[order[p] as int][k])
}

/// `x` occurs in `order` before position `p`.
pub open spec fn occurs_before(order: Seq<usize>, p: int, x: usize) -> bool {
    exists|q: int| 0 <= q < p && order[q] == x
}

/// `placed[i]` records whether `i` occurs in `order`.
pub open spec fn placed_matches(placed: Seq<bool>, order: Seq<usize>) -> bool {
    &&& order.no_duplicates()
    &&& forall|p: int| 0 <= p < order.len() ==> #[trigger] order[p] < placed.len()
    &&& forall|i: int| 0 <= i < placed.len() ==> (placed[i] <==> order.contains(i as usize))
}

/// Every dependency of `c` is placed.
pub open spec fn ready(d: Seq<Seq<usize>>, placed: Seq<bool>, c: int) -> bool {
    forall|k: int| 0 <= k < d[c].len() ==> placed[#[trigger] d[c][k] as int]
}

proof fn lemma_deps_before_push(d: Seq<Seq<usize>>, order: Seq<usize>, c: usize)
    requires
        deps_before(d, order),
        forall|k: int| 0 <= k < d[c as int].len() ==> #[trigger] occurs_before(order, order.len() as int, d[c as int][k]),
    ensures
        deps_before(d, order.push(c)),
{
    let o2 = order.push(c);
    assert forall|p: int, k: int|
        0 <= p < o2.len() && 0 <= k < d[o2[p] as int].len() implies #[trigger] occurs_before(o2, p, d[o2[p] as int][k]) by {
        if p < order.len() {
            assert(o2[p] == order[p]);
            assert(occurs_before(order, p, d[order[p] as int][k]));
            let q = choose|q: int| 0 <= q < p && order[q] == d[order[p] as int][k];
            assert(o2[q] == order[q]);
        } else {
            assert(o2[p] == c);
            assert(occurs_before(order, order.len() as int, d[c as int][k]));
            let q = choose|q: int| 0 <= q < order.len() && order[q] == d[c as int][k];
            assert(o2[q] == order[q]);
        }
    }
}

proof fn lemma_place(d: Seq<Seq<usize>>, placed: Seq<bool>, order: Seq<usize>, c: usize)
    requires
        d.len() <= usize::MAX,
        deps_in_range(d),
        placed.len() == d.len(),
        placed_matches(placed, order),
        deps_before(d, order),
        c < d.len(),
        !placed[c as int],
        ready(d, placed, c as int),
    ensures
        placed_matches(placed.update(c as int, true), order.push(c)),
        deps_before(d, order.push(c)),
        count_false(placed.update(c as int, true)) + 1 == count_false(placed),
{
    lemma_count_false_update(placed, c as int);
    let o2 = order.push(c);
    let p2 = placed.update(c as int, true);
    assert(!order.contains(c));
    assert forall|k: int| 0 <= k < d[c as int].len() implies #[trigger] occurs_before(order, order.len() as int, d[c as int][k]) by {
        let dep = d[c as int][k];
        assert(placed[dep as int]);
        assert(order.contains(dep));
    }
    lemma_deps_before_push(d, order, c);
    assert forall|x: int| 0 <= x < p2.len() implies (p2[x] <==> o2.contains(x as usize)) by {
        if x == c {
            assert(o2[order.len() as int] == c);
        } else if o2.contains(x as usize) {
            let q = choose|q: int| 0 <= q < o2.len() && o2[q] == x as usize;
            assert(o2[order.len() as int] == c);
            assert(q < order.len());
            assert(order[q] == x);
        } else if order.contains(x as usize) {
            let q = choose|q: int| 0 <= q < order.len() && order[q] == x as usize;
            assert(o2[q] == x);
        }
    }
}

proof fn lemma_stuck(d: Seq<Seq<usize>>, placed: Seq<bool>, u: usize)
    requires
        deps_in_range(d),
        placed.len() == d.len(),
        u < d.len(),
        !placed[u as int],
        forall|c: int| 0 <= c < d.len() && !placed[c] ==> exists|k: int|
            0 <= k < d[c].len() && !placed[#[trigger] d[c][k] as int],
    ensures
        forall|o: Seq<usize>| !valid_index_order(d, o),
{
    assert forall|o: Seq<usize>| !valid_index_order(d, o) by {
        if valid_index_order(d, o) {
            assert(o.contains(u));
            let p0 = choose|p: int| 0 <= p < o.len() && o[p] == u;
            let p = lemma_first_unplaced(o, placed, p0);
            let x = o[p];
            let k = choose|k: int| 0 <= k < d[x as int].len() && !placed[#[trigger] d[x as int][k] as int];
            assert(occurs_before(o, p, d[o[p] as int][k]));
            let q = choose|q: int| 0 <= q < p && o[q] == d[o[p] as int][k];
            assert(placed[o[q] as int]);
        }
    }
}

/// First unplaced position that is ready, if any.
fn find_ready(deps: &Vec<Vec<usize>>, placed: &Vec<bool>) -> (r: Option<usize>)
    requires
        deps_in_range(deps.deep_view()),
        placed@.len() == deps@.len(),
    ensures
        r matches Some(c) ==> c < deps@.len() && !placed@[c as int] && ready(deps.deep_view(), placed@, c as int),
        r is None ==> forall|c: int| 0 <= c < deps@.len() && !placed@[c] ==> exists|k: int|
            0 <= k < deps.deep_view()[c].len() && !placed@[#[trigger] deps.deep_view()[c][k] as int],
{
    let ghost d = deps.deep_view();
    let n = deps.len();
    let mut i: usize = 0;
    while i < n
        invariant
            n == deps@.len(),
            d == deps.deep_view(),
            deps_in_range(d),
            placed@.len() == n,
            i <= n,
            forall|c: int| 0 <= c < i && !placed@[c] ==> exists|k: int|
                0 <= k < d[c].len() && !placed@[#[trigger] d[c][k] as int],
        decreases n - i,
    {
        if !placed[i] {
            let di = &deps[i];
            assert(di@ == d[i as int]);
            let mut ok = true;
            let mut k: usize = 0;
            let mut bad: usize = 0;
            while k < di.len()
                invariant
                    di@ == d[i as int],
                    deps_in_range(d),
                    d.len() == n,
                    placed@.len() == n,
                    i < n,
                    k <= di@.len(),
                    ok ==> forall|m: int| 0 <= m < k ==> placed@[#[trigger] d[i as int][m] as int],
                    !ok ==> bad < di@.len() && !placed@[d[i as int][bad as int] as int],
                decreases di@.len() - k,
            {
                assert(d[i as int][k as int] < n);
                if !placed[di[k]] {
                    ok = false;
                    bad = k;
                }
                k = k + 1;
            }
            if ok {
                return Some(i);
            }
        }
        i = i + 1;
    }
    None
}

/// A start order in which every entry follows its dependencies, or `None`
/// when the dependencies form a cycle.
pub fn topo_order(deps: &Vec<Vec<usize>>) -> (r: Option<Vec<usize>>)
    requires
        deps_in_range(deps.deep_view()),
    ensures
        r matches Some(o) ==> valid_index_order(deps.deep_view(), o@),
        r is None ==> forall|o: Seq<usize>| !valid_index_order(deps.deep_view(), o),
{
    let ghost d = deps.deep_view();
    let n = deps.len();
    let mut placed: Vec<bool> = Vec::new();
    let mut j: usize = 0;
    while j < n
        invariant
            j <= n,
            placed@.len() == j,
            forall|i: int| 0 <= i < j ==> !placed@[i],
        decreases n - j,
    {
        placed.push(false);
        j = j + 1;
    }
    let mut order: Vec<usize> = Vec::new();
    assert(placed_matches(placed@, order@));
    loop
        invariant
            n == deps@.len(),
            d == deps.deep_view(),
            d.len() == n,
            deps_in_range(d),
            placed@.len() == n,
            placed_matches(placed@, order@),
            deps_before(d, order@),
        decreases count_false(placed@),
    {
        match find_ready(deps, &placed) {
            Some(c) => {
                proof { lemma_place(d, placed@, order@, c); }
                placed.set(c, true);
                order.push(c);
            },
            None => {
                let mut any_unplaced: Option<usize> = None;
                let mut i: usize = 0;
                while i < n
                    invariant
                        placed@.len() == n,
                        i <= n,
                        any_unplaced matches Some(u) ==> u < n && !placed@[u as int],
                        any_unplaced is None ==> forall|c: int| 0 <= c < i ==> placed@[c],
                    decreases n - i,
                {
                    if any_unplaced.is_none() && !placed[i] {
                        any_unplaced = Some(i);
                    }
                    i = i + 1;
                }
                match any_unplaced {
                    None => {
                        proof {
                            assert forall|x: usize| (x as int) < d.len() implies order@.contains(x) by {
                                assert(placed@[x as int]);
                            }
                            assert(forall|p: int| 0 <= p < order@.len() ==> #[trigger] order@[p] < d.len());
                            assert(deps_before(d, order@));
                            assert(order@.no_duplicates());
                            assert(forall|i: usize| (i as int) < d.len() ==> order@.contains(i));
                            assert(valid_index_order(d, order@));
                        }
                        return Some(order);
                    },
                    Some(u) => {
                        proof { lemma_stuck(d, placed@, u); }
                        return None;
                    },
                }
            },
        }
    }
}


// ---------------------------------------------------------------------------
// Orders over named services
// ---------------------------------------------------------------------------

/// `order` lists every name exactly once, and for every entry each of its
/// dependencies (`edges[i]` for the name `names[i]`) comes earlier.
pub open spec fn valid_name_order(names: Seq<Seq<char>>, edges: Seq<Seq<Seq<char>>>, order: Seq<Seq<char>>) -> bool {
    &&& order.no_duplicates()
    &&& forall|p: int| 0 <= p < order.len() ==> names.contains(#[trigger] order[p])
    &&& forall|i: int| 0 <= i < names.len() ==> order.contains(#[trigger] names[i])
    &&& forall|p: int, i: int, k: int|
        0 <= p < order.len() && 0 <= i < names.len() && names[i] == order[p] && 0 <= k < edges[i].len()
            ==> #[trigger] name_occurs_before(order, p, #[trigger] edges[i][k])
}

/// `x` occurs in `order` before position `p`.
pub open spec fn name_occurs_before(order: Seq<Seq<char>>, p: int, x: Seq<char>) -> bool {
    exists|q: int| 0 <= q < p && order[q] == x
}

/// `d` is `edges` with every name replaced by its position in `names`.
pub open spec fn edges_indexed(names: Seq<Seq<char>>, edges: Seq<Seq<Seq<char>>>, d: Seq<Seq<usize>>) -> bool {
    &&& d.len() == names.len()
    &&& edges.len() == names.len()
    &&& forall|i: int| 0 <= i < d.len() ==> (#[trigger] d[i]).len() == edges[i].len()
    &&& forall|i: int, k: int| 0 <= i < d.len() && 0 <= k < d[i].len() ==>
        #[trigger] d[i][k] < names.len() && names[d[i][k] as int] == edges[i][k]
}

pub open spec fn names_unique(names: Seq<Seq<char>>) -> bool {
    forall|i: int, j: int| 0 <= i < j < names.len() ==> names[i] != names[j]
}

/// The names at the positions of `o`.
pub open spec fn names_at(names: Seq<Seq<char>>, o: Seq<usize>) -> Seq<Seq<char>> {
    Seq::new(o.len(), |p: int| names[o[p] as int])
}

pub proof fn lemma_index_order_names(names: Seq<Seq<char>>, edges: Seq<Seq<Seq<char>>>, d: Seq<Seq<usize>>, o: Seq<usize>)
    requires
        names_unique(names),
        names.len() <= usize::MAX,
        edges_indexed(names, edges, d),
        valid_index_order(d, o),
    ensures
        valid_name_order(names, edges, names_at(names, o)),
{
    let on = names_at(names, o);
    assert forall|a: int, b: int| 0 <= a < on.len() && 0 <= b < on.len() && a != b implies on[a] != on[b] by {
        assert(o[a] != o[b]);
        if on[a] == on[b] {
            if o[a] < o[b] {
                assert(names[o[a] as int] != names[o[b] as int]);
            } else {
                assert(names[o[b] as int] != names[o[a] as int]);
            }
        }
    }
    assert forall|p: int| 0 <= p < on.len() implies names.contains(#[trigger] on[p]) by {
        assert(names[o[p] as int] == on[p]);
    }
    assert forall|i: int| 0 <= i < names.len() implies on.contains(#[trigger] names[i]) by {
        assert(o.contains(i as usize));
        let p = choose|p: int| 0 <= p < o.len() && o[p] == i as usize;
        assert(on[p] == names[i]);
    }
    assert forall|p: int, i: int, k: int|
        0 <= p < on.len() && 0 <= i < names.len() && names[i] == on[p] && 0 <= k < edges[i].len()
        implies #[trigger] name_occurs_before(on, p, #[trigger] edges[i][k]) by {
        assert(o[p] == i) by {
            if (o[p] as int) < i {
                assert(names[o[p] as int] != names[i]);
            } else if (o[p] as int) > i {
                assert(names[i] != names[o[p] as int]);
            }
        }
        assert(0 <= k < d[o[p] as int].len());
        assert(occurs_before(o, p, d[o[p] as int][k]));
        let q = choose|q: int| 0 <= q < p && o[q] == d[o[p] as int][k];
        assert(on[q] == names[d[i][k] as int]);
    }
}

pub proof fn lemma_name_order_index(names: Seq<Seq<char>>, edges: Seq<Seq<Seq<char>>>, d: Seq<Seq<usize>>, order: Seq<Seq<char>>)
    requires
        names_unique(names),
        names.len() <= usize::MAX,
        edges_indexed(names, edges, d),
        valid_name_order(names, edges, order),
    ensures
        exists|o: Seq<usize>| valid_index_order(d, o),
{
    let pos = |x: Seq<char>| choose|j: int| 0 <= j < names.len() && names[j] == x;
    let o = Seq::new(order.len(), |p: int| pos(order[p]) as usize);
    assert forall|p: int| 0 <= p < order.len() implies 0 <= #[trigger] pos(order[p]) < names.len()
        && names[pos(order[p])] == order[p] by {
        assert(names.contains(order[p]));
    }
    assert forall|j: int| 0 <= j < names.len() implies #[trigger] pos(names[j]) == j by {
        let x = names[j];
        assert(names.contains(x));
        let c = pos(x);
        if c < j {
            assert(names[c] != names[j]);
        } else if c > j {
            assert(names[j] != names[c]);
        }
    }
    assert forall|p: int| 0 <= p < o.len() implies #[trigger] o[p] < d.len() && names[o[p] as int] == order[p] by {
        assert(0 <= pos(order[p]) < names.len());
    }
    assert forall|a: int, b: int| 0 <= a < o.len() && 0 <= b < o.len() && a != b implies o[a] != o[b] by {
        assert(names[o[a] as int] == order[a]);
        assert(names[o[b] as int] == order[b]);
        assert(order[a] != order[b]);
    }
    assert forall|i: usize| (i as int) < d.len() implies o.contains(i) by {
        assert(order.contains(names[i as int]));
        let p = choose|p: int| 0 <= p < order.len() && order[p] == names[i as int];
        assert(pos(names[i as int]) == i);
        assert(o[p] == i);
    }
    assert forall|p: int, k: int| 0 <= p < o.len() && 0 <= k < d[o[p] as int].len()
        implies #[trigger] occurs_before(o, p, d[o[p] as int][k]) by {
        let i = o[p] as int;
        assert(names[i] == order[p]);
        assert(d[i][k] < names.len() && names[d[i][k] as int] == edges[i][k]);
        assert(name_occurs_before(order, p, edges[i][k]));
        let q = choose|q: int| 0 <= q < p && order[q] == edges[i][k];
        assert(names[o[q] as int] == order[q]);
        assert(pos(names[d[i][k] as int]) == d[i][k] as int);
        assert(o[q] == d[i][k]);
    }
    assert(valid_index_order(d, o));
}

} // verus!
