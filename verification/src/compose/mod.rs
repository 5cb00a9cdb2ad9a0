//! Compose file model and service ordering.

pub mod types;
pub mod engine;
pub mod lifecycle;
pub mod substitute;

use vstd::prelude::*;
use types::ComposeFile;
use crate::error::{ComposeError, Result};
use crate::graph::{
    edges_indexed, lemma_index_order_names, lemma_name_order_index, names_at, names_unique,
    topo_order, valid_index_order, valid_name_order,
};
use crate::kv::{key_views, kv_find};

verus! {

/// The service names, in file order.
pub open spec fn service_keys(f: ComposeFile) -> Seq<Seq<char>> {
    key_views(f.services@)
}

/// The `depends_on` names of every service, in file order.
pub open spec fn dependency_lists(f: ComposeFile) -> Seq<Seq<Seq<char>>> {
    Seq::new(f.services@.len(), |i: int| f.services@[i].1.depends_on.names_view())
}

/// The first entry of `s` that is not among `names`.
pub open spec fn first_absent(s: Seq<Seq<char>>, names: Seq<Seq<char>>) -> Option<Seq<char>>
    decreases s.len(),
{
    if s.len() == 0 {
        None
    } else {
        match first_absent(s.drop_last(), names) {
            Some(x) => Some(x),
            None => if names.contains(s.last()) { None } else { Some(s.last()) },
        }
    }
}

/// The first dependency (services in file order, then dependencies in
/// declaration order) among the first `n` lists that names no service.
pub open spec fn first_missing_in(lists: Seq<Seq<Seq<char>>>, names: Seq<Seq<char>>, n: int) -> Option<Seq<char>>
    decreases n,
{
    if n <= 0 {
        None
    } else {
        match first_missing_in(lists, names, n - 1) {
            Some(x) => Some(x),
            None => first_absent(lists[n - 1], names),
        }
    }
}

/// The first dependency that names no service, if any.
pub open spec fn first_missing_dependency(f: ComposeFile) -> Option<Seq<char>> {
    first_missing_in(dependency_lists(f), service_keys(f), f.services@.len() as int)
}

/// A start order: every service once, dependencies first.
pub open spec fn is_start_order(f: ComposeFile, order: Seq<Seq<char>>) -> bool {
    valid_name_order(service_keys(f), dependency_lists(f), order)
}

/// Compute a topological start order for all services.
///
/// Returns service names in the order they should be started (dependencies first).
/// Returns [`ComposeError::CircularDependency`] if a cycle is detected, or
/// [`ComposeError::ServiceNotFound`] if a dependency references an unknown service.
pub fn resolve_order(file: &ComposeFile) -> (r: Result<Vec<String>>)
    requires
        file.wf(),
    ensures
        match r {
            Ok(order) => first_missing_dependency(*file) is None && is_start_order(*file, order.deep_view()),
            Err(ComposeError::ServiceNotFound(d)) => first_missing_dependency(*file) == Some(d@),
            Err(ComposeError::CircularDependency(m)) => {
                &&& first_missing_dependency(*file) is None
                &&& m@ == "cycle detected in depends_on"@
                &&& forall|o: Seq<Seq<char>>| !is_start_order(*file, o)
            },
            Err(_) => false,
        },
{
    let ghost names = service_keys(*file);
    let ghost lists = dependency_lists(*file);
    let n = file.services.len();
    let mut d: Vec<Vec<usize>> = Vec::new();
    let mut i: usize = 0;
    while i < n
        invariant
            n == file.services@.len(),
            names == service_keys(*file),
            lists == dependency_lists(*file),
            i <= n,
            first_missing_in(lists, names, i as int) is None,
            d@.len() == i,
            forall|a: int| 0 <= a < i ==> (#[trigger] d.deep_view()[a]).len() == lists[a].len(),
            forall|a: int, k: int| 0 <= a < i && 0 <= k < d.deep_view()[a].len() ==>
                #[trigger] d.deep_view()[a][k] < n && names[d.deep_view()[a][k] as int] == lists[a][k],
        decreases n - i,
    {
        let deps = file.services[i].1.depends_on.service_names();
        assert(deps.deep_view() == lists[i as int]);
        let mut di: Vec<usize> = Vec::new();
        let mut k: usize = 0;
        while k < deps.len()
            invariant
                n == file.services@.len(),
                names == service_keys(*file),
                lists == dependency_lists(*file),
                i < n,
                deps.deep_view() == lists[i as int],
                k <= deps@.len(),
                first_absent(lists[i as int].take(k as int), names) is None,
                first_missing_in(lists, names, i as int) is None,
                di@.len() == k,
                forall|m: int| 0 <= m < k ==> #[trigger] di@[m] < n && names[di@[m] as int] == lists[i as int][m],
            decreases deps@.len() - k,
        {
            assert(lists[i as int].take(k + 1).drop_last() =~= lists[i as int].take(k as int));
            assert(deps.deep_view()[k as int] == deps@[k as int]@);
            match kv_find(&file.services, deps[k].as_str()) {
                Some(j) => {
                    proof {
                        assert(names[j as int] == lists[i as int][k as int]);
                        assert(names.contains(lists[i as int][k as int]));
                    }
                    di.push(j);
                },
                None => {
                    proof {
                        assert(!names.contains(lists[i as int][k as int])) by {
                            if names.contains(lists[i as int][k as int]) {
                                let j = choose|j: int| 0 <= j < names.len() && names[j] == lists[i as int][k as int];
                                assert(file.services@[j].0@ == deps@[k as int]@);
                            }
                        }
                        assert(first_absent(lists[i as int].take(k + 1), names) == Some(deps@[k as int]@));
                        lemma_first_absent_prefix(lists[i as int], names, k as int + 1);
                        assert(first_missing_in(lists, names, i as int + 1) == Some(deps@[k as int]@));
                        lemma_first_missing_prefix(lists, names, i as int + 1, n as int);
                        assert(first_missing_dependency(*file) == Some(deps@[k as int]@));
                    }
                    return Err(ComposeError::ServiceNotFound(deps[k].clone()));
                },
            }
            k = k + 1;
        }
        proof {
            assert(lists[i as int].take(deps@.len() as int) =~= lists[i as int]);
        }
        let ghost before = d.deep_view();
        d.push(di);
        proof {
            assert(di.deep_view() =~= di@);
            assert(d.deep_view() =~= before.push(di.deep_view()));
        }
        i = i + 1;
    }
    proof {
        assert(names_unique(names)) by {
            assert forall|a: int, b: int| 0 <= a < b < names.len() implies names[a] != names[b] by {
                assert(file.services@[a].0@ != file.services@[b].0@);
            }
        }
        assert(edges_indexed(names, lists, d.deep_view()));
        assert(names.len() <= usize::MAX);
    }
    match topo_order(&d) {
        Some(o) => {
            proof { lemma_index_order_names(names, lists, d.deep_view(), o@); }
            let mut out: Vec<String> = Vec::new();
            let mut p: usize = 0;
            while p < o.len()
                invariant
                    n == file.services@.len(),
                    names == service_keys(*file),
                    valid_index_order(d.deep_view(), o@),
                    d.deep_view().len() == n,
                    p <= o@.len(),
                    out.deep_view() =~= names_at(names, o@).take(p as int),
                decreases o@.len() - p,
            {
                assert(o@[p as int] < n);
                out.push(file.services[o[p]].0.clone());
                assert(names_at(names, o@).take(p + 1) =~= names_at(names, o@).take(p as int).push(names[o@[p as int] as int]));
                p = p + 1;
            }
            assert(names_at(names, o@).take(o@.len() as int) =~= names_at(names, o@));
            Ok(out)
        },
        None => {
            proof {
                assert forall|o: Seq<Seq<char>>| !is_start_order(*file, o) by {
                    if is_start_order(*file, o) {
                        lemma_name_order_index(names, lists, d.deep_view(), o);
                    }
                }
            }
            Err(ComposeError::CircularDependency("cycle detected in depends_on".to_string()))
        },
    }
}

proof fn lemma_first_absent_prefix(s: Seq<Seq<char>>, names: Seq<Seq<char>>, k: int)
    requires
        0 <= k <= s.len(),
        first_absent(s.take(k), names) is Some,
    ensures
        first_absent(s, names) == first_absent(s.take(k), names),
    decreases s.len() - k,
{
    if k < s.len() {
        assert(s.take(k + 1).drop_last() =~= s.take(k));
        lemma_first_absent_prefix(s, names, k + 1);
    } else {
        assert(s.take(k) =~= s);
    }
}

proof fn lemma_first_missing_prefix(lists: Seq<Seq<Seq<char>>>, names: Seq<Seq<char>>, i: int, n: int)
    requires
        0 < i <= n,
        first_missing_in(lists, names, i) is Some,
    ensures
        first_missing_in(lists, names, n) == first_missing_in(lists, names, i),
    decreases n - i,
{
    if i < n {
        lemma_first_missing_prefix(lists, names, i + 1, n);
    }
}

} // verus!
