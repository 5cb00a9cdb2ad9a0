//! `extends:` chains that reach into other compose files.  Loading a file
//! is the caller's part; this module decides, for one service, what its
//! `extends:` asks for next, and merges a resolved base into it.
use vstd::prelude::*;
use super::{
    circular_message, circular_text, itself_message, itself_text, merge_service, service_merged,
    unknown_message, unknown_text, without_extends, SERVICE_QUOTE,
};
use super::types::{ComposeFile, Service};
use super::volume::{path_join, path_join_exec};
use crate::error::{ComposeError, Result};
use crate::kv::{kv_find, kv_lookup, lemma_kv_lookup_at, lemma_kv_lookup_none, unique_key_views};
use crate::text::str_eq;

verus! {

/// What resolving a service's `extends:` needs next.
#[derive(Debug, Clone, PartialEq, Eq)]
pub enum ExtendsStep {
    /// The service extends nothing.
    Done,
    /// The base is `service` of the file at `path`: load that file, resolve
    /// the base there, then merge it.
    FromFile { path: String, service: String },
    /// The base is `service` of this file: resolve it first, then merge it.
    InFile { service: String },
}

/// Whether `names` holds `name`, by characters.
fn holds_name(names: &Vec<String>, name: &str) -> (r: bool)
    ensures
        r == names.deep_view().contains(name@),
{
    let mut i: usize = 0;
    while i < names.len()
        invariant
            i <= names@.len(),
            forall|k: int| 0 <= k < i ==> names.deep_view()[k] != name@,
        decreases names@.len() - i,
    {
        assert(names.deep_view()[i as int] == names@[i as int]@);
        if str_eq(names[i].as_str(), name) {
            assert(names.deep_view()[i as int] == name@);
            return true;
        }
        i = i + 1;
    }
    false
}

/// The step that service `name` of `file` asks for, file references
/// resolved against `base_dir`: `None` when it is an error (see
/// [`extends_step`]).
pub open spec fn step_for(file: ComposeFile, name: Seq<char>, base_dir: Seq<char>, r: ExtendsStep) -> bool {
    match kv_lookup(file.services@, name) {
        None => r is Done,
        Some(svc) => match svc.extends {
            None => r is Done,
            Some(e) => match e.file_view() {
                Some(f) => r matches ExtendsStep::FromFile { path, service }
                    && path@ == path_join(base_dir, f) && service@ == e.service_view(),
                None => r matches ExtendsStep::InFile { service } && service@ == e.service_view(),
            },
        },
    }
}

/// The error, if any, that service `name` of `file` meets before its base
/// is resolved: in this file, a service extending itself or a service
/// that does not exist.
pub open spec fn step_error(file: ComposeFile, name: Seq<char>) -> Option<Seq<char>> {
    match kv_lookup(file.services@, name) {
        None => None,
        Some(svc) => match svc.extends {
            None => None,
            Some(e) => if e.file_view() is Some {
                None
            } else if e.service_view() == name {
                Some(itself_message(name))
            } else if kv_lookup(file.services@, e.service_view()) is None {
                Some(unknown_message(name, e.service_view()))
            } else {
                None
            },
        },
    }
}

/// Records `name` among the services `visited` on this chain and decides
/// what its `extends:` needs next.  A service met twice on a chain is a
/// cycle.
pub fn extends_step(file: &ComposeFile, name: &str, visited: &mut Vec<String>, base_dir: &str) -> (r: Result<ExtendsStep>)
    ensures
        old(visited).deep_view().contains(name@) ==> {
            &&& final(visited)@ == old(visited)@
            &&& r matches Err(ComposeError::Extends(m)) && m@ == circular_message(name@)
        },
        !old(visited).deep_view().contains(name@) ==> {
            &&& final(visited).deep_view() == old(visited).deep_view().push(name@)
            &&& match r {
                Ok(st) => step_error(*file, name@) is None && step_for(*file, name@, base_dir@, st),
                Err(ComposeError::Extends(m)) => step_error(*file, name@) == Some(m@),
                Err(_) => false,
            }
        },
{
    if holds_name(visited, name) {
        return Err(ComposeError::Extends(circular_text(name)));
    }
    let ghost v0 = visited.deep_view();
    visited.push(name.to_string());
    assert(visited.deep_view() =~= v0.push(name@));
    let svc = match kv_get_service(file, name) {
        Some(s) => s,
        None => return Ok(ExtendsStep::Done),
    };
    let e = match &svc.extends {
        Some(e) => e,
        None => return Ok(ExtendsStep::Done),
    };
    let base = e.service();
    match e.file() {
        Some(f) => {
            let path = path_join_exec(base_dir, f);
            return Ok(ExtendsStep::FromFile { path, service: base.to_string() });
        },
        None => {},
    }
    if str_eq(base, name) {
        return Err(ComposeError::Extends(itself_text(name)));
    }
    match kv_get_service(file, base) {
        None => Err(ComposeError::Extends(unknown_text(name, base))),
        Some(_) => Ok(ExtendsStep::InFile { service: base.to_string() }),
    }
}

fn kv_get_service<'a>(file: &'a ComposeFile, name: &str) -> (r: Option<&'a Service>)
    ensures
        match r {
            Some(s) => kv_lookup(file.services@, name@) == Some(*s),
            None => kv_lookup(file.services@, name@) is None,
        },
{
    crate::kv::kv_get(&file.services, name)
}

/// Merges the resolved base of service `name` into it: the service becomes
/// its own options laid over the base's, and extends nothing more.  A name
/// the file does not hold changes nothing.
pub fn apply_extends_base(file: &mut ComposeFile, name: &str, base: Service)
    requires
        old(file).wf(),
    ensures
        final(file).wf(),
        final(file).version == old(file).version,
        final(file).name == old(file).name,
        final(file).includes == old(file).includes,
        final(file).volumes == old(file).volumes,
        final(file).networks == old(file).networks,
        final(file).secrets == old(file).secrets,
        final(file).configs == old(file).configs,
        (forall|i: int| 0 <= i < old(file).services@.len() ==> (#[trigger] old(file).services@[i]).0@ != name@)
            ==> final(file).services@ == old(file).services@,
        forall|i: int| 0 <= i < old(file).services@.len() && (#[trigger] old(file).services@[i]).0@ == name@
            ==> exists|m: Service| #[trigger] service_merged(base, old(file).services@[i].1, m)
                && final(file).services@ == old(file).services@.update(i, (old(file).services@[i].0, without_extends(m))),
{
    let ghost s0 = file.services@;
    match kv_find(&file.services, name) {
        None => {},
        Some(i) => {
            let (k, own) = file.services.remove(i);
            let mut m = merge_service(base, own);
            let ghost m0 = m;
            m.extends = None;
            file.services.insert(i, (k, m));
            proof {
                let fin = file.services@;
                assert(fin =~= s0.update(i as int, (s0[i as int].0, without_extends(m0))));
                assert forall|a: int, b: int| 0 <= a < b < fin.len() implies (#[trigger] fin[a]).0@ != (#[trigger] fin[b]).0@ by {
                    assert(fin[a].0 == s0[a].0);
                    assert(fin[b].0 == s0[b].0);
                }
                assert forall|j: int| 0 <= j < s0.len() && (#[trigger] s0[j]).0@ == name@
                    implies exists|m: Service| #[trigger] service_merged(base, s0[j].1, m)
                        && fin == s0.update(j, (s0[j].0, without_extends(m))) by {
                    if j != i {
                        if j < i {
                            assert(s0[j].0@ != name@);
                        } else {
                            assert(s0[i as int].0@ != s0[j].0@);
                        }
                    }
                    assert(service_merged(base, s0[j].1, m0));
                }
            }
        },
    }
}

/// Takes service `name` out of a loaded file (the last service moves into
/// its place); a file without it is an error naming the file's `path`.
pub fn take_service(other: &mut ComposeFile, name: &str, path: &str) -> (r: Result<Service>)
    ensures
        match kv_find_spec(old(other).services@, name@) {
            Some(i) => r matches Ok(s) && s == old(other).services@[i].1
                && final(other).services@ == old(other).services@.update(i, old(other).services@.last()).drop_last(),
            None => r matches Err(ComposeError::Extends(m)) && m@ == not_found_message(name@, path@)
                && final(other).services@ == old(other).services@,
        },
{
    match kv_find(&other.services, name) {
        Some(i) => {
            proof { lemma_first_index(old(other).services@, name@, i as int); }
            let (_, s) = other.services.swap_remove(i);
            Ok(s)
        },
        None => {
            proof { lemma_no_index(old(other).services@, name@); }
            let mut m = SERVICE_QUOTE.to_string();
            m.append(name);
            m.append(NOT_FOUND_IN);
            m.append(path);
            Err(ComposeError::Extends(m))
        },
    }
}

pub const NOT_FOUND_IN: &'static str = "' not found in ";

pub open spec fn not_found_message(name: Seq<char>, path: Seq<char>) -> Seq<char> {
    SERVICE_QUOTE@ + name + NOT_FOUND_IN@ + path
}

/// The position of the first entry keyed `k`.
pub open spec fn kv_find_spec<V>(s: Seq<(String, V)>, k: Seq<char>) -> Option<int>
    decreases s.len(),
{
    if s.len() == 0 {
        None
    } else {
        match kv_find_spec(s.drop_last(), k) {
            Some(i) => Some(i),
            None => if s.last().0@ == k { Some(s.len() - 1) } else { None },
        }
    }
}

proof fn lemma_first_index<V>(s: Seq<(String, V)>, k: Seq<char>, i: int)
    requires
        0 <= i < s.len(),
        s[i].0@ == k,
        forall|j: int| 0 <= j < i ==> (#[trigger] s[j]).0@ != k,
    ensures
        kv_find_spec(s, k) == Some(i),
    decreases s.len(),
{
    if i < s.len() - 1 {
        assert(s.drop_last()[i] == s[i]);
        assert forall|j: int| 0 <= j < i implies (#[trigger] s.drop_last()[j]).0@ != k by {
            assert(s.drop_last()[j] == s[j]);
        }
        lemma_first_index(s.drop_last(), k, i);
    } else {
        lemma_no_index(s.drop_last(), k);
    }
}

proof fn lemma_no_index<V>(s: Seq<(String, V)>, k: Seq<char>)
    requires
        forall|j: int| 0 <= j < s.len() ==> (#[trigger] s[j]).0@ != k,
    ensures
        kv_find_spec(s, k) is None,
    decreases s.len(),
{
    if s.len() > 0 {
        assert forall|j: int| 0 <= j < s.len() - 1 implies (#[trigger] s.drop_last()[j]).0@ != k by {
            assert(s.drop_last()[j] == s[j]);
        }
        lemma_no_index(s.drop_last(), k);
        assert(s[s.len() - 1].0@ != k);
    }
}

} // verus!
