//! `env_file:` contents and their merge with a service's `environment:`.
//!
//! An env file holds `KEY=VALUE` lines.  Service-level `environment:` takes
//! precedence over `env_file:` values, and among several env files the first
//! one that sets a key wins.
use vstd::prelude::*;
use crate::kv::{key_views, kv_keys, unique_key_views};
use crate::text::{
    find_char, find_char_exec, lemma_find_char_props, lemma_trim_idx, lines, lines_exec, push_chars,
    slice_chars, string_of, trim, trim_chars,
};

verus! {

// ---------------------------------------------------------------------------
// Specification
// ---------------------------------------------------------------------------

/// The `(key, value)` a line of an env file sets, if any: blank lines and
/// `#` comments set nothing, a line without `=` sets its key to the empty
/// string, and the key is trimmed while the value is kept as written.
pub open spec fn env_line(l: Seq<char>) -> Option<(Seq<char>, Seq<char>)> {
    let t = trim(l);
    if t.len() == 0 || t[0] == '#' {
        None
    } else {
        let (k, v) = match find_char(t, '=') {
            Some(e) => (trim(t.take(e)), t.skip(e + 1)),
            None => (t, Seq::empty()),
        };
        if k.len() == 0 { None } else { Some((k, v)) }
    }
}

/// A line `K=V` sets `K` to `V`: the key ends at the first `=`, and the whole
/// rest of the line, any further `=` included, is the value.
pub proof fn env_line_key_value(k: Seq<char>, v: Seq<char>)
    requires
        k.len() > 0,
        k[0] != '#',
        !k.contains('='),
        trim(k) == k,
        trim(k + seq!['='] + v) == k + seq!['='] + v,
    ensures
        env_line(k + seq!['='] + v) == Some((k, v)),
{
    let t = k + seq!['='] + v;
    lemma_find_char_props(t, '=');
    assert(t[k.len() as int] == '=');
    match find_char(t, '=') {
        Some(i) => {
            if i < k.len() {
                assert(k[i] == t[i]);
                assert(k.contains('='));
            }
            assert(i == k.len());
            assert(t.take(i) =~= k);
            assert(t.skip(i + 1) =~= v);
        },
        None => {},
    }
}

/// The key an env-file line sets never holds a `=`.
pub proof fn env_line_key_has_no_equals(l: Seq<char>)
    ensures
        env_line(l) matches Some(e) ==> !e.0.contains('='),
{
    let t = trim(l);
    lemma_find_char_props(t, '=');
    match find_char(t, '=') {
        Some(e) => {
            let x = t.take(e);
            lemma_trim_idx(x);
            if trim(x).contains('=') {
                let j = choose|j: int| 0 <= j < trim(x).len() && trim(x)[j] == '=';
                assert(trim(x)[j] == x[crate::text::trim_start_idx(x) + j]);
                assert(false);
            }
        },
        None => {
            if t.contains('=') {
                let j = choose|j: int| 0 <= j < t.len() && t[j] == '=';
                assert(false);
            }
        },
    }
}

/// The entries set by a sequence of lines, in order.
pub open spec fn env_line_entries(ls: Seq<Seq<char>>) -> Seq<(Seq<char>, Seq<char>)>
    decreases ls.len(),
{
    if ls.len() == 0 {
        Seq::empty()
    } else {
        env_line_entries(ls.drop_last()) + match env_line(ls.last()) {
            Some(e) => seq![e],
            None => Seq::empty(),
        }
    }
}

/// The entries set by the contents of several env files, in order.
pub open spec fn env_contents_entries(cs: Seq<Seq<char>>) -> Seq<(Seq<char>, Seq<char>)>
    decreases cs.len(),
{
    if cs.len() == 0 {
        Seq::empty()
    } else {
        env_contents_entries(cs.drop_last()) + env_line_entries(lines(cs.last()))
    }
}

/// One entry per key: the first entry that sets it.
pub open spec fn first_wins(s: Seq<(Seq<char>, Seq<char>)>) -> Seq<(Seq<char>, Seq<char>)>
    decreases s.len(),
{
    if s.len() == 0 {
        Seq::empty()
    } else {
        let r = first_wins(s.drop_last());
        if crate::kv::kv_keys(r).contains(s.last().0) { r } else { r.push(s.last()) }
    }
}

/// The value of the first entry with key `k`.
pub open spec fn first_value(s: Seq<(Seq<char>, Seq<char>)>, k: Seq<char>) -> Option<Seq<char>>
    decreases s.len(),
{
    if s.len() == 0 {
        None
    } else if s[0].0 == k {
        Some(s[0].1)
    } else {
        first_value(s.drop_first(), k)
    }
}

proof fn lemma_first_value_push(s: Seq<(Seq<char>, Seq<char>)>, e: (Seq<char>, Seq<char>), k: Seq<char>)
    ensures
        first_value(s.push(e), k) == match first_value(s, k) {
            Some(v) => Some(v),
            None => if e.0 == k { Some(e.1) } else { None },
        },
    decreases s.len(),
{
    reveal_with_fuel(first_value, 2);
    if s.len() > 0 {
        assert(s.push(e)[0] == s[0]);
        assert(s.push(e).drop_first() =~= s.drop_first().push(e));
        lemma_first_value_push(s.drop_first(), e, k);
    } else {
        assert(s.push(e)[0] == e);
        assert(s.push(e).drop_first() =~= Seq::<(Seq<char>, Seq<char>)>::empty());
    }
}

proof fn lemma_first_value_none(s: Seq<(Seq<char>, Seq<char>)>, k: Seq<char>)
    ensures
        first_value(s, k) is None <==> !kv_keys(s).contains(k),
    decreases s.len(),
{
    if s.len() > 0 {
        lemma_first_value_none(s.drop_first(), k);
        if kv_keys(s.drop_first()).contains(k) {
            let j = choose|j: int| 0 <= j < kv_keys(s.drop_first()).len() && kv_keys(s.drop_first())[j] == k;
            assert(kv_keys(s)[j + 1] == k);
        }
        if kv_keys(s).contains(k) && s[0].0 != k {
            let j = choose|j: int| 0 <= j < kv_keys(s).len() && kv_keys(s)[j] == k;
            assert(j != 0);
            assert(kv_keys(s.drop_first())[j - 1] == k);
        }
        assert(kv_keys(s)[0] == s[0].0);
    }
}

/// When several env files set the same variable, the first one wins: the
/// merged entries give each key the value of its first setting.
pub proof fn first_file_wins(s: Seq<(Seq<char>, Seq<char>)>, k: Seq<char>)
    ensures
        first_value(first_wins(s), k) == first_value(s, k),
    decreases s.len(),
{
    if s.len() > 0 {
        let p = s.drop_last();
        let e = s.last();
        let r = first_wins(p);
        first_file_wins(p, k);
        assert(s =~= p.push(e));
        lemma_first_value_push(p, e, k);
        if kv_keys(r).contains(e.0) {
            lemma_first_value_none(r, e.0);
            lemma_first_value_none(p, e.0);
            if e.0 == k {
                assert(first_value(r, k) is Some);
            }
        } else {
            lemma_first_value_push(r, e, k);
        }
    }
}

/// The env-file variables kept beside a service's own: exactly those whose
/// key the service does not set, so an env file never overrides the
/// service's `environment:`.
pub proof fn service_env_wins(file: Seq<(Seq<char>, Seq<char>)>, service_keys: Seq<Seq<char>>, e: (Seq<char>, Seq<char>))
    ensures
        file_only(file, service_keys).contains(e) <==> file.contains(e) && !service_keys.contains(e.0),
    decreases file.len(),
{
    if file.len() > 0 {
        let p = file.drop_last();
        service_env_wins(p, service_keys, e);
        assert(file =~= p.push(file.last()));
        let r = file_only(p, service_keys);
        if file.contains(e) && !p.contains(e) {
            assert(e == file.last()) by {
                let j = choose|j: int| 0 <= j < file.len() && file[j] == e;
                if j < file.len() - 1 {
                    assert(p[j] == e);
                }
            }
        }
        if p.contains(e) {
            let j = choose|j: int| 0 <= j < p.len() && p[j] == e;
            assert(file[j] == e);
        }
        if !service_keys.contains(file.last().0) {
            assert(r.push(file.last()).last() == file.last());
            if r.push(file.last()).contains(e) && !r.contains(e) {
                let j = choose|j: int| 0 <= j < r.len() + 1 && r.push(file.last())[j] == e;
                if j < r.len() {
                    assert(r[j] == e);
                }
            }
            if r.contains(e) {
                let j = choose|j: int| 0 <= j < r.len() && r[j] == e;
                assert(r.push(file.last())[j] == e);
            }
        }
    }
}

/// `KEY=VALUE`, or `KEY` alone for a variable inherited from the environment.
pub open spec fn render_env(k: Seq<char>, v: Option<Seq<char>>) -> Seq<char> {
    match v {
        Some(x) => k + "="@ + x,
        None => k,
    }
}

/// The env-file entries whose key the service does not set.
pub open spec fn file_only(file: Seq<(Seq<char>, Seq<char>)>, service_keys: Seq<Seq<char>>) -> Seq<(Seq<char>, Seq<char>)>
    decreases file.len(),
{
    if file.len() == 0 {
        Seq::empty()
    } else {
        let r = file_only(file.drop_last(), service_keys);
        if service_keys.contains(file.last().0) { r } else { r.push(file.last()) }
    }
}

/// The rendered service variables.
pub open spec fn rendered_service(service: Seq<(Seq<char>, Option<Seq<char>>)>) -> Seq<Seq<char>> {
    Seq::new(service.len(), |i: int| render_env(service[i].0, service[i].1))
}

/// The rendered env-file variables.
pub open spec fn rendered_file(extra: Seq<(Seq<char>, Seq<char>)>) -> Seq<Seq<char>> {
    Seq::new(extra.len(), |i: int| render_env(extra[i].0, Some(extra[i].1)))
}

/// The container environment: every service variable, then every env-file
/// variable that the service does not set.
pub open spec fn merged_env(
    service: Seq<(Seq<char>, Option<Seq<char>>)>,
    file: Seq<(Seq<char>, Seq<char>)>,
) -> Seq<Seq<char>> {
    rendered_service(service) + rendered_file(file_only(file, crate::kv::kv_keys(service)))
}

// ---------------------------------------------------------------------------
// Implementation
// ---------------------------------------------------------------------------

fn parse_env_line(l: &[char]) -> (r: Option<(String, String)>)
    ensures
        r.deep_view() == env_line(l@),
{
    let t = trim_chars(l);
    if t.len() == 0 || t[0] == '#' {
        return None;
    }
    let n = t.len();
    let (k, v) = match find_char_exec(t.as_slice(), '=') {
        Some(e) => {
            let kk = trim_chars(slice_chars(t.as_slice(), 0, e).as_slice());
            let vv = slice_chars(t.as_slice(), e + 1, n);
            assert(t@.subrange(0, e as int) =~= t@.take(e as int));
            assert(vv@ =~= t@.skip(e + 1));
            (kk, vv)
        },
        None => (slice_chars(t.as_slice(), 0, n), Vec::new()),
    };
    assert(t@.subrange(0, n as int) =~= t@);
    if k.len() == 0 {
        return None;
    }
    Some((string_of(k.as_slice()), string_of(v.as_slice())))
}

/// The `KEY=VALUE` entries of one env file's contents, in order.
pub fn parse_env_content(content: &str) -> (r: Vec<(String, String)>)
    ensures
        r.deep_view() == env_line_entries(lines(content@)),
{
    let ls = lines_exec(content);
    let ghost lv = ls.deep_view();
    let mut r: Vec<(String, String)> = Vec::new();
    let mut i: usize = 0;
    assert(lv.take(0) =~= Seq::<Seq<char>>::empty());
    assert(r.deep_view() =~= Seq::<(Seq<char>, Seq<char>)>::empty());
    while i < ls.len()
        invariant
            lv == ls.deep_view(),
            lv == lines(content@),
            i <= lv.len(),
            r.deep_view() == env_line_entries(lv.take(i as int)),
        decreases lv.len() - i,
    {
        assert(lv.take(i + 1).drop_last() =~= lv.take(i as int));
        assert(ls@[i as int].deep_view() =~= ls@[i as int]@);
        let ghost before = r.deep_view();
        match parse_env_line(ls[i].as_slice()) {
            Some(e) => {
                r.push(e);
                assert(r.deep_view() =~= before + seq![env_line(lv[i as int])->Some_0]);
            },
            None => {
                assert(before + Seq::<(Seq<char>, Seq<char>)>::empty() =~= before);
            },
        }
        i = i + 1;
    }
    assert(lv.take(lv.len() as int) =~= lv);
    r
}

/// Merge the contents of several env files (in their listed order) into one
/// entry per key.  If the same key appears in several files, the first file
/// wins.
pub fn env_from_contents(contents: &Vec<String>) -> (r: Vec<(String, String)>)
    ensures
        r.deep_view() == first_wins(env_contents_entries(contents.deep_view())),
        unique_key_views(r@),
{
    let ghost cs = contents.deep_view();
    let mut all: Vec<(String, String)> = Vec::new();
    let mut i: usize = 0;
    assert(cs.take(0) =~= Seq::<Seq<char>>::empty());
    assert(all.deep_view() =~= Seq::<(Seq<char>, Seq<char>)>::empty());
    while i < contents.len()
        invariant
            cs == contents.deep_view(),
            i <= cs.len(),
            all.deep_view() == env_contents_entries(cs.take(i as int)),
        decreases cs.len() - i,
    {
        assert(cs.take(i + 1).drop_last() =~= cs.take(i as int));
        let mut more = parse_env_content(contents[i].as_str());
        let ghost before = all.deep_view();
        let ghost added = more.deep_view();
        all.append(&mut more);
        assert(all.deep_view() =~= before + added);
        i = i + 1;
    }
    assert(cs.take(cs.len() as int) =~= cs);
    keep_first(all)
}

/// One entry per key, keeping the first entry of each key.
fn keep_first(entries: Vec<(String, String)>) -> (r: Vec<(String, String)>)
    ensures
        r.deep_view() == first_wins(entries.deep_view()),
        unique_key_views(r@),
{
    let ghost e = entries.deep_view();
    let mut r: Vec<(String, String)> = Vec::new();
    let mut i: usize = 0;
    assert(e.take(0) =~= Seq::<(Seq<char>, Seq<char>)>::empty());
    assert(r.deep_view() =~= Seq::<(Seq<char>, Seq<char>)>::empty());
    while i < entries.len()
        invariant
            e == entries.deep_view(),
            i <= e.len(),
            r.deep_view() == first_wins(e.take(i as int)),
            unique_key_views(r@),
        decreases e.len() - i,
    {
        assert(e.take(i + 1).drop_last() =~= e.take(i as int));
        let ghost rv = r.deep_view();
        match crate::kv::kv_find(&r, entries[i].0.as_str()) {
            Some(j) => {
                proof {
                    assert(crate::kv::kv_keys(rv)[j as int] == e[i as int].0);
                }
            },
            None => {
                proof {
                    assert(!crate::kv::kv_keys(rv).contains(e[i as int].0)) by {
                        if crate::kv::kv_keys(rv).contains(e[i as int].0) {
                            let j = choose|j: int| 0 <= j < rv.len() && crate::kv::kv_keys(rv)[j] == e[i as int].0;
                            assert(r@[j].0@ == rv[j].0);
                        }
                    }
                }
                let ghost old_r = r@;
                r.push((entries[i].0.clone(), entries[i].1.clone()));
                proof {
                    assert(r.deep_view() =~= rv.push(e[i as int]));
                    assert forall|a: int, b: int| 0 <= a < b < r@.len() implies (#[trigger] r@[a]).0@ != (#[trigger] r@[b]).0@ by {
                        if b == r@.len() - 1 {
                            assert(rv[a].0 == old_r[a].0@);
                            assert(crate::kv::kv_keys(rv)[a] == rv[a].0);
                        } else {
                            assert(r@[a] == old_r[a] && r@[b] == old_r[b]);
                        }
                    }
                }
            },
        }
        i = i + 1;
    }
    assert(e.take(e.len() as int) =~= e);
    r
}

fn render_env_exec(k: &String, v: &Option<String>) -> (r: String)
    ensures
        r@ == render_env(k@, v.deep_view()),
{
    let mut s = k.clone();
    match v {
        Some(x) => {
            s.append("=");
            s.append(x.as_str());
        },
        None => {},
    }
    s
}

/// Merge env_file values with service environment.
///
/// `service_env` takes precedence: only keys not already in `service_env` are added.
pub fn merge_env(
    service_env: Vec<(String, Option<String>)>,
    env_file_vars: Vec<(String, String)>,
) -> (r: Vec<String>)
    ensures
        r.deep_view() == merged_env(service_env.deep_view(), env_file_vars.deep_view()),
{
    let ghost sv = service_env.deep_view();
    let ghost fv = env_file_vars.deep_view();
    let ghost keys = crate::kv::kv_keys(sv);
    let mut r: Vec<String> = Vec::new();
    let mut i: usize = 0;
    while i < service_env.len()
        invariant
            sv == service_env.deep_view(),
            i <= sv.len(),
            r.deep_view() =~= rendered_service(sv).take(i as int),
        decreases sv.len() - i,
    {
        let line = render_env_exec(&service_env[i].0, &service_env[i].1);
        assert(sv[i as int] == (service_env@[i as int].0@, service_env@[i as int].1.deep_view()));
        let ghost before = r.deep_view();
        r.push(line);
        assert(rendered_service(sv).take(i + 1) =~= rendered_service(sv).take(i as int).push(rendered_service(sv)[i as int]));
        assert(r.deep_view() =~= before.push(line@));
        i = i + 1;
    }
    assert(rendered_service(sv).take(sv.len() as int) =~= rendered_service(sv));
    let ghost head = r.deep_view();
    let mut extra: Vec<String> = Vec::new();
    let mut k: usize = 0;
    assert(fv.take(0) =~= Seq::<(Seq<char>, Seq<char>)>::empty());
    while k < env_file_vars.len()
        invariant
            sv == service_env.deep_view(),
            fv == env_file_vars.deep_view(),
            keys == crate::kv::kv_keys(sv),
            k <= fv.len(),
            extra.deep_view() =~= rendered_file(file_only(fv.take(k as int), keys)),
        decreases fv.len() - k,
    {
        assert(fv.take(k + 1).drop_last() =~= fv.take(k as int));
        let key = &env_file_vars[k].0;
        match crate::kv::kv_find(&service_env, key.as_str()) {
            Some(j) => {
                proof {
                    assert(keys[j as int] == fv[k as int].0);
                }
            },
            None => {
                proof {
                    assert(!keys.contains(fv[k as int].0)) by {
                        if keys.contains(fv[k as int].0) {
                            let j = choose|j: int| 0 <= j < keys.len() && keys[j] == fv[k as int].0;
                            assert(service_env@[j].0@ == sv[j].0);
                        }
                    }
                }
                let line = render_env_exec(key, &Some(env_file_vars[k].1.clone()));
                let ghost before = extra.deep_view();
                extra.push(line);
                proof {
                    let fo = file_only(fv.take(k as int), keys);
                    let fo2 = file_only(fv.take(k + 1), keys);
                    assert(fo2 =~= fo.push(fv[k as int]));
                    assert(rendered_file(fo2) =~= rendered_file(fo).push(line@));
                    assert(extra.deep_view() =~= before.push(line@));
                }
            },
        }
        k = k + 1;
    }
    assert(fv.take(fv.len() as int) =~= fv);
    let ghost tail = extra.deep_view();
    r.append(&mut extra);
    assert(r.deep_view() =~= head + tail);
    r
}

} // verus!
