//! Variable interpolation in compose files, before they are parsed.
//!
//! `$$` stands for a literal `$`; `$NAME` and `${NAME}` expand to the
//! variable's value (empty when it is unset); `${NAME:-word}`,
//! `${NAME-word}`, `${NAME:+word}`, `${NAME+word}`, `${NAME:?word}` and
//! `${NAME?word}` are the shell's modifiers, the forms with `:` treating an
//! empty value as unset. A `$` that starts none of these stays as it is.
use vstd::prelude::*;
use crate::error::{ComposeError, Result};
use crate::kv::{kv_get, kv_lookup};
use crate::text::{chars_of, find_char, find_char_exec, lemma_find_char_props, slice_chars, string_of};

verus! {

pub open spec fn is_name_start(c: char) -> bool {
    ('a' <= c && c <= 'z') || ('A' <= c && c <= 'Z') || c == '_'
}

pub open spec fn is_name_char(c: char) -> bool {
    is_name_start(c) || ('0' <= c && c <= '9')
}

fn is_name_start_exec(c: char) -> (r: bool)
    ensures
        r == is_name_start(c),
{
    ('a' <= c && c <= 'z') || ('A' <= c && c <= 'Z') || c == '_'
}

fn is_name_char_exec(c: char) -> (r: bool)
    ensures
        r == is_name_char(c),
{
    is_name_start_exec(c) || ('0' <= c && c <= '9')
}

/// The length of the longest prefix of `t` made of name characters.
pub open spec fn name_len(t: Seq<char>) -> nat
    decreases t.len(),
{
    if t.len() > 0 && is_name_char(t[0]) {
        1 + name_len(t.drop_first())
    } else {
        0
    }
}

proof fn lemma_name_len_bound(t: Seq<char>)
    ensures
        name_len(t) <= t.len(),
    decreases t.len(),
{
    if t.len() > 0 && is_name_char(t[0]) {
        lemma_name_len_bound(t.drop_first());
    }
}

/// The modifier of a `${...}` form.
#[derive(Debug, Clone, Copy, PartialEq, Eq)]
pub enum Modifier {
    /// `${NAME}`
    Plain,
    /// `${NAME:-word}`: the word when the variable is unset or empty.
    DefaultIfEmpty,
    /// `${NAME-word}`: the word when the variable is unset.
    Default,
    /// `${NAME:+word}`: the word when the variable is set and not empty.
    AltIfNonEmpty,
    /// `${NAME+word}`: the word when the variable is set.
    Alt,
    /// `${NAME:?word}`: an error when the variable is unset or empty.
    RequireNonEmpty,
    /// `${NAME?word}`: an error when the variable is unset.
    Require,
}

/// The modifier and word written between a name and the closing brace, if
/// that text is one.
pub open spec fn modifier_of(op: Seq<char>) -> Option<(Modifier, Seq<char>)> {
    if op.len() == 0 {
        Some((Modifier::Plain, op))
    } else if op[0] == ':' && op.len() >= 2 && op[1] == '-' {
        Some((Modifier::DefaultIfEmpty, op.skip(2)))
    } else if op[0] == ':' && op.len() >= 2 && op[1] == '+' {
        Some((Modifier::AltIfNonEmpty, op.skip(2)))
    } else if op[0] == ':' && op.len() >= 2 && op[1] == '?' {
        Some((Modifier::RequireNonEmpty, op.skip(2)))
    } else if op[0] == '-' {
        Some((Modifier::Default, op.skip(1)))
    } else if op[0] == '+' {
        Some((Modifier::Alt, op.skip(1)))
    } else if op[0] == '?' {
        Some((Modifier::Require, op.skip(1)))
    } else {
        None
    }
}

fn modifier_exec(op: &[char]) -> (r: Option<(Modifier, Vec<char>)>)
    ensures
        match (r, modifier_of(op@)) {
            (Some(x), Some(y)) => x.0 == y.0 && x.1@ == y.1,
            (None, None) => true,
            _ => false,
        },
{
    let n = op.len();
    if n == 0 {
        return Some((Modifier::Plain, Vec::new()));
    }
    let (m, skip): (Option<Modifier>, usize) = if op[0] == ':' && n >= 2 && op[1] == '-' {
        (Some(Modifier::DefaultIfEmpty), 2)
    } else if op[0] == ':' && n >= 2 && op[1] == '+' {
        (Some(Modifier::AltIfNonEmpty), 2)
    } else if op[0] == ':' && n >= 2 && op[1] == '?' {
        (Some(Modifier::RequireNonEmpty), 2)
    } else if op[0] == '-' {
        (Some(Modifier::Default), 1)
    } else if op[0] == '+' {
        (Some(Modifier::Alt), 1)
    } else if op[0] == '?' {
        (Some(Modifier::Require), 1)
    } else {
        (None, 0)
    };
    match m {
        Some(m) => {
            let word = slice_chars(op, skip, n);
            assert(word@ =~= op@.skip(skip as int));
            Some((m, word))
        },
        None => None,
    }
}

/// The value of `name` among `vars`, the first entry winning.
pub open spec fn lookup_value(vars: Seq<(String, String)>, name: Seq<char>) -> Option<Seq<char>> {
    match kv_lookup(vars, name) {
        Some(v) => Some(v@),
        None => None,
    }
}

/// What a variable form expands to, or the variable and message of a
/// required variable that is missing.
pub open spec fn expand_spec(m: Modifier, name: Seq<char>, word: Seq<char>, value: Option<Seq<char>>) -> core::result::Result<Seq<char>, (Seq<char>, Seq<char>)> {
    let set = value is Some;
    let v = match value {
        Some(x) => x,
        None => Seq::<char>::empty(),
    };
    let nonempty = set && v.len() > 0;
    match m {
        Modifier::Plain => Ok(v),
        Modifier::DefaultIfEmpty => Ok(if nonempty { v } else { word }),
        Modifier::Default => Ok(if set { v } else { word }),
        Modifier::AltIfNonEmpty => Ok(if nonempty { word } else { Seq::empty() }),
        Modifier::Alt => Ok(if set { word } else { Seq::empty() }),
        Modifier::RequireNonEmpty => if nonempty { Ok(v) } else { Err((name, word)) },
        Modifier::Require => if set { Ok(v) } else { Err((name, word)) },
    }
}

/// The expansion of the text at the start of `t` and how many characters
/// of `t` it takes up (`t` is not empty).
pub open spec fn step_spec(t: Seq<char>, vars: Seq<(String, String)>) -> (core::result::Result<Seq<char>, (Seq<char>, Seq<char>)>, int) {
    if t[0] != '$' {
        (Ok(seq![t[0]]), 1)
    } else if t.len() >= 2 && t[1] == '$' {
        (Ok(seq!['$']), 2)
    } else if t.len() >= 2 && t[1] == '{' {
        braced_spec(t, vars)
    } else if t.len() >= 2 && is_name_start(t[1]) {
        let n = name_len(t.skip(1)) as int;
        (Ok(match lookup_value(vars, t.subrange(1, 1 + n)) {
            Some(v) => v,
            None => Seq::empty(),
        }), 1 + n)
    } else {
        (Ok(seq!['$']), 1)
    }
}

/// A `${...}` form at the start of `t`, or a literal `$` when the text
/// there is not one.
pub open spec fn braced_spec(t: Seq<char>, vars: Seq<(String, String)>) -> (core::result::Result<Seq<char>, (Seq<char>, Seq<char>)>, int) {
    let body = t.skip(2);
    let n = name_len(body);
    let rest = body.skip(n as int);
    if n > 0 && is_name_start(body[0]) {
        match find_char(rest, '}') {
            Some(close) => match modifier_of(rest.take(close)) {
                Some(mw) => (
                    expand_spec(mw.0, body.take(n as int), mw.1, lookup_value(vars, body.take(n as int))),
                    2 + n + close + 1,
                ),
                None => (Ok(seq!['$']), 1),
            },
            None => (Ok(seq!['$']), 1),
        }
    } else {
        (Ok(seq!['$']), 1)
    }
}

proof fn lemma_step_bounds(t: Seq<char>, vars: Seq<(String, String)>)
    requires
        t.len() > 0,
    ensures
        1 <= step_spec(t, vars).1 <= t.len(),
{
    if t[0] == '$' && t.len() >= 2 && t[1] != '$' {
        if t[1] == '{' {
            let body = t.skip(2);
            let n = name_len(body);
            lemma_name_len_bound(body);
            let rest = body.skip(n as int);
            lemma_find_char_props(rest, '}');
        } else if is_name_start(t[1]) {
            lemma_name_len_bound(t.skip(1));
        }
    }
}

/// `r` with `p` in front of its text.
pub open spec fn prepend(p: Seq<char>, r: core::result::Result<Seq<char>, (Seq<char>, Seq<char>)>) -> core::result::Result<Seq<char>, (Seq<char>, Seq<char>)> {
    match r {
        Ok(q) => Ok(p + q),
        Err(e) => Err(e),
    }
}

/// The interpolation of the whole text `t`: its pieces expanded left to
/// right, the first missing required variable ending it with an error.
pub open spec fn subst_spec(t: Seq<char>, vars: Seq<(String, String)>) -> core::result::Result<Seq<char>, (Seq<char>, Seq<char>)>
    decreases t.len(),
{
    if t.len() == 0 {
        Ok(Seq::empty())
    } else {
        let st = step_spec(t, vars);
        if 1 <= st.1 <= t.len() {
            match st.0 {
                Ok(p) => prepend(p, subst_spec(t.skip(st.1), vars)),
                Err(e) => Err(e),
            }
        } else {
            Ok(Seq::empty())
        }
    }
}

proof fn lemma_name_len_prefix(name: Seq<char>, rest: Seq<char>)
    requires
        forall|i: int| 0 <= i < name.len() ==> is_name_char(#[trigger] name[i]),
        rest.len() == 0 || !is_name_char(rest[0]),
    ensures
        name_len(name + rest) == name.len(),
    decreases name.len(),
{
    if name.len() == 0 {
        assert(name + rest =~= rest);
    } else {
        assert((name + rest)[0] == name[0]);
        assert((name + rest).drop_first() =~= name.drop_first() + rest);
        assert forall|i: int| 0 <= i < name.drop_first().len() implies is_name_char(#[trigger] name.drop_first()[i]) by {
            assert(name.drop_first()[i] == name[i + 1]);
        }
        lemma_name_len_prefix(name.drop_first(), rest);
    }
}

/// A whole text `${NAME<op>}` interpolates to what the modifier written as
/// `op` makes of the variable.
proof fn lemma_braced_form(name: Seq<char>, op: Seq<char>, vars: Seq<(String, String)>)
    requires
        name.len() > 0,
        is_name_start(name[0]),
        forall|i: int| 0 <= i < name.len() ==> is_name_char(#[trigger] name[i]),
        !op.contains('}'),
        op.len() == 0 || !is_name_char(op[0]),
        modifier_of(op) is Some,
    ensures
        subst_spec(seq!['$', '{'] + name + op + seq!['}'], vars) == expand_spec(
            modifier_of(op)->Some_0.0,
            name,
            modifier_of(op)->Some_0.1,
            lookup_value(vars, name),
        ),
{
    let t = seq!['$', '{'] + name + op + seq!['}'];
    let rest = op + seq!['}'];
    let body = t.skip(2);
    assert(body =~= name + rest);
    assert(rest.len() == 0 || !is_name_char(rest[0])) by {
        if op.len() == 0 {
            assert(rest[0] == '}');
        } else {
            assert(rest[0] == op[0]);
        }
    }
    lemma_name_len_prefix(name, rest);
    let n = name_len(body);
    assert(body[0] == name[0]);
    assert(body.skip(n as int) =~= rest);
    assert(body.take(n as int) =~= name);
    lemma_find_char_props(rest, '}');
    assert(rest[op.len() as int] == '}');
    match find_char(rest, '}') {
        Some(i) => {
            if i < op.len() {
                assert(op[i] == rest[i]);
                assert(op.contains('}'));
            }
            assert(i == op.len());
        },
        None => {},
    }
    assert(rest.take(op.len() as int) =~= op);
    assert(t[0] == '$');
    assert(t[1] == '{');
    let st = step_spec(t, vars);
    assert(st.1 == t.len());
    assert(t.skip(t.len() as int) =~= Seq::<char>::empty());
    assert(subst_spec(Seq::<char>::empty(), vars) == Ok::<Seq<char>, (Seq<char>, Seq<char>)>(Seq::empty()));
    match st.0 {
        Ok(p) => {
            assert(p + Seq::<char>::empty() =~= p);
        },
        Err(_) => {},
    }
}

/// Each `${...}` form, as a whole text, with `vars` giving `NAME` its first
/// entry's value: `${NAME}` is the value (empty when unset); `:-` and `-`
/// give the word when the variable is empty or unset (`:-`) or unset only
/// (`-`); `:+` and `+` give the word when it is set and not empty (`:+`) or
/// set at all (`+`), and nothing otherwise; `:?` and `?` give the value or
/// fail with the name and the word as message.
pub proof fn modifier_forms(name: Seq<char>, word: Seq<char>, vars: Seq<(String, String)>)
    requires
        name.len() > 0,
        is_name_start(name[0]),
        forall|i: int| 0 <= i < name.len() ==> is_name_char(#[trigger] name[i]),
        !word.contains('}'),
    ensures
        ({
            let found = kv_lookup(vars, name);
            let value = match found {
                Some(s) => s@,
                None => Seq::<char>::empty(),
            };
            let set = found is Some;
            let nonempty = set && value.len() > 0;
            let open = seq!['$', '{'] + name;
            let close = seq!['}'];
            &&& subst_spec(open + close, vars) == Ok::<Seq<char>, (Seq<char>, Seq<char>)>(value)
            &&& subst_spec(open + seq![':', '-'] + word + close, vars)
                == Ok::<Seq<char>, (Seq<char>, Seq<char>)>(if nonempty { value } else { word })
            &&& subst_spec(open + seq!['-'] + word + close, vars)
                == Ok::<Seq<char>, (Seq<char>, Seq<char>)>(if set { value } else { word })
            &&& subst_spec(open + seq![':', '+'] + word + close, vars)
                == Ok::<Seq<char>, (Seq<char>, Seq<char>)>(if nonempty { word } else { Seq::empty() })
            &&& subst_spec(open + seq!['+'] + word + close, vars)
                == Ok::<Seq<char>, (Seq<char>, Seq<char>)>(if set { word } else { Seq::empty() })
            &&& subst_spec(open + seq![':', '?'] + word + close, vars) == (if nonempty {
                Ok::<Seq<char>, (Seq<char>, Seq<char>)>(value)
            } else {
                Err::<Seq<char>, (Seq<char>, Seq<char>)>((name, word))
            })
            &&& subst_spec(open + seq!['?'] + word + close, vars) == (if set {
                Ok::<Seq<char>, (Seq<char>, Seq<char>)>(value)
            } else {
                Err::<Seq<char>, (Seq<char>, Seq<char>)>((name, word))
            })
        }),
{
    let open = seq!['$', '{'] + name;
    let close = seq!['}'];
    let e = Seq::<char>::empty();
    lemma_braced_form(name, e, vars);
    assert(open + close =~= seq!['$', '{'] + name + e + close);
    let ops = seq![seq![':', '-'], seq!['-'], seq![':', '+'], seq!['+'], seq![':', '?'], seq!['?']];
    assert forall|k: int| 0 <= k < 6 implies {
        let op = #[trigger] ops[k] + word;
        &&& !op.contains('}')
        &&& !is_name_char(op[0])
        &&& op.skip(ops[k].len() as int) =~= word
    } by {
        let op = ops[k] + word;
        if op.contains('}') {
            let j = choose|j: int| 0 <= j < op.len() && op[j] == '}';
            if j >= ops[k].len() {
                assert(word[j - ops[k].len()] == '}');
                assert(word.contains('}'));
            }
        }
        assert(op[0] == ops[k][0]);
    }
    let o0 = ops[0] + word;
    let o1 = ops[1] + word;
    let o2 = ops[2] + word;
    let o3 = ops[3] + word;
    let o4 = ops[4] + word;
    let o5 = ops[5] + word;
    assert(o0[0] == ':' && o0[1] == '-');
    assert(o1[0] == '-');
    assert(o2[0] == ':' && o2[1] == '+');
    assert(o3[0] == '+');
    assert(o4[0] == ':' && o4[1] == '?');
    assert(o5[0] == '?');
    lemma_braced_form(name, o0, vars);
    lemma_braced_form(name, o1, vars);
    lemma_braced_form(name, o2, vars);
    lemma_braced_form(name, o3, vars);
    lemma_braced_form(name, o4, vars);
    lemma_braced_form(name, o5, vars);
    assert(open + seq![':', '-'] + word + close =~= seq!['$', '{'] + name + o0 + close);
    assert(open + seq!['-'] + word + close =~= seq!['$', '{'] + name + o1 + close);
    assert(open + seq![':', '+'] + word + close =~= seq!['$', '{'] + name + o2 + close);
    assert(open + seq!['+'] + word + close =~= seq!['$', '{'] + name + o3 + close);
    assert(open + seq![':', '?'] + word + close =~= seq!['$', '{'] + name + o4 + close);
    assert(open + seq!['?'] + word + close =~= seq!['$', '{'] + name + o5 + close);
}

/// `$NAME` stands for the variable's value (empty when it is unset); the
/// name runs as far as name characters go, and the text after it is
/// interpolated as if it stood alone.
pub proof fn bare_variable(name: Seq<char>, rest: Seq<char>, vars: Seq<(String, String)>)
    requires
        name.len() > 0,
        is_name_start(name[0]),
        forall|i: int| 0 <= i < name.len() ==> is_name_char(#[trigger] name[i]),
        rest.len() == 0 || !is_name_char(rest[0]),
    ensures
        ({
            let value = match kv_lookup(vars, name) {
                Some(s) => s@,
                None => Seq::<char>::empty(),
            };
            subst_spec(seq!['$'] + name + rest, vars) == match subst_spec(rest, vars) {
                Ok(q) => Ok::<Seq<char>, (Seq<char>, Seq<char>)>(value + q),
                Err(e) => Err::<Seq<char>, (Seq<char>, Seq<char>)>(e),
            }
        }),
{
    let t = seq!['$'] + name + rest;
    assert(t.skip(1) =~= name + rest);
    lemma_name_len_prefix(name, rest);
    assert(t[0] == '$');
    assert(t[1] == name[0]);
    assert(t.subrange(1, 1 + name.len() as int) =~= name);
    assert(t.skip(1 + name.len() as int) =~= rest);
}

/// Text without a `$` is left as it is.
pub proof fn text_without_dollar_unchanged(t: Seq<char>, vars: Seq<(String, String)>)
    requires
        !t.contains('$'),
    ensures
        subst_spec(t, vars) == Ok::<Seq<char>, (Seq<char>, Seq<char>)>(t),
    decreases t.len(),
{
    if t.len() > 0 {
        assert(t[0] != '$');
        let r = t.skip(1);
        if r.contains('$') {
            let j = choose|j: int| 0 <= j < r.len() && r[j] == '$';
            assert(t[j + 1] == '$');
        }
        text_without_dollar_unchanged(r, vars);
        assert(seq![t[0]] + r =~= t);
        assert(step_spec(t, vars).1 == 1);
    } else {
        assert(t =~= Seq::<char>::empty());
    }
}

/// `$$` stands for one literal `$`, and the text after it is interpolated
/// as if it stood alone.
pub proof fn escaped_dollar(rest: Seq<char>, vars: Seq<(String, String)>)
    ensures
        subst_spec(seq!['$', '$'] + rest, vars) == match subst_spec(rest, vars) {
            Ok(q) => Ok::<Seq<char>, (Seq<char>, Seq<char>)>(seq!['$'] + q),
            Err(e) => Err::<Seq<char>, (Seq<char>, Seq<char>)>(e),
        },
{
    let t = seq!['$', '$'] + rest;
    assert(t[0] == '$' && t[1] == '$');
    assert(t.skip(2) =~= rest);
}

/// The length of the name at `cs[from..]`.
fn name_len_exec(cs: &[char], from: usize) -> (n: usize)
    requires
        from <= cs@.len(),
    ensures
        n == name_len(cs@.skip(from as int)),
        from + n <= cs@.len(),
{
    let mut j = from;
    while j < cs.len() && is_name_char_exec(cs[j])
        invariant
            from <= j <= cs@.len(),
            name_len(cs@.skip(from as int)) == (j - from) + name_len(cs@.skip(j as int)),
        decreases cs@.len() - j,
    {
        assert(cs@.skip(j as int).drop_first() =~= cs@.skip(j + 1));
        j += 1;
    }
    if j < cs.len() {
        assert(!is_name_char(cs@.skip(j as int)[0]));
    } else {
        assert(cs@.skip(j as int).len() == 0);
    }
    j - from
}

/// The value of the variable named `name`.
fn lookup_exec(vars: &Vec<(String, String)>, name: &[char]) -> (r: Option<Vec<char>>)
    ensures
        match (r, lookup_value(vars@, name@)) {
            (Some(x), Some(y)) => x@ == y,
            (None, None) => true,
            _ => false,
        },
{
    let key = string_of(name);
    match kv_get(vars, key.as_str()) {
        Some(v) => Some(chars_of(v.as_str())),
        None => None,
    }
}

fn expand_exec(m: Modifier, name: &[char], word: Vec<char>, value: Option<Vec<char>>) -> (r: core::result::Result<Vec<char>, (String, String)>)
    ensures
        match (r, expand_spec(m, name@, word@, match value {
            Some(v) => Some(v@),
            None => None,
        })) {
            (Ok(x), Ok(y)) => x@ == y,
            (Err(x), Err(y)) => x.0@ == y.0 && x.1@ == y.1,
            _ => false,
        },
{
    let set = value.is_some();
    let nonempty = match &value {
        Some(v) => v.len() > 0,
        None => false,
    };
    let v = match value {
        Some(v) => v,
        None => Vec::new(),
    };
    match m {
        Modifier::Plain => Ok(v),
        Modifier::DefaultIfEmpty => Ok(if nonempty { v } else { word }),
        Modifier::Default => Ok(if set { v } else { word }),
        Modifier::AltIfNonEmpty => Ok(if nonempty { word } else { Vec::new() }),
        Modifier::Alt => Ok(if set { word } else { Vec::new() }),
        Modifier::RequireNonEmpty => if nonempty {
            Ok(v)
        } else {
            Err((string_of(name), string_of(word.as_slice())))
        },
        Modifier::Require => if set {
            Ok(v)
        } else {
            Err((string_of(name), string_of(word.as_slice())))
        },
    }
}

/// One step of the interpolation at `cs[i..]`.
fn step_exec(cs: &Vec<char>, i: usize, vars: &Vec<(String, String)>) -> (r: (core::result::Result<Vec<char>, (String, String)>, usize))
    requires
        i < cs@.len(),
    ensures
        r.1 == step_spec(cs@.skip(i as int), vars@).1,
        match (r.0, step_spec(cs@.skip(i as int), vars@).0) {
            (Ok(x), Ok(y)) => x@ == y,
            (Err(x), Err(y)) => x.0@ == y.0 && x.1@ == y.1,
            _ => false,
        },
{
    let ghost t = cs@.skip(i as int);
    let len = cs.len();
    let c = cs[i];
    assert(t[0] == c);
    if c != '$' {
        let v = vec![c];
        assert(v@ =~= seq![c]);
        return (Ok(v), 1);
    }
    let literal = vec!['$'];
    assert(literal@ =~= seq!['$']);
    if i + 1 >= len {
        return (Ok(literal), 1);
    }
    let c1 = cs[i + 1];
    assert(t[1] == c1);
    if c1 == '$' {
        return (Ok(literal), 2);
    }
    if c1 == '{' {
        assert(t.skip(2) =~= cs@.skip(i + 2));
        let n = if i + 2 <= len { name_len_exec(cs.as_slice(), i + 2) } else { 0 };
        if n == 0 || !is_name_start_exec(cs[i + 2]) {
            return (Ok(literal), 1);
        }
        let ghost body = t.skip(2);
        assert(body[0] == cs@[i + 2]);
        let rest = slice_chars(cs.as_slice(), i + 2 + n, len);
        assert(rest@ =~= body.skip(n as int));
        match find_char_exec(rest.as_slice(), '}') {
            None => return (Ok(literal), 1),
            Some(close) => {
                let op = slice_chars(rest.as_slice(), 0, close);
                assert(op@ =~= rest@.take(close as int));
                match modifier_exec(op.as_slice()) {
                    None => return (Ok(literal), 1),
                    Some((m, word)) => {
                        let name = slice_chars(cs.as_slice(), i + 2, i + 2 + n);
                        assert(name@ =~= body.take(n as int));
                        let value = lookup_exec(vars, name.as_slice());
                        let out = expand_exec(m, name.as_slice(), word, value);
                        return (out, 2 + n + close + 1);
                    },
                }
            },
        }
    }
    if is_name_start_exec(c1) {
        assert(t.skip(1) =~= cs@.skip(i + 1));
        let n = name_len_exec(cs.as_slice(), i + 1);
        let name = slice_chars(cs.as_slice(), i + 1, i + 1 + n);
        assert(name@ =~= t.subrange(1, 1 + n));
        let value = match lookup_exec(vars, name.as_slice()) {
            Some(v) => v,
            None => Vec::new(),
        };
        return (Ok(value), 1 + n);
    }
    (Ok(literal), 1)
}

/// Interpolates `content` with the variables `vars` (the first entry of a
/// name winning). A `${NAME:?msg}` or `${NAME?msg}` whose variable is
/// missing gives [`ComposeError::RequiredVarNotSet`] with its name and
/// message.
pub fn substitute(content: &str, vars: &Vec<(String, String)>) -> (r: Result<String>)
    ensures
        match (r, subst_spec(content@, vars@)) {
            (Ok(s), Ok(t)) => s@ == t,
            (Err(ComposeError::RequiredVarNotSet { var, msg }), Err(e)) => var@ == e.0 && msg@ == e.1,
            _ => false,
        },
{
    let cs = chars_of(content);
    let mut out: Vec<char> = Vec::new();
    let mut i: usize = 0;
    assert(cs@.skip(0) =~= cs@);
    while i < cs.len()
        invariant
            i <= cs@.len(),
            cs@ == content@,
            subst_spec(cs@, vars@) == prepend(out@, subst_spec(cs@.skip(i as int), vars@)),
        decreases cs@.len() - i,
    {
        let ghost t = cs@.skip(i as int);
        proof {
            lemma_step_bounds(t, vars@);
        }
        let (piece, k) = step_exec(&cs, i, vars);
        assert(t.skip(k as int) =~= cs@.skip(i + k));
        match piece {
            Ok(p) => {
                let ghost before = out@;
                let mut p = p;
                out.append(&mut p);
                assert(before + (step_spec(t, vars@).0->Ok_0) + Seq::<char>::empty() =~= out@ + Seq::<char>::empty());
                proof {
                    let rest = subst_spec(cs@.skip(i + k), vars@);
                    match rest {
                        Ok(q) => {
                            assert(before + (step_spec(t, vars@).0->Ok_0 + q) =~= out@ + q);
                        },
                        Err(_) => {},
                    }
                }
                i = i + k;
            },
            Err((var, msg)) => {
                return Err(ComposeError::RequiredVarNotSet { var, msg });
            },
        }
    }
    assert(cs@.skip(i as int).len() == 0);
    assert(out@ + Seq::<char>::empty() =~= out@);
    Ok(string_of(out.as_slice()))
}

} // verus!
