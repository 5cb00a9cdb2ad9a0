//! The dashboard's command line: the `podman logs` invocation behind `logs`,
//! which of its lines `--errors` keeps, and the one-time password that
//! `reset-admin-password` hands out.
use vstd::prelude::*;
use crate::dashboard::hash::{lowercase_spec, to_lowercase};
use crate::text::{chars_of, slice_chars, starts_with, starts_with_exec, string_of};

verus! {

pub const BACKEND_CONTAINER: &'static str = "lynx-dashboard-backend";

pub const FRONTEND_CONTAINER: &'static str = "lynx-dashboard-frontend";

/// The containers whose output `logs` shows, in this order.
pub open spec fn log_containers_spec() -> Seq<Seq<char>> {
    seq![BACKEND_CONTAINER@, FRONTEND_CONTAINER@]
}

pub fn log_containers() -> (r: Vec<String>)
    ensures
        r.deep_view() == log_containers_spec(),
{
    let mut r: Vec<String> = Vec::new();
    r.push(BACKEND_CONTAINER.to_string());
    r.push(FRONTEND_CONTAINER.to_string());
    assert(r.deep_view() =~= log_containers_spec());
    r
}

/// `podman logs [--follow | --tail=100] [--since=<since>] <container>`.
pub open spec fn logs_args_spec(follow: bool, since: Option<Seq<char>>, container: Seq<char>) -> Seq<Seq<char>> {
    seq!["logs"@, if follow { "--follow"@ } else { "--tail=100"@ }]
        + match since {
            Some(s) => seq!["--since="@ + s],
            None => Seq::empty(),
        }
        + seq![container]
}

pub fn logs_args(follow: bool, since: Option<&str>, container: &str) -> (r: Vec<String>)
    ensures
        r.deep_view() == logs_args_spec(
            follow,
            match since {
                Some(s) => Some(s@),
                None => None,
            },
            container@,
        ),
{
    let mut r: Vec<String> = Vec::new();
    r.push("logs".to_string());
    if follow {
        r.push("--follow".to_string());
    } else {
        r.push("--tail=100".to_string());
    }
    match since {
        Some(s) => {
            let mut arg = "--since=".to_string();
            arg.append(s);
            r.push(arg);
        },
        None => {},
    }
    r.push(container.to_string());
    proof {
        let sv = match since {
            Some(s) => Some(s@),
            None => None,
        };
        assert(r.deep_view() =~= logs_args_spec(follow, sv, container@));
    }
    r
}

/// `p` occurs in `s` as a run of consecutive characters.
pub open spec fn contains_seq(s: Seq<char>, p: Seq<char>) -> bool {
    exists|i: int| 0 <= i <= s.len() && #[trigger] starts_with(s.skip(i), p)
}

pub fn contains_exec(s: &[char], p: &[char]) -> (r: bool)
    ensures
        r == contains_seq(s@, p@),
{
    let mut i: usize = 0;
    while i < s.len()
        invariant
            i <= s@.len(),
            forall|j: int| 0 <= j < i ==> !#[trigger] starts_with(s@.skip(j), p@),
        decreases s@.len() - i,
    {
        let rest = slice_chars(s, i, s.len());
        assert(rest@ =~= s@.skip(i as int));
        if starts_with_exec(rest.as_slice(), p) {
            return true;
        }
        i += 1;
    }
    assert(s@.skip(s@.len() as int) =~= Seq::<char>::empty());
    if p.len() == 0 {
        assert(s@.skip(s@.len() as int).take(0) =~= p@);
        assert(starts_with(s@.skip(s@.len() as int), p@));
        true
    } else {
        assert(!starts_with(s@.skip(s@.len() as int), p@));
        false
    }
}

/// Whether `logs` prints `line`: every line, or under `--errors` only those
/// whose lowercase form mentions an error, a critical or a fatal condition.
pub open spec fn shows_line_spec(line: Seq<char>, errors: bool) -> bool {
    !errors || {
        let lower = lowercase_spec(line);
        contains_seq(lower, "error"@) || contains_seq(lower, "critical"@) || contains_seq(lower, "fatal"@)
    }
}

pub fn shows_log_line(line: &str, errors: bool) -> (r: bool)
    ensures
        r == shows_line_spec(line@, errors),
{
    if !errors {
        return true;
    }
    let lower = to_lowercase(line);
    let lv = chars_of(lower.as_str());
    let e = chars_of("error");
    let c = chars_of("critical");
    let f = chars_of("fatal");
    contains_exec(lv.as_slice(), e.as_slice()) || contains_exec(lv.as_slice(), c.as_slice())
        || contains_exec(lv.as_slice(), f.as_slice())
}

pub const PASSWORD_CHARSET: &'static str = "abcdefghijklmnopqrstuvwxyzABCDEFGHIJKLMNOPQRSTUVWXYZ0123456789!@#$%^&*";

pub const PASSWORD_LEN: usize = 24;

/// The password that the draws `draws` pick from `charset`, one character
/// each.
pub open spec fn password_spec(charset: Seq<char>, draws: Seq<usize>) -> Seq<char> {
    Seq::new(draws.len(), |i: int| charset[draws[i] as int])
}

pub fn password_from_draws(charset: &[char], draws: &[usize]) -> (r: String)
    requires
        forall|i: int| 0 <= i < draws@.len() ==> #[trigger] draws@[i] < charset@.len(),
    ensures
        r@ == password_spec(charset@, draws@),
{
    let mut v: Vec<char> = Vec::new();
    let mut i: usize = 0;
    while i < draws.len()
        invariant
            i <= draws@.len(),
            forall|k: int| 0 <= k < draws@.len() ==> #[trigger] draws@[k] < charset@.len(),
            v@ =~= password_spec(charset@, draws@.take(i as int)),
        decreases draws@.len() - i,
    {
        v.push(charset[draws[i]]);
        i += 1;
        assert(v@ =~= password_spec(charset@, draws@.take(i as int)));
    }
    assert(draws@.take(draws@.len() as int) =~= draws@);
    string_of(v.as_slice())
}

/// `rand::Rng::gen_range(0..n)` on `rand::thread_rng()`: a random index
/// below `n`.
#[verifier::external_body]
fn random_below(n: usize) -> (r: usize)
    requires
        n > 0,
    ensures
        r < n,
{
    rand::Rng::gen_range(&mut rand::thread_rng(), 0..n)
}

/// A fresh one-time password: `PASSWORD_LEN` characters drawn at random
/// from `PASSWORD_CHARSET`.
pub fn generate_random_password() -> (r: String)
    ensures
        r@.len() == PASSWORD_LEN,
        forall|i: int| 0 <= i < r@.len() ==> PASSWORD_CHARSET@.contains(#[trigger] r@[i]),
{
    let charset = chars_of(PASSWORD_CHARSET);
    proof {
        reveal_strlit("abcdefghijklmnopqrstuvwxyzABCDEFGHIJKLMNOPQRSTUVWXYZ0123456789!@#$%^&*");
    }
    let mut draws: Vec<usize> = Vec::new();
    let mut k: usize = 0;
    while k < PASSWORD_LEN
        invariant
            k <= PASSWORD_LEN,
            draws@.len() == k,
            charset@ == PASSWORD_CHARSET@,
            charset@.len() > 0,
            forall|j: int| 0 <= j < draws@.len() ==> #[trigger] draws@[j] < charset@.len(),
        decreases PASSWORD_LEN - k,
    {
        let d = random_below(charset.len());
        draws.push(d);
        k += 1;
    }
    let r = password_from_draws(charset.as_slice(), draws.as_slice());
    assert forall|i: int| 0 <= i < r@.len() implies PASSWORD_CHARSET@.contains(#[trigger] r@[i]) by {
        assert(r@[i] == charset@[draws@[i] as int]);
    }
    r
}

} // verus!
