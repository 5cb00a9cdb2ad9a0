//! Host metrics read from the kernel's `/proc` text files: memory from
//! `/proc/meminfo` and CPU counters from `/proc/stat`.
use vstd::prelude::*;
use crate::text::{
    is_ws, is_ws_exec, lines, lines_exec, parse_uint_detailed, parse_uint_detailed_exec, starts_with,
    starts_with_exec, chars_of,
};

verus! {

// ---------------------------------------------------------------------------
// Whitespace-separated fields
// ---------------------------------------------------------------------------

/// `str::split_whitespace`: the maximal runs of non-whitespace characters,
/// in order.
pub open spec fn ws_tokens(s: Seq<char>) -> Seq<Seq<char>>
    decreases s.len(),
{
    if s.len() == 0 {
        Seq::empty()
    } else {
        let t = ws_tokens(s.drop_last());
        if is_ws(s.last()) {
            t
        } else if s.len() >= 2 && !is_ws(s[s.len() - 2]) {
            t.update(t.len() - 1, t.last().push(s.last()))
        } else {
            t.push(seq![s.last()])
        }
    }
}

proof fn lemma_ws_tokens_nonempty(s: Seq<char>)
    requires
        s.len() > 0,
        !is_ws(s.last()),
    ensures
        ws_tokens(s).len() > 0,
    decreases s.len(),
{
    if s.len() >= 2 && !is_ws(s[s.len() - 2]) {
        let p = s.drop_last();
        assert(p.last() == s[s.len() - 2]);
        lemma_ws_tokens_nonempty(p);
    }
}

/// Splits a line into its whitespace-separated fields.
pub fn split_whitespace_exec(v: &[char]) -> (r: Vec<Vec<char>>)
    ensures
        r.deep_view() == ws_tokens(v@),
{
    let mut r: Vec<Vec<char>> = Vec::new();
    let mut i: usize = 0;
    assert(v@.take(0) =~= Seq::<char>::empty());
    while i < v.len()
        invariant
            i <= v@.len(),
            r.deep_view() == ws_tokens(v@.take(i as int)),
        decreases v@.len() - i,
    {
        let c = v[i];
        let ghost pre = v@.take(i as int);
        let ghost cur = v@.take(i + 1);
        assert(cur.drop_last() =~= pre);
        assert(cur.last() == c);
        if is_ws_exec(c) {
        } else if i >= 1 && !is_ws_exec(v[i - 1]) {
            assert(cur[cur.len() - 2] == v@[i - 1]);
            assert(pre.last() == v@[i - 1]);
            proof { lemma_ws_tokens_nonempty(pre); }
            let ghost rv = r.deep_view();
            let mut last = r.pop().unwrap();
            assert(last.deep_view() =~= last@);
            assert(r.deep_view() =~= rv.drop_last());
            assert(last@ == rv.last());
            last.push(c);
            assert(last.deep_view() =~= last@);
            r.push(last);
            assert(r.deep_view() =~= rv.drop_last().push(rv.last().push(c)));
            assert(rv.drop_last().push(rv.last().push(c)) =~= rv.update(rv.len() - 1, rv.last().push(c)));
        } else {
            let mut w: Vec<char> = Vec::new();
            w.push(c);
            let ghost before = r.deep_view();
            assert(w.deep_view() =~= w@);
            assert(w@ =~= seq![c]);
            r.push(w);
            assert(r.deep_view() =~= before.push(seq![c]));
        }
        i = i + 1;
    }
    assert(v@.take(v@.len() as int) =~= v@);
    r
}

// ---------------------------------------------------------------------------
// Memory
// ---------------------------------------------------------------------------

/// The number a `/proc/meminfo` line gives in its second field (kB), or 0
/// when that field is missing or not a number.
pub open spec fn kb_value(line: Seq<char>) -> u64 {
    let t = ws_tokens(line);
    if t.len() < 2 {
        0
    } else {
        match parse_uint_detailed(t[1], u64::MAX as nat) {
            Ok(n) => n as u64,
            Err(_) => 0,
        }
    }
}

/// Reads the kB value of a `/proc/meminfo` line such as
/// `MemTotal:  16318508 kB`.
pub fn parse_kb(line: &str) -> (r: u64)
    ensures
        r == kb_value(line@),
{
    let v = chars_of(line);
    let t = split_whitespace_exec(v.as_slice());
    if t.len() < 2 {
        return 0;
    }
    assert(t@[1]@ == t.deep_view()[1]);
    match parse_uint_detailed_exec(t[1].as_slice(), u64::MAX) {
        Ok(n) => n,
        Err(_) => 0,
    }
}

pub const MEM_TOTAL: &'static str = "MemTotal:";
pub const MEM_AVAILABLE: &'static str = "MemAvailable:";

/// The total and available memory (kB) that the lines of `/proc/meminfo`
/// give: the last `MemTotal:` and `MemAvailable:` lines count, a missing
/// one counts as 0.
pub open spec fn meminfo_kb(ls: Seq<Seq<char>>) -> (u64, u64)
    decreases ls.len(),
{
    if ls.len() == 0 {
        (0, 0)
    } else {
        let (t, a) = meminfo_kb(ls.drop_last());
        let l = ls.last();
        if starts_with(l, MEM_TOTAL@) {
            (kb_value(l), a)
        } else if starts_with(l, MEM_AVAILABLE@) {
            (t, kb_value(l))
        } else {
            (t, a)
        }
    }
}

/// Used and total memory in MiB: used is total minus available, at least 0.
pub open spec fn mem_mb_spec(content: Seq<char>) -> (u64, u64) {
    let (t, a) = meminfo_kb(lines(content));
    let used: u64 = if t >= a { (t - a) as u64 } else { 0 };
    ((used / 1024) as u64, (t / 1024) as u64)
}

/// Used and total memory in MiB from the contents of `/proc/meminfo`.
pub fn mem_mb(content: &str) -> (r: (u64, u64))
    ensures
        r == mem_mb_spec(content@),
{
    let ls = lines_exec(content);
    let ghost lv = ls.deep_view();
    let total_key = chars_of(MEM_TOTAL);
    let avail_key = chars_of(MEM_AVAILABLE);
    let mut total: u64 = 0;
    let mut available: u64 = 0;
    let mut i: usize = 0;
    assert(lv.take(0) =~= Seq::<Seq<char>>::empty());
    while i < ls.len()
        invariant
            lv == ls.deep_view(),
            lv == lines(content@),
            total_key@ == MEM_TOTAL@,
            avail_key@ == MEM_AVAILABLE@,
            i <= lv.len(),
            (total, available) == meminfo_kb(lv.take(i as int)),
        decreases lv.len() - i,
    {
        assert(lv.take(i + 1).drop_last() =~= lv.take(i as int));
        assert(lv.take(i + 1).last() == lv[i as int]);
        assert(ls@[i as int]@ == lv[i as int]);
        let line = string_of_line(&ls[i]);
        if starts_with_exec(ls[i].as_slice(), total_key.as_slice()) {
            total = parse_kb(line.as_str());
        } else if starts_with_exec(ls[i].as_slice(), avail_key.as_slice()) {
            available = parse_kb(line.as_str());
        }
        i = i + 1;
    }
    assert(lv.take(lv.len() as int) =~= lv);
    let used = total.saturating_sub(available);
    (used / 1024, total / 1024)
}

fn string_of_line(v: &Vec<char>) -> (s: String)
    ensures
        s@ == v@,
{
    crate::text::string_of(v.as_slice())
}

// ---------------------------------------------------------------------------
// CPU
// ---------------------------------------------------------------------------

/// The fields of a token list that read as numbers, in order.
pub open spec fn numeric_fields(toks: Seq<Seq<char>>) -> Seq<u64>
    decreases toks.len(),
{
    if toks.len() == 0 {
        Seq::empty()
    } else {
        let rest = numeric_fields(toks.drop_last());
        match parse_uint_detailed(toks.last(), u64::MAX as nat) {
            Ok(n) => rest.push(n as u64),
            Err(_) => rest,
        }
    }
}

/// The sum of some counters.
pub open spec fn sum_counters(s: Seq<u64>) -> nat
    decreases s.len(),
{
    if s.len() == 0 { 0 } else { sum_counters(s.drop_last()) + (s.last() as nat) }
}

/// The counters of the aggregate `cpu` line of `/proc/stat`: the numeric
/// fields after the first one on the first line.
pub open spec fn cpu_counters(content: Seq<char>) -> Option<Seq<u64>> {
    let ls = lines(content);
    if ls.len() == 0 {
        None
    } else {
        let t = ws_tokens(ls[0]);
        Some(numeric_fields(if t.len() == 0 { t } else { t.drop_first() }))
    }
}

/// `(total, idle)` of `/proc/stat`: the sum of the counters and the fourth
/// one, when there are at least four.
pub open spec fn proc_stat_spec(content: Seq<char>) -> Option<(u64, u64)> {
    match cpu_counters(content) {
        Some(f) => if f.len() < 4 {
            None
        } else {
            Some((sum_counters(f) as u64, f[3]))
        },
        None => None,
    }
}

/// The counters of `/proc/stat` add up to a `u64` (the kernel's counters
/// do; a sum past it would overflow).
pub open spec fn counters_fit(content: Seq<char>) -> bool {
    match cpu_counters(content) {
        Some(f) => sum_counters(f) <= u64::MAX,
        None => true,
    }
}

proof fn lemma_sum_prefix(s: Seq<u64>, i: int)
    requires
        0 <= i <= s.len(),
    ensures
        sum_counters(s.take(i)) <= sum_counters(s),
    decreases s.len() - i,
{
    if i < s.len() {
        lemma_sum_prefix(s, i + 1);
        assert(s.take(i + 1).drop_last() =~= s.take(i));
    } else {
        assert(s.take(i) =~= s);
    }
}

fn cpu_fields(content: &str) -> (r: Option<Vec<u64>>)
    ensures
        match r {
            Some(f) => cpu_counters(content@) == Some(f@),
            None => cpu_counters(content@) is None,
        },
{
    let ls = lines_exec(content);
    if ls.len() == 0 {
        return None;
    }
    assert(ls@[0]@ == lines(content@)[0]);
    let toks = split_whitespace_exec(ls[0].as_slice());
    let ghost tv = toks.deep_view();
    let ghost rest = if tv.len() == 0 { tv } else { tv.drop_first() };
    let nrest: usize = if toks.len() == 0 { 0 } else { toks.len() - 1 };
    let mut fields: Vec<u64> = Vec::new();
    let mut m: usize = 0;
    assert(rest.take(0) =~= Seq::<Seq<char>>::empty());
    while m < nrest
        invariant
            tv == toks.deep_view(),
            rest == (if tv.len() == 0 { tv } else { tv.drop_first() }),
            nrest == rest.len(),
            m <= nrest,
            fields@ == numeric_fields(rest.take(m as int)),
        decreases nrest - m,
    {
        assert(rest.take(m + 1).drop_last() =~= rest.take(m as int));
        assert(rest.take(m + 1).last() == tv[m + 1]);
        assert(toks@[m + 1]@ == tv[m + 1]);
        match parse_uint_detailed_exec(toks[m + 1].as_slice(), u64::MAX) {
            Ok(n) => fields.push(n),
            Err(_) => {},
        }
        m = m + 1;
    }
    assert(rest.take(rest.len() as int) =~= rest);
    Some(fields)
}

/// Whether the counters of `/proc/stat` add up to a `u64`.
pub fn counters_fit_exec(content: &str) -> (r: bool)
    ensures
        r == counters_fit(content@),
{
    let fields = match cpu_fields(content) {
        Some(f) => f,
        None => return true,
    };
    let ghost f = fields@;
    let mut total: u64 = 0;
    let mut j: usize = 0;
    assert(f.take(0) =~= Seq::<u64>::empty());
    while j < fields.len()
        invariant
            f == fields@,
            cpu_counters(content@) == Some(f),
            j <= f.len(),
            total == sum_counters(f.take(j as int)),
        decreases f.len() - j,
    {
        assert(f.take(j + 1).drop_last() =~= f.take(j as int));
        match total.checked_add(fields[j]) {
            Some(t) => total = t,
            None => {
                proof {
                    lemma_sum_prefix(f, j + 1);
                    assert(f.take(j + 1).last() == f[j as int]);
                    assert(sum_counters(f.take(j + 1)) == sum_counters(f.take(j as int)) + f[j as int]);
                    assert(total + fields[j as int] > u64::MAX);
                    assert(sum_counters(f) > u64::MAX);
                    assert(cpu_counters(content@) == Some(f));
                }
                return false;
            },
        }
        j = j + 1;
    }
    assert(f.take(f.len() as int) =~= f);
    true
}

/// `(total, idle)` jiffies from the contents of `/proc/stat`.
pub fn proc_stat_totals(content: &str) -> (r: Option<(u64, u64)>)
    requires
        counters_fit(content@),
    ensures
        r == proc_stat_spec(content@),
{
    let fields = match cpu_fields(content) {
        Some(f) => f,
        None => return None,
    };
    if fields.len() < 4 {
        return None;
    }
    let ghost f = fields@;
    let mut total: u64 = 0;
    let mut j: usize = 0;
    assert(f.take(0) =~= Seq::<u64>::empty());
    while j < fields.len()
        invariant
            f == fields@,
            sum_counters(f) <= u64::MAX,
            j <= f.len(),
            total == sum_counters(f.take(j as int)),
        decreases f.len() - j,
    {
        proof {
            lemma_sum_prefix(f, j + 1);
            assert(f.take(j + 1).drop_last() =~= f.take(j as int));
        }
        total = total + fields[j];
        j = j + 1;
    }
    assert(f.take(f.len() as int) =~= f);
    Some((total, fields[3]))
}

} // verus!
