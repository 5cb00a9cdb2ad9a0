//! Audit-log batches sent by agents: entries are hash-chained, each naming
//! the hash of the entry before it, and a batch is only stored when its
//! chain continues the stored one without a break.
use vstd::prelude::*;

verus! {

/// One audit-log entry as an agent reports it.  Identifiers are the 128-bit
/// values of their UUIDs; `created_at` is in microseconds since the epoch.
#[derive(Debug, Clone)]
pub struct AuditSyncEntry {
    pub id: u128,
    pub agent_id: u128,
    pub organization_id: Option<u128>,
    pub user_id: Option<u128>,
    pub command_type: String,
    pub result: String,
    pub error: Option<String>,
    pub previous_hash: String,
    pub entry_hash: String,
    pub created_at: i64,
}

/// Inserts `x` after every entry not created later than it.
pub open spec fn insert_by_time(s: Seq<AuditSyncEntry>, x: AuditSyncEntry) -> Seq<AuditSyncEntry>
    decreases s.len(),
{
    if s.len() == 0 {
        seq![x]
    } else if s.last().created_at <= x.created_at {
        s.push(x)
    } else {
        insert_by_time(s.drop_last(), x).push(s.last())
    }
}

/// The entries in creation order; entries created at the same time keep
/// their order (a stable sort).
pub open spec fn chronological(s: Seq<AuditSyncEntry>) -> Seq<AuditSyncEntry>
    decreases s.len(),
{
    if s.len() == 0 {
        Seq::empty()
    } else {
        insert_by_time(chronological(s.drop_last()), s.last())
    }
}

/// The entries of agent `agent`, in order.
pub open spec fn of_agent(s: Seq<AuditSyncEntry>, agent: u128) -> Seq<AuditSyncEntry>
    decreases s.len(),
{
    if s.len() == 0 {
        Seq::empty()
    } else if s.last().agent_id == agent {
        of_agent(s.drop_last(), agent).push(s.last())
    } else {
        of_agent(s.drop_last(), agent)
    }
}

/// The first entry of `s` whose `previous_hash` is not the hash expected
/// there: `expected` for the first entry, then each entry's own hash for
/// the next.
pub open spec fn chain_break(expected: Seq<char>, s: Seq<AuditSyncEntry>) -> Option<u128>
    decreases s.len(),
{
    if s.len() == 0 {
        None
    } else if s[0].previous_hash@ != expected {
        Some(s[0].id)
    } else {
        chain_break(s[0].entry_hash@, s.drop_first())
    }
}

/// What checking a batch yields: the agent's entries in creation order when
/// their chain continues from `tip` unbroken, else the id of the first
/// entry that breaks it.
pub open spec fn audit_batch_spec(tip: Seq<char>, entries: Seq<AuditSyncEntry>, agent: u128) -> Result<Seq<AuditSyncEntry>, u128> {
    let accepted = of_agent(chronological(entries), agent);
    match chain_break(tip, accepted) {
        Some(id) => Err(id),
        None => Ok(accepted),
    }
}

/// Orders a batch by creation time, keeps the entries of agent `agent`, and
/// checks their hash chain against `tip`, the hash of the agent's latest
/// stored entry (empty when there is none).
pub fn check_audit_batch(tip: &str, entries: Vec<AuditSyncEntry>, agent: u128) -> (r: Result<Vec<AuditSyncEntry>, u128>)
    ensures
        match r {
            Ok(v) => audit_batch_spec(tip@, entries@, agent) == Ok::<Seq<AuditSyncEntry>, u128>(v@),
            Err(id) => audit_batch_spec(tip@, entries@, agent) == Err::<Seq<AuditSyncEntry>, u128>(id),
        },
{
    let ghost e0 = entries@;
    // Take the entries from the front.
    let mut rest = entries;
    let mut rev: Vec<AuditSyncEntry> = Vec::new();
    while rest.len() > 0
        invariant
            rest@ + rev@.reverse() == e0,
        decreases rest@.len(),
    {
        let ghost r0 = rest@;
        let ghost v0 = rev@;
        let x = rest.pop().unwrap();
        rev.push(x);
        proof {
            assert(r0 == rest@.push(x));
            assert(rev@.reverse() =~= seq![x] + v0.reverse());
            assert(rest@ + rev@.reverse() =~= r0 + v0.reverse());
        }
    }
    assert(rev@.reverse() =~= e0);
    // Stable insertion sort by creation time.
    let n = rev.len();
    let mut sorted: Vec<AuditSyncEntry> = Vec::new();
    let mut i: usize = 0;
    assert(e0.take(0) =~= Seq::<AuditSyncEntry>::empty());
    while rev.len() > 0
        invariant
            n == e0.len(),
            i + rev@.len() == n,
            rev@.reverse() =~= e0.skip(i as int),
            sorted@ == chronological(e0.take(i as int)),
        decreases rev@.len(),
    {
        let ghost before = rev@;
        let x = rev.pop().unwrap();
        proof {
            assert(before == rev@.push(x));
            assert(before.reverse()[0] == x);
            assert(e0[i as int] == x);
            assert(e0.take(i + 1).drop_last() =~= e0.take(i as int));
            assert(e0.take(i + 1).last() == x);
            assert(rev@.reverse() =~= before.reverse().skip(1));
        }
        let ghost s = sorted@;
        let mut j: usize = sorted.len();
        assert(s.take(j as int) =~= s);
        assert(s.skip(j as int) =~= Seq::<AuditSyncEntry>::empty());
        assert(insert_by_time(s, x) + Seq::<AuditSyncEntry>::empty() =~= insert_by_time(s, x));
        while j > 0 && sorted[j - 1].created_at > x.created_at
            invariant
                j <= sorted@.len(),
                sorted@ == s,
                insert_by_time(s, x) == insert_by_time(s.take(j as int), x) + s.skip(j as int),
            decreases j,
        {
            proof {
                let t = s.take(j as int);
                assert(t.last() == s[j - 1]);
                assert(t.drop_last() =~= s.take(j - 1));
                assert(seq![s[j - 1]] + s.skip(j as int) =~= s.skip(j - 1));
                assert(insert_by_time(t, x) == insert_by_time(s.take(j - 1), x).push(s[j - 1]));
                assert(insert_by_time(s.take(j - 1), x).push(s[j - 1]) + s.skip(j as int)
                    =~= insert_by_time(s.take(j - 1), x) + s.skip(j - 1));
            }
            j = j - 1;
        }
        proof {
            let t = s.take(j as int);
            if j > 0 {
                assert(t.last() == s[j - 1]);
                assert(insert_by_time(t, x) == t.push(x));
            } else {
                assert(t =~= Seq::<AuditSyncEntry>::empty());
            }
        }
        sorted.insert(j, x);
        assert(sorted@ =~= insert_by_time(s, x));
        i = i + 1;
    }
    assert(e0.take(n as int) =~= e0);
    // Keep the agent's entries, checking the chain as they come.
    let ghost c = sorted@;
    let mut accepted: Vec<AuditSyncEntry> = Vec::new();
    let mut expected = tip.to_string();
    let mut rest2 = sorted;
    let mut rev2: Vec<AuditSyncEntry> = Vec::new();
    while rest2.len() > 0
        invariant
            rest2@ + rev2@.reverse() == c,
        decreases rest2@.len(),
    {
        let ghost r0 = rest2@;
        let ghost v0 = rev2@;
        let x = rest2.pop().unwrap();
        rev2.push(x);
        proof {
            assert(r0 == rest2@.push(x));
            assert(rev2@.reverse() =~= seq![x] + v0.reverse());
            assert(rest2@ + rev2@.reverse() =~= r0 + v0.reverse());
        }
    }
    assert(rev2@.reverse() =~= c);
    let m = rev2.len();
    let mut k: usize = 0;
    let ghost a_all = of_agent(c, agent);
    assert(c == chronological(e0));
    assert(c.take(0) =~= Seq::<AuditSyncEntry>::empty());
    assert(a_all.skip(0) =~= a_all);
    while rev2.len() > 0
        invariant
            m == c.len(),
            k + rev2@.len() == m,
            rev2@.reverse() =~= c.skip(k as int),
            a_all == of_agent(c, agent),
            c == chronological(e0),
            e0 == entries@,
            accepted@ == of_agent(c.take(k as int), agent),
            chain_break(tip@, a_all) == chain_break(expected@, a_all.skip(accepted@.len() as int)),
        decreases rev2@.len(),
    {
        let ghost before = rev2@;
        let x = rev2.pop().unwrap();
        proof {
            assert(before == rev2@.push(x));
            assert(before.reverse()[0] == x);
            assert(c[k as int] == x);
            assert(c.take(k + 1).drop_last() =~= c.take(k as int));
            assert(c.take(k + 1).last() == x);
            assert(rev2@.reverse() =~= before.reverse().skip(1));
            lemma_of_agent_prefix(c, agent, k + 1);
        }
        if x.agent_id == agent {
            let ghost a = accepted@.len() as int;
            proof {
                assert(of_agent(c.take(k + 1), agent) == accepted@.push(x));
                assert(a_all.take(a + 1) == accepted@.push(x));
                assert(a_all.take(a + 1)[a] == x);
                assert(a_all[a] == x);
                assert(a_all.skip(a)[0] == x);
                assert(a_all.skip(a).drop_first() =~= a_all.skip(a + 1));
            }
            if !crate::text::str_eq(x.previous_hash.as_str(), expected.as_str()) {
                return Err(x.id);
            }
            expected = x.entry_hash.clone();
            accepted.push(x);
        }
        k = k + 1;
    }
    proof {
        assert(c.take(m as int) =~= c);
        assert(a_all.skip(a_all.len() as int) =~= Seq::<AuditSyncEntry>::empty());
    }
    Ok(accepted)
}

/// The agent's entries among the first `k` are a prefix of its entries
/// among all.
proof fn lemma_of_agent_prefix(c: Seq<AuditSyncEntry>, agent: u128, k: int)
    requires
        0 <= k <= c.len(),
    ensures
        of_agent(c.take(k), agent).len() <= of_agent(c, agent).len(),
        of_agent(c, agent).take(of_agent(c.take(k), agent).len() as int) == of_agent(c.take(k), agent),
    decreases c.len(),
{
    if k == c.len() {
        assert(c.take(k) =~= c);
        assert(of_agent(c, agent).take(of_agent(c, agent).len() as int) =~= of_agent(c, agent));
    } else {
        let d = c.drop_last();
        assert(d.take(k) =~= c.take(k));
        lemma_of_agent_prefix(d, agent, k);
        let p = of_agent(c.take(k), agent);
        if c.last().agent_id == agent {
            assert(of_agent(d, agent).push(c.last()).take(p.len() as int) =~= of_agent(d, agent).take(p.len() as int));
        }
    }
}

/// An accepted batch is linked: its first entry names `tip` as the hash
/// before it, and every later entry names the hash of the entry before it.
pub proof fn accepted_batch_is_linked(tip: Seq<char>, s: Seq<AuditSyncEntry>)
    requires
        chain_break(tip, s) is None,
    ensures
        s.len() > 0 ==> s[0].previous_hash@ == tip,
        forall|i: int| 0 <= i < s.len() - 1 ==> (#[trigger] s[i + 1]).previous_hash@ == s[i].entry_hash@,
    decreases s.len(),
{
    if s.len() > 0 {
        let t = s.drop_first();
        accepted_batch_is_linked(s[0].entry_hash@, t);
        assert forall|i: int| 0 <= i < s.len() - 1 implies (#[trigger] s[i + 1]).previous_hash@ == s[i].entry_hash@ by {
            if i > 0 {
                assert(t[i] == s[i + 1] && t[i - 1] == s[i]);
            } else {
                assert(t[0] == s[1]);
            }
        }
    }
}

proof fn lemma_insert_by_time(s: Seq<AuditSyncEntry>, x: AuditSyncEntry)
    requires
        forall|i: int, j: int| 0 <= i < j < s.len() ==> s[i].created_at <= s[j].created_at,
    ensures
        ({
            let t = insert_by_time(s, x);
            &&& t.len() == s.len() + 1
            &&& forall|i: int, j: int| 0 <= i < j < t.len() ==> t[i].created_at <= t[j].created_at
            &&& t.to_multiset() =~= s.to_multiset().insert(x)
        }),
    decreases s.len(),
{
    broadcast use vstd::multiset::group_multiset_axioms;
    broadcast use vstd::seq_lib::group_to_multiset_ensures;
    broadcast use vstd::seq_lib::group_seq_properties;
    if s.len() == 0 {
        assert(s =~= Seq::<AuditSyncEntry>::empty());
        assert(seq![x] =~= s.push(x));
    } else if s.last().created_at <= x.created_at {
    } else {
        let d = s.drop_last();
        assert forall|i: int, j: int| 0 <= i < j < d.len() implies d[i].created_at <= d[j].created_at by {
            assert(d[i] == s[i] && d[j] == s[j]);
        }
        lemma_insert_by_time(d, x);
        let u = insert_by_time(d, x);
        assert forall|i: int| 0 <= i < u.len() implies u[i].created_at <= s.last().created_at by {
            assert(u.contains(u[i]));
            assert(u.to_multiset().count(u[i]) > 0);
            if u[i] != x {
                assert(d.to_multiset().count(u[i]) > 0);
                assert(d.contains(u[i]));
                let k = choose|k: int| 0 <= k < d.len() && d[k] == u[i];
                assert(s[k] == d[k]);
            }
        }
        assert(s =~= d.push(s.last()));
    }
}

/// The creation order is sorted by creation time and holds exactly the
/// entries of the batch.
pub proof fn chronological_is_sorted(s: Seq<AuditSyncEntry>)
    ensures
        chronological(s).len() == s.len(),
        forall|i: int, j: int| 0 <= i < j < s.len() ==> chronological(s)[i].created_at <= chronological(s)[j].created_at,
        chronological(s).to_multiset() =~= s.to_multiset(),
    decreases s.len(),
{
    broadcast use vstd::multiset::group_multiset_axioms;
    broadcast use vstd::seq_lib::group_to_multiset_ensures;
    if s.len() > 0 {
        let d = s.drop_last();
        chronological_is_sorted(d);
        lemma_insert_by_time(chronological(d), s.last());
        assert(s =~= d.push(s.last()));
    } else {
        assert(s =~= Seq::<AuditSyncEntry>::empty());
        assert(chronological(s) =~= s);
    }
}

} // verus!
