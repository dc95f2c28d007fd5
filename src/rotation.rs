//! The rotation policy: order the ledger by creation time, oldest first and
//! stable among equal times, then evict from the oldest end.
use vstd::prelude::*;
use crate::ledger::BackupInfo;
use crate::order::{lemma_text_le_total, lemma_text_le_trans, text_at_or_before, text_le};

verus! {

/// `s` with `b` placed after every record no newer than it. On a
/// time-ordered `s` this keeps the order, and records of equal time keep
/// their order of insertion.
pub open spec fn insert_by_time(s: Seq<BackupInfo>, b: BackupInfo) -> Seq<BackupInfo>
    decreases s.len(),
{
    if s.len() == 0 {
        seq![b]
    } else if text_le(s.last().created_at@, b.created_at@) {
        s.push(b)
    } else {
        insert_by_time(s.drop_last(), b).push(s.last())
    }
}

/// `s` stably sorted by creation time, oldest first.
pub open spec fn sorted_by_time(s: Seq<BackupInfo>) -> Seq<BackupInfo>
    decreases s.len(),
{
    if s.len() == 0 {
        s
    } else {
        insert_by_time(sorted_by_time(s.drop_last()), s.last())
    }
}

/// Are the records of `s` in creation order?
pub open spec fn time_ordered(s: Seq<BackupInfo>) -> bool {
    forall|i: int, j: int|
        #![trigger s[i], s[j]]
        0 <= i < j < s.len() ==> text_le(s[i].created_at@, s[j].created_at@)
}

/// Do the records of `s` have pairwise different creation times?
pub open spec fn distinct_times(s: Seq<BackupInfo>) -> bool {
    forall|i: int, j: int|
        #![trigger s[i], s[j]]
        0 <= i < j < s.len() ==> s[i].created_at@ != s[j].created_at@
}

/// Does `a` come strictly before `b` in text order?
pub open spec fn text_lt(a: Seq<char>, b: Seq<char>) -> bool {
    text_le(a, b) && a != b
}

/// How many of `n` records rotation to at most `max` records evicts.
pub open spec fn evict_count(n: nat, max: nat) -> nat {
    if n > max {
        (n - max) as nat
    } else {
        0
    }
}

proof fn lemma_insert_elems(t: Seq<BackupInfo>, b: BackupInfo)
    ensures
        insert_by_time(t, b).len() == t.len() + 1,
        forall|x: BackupInfo| #[trigger]
            insert_by_time(t, b).contains(x) <==> (t.contains(x) || x == b),
    decreases t.len(),
{
    if t.len() > 0 && !text_le(t.last().created_at@, b.created_at@) {
        lemma_insert_elems(t.drop_last(), b);
        assert(t =~= t.drop_last().push(t.last()));
        let u = insert_by_time(t.drop_last(), b);
        assert forall|x: BackupInfo| #[trigger]
            insert_by_time(t, b).contains(x) <==> (t.contains(x) || x == b) by {
            if u.push(t.last()).contains(x) {
                let i = choose|i: int| 0 <= i < u.len() + 1 && u.push(t.last())[i] == x;
                if i < u.len() {
                    assert(u.contains(x));
                }
            }
            if t.contains(x) {
                let i = choose|i: int| 0 <= i < t.len() && t[i] == x;
                if i < t.len() - 1 {
                    assert(t.drop_last()[i] == x);
                    assert(u.contains(x));
                    let k = choose|k: int| 0 <= k < u.len() && u[k] == x;
                    assert(u.push(t.last())[k] == x);
                } else {
                    assert(u.push(t.last())[u.len() as int] == x);
                }
            }
            if x == b {
                assert(u.contains(x));
                let k = choose|k: int| 0 <= k < u.len() && u[k] == x;
                assert(u.push(t.last())[k] == x);
            }
        }
    } else if t.len() > 0 {
        assert forall|x: BackupInfo| #[trigger]
            insert_by_time(t, b).contains(x) <==> (t.contains(x) || x == b) by {
            if t.push(b).contains(x) {
                let i = choose|i: int| 0 <= i < t.len() + 1 && t.push(b)[i] == x;
                if i < t.len() {
                    assert(t[i] == x);
                }
            }
            if t.contains(x) {
                let i = choose|i: int| 0 <= i < t.len() && t[i] == x;
                assert(t.push(b)[i] == x);
            }
            if x == b {
                assert(t.push(b)[t.len() as int] == x);
            }
        }
    } else {
        assert forall|x: BackupInfo| #[trigger]
            insert_by_time(t, b).contains(x) <==> (t.contains(x) || x == b) by {
            if x == b {
                assert(seq![b][0] == x);
            }
        }
    }
}

proof fn lemma_insert_ordered(t: Seq<BackupInfo>, b: BackupInfo)
    requires
        time_ordered(t),
    ensures
        time_ordered(insert_by_time(t, b)),
    decreases t.len(),
{
    if t.len() == 0 {
    } else if text_le(t.last().created_at@, b.created_at@) {
        let r = t.push(b);
        assert forall|i: int, j: int| 0 <= i < j < r.len() implies text_le(
            r[i].created_at@,
            r[j].created_at@,
        ) by {
            if j == t.len() {
                if i < t.len() - 1 {
                    assert(text_le(t[i].created_at@, t[t.len() - 1].created_at@));
                    lemma_text_le_trans(
                        t[i].created_at@,
                        t[t.len() - 1].created_at@,
                        b.created_at@,
                    );
                }
            } else {
                assert(r[i] == t[i] && r[j] == t[j]);
            }
        }
    } else {
        let t0 = t.drop_last();
        let last = t.last();
        assert(time_ordered(t0)) by {
            assert forall|i: int, j: int| 0 <= i < j < t0.len() implies text_le(
                t0[i].created_at@,
                t0[j].created_at@,
            ) by {
                assert(t0[i] == t[i] && t0[j] == t[j]);
            }
        }
        lemma_insert_ordered(t0, b);
        lemma_insert_elems(t0, b);
        let u = insert_by_time(t0, b);
        let r = u.push(last);
        lemma_text_le_total(last.created_at@, b.created_at@);
        assert forall|i: int, j: int| 0 <= i < j < r.len() implies text_le(
            r[i].created_at@,
            r[j].created_at@,
        ) by {
            if j == u.len() {
                assert(u.contains(u[i]));
                if u[i] != b {
                    assert(t0.contains(u[i]));
                    let k = choose|k: int| 0 <= k < t0.len() && t0[k] == u[i];
                    assert(t[k] == t0[k]);
                    assert(text_le(t[k].created_at@, t[t.len() - 1].created_at@));
                }
            } else {
                assert(r[i] == u[i] && r[j] == u[j]);
            }
        }
    }
}

proof fn lemma_insert_distinct(t: Seq<BackupInfo>, b: BackupInfo)
    requires
        distinct_times(t),
        forall|k: int| 0 <= k < t.len() ==> (#[trigger] t[k]).created_at@ != b.created_at@,
    ensures
        distinct_times(insert_by_time(t, b)),
    decreases t.len(),
{
    if t.len() == 0 {
    } else if text_le(t.last().created_at@, b.created_at@) {
        let r = t.push(b);
        assert forall|i: int, j: int| 0 <= i < j < r.len() implies r[i].created_at@
            != r[j].created_at@ by {
            if j == t.len() {
                assert(r[i] == t[i]);
            } else {
                assert(r[i] == t[i] && r[j] == t[j]);
            }
        }
    } else {
        let t0 = t.drop_last();
        let last = t.last();
        assert forall|k: int| 0 <= k < t0.len() implies (#[trigger] t0[k]).created_at@
            != b.created_at@ by {
            assert(t0[k] == t[k]);
        }
        assert(distinct_times(t0)) by {
            assert forall|i: int, j: int| 0 <= i < j < t0.len() implies t0[i].created_at@
                != t0[j].created_at@ by {
                assert(t0[i] == t[i] && t0[j] == t[j]);
            }
        }
        lemma_insert_distinct(t0, b);
        lemma_insert_elems(t0, b);
        let u = insert_by_time(t0, b);
        let r = u.push(last);
        assert forall|i: int, j: int| 0 <= i < j < r.len() implies r[i].created_at@
            != r[j].created_at@ by {
            if j == u.len() {
                assert(u.contains(u[i]));
                if u[i] != b {
                    assert(t0.contains(u[i]));
                    let k = choose|k: int| 0 <= k < t0.len() && t0[k] == u[i];
                    assert(t[k] == t0[k]);
                    assert(t[k].created_at@ != t[t.len() - 1].created_at@);
                } else {
                    assert(t[t.len() - 1].created_at@ != b.created_at@);
                }
            } else {
                assert(r[i] == u[i] && r[j] == u[j]);
            }
        }
    }
}

/// Sorting keeps the records, in creation order; pairwise different times
/// stay pairwise different.
pub proof fn lemma_sorted_by_time(s: Seq<BackupInfo>)
    ensures
        sorted_by_time(s).len() == s.len(),
        forall|x: BackupInfo| #[trigger] sorted_by_time(s).contains(x) <==> s.contains(x),
        time_ordered(sorted_by_time(s)),
        distinct_times(s) ==> distinct_times(sorted_by_time(s)),
    decreases s.len(),
{
    if s.len() > 0 {
        let s0 = s.drop_last();
        lemma_sorted_by_time(s0);
        lemma_insert_elems(sorted_by_time(s0), s.last());
        lemma_insert_ordered(sorted_by_time(s0), s.last());
        assert(s =~= s0.push(s.last()));
        assert forall|x: BackupInfo| #[trigger] sorted_by_time(s).contains(x) <==> s.contains(x) by {
            if s.contains(x) {
                let i = choose|i: int| 0 <= i < s.len() && s[i] == x;
                if i < s.len() - 1 {
                    assert(s0[i] == x);
                }
            }
            if s0.contains(x) {
                let i = choose|i: int| 0 <= i < s0.len() && s0[i] == x;
                assert(s[i] == x);
            }
        }
        if distinct_times(s) {
            let t = sorted_by_time(s0);
            assert(distinct_times(s0)) by {
                assert forall|i: int, j: int| 0 <= i < j < s0.len() implies s0[i].created_at@
                    != s0[j].created_at@ by {
                    assert(s0[i] == s[i] && s0[j] == s[j]);
                }
            }
            assert forall|k: int| 0 <= k < t.len() implies (#[trigger] t[k]).created_at@
                != s.last().created_at@ by {
                assert(t.contains(t[k]));
                let i = choose|i: int| 0 <= i < s0.len() && s0[i] == t[k];
                assert(s[i] == s0[i]);
            }
            lemma_insert_distinct(t, s.last());
        }
    }
}

/// The records of `s` created at time `t`, in their order in `s`.
pub open spec fn at_time(s: Seq<BackupInfo>, t: Seq<char>) -> Seq<BackupInfo>
    decreases s.len(),
{
    if s.len() == 0 {
        Seq::empty()
    } else if s.last().created_at@ == t {
        at_time(s.drop_last(), t).push(s.last())
    } else {
        at_time(s.drop_last(), t)
    }
}

proof fn lemma_insert_multiset(u: Seq<BackupInfo>, b: BackupInfo)
    ensures
        insert_by_time(u, b).to_multiset() == u.to_multiset().insert(b),
    decreases u.len(),
{
    broadcast use vstd::seq_lib::group_to_multiset_ensures;

    if u.len() == 0 {
        assert(seq![b] =~= Seq::<BackupInfo>::empty().push(b));
    } else if !text_le(u.last().created_at@, b.created_at@) {
        let u0 = u.drop_last();
        lemma_insert_multiset(u0, b);
        assert(u =~= u0.push(u.last()));
        assert(insert_by_time(u, b).to_multiset() =~= u.to_multiset().insert(b));
    }
}

proof fn lemma_insert_at_time(u: Seq<BackupInfo>, b: BackupInfo, t: Seq<char>)
    ensures
        at_time(insert_by_time(u, b), t) == if b.created_at@ == t {
            at_time(u, t).push(b)
        } else {
            at_time(u, t)
        },
    decreases u.len(),
{
    if u.len() == 0 {
        assert(seq![b].drop_last() =~= Seq::<BackupInfo>::empty());
        assert(seq![b].last() == b);
        assert(Seq::<BackupInfo>::empty().push(b) =~= seq![b]);
        assert(insert_by_time(u, b) == seq![b]);
        assert(at_time(u, t) == Seq::<BackupInfo>::empty());
        assert(at_time(seq![b], t) == if b.created_at@ == t {
            at_time(Seq::<BackupInfo>::empty(), t).push(b)
        } else {
            at_time(Seq::<BackupInfo>::empty(), t)
        });
    } else if text_le(u.last().created_at@, b.created_at@) {
        assert(u.push(b).drop_last() =~= u);
        assert(u.push(b).last() == b);
        assert(insert_by_time(u, b) == u.push(b));
        if b.created_at@ == t {
            assert(at_time(u.push(b), t) == at_time(u, t).push(b));
        } else {
            assert(at_time(u.push(b), t) == at_time(u, t));
        }
    } else {
        let u0 = u.drop_last();
        let last = u.last();
        lemma_insert_at_time(u0, b, t);
        let v = insert_by_time(u0, b);
        assert(v.push(last).drop_last() =~= v);
        assert(v.push(last).last() == last);
        lemma_text_le_total(b.created_at@, b.created_at@);
        assert(last.created_at@ != b.created_at@);
        if last.created_at@ == t {
            assert(at_time(u, t) == at_time(u0, t).push(last));
            assert(at_time(v.push(last), t) == at_time(v, t).push(last));
        } else {
            assert(at_time(u, t) == at_time(u0, t));
            assert(at_time(v.push(last), t) == at_time(v, t));
        }
        assert(insert_by_time(u, b) == v.push(last));
    }
}

/// Sorting by creation time keeps exactly the records of `s`, each as often.
pub proof fn lemma_sorted_by_time_permutes(s: Seq<BackupInfo>)
    ensures
        sorted_by_time(s).to_multiset() == s.to_multiset(),
    decreases s.len(),
{
    broadcast use vstd::seq_lib::group_to_multiset_ensures;

    if s.len() > 0 {
        let s0 = s.drop_last();
        lemma_sorted_by_time_permutes(s0);
        lemma_insert_multiset(sorted_by_time(s0), s.last());
        assert(s =~= s0.push(s.last()));
    }
}

/// Sorting by creation time is stable: the records of any one time keep
/// their order.
pub proof fn lemma_sorted_by_time_stable(s: Seq<BackupInfo>, t: Seq<char>)
    ensures
        at_time(sorted_by_time(s), t) == at_time(s, t),
    decreases s.len(),
{
    if s.len() > 0 {
        let s0 = s.drop_last();
        lemma_sorted_by_time_stable(s0, t);
        lemma_insert_at_time(sorted_by_time(s0), s.last(), t);
    }
}

/// Rotation to at most `k` records, on a ledger of `m > k` records with
/// pairwise different creation times, keeps exactly `k` records, evicts
/// exactly `m - k`, and every kept record is strictly newer than every
/// evicted one.
pub proof fn lemma_rotation_keeps_newest(s: Seq<BackupInfo>, k: nat)
    requires
        s.len() > k,
        distinct_times(s),
    ensures
        ({
            let sorted = sorted_by_time(s);
            let cut = evict_count(s.len(), k) as int;
            &&& sorted.skip(cut).len() == k
            &&& sorted.take(cut).len() == s.len() - k
            &&& forall|i: int, j: int|
                0 <= i < cut && 0 <= j < k ==> text_lt(
                    (#[trigger] sorted.take(cut)[i]).created_at@,
                    (#[trigger] sorted.skip(cut)[j]).created_at@,
                )
        }),
{
    lemma_sorted_by_time(s);
    let sorted = sorted_by_time(s);
    let cut = evict_count(s.len(), k) as int;
    assert forall|i: int, j: int| 0 <= i < cut && 0 <= j < k implies text_lt(
        (#[trigger] sorted.take(cut)[i]).created_at@,
        (#[trigger] sorted.skip(cut)[j]).created_at@,
    ) by {
        assert(sorted.take(cut)[i] == sorted[i]);
        assert(sorted.skip(cut)[j] == sorted[cut + j]);
        assert(text_le(sorted[i].created_at@, sorted[cut + j].created_at@));
        assert(sorted[i].created_at@ != sorted[cut + j].created_at@);
    }
}

/// Place `b` into the time-ordered `r` as `insert_by_time` does.
fn insert_in_time_order(r: &mut Vec<BackupInfo>, b: BackupInfo)
    ensures
        final(r)@ == insert_by_time(old(r)@, b),
{
    let mut j: usize = r.len();
    let ghost s = r@;
    assert(s.take(s.len() as int) =~= s);
    assert(s.skip(s.len() as int) =~= Seq::<BackupInfo>::empty());
    while j > 0 && !text_at_or_before(r[j - 1].created_at.as_str(), b.created_at.as_str())
        invariant
            j <= r.len(),
            r@ == s,
            insert_by_time(s, b) == insert_by_time(s.take(j as int), b) + s.skip(j as int),
        decreases j,
    {
        let ghost t = s.take(j as int);
        assert(t.drop_last() =~= s.take(j - 1));
        assert(t.last() == s[j - 1]);
        assert(s.skip(j - 1) =~= seq![s[j - 1]] + s.skip(j as int));
        assert(insert_by_time(s.take(j - 1), b).push(s[j - 1]) + s.skip(j as int)
            =~= insert_by_time(s.take(j - 1), b) + s.skip(j - 1));
        j = j - 1;
    }
    proof {
        if j == 0 {
            assert(s.take(0) =~= Seq::<BackupInfo>::empty());
            assert(seq![b] + s.skip(0) =~= s.insert(0, b));
        } else {
            assert(s.take(j as int).last() == s[j - 1]);
            assert(s.take(j as int).push(b) + s.skip(j as int) =~= s.insert(j as int, b));
        }
    }
    r.insert(j, b);
}

/// Order the ledger by creation time, oldest first and stable among equal
/// times, then evict from the oldest end until at most `max_backups` records
/// remain. Returns the evicted records, oldest first, so that their archive
/// files can be removed; the ledger keeps the rest, in creation order.
pub fn rotate_backups(ledger: &mut Vec<BackupInfo>, max_backups: u32) -> (evicted: Vec<BackupInfo>)
    ensures
        ({
            let sorted = sorted_by_time(old(ledger)@);
            let cut = evict_count(old(ledger)@.len(), max_backups as nat) as int;
            &&& evicted@ == sorted.take(cut)
            &&& final(ledger)@ == sorted.skip(cut)
        }),
{
    let ghost s = ledger@;
    assert(s.len() == ledger.len());
    let mut sorted: Vec<BackupInfo> = Vec::new();
    let mut i: usize = 0;
    assert(s.skip(0) =~= s);
    while ledger.len() > 0
        invariant
            i <= s.len(),
            s.len() <= usize::MAX,
            ledger@ == s.skip(i as int),
            sorted@ == sorted_by_time(s.take(i as int)),
        decreases ledger.len(),
    {
        let b = ledger.remove(0);
        assert(s.take(i + 1).drop_last() =~= s.take(i as int));
        assert(s.take(i + 1).last() == b);
        insert_in_time_order(&mut sorted, b);
        i = i + 1;
        assert(ledger@ =~= s.skip(i as int));
    }
    assert(s.take(s.len() as int) =~= s);
    let ghost all = sorted@;
    proof {
        lemma_sorted_by_time(s);
    }
    let mut evicted: Vec<BackupInfo> = Vec::new();
    let mut n: usize = 0;
    while sorted.len() > max_backups as usize
        invariant
            all.len() == s.len(),
            s.len() <= usize::MAX,
            n <= evict_count(all.len(), max_backups as nat),
            evicted@ == all.take(n as int),
            sorted@ == all.skip(n as int),
        decreases sorted.len(),
    {
        let b = sorted.remove(0);
        evicted.push(b);
        n = n + 1;
        assert(evicted@ =~= all.take(n as int));
        assert(sorted@ =~= all.skip(n as int));
    }
    assert(n as int == evict_count(s.len(), max_backups as nat));
    *ledger = sorted;
    evicted
}

} // verus!
