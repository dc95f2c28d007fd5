//! Statistics over a ledger, computed on demand.
use vstd::prelude::*;
use crate::ledger::BackupInfo;
use crate::order::{lemma_text_le_total, lemma_text_le_trans, text_at_or_before, text_le};

verus! {

/// Count, total size and time range of a ledger's records.
#[derive(Debug)]
pub struct BackupStats {
    pub total_backups: u32,
    pub total_size_bytes: u64,
    pub oldest_backup: Option<String>,
    pub newest_backup: Option<String>,
}

/// The sum of the sizes of the records of `s`.
pub open spec fn size_sum(s: Seq<BackupInfo>) -> int
    decreases s.len(),
{
    if s.len() == 0 {
        0
    } else {
        size_sum(s.drop_last()) + s.last().size_bytes
    }
}

/// `x`, or `cap` where `x` exceeds it.
pub open spec fn capped(x: int, cap: int) -> int {
    if x > cap {
        cap
    } else {
        x
    }
}

/// Is `t` the earliest creation time in `s`?
pub open spec fn is_earliest(t: Seq<char>, s: Seq<BackupInfo>) -> bool {
    &&& exists|i: int| 0 <= i < s.len() && (#[trigger] s[i]).created_at@ == t
    &&& forall|i: int| 0 <= i < s.len() ==> text_le(t, (#[trigger] s[i]).created_at@)
}

/// Is `t` the latest creation time in `s`?
pub open spec fn is_latest(t: Seq<char>, s: Seq<BackupInfo>) -> bool {
    &&& exists|i: int| 0 <= i < s.len() && (#[trigger] s[i]).created_at@ == t
    &&& forall|i: int| 0 <= i < s.len() ==> text_le((#[trigger] s[i]).created_at@, t)
}

proof fn lemma_size_sum_nonneg(s: Seq<BackupInfo>)
    ensures
        size_sum(s) >= 0,
    decreases s.len(),
{
    if s.len() > 0 {
        lemma_size_sum_nonneg(s.drop_last());
    }
}

/// The statistics of a ledger: its number of records and the sum of their
/// sizes (each held at its type's maximum where it would exceed it), and the
/// earliest and latest creation times in text order, absent for an empty ledger.
pub fn backup_stats(ledger: &Vec<BackupInfo>) -> (r: BackupStats)
    ensures
        r.total_backups as int == capped(ledger@.len() as int, u32::MAX as int),
        r.total_size_bytes as int == capped(size_sum(ledger@), u64::MAX as int),
        r.oldest_backup is None <==> ledger@.len() == 0,
        r.newest_backup is None <==> ledger@.len() == 0,
        r.oldest_backup matches Some(t) ==> is_earliest(t@, ledger@),
        r.newest_backup matches Some(t) ==> is_latest(t@, ledger@),
{
    let mut total: u64 = 0;
    let mut oldest: usize = 0;
    let mut newest: usize = 0;
    let mut i: usize = 0;
    while i < ledger.len()
        invariant
            i <= ledger.len(),
            total as int == capped(size_sum(ledger@.take(i as int)), u64::MAX as int),
            i > 0 ==> oldest < i && newest < i,
            forall|j: int|
                0 <= j < i ==> text_le(
                    ledger@[oldest as int].created_at@,
                    (#[trigger] ledger@[j]).created_at@,
                ),
            forall|j: int|
                0 <= j < i ==> text_le(
                    (#[trigger] ledger@[j]).created_at@,
                    ledger@[newest as int].created_at@,
                ),
        decreases ledger.len() - i,
    {
        let b = &ledger[i];
        assert(ledger@.take(i + 1).drop_last() =~= ledger@.take(i as int));
        proof {
            lemma_size_sum_nonneg(ledger@.take(i as int));
        }
        if total > u64::MAX - b.size_bytes {
            total = u64::MAX;
        } else {
            total = total + b.size_bytes;
        }
        if i == 0 {
            oldest = 0;
            newest = 0;
        } else {
            if !text_at_or_before(ledger[oldest].created_at.as_str(), b.created_at.as_str()) {
                proof {
                    lemma_text_le_total(ledger@[oldest as int].created_at@, b.created_at@);
                    assert forall|j: int| 0 <= j < i implies text_le(
                        b.created_at@,
                        (#[trigger] ledger@[j]).created_at@,
                    ) by {
                        lemma_text_le_trans(
                            b.created_at@,
                            ledger@[oldest as int].created_at@,
                            ledger@[j].created_at@,
                        );
                    }
                }
                oldest = i;
            }
            if !text_at_or_before(b.created_at.as_str(), ledger[newest].created_at.as_str()) {
                proof {
                    lemma_text_le_total(ledger@[newest as int].created_at@, b.created_at@);
                    assert forall|j: int| 0 <= j < i implies text_le(
                        (#[trigger] ledger@[j]).created_at@,
                        b.created_at@,
                    ) by {
                        lemma_text_le_trans(
                            ledger@[j].created_at@,
                            ledger@[newest as int].created_at@,
                            b.created_at@,
                        );
                    }
                }
                newest = i;
            }
        }
        proof {
            lemma_text_le_total(b.created_at@, b.created_at@);
        }
        i = i + 1;
    }
    assert(ledger@.take(ledger.len() as int) =~= ledger@);
    let count: u32 = if ledger.len() > u32::MAX as usize {
        u32::MAX
    } else {
        ledger.len() as u32
    };
    if ledger.len() == 0 {
        BackupStats {
            total_backups: count,
            total_size_bytes: total,
            oldest_backup: None,
            newest_backup: None,
        }
    } else {
        BackupStats {
            total_backups: count,
            total_size_bytes: total,
            oldest_backup: Some(ledger[oldest].created_at.clone()),
            newest_backup: Some(ledger[newest].created_at.clone()),
        }
    }
}

} // verus!
