//! The transaction log: append-only persistence of completed transfers,
//! queryable by account.
//!
//! Entries are held in commit order. Each entry's commit time is clamped to
//! be no earlier than its predecessor's (a monotonic commit clock), so append
//! order and creation-time order agree and queries can answer newest-first by
//! walking the log backwards.

use vstd::prelude::*;

use crate::account::Transaction;

verus! {

/// Whether a transaction touches one of the given accounts, as source or as
/// destination.
pub open spec fn tx_involves(t: Transaction, ids: Seq<u64>) -> bool {
    ids.contains(t.from_account_id) || ids.contains(t.to_account_id)
}

/// The entries at indices `j..` of the log that touch one of `ids`, most
/// recently appended first.
pub open spec fn matches_desc_from(log: Seq<Transaction>, ids: Seq<u64>, j: int) -> Seq<
    Transaction,
>
    decreases log.len() - j,
{
    if j < 0 || j >= log.len() {
        Seq::empty()
    } else if tx_involves(log[j], ids) {
        matches_desc_from(log, ids, j + 1).push(log[j])
    } else {
        matches_desc_from(log, ids, j + 1)
    }
}

/// All entries of the log that touch one of `ids`, most recently appended
/// first.
pub open spec fn matches_desc(log: Seq<Transaction>, ids: Seq<u64>) -> Seq<Transaction> {
    matches_desc_from(log, ids, 0)
}

/// Creation times never decrease along the log.
pub open spec fn times_nondecreasing(log: Seq<Transaction>) -> bool {
    forall|i: int, j: int|
        0 <= i <= j < log.len() ==> (#[trigger] log[i]).created_at <= (#[trigger] log[j]).created_at
}

/// The commit time an append with wall-clock reading `timestamp` records:
/// the reading itself, unless the log already holds a later time.
pub open spec fn spec_commit_time(log: Seq<Transaction>, timestamp: i64) -> i64 {
    if log.len() > 0 && log.last().created_at > timestamp {
        log.last().created_at
    } else {
        timestamp
    }
}

/// A query result holds exactly the matching log entries.
pub proof fn lemma_matches_desc_from_membership(
    log: Seq<Transaction>,
    ids: Seq<u64>,
    j: int,
    t: Transaction,
)
    requires
        0 <= j <= log.len(),
    ensures
        matches_desc_from(log, ids, j).contains(t) <==> exists|k: int|
            j <= k < log.len() && log[k] == t && tx_involves(t, ids),
    decreases log.len() - j,
{
    if j < log.len() {
        lemma_matches_desc_from_membership(log, ids, j + 1, t);
        let rec = matches_desc_from(log, ids, j + 1);
        if tx_involves(log[j], ids) {
            let cur = rec.push(log[j]);
            assert forall|i: int| 0 <= i < cur.len() && cur[i] == t implies exists|k: int|
                j <= k < log.len() && log[k] == t && tx_involves(t, ids) by {
                if i < rec.len() {
                    assert(rec[i] == t);
                } else {
                    assert(log[j] == t);
                }
            }
            if exists|k: int| j <= k < log.len() && log[k] == t && tx_involves(t, ids) {
                let k = choose|k: int| j <= k < log.len() && log[k] == t && tx_involves(t, ids);
                if k == j {
                    assert(cur[cur.len() - 1] == t);
                } else {
                    assert(rec.contains(t));
                    let i = choose|i: int| 0 <= i < rec.len() && rec[i] == t;
                    assert(cur[i] == t);
                }
            }
        }
    }
}

/// See [`lemma_matches_desc_from_membership`], stated for the whole log.
pub proof fn lemma_matches_desc_membership(log: Seq<Transaction>, ids: Seq<u64>, t: Transaction)
    ensures
        matches_desc(log, ids).contains(t) <==> log.contains(t) && tx_involves(t, ids),
{
    lemma_matches_desc_from_membership(log, ids, 0, t);
}

/// On a log whose times never decrease, a query result is ordered by
/// creation time, newest first, and nothing in it is older than the entry at
/// `j`.
pub proof fn lemma_matches_desc_from_sorted(log: Seq<Transaction>, ids: Seq<u64>, j: int)
    requires
        0 <= j,
        times_nondecreasing(log),
    ensures
        ({
            let r = matches_desc_from(log, ids, j);
            &&& forall|a: int, b: int|
                0 <= a <= b < r.len() ==> (#[trigger] r[a]).created_at >= (
                #[trigger] r[b]).created_at
            &&& j < log.len() ==> forall|a: int|
                0 <= a < r.len() ==> (#[trigger] r[a]).created_at >= log[j].created_at
        }),
    decreases log.len() - j,
{
    if j < log.len() {
        lemma_matches_desc_from_sorted(log, ids, j + 1);
        let rec = matches_desc_from(log, ids, j + 1);
        let r = matches_desc_from(log, ids, j);
        assert forall|a: int| 0 <= a < r.len() implies (#[trigger] r[a]).created_at
            >= log[j].created_at by {
            if a < rec.len() {
                assert(r[a] == rec[a]);
                assert(j + 1 < log.len());
                assert(rec[a].created_at >= log[j + 1].created_at);
                assert(log[j].created_at <= log[j + 1].created_at);
            } else {
                assert(r[a] == log[j]);
            }
        }
        assert forall|a: int, b: int| 0 <= a <= b < r.len() implies (#[trigger] r[a]).created_at
            >= (#[trigger] r[b]).created_at by {
            if b < rec.len() {
                assert(r[a] == rec[a] && r[b] == rec[b]);
            } else {
                assert(tx_involves(log[j], ids));
                assert(r[b] == log[j]);
                assert(r[a].created_at >= log[j].created_at);
            }
        }
    }
}

/// Append-only persistence of committed transfers.
pub struct TransactionLog {
    pub entries: Vec<Transaction>,
}

impl TransactionLog {
    /// Well-formedness: consecutive ids, non-decreasing commit times, and
    /// every entry a well-formed transfer record — a strictly positive amount
    /// between two distinct accounts.
    pub open spec fn wf(self) -> bool {
        &&& forall|i: int|
            0 <= i < self.entries@.len() ==> (#[trigger] self.entries@[i]).id == i as u64
        &&& times_nondecreasing(self.entries@)
        &&& forall|i: int|
            0 <= i < self.entries@.len() ==> (#[trigger] self.entries@[i]).amount > 0 && self.entries@[i].from_account_id
                != self.entries@[i].to_account_id
    }

    /// An empty log.
    pub fn new() -> (r: TransactionLog)
        ensures
            r.wf(),
            r.entries@ == Seq::<Transaction>::empty(),
    {
        TransactionLog { entries: Vec::new() }
    }

    /// Appends one committed transfer and returns the record, with the next
    /// consecutive id and the commit time of [`spec_commit_time`].
    ///
    /// Must be invoked only from within the same durability boundary as the
    /// two balance mutations it records; the transfer coordinator holds that
    /// boundary as its exclusive borrow of the ledger.
    pub fn append(
        &mut self,
        from_account_id: u64,
        to_account_id: u64,
        amount: i64,
        timestamp: i64,
    ) -> (t: Transaction)
        requires
            old(self).wf(),
            amount > 0,
            from_account_id != to_account_id,
        ensures
            final(self).wf(),
            t == (Transaction {
                id: old(self).entries@.len() as u64,
                from_account_id,
                to_account_id,
                amount,
                created_at: spec_commit_time(old(self).entries@, timestamp),
            }),
            final(self).entries@ == old(self).entries@.push(t),
    {
        let n = self.entries.len();
        let created_at: i64 = if n > 0 {
            let last = self.entries[n - 1];
            if last.created_at > timestamp {
                last.created_at
            } else {
                timestamp
            }
        } else {
            timestamp
        };
        let t = Transaction {
            id: n as u64,
            from_account_id,
            to_account_id,
            amount,
            created_at,
        };
        self.entries.push(t);
        t
    }

    /// Looks a transaction up by id.
    pub fn get(&self, id: u64) -> (r: Option<Transaction>)
        requires
            self.wf(),
        ensures
            r == if id < self.entries@.len() {
                Some(self.entries@[id as int])
            } else {
                None::<Transaction>
            },
    {
        if id < self.entries.len() as u64 {
            Some(self.entries[id as usize])
        } else {
            None
        }
    }

    /// All entries that touch one of the given accounts, as source or
    /// destination, ordered by creation time, newest first.
    pub fn list_for_accounts(&self, account_ids: &Vec<u64>) -> (r: Vec<Transaction>)
        requires
            self.wf(),
        ensures
            r@ == matches_desc(self.entries@, account_ids@),
            forall|a: int, b: int|
                0 <= a <= b < r@.len() ==> (#[trigger] r@[a]).created_at >= (
                #[trigger] r@[b]).created_at,
            forall|t: Transaction|
                #[trigger] r@.contains(t) <==> self.entries@.contains(t) && tx_involves(
                    t,
                    account_ids@,
                ),
    {
        let mut r: Vec<Transaction> = Vec::new();
        let mut j = self.entries.len();
        while j > 0
            invariant
                j <= self.entries@.len(),
                r@ == matches_desc_from(self.entries@, account_ids@, j as int),
            decreases j,
        {
            j = j - 1;
            let t = self.entries[j];
            if ids_contain(account_ids, t.from_account_id) || ids_contain(
                account_ids,
                t.to_account_id,
            ) {
                r.push(t);
            }
        }
        proof {
            lemma_matches_desc_from_sorted(self.entries@, account_ids@, 0);
            assert forall|t: Transaction| #[trigger]
                r@.contains(t) <==> self.entries@.contains(t) && tx_involves(
                t,
                account_ids@,
            ) by {
                lemma_matches_desc_membership(self.entries@, account_ids@, t);
            }
        }
        r
    }
}

/// Whether `x` occurs in `ids`.
fn ids_contain(ids: &Vec<u64>, x: u64) -> (r: bool)
    ensures
        r == ids@.contains(x),
{
    let mut k: usize = 0;
    while k < ids.len()
        invariant
            k <= ids@.len(),
            forall|m: int| 0 <= m < k ==> ids@[m] != x,
        decreases ids@.len() - k,
    {
        if ids[k] == x {
            return true;
        }
        k = k + 1;
    }
    false
}

} // verus!
