//! The laws of the transfer protocol, proved over [`spec_transfer`]: money
//! conservation, atomicity of failure, safety of retries, and the absence of
//! double-spend under any interleaving of competing transfers.
//!
//! Transfers are serialized by the atomic update step of the account store,
//! so any concurrent schedule of transfers is some sequence of
//! [`spec_transfer`] steps; the laws below quantify over that sequence and
//! therefore hold regardless of scheduling order.

use vstd::prelude::*;

use crate::account::{Account, Transaction};
use crate::coordinator::{spec_transfer, spec_transfer_denied, TransferOutcome};
use crate::errors::LedgerError;
use crate::store::{
    account_at, balances_nonneg, has_account, ids_are_indices, lemma_total_bounds,
    lemma_total_update, spec_total,
};

verus! {

/// Validity of a sequence of accounts, independent of any store: consecutive
/// ids, no negative balance, and a total that the store can represent.
pub open spec fn accounts_wf(accounts: Seq<Account>) -> bool {
    &&& ids_are_indices(accounts)
    &&& balances_nonneg(accounts)
    &&& spec_total(accounts) <= i64::MAX
    &&& accounts.len() <= u64::MAX
}

/// One transfer request, as the coordinator receives it.
#[derive(Clone, Copy, Debug, PartialEq, Eq, Structural)]
pub struct TransferRequest {
    pub actor_user_id: u64,
    pub from_account_id: u64,
    pub to_account_id: u64,
    pub amount: i64,
    pub now: i64,
}

/// The outcome of one request against a given state.
pub open spec fn step(
    accounts: Seq<Account>,
    log: Seq<Transaction>,
    r: TransferRequest,
) -> TransferOutcome {
    spec_transfer(
        accounts,
        log,
        r.actor_user_id,
        r.from_account_id,
        r.to_account_id,
        r.amount,
        r.now,
    )
}

/// The results of running the requests in order, each against the state the
/// previous ones left.
pub open spec fn run_results(
    accounts: Seq<Account>,
    log: Seq<Transaction>,
    reqs: Seq<TransferRequest>,
) -> Seq<Result<Transaction, LedgerError>>
    decreases reqs.len(),
{
    if reqs.len() == 0 {
        Seq::empty()
    } else {
        let o = step(accounts, log, reqs[0]);
        seq![o.result] + run_results(o.accounts, o.log, reqs.drop_first())
    }
}

/// How one transfer step relates to the state it starts from: validity is
/// preserved, the total of all balances is conserved, ids and owners never
/// change, no version grows by more than one, a denied request changes
/// nothing, and a granted one moves exactly `amount` from the source to the
/// destination.
pub proof fn lemma_transfer_frame(
    accounts: Seq<Account>,
    log: Seq<Transaction>,
    actor_user_id: u64,
    from_account_id: u64,
    to_account_id: u64,
    amount: i64,
    now: i64,
)
    requires
        accounts_wf(accounts),
    ensures
        ({
            let o = spec_transfer(
                accounts,
                log,
                actor_user_id,
                from_account_id,
                to_account_id,
                amount,
                now,
            );
            &&& accounts_wf(o.accounts)
            &&& o.accounts.len() == accounts.len()
            &&& spec_total(o.accounts) == spec_total(accounts)
            &&& forall|id: u64|
                has_account(accounts, id) ==> {
                    &&& (#[trigger] account_at(o.accounts, id)).id == account_at(accounts, id).id
                    &&& account_at(o.accounts, id).owner_user_id == account_at(
                        accounts,
                        id,
                    ).owner_user_id
                    &&& account_at(o.accounts, id).version <= account_at(accounts, id).version + 1
                }
            &&& o.result is Err ==> o.accounts == accounts && o.log == log
            &&& o.result is Ok ==> {
                &&& account_at(o.accounts, from_account_id).balance == account_at(
                    accounts,
                    from_account_id,
                ).balance - amount
                &&& account_at(o.accounts, to_account_id).balance == account_at(
                    accounts,
                    to_account_id,
                ).balance + amount
                &&& account_at(o.accounts, from_account_id).version == account_at(
                    accounts,
                    from_account_id,
                ).version + 1
                &&& account_at(o.accounts, to_account_id).version == account_at(
                    accounts,
                    to_account_id,
                ).version + 1
                &&& forall|id: u64|
                    has_account(accounts, id) && id != from_account_id && id != to_account_id
                        ==> account_at(o.accounts, id) == account_at(accounts, id)
                &&& o.log == log.push(o.result->Ok_0)
            }
        }),
{
    let denied = spec_transfer_denied(
        accounts,
        actor_user_id,
        from_account_id,
        to_account_id,
        amount,
    );
    if denied is None {
        let f = account_at(accounts, from_account_id);
        let t = account_at(accounts, to_account_id);
        lemma_total_bounds(accounts);
        let debited = Account {
            id: from_account_id,
            owner_user_id: f.owner_user_id,
            balance: (f.balance - amount) as i64,
            version: (f.version + 1) as u64,
        };
        let mid = accounts.update(from_account_id as int, debited);
        lemma_total_update(accounts, from_account_id as int, debited);
        lemma_total_bounds(mid);
        assert(t == account_at(mid, to_account_id));
        assert(t.balance + amount <= spec_total(accounts) <= i64::MAX);
        let credited = Account {
            id: to_account_id,
            owner_user_id: t.owner_user_id,
            balance: (t.balance + amount) as i64,
            version: (t.version + 1) as u64,
        };
        lemma_total_update(mid, to_account_id as int, credited);
        assert(spec_transfer(
            accounts,
            log,
            actor_user_id,
            from_account_id,
            to_account_id,
            amount,
            now,
        ).accounts == mid.update(to_account_id as int, credited));
    }
}

/// Conservation: a transfer never changes the sum of all balances, and a
/// granted one leaves the sum of the two balances it touches exactly as it
/// found them.
pub proof fn lemma_transfer_conservation(
    accounts: Seq<Account>,
    log: Seq<Transaction>,
    actor_user_id: u64,
    from_account_id: u64,
    to_account_id: u64,
    amount: i64,
    now: i64,
)
    requires
        accounts_wf(accounts),
    ensures
        ({
            let o = spec_transfer(
                accounts,
                log,
                actor_user_id,
                from_account_id,
                to_account_id,
                amount,
                now,
            );
            &&& spec_total(o.accounts) == spec_total(accounts)
            &&& o.result is Ok ==> account_at(o.accounts, from_account_id).balance + account_at(
                o.accounts,
                to_account_id,
            ).balance == account_at(accounts, from_account_id).balance + account_at(
                accounts,
                to_account_id,
            ).balance
        }),
{
    lemma_transfer_frame(accounts, log, actor_user_id, from_account_id, to_account_id, amount, now);
}

/// Atomicity: a transfer that fails — with `InsufficientFunds` or any other
/// error — leaves every account balance bit for bit unchanged and appends no
/// transaction record for the attempt.
pub proof fn lemma_failed_transfer_changes_nothing(
    accounts: Seq<Account>,
    log: Seq<Transaction>,
    actor_user_id: u64,
    from_account_id: u64,
    to_account_id: u64,
    amount: i64,
    now: i64,
)
    ensures
        ({
            let o = spec_transfer(
                accounts,
                log,
                actor_user_id,
                from_account_id,
                to_account_id,
                amount,
                now,
            );
            o.result is Err ==> o.accounts == accounts && o.log == log
        }),
{
}

/// Retry safety: after a failed transfer the state is exactly what it was,
/// so retrying the call records the logical transfer at most once — the two
/// attempts together append at most one record.
pub proof fn lemma_retry_no_duplicate_record(
    accounts: Seq<Account>,
    log: Seq<Transaction>,
    first: TransferRequest,
    retry: TransferRequest,
)
    ensures
        ({
            let o1 = step(accounts, log, first);
            let o2 = step(o1.accounts, o1.log, retry);
            o1.result is Err ==> {
                &&& o1.log == log
                &&& o2.log.len() <= log.len() + 1
            }
        }),
{
}

/// Rejection of non-positive amounts: an amount of zero or less is denied
/// with `InvalidAmount` and nothing changes.
pub proof fn lemma_nonpositive_amount_rejected(
    accounts: Seq<Account>,
    log: Seq<Transaction>,
    actor_user_id: u64,
    from_account_id: u64,
    to_account_id: u64,
    amount: i64,
    now: i64,
)
    requires
        amount <= 0,
    ensures
        ({
            let o = spec_transfer(
                accounts,
                log,
                actor_user_id,
                from_account_id,
                to_account_id,
                amount,
                now,
            );
            &&& o.result == Err::<Transaction, _>(LedgerError::InvalidAmount)
            &&& o.accounts == accounts
            &&& o.log == log
        }),
{
}

/// Exact balance boundary: a granted transfer of the whole source balance
/// succeeds and leaves the source balance at zero.
pub proof fn lemma_exact_balance_drains_source(
    accounts: Seq<Account>,
    log: Seq<Transaction>,
    actor_user_id: u64,
    from_account_id: u64,
    to_account_id: u64,
    amount: i64,
    now: i64,
)
    requires
        accounts_wf(accounts),
        amount > 0,
        from_account_id != to_account_id,
        has_account(accounts, from_account_id),
        has_account(accounts, to_account_id),
        account_at(accounts, from_account_id).owner_user_id == actor_user_id,
        account_at(accounts, from_account_id).balance == amount,
        account_at(accounts, from_account_id).version < u64::MAX,
        account_at(accounts, to_account_id).version < u64::MAX,
    ensures
        ({
            let o = spec_transfer(
                accounts,
                log,
                actor_user_id,
                from_account_id,
                to_account_id,
                amount,
                now,
            );
            &&& o.result is Ok
            &&& account_at(o.accounts, from_account_id).balance == 0
        }),
{
    lemma_transfer_frame(accounts, log, actor_user_id, from_account_id, to_account_id, amount, now);
}

/// A request competing for the balance of `from`: it asks to move `amount`
/// out of `from`, on behalf of the owner, to some other existing account.
pub open spec fn competing_request(
    accounts: Seq<Account>,
    r: TransferRequest,
    from_account_id: u64,
    amount: i64,
) -> bool {
    &&& r.from_account_id == from_account_id
    &&& r.amount == amount
    &&& r.actor_user_id == account_at(accounts, from_account_id).owner_user_id
    &&& r.to_account_id != from_account_id
    &&& has_account(accounts, r.to_account_id)
}

/// Running competing requests against a source balance of `c * amount`
/// grants exactly the first `c` and denies every later one with
/// `InsufficientFunds`.
pub proof fn lemma_run_drains_exactly(
    accounts: Seq<Account>,
    log: Seq<Transaction>,
    reqs: Seq<TransferRequest>,
    from_account_id: u64,
    amount: i64,
    c: int,
)
    requires
        accounts_wf(accounts),
        amount > 0,
        0 <= c,
        has_account(accounts, from_account_id),
        account_at(accounts, from_account_id).balance == c * amount,
        forall|i: int|
            0 <= i < reqs.len() ==> competing_request(
                accounts,
                #[trigger] reqs[i],
                from_account_id,
                amount,
            ),
        account_at(accounts, from_account_id).version + reqs.len() <= u64::MAX,
        forall|i: int|
            0 <= i < reqs.len() ==> account_at(
                accounts,
                (#[trigger] reqs[i]).to_account_id,
            ).version + reqs.len() <= u64::MAX,
    ensures
        run_results(accounts, log, reqs).len() == reqs.len(),
        forall|i: int|
            0 <= i < reqs.len() && i < c ==> (#[trigger] run_results(accounts, log, reqs)[i]) is Ok,
        forall|i: int|
            c <= i < reqs.len() ==> (#[trigger] run_results(accounts, log, reqs)[i])
                == Err::<Transaction, LedgerError>(LedgerError::InsufficientFunds),
    decreases reqs.len(),
{
    if reqs.len() > 0 {
        let r0 = reqs[0];
        let o = step(accounts, log, r0);
        let rest = reqs.drop_first();
        let results = run_results(accounts, log, reqs);
        assert(results == seq![o.result] + run_results(o.accounts, o.log, rest));
        lemma_transfer_frame(
            accounts,
            log,
            r0.actor_user_id,
            r0.from_account_id,
            r0.to_account_id,
            r0.amount,
            r0.now,
        );
        if c > 0 {
            assert(c * amount >= 1 * amount) by (nonlinear_arith)
                requires
                    c >= 1,
                    amount > 0,
            ;
            assert(o.result is Ok);
            assert((c - 1) * amount == c * amount - amount) by (nonlinear_arith);
            assert(account_at(o.accounts, from_account_id).balance == (c - 1) * amount);
            assert forall|i: int| 0 <= i < rest.len() implies competing_request(
                o.accounts,
                #[trigger] rest[i],
                from_account_id,
                amount,
            ) by {
                assert(rest[i] == reqs[i + 1]);
            }
            assert forall|i: int| 0 <= i < rest.len() implies account_at(
                o.accounts,
                (#[trigger] rest[i]).to_account_id,
            ).version + rest.len() <= u64::MAX by {
                assert(rest[i] == reqs[i + 1]);
                assert(account_at(o.accounts, rest[i].to_account_id).version <= account_at(
                    accounts,
                    rest[i].to_account_id,
                ).version + 1);
            }
            lemma_run_drains_exactly(o.accounts, o.log, rest, from_account_id, amount, c - 1);
            assert forall|i: int| 0 <= i < reqs.len() && i < c implies (#[trigger] results[i])
                is Ok by {
                if i > 0 {
                    assert(results[i] == run_results(o.accounts, o.log, rest)[i - 1]);
                }
            }
            assert forall|i: int| c <= i < reqs.len() implies (#[trigger] results[i])
                == Err::<Transaction, LedgerError>(LedgerError::InsufficientFunds) by {
                assert(results[i] == run_results(o.accounts, o.log, rest)[i - 1]);
            }
        } else {
            assert(account_at(accounts, from_account_id).balance == 0) by {
                assert(0 * amount == 0) by (nonlinear_arith);
            }
            assert(o.result == Err::<Transaction, LedgerError>(LedgerError::InsufficientFunds));
            assert(o.accounts == accounts && o.log == log);
            assert forall|i: int| 0 <= i < rest.len() implies competing_request(
                o.accounts,
                #[trigger] rest[i],
                from_account_id,
                amount,
            ) by {
                assert(rest[i] == reqs[i + 1]);
            }
            assert forall|i: int| 0 <= i < rest.len() implies account_at(
                o.accounts,
                (#[trigger] rest[i]).to_account_id,
            ).version + rest.len() <= u64::MAX by {
                assert(rest[i] == reqs[i + 1]);
            }
            lemma_run_drains_exactly(o.accounts, o.log, rest, from_account_id, amount, 0);
            assert forall|i: int| c <= i < reqs.len() implies (#[trigger] results[i])
                == Err::<Transaction, LedgerError>(LedgerError::InsufficientFunds) by {
                if i > 0 {
                    assert(results[i] == run_results(o.accounts, o.log, rest)[i - 1]);
                }
            }
        }
    }
}

/// No double-spend under concurrency: scheduling `n` competing transfers of
/// `amount` each against a source balance of exactly `(n - 1) * amount`
/// grants exactly `n - 1` of them, and denies exactly one with
/// `InsufficientFunds` — whatever the interleaving, since every schedule of
/// transfers serialized by the atomic update step is such a sequence.
pub proof fn lemma_no_double_spend(
    accounts: Seq<Account>,
    log: Seq<Transaction>,
    reqs: Seq<TransferRequest>,
    from_account_id: u64,
    amount: i64,
)
    requires
        accounts_wf(accounts),
        amount > 0,
        reqs.len() >= 1,
        has_account(accounts, from_account_id),
        account_at(accounts, from_account_id).balance == (reqs.len() - 1) * amount,
        forall|i: int|
            0 <= i < reqs.len() ==> competing_request(
                accounts,
                #[trigger] reqs[i],
                from_account_id,
                amount,
            ),
        account_at(accounts, from_account_id).version + reqs.len() <= u64::MAX,
        forall|i: int|
            0 <= i < reqs.len() ==> account_at(
                accounts,
                (#[trigger] reqs[i]).to_account_id,
            ).version + reqs.len() <= u64::MAX,
    ensures
        run_results(accounts, log, reqs).len() == reqs.len(),
        forall|i: int|
            0 <= i < reqs.len() - 1 ==> (#[trigger] run_results(accounts, log, reqs)[i]) is Ok,
        run_results(accounts, log, reqs)[reqs.len() - 1] == Err::<Transaction, LedgerError>(
            LedgerError::InsufficientFunds,
        ),
{
    lemma_run_drains_exactly(accounts, log, reqs, from_account_id, amount, reqs.len() - 1);
}

} // verus!
