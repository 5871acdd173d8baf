//! What holds of the ledger across transactions: money is conserved, held
//! funds track the open disputes, dispute actions settle totals correctly,
//! a transaction touches no other client's account, and each kind of
//! transaction is accepted or refused, and changes its client's funds, as
//! stated in terms of the decimal arithmetic alone.
use vstd::prelude::*;

use crate::account::{
    fresh_account, lemma_results_are_decimal_results, AccountError, AccountState,
};
use crate::decimal::{add_is_exact, decimal_difference, decimal_sum, sub_is_exact, Decimal};
use crate::ledger::{LedgerError, LedgerState, TxRecord};
use crate::types::{
    amount_valid, balance_difference, balance_sum, lemma_amount_non_negative,
    lemma_balance_difference_exact, lemma_balance_sum_exact, lemma_value_order, movement_amount,
    transaction_valid, units, Amount, ClientId, DisputeAction, Movement, Transaction,
    TransactionAction, TxId,
};

verus! {

/// `f(0) + f(1) + ... + f(n - 1)`.
pub open spec fn sum_below(f: spec_fn(int) -> int, n: nat) -> int
    decreases n,
{
    if n == 0 {
        0
    } else {
        sum_below(f, (n - 1) as nat) + f(n - 1)
    }
}

/// Changing one term changes the sum by the difference.
proof fn lemma_sum_below_update(f: spec_fn(int) -> int, g: spec_fn(int) -> int, k: int, n: nat)
    requires
        forall|i: int| 0 <= i < n && i != k ==> #[trigger] f(i) == g(i),
    ensures
        sum_below(g, n) == sum_below(f, n) + (if 0 <= k < n {
            g(k) - f(k)
        } else {
            0
        }),
    decreases n,
{
    if n > 0 {
        lemma_sum_below_update(f, g, k, (n - 1) as nat);
    }
}

/// A sum of non-negative terms is non-negative.
proof fn lemma_sum_below_non_negative(f: spec_fn(int) -> int, n: nat)
    requires
        forall|i: int| #[trigger] f(i) >= 0,
    ensures
        sum_below(f, n) >= 0,
    decreases n,
{
    if n > 0 {
        lemma_sum_below_non_negative(f, (n - 1) as nat);
    }
}

/// A sum of zeros is zero.
proof fn lemma_sum_below_zero(f: spec_fn(int) -> int, n: nat)
    requires
        forall|i: int| #[trigger] f(i) == 0,
    ensures
        sum_below(f, n) == 0,
    decreases n,
{
    if n > 0 {
        lemma_sum_below_zero(f, (n - 1) as nat);
    }
}

/// Available plus held funds, in ten-thousandths.
pub open spec fn money(a: AccountState) -> int {
    units(a.available) + units(a.held)
}

/// Each client number's money.
pub open spec fn money_by_client(s: LedgerState) -> spec_fn(int) -> int {
    |i: int| money(s.account(i as u16))
}

/// All the money in the ledger: the sum of every client's available and
/// held funds.
pub open spec fn total_money(s: LedgerState) -> int {
    sum_below(money_by_client(s), 0x1_0000)
}

/// Each recorded transaction's amount if it is under dispute by `client`.
pub open spec fn disputed_by_tx(s: LedgerState, client: u16) -> spec_fn(int) -> int {
    |k: int|
        {
            let id = k as u32;
            if s.history.contains_key(id) && s.history[id].client@ == client
                && s.history[id].disputed {
                units(movement_amount(s.history[id].movement)@)
            } else {
                0
            }
        }
}

/// The sum of the amounts that `client` has under dispute.
pub open spec fn disputed_total(s: LedgerState, client: u16) -> int {
    sum_below(disputed_by_tx(s, client), 0x1_0000_0000)
}

/// Every client's held funds are exactly the amounts of its open disputes.
pub open spec fn held_matches_disputes(s: LedgerState) -> bool {
    forall|c: u16| #[trigger] units(s.account(c).held) == disputed_total(s, c)
}

/// The money that enters (a deposit) or leaves (a withdrawal, a
/// chargeback) the ledger with `t`; nothing if `t` is rejected.
pub open spec fn flow(s: LedgerState, t: Transaction) -> int {
    if s.apply(t).1 is Err {
        0
    } else {
        match t.action {
            TransactionAction::Movement(Movement::Deposit(amount)) => units(amount@),
            TransactionAction::Movement(Movement::Withdrawal(amount)) => -units(amount@),
            TransactionAction::DisputeAction(DisputeAction::Chargeback) => -units(
                movement_amount(s.history[t.tx@].movement)@,
            ),
            TransactionAction::DisputeAction(_) => 0,
        }
    }
}

/// Every addition and subtraction that `t` makes on its client's balances
/// is computed without rounding.
pub open spec fn step_is_exact(s: LedgerState, t: Transaction) -> bool {
    let a = s.account(t.client@);
    match t.action {
        TransactionAction::Movement(Movement::Deposit(x)) => add_is_exact(a.available, x@),
        TransactionAction::Movement(Movement::Withdrawal(x)) => sub_is_exact(a.available, x@),
        TransactionAction::DisputeAction(action) => s.history.contains_key(t.tx@) ==> {
            let x = movement_amount(s.history[t.tx@].movement)@;
            match action {
                DisputeAction::Dispute => sub_is_exact(a.available, x) && add_is_exact(a.held, x),
                DisputeAction::Resolve => sub_is_exact(a.held, x) && add_is_exact(a.available, x),
                DisputeAction::Chargeback => sub_is_exact(a.held, x),
            }
        },
    }
}

/// The ledger after applying `txs` in order, rejected ones included.
pub open spec fn run(s: LedgerState, txs: Seq<Transaction>) -> LedgerState
    decreases txs.len(),
{
    if txs.len() == 0 {
        s
    } else {
        run(s, txs.drop_last()).apply(txs.last()).0
    }
}

/// The money that entered the ledger minus the money that left it over
/// `txs`: deposits, minus withdrawals, minus chargebacks that succeeded.
pub open spec fn net_flow(s: LedgerState, txs: Seq<Transaction>) -> int
    decreases txs.len(),
{
    if txs.len() == 0 {
        0
    } else {
        net_flow(s, txs.drop_last()) + flow(run(s, txs.drop_last()), txs.last())
    }
}

/// If `t` is accepted, its additions and subtractions are computed without
/// rounding (a rejected transaction changes nothing, rounded or not).
pub open spec fn accepted_step_is_exact(s: LedgerState, t: Transaction) -> bool {
    s.apply(t).1 is Ok ==> step_is_exact(s, t)
}

/// Every transaction carries valid amounts and every accepted step is
/// computed without rounding.
pub open spec fn replay_is_exact(s: LedgerState, txs: Seq<Transaction>) -> bool {
    forall|i: int|
        0 <= i < txs.len() ==> transaction_valid(#[trigger] txs[i]) && accepted_step_is_exact(
            run(s, txs.take(i)),
            txs[i],
        )
}

/// A fresh account holds valid balances.
proof fn lemma_fresh_account_valid()
    ensures
        fresh_account().valid(),
        money(fresh_account()) == 0,
{
    let z = Decimal { negative: false, scale: 0, hi: 0, mid: 0, lo: 0 };
    assert(z.signed() == 0);
    assert(units(z) == 0);
}

/// Every client's account in a valid ledger is valid.
proof fn lemma_account_valid(s: LedgerState, c: u16)
    requires
        s.valid(),
    ensures
        s.account(c).valid(),
{
    lemma_fresh_account_valid();
}

/// Applying a transaction with valid amounts keeps every balance and every
/// recorded amount valid.
pub proof fn lemma_apply_keeps_valid(s: LedgerState, t: Transaction)
    requires
        s.valid(),
        transaction_valid(t),
    ensures
        s.apply(t).0.valid(),
{
    lemma_account_valid(s, t.client@);
    let post = s.apply(t).0;
    assert forall|c: u16| #[trigger] post.accounts.contains_key(c) implies post.accounts[c].valid() by {
        if c != t.client@ {
            assert(s.accounts.contains_key(c));
        }
    }
    assert forall|k: u32| #[trigger] post.history.contains_key(k) implies amount_valid(
        movement_amount(post.history[k].movement)@,
    ) by {
        if k != t.tx@ {
            assert(s.history.contains_key(k));
        }
    }
}

/// A transaction never changes the account of a client other than its own.
pub proof fn lemma_other_clients_untouched(s: LedgerState, t: Transaction, c: u16)
    requires
        c != t.client@,
    ensures
        s.apply(t).0.account(c) == s.account(c),
{
}

/// The change that one successful transaction makes to its client's money.
proof fn lemma_step_money(s: LedgerState, t: Transaction)
    requires
        s.valid(),
        transaction_valid(t),
        step_is_exact(s, t),
        s.apply(t).1 is Ok,
    ensures
        money(s.apply(t).0.account(t.client@)) == money(s.account(t.client@)) + flow(s, t),
{
    let c = t.client@;
    let a = s.account(c);
    lemma_account_valid(s, c);
    match t.action {
        TransactionAction::Movement(Movement::Deposit(x)) => {
            lemma_balance_sum_exact(a.available, x@);
        },
        TransactionAction::Movement(Movement::Withdrawal(x)) => {
            lemma_balance_difference_exact(a.available, x@);
        },
        TransactionAction::DisputeAction(action) => {
            let x = movement_amount(s.history[t.tx@].movement)@;
            match action {
                DisputeAction::Dispute => {
                    lemma_balance_difference_exact(a.available, x);
                    lemma_balance_sum_exact(a.held, x);
                },
                DisputeAction::Resolve => {
                    lemma_balance_difference_exact(a.held, x);
                    lemma_balance_sum_exact(a.available, x);
                },
                DisputeAction::Chargeback => {
                    lemma_balance_difference_exact(a.held, x);
                },
            }
        },
    }
}

/// Money is conserved by one transaction: the ledger's money changes by
/// exactly what the transaction brings in or takes out.
pub proof fn lemma_money_conserved_by_step(s: LedgerState, t: Transaction)
    requires
        s.valid(),
        transaction_valid(t),
        accepted_step_is_exact(s, t),
    ensures
        total_money(s.apply(t).0) == total_money(s) + flow(s, t),
{
    let post = s.apply(t).0;
    let c = t.client@;
    if s.apply(t).1 is Ok {
        lemma_step_money(s, t);
        let f = money_by_client(s);
        let g = money_by_client(post);
        assert forall|i: int| 0 <= i < 0x1_0000 && i != c implies #[trigger] f(i) == g(i) by {
            lemma_other_clients_untouched(s, t, i as u16);
        }
        lemma_sum_below_update(f, g, c as int, 0x1_0000);
    }
}

/// The replay of a prefix of an exact replay is exact.
proof fn lemma_replay_prefix(s: LedgerState, txs: Seq<Transaction>)
    requires
        txs.len() > 0,
        replay_is_exact(s, txs),
    ensures
        replay_is_exact(s, txs.drop_last()),
        transaction_valid(txs.last()),
        accepted_step_is_exact(run(s, txs.drop_last()), txs.last()),
{
    let prefix = txs.drop_last();
    assert forall|i: int| 0 <= i < prefix.len() implies transaction_valid(#[trigger] prefix[i])
        && accepted_step_is_exact(run(s, prefix.take(i)), prefix[i]) by {
        assert(prefix[i] == txs[i]);
        assert(prefix.take(i) =~= txs.take(i));
    }
    let n = txs.len() - 1;
    assert(txs.take(n) =~= prefix);
    assert(txs[n] == txs.last());
}

/// Applying transactions with valid amounts keeps the ledger valid.
pub proof fn lemma_replay_keeps_valid(s: LedgerState, txs: Seq<Transaction>)
    requires
        s.valid(),
        forall|i: int| 0 <= i < txs.len() ==> transaction_valid(#[trigger] txs[i]),
    ensures
        run(s, txs).valid(),
    decreases txs.len(),
{
    if txs.len() > 0 {
        let prefix = txs.drop_last();
        assert forall|i: int| 0 <= i < prefix.len() implies transaction_valid(
            #[trigger] prefix[i],
        ) by {
            assert(prefix[i] == txs[i]);
        }
        lemma_replay_keeps_valid(s, prefix);
        assert(txs[txs.len() - 1] == txs.last());
        lemma_apply_keeps_valid(run(s, prefix), txs.last());
    }
}

/// Money is conserved: after any sequence of transactions, the money in all
/// accounts is what was there before, plus what was deposited, minus what
/// was withdrawn, minus what was charged back.
pub proof fn lemma_money_conserved(s: LedgerState, txs: Seq<Transaction>)
    requires
        s.valid(),
        replay_is_exact(s, txs),
    ensures
        total_money(run(s, txs)) == total_money(s) + net_flow(s, txs),
        run(s, txs).valid(),
    decreases txs.len(),
{
    if txs.len() > 0 {
        let prefix = txs.drop_last();
        lemma_replay_prefix(s, txs);
        lemma_money_conserved(s, prefix);
        lemma_money_conserved_by_step(run(s, prefix), txs.last());
        lemma_apply_keeps_valid(run(s, prefix), txs.last());
    }
}

/// Starting from an empty ledger, the money in all accounts is exactly what
/// was deposited, minus what was withdrawn, minus what was charged back.
pub proof fn lemma_money_conserved_from_empty(txs: Seq<Transaction>)
    requires
        replay_is_exact(LedgerState::empty(), txs),
    ensures
        total_money(run(LedgerState::empty(), txs)) == net_flow(LedgerState::empty(), txs),
{
    lemma_empty_held_matches_disputes();
    let f = money_by_client(LedgerState::empty());
    assert forall|i: int| #[trigger] f(i) == 0 by {
        lemma_fresh_account_valid();
    }
    lemma_sum_below_zero(f, 0x1_0000);
    lemma_money_conserved(LedgerState::empty(), txs);
}

/// How one transaction changes one client's held funds and open disputes.
proof fn lemma_held_step_client(s: LedgerState, t: Transaction, c: u16)
    requires
        s.valid(),
        transaction_valid(t),
        step_is_exact(s, t),
        s.apply(t).1 is Ok,
        units(s.account(c).held) == disputed_total(s, c),
    ensures
        units(s.apply(t).0.account(c).held) == disputed_total(s.apply(t).0, c),
{
    let post = s.apply(t).0;
    let id = t.tx@;
    let f = disputed_by_tx(s, c);
    let g = disputed_by_tx(post, c);
    assert forall|k: int| 0 <= k < 0x1_0000_0000 && k != id implies #[trigger] f(k) == g(k) by {
        assert((k as u32) != id);
    }
    lemma_sum_below_update(f, g, id as int, 0x1_0000_0000);
    assert(disputed_total(post, c) == disputed_total(s, c) + (g(id as int) - f(id as int)));
    let a = s.account(t.client@);
    lemma_account_valid(s, t.client@);
    if c != t.client@ {
        lemma_other_clients_untouched(s, t, c);
    }
    match t.action {
        TransactionAction::Movement(m) => {
            assert(!s.history.contains_key(id));
            assert(f(id as int) == 0);
            assert(g(id as int) == 0);
        },
        TransactionAction::DisputeAction(action) => {
            let x = movement_amount(s.history[id].movement)@;
            assert(s.history[id].client == t.client);
            if c == t.client@ {
                match action {
                    DisputeAction::Dispute => {
                        lemma_balance_difference_exact(a.available, x);
                        lemma_balance_sum_exact(a.held, x);
                        assert(f(id as int) == 0);
                        assert(g(id as int) == units(x));
                    },
                    DisputeAction::Resolve => {
                        lemma_balance_difference_exact(a.held, x);
                        lemma_balance_sum_exact(a.available, x);
                        assert(f(id as int) == units(x));
                        assert(g(id as int) == 0);
                    },
                    DisputeAction::Chargeback => {
                        lemma_balance_difference_exact(a.held, x);
                        assert(f(id as int) == units(x));
                        assert(g(id as int) == 0);
                    },
                }
            } else {
                assert(f(id as int) == 0);
                assert(g(id as int) == 0);
            }
        },
    }
}

/// One transaction keeps every client's held funds equal to the amounts of
/// its open disputes.
pub proof fn lemma_held_tracks_disputes_by_step(s: LedgerState, t: Transaction)
    requires
        s.valid(),
        transaction_valid(t),
        accepted_step_is_exact(s, t),
        held_matches_disputes(s),
    ensures
        held_matches_disputes(s.apply(t).0),
{
    if s.apply(t).1 is Ok {
        assert forall|c: u16| #[trigger]
            units(s.apply(t).0.account(c).held) == disputed_total(s.apply(t).0, c) by {
            lemma_held_step_client(s, t, c);
        }
    }
}

/// The empty ledger has no held funds and no open disputes.
proof fn lemma_empty_held_matches_disputes()
    ensures
        held_matches_disputes(LedgerState::empty()),
        LedgerState::empty().valid(),
{
    lemma_fresh_account_valid();
    assert forall|c: u16| #[trigger]
        units(LedgerState::empty().account(c).held) == disputed_total(LedgerState::empty(), c) by {
        let f = disputed_by_tx(LedgerState::empty(), c);
        assert forall|k: int| #[trigger] f(k) == 0 by {}
        lemma_sum_below_zero(f, 0x1_0000_0000);
    }
}

/// Held funds only ever move by equal-and-opposite amounts between dispute
/// (add) and resolve/chargeback (subtract): starting from an empty ledger,
/// every client's held funds equal the amounts of its open disputes.
pub proof fn lemma_held_tracks_disputes(txs: Seq<Transaction>)
    requires
        replay_is_exact(LedgerState::empty(), txs),
    ensures
        held_matches_disputes(run(LedgerState::empty(), txs)),
        run(LedgerState::empty(), txs).valid(),
    decreases txs.len(),
{
    if txs.len() == 0 {
        lemma_empty_held_matches_disputes();
    } else {
        let prefix = txs.drop_last();
        lemma_replay_prefix(LedgerState::empty(), txs);
        lemma_held_tracks_disputes(prefix);
        lemma_held_tracks_disputes_by_step(run(LedgerState::empty(), prefix), txs.last());
        lemma_apply_keeps_valid(run(LedgerState::empty(), prefix), txs.last());
    }
}

/// Held funds are never negative: starting from an empty ledger, after any
/// sequence of transactions, every client's held funds are at least zero.
pub proof fn lemma_held_never_negative(txs: Seq<Transaction>, c: u16)
    requires
        replay_is_exact(LedgerState::empty(), txs),
    ensures
        units(run(LedgerState::empty(), txs).account(c).held) >= 0,
{
    lemma_held_tracks_disputes(txs);
    let s = run(LedgerState::empty(), txs);
    let f = disputed_by_tx(s, c);
    assert forall|k: int| #[trigger] f(k) >= 0 by {
        let id = k as u32;
        if s.history.contains_key(id) {
            lemma_amount_non_negative(movement_amount(s.history[id].movement)@);
        }
    }
    lemma_sum_below_non_negative(f, 0x1_0000_0000);
}

/// Disputes and resolves move funds between available and held, so they
/// keep the client's money; a chargeback keeps available funds, takes
/// exactly the disputed deposit's amount out of the client's money, and
/// locks the account.
pub proof fn lemma_dispute_actions_settle_totals(s: LedgerState, t: Transaction)
    requires
        s.valid(),
        step_is_exact(s, t),
        s.apply(t).1 is Ok,
        t.action is DisputeAction,
    ensures
        ({
            let before = s.account(t.client@);
            let after = s.apply(t).0.account(t.client@);
            match t.action {
                TransactionAction::DisputeAction(DisputeAction::Chargeback) => {
                    &&& after.available == before.available
                    &&& money(after) == money(before) - units(
                        movement_amount(s.history[t.tx@].movement)@,
                    )
                    &&& after.locked
                },
                _ => money(after) == money(before),
            }
        }),
{
    lemma_step_money(s, t);
}

/// When the sum of available and held funds is computed without rounding,
/// the account's total is exactly its money.
pub proof fn lemma_total_is_money(a: AccountState)
    requires
        a.valid(),
        add_is_exact(a.available, a.held),
    ensures
        a.total() matches Ok(t) && units(t) == money(a),
{
    lemma_balance_sum_exact(a.available, a.held);
}

/// The money that enters or leaves `client`'s account with `t`.
pub open spec fn client_flow(s: LedgerState, t: Transaction, client: u16) -> int {
    if t.client@ == client {
        flow(s, t)
    } else {
        0
    }
}

/// The money that entered minus the money that left `client`'s account over
/// `txs`.
pub open spec fn net_client_flow(s: LedgerState, txs: Seq<Transaction>, client: u16) -> int
    decreases txs.len(),
{
    if txs.len() == 0 {
        0
    } else {
        net_client_flow(s, txs.drop_last(), client) + client_flow(
            run(s, txs.drop_last()),
            txs.last(),
            client,
        )
    }
}

/// Money is conserved client by client: after any sequence of transactions,
/// a client's money is what it was, plus its deposits, minus its
/// withdrawals and chargebacks that were accepted.
pub proof fn lemma_client_money_conserved(s: LedgerState, txs: Seq<Transaction>, client: u16)
    requires
        s.valid(),
        replay_is_exact(s, txs),
    ensures
        money(run(s, txs).account(client)) == money(s.account(client)) + net_client_flow(
            s,
            txs,
            client,
        ),
    decreases txs.len(),
{
    if txs.len() > 0 {
        let prefix = txs.drop_last();
        let t = txs.last();
        let pre = run(s, prefix);
        lemma_replay_prefix(s, txs);
        lemma_client_money_conserved(s, prefix, client);
        lemma_money_conserved(s, prefix);
        if pre.apply(t).1 is Ok {
            if t.client@ == client {
                lemma_step_money(pre, t);
            } else {
                lemma_other_clients_untouched(pre, t, client);
            }
        }
    }
}

/// A recorded transaction stays recorded, for the same client and with the
/// same movement.
pub proof fn lemma_history_kept(s: LedgerState, t: Transaction, k: u32)
    requires
        s.history.contains_key(k),
    ensures
        s.apply(t).0.history.contains_key(k),
        s.apply(t).0.history[k].client == s.history[k].client,
        s.apply(t).0.history[k].movement == s.history[k].movement,
{
}

/// A deposit or withdrawal whose transaction id is already recorded is
/// refused as a duplicate, whichever client sends it, and changes nothing.
pub proof fn lemma_recorded_id_refused(s: LedgerState, t: Transaction)
    requires
        s.history.contains_key(t.tx@),
        t.action is Movement,
    ensures
        s.apply(t) == (s, Err::<(), LedgerError>(LedgerError::DuplicateTransaction(t.tx))),
{
}

/// The ledger after the first `i + 1` transactions is the one after the
/// first `i`, with the next transaction applied.
proof fn lemma_run_step(s: LedgerState, txs: Seq<Transaction>, i: int)
    requires
        0 <= i < txs.len(),
    ensures
        run(s, txs.take(i + 1)) == run(s, txs.take(i)).apply(txs[i]).0,
{
    let longer = txs.take(i + 1);
    assert(longer.drop_last() =~= txs.take(i));
    assert(longer.last() == txs[i]);
}

/// An id recorded after the first `j` transactions is still recorded after
/// all of them.
proof fn lemma_history_grows(s: LedgerState, txs: Seq<Transaction>, j: int, k: u32)
    requires
        0 <= j <= txs.len(),
        run(s, txs.take(j)).history.contains_key(k),
    ensures
        run(s, txs).history.contains_key(k),
    decreases txs.len(),
{
    if j == txs.len() {
        assert(txs.take(j) =~= txs);
    } else {
        let prefix = txs.drop_last();
        assert(prefix.take(j) =~= txs.take(j));
        lemma_history_grows(s, prefix, j, k);
        lemma_history_kept(run(s, prefix), txs.last(), k);
    }
}

/// A reused transaction id never overwrites history: once a deposit or
/// withdrawal with some id has been accepted, every later deposit or
/// withdrawal with that id, from any client, is refused and changes
/// nothing.
pub proof fn lemma_reused_id_refused(s: LedgerState, txs: Seq<Transaction>, i: int, t: Transaction)
    requires
        0 <= i < txs.len(),
        txs[i].action is Movement,
        run(s, txs.take(i)).apply(txs[i]).1 is Ok,
        t.tx == txs[i].tx,
        t.action is Movement,
    ensures
        run(s, txs).apply(t) == (run(s, txs), Err::<(), LedgerError>(
            LedgerError::DuplicateTransaction(t.tx),
        )),
{
    lemma_run_step(s, txs, i);
    lemma_history_grows(s, txs, i + 1, t.tx@);
    lemma_recorded_id_refused(run(s, txs), t);
}

/// `t` is accepted by the ledger `s`.
#[verifier::opaque]
pub open spec fn accepted(s: LedgerState, t: Transaction) -> bool {
    s.apply(t).1 is Ok
}

/// A transaction creates or keeps an account only for its own client, and
/// only when it is accepted.
pub proof fn lemma_account_created_only_on_success(s: LedgerState, t: Transaction, c: u16)
    ensures
        s.apply(t).0.accounts.contains_key(c) <==> (s.accounts.contains_key(c) || (t.client@ == c
            && accepted(s, t))),
{
    reveal(accepted);
}

/// After a sequence of transactions, a client has an account exactly when it
/// had one before or one of its own transactions was accepted; from an
/// empty ledger, exactly when one of its transactions was accepted.
pub proof fn lemma_account_exists_iff_accepted(s: LedgerState, txs: Seq<Transaction>, c: u16)
    ensures
        run(s, txs).accounts.contains_key(c) <==> (s.accounts.contains_key(c) || exists|i: int|
            0 <= i < txs.len() && (#[trigger] txs[i]).client@ == c && accepted(
                run(s, txs.take(i)),
                txs[i],
            )),
    decreases txs.len(),
{
    if txs.len() > 0 {
        let n = txs.len() - 1;
        let prefix = txs.drop_last();
        lemma_account_exists_iff_accepted(s, prefix, c);
        lemma_account_created_only_on_success(run(s, prefix), txs.last(), c);
        assert(txs.take(n) =~= prefix);
        assert(txs[n] == txs.last());
        assert forall|i: int| 0 <= i < prefix.len() implies #[trigger] prefix[i] == txs[i]
            && prefix.take(i) == txs.take(i) by {
            assert(prefix.take(i) =~= txs.take(i));
        }
        let pre = run(s, prefix);
        if run(s, txs).accounts.contains_key(c) && !s.accounts.contains_key(c) {
            if pre.accounts.contains_key(c) {
                let i = choose|i: int|
                    0 <= i < prefix.len() && (#[trigger] prefix[i]).client@ == c && accepted(
                        run(s, prefix.take(i)),
                        prefix[i],
                    );
                assert(prefix[i] == txs[i]);
                assert(txs[i].client@ == c && accepted(run(s, txs.take(i)), txs[i]));
            } else {
                assert(txs[n].client@ == c && accepted(run(s, txs.take(n)), txs[n]));
            }
        }
        if exists|i: int|
            0 <= i < txs.len() && (#[trigger] txs[i]).client@ == c && accepted(
                run(s, txs.take(i)),
                txs[i],
            ) {
            let i = choose|i: int|
                0 <= i < txs.len() && (#[trigger] txs[i]).client@ == c && accepted(
                    run(s, txs.take(i)),
                    txs[i],
                );
            if i < n {
                assert(prefix[i] == txs[i]);
                assert(prefix[i].client@ == c && accepted(run(s, prefix.take(i)), prefix[i]));
            }
        }
    }
}

/// Withdrawing the amount just deposited restores the account's funds, when
/// its available funds were not negative and neither sum is rounded.
pub proof fn lemma_withdraw_undoes_deposit(a: AccountState, x: Decimal)
    requires
        a.valid(),
        amount_valid(x),
        units(a.available) >= 0,
        a.deposit(x).1 is Ok,
        add_is_exact(a.available, x),
        sub_is_exact(a.deposit(x).0.available, x),
    ensures
        a.deposit(x).0.withdraw(x).1 is Ok,
        a.deposit(x).0.withdraw(x).0.available.value() == a.available.value(),
        a.deposit(x).0.withdraw(x).0.held == a.held,
        a.deposit(x).0.withdraw(x).0.locked == a.locked,
{
    let b = a.deposit(x).0;
    lemma_balance_sum_exact(a.available, x);
    lemma_value_order(b.available, x);
    lemma_amount_non_negative(x);
    lemma_balance_difference_exact(b.available, x);
    let c = b.withdraw(x).0;
    lemma_value_order(c.available, a.available);
}

/// Releasing the amount just held restores the account's funds, when none of
/// the four sums is rounded.
pub proof fn lemma_release_undoes_hold(a: AccountState, x: Decimal)
    requires
        a.valid(),
        amount_valid(x),
        a.hold(x).1 is Ok,
        sub_is_exact(a.available, x),
        add_is_exact(a.held, x),
        sub_is_exact(a.hold(x).0.held, x),
        add_is_exact(a.hold(x).0.available, x),
    ensures
        a.hold(x).0.release(x).1 is Ok,
        a.hold(x).0.release(x).0.available.value() == a.available.value(),
        a.hold(x).0.release(x).0.held.value() == a.held.value(),
        a.hold(x).0.release(x).0.locked == a.locked,
{
    let b = a.hold(x).0;
    lemma_balance_difference_exact(a.available, x);
    lemma_balance_sum_exact(a.held, x);
    lemma_balance_difference_exact(b.held, x);
    lemma_balance_sum_exact(b.available, x);
    let c = b.release(x).0;
    lemma_value_order(c.available, a.available);
    lemma_value_order(c.held, a.held);
}

/// A resolve right after a dispute of the same deposit restores the ledger:
/// the history is as before, the client's funds have their former values,
/// and every other account is untouched, when no sum is rounded.
pub proof fn lemma_resolve_undoes_dispute(s: LedgerState, client: ClientId, tx: TxId)
    requires
        s.valid(),
        s.apply(
            Transaction {
                client,
                tx,
                action: TransactionAction::DisputeAction(DisputeAction::Dispute),
            },
        ).1 is Ok,
        step_is_exact(
            s,
            Transaction {
                client,
                tx,
                action: TransactionAction::DisputeAction(DisputeAction::Dispute),
            },
        ),
        step_is_exact(
            s.apply(
                Transaction {
                    client,
                    tx,
                    action: TransactionAction::DisputeAction(DisputeAction::Dispute),
                },
            ).0,
            Transaction {
                client,
                tx,
                action: TransactionAction::DisputeAction(DisputeAction::Resolve),
            },
        ),
    ensures
        ({
            let disputed = s.apply(
                Transaction {
                    client,
                    tx,
                    action: TransactionAction::DisputeAction(DisputeAction::Dispute),
                },
            ).0;
            let (after, outcome) = disputed.apply(
                Transaction {
                    client,
                    tx,
                    action: TransactionAction::DisputeAction(DisputeAction::Resolve),
                },
            );
            &&& outcome is Ok
            &&& after.history == s.history
            &&& after.account(client@).available.value() == s.account(client@).available.value()
            &&& after.account(client@).held.value() == s.account(client@).held.value()
            &&& after.account(client@).locked == s.account(client@).locked
            &&& forall|c: u16| c != client@ ==> #[trigger] after.account(c) == s.account(c)
        }),
{
    let d = Transaction {
        client,
        tx,
        action: TransactionAction::DisputeAction(DisputeAction::Dispute),
    };
    let r = Transaction {
        client,
        tx,
        action: TransactionAction::DisputeAction(DisputeAction::Resolve),
    };
    let disputed = s.apply(d).0;
    let after = disputed.apply(r).0;
    let a = s.account(client@);
    let x = movement_amount(s.history[tx@].movement)@;
    lemma_account_valid(s, client@);
    lemma_release_undoes_hold(a, x);
    assert(after.history =~= s.history);
    assert forall|c: u16| c != client@ implies #[trigger] after.account(c) == s.account(c) by {
        lemma_other_clients_untouched(s, d, c);
        lemma_other_clients_untouched(disputed, r, c);
    }
}

/// The account that `s` keeps for client number `c`; a client without one
/// has nothing available, nothing held, and is not locked.
pub open spec fn account_in(s: LedgerState, c: u16) -> AccountState {
    if s.accounts.contains_key(c) {
        s.accounts[c]
    } else {
        AccountState {
            available: Decimal { negative: false, scale: 0, hi: 0, mid: 0, lo: 0 },
            held: Decimal { negative: false, scale: 0, hi: 0, mid: 0, lo: 0 },
            locked: false,
        }
    }
}

/// What the ledger knows of the client's account before a step, and the sums
/// and differences on it, agree with `rust_decimal`'s.
proof fn lemma_step_arithmetic(s: LedgerState, c: u16, x: Decimal)
    requires
        s.valid(),
        amount_valid(x),
    ensures
        account_in(s, c) == s.account(c),
        account_in(s, c).valid(),
        balance_sum(account_in(s, c).available, x) == decimal_sum(account_in(s, c).available, x),
        balance_difference(account_in(s, c).available, x) == decimal_difference(account_in(s, c).available, x),
        balance_sum(account_in(s, c).held, x) == decimal_sum(account_in(s, c).held, x),
        balance_difference(account_in(s, c).held, x) == decimal_difference(account_in(s, c).held, x),
{
    lemma_account_valid(s, c);
    lemma_results_are_decimal_results(s.account(c), x);
}

/// A deposit under a new transaction id is refused only when the account is
/// locked or the sum overflows. Otherwise it is accepted: it adds the amount
/// to available funds, leaves held funds and the lock as they were, and
/// records the deposit, undisputed. A refused deposit changes nothing.
pub proof fn lemma_deposit_outcome(s: LedgerState, client: ClientId, tx: TxId, amount: Amount)
    requires
        s.valid(),
        amount_valid(amount@),
        !s.history.contains_key(tx@),
    ensures
        ({
            let before = account_in(s, client@);
            let (after, outcome) = s.apply(
                Transaction {
                    client,
                    tx,
                    action: TransactionAction::Movement(Movement::Deposit(amount)),
                },
            );
            &&& outcome == (if before.locked {
                Err(LedgerError::Account(AccountError::Locked))
            } else if decimal_sum(before.available, amount@) is None {
                Err(LedgerError::Account(AccountError::Overflow))
            } else {
                Ok::<(), LedgerError>(())
            })
            &&& outcome is Err ==> after == s
            &&& outcome is Ok ==> (after.accounts.contains_key(client@) && Some(
                account_in(after, client@).available,
            ) == decimal_sum(before.available, amount@) && account_in(after, client@).held
                == before.held && !account_in(after, client@).locked && after.history
                == s.history.insert(
                tx@,
                TxRecord { client, movement: Movement::Deposit(amount), disputed: false },
            ))
        }),
{
    lemma_step_arithmetic(s, client@, amount@);
}

/// A withdrawal under a new transaction id is refused only when the account
/// is locked, its available funds do not cover the amount, or the difference
/// overflows. Otherwise it is accepted: it takes the amount from available
/// funds, leaves held funds and the lock as they were, and records the
/// withdrawal. A refused withdrawal changes nothing.
pub proof fn lemma_withdrawal_outcome(s: LedgerState, client: ClientId, tx: TxId, amount: Amount)
    requires
        s.valid(),
        amount_valid(amount@),
        !s.history.contains_key(tx@),
    ensures
        ({
            let before = account_in(s, client@);
            let (after, outcome) = s.apply(
                Transaction {
                    client,
                    tx,
                    action: TransactionAction::Movement(Movement::Withdrawal(amount)),
                },
            );
            &&& outcome == (if before.locked {
                Err(LedgerError::Account(AccountError::Locked))
            } else if before.available.value() < amount@.value() {
                Err(LedgerError::Account(AccountError::InsufficientFunds))
            } else if decimal_difference(before.available, amount@) is None {
                Err(LedgerError::Account(AccountError::Overflow))
            } else {
                Ok::<(), LedgerError>(())
            })
            &&& outcome is Err ==> after == s
            &&& outcome is Ok ==> (after.accounts.contains_key(client@) && Some(
                account_in(after, client@).available,
            ) == decimal_difference(before.available, amount@) && account_in(after, client@).held
                == before.held && !account_in(after, client@).locked && after.history
                == s.history.insert(
                tx@,
                TxRecord { client, movement: Movement::Withdrawal(amount), disputed: false },
            ))
        }),
{
    lemma_step_arithmetic(s, client@, amount@);
}

/// A dispute, resolve or chargeback is refused, and changes nothing, when
/// its transaction id is unknown, belongs to another client, or names a
/// withdrawal.
pub proof fn lemma_dispute_action_lookup(s: LedgerState, client: ClientId, tx: TxId, action: DisputeAction)
    ensures
        ({
            let (after, outcome) = s.apply(
                Transaction { client, tx, action: TransactionAction::DisputeAction(action) },
            );
            &&& !s.history.contains_key(tx@) ==> outcome == Err::<(), LedgerError>(
                LedgerError::UnknownTransaction(tx),
            )
            &&& s.history.contains_key(tx@) && s.history[tx@].client != client ==> outcome == Err::<
                (),
                LedgerError,
            >(LedgerError::ClientMismatch(tx))
            &&& s.history.contains_key(tx@) && s.history[tx@].client == client
                && s.history[tx@].movement is Withdrawal ==> outcome == Err::<(), LedgerError>(
                LedgerError::WithdrawalNotDisputable(tx),
            )
            &&& outcome is Err ==> after == s
        }),
{
}

/// A dispute of a deposit that the client made is refused when that deposit
/// is already disputed, when the account is locked, or when moving the
/// amount overflows. Otherwise it is accepted: it moves the deposit's amount
/// from available to held funds and marks the deposit disputed. A refused
/// dispute changes nothing.
pub proof fn lemma_dispute_outcome(s: LedgerState, client: ClientId, tx: TxId)
    requires
        s.valid(),
        s.history.contains_key(tx@),
        s.history[tx@].client == client,
        s.history[tx@].movement is Deposit,
    ensures
        ({
            let before = account_in(s, client@);
            let record = s.history[tx@];
            let x = movement_amount(record.movement)@;
            let (after, outcome) = s.apply(
                Transaction {
                    client,
                    tx,
                    action: TransactionAction::DisputeAction(DisputeAction::Dispute),
                },
            );
            &&& outcome == (if record.disputed {
                Err(LedgerError::AlreadyDisputed(tx))
            } else if before.locked {
                Err(LedgerError::Account(AccountError::Locked))
            } else if decimal_difference(before.available, x) is None || decimal_sum(
                before.held,
                x,
            ) is None {
                Err(LedgerError::Account(AccountError::Overflow))
            } else {
                Ok::<(), LedgerError>(())
            })
            &&& outcome is Err ==> after == s
            &&& outcome is Ok ==> (after.accounts.contains_key(client@) && Some(
                account_in(after, client@).available,
            ) == decimal_difference(before.available, x) && Some(account_in(after, client@).held)
                == decimal_sum(before.held, x) && !account_in(after, client@).locked
                && after.history == s.history.insert(tx@, TxRecord { disputed: true, ..record }))
        }),
{
    lemma_step_arithmetic(s, client@, movement_amount(s.history[tx@].movement)@);
}

/// A resolve of a deposit that the client made is refused when that deposit
/// is not under dispute, when the account is locked, or when moving the
/// amount overflows. Otherwise it is accepted: it moves the deposit's amount
/// from held back to available funds and marks the deposit undisputed. A
/// refused resolve changes nothing.
pub proof fn lemma_resolve_outcome(s: LedgerState, client: ClientId, tx: TxId)
    requires
        s.valid(),
        s.history.contains_key(tx@),
        s.history[tx@].client == client,
        s.history[tx@].movement is Deposit,
    ensures
        ({
            let before = account_in(s, client@);
            let record = s.history[tx@];
            let x = movement_amount(record.movement)@;
            let (after, outcome) = s.apply(
                Transaction {
                    client,
                    tx,
                    action: TransactionAction::DisputeAction(DisputeAction::Resolve),
                },
            );
            &&& outcome == (if !record.disputed {
                Err(LedgerError::NotDisputed(tx))
            } else if before.locked {
                Err(LedgerError::Account(AccountError::Locked))
            } else if decimal_difference(before.held, x) is None || decimal_sum(
                before.available,
                x,
            ) is None {
                Err(LedgerError::Account(AccountError::Overflow))
            } else {
                Ok::<(), LedgerError>(())
            })
            &&& outcome is Err ==> after == s
            &&& outcome is Ok ==> (after.accounts.contains_key(client@) && Some(
                account_in(after, client@).held,
            ) == decimal_difference(before.held, x) && Some(account_in(after, client@).available)
                == decimal_sum(before.available, x) && !account_in(after, client@).locked
                && after.history == s.history.insert(tx@, TxRecord { disputed: false, ..record }))
        }),
{
    lemma_step_arithmetic(s, client@, movement_amount(s.history[tx@].movement)@);
}

/// A chargeback of a deposit that the client made is refused when that
/// deposit is not under dispute, when the account is locked, or when taking
/// the amount from held funds overflows. Otherwise it is accepted: it takes
/// the deposit's amount out of held funds, leaves available funds as they
/// were, locks the account and marks the deposit undisputed. A refused
/// chargeback changes nothing.
pub proof fn lemma_chargeback_outcome(s: LedgerState, client: ClientId, tx: TxId)
    requires
        s.valid(),
        s.history.contains_key(tx@),
        s.history[tx@].client == client,
        s.history[tx@].movement is Deposit,
    ensures
        ({
            let before = account_in(s, client@);
            let record = s.history[tx@];
            let x = movement_amount(record.movement)@;
            let (after, outcome) = s.apply(
                Transaction {
                    client,
                    tx,
                    action: TransactionAction::DisputeAction(DisputeAction::Chargeback),
                },
            );
            &&& outcome == (if !record.disputed {
                Err(LedgerError::NotDisputed(tx))
            } else if before.locked {
                Err(LedgerError::Account(AccountError::Locked))
            } else if decimal_difference(before.held, x) is None {
                Err(LedgerError::Account(AccountError::Overflow))
            } else {
                Ok::<(), LedgerError>(())
            })
            &&& outcome is Err ==> after == s
            &&& outcome is Ok ==> (after.accounts.contains_key(client@) && Some(
                account_in(after, client@).held,
            ) == decimal_difference(before.held, x) && account_in(after, client@).available
                == before.available && account_in(after, client@).locked && after.history
                == s.history.insert(tx@, TxRecord { disputed: false, ..record }))
        }),
{
    lemma_step_arithmetic(s, client@, movement_amount(s.history[tx@].movement)@);
}

} // verus!
