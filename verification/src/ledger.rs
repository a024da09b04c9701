use vstd::prelude::*;
use vstd::pervasive::VecAdditionalExecFns;

use crate::account::{models, Account, AccountModel};
use crate::codec::{counter_bytes, le4, lemma_counter_bytes_value};
use crate::error::InstructionError;
use crate::greeting::{greeting_decision, process_greeting, GREETING_TARGET_INDEX};
use crate::split::{
    lemma_share_fits, process_instruction, split_decision, split_requests, split_share,
};
use crate::transfer::TransferRequest;

verus! {

/// The balance column of an account list.
pub open spec fn balances(accounts: Seq<AccountModel>) -> Seq<u64> {
    Seq::new(accounts.len(), |i: int| accounts[i].lamports)
}

/// The same account with a different balance.
pub open spec fn with_lamports(m: AccountModel, l: u64) -> AccountModel {
    AccountModel {
        key: m.key,
        owner: m.owner,
        lamports: l,
        data: m.data,
        is_signer: m.is_signer,
        is_writable: m.is_writable,
    }
}

/// The same account with a different data buffer.
pub open spec fn with_data(m: AccountModel, d: Seq<u8>) -> AccountModel {
    AccountModel {
        key: m.key,
        owner: m.owner,
        lamports: m.lamports,
        data: d,
        is_signer: m.is_signer,
        is_writable: m.is_writable,
    }
}

/// An account list with its balance column replaced.
pub open spec fn set_balances(accounts: Seq<AccountModel>, l: Seq<u64>) -> Seq<AccountModel>
    recommends
        l.len() == accounts.len(),
{
    Seq::new(accounts.len(), |i: int| with_lamports(accounts[i], l[i]))
}

/// Whether the host accepts one transfer request against the given
/// balances: both positions exist and differ, the payer holds the
/// amount, and the credit does not overflow the balance type.
pub open spec fn transfer_ok(l: Seq<u64>, t: TransferRequest) -> bool {
    &&& (t.from as int) < l.len()
    &&& (t.to as int) < l.len()
    &&& t.from != t.to
    &&& t.amount <= l[t.from as int]
    &&& l[t.to as int] + t.amount <= u64::MAX
}

/// The balances after one accepted transfer: the amount leaves `from`
/// and arrives at `to`, every other balance is untouched.
pub open spec fn apply_transfer(l: Seq<u64>, t: TransferRequest) -> Seq<u64>
    recommends
        transfer_ok(l, t),
{
    l.update(t.from as int, (l[t.from as int] - t.amount) as u64).update(
        t.to as int,
        (l[t.to as int] + t.amount) as u64,
    )
}

/// The balances after a whole request list, applied in order, or `None`
/// as soon as the host rejects one request. `None` models the host's
/// all-or-nothing rollback: a rejected call commits nothing.
pub open spec fn apply_all(l: Seq<u64>, reqs: Seq<TransferRequest>) -> Option<Seq<u64>>
    decreases reqs.len(),
{
    if reqs.len() == 0 {
        Some(l)
    } else if transfer_ok(l, reqs[0]) {
        apply_all(apply_transfer(l, reqs[0]), reqs.subrange(1, reqs.len() as int))
    } else {
        None
    }
}

/// Replace the balance of the account at position `i`, leaving every
/// other account untouched.
fn set_account_lamports(accounts: &mut Vec<Account>, i: usize, l: u64)
    requires
        i < old(accounts)@.len(),
    ensures
        final(accounts)@.len() == old(accounts)@.len(),
        final(accounts)@[i as int]@ == with_lamports(old(accounts)@[i as int]@, l),
        forall|j: int|
            0 <= j < old(accounts)@.len() && j != i ==> final(accounts)@[j] == old(accounts)@[j],
{
    let mut acc = accounts.remove(i);
    acc.lamports = l;
    let ghost snap = acc;
    accounts.insert(i, acc);
    proof {
        assert(accounts@ =~= old(accounts)@.update(i as int, snap));
    }
}

/// Replace the data buffer of the account at position `i`, leaving every
/// other account untouched.
fn set_account_data(accounts: &mut Vec<Account>, i: usize, d: Vec<u8>)
    requires
        i < old(accounts)@.len(),
    ensures
        final(accounts)@.len() == old(accounts)@.len(),
        final(accounts)@[i as int]@ == with_data(old(accounts)@[i as int]@, d@),
        forall|j: int|
            0 <= j < old(accounts)@.len() && j != i ==> final(accounts)@[j] == old(accounts)@[j],
{
    let mut acc = accounts.remove(i);
    acc.data = d;
    let ghost snap = acc;
    accounts.insert(i, acc);
    proof {
        assert(accounts@ =~= old(accounts)@.update(i as int, snap));
    }
}

/// Perform a request list against the account list the way the host
/// does: accept or reject each request in order against the evolving
/// balances, and commit all balance changes only when every request was
/// accepted. When any request is rejected, nothing at all changes — the
/// host's atomic rollback.
pub fn execute_transfers(accounts: &mut Vec<Account>, reqs: &Vec<TransferRequest>) -> (r: bool)
    ensures
        r == (apply_all(balances(models(old(accounts)@)), reqs@) is Some),
        r ==> models(final(accounts)@) == set_balances(
            models(old(accounts)@),
            apply_all(balances(models(old(accounts)@)), reqs@).unwrap(),
        ),
        !r ==> final(accounts)@ == old(accounts)@,
        final(accounts)@.len() == old(accounts)@.len(),
{
    let ghost orig = balances(models(old(accounts)@));
    let mut bal: Vec<u64> = Vec::new();
    let mut i: usize = 0;
    while i < accounts.len()
        invariant
            accounts@ == old(accounts)@,
            i <= accounts@.len(),
            bal@.len() == i,
            forall|j: int| 0 <= j < i ==> bal@[j] == accounts@[j].lamports,
        decreases accounts@.len() - i,
    {
        bal.push(accounts[i].lamports);
        i = i + 1;
    }
    proof {
        assert(bal@ =~= orig);
        assert(reqs@.subrange(0, reqs@.len() as int) =~= reqs@);
    }
    let mut k: usize = 0;
    while k < reqs.len()
        invariant
            accounts@ == old(accounts)@,
            orig == balances(models(old(accounts)@)),
            k <= reqs@.len(),
            bal@.len() == orig.len(),
            apply_all(orig, reqs@) == apply_all(bal@, reqs@.subrange(k as int, reqs@.len() as int)),
        decreases reqs@.len() - k,
    {
        let ghost pending = reqs@.subrange(k as int, reqs@.len() as int);
        proof {
            assert(pending[0] == reqs@[k as int]);
            assert(pending.subrange(1, pending.len() as int) =~= reqs@.subrange(
                k as int + 1,
                reqs@.len() as int,
            ));
        }
        let t = reqs[k];
        if !(t.from < bal.len() && t.to < bal.len() && t.from != t.to) {
            proof {
                assert(!transfer_ok(bal@, pending[0]));
                assert(apply_all(bal@, pending) is None);
            }
            return false;
        }
        let from_bal = bal[t.from];
        let to_bal = bal[t.to];
        if t.amount > from_bal || to_bal > u64::MAX - t.amount {
            proof {
                assert(!transfer_ok(bal@, pending[0]));
                assert(apply_all(bal@, pending) is None);
            }
            return false;
        }
        bal.set(t.from, from_bal - t.amount);
        bal.set(t.to, to_bal + t.amount);
        k = k + 1;
    }
    proof {
        assert(reqs@.subrange(k as int, reqs@.len() as int) =~= Seq::<TransferRequest>::empty());
        assert(apply_all(orig, reqs@) == Some(bal@));
    }
    let mut j: usize = 0;
    while j < accounts.len()
        invariant
            accounts@.len() == old(accounts)@.len(),
            j <= accounts@.len(),
            bal@.len() == accounts@.len(),
            forall|t: int|
                0 <= t < j ==> accounts@[t]@ == with_lamports(old(accounts)@[t]@, bal@[t]),
            forall|t: int| j <= t < accounts@.len() ==> accounts@[t] == old(accounts)@[t],
        decreases accounts@.len() - j,
    {
        let nl = bal[j];
        set_account_lamports(accounts, j, nl);
        j = j + 1;
    }
    proof {
        assert(models(accounts@) =~= set_balances(models(old(accounts)@), bal@));
    }
    true
}

/// The whole split call as one state transition: the split decision,
/// then the host's verdict on each requested transfer. On success the
/// new state differs from the old only in the balance column.
pub open spec fn split_step(
    state: Seq<AccountModel>,
    input: Seq<u8>,
    system_id: Seq<u8>,
) -> Result<Seq<AccountModel>, InstructionError> {
    match split_decision(state, input, system_id) {
        Err(e) => Err(e),
        Ok(reqs) => match apply_all(balances(state), reqs) {
            None => Err(InstructionError::TransferRejected),
            Some(nb) => Ok(set_balances(state, nb)),
        },
    }
}

/// Run a split call to completion against the host model: decode,
/// validate, request the transfers, and let the host commit them
/// atomically. Any failure leaves every account exactly as it was.
pub fn run_split(accounts: &mut Vec<Account>, input: &Vec<u8>, system_id: &Vec<u8>) -> (r: Result<
    (),
    InstructionError,
>)
    ensures
        (match split_step(models(old(accounts)@), input@, system_id@) {
            Ok(st) => r is Ok && models(final(accounts)@) == st,
            Err(e) => (r matches Err(a) && a == e) && final(accounts)@ == old(accounts)@,
        }),
{
    let reqs = match process_instruction(&*accounts, input, system_id) {
        Ok(v) => v,
        Err(e) => {
            return Err(e);
        },
    };
    if execute_transfers(accounts, &reqs) {
        Ok(())
    } else {
        Err(InstructionError::TransferRejected)
    }
}

/// The whole greeting call as one state transition: the greeting
/// decision, then the host's verdict on the single fixed-fee transfer,
/// then the write-back of the incremented counter record into the
/// target account's data buffer.
pub open spec fn greeting_step(
    state: Seq<AccountModel>,
    program_id: Seq<u8>,
    system_id: Seq<u8>,
) -> Result<Seq<AccountModel>, InstructionError> {
    match greeting_decision(state, program_id, system_id) {
        Err(e) => Err(e),
        Ok(c) => match apply_all(
            balances(state),
            seq![TransferRequest { from: 0, to: 1, amount: crate::greeting::GREETING_FEE }],
        ) {
            None => Err(InstructionError::TransferRejected),
            Some(nb) => {
                let paid = set_balances(state, nb);
                Ok(paid.update(2, with_data(paid[2], counter_bytes(c))))
            },
        },
    }
}

/// Run a greeting call to completion against the host model: validate,
/// pay the fixed fee from payer to receiver, and persist the counter
/// incremented by exactly one. The new counter value is returned. Any
/// failure leaves every account exactly as it was.
pub fn run_greeting(accounts: &mut Vec<Account>, program_id: &Vec<u8>, system_id: &Vec<u8>) -> (r:
    Result<u32, InstructionError>)
    ensures
        (match greeting_step(models(old(accounts)@), program_id@, system_id@) {
            Ok(st) => r is Ok && models(final(accounts)@) == st,
            Err(e) => (r matches Err(a) && a == e) && final(accounts)@ == old(accounts)@,
        }),
        (match greeting_decision(models(old(accounts)@), program_id@, system_id@) {
            Ok(c) => r is Ok ==> r == Ok::<u32, InstructionError>(c),
            Err(e) => true,
        }),
{
    let g = match process_greeting(&*accounts, program_id, system_id) {
        Ok(g) => g,
        Err(e) => {
            return Err(e);
        },
    };
    let mut reqs: Vec<TransferRequest> = Vec::new();
    reqs.push(g.transfer);
    proof {
        assert(reqs@ =~= seq![
            TransferRequest { from: 0, to: 1, amount: crate::greeting::GREETING_FEE },
        ]);
    }
    if !execute_transfers(accounts, &reqs) {
        return Err(InstructionError::TransferRejected);
    }
    let ghost paid = models(accounts@);
    set_account_data(accounts, GREETING_TARGET_INDEX, g.new_data);
    proof {
        assert(models(accounts@) =~= paid.update(2, with_data(paid[2], counter_bytes(g.new_counter))));
    }
    Ok(g.new_counter)
}

/// What a suffix of the split request list does to the balances: the
/// remaining payees each receive the share, the payer is debited once
/// per remaining payee, and nobody else is touched.
proof fn lemma_split_balances_suffix(l: Seq<u64>, n: int, amount: u64, k: int)
    requires
        1 <= n <= 10,
        0 <= k <= n,
        l.len() == n + 2,
        apply_all(l, split_requests(n, amount).subrange(k, n)) is Some,
    ensures
        ({
            let nl = apply_all(l, split_requests(n, amount).subrange(k, n)).unwrap();
            &&& nl.len() == l.len()
            &&& nl[0] == l[0] - (n - k) * split_share(amount, n)
            &&& forall|i: int| 0 < i < k + 2 ==> nl[i] == l[i]
            &&& forall|i: int| k + 2 <= i < n + 2 ==> nl[i] == l[i] + split_share(amount, n)
        }),
    decreases n - k,
{
    lemma_share_fits(amount, n);
    let share = split_share(amount, n);
    let reqs = split_requests(n, amount).subrange(k, n);
    if k == n {
        assert(reqs.len() == 0);
        assert((n - k) * share == 0) by (nonlinear_arith)
            requires
                n == k,
        {
        }
    } else {
        let t = split_requests(n, amount)[k];
        assert(reqs[0] == t);
        assert(t.from == 0 && t.to == k + 2 && t.amount == share);
        assert(transfer_ok(l, t));
        let l2 = apply_transfer(l, t);
        assert(reqs.subrange(1, reqs.len() as int) =~= split_requests(n, amount).subrange(
            k + 1,
            n,
        ));
        assert(apply_all(l, reqs) == apply_all(l2, split_requests(n, amount).subrange(k + 1, n)));
        lemma_split_balances_suffix(l2, n, amount, k + 1);
        let nl = apply_all(l, reqs).unwrap();
        assert(l2[0] == l[0] - share);
        assert(l2[k + 2] == l[k + 2] + share);
        assert(nl[0] == l2[0] - (n - k - 1) * share);
        assert((n - k) * share == share + (n - k - 1) * share) by (nonlinear_arith)
            requires
                k < n,
        {
        }
        assert(nl[k + 2] == l2[k + 2]);
    }
}

/// The balance law of a split call: when the host accepts the whole
/// request list of a split of `amount` over `n` payees, each payee's
/// balance grows by exactly the truncated share, the payer's balance
/// shrinks by `n` shares — never more than the amount — and the system
/// account's balance does not move. The remainder of the truncating
/// division stays with the payer.
pub proof fn lemma_split_balances(l: Seq<u64>, n: int, amount: u64)
    requires
        1 <= n <= 10,
        l.len() == n + 2,
        apply_all(l, split_requests(n, amount)) is Some,
    ensures
        ({
            let nl = apply_all(l, split_requests(n, amount)).unwrap();
            &&& nl.len() == l.len()
            &&& nl[0] == l[0] - n * split_share(amount, n)
            &&& l[0] - nl[0] <= amount
            &&& nl[1] == l[1]
            &&& forall|i: int| 2 <= i < n + 2 ==> nl[i] == l[i] + split_share(amount, n)
        }),
{
    assert(split_requests(n, amount).subrange(0, n) =~= split_requests(n, amount));
    lemma_split_balances_suffix(l, n, amount, 0);
    vstd::arithmetic::div_mod::lemma_fundamental_div_mod(amount as int, n);
    vstd::arithmetic::div_mod::lemma_mod_bound(amount as int, n);
}

/// `k` greeting calls in sequence, each one run on the state the
/// previous call left behind.
pub open spec fn greet_iter(
    state: Seq<AccountModel>,
    program_id: Seq<u8>,
    system_id: Seq<u8>,
    k: nat,
) -> Result<Seq<AccountModel>, InstructionError>
    decreases k,
{
    if k == 0 {
        Ok(state)
    } else {
        match greet_iter(state, program_id, system_id, (k - 1) as nat) {
            Err(e) => Err(e),
            Ok(s) => greeting_step(s, program_id, system_id),
        }
    }
}

/// What one successful greeting call does to the state: the counter
/// record grows by one, the fee moves from payer to receiver, the
/// counter account changes in nothing but its data bytes, and every
/// account past the fourth is untouched.
#[verifier::rlimit(100)]
#[verifier::spinoff_prover]
pub proof fn lemma_greeting_step(state: Seq<AccountModel>, program_id: Seq<u8>, system_id: Seq<u8>)
    requires
        greeting_step(state, program_id, system_id) is Ok,
    ensures
        ({
            let s = greeting_step(state, program_id, system_id).unwrap();
            &&& state.len() >= 4
            &&& state[2].data.len() == 4
            &&& s.len() == state.len()
            &&& s[2].data.len() == 4
            &&& le4(s[2].data) == le4(state[2].data) + 1
            &&& s[0].lamports == state[0].lamports - crate::greeting::GREETING_FEE
            &&& s[1].lamports == state[1].lamports + crate::greeting::GREETING_FEE
            &&& s[2] == with_data(state[2], s[2].data)
            &&& forall|i: int| 3 <= i < state.len() ==> s[i] == state[i]
        }),
{
    reveal_with_fuel(apply_all, 3);
    let fee = crate::greeting::GREETING_FEE;
    let step = greeting_step(state, program_id, system_id);
    let d = greeting_decision(state, program_id, system_id);
    assert(d is Ok);
    let c = d.unwrap();
    assert(0 <= le4(state[2].data));
    assert(c == le4(state[2].data) + 1);
    let t = TransferRequest { from: 0, to: 1, amount: fee };
    let bal = balances(state);
    assert(seq![t].subrange(1, 1) =~= Seq::<TransferRequest>::empty());
    assert(seq![t][0] == t);
    assert(apply_all(bal, seq![t]) is Some);
    assert(transfer_ok(bal, t));
    let nb = apply_transfer(bal, t);
    assert(apply_all(bal, seq![t]) == Some(nb));
    let paid = set_balances(state, nb);
    let s = step.unwrap();
    assert(s == paid.update(2, with_data(paid[2], counter_bytes(c))));
    lemma_counter_bytes_value(c);
    assert(paid[2] == with_lamports(state[2], nb[2]));
    assert(nb[2] == bal[2]);
    assert(paid[2] == state[2]);
    assert(s[0] == with_lamports(state[0], nb[0]));
    assert(nb[0] == bal[0] - fee);
    assert(nb[1] == bal[1] + fee);
    assert(forall|i: int|
        3 <= i < state.len() ==> nb[i] == bal[i] && #[trigger] s[i] == with_lamports(
            state[i],
            nb[i],
        ) && s[i] == state[i]);
}

/// The sequence law of the greeting variant: after `k` successful calls
/// the persisted counter has grown by exactly `k` — from a zeroed record
/// it reads `k` — the payer has paid the fixed fee `k` times, the
/// receiver has received it `k` times, and no other account changed in
/// any way; the counter account changed only in its data bytes.
pub proof fn lemma_greeting_sequence(
    state: Seq<AccountModel>,
    program_id: Seq<u8>,
    system_id: Seq<u8>,
    k: nat,
)
    requires
        state.len() >= 4,
        state[2].data.len() == 4,
        greet_iter(state, program_id, system_id, k) is Ok,
    ensures
        ({
            let s = greet_iter(state, program_id, system_id, k).unwrap();
            &&& s.len() == state.len()
            &&& s[2].data.len() == 4
            &&& le4(s[2].data) == le4(state[2].data) + k
            &&& s[0].lamports == state[0].lamports - k * (crate::greeting::GREETING_FEE as int)
            &&& s[1].lamports == state[1].lamports + k * (crate::greeting::GREETING_FEE as int)
            &&& s[2] == with_data(state[2], s[2].data)
            &&& forall|i: int| 3 <= i < state.len() ==> s[i] == state[i]
        }),
    decreases k,
{
    let fee = crate::greeting::GREETING_FEE;
    if k == 0 {
        assert(k * (fee as int) == 0) by (nonlinear_arith)
            requires
                k == 0,
        {
        }
    } else {
        let prev = greet_iter(state, program_id, system_id, (k - 1) as nat);
        assert(prev is Ok);
        lemma_greeting_sequence(state, program_id, system_id, (k - 1) as nat);
        let ps = prev.unwrap();
        assert(greet_iter(state, program_id, system_id, k) == greeting_step(
            ps,
            program_id,
            system_id,
        ));
        lemma_greeting_step(ps, program_id, system_id);
        let s = greeting_step(ps, program_id, system_id).unwrap();
        assert(k * (fee as int) == (k - 1) * (fee as int) + fee) by (nonlinear_arith)
            requires
                k >= 1,
        {
        }
        assert(s[2] == with_data(state[2], s[2].data));
    }
}

} // verus!
