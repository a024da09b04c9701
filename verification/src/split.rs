use vstd::prelude::*;

use crate::account::{models, Account, AccountModel};
use crate::codec::{decode_amount, le8};
use crate::error::InstructionError;
use crate::transfer::{sum_amounts, TransferRequest};

verus! {

/// Largest number of payee accounts a split call may carry.
pub const MAX_PAYEES: usize = 10;

/// Index of the payer account in a split call's account list.
pub const SPLIT_PAYER_INDEX: usize = 0;

/// Index of the well-known system account in a split call's account list.
pub const SPLIT_SYSTEM_INDEX: usize = 1;

/// Number of leading non-payee accounts of a split call: the payer and
/// the well-known system account. Payees follow from this position on.
pub const SPLIT_PAYEE_OFFSET: usize = 2;

/// The per-payee share: truncating integer division. The remainder
/// `amount - n * (amount / n)` is never transferred and stays with the
/// payer; this deliberate simplification is part of the contract.
pub open spec fn split_share(amount: u64, n: int) -> int
    recommends
        n >= 1,
{
    amount as int / n
}

/// The transfer requests of a successful split call over `n` payees:
/// one request per payee, in list order, each moving the same share from
/// the payer to the payee at position `i + 2` of the account list.
pub open spec fn split_requests(n: int, amount: u64) -> Seq<TransferRequest>
    recommends
        1 <= n <= 10,
{
    Seq::new(
        n as nat,
        |i: int|
            TransferRequest {
                from: 0,
                to: (i + 2) as usize,
                amount: split_share(amount, n) as u64,
            },
    )
}

/// The full decision of a split call, in pipeline order: decode the
/// payload, then validate the account roles, then build the transfer
/// requests. Each stage aborts the call with its typed failure:
/// - a payload shorter than eight bytes cannot be decoded;
/// - a missing payer or system account slot is an arity failure;
/// - the payer must have signed the call;
/// - the well-known system account must stand at its position exactly;
/// - the payee count `n = len - 2` must satisfy `1 <= n <= 10`, with the
///   same arity failure for "none" and for "too many".
pub open spec fn split_decision(
    accounts: Seq<AccountModel>,
    input: Seq<u8>,
    system_id: Seq<u8>,
) -> Result<Seq<TransferRequest>, InstructionError> {
    if input.len() < 8 {
        Err(InstructionError::InvalidInstructionData)
    } else if accounts.len() < 1 {
        Err(InstructionError::NotEnoughAccountKeys)
    } else if !accounts[0].is_signer {
        Err(InstructionError::MissingRequiredSignature)
    } else if accounts.len() < 2 {
        Err(InstructionError::NotEnoughAccountKeys)
    } else if accounts[1].key != system_id {
        Err(InstructionError::IncorrectProgramId)
    } else if accounts.len() < 3 || accounts.len() > 12 {
        Err(InstructionError::NotEnoughAccountKeys)
    } else {
        Ok(split_requests(accounts.len() - 2, (le8(input.subrange(0, 8))) as u64))
    }
}

/// Process a split instruction: decode the amount from the payload,
/// validate the ordered account list `[payer, system, payee_1 ..
/// payee_n]`, and return the requested transfers without mutating
/// anything. The host (see `ledger`) performs the requested moves.
pub fn process_instruction(
    accounts: &Vec<Account>,
    input: &Vec<u8>,
    system_id: &Vec<u8>,
) -> (r: Result<Vec<TransferRequest>, InstructionError>)
    ensures
        (match split_decision(models(accounts@), input@, system_id@) {
            Ok(reqs) => r matches Ok(v) && v@ == reqs,
            Err(e) => r matches Err(a) && a == e,
        }),
        input@.len() < 8 ==> r == Err::<Vec<TransferRequest>, InstructionError>(
            InstructionError::InvalidInstructionData,
        ),
        input@.len() >= 8 && accounts@.len() >= 1 && !accounts@[0].is_signer ==> r == Err::<
            Vec<TransferRequest>,
            InstructionError,
        >(InstructionError::MissingRequiredSignature),
        input@.len() >= 8 && accounts@.len() >= 2 && accounts@[0].is_signer && accounts@[1].key@
            != system_id@ ==> r == Err::<Vec<TransferRequest>, InstructionError>(
            InstructionError::IncorrectProgramId,
        ),
        input@.len() >= 8 && accounts@.len() >= 2 && accounts@[0].is_signer && accounts@[1].key@
            == system_id@ && (accounts@.len() == 2 || accounts@.len() > 12) ==> r == Err::<
            Vec<TransferRequest>,
            InstructionError,
        >(InstructionError::NotEnoughAccountKeys),
{
    let amount = match decode_amount(input) {
        Ok(a) => a,
        Err(e) => {
            return Err(e);
        },
    };
    if accounts.len() < 1 {
        return Err(InstructionError::NotEnoughAccountKeys);
    }
    if !accounts[0].is_signer {
        return Err(InstructionError::MissingRequiredSignature);
    }
    if accounts.len() < 2 {
        return Err(InstructionError::NotEnoughAccountKeys);
    }
    if !crate::account::keys_equal(&accounts[SPLIT_SYSTEM_INDEX].key, system_id) {
        return Err(InstructionError::IncorrectProgramId);
    }
    if accounts.len() < 3 || accounts.len() > SPLIT_PAYEE_OFFSET + MAX_PAYEES {
        return Err(InstructionError::NotEnoughAccountKeys);
    }
    let n: usize = accounts.len() - SPLIT_PAYEE_OFFSET;
    let share: u64 = amount / (n as u64);
    let ghost expected = split_requests(n as int, amount);
    let mut reqs: Vec<TransferRequest> = Vec::new();
    let mut i: usize = 0;
    while i < n
        invariant
            i <= n,
            1 <= n <= 10,
            share == split_share(amount, n as int),
            reqs@ == expected.subrange(0, i as int),
            expected == split_requests(n as int, amount),
        decreases n - i,
    {
        reqs.push(TransferRequest { from: SPLIT_PAYER_INDEX, to: SPLIT_PAYEE_OFFSET + i, amount: share });
        proof {
            assert(reqs@ =~= expected.subrange(0, i + 1));
        }
        i = i + 1;
    }
    proof {
        assert(reqs@ =~= expected);
    }
    Ok(reqs)
}

/// The truncated share is a value the balance type can hold: it is
/// non-negative and never larger than the amount itself.
pub proof fn lemma_share_fits(amount: u64, n: int)
    requires
        1 <= n,
    ensures
        0 <= split_share(amount, n) <= amount,
        split_share(amount, n) as u64 == split_share(amount, n),
{
    vstd::arithmetic::div_mod::lemma_div_pos_is_pos(amount as int, n);
    assert(amount as int / n <= amount) by (nonlinear_arith)
        requires
            n >= 1,
            amount >= 0,
    {
    }
}

/// The distribution law of a split over `n` payees: every request moves
/// exactly the truncated share from the payer, the total distributed is
/// `n * (amount / n)`, it never exceeds the amount, and the undistributed
/// remainder is smaller than `n` and is requested from no one.
pub proof fn lemma_split_distribution(n: int, amount: u64)
    requires
        1 <= n <= 10,
    ensures
        split_requests(n, amount).len() == n,
        forall|i: int| 0 <= i < n ==> (#[trigger] split_requests(n, amount)[i]) == (TransferRequest {
            from: 0,
            to: (i + 2) as usize,
            amount: split_share(amount, n) as u64,
        }),
        sum_amounts(split_requests(n, amount)) == n * split_share(amount, n),
        n * split_share(amount, n) <= amount,
        amount - n * split_share(amount, n) < n,
{
    lemma_sum_constant_requests(n, n, amount);
    assert(split_requests(n, amount).subrange(0, n) =~= split_requests(n, amount));
    vstd::arithmetic::div_mod::lemma_fundamental_div_mod(amount as int, n);
    vstd::arithmetic::div_mod::lemma_mod_bound(amount as int, n);
}

/// Sum of the first `k` requests of a split over `n` payees.
proof fn lemma_sum_constant_requests(k: int, n: int, amount: u64)
    requires
        1 <= n <= 10,
        0 <= k <= n,
    ensures
        sum_amounts(split_requests(n, amount).subrange(0, k)) == k * split_share(amount, n),
    decreases k,
{
    let reqs = split_requests(n, amount);
    if k == 0 {
        assert(reqs.subrange(0, 0).len() == 0);
    } else {
        lemma_sum_constant_requests(k - 1, n, amount);
        assert(reqs.subrange(0, k).drop_last() =~= reqs.subrange(0, k - 1));
        assert(reqs.subrange(0, k).last() == reqs[k - 1]);
        lemma_share_fits(amount, n);
        assert(k * split_share(amount, n) == (k - 1) * split_share(amount, n) + split_share(
            amount,
            n,
        )) by (nonlinear_arith) {
        }
    }
}

} // verus!
