use vstd::prelude::*;

use crate::account::{models, Account, AccountModel};
use crate::codec::{counter_bytes, decode_counter, encode_counter, le4};
use crate::error::InstructionError;
use crate::transfer::TransferRequest;

verus! {

/// The fixed fee of a greeting call: one ledger-native unit scaled to the
/// smallest denomination.
pub const GREETING_FEE: u64 = 1_000_000_000;

/// Index of the payer account in a greeting call's account list.
pub const GREETING_PAYER_INDEX: usize = 0;

/// Index of the fee receiver in a greeting call's account list.
pub const GREETING_RECEIVER_INDEX: usize = 1;

/// Index of the program-owned counter account in a greeting call's
/// account list.
pub const GREETING_TARGET_INDEX: usize = 2;

/// Index of the well-known system account in a greeting call's account
/// list.
pub const GREETING_SYSTEM_INDEX: usize = 3;

/// Everything a successful greeting call asks of the host: one fixed-fee
/// transfer from payer to receiver, and the re-serialized counter record
/// to write back into the target account's data buffer.
pub struct GreetingOutcome {
    pub transfer: TransferRequest,
    pub new_data: Vec<u8>,
    pub new_counter: u32,
}

/// The decision of a greeting call over the ordered account list
/// `[payer, receiver, target, system]`, in pipeline order. The payload
/// carries no information and is ignored entirely. On success the result
/// is the incremented counter value. Abort paths, in order:
/// - fewer than four accounts is an arity failure;
/// - the payer must have signed the call;
/// - the well-known system account must stand at its position exactly;
/// - the target's data must be owned by the executing program;
/// - the target's data must be exactly the four-byte counter record;
/// - a counter at the 32-bit maximum aborts instead of wrapping.
pub open spec fn greeting_decision(
    accounts: Seq<AccountModel>,
    program_id: Seq<u8>,
    system_id: Seq<u8>,
) -> Result<u32, InstructionError> {
    if accounts.len() < 4 {
        Err(InstructionError::NotEnoughAccountKeys)
    } else if !accounts[0].is_signer {
        Err(InstructionError::MissingRequiredSignature)
    } else if accounts[3].key != system_id {
        Err(InstructionError::IncorrectProgramId)
    } else if accounts[2].owner != program_id {
        Err(InstructionError::IncorrectProgramId)
    } else if accounts[2].data.len() != 4 {
        Err(InstructionError::StateDeserializationError)
    } else if le4(accounts[2].data) == u32::MAX {
        Err(InstructionError::CounterOverflow)
    } else {
        Ok((le4(accounts[2].data) + 1) as u32)
    }
}

/// Process a greeting instruction: validate the account list, read the
/// persisted counter from the target account, and return the fixed-fee
/// transfer request together with the incremented, re-serialized record.
/// Nothing is mutated here; the host (see `ledger`) performs the moves
/// and the write-back. A successful call increments the persisted
/// counter by exactly one.
pub fn process_greeting(
    accounts: &Vec<Account>,
    program_id: &Vec<u8>,
    system_id: &Vec<u8>,
) -> (r: Result<GreetingOutcome, InstructionError>)
    ensures
        (match greeting_decision(models(accounts@), program_id@, system_id@) {
            Ok(c) => r matches Ok(g) && g.new_counter == c && g.new_data@ == counter_bytes(c)
                && g.transfer == (TransferRequest { from: 0, to: 1, amount: GREETING_FEE }),
            Err(e) => r matches Err(a) && a == e,
        }),
        r is Ok ==> accounts@.len() >= 3 && accounts@[2].data@.len() == 4 && r.unwrap().new_counter
            == le4(accounts@[2].data@) + 1,
        accounts@.len() < 4 ==> (r matches Err(a) && a == InstructionError::NotEnoughAccountKeys),
        accounts@.len() >= 4 && !accounts@[0].is_signer ==> (r matches Err(a) && a
            == InstructionError::MissingRequiredSignature),
{
    if accounts.len() < 4 {
        return Err(InstructionError::NotEnoughAccountKeys);
    }
    if !accounts[GREETING_PAYER_INDEX].is_signer {
        return Err(InstructionError::MissingRequiredSignature);
    }
    if !crate::account::keys_equal(&accounts[GREETING_SYSTEM_INDEX].key, system_id) {
        return Err(InstructionError::IncorrectProgramId);
    }
    if !crate::account::keys_equal(&accounts[GREETING_TARGET_INDEX].owner, program_id) {
        return Err(InstructionError::IncorrectProgramId);
    }
    let counter = match decode_counter(&accounts[GREETING_TARGET_INDEX].data) {
        Ok(c) => c,
        Err(e) => {
            return Err(e);
        },
    };
    if counter == u32::MAX {
        return Err(InstructionError::CounterOverflow);
    }
    let new_counter = counter + 1;
    let new_data = encode_counter(new_counter);
    Ok(
        GreetingOutcome {
            transfer: TransferRequest {
                from: GREETING_PAYER_INDEX,
                to: GREETING_RECEIVER_INDEX,
                amount: GREETING_FEE,
            },
            new_data,
            new_counter,
        },
    )
}

} // verus!
