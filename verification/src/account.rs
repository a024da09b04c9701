use vstd::prelude::*;

verus! {

/// One ledger account as the host hands it to the processor for the
/// duration of a call: an identity, the identity of the program that owns
/// its data, a balance, a byte-addressable data buffer, and the two role
/// flags. The processor never creates or destroys accounts; it only reads
/// them and requests mutations of balance and data.
pub struct Account {
    /// Public identity of the account, as opaque bytes.
    pub key: Vec<u8>,
    /// Identity of the program allowed to mutate this account's data.
    pub owner: Vec<u8>,
    /// Balance in the smallest ledger denomination.
    pub lamports: u64,
    /// The persisted byte buffer of the account.
    pub data: Vec<u8>,
    /// True when the call was cryptographically authorized by this
    /// account's key holder; verified by the host, consumed as a flag.
    pub is_signer: bool,
    /// True when the host allows this account to be mutated in this call.
    pub is_writable: bool,
}

/// The mathematical model of an account: the same record over `Seq` and
/// plain values. All contracts speak of this model.
pub ghost struct AccountModel {
    pub key: Seq<u8>,
    pub owner: Seq<u8>,
    pub lamports: u64,
    pub data: Seq<u8>,
    pub is_signer: bool,
    pub is_writable: bool,
}

impl View for Account {
    type V = AccountModel;

    open spec fn view(&self) -> AccountModel {
        AccountModel {
            key: self.key@,
            owner: self.owner@,
            lamports: self.lamports,
            data: self.data@,
            is_signer: self.is_signer,
            is_writable: self.is_writable,
        }
    }
}

/// The model of a whole account list.
pub open spec fn models(s: Seq<Account>) -> Seq<AccountModel> {
    Seq::new(s.len(), |i: int| s[i]@)
}

/// Identity comparison for keys: two identities are the same exactly when
/// their bytes are.
pub fn keys_equal(a: &Vec<u8>, b: &Vec<u8>) -> (r: bool)
    ensures
        r == (a@ == b@),
{
    if a.len() != b.len() {
        return false;
    }
    let mut i: usize = 0;
    while i < a.len()
        invariant
            i <= a@.len(),
            a@.len() == b@.len(),
            forall|j: int| 0 <= j < i ==> a@[j] == b@[j],
        decreases a@.len() - i,
    {
        if a[i] != b[i] {
            return false;
        }
        i = i + 1;
    }
    proof {
        assert(a@ =~= b@);
    }
    true
}

} // verus!
