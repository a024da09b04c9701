use vstd::prelude::*;

verus! {

/// One balance mutation requested from the host: move `amount` from the
/// account at position `from` of the call's account list to the account
/// at position `to`. The processor only requests such moves; the host
/// performs them and may reject any one of them.
#[derive(Clone, Copy, Debug, PartialEq, Eq, Structural)]
pub struct TransferRequest {
    pub from: usize,
    pub to: usize,
    pub amount: u64,
}

/// Total value moved by a request list.
pub open spec fn sum_amounts(reqs: Seq<TransferRequest>) -> int
    decreases reqs.len(),
{
    if reqs.len() == 0 {
        0
    } else {
        sum_amounts(reqs.drop_last()) + reqs.last().amount
    }
}

} // verus!
