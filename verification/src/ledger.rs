use vstd::prelude::*;
use crate::identity::Identity;

verus! {

/// What an operation reads of a host account handle, as plain values: the
/// slot's public-key identity, the owner identity, and the slot's bytes.
/// The host owns the handle itself; this module never retains one beyond a
/// call, and hands any new slot content back for the host to write.
#[derive(Clone, Debug)]
pub struct LedgerAccount {
    pub key: Identity,
    pub owner: Identity,
    pub data: Vec<u8>,
}

/// An account qualifies for batch recalculation when it is owned by this
/// module and its slot holds data.
pub open spec fn qualifies(program_id: Seq<u8>, account: LedgerAccount) -> bool {
    account.owner@ == program_id && account.data@.len() > 0
}

} // verus!
