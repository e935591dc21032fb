//! The platform admin: one address of record, against which privileged
//! callers are checked.

use vstd::prelude::*;
use crate::errors::SwapTradeError;

verus! {

/// Whether `user` is the admin of record (there is none until one is set).
pub fn is_admin(admin_of_record: Option<u64>, user: u64) -> (r: bool)
    ensures
        r == (admin_of_record == Some(user)),
{
    match admin_of_record {
        Some(a) => a == user,
        None => false,
    }
}

/// `Ok` for the admin of record, `NotAdmin` for anyone else.
pub fn require_admin(admin_of_record: Option<u64>, caller: u64) -> (r: Result<(), SwapTradeError>)
    ensures
        admin_of_record == Some(caller) ==> r is Ok,
        admin_of_record != Some(caller) ==> r == Err::<(), SwapTradeError>(SwapTradeError::NotAdmin),
{
    if is_admin(admin_of_record, caller) {
        Ok(())
    } else {
        Err(SwapTradeError::NotAdmin)
    }
}

} // verus!
