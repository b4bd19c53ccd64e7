//! Who may administer the engine.

use vstd::prelude::*;
use crate::types::Principal;
use crate::{Data, State};

verus! {

/// Admits `caller` if it is one of the administrators, and says why not otherwise.
pub fn check_admin(caller: &Principal, data: &Data) -> (verdict: Result<(), String>)
    ensures
        verdict is Ok <==> data@.admins.contains(*caller),
        verdict matches Err(message) ==> message@ == "Caller is not an admin"@,
{
    if data.is_admin(caller) {
        Ok(())
    } else {
        Err("Caller is not an admin".to_string())
    }
}

/// Admits the caller that the environment reports if it is one of the
/// administrators. Who calls is the environment's to say, so all that holds
/// of every caller is stated: nobody is admitted while there is no
/// administrator, and a refusal carries its reason.
pub fn caller_is_admin(state: &State) -> (verdict: Result<(), String>)
    ensures
        verdict is Ok ==> exists|caller: Principal| state.data@.admins.contains(caller),
        verdict matches Err(message) ==> message@ == "Caller is not an admin"@,
{
    let caller = state.env.caller();
    check_admin(&caller, &state.data)
}

} // verus!
