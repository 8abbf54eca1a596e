//! Start-up services of the application.
use vstd::prelude::*;

verus! {

#[verifier::external_type_specification]
#[verifier::external_body]
pub struct ExAnyhowError(anyhow::Error);

/// Reloads the application's services; there is nothing to reload, so this
/// always succeeds.
pub fn refresh() -> (r: Result<(), anyhow::Error>)
    ensures
        r is Ok,
{
    Ok(())
}

} // verus!
