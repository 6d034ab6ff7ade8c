//! What every code-forge provider offers.

use vstd::prelude::*;
use crate::types::ProviderCredentials;

verus! {

/// A code-forge provider: its name and the credentials it acts with.
pub trait Provider {
    fn name(&self) -> &str;

    fn get_credentials(&self) -> ProviderCredentials;
}

} // verus!
