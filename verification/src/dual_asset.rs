//! Which assets a refund vault holds.

use soroban_sdk::Address;
use vstd::prelude::*;

verus! {

/// The assets that a vault supports.
#[derive(Debug, PartialEq, Eq)]
pub enum AssetSupport {
    /// Native XLM only.
    Native,
    /// One SEP-41 token.
    Token(Address),
    /// Native XLM and a SEP-41 token.
    Dual(Address, Address),
}

impl Clone for AssetSupport {
    fn clone(&self) -> (r: Self)
        ensures
            r == *self,
    {
        match self {
            AssetSupport::Native => AssetSupport::Native,
            AssetSupport::Token(token) => AssetSupport::Token(token.clone()),
            AssetSupport::Dual(native, token) => AssetSupport::Dual(native.clone(), token.clone()),
        }
    }
}

/// Whether the vault holds two assets.
pub fn is_dual_asset_supported(asset: &AssetSupport) -> (r: bool)
    ensures
        r == (asset is Dual),
{
    matches!(asset, AssetSupport::Dual(_, _))
}

} // verus!
