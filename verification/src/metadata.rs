use vstd::prelude::*;

verus! {

/// Descriptive metadata of one basket token, carried as plain bytes. The
/// embedding program owns its serialized form; the core only stores it and
/// reads the name when deriving a new instance's account identity.
pub struct FungibleTokenMetadata {
    /// The token-standard version this metadata follows.
    pub spec_version: Vec<u8>,
    /// Human-readable token name.
    pub name: Vec<u8>,
    /// Token abbreviation.
    pub symbol: Vec<u8>,
    /// Optional icon data.
    pub icon: Option<Vec<u8>>,
    /// Optional link to supplementary off-chain details.
    pub reference: Option<Vec<u8>>,
    /// Optional hash guarding the referenced details against tampering.
    pub reference_hash: Option<Vec<u8>>,
    /// Significant digits shown by frontends.
    pub decimals: u8,
}

} // verus!
