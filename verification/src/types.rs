//! Plain value types shared across the library.

use vstd::prelude::*;

verus! {

/// The network a wallet's addresses belong to.
#[derive(Clone, Copy, Debug, PartialEq, Eq, Structural)]
pub enum Network {
    Mainnet,
    Testnet,
    Regtest,
    Signet,
}

/// A rescan-from marker handed to the node's import API: either rescan from
/// a unix timestamp, or treat the address as discovered just now (no rescan).
#[derive(Clone, Copy, Debug, PartialEq, Eq, Structural)]
pub enum RescanSince {
    Timestamp(u64),
    Now,
}

/// Errors surfaced by wallet construction and import planning.
#[derive(Clone, Copy, Debug, PartialEq, Eq, Structural)]
pub enum WalletError {
    /// The descriptor string was rejected by the descriptor engine.
    InvalidDescriptor,
    /// The descriptor has no address representation at the requested network.
    NoAddressRepresentation,
    /// The gap limit is zero or the effective lookahead exceeds the
    /// unhardened derivation index space.
    InvalidGapLimit,
    /// No descriptors, xpubs or bare xpubs were supplied.
    NoWallets,
    /// Two supplied descriptors share a checksum.
    ChecksumCollision,
    /// The descriptor engine failed to produce an address for an index that
    /// must be imported.
    DerivationFailed,
    /// A wallet's watch index left the unhardened derivation index space.
    IndexSpaceExhausted,
}

impl WalletError {
    /// A short human-readable description of the error.
    pub fn message(&self) -> (r: &'static str)
        ensures
            r@.len() > 0,
    {
        proof {
            reveal_strlit("invalid descriptor");
            reveal_strlit("descriptor does not have an address representation");
            reveal_strlit("invalid gap limit configuration");
            reveal_strlit("no descriptors, xpubs or bare xpubs provided");
            reveal_strlit("descriptor checksum collision detected");
            reveal_strlit("address derivation failed");
            reveal_strlit("derivation index space exhausted");
        }
        match self {
            WalletError::InvalidDescriptor => "invalid descriptor",
            WalletError::NoAddressRepresentation => "descriptor does not have an address representation",
            WalletError::InvalidGapLimit => "invalid gap limit configuration",
            WalletError::NoWallets => "no descriptors, xpubs or bare xpubs provided",
            WalletError::ChecksumCollision => "descriptor checksum collision detected",
            WalletError::DerivationFailed => "address derivation failed",
            WalletError::IndexSpaceExhausted => "derivation index space exhausted",
        }
    }
}

} // verus!
