//! Decisions of the pre-flight node wait and of the boot-time error
//! handling. The RPC calls themselves happen outside; these functions
//! judge what came back.

use vstd::prelude::*;

verus! {

/// Whether the node has caught up with the chain: either it reports the
/// regtest chain (which idles with the initial block download flag set) or
/// it is past initial block download, and its block index has reached its
/// header index.
pub fn node_synced(
    chain_is_regtest: bool,
    initial_block_download: bool,
    blocks: u64,
    headers: u64,
) -> (r: bool)
    ensures
        r == ((chain_is_regtest || !initial_block_download) && blocks >= headers),
{
    (chain_is_regtest || !initial_block_download) && blocks >= headers
}

/// What the node's wallet-scanning report means.
#[derive(Clone, Copy, Debug, PartialEq, Eq, Structural)]
pub enum ScanStatus {
    /// No scan is running; the indexer may start.
    NotScanning,
    /// The node does not report the field at all: too old to say. Proceed
    /// with a warning.
    Unsupported,
    /// A scan is running; keep waiting.
    Scanning,
    /// The field is present but has neither the `false` nor the progress
    /// shape: surface an error rather than wait forever.
    Malformed,
}

/// Classifies the `scanning` field of the node's wallet info: absent means
/// the node cannot say, `false` means no scan runs, a well-formed progress
/// report is a running scan, and anything else is malformed.
pub fn classify_scanning(field_present: bool, is_false: bool, well_formed: bool) -> (r: ScanStatus)
    ensures
        r == (if !field_present {
            ScanStatus::Unsupported
        } else if is_false {
            ScanStatus::NotScanning
        } else if well_formed {
            ScanStatus::Scanning
        } else {
            ScanStatus::Malformed
        }),
{
    if !field_present {
        ScanStatus::Unsupported
    } else if is_false {
        ScanStatus::NotScanning
    } else if well_formed {
        ScanStatus::Scanning
    } else {
        ScanStatus::Malformed
    }
}

/// Whether a `loadwallet` RPC error code means the wallet was already
/// loaded, which is no error at boot.
pub fn loadwallet_already_loaded(code: i64) -> (r: bool)
    ensures
        r == (code == -4),
{
    code == -4
}

/// Whether a `listlabels` RPC error code means the node does not support
/// the labels API; the caller surfaces an upgrade warning and fails.
pub fn labels_unsupported(code: i64) -> (r: bool)
    ensures
        r == (code == -32601),
{
    code == -32601
}

} // verus!
