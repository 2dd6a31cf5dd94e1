//! The descriptor engine boundary.
//!
//! A wallet is defined by an output descriptor. The library keeps the
//! descriptor as its canonical text and asks the engine (the `miniscript`
//! crate) for the facts the watcher logic needs: the canonical form with its
//! checksum, whether the descriptor is ranged, the BIP32 origins of its
//! keys, and the address at a derivation index.

use vstd::prelude::*;
use core::str::FromStr;
use miniscript::ForEachKey;
use miniscript::descriptor::Wildcard;
use miniscript::bitcoin::Network as EngineNetwork;
use crate::types::Network;
use crate::labels::valid_checksum_seq;

verus! {

/// The BIP32 provenance of one key: the master fingerprint and the
/// derivation path below it.
#[derive(Clone, Debug)]
pub struct Bip32Origin {
    pub fingerprint: u32,
    pub path: Vec<u32>,
}

impl Bip32Origin {
    /// The origin one unhardened step deeper.
    pub fn child(&self, index: u32) -> (r: Bip32Origin)
        ensures
            r.fingerprint == self.fingerprint,
            r.path@ == self.path@.push(index),
    {
        let mut path = self.path.clone();
        proof {
            assert(path@ =~= self.path@);
        }
        path.push(index);
        Bip32Origin { fingerprint: self.fingerprint, path }
    }

    /// A copy with the same fields.
    pub fn duplicate(&self) -> (r: Bip32Origin)
        ensures
            r.fingerprint == self.fingerprint,
            r.path@ == self.path@,
    {
        let path = self.path.clone();
        proof {
            assert(path@ =~= self.path@);
        }
        Bip32Origin { fingerprint: self.fingerprint, path }
    }
}

/// What the engine reports of one key of a descriptor.
#[derive(Clone, Debug)]
pub struct KeyInfo {
    pub origin: Bip32Origin,
    pub is_ranged: bool,
}

/// The engine's basic report on a descriptor string.
#[derive(Debug)]
pub struct DescBasic {
    pub canonical: String,
    pub is_ranged: bool,
}

/// The address the engine derives for a descriptor at an index, as text;
/// a function of the three arguments alone. `None` where the engine
/// rejects the descriptor or cannot produce an address at that index.
pub uninterp spec fn derived_address_of(desc: Seq<char>, network: Network, index: u32) -> Option<
    Seq<char>,
>;

/// The engine's report on a descriptor string — the canonical text and
/// whether the descriptor is ranged; a function of the text alone. `None`
/// where the engine rejects the string.
pub uninterp spec fn desc_report_of(s: Seq<char>) -> Option<(Seq<char>, bool)>;

/// Whether the engine parses the string and reports a single derivation
/// path for every key; a function of the text alone.
pub uninterp spec fn desc_keys_ok(s: Seq<char>) -> bool;

/// Whether the engine accepts the string and gives it an address
/// representation on the network; a function of the two alone.
pub uninterp spec fn desc_addressable_of(s: Seq<char>, network: Network) -> bool;

/// Relies on miniscript's `Descriptor::from_str` and `Display`: the result
/// is a function of the string alone, named `desc_report_of`; a parsed
/// descriptor prints in canonical form followed by `#` and an 8-character
/// checksum drawn from the bech32 character set (lowercase letters and
/// digits), and `has_wildcard` reports whether any key is ranged.
#[verifier::external_body]
fn desc_basic(s: &str) -> (r: Option<DescBasic>)
    ensures
        ({
            let d = desc_report_of(s@);
            match r {
                Some(m) => d == Some((m.canonical@, m.is_ranged)) && m.canonical@.len() >= 9
                    && m.canonical@[m.canonical@.len() - 9] == '#' && valid_checksum_seq(
                    m.canonical@.subrange(m.canonical@.len() - 8, m.canonical@.len() as int),
                ),
                None => d is None,
            }
        }),
{
    let d = miniscript::Descriptor::<miniscript::DescriptorPublicKey>::from_str(s).ok()?;
    Some(DescBasic { canonical: d.to_string(), is_ranged: d.has_wildcard() })
}

/// Relies on miniscript's `Descriptor::from_str` and
/// `DescriptorPublicKey::{master_fingerprint, full_derivation_path,
/// has_wildcard}`: success is a function of the string alone, named
/// `desc_keys_ok`. `None` where the descriptor does not parse or a key has
/// no single derivation path.
#[verifier::external_body]
fn desc_keys(s: &str) -> (r: Option<Vec<KeyInfo>>)
    ensures
        (r is Some) == desc_keys_ok(s@),
{
    let d = miniscript::Descriptor::<miniscript::DescriptorPublicKey>::from_str(s).ok()?;
    let mut keys: Vec<KeyInfo> = Vec::new();
    let mut complete = true;
    d.for_each_key(|k| match k.full_derivation_path() {
        Some(p) => {
            let fingerprint = u32::from_be_bytes(k.master_fingerprint().to_bytes());
            let path = p.into_iter().map(|c| u32::from(*c)).collect();
            keys.push(KeyInfo { origin: Bip32Origin { fingerprint, path }, is_ranged: k.has_wildcard() });
            true
        },
        None => { complete = false; true },
    });
    if complete { Some(keys) } else { None }
}

/// Relies on miniscript's `derived_descriptor` and `Descriptor::address`:
/// whether the descriptor parses, derives without private keys (no
/// hardened wildcard or derivation step, which would panic in the engine)
/// and has an address representation on the given network — a function of
/// the two arguments, named `desc_addressable_of`.
#[verifier::external_body]
pub(crate) fn desc_addressable(s: &str, network: Network) -> (r: bool)
    ensures
        r == desc_addressable_of(s@, network),
{
    let net = match network {
        Network::Mainnet => EngineNetwork::Bitcoin, Network::Testnet => EngineNetwork::Testnet,
        Network::Regtest => EngineNetwork::Regtest, Network::Signet => EngineNetwork::Signet,
    };
    let d = match miniscript::Descriptor::<miniscript::DescriptorPublicKey>::from_str(s) {
        Ok(d) => d, Err(_) => return false,
    };
    if d.for_any_key(|k| k.has_hardened_step()
        || matches!(k, miniscript::DescriptorPublicKey::XPub(x) if x.wildcard == Wildcard::Hardened))
    {
        return false;
    }
    let secp = miniscript::bitcoin::secp256k1::Secp256k1::verification_only();
    d.derived_descriptor(&secp, 0).map_or(false, |dd| dd.address(net).is_ok())
}

/// Relies on miniscript's `derived_descriptor` and `Descriptor::address`:
/// the derived address is a function of the descriptor text, the network
/// and the index alone, named `derived_address_of`. A descriptor with a
/// hardened wildcard or derivation step (which would panic in the engine)
/// derives nothing.
#[verifier::external_body]
pub(crate) fn desc_derive_address(s: &str, network: Network, index: u32) -> (r: Option<String>)
    requires
        index < 0x8000_0000,
    ensures
        ({
            let d = derived_address_of(s@, network, index);
            match r {
                Some(a) => d == Some(a@),
                None => d is None,
            }
        }),
{
    let net = match network {
        Network::Mainnet => EngineNetwork::Bitcoin, Network::Testnet => EngineNetwork::Testnet,
        Network::Regtest => EngineNetwork::Regtest, Network::Signet => EngineNetwork::Signet,
    };
    let d = miniscript::Descriptor::<miniscript::DescriptorPublicKey>::from_str(s).ok()?;
    if d.for_any_key(|k| k.has_hardened_step()
        || matches!(k, miniscript::DescriptorPublicKey::XPub(x) if x.wildcard == Wildcard::Hardened))
    {
        return None;
    }
    let secp = miniscript::bitcoin::secp256k1::Secp256k1::verification_only();
    let dd = d.derived_descriptor(&secp, index).ok()?;
    dd.address(net).ok().map(|a| a.to_string())
}

/// Inspects a descriptor string: canonical text, rangedness, keys.
pub(crate) fn inspect(s: &str) -> (r: Option<(DescBasic, Vec<KeyInfo>)>)
    ensures
        (r is Some) == (desc_report_of(s@) is Some && desc_keys_ok(s@)),
        r matches Some(m) ==> desc_report_of(s@) == Some((m.0.canonical@, m.0.is_ranged))
            && m.0.canonical@.len() >= 9 && m.0.canonical@[m.0.canonical@.len() - 9] == '#'
            && valid_checksum_seq(
            m.0.canonical@.subrange(m.0.canonical@.len() - 8, m.0.canonical@.len() as int),
        ),
{
    let basic = match desc_basic(s) {
        Some(b) => b,
        None => return None,
    };
    let keys = match desc_keys(s) {
        Some(k) => k,
        None => return None,
    };
    Some((basic, keys))
}

} // verus!
