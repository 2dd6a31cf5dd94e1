use core::str::FromStr;

use bwt::types::{Network, RescanSince, WalletError};
use bwt::wallet::Wallet;
use bwt::xpub::{ScriptType, XyzPubKey};

// BIP32 test vector 1, master public key.
const XPUB: &str = "xpub661MyMwAqRbcFtXgS5sYJABqqG9YLmC4Q1Rdap9gSE8NqtwybGhePY2gZ29ESFjqJoCu1Rupje8YtGqsefD265TMg7usUDFdp6W1EGMcet8";

fn ranged_desc() -> String {
    format!("wpkh({}/*)", XPUB)
}

fn make_ranged(gap_limit: u32, initial_import_size: u32) -> Wallet {
    Wallet::from_descriptor(
        ranged_desc(),
        Network::Mainnet,
        gap_limit,
        initial_import_size,
        RescanSince::Timestamp(0),
    )
    .expect("valid descriptor")
}

#[test]
fn ranged_wallet_construction() {
    let w = make_ranged(5, 10);
    assert!(w.is_ranged);
    assert_eq!(w.gap_limit, 5);
    assert_eq!(w.initial_import_size, 10);
    assert_eq!(w.max_funded_index, None);
    assert_eq!(w.max_imported_index, None);
    assert!(!w.done_initial_import);
    assert_eq!(w.checksum.as_str().len(), 8);
    assert!(w.desc.ends_with(w.checksum.as_str()));
}

#[test]
fn initial_import_size_is_raised_to_gap_limit() {
    let w = make_ranged(20, 10);
    assert_eq!(w.initial_import_size, 20);
    let w = make_ranged(20, 30);
    assert_eq!(w.initial_import_size, 30);
}

#[test]
fn zero_gap_limit_is_rejected() {
    let r = Wallet::from_descriptor(
        ranged_desc(),
        Network::Mainnet,
        0,
        10,
        RescanSince::Now,
    );
    assert_eq!(r.unwrap_err(), WalletError::InvalidGapLimit);
}

#[test]
fn unparseable_descriptor_is_rejected() {
    let r = Wallet::from_descriptor(
        "nonsense".to_owned(),
        Network::Mainnet,
        5,
        10,
        RescanSince::Now,
    );
    assert_eq!(r.unwrap_err(), WalletError::InvalidDescriptor);
}

#[test]
fn hardened_derivation_descriptors_are_rejected() {
    // These parse, but deriving them would need private keys; they must be
    // rejected cleanly, never aborting.
    for desc in [
        format!("wpkh({}/*h)", XPUB),
        format!("wpkh({}/0h/*)", XPUB),
        format!("pkh({}/0'/*)", XPUB),
    ] {
        let r = Wallet::from_descriptor(desc.clone(), Network::Mainnet, 5, 10, RescanSince::Now);
        assert_eq!(r.unwrap_err(), WalletError::NoAddressRepresentation, "desc {:?}", desc);
    }
}

#[test]
fn descriptor_without_address_form_is_rejected() {
    let desc = format!("pk({}/*)", XPUB);
    let r = Wallet::from_descriptor(desc, Network::Mainnet, 5, 10, RescanSince::Now);
    assert_eq!(r.unwrap_err(), WalletError::NoAddressRepresentation);
}

#[test]
fn ranged_wallet_index_validity() {
    let w = make_ranged(5, 10);
    assert!(w.is_valid_index(0));
    assert!(w.is_valid_index(3));
    assert!(w.is_valid_index(0x7FFF_FFFF));
    assert!(!w.is_valid_index(0x8000_0000));
    assert!(!w.is_valid_index(u32::MAX));
}

#[test]
fn non_ranged_wallet_index_validity_and_watch() {
    let desc = format!("wpkh({})", XPUB);
    let w = Wallet::from_descriptor(desc, Network::Mainnet, 5, 10, RescanSince::Now)
        .expect("valid descriptor");
    assert!(!w.is_ranged);
    assert!(w.is_valid_index(0));
    assert!(!w.is_valid_index(1));
    assert_eq!(w.watch_index(), 0);
    assert_eq!(w.get_next_index(), 0);
}

#[test]
fn fresh_ranged_watch_index_is_initial_window() {
    let w = make_ranged(5, 10);
    assert_eq!(w.watch_index(), 9);
}

#[test]
fn derive_address_is_deterministic_and_index_sensitive() {
    let w = make_ranged(5, 10);
    let a0 = w.derive_address(0).expect("derivable");
    let a0_again = w.derive_address(0).expect("derivable");
    let a1 = w.derive_address(1).expect("derivable");
    assert_eq!(a0, a0_again);
    assert_ne!(a0, a1);
    assert!(a0.starts_with("bc1"));
}

#[test]
fn derive_address_matches_descriptor_engine() {
    let w = make_ranged(5, 10);
    let secp = miniscript::bitcoin::secp256k1::Secp256k1::verification_only();
    let d = miniscript::Descriptor::<miniscript::DescriptorPublicKey>::from_str(&ranged_desc())
        .expect("valid descriptor");
    for index in [0u32, 1, 7] {
        let expected = d
            .derived_descriptor(&secp, index)
            .expect("derivable")
            .address(miniscript::bitcoin::Network::Bitcoin)
            .expect("addressable")
            .to_string();
        assert_eq!(w.derive_address(index).expect("derivable"), expected);
    }
}

#[test]
fn xpub_expands_to_external_and_change_chains() {
    let x = XyzPubKey::parse(XPUB).expect("valid xpub");
    assert_eq!(x.script_type, ScriptType::P2pkh);
    assert_eq!(x.xpub, XPUB);
    let wallets =
        Wallet::from_xpub(&x, Network::Mainnet, 5, 10, RescanSince::Now).expect("valid xpub");
    assert_eq!(wallets.len(), 2);
    assert_ne!(wallets[0].checksum.as_str(), wallets[1].checksum.as_str());
    assert!(wallets[0].desc.contains("/0/*"));
    assert!(wallets[1].desc.contains("/1/*"));
}

#[test]
fn general_path_agrees_with_xpub_built_descriptor() {
    // The fast single-xpub form and the general descriptor engine must
    // produce byte-identical addresses for the same wallet and index.
    let x = XyzPubKey::parse(XPUB).expect("valid xpub");
    let from_xpub =
        Wallet::from_xpub(&x, Network::Mainnet, 5, 10, RescanSince::Now).expect("valid xpub");
    let desc = format!("pkh({}/0/*)", XPUB);
    let from_desc = Wallet::from_descriptor(desc, Network::Mainnet, 5, 10, RescanSince::Now)
        .expect("valid descriptor");
    assert_eq!(from_xpub[0].checksum.as_str(), from_desc.checksum.as_str());
    for index in [0u32, 2, 9] {
        assert_eq!(
            from_xpub[0].derive_address(index).expect("derivable"),
            from_desc.derive_address(index).expect("derivable")
        );
    }
}

#[test]
fn bare_xpub_expands_to_single_chain() {
    let x = XyzPubKey::parse(XPUB).expect("valid xpub");
    let w = Wallet::from_bare_xpub(&x, Network::Mainnet, 5, 10, RescanSince::Now)
        .expect("valid xpub");
    assert!(w.is_ranged);
    assert!(w.desc.starts_with("pkh("));
    assert!(w.desc.contains("/*"));
    assert!(!w.desc.contains("/0/*"));
}

#[test]
fn as_descriptor_builds_expected_text() {
    let x = XyzPubKey::parse(XPUB).expect("valid xpub");
    assert_eq!(x.as_descriptor(&vec![]), format!("pkh({}/*)", XPUB));
    assert_eq!(x.as_descriptor(&vec![0]), format!("pkh({}/0/*)", XPUB));
    assert_eq!(x.as_descriptor(&vec![1, 44]), format!("pkh({}/1/44/*)", XPUB));
}

#[test]
fn slip132_prefixes_select_script_type_and_normalize() {
    // Re-encode the known xpub under the ypub and zpub version prefixes;
    // parsing must recover the script type and normalize back to the very
    // same xpub text.
    let payload = bitcoin::base58::decode_check(XPUB).expect("valid base58check");
    assert_eq!(payload.len(), 78);
    for (version, expected_type) in [
        (0x049D_7CB2u32, ScriptType::P2shP2wpkh), // ypub
        (0x04B2_4746u32, ScriptType::P2wpkh),     // zpub
    ] {
        let mut bytes = version.to_be_bytes().to_vec();
        bytes.extend_from_slice(&payload[4..]);
        let slip132 = bitcoin::base58::encode_check(&bytes);
        let x = XyzPubKey::parse(&slip132).expect("valid slip132 key");
        assert_eq!(x.script_type, expected_type);
        assert_eq!(x.xpub, XPUB);
    }
    // an unknown version prefix is rejected
    let mut bytes = 0x0123_4567u32.to_be_bytes().to_vec();
    bytes.extend_from_slice(&payload[4..]);
    assert!(XyzPubKey::parse(&bitcoin::base58::encode_check(&bytes)).is_none());
}

#[test]
fn xyz_pubkey_rejects_garbage() {
    assert!(XyzPubKey::parse("notakey").is_none());
    assert!(XyzPubKey::parse("").is_none());
    // valid base58check but not 78 bytes of payload
    assert!(XyzPubKey::parse("1BitcoinEaterAddressDontSendf59kuE").is_none());
}

#[test]
fn make_imports_enumerates_the_range() {
    let w = make_ranged(5, 10);
    let reqs = w.make_imports(0, 9, true).expect("derivable");
    assert_eq!(reqs.len(), 10);
    for (i, r) in reqs.iter().enumerate() {
        assert_eq!(r.label, format!("bwt/{}/{}", w.checksum.as_str(), i));
        assert_eq!(r.rescan, RescanSince::Timestamp(0));
        assert_eq!(r.address, w.derive_address(i as u32).expect("derivable"));
    }
    let growth = w.make_imports(10, 14, false).expect("derivable");
    assert_eq!(growth.len(), 5);
    for r in growth.iter() {
        assert_eq!(r.rescan, RescanSince::Now);
    }
}
