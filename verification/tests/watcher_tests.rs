use bwt::labels::{Checksum, KeyOrigin};
use bwt::types::{Network, RescanSince, WalletError};
use bwt::wallet::Wallet;
use bwt::watcher::{first_failed_import, ConfigEntry, WalletWatcher};
use bwt::xpub::XyzPubKey;

const XPUB: &str = "xpub661MyMwAqRbcFtXgS5sYJABqqG9YLmC4Q1Rdap9gSE8NqtwybGhePY2gZ29ESFjqJoCu1Rupje8YtGqsefD265TMg7usUDFdp6W1EGMcet8";

fn cs(s: &str) -> Checksum {
    Checksum::new(s.to_owned()).expect("valid checksum")
}

/// A wallet built by hand, for watcher-level tests that need a fixed
/// checksum.
fn hand_wallet(checksum: &str, is_ranged: bool, gap_limit: u32, initial: u32) -> Wallet {
    Wallet {
        desc: format!("desc#{}", checksum),
        is_ranged,
        checksum: cs(checksum),
        keys_info: vec![],
        network: Network::Regtest,
        rescan_policy: RescanSince::Now,
        gap_limit,
        initial_import_size: initial,
        max_funded_index: None,
        max_imported_index: None,
        done_initial_import: false,
    }
}

fn ranged_watcher(gap_limit: u32, initial: u32) -> WalletWatcher {
    let descs = vec![(format!("wpkh({}/*)", XPUB), RescanSince::Timestamp(0))];
    WalletWatcher::from_config(&descs, &vec![], &vec![], Network::Mainnet, gap_limit, initial)
        .expect("valid config")
}

#[test]
fn empty_config_fails_with_clear_message() {
    let r = WalletWatcher::from_config(&vec![], &vec![], &vec![], Network::Mainnet, 20, 20);
    let e = r.unwrap_err();
    assert_eq!(e.error, WalletError::NoWallets);
    assert_eq!(e.entry, None);
    assert!(!WalletError::NoWallets.message().is_empty());
}

#[test]
fn rejected_config_entry_is_named() {
    let descs = vec![("nonsense".to_owned(), RescanSince::Now)];
    let e = WalletWatcher::from_config(&descs, &vec![], &vec![], Network::Mainnet, 5, 10)
        .unwrap_err();
    assert_eq!(e.error, WalletError::InvalidDescriptor);
    assert_eq!(e.entry, Some(ConfigEntry::Descriptor(0)));
}

#[test]
fn duplicate_config_descriptors_collide() {
    let d = format!("wpkh({}/*)", XPUB);
    let descs = vec![(d.clone(), RescanSince::Now), (d, RescanSince::Now)];
    let e = WalletWatcher::from_config(&descs, &vec![], &vec![], Network::Mainnet, 5, 10)
        .unwrap_err();
    assert_eq!(e.error, WalletError::ChecksumCollision);
    assert_eq!(e.entry, None);
}

#[test]
fn empty_wallet_list_is_rejected() {
    let r = WalletWatcher::new(vec![]);
    assert_eq!(r.unwrap_err(), WalletError::NoWallets);
}

#[test]
fn checksum_collision_is_rejected() {
    let a = hand_wallet("abc12345", true, 5, 10);
    let b = hand_wallet("abc12345", true, 20, 20);
    let r = WalletWatcher::new(vec![a, b]);
    assert_eq!(r.unwrap_err(), WalletError::ChecksumCollision);
}

#[test]
fn get_finds_wallets_by_checksum() {
    let a = hand_wallet("abc12345", true, 5, 10);
    let b = hand_wallet("xyz98765", true, 5, 10);
    let w = WalletWatcher::new(vec![a, b]).expect("no collision");
    assert!(w.get(&cs("abc12345")).is_some());
    assert!(w.get(&cs("xyz98765")).is_some());
    assert!(w.get(&cs("qqqqqqqq")).is_none());
    assert_eq!(w.wallets().len(), 2);
}

#[test]
fn fresh_ranged_wallet_cold_import() {
    // Fresh ranged wallet, no funds: the initial window 0..=9 is imported;
    // the first pass leaves the done flag unset, the next pass with nothing
    // to do sets it.
    let mut w = ranged_watcher(5, 10);
    w.check_imports(&vec![]);
    assert_eq!(w.wallets()[0].max_imported_index, None);

    let p = w.do_imports(true).expect("plan");
    assert_eq!(p.reqs.len(), 10);
    let checksum = w.wallets()[0].checksum.as_str().to_owned();
    for (i, r) in p.reqs.iter().enumerate() {
        assert_eq!(r.label, format!("bwt/{}/{}", checksum, i));
        assert_eq!(r.rescan, RescanSince::Timestamp(0));
    }
    w.apply_imports(&p);
    assert_eq!(w.wallets()[0].max_imported_index, Some(9));
    assert!(!w.wallets()[0].done_initial_import);

    let p2 = w.do_imports(true).expect("plan");
    assert_eq!(p2.reqs.len(), 0);
    assert!(w.wallets()[0].done_initial_import);
}

#[test]
fn funding_below_the_window_needs_no_growth() {
    // Funding at index 3: the watch index becomes 3 + 5 = 8 < 9, so no new
    // imports are needed.
    let mut w = ranged_watcher(5, 10);
    let p = w.do_imports(true).expect("plan");
    w.apply_imports(&p);
    let p2 = w.do_imports(true).expect("plan");
    assert!(p2.reqs.is_empty());

    let checksum = w.wallets()[0].checksum.clone();
    w.mark_funded(&KeyOrigin::Descriptor(checksum, 3));
    assert_eq!(w.wallets()[0].max_funded_index, Some(3));

    let p3 = w.do_imports(false).expect("plan");
    assert!(p3.reqs.is_empty());
}

#[test]
fn funding_at_the_window_edge_triggers_growth() {
    // Funding at index 9 pushes the watch index to 14; indices 10..=14 are
    // imported without a rescan.
    let mut w = ranged_watcher(5, 10);
    let p = w.do_imports(true).expect("plan");
    w.apply_imports(&p);
    let _ = w.do_imports(true).expect("plan");

    let checksum = w.wallets()[0].checksum.clone();
    w.mark_funded(&KeyOrigin::Descriptor(checksum, 9));

    let p2 = w.do_imports(false).expect("plan");
    assert_eq!(p2.reqs.len(), 5);
    let checksum = w.wallets()[0].checksum.as_str().to_owned();
    for (i, r) in p2.reqs.iter().enumerate() {
        assert_eq!(r.label, format!("bwt/{}/{}", checksum, 10 + i));
        assert_eq!(r.rescan, RescanSince::Now);
    }
    w.apply_imports(&p2);
    assert_eq!(w.wallets()[0].max_imported_index, Some(14));
}

#[test]
fn restart_rediscovers_imports_from_labels() {
    // Restart mid-life: a fresh watcher sees labels up to index 14, adopts
    // the ceiling, takes the initial import as done; the harvest then sets
    // the funded index; no new imports are needed.
    let mut w = ranged_watcher(5, 10);
    let checksum = w.wallets()[0].checksum.clone();
    let labels: Vec<String> =
        (0..=14).map(|i| KeyOrigin::Descriptor(checksum.clone(), i).to_label()).collect();
    w.check_imports(&labels);
    assert_eq!(w.wallets()[0].max_imported_index, Some(14));
    assert!(w.wallets()[0].done_initial_import);

    w.mark_funded(&KeyOrigin::Descriptor(checksum, 9));
    assert_eq!(w.wallets()[0].max_funded_index, Some(9));

    let p = w.do_imports(false).expect("plan");
    assert!(p.reqs.is_empty());
}

#[test]
fn xpub_config_expands_to_two_wallets() {
    let x = XyzPubKey::parse(XPUB).expect("valid xpub");
    let w = WalletWatcher::from_config(
        &vec![],
        &vec![(x, RescanSince::Now)],
        &vec![],
        Network::Mainnet,
        5,
        10,
    )
    .expect("valid config");
    assert_eq!(w.wallets().len(), 2);
    assert_ne!(w.wallets()[0].checksum.as_str(), w.wallets()[1].checksum.as_str());
}

#[test]
fn foreign_labels_are_ignored() {
    // Node labels for this wallet at 4 and 7, plus an unrelated label:
    // the ceiling becomes 7, the foreign label changes nothing.
    let wallet = hand_wallet("abc12345", true, 5, 10);
    let mut w = WalletWatcher::new(vec![wallet]).expect("no collision");
    let labels = vec![
        "bwt/abc12345/4".to_owned(),
        "bwt/abc12345/7".to_owned(),
        "other-app".to_owned(),
        "bwt/zzzzzzzz/9".to_owned(),
    ];
    w.check_imports(&labels);
    assert_eq!(w.wallets()[0].max_imported_index, Some(7));
    assert!(w.wallets()[0].done_initial_import);
}

#[test]
fn mark_funded_keeps_funded_at_or_below_imported() {
    // Across any sequence of mark_funded calls, the funded index never
    // exceeds the imported ceiling, and the watch index never decreases.
    let wallet = hand_wallet("abc12345", true, 5, 10);
    let mut w = WalletWatcher::new(vec![wallet]).expect("no collision");
    let mut last_watch = w.wallets()[0].watch_index();
    for i in [3u32, 1, 9, 9, 200, 0x8000_0000, 5] {
        w.mark_funded(&KeyOrigin::Descriptor(cs("abc12345"), i));
        let wal = &w.wallets()[0];
        if let Some(f) = wal.max_funded_index {
            assert!(f <= wal.max_imported_index.unwrap());
        }
        let watch = wal.watch_index();
        assert!(watch >= last_watch);
        last_watch = watch;
    }
    // bit 31 set is invalid and was ignored
    assert_eq!(w.wallets()[0].max_funded_index, Some(200));
}

#[test]
fn standalone_and_unknown_origins_change_nothing() {
    let wallet = hand_wallet("abc12345", true, 5, 10);
    let mut w = WalletWatcher::new(vec![wallet]).expect("no collision");
    w.mark_funded(&KeyOrigin::Standalone);
    w.mark_funded(&KeyOrigin::Descriptor(cs("zzzzzzzz"), 3));
    assert_eq!(w.wallets()[0].max_funded_index, None);
    assert_eq!(w.wallets()[0].max_imported_index, None);
}

#[test]
fn underivable_descriptor_fails_the_import_plan() {
    // The engine cannot derive addresses for this hand-made descriptor
    // text, so planning the import batch must fail rather than import a
    // wrong range.
    let wallet = hand_wallet("abc12345", true, 5, 10);
    let mut w = WalletWatcher::new(vec![wallet]).expect("no collision");
    assert_eq!(w.do_imports(true).unwrap_err(), WalletError::DerivationFailed);
}

#[test]
fn watch_index_past_the_unhardened_space_fails_the_plan() {
    let mut wallet = hand_wallet("abc12345", true, 0x8000_0000, 0x8000_0000);
    wallet.max_funded_index = Some(0x7FFF_FFFF);
    wallet.max_imported_index = Some(0x7FFF_FFFF);
    let mut w = WalletWatcher::new(vec![wallet]).expect("no collision");
    assert_eq!(w.do_imports(false).unwrap_err(), WalletError::IndexSpaceExhausted);
}

#[test]
fn failed_import_entries_are_detected() {
    assert_eq!(first_failed_import(&vec![]), None);
    assert_eq!(first_failed_import(&vec![true, true]), None);
    assert_eq!(first_failed_import(&vec![true, false, false]), Some(1));
}

#[test]
fn non_ranged_wallet_only_uses_index_zero() {
    let wallet = hand_wallet("abc12345", false, 5, 10);
    let mut w = WalletWatcher::new(vec![wallet]).expect("no collision");
    w.mark_funded(&KeyOrigin::Descriptor(cs("abc12345"), 3));
    assert_eq!(w.wallets()[0].max_funded_index, None);
    w.mark_funded(&KeyOrigin::Descriptor(cs("abc12345"), 0));
    assert_eq!(w.wallets()[0].max_funded_index, Some(0));
    assert_eq!(w.wallets()[0].max_imported_index, Some(0));
}
