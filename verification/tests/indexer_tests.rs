use bwt::indexer::{Indexer, TxEntry, UpdateKind};
use bwt::labels::{Checksum, KeyOrigin};
use bwt::store::MemoryStore;
use bwt::sync::{App, Debouncer, SyncAction, DEBOUNCE_SECS};
use bwt::node::{classify_scanning, labels_unsupported, loadwallet_already_loaded, node_synced,
    ScanStatus};
use bwt::types::{Network, RescanSince};
use bwt::wallet::Wallet;
use bwt::watcher::WalletWatcher;

fn cs(s: &str) -> Checksum {
    Checksum::new(s.to_owned()).expect("valid checksum")
}

fn hand_wallet(checksum: &str) -> Wallet {
    Wallet {
        desc: format!("desc#{}", checksum),
        is_ranged: true,
        checksum: cs(checksum),
        keys_info: vec![],
        network: Network::Regtest,
        rescan_policy: RescanSince::Now,
        gap_limit: 5,
        initial_import_size: 10,
        max_funded_index: None,
        max_imported_index: None,
        done_initial_import: false,
    }
}

fn indexer() -> Indexer {
    let w = WalletWatcher::new(vec![hand_wallet("abc12345")]).expect("no collision");
    Indexer::new(w)
}

fn tx(label: &str, txid: &[u8], height: Option<u32>, address: &str) -> TxEntry {
    TxEntry {
        label: label.to_owned(),
        txid: txid.to_vec(),
        height,
        address: address.to_owned(),
    }
}

#[test]
fn sync_with_nothing_new_emits_nothing() {
    let mut ix = indexer();
    let upds = ix.sync_step(&vec![], 100);
    assert_eq!(upds.len(), 1); // first round: the tip itself is news
    assert_eq!(upds[0].kind, UpdateKind::ChainTip);
    let upds = ix.sync_step(&vec![], 100);
    assert!(upds.is_empty());
}

#[test]
fn tip_movement_emits_a_tip_update_last() {
    let mut ix = indexer();
    let _ = ix.sync_step(&vec![], 100);
    let txs = vec![tx("other-app", &[9u8], Some(90), "addr1")];
    let upds = ix.sync_step(&txs, 101);
    assert_eq!(upds.len(), 2);
    assert_eq!(upds[0].kind, UpdateKind::Transaction);
    assert_eq!(upds[1].kind, UpdateKind::ChainTip);
    assert_eq!(upds[1].height, Some(101));
}

#[test]
fn updates_come_in_height_then_txid_order() {
    let mut ix = indexer();
    let _ = ix.sync_step(&vec![], 100);
    let txs = vec![
        tx("a", &[5u8, 5], Some(5), "a1"),
        tx("b", &[1u8], None, "a2"),
        tx("c", &[9u8], Some(2), "a3"),
        tx("d", &[5u8, 1], Some(5), "a4"),
        tx("e", &[0u8], None, "a5"),
    ];
    let upds = ix.sync_step(&txs, 100);
    assert_eq!(upds.len(), 5);
    assert_eq!(upds[0].height, Some(2));
    assert_eq!(upds[1].height, Some(5));
    assert_eq!(upds[1].txid, vec![5u8, 1]);
    assert_eq!(upds[2].height, Some(5));
    assert_eq!(upds[2].txid, vec![5u8, 5]);
    assert_eq!(upds[3].height, None);
    assert_eq!(upds[3].txid, vec![0u8]);
    assert_eq!(upds[4].height, None);
    assert_eq!(upds[4].txid, vec![1u8]);
}

#[test]
fn sync_marks_funded_from_labels() {
    let mut ix = indexer();
    let txs = vec![
        tx("bwt/abc12345/4", &[1u8], Some(10), "addr4"),
        tx("other-app", &[2u8], Some(11), "addr5"),
    ];
    let upds = ix.sync_step(&txs, 50);
    assert_eq!(ix.watcher.wallets()[0].max_funded_index, Some(4));
    assert_eq!(upds[0].origin, Some(KeyOrigin::Descriptor(cs("abc12345"), 4)));
    assert_eq!(upds[1].origin, None);
    assert!(ix.store.has_history(&"addr4".to_owned()));
    assert!(ix.store.has_history(&"addr5".to_owned()));
    assert!(!ix.store.has_history(&"addr6".to_owned()));
}

#[test]
fn harvest_records_history_without_updates() {
    let mut ix = indexer();
    let txs = vec![tx("bwt/abc12345/2", &[3u8], Some(7), "addr2")];
    ix.harvest(&txs);
    assert_eq!(ix.watcher.wallets()[0].max_funded_index, Some(2));
    assert!(ix.store.has_history(&"addr2".to_owned()));
    assert_eq!(ix.tip, None);
}

#[test]
fn initial_sync_reaches_a_fixed_point() {
    // Two passes of the cold-import loop with no funding in between: the
    // second finds nothing to import, and so does every later one.
    const XPUB: &str = "xpub661MyMwAqRbcFtXgS5sYJABqqG9YLmC4Q1Rdap9gSE8NqtwybGhePY2gZ29ESFjqJoCu1Rupje8YtGqsefD265TMg7usUDFdp6W1EGMcet8";
    let descs = vec![(format!("wpkh({}/*)", XPUB), RescanSince::Timestamp(0))];
    let watcher =
        WalletWatcher::from_config(&descs, &vec![], &vec![], Network::Mainnet, 5, 10)
            .expect("valid config");
    let mut ix = Indexer::new(watcher);
    ix.watcher.check_imports(&vec![]);
    let p = ix.watcher.do_imports(true).expect("plan");
    assert_eq!(p.reqs.len(), 10);
    ix.watcher.apply_imports(&p);
    let p2 = ix.watcher.do_imports(true).expect("plan");
    assert!(p2.reqs.is_empty());
    let p3 = ix.watcher.do_imports(true).expect("plan");
    assert!(p3.reqs.is_empty());
}

#[test]
fn find_gap_reports_longest_unfunded_run() {
    const XPUB: &str = "xpub661MyMwAqRbcFtXgS5sYJABqqG9YLmC4Q1Rdap9gSE8NqtwybGhePY2gZ29ESFjqJoCu1Rupje8YtGqsefD265TMg7usUDFdp6W1EGMcet8";
    let mut w = Wallet::from_descriptor(
        format!("wpkh({}/*)", XPUB),
        Network::Mainnet,
        5,
        10,
        RescanSince::Now,
    )
    .expect("valid descriptor");
    let mut store = MemoryStore::new();
    assert_eq!(w.find_gap(&store), None);
    // fund indices 0, 4 and 6: the longest unfunded run is 1..=3
    w.max_funded_index = Some(6);
    w.max_imported_index = Some(9);
    for i in [0u32, 4, 6] {
        store.record(w.derive_address(i).expect("derivable"));
    }
    assert_eq!(w.find_gap(&store), Some(3));
    // history only at index 0: the trailing run 1..=6 counts too
    let mut sparse = MemoryStore::new();
    sparse.record(w.derive_address(0).expect("derivable"));
    assert_eq!(w.find_gap(&sparse), Some(6));
}

#[test]
fn app_sync_stops_on_shutdown() {
    let mut app = App::new(indexer(), 5);
    let a = app.sync(true, &vec![], 100);
    assert!(matches!(a, SyncAction::Stop));
    assert_eq!(app.indexer.tip, None);
}

#[test]
fn app_sync_fans_out_updates_and_idles_when_quiet() {
    let mut app = App::new(indexer(), 5);
    let a = app.sync(false, &vec![], 100);
    match a {
        SyncAction::FanOut(upds) => {
            assert_eq!(upds.len(), 1);
            assert_eq!(upds[0].kind, UpdateKind::ChainTip);
        },
        _ => panic!("expected fan-out"),
    }
    let a = app.sync(false, &vec![], 100);
    assert!(matches!(a, SyncAction::Idle));
}

#[test]
fn debouncer_collapses_bursts() {
    let mut d = Debouncer::new(DEBOUNCE_SECS);
    assert!(d.on_trigger(100));
    assert!(!d.on_trigger(103));
    assert!(!d.on_poll(105));
    assert!(d.on_poll(107));
    assert!(!d.on_poll(108));
    assert!(d.on_trigger(115));
}

#[test]
fn node_readiness_decisions() {
    assert!(node_synced(false, false, 10, 10));
    assert!(node_synced(true, true, 10, 10));
    assert!(!node_synced(false, true, 10, 10));
    assert!(!node_synced(true, true, 9, 10));
    assert!(node_synced(false, false, 11, 10));
}

#[test]
fn scanning_classification() {
    assert_eq!(classify_scanning(false, false, false), ScanStatus::Unsupported);
    assert_eq!(classify_scanning(true, true, false), ScanStatus::NotScanning);
    assert_eq!(classify_scanning(true, false, true), ScanStatus::Scanning);
    assert_eq!(classify_scanning(true, false, false), ScanStatus::Malformed);
}

#[test]
fn boot_error_codes() {
    assert!(loadwallet_already_loaded(-4));
    assert!(!loadwallet_already_loaded(-5));
    assert!(labels_unsupported(-32601));
    assert!(!labels_unsupported(-4));
}
