//! The indexer: harvests the node's transaction listing into the in-memory
//! store, advances the watcher's funded ceilings, and emits ordered update
//! events for subscribers.

use vstd::prelude::*;
use crate::labels::{KeyOrigin, label_matches, label_prefix, label_denotes};
use crate::store::MemoryStore;
use crate::wallet::{same_config, funded_geq, funded_at_least};
use crate::watcher::WalletWatcher;

verus! {

/// One entry of the node's transaction listing, as the surrounding
/// plumbing hands it in: the label of the receiving address, the
/// transaction id, the confirmation height (`None` while unconfirmed), and
/// the receiving address.
#[derive(Debug)]
pub struct TxEntry {
    pub label: String,
    pub txid: Vec<u8>,
    pub height: Option<u32>,
    pub address: String,
}

/// What changed in one update event.
#[derive(Clone, Copy, Debug, PartialEq, Eq, Structural)]
pub enum UpdateKind {
    Transaction,
    ChainTip,
}

/// One update emitted to subscribers: a transaction observed (with the
/// origin its label ties it to, if it is this indexer's) or a new chain
/// tip.
#[derive(Debug)]
pub struct IndexUpdate {
    pub kind: UpdateKind,
    pub origin: Option<KeyOrigin>,
    pub height: Option<u32>,
    pub txid: Vec<u8>,
}

/// Strict lexicographic order on byte strings.
pub open spec fn bytes_lt(a: Seq<u8>, b: Seq<u8>) -> bool
    decreases a.len(),
{
    if b.len() == 0 {
        false
    } else if a.len() == 0 {
        true
    } else if a[0] < b[0] {
        true
    } else if a[0] > b[0] {
        false
    } else {
        bytes_lt(a.drop_first(), b.drop_first())
    }
}

/// Two byte strings are never each strictly below the other.
pub proof fn lemma_bytes_lt_asym(a: Seq<u8>, b: Seq<u8>)
    ensures
        !(bytes_lt(a, b) && bytes_lt(b, a)),
    decreases a.len(),
{
    if a.len() > 0 && b.len() > 0 && a[0] == b[0] {
        lemma_bytes_lt_asym(a.drop_first(), b.drop_first());
    }
}

/// The emission order of updates: confirmed before unconfirmed, ascending
/// height, transaction id as the tiebreak.
pub open spec fn upd_le(a: IndexUpdate, b: IndexUpdate) -> bool {
    match (a.height, b.height) {
        (Some(ha), Some(hb)) => ha < hb || (ha == hb && !bytes_lt(b.txid@, a.txid@)),
        (Some(ha), None) => true,
        (None, Some(hb)) => false,
        (None, None) => !bytes_lt(b.txid@, a.txid@),
    }
}

/// The emission order relates every two updates one way or the other.
pub proof fn lemma_upd_le_total(a: IndexUpdate, b: IndexUpdate)
    ensures
        upd_le(a, b) || upd_le(b, a),
{
    lemma_bytes_lt_asym(a.txid@, b.txid@);
    lemma_bytes_lt_asym(b.txid@, a.txid@);
}

/// Whether the updates stand in emission order.
pub open spec fn sorted_updates(s: Seq<IndexUpdate>) -> bool {
    forall|i: int| 0 <= i && i + 1 < s.len() ==> #[trigger] upd_le(s[i], s[i + 1])
}

/// Whether `o` is what parsing the label `l` yields: the denoted origin,
/// or nothing for a foreign label.
pub open spec fn origin_for_label(l: Seq<char>, o: Option<KeyOrigin>) -> bool {
    match o {
        Some(og) => og.wf() && label_matches(l, og),
        None => l != label_prefix() && forall|cs: Seq<char>, i: u32| !label_denotes(l, cs, i),
    }
}

/// Whether `u` is the transaction update of some listed entry.
pub open spec fn tx_update_ok(u: IndexUpdate, txs: Seq<TxEntry>) -> bool {
    &&& u.kind == UpdateKind::Transaction
    &&& exists|i: int|
        0 <= i < txs.len() && {
            let t = #[trigger] txs[i];
            &&& u.txid@ == t.txid@
            &&& u.height == t.height
            &&& origin_for_label(t.label@, u.origin)
        }
}

/// What one sync round emits: one transaction update per listed entry, in
/// emission order, and a tip update last exactly when the tip moved; in
/// particular, a round with no new transactions and no tip movement emits
/// nothing.
pub open spec fn sync_updates_ok(
    old_tip: Option<u32>,
    node_tip: u32,
    txs: Seq<TxEntry>,
    upds: Seq<IndexUpdate>,
) -> bool {
    let tip_moved = old_tip != Some(node_tip);
    let ntx = txs.len() as int;
    &&& upds.len() == ntx + (if tip_moved {
        1int
    } else {
        0int
    })
    &&& (txs.len() == 0 && !tip_moved ==> upds.len() == 0)
    &&& forall|j: int| 0 <= j < ntx ==> tx_update_ok(#[trigger] upds[j], txs)
    &&& sorted_updates(upds.take(ntx))
    &&& (tip_moved ==> upds[ntx].kind == UpdateKind::ChainTip && upds[ntx].height == Some(
        node_tip,
    ))
    &&& forall|i: int|
        0 <= i < ntx ==> exists|j: int|
            0 <= j < ntx && (#[trigger] upds[j]).txid@ == (#[trigger] txs[i]).txid@
                && upds[j].height == txs[i].height
}

/// Inserting anywhere adds one occurrence to the sequence's multiset.
proof fn lemma_insert_to_multiset(s: Seq<IndexUpdate>, i: int, x: IndexUpdate)
    requires
        0 <= i <= s.len(),
    ensures
        s.insert(i, x).to_multiset() =~= s.to_multiset().insert(x),
{
    broadcast use vstd::seq_lib::group_to_multiset_ensures;

    let t = s.insert(i, x);
    assert(t.remove(i) =~= s);
    assert(t[i] == x);
    assert(t.remove(i).to_multiset() =~= t.to_multiset().remove(x));
    assert(t.contains(x));
    assert(t.to_multiset().count(x) > 0);
    assert(t.to_multiset().remove(x).insert(x) =~= t.to_multiset());
}

/// Compares the byte strings from position `i` on.
fn bytes_lt_from(a: &Vec<u8>, b: &Vec<u8>, i: usize) -> (r: bool)
    requires
        i <= a@.len(),
        i <= b@.len(),
    ensures
        r == bytes_lt(a@.skip(i as int), b@.skip(i as int)),
    decreases a@.len() - i,
{
    if i == b.len() {
        proof {
            assert(b@.skip(i as int) =~= Seq::<u8>::empty());
        }
        false
    } else if i == a.len() {
        proof {
            assert(a@.skip(i as int) =~= Seq::<u8>::empty());
        }
        true
    } else {
        proof {
            assert(a@.skip(i as int)[0] == a@[i as int]);
            assert(b@.skip(i as int)[0] == b@[i as int]);
            assert(a@.skip(i as int).drop_first() =~= a@.skip(i as int + 1));
            assert(b@.skip(i as int).drop_first() =~= b@.skip(i as int + 1));
        }
        if a[i] < b[i] {
            true
        } else if a[i] > b[i] {
            false
        } else {
            bytes_lt_from(a, b, i + 1)
        }
    }
}

/// Whether `a` comes no later than `b` in emission order.
fn upd_le_exec(a: &IndexUpdate, b: &IndexUpdate) -> (r: bool)
    ensures
        r == upd_le(*a, *b),
{
    proof {
        assert(a.txid@.skip(0) =~= a.txid@);
        assert(b.txid@.skip(0) =~= b.txid@);
    }
    match (a.height, b.height) {
        (Some(ha), Some(hb)) => {
            if ha < hb {
                true
            } else if ha > hb {
                false
            } else {
                !bytes_lt_from(&b.txid, &a.txid, 0)
            }
        },
        (Some(_), None) => true,
        (None, Some(_)) => false,
        (None, None) => !bytes_lt_from(&b.txid, &a.txid, 0),
    }
}

/// Sorts updates into emission order, keeping exactly the same updates.
fn sort_updates(v: Vec<IndexUpdate>) -> (r: Vec<IndexUpdate>)
    ensures
        r@.to_multiset() =~= v@.to_multiset(),
        sorted_updates(r@),
        r@.len() == v@.len(),
{
    broadcast use vstd::seq_lib::group_to_multiset_ensures;

    let mut rest = v;
    let mut r: Vec<IndexUpdate> = Vec::new();
    proof {
        assert(v@.to_multiset() =~= r@.to_multiset().add(rest@.to_multiset()));
    }
    while rest.len() > 0
        invariant
            v@.to_multiset() =~= r@.to_multiset().add(rest@.to_multiset()),
            sorted_updates(r@),
            r@.len() + rest@.len() == v@.len(),
        decreases rest@.len(),
    {
        let ghost rest0 = rest@;
        let x = match rest.pop() {
            Some(x) => x,
            None => {
                proof {
                    assert(false);
                }
                continue ;
            },
        };
        proof {
            assert(rest@.push(x) =~= rest0);
            rest@.to_multiset_ensures();
            assert(rest0.to_multiset() =~= rest@.to_multiset().insert(x));
        }
        let mut idx: usize = 0;
        while idx < r.len()
            invariant
                0 <= idx <= r@.len(),
                forall|m: int| 0 <= m < idx ==> upd_le(#[trigger] r@[m], x),
            ensures
                0 <= idx <= r@.len(),
                forall|m: int| 0 <= m < idx ==> upd_le(#[trigger] r@[m], x),
                idx < r@.len() ==> !upd_le(r@[idx as int], x),
            decreases r@.len() - idx,
        {
            if !upd_le_exec(&r[idx], &x) {
                break ;
            }
            idx = idx + 1;
        }
        proof {
            if (idx as int) < r@.len() {
                lemma_upd_le_total(r@[idx as int], x);
            }
        }
        let ghost r0 = r@;
        r.insert(idx, x);
        proof {
            lemma_insert_to_multiset(r0, idx as int, x);
            r0.insert_ensures(idx as int, x);
            assert forall|m: int| 0 <= m && m + 1 < r@.len() implies #[trigger] upd_le(
                r@[m],
                r@[m + 1],
            ) by {
                if m + 1 < idx as int {
                    assert(r@[m] == r0[m]);
                    assert(r@[m + 1] == r0[m + 1]);
                } else if m + 1 == idx as int {
                    assert(r@[m] == r0[m]);
                    assert(r@[m + 1] == x);
                } else if m == idx as int {
                    assert(r@[m] == x);
                    assert(r@[m + 1] == r0[m]);
                    assert(upd_le(x, r0[idx as int]));
                } else {
                    assert(r@[m] == r0[m - 1]);
                    assert(r@[m + 1] == r0[m]);
                }
            }
        }
    }
    r
}

/// The indexer: the watcher, the history store, and the last seen chain
/// tip.
#[derive(Debug)]
pub struct Indexer {
    pub watcher: WalletWatcher,
    pub store: MemoryStore,
    pub tip: Option<u32>,
}

impl Indexer {
    /// Well-formedness: the watcher is well-formed.
    pub open spec fn wf(&self) -> bool {
        self.watcher.wf()
    }

    /// A fresh indexer over the watcher: empty store, no tip seen.
    pub fn new(watcher: WalletWatcher) -> (r: Indexer)
        requires
            watcher.wf(),
        ensures
            r.wf(),
            r.watcher == watcher,
            r.store.funded_addresses@.len() == 0,
            r.tip is None,
    {
        Indexer { watcher, store: MemoryStore::new(), tip: None }
    }

    /// Digests one listed transaction: its address is recorded in the
    /// store, and if its label denotes a usable index of a tracked wallet,
    /// that wallet's funded ceiling rises to at least that index. Returns
    /// what the label parsed to.
    fn digest_tx(&mut self, tx: &TxEntry) -> (o: Option<KeyOrigin>)
        requires
            old(self).wf(),
        ensures
            final(self).wf(),
            final(self).tip == old(self).tip,
            final(self).watcher.wallets@.len() == old(self).watcher.wallets@.len(),
            forall|k: int|
                0 <= k < old(self).watcher.wallets@.len() ==> {
                    let a = #[trigger] old(self).watcher.wallets@[k];
                    let b = final(self).watcher.wallets@[k];
                    &&& same_config(b, a)
                    &&& b.done_initial_import == a.done_initial_import
                    &&& b.spec_watch_index() >= a.spec_watch_index()
                    &&& funded_geq(b, a)
                },
            forall|k: int, i: u32|
                0 <= k < old(self).watcher.wallets@.len() && #[trigger] label_denotes(
                    tx.label@,
                    old(self).watcher.wallets@[k].checksum@,
                    i,
                ) && old(self).watcher.wallets@[k].spec_is_valid_index(i) ==> funded_at_least(
                    final(self).watcher.wallets@[k],
                    i,
                ),
            origin_for_label(tx.label@, o),
            final(self).store.funded_addresses@.len() == old(
                self,
            ).store.funded_addresses@.len() + 1,
            final(self).store.spec_has_history(tx.address@),
            forall|a: Seq<char>|
                old(self).store.spec_has_history(a) ==> final(self).store.spec_has_history(a),
    {
        let origin = KeyOrigin::from_label(tx.label.as_str());
        match &origin {
            Some(o) => {
                self.watcher.mark_funded(o);
            },
            None => {},
        }
        self.store.record(tx.address.clone());
        proof {
            assert forall|k: int, i: u32|
                0 <= k < old(self).watcher.wallets@.len() && #[trigger] label_denotes(
                    tx.label@,
                    old(self).watcher.wallets@[k].checksum@,
                    i,
                ) && old(self).watcher.wallets@[k].spec_is_valid_index(i) implies funded_at_least(
                self.watcher.wallets@[k],
                i,
            ) by {
                match &origin {
                    None => {},
                    Some(o) => {
                        match o {
                            KeyOrigin::Standalone => {
                                assert(tx.label@.len() == 3);
                            },
                            KeyOrigin::Descriptor(c, idx) => {
                                assert(label_denotes(tx.label@, c@, *idx));
                                assert(old(self).watcher.wallets@[k].checksum@ == tx.label@.subrange(
                                    4,
                                    12,
                                ));
                                assert(c@ == tx.label@.subrange(4, 12));
                                assert(i as nat == crate::numstr::digits_value(
                                    tx.label@.subrange(13, tx.label@.len() as int),
                                ));
                                assert(i == *idx);
                            },
                        }
                    },
                }
            }
        }
        origin
    }

    /// Digests a batch of listed transactions: each one is recorded in the
    /// store, and each label that denotes a usable index of a tracked
    /// wallet advances that wallet's funded ceiling to at least the
    /// denoted index. The wallet set and configuration never change, and
    /// no watch index or funded ceiling decreases.
    #[verifier::loop_isolation(false)]
    pub fn harvest(&mut self, txs: &Vec<TxEntry>)
        requires
            old(self).wf(),
        ensures
            final(self).wf(),
            final(self).tip == old(self).tip,
            final(self).watcher.wallets@.len() == old(self).watcher.wallets@.len(),
            forall|k: int|
                0 <= k < old(self).watcher.wallets@.len() ==> {
                    let a = #[trigger] old(self).watcher.wallets@[k];
                    let b = final(self).watcher.wallets@[k];
                    &&& same_config(b, a)
                    &&& b.done_initial_import == a.done_initial_import
                    &&& b.spec_watch_index() >= a.spec_watch_index()
                    &&& funded_geq(b, a)
                },
            forall|k: int, t: int, i: u32|
                0 <= k < old(self).watcher.wallets@.len() && 0 <= t < txs@.len()
                    && #[trigger] label_denotes(
                    txs@[t].label@,
                    old(self).watcher.wallets@[k].checksum@,
                    i,
                ) && old(self).watcher.wallets@[k].spec_is_valid_index(i) ==> funded_at_least(
                    final(self).watcher.wallets@[k],
                    i,
                ),
            forall|i: int|
                0 <= i < txs@.len() ==> final(self).store.spec_has_history(
                    (#[trigger] txs@[i]).address@,
                ),
            forall|a: Seq<char>|
                old(self).store.spec_has_history(a) ==> final(self).store.spec_has_history(a),
    {
        let n = txs.len();
        let mut i: usize = 0;
        while i < n
            invariant
                0 <= i <= n,
                n == txs@.len(),
                self.wf(),
                self.tip == old(self).tip,
                self.watcher.wallets@.len() == old(self).watcher.wallets@.len(),
                forall|k: int|
                    0 <= k < old(self).watcher.wallets@.len() ==> {
                        let a = #[trigger] old(self).watcher.wallets@[k];
                        let b = self.watcher.wallets@[k];
                        &&& same_config(b, a)
                        &&& b.done_initial_import == a.done_initial_import
                        &&& b.spec_watch_index() >= a.spec_watch_index()
                        &&& funded_geq(b, a)
                    },
                forall|k: int, t: int, ix: u32|
                    0 <= k < old(self).watcher.wallets@.len() && 0 <= t < i
                        && #[trigger] label_denotes(
                        txs@[t].label@,
                        old(self).watcher.wallets@[k].checksum@,
                        ix,
                    ) && old(self).watcher.wallets@[k].spec_is_valid_index(ix) ==> funded_at_least(
                        self.watcher.wallets@[k],
                        ix,
                    ),
                forall|t: int|
                    0 <= t < i ==> self.store.spec_has_history((#[trigger] txs@[t]).address@),
                forall|a: Seq<char>|
                    old(self).store.spec_has_history(a) ==> self.store.spec_has_history(a),
            decreases n - i,
        {
            let _origin = self.digest_tx(&txs[i]);
            i = i + 1;
        }
    }

    /// One incremental sync round: digests the freshly listed transactions
    /// and the node's tip, and returns the updates to fan out, in emission
    /// order, with a tip update last when the tip moved. A round that
    /// observes no new transactions and no tip movement returns no
    /// updates.
    #[verifier::loop_isolation(false)]
    pub fn sync_step(&mut self, txs: &Vec<TxEntry>, node_tip: u32) -> (upds: Vec<IndexUpdate>)
        requires
            old(self).wf(),
        ensures
            final(self).wf(),
            final(self).tip == Some(node_tip),
            final(self).watcher.wallets@.len() == old(self).watcher.wallets@.len(),
            forall|k: int|
                0 <= k < old(self).watcher.wallets@.len() ==> {
                    let a = #[trigger] old(self).watcher.wallets@[k];
                    let b = final(self).watcher.wallets@[k];
                    &&& same_config(b, a)
                    &&& b.done_initial_import == a.done_initial_import
                    &&& b.spec_watch_index() >= a.spec_watch_index()
                    &&& funded_geq(b, a)
                },
            forall|k: int, t: int, i: u32|
                0 <= k < old(self).watcher.wallets@.len() && 0 <= t < txs@.len()
                    && #[trigger] label_denotes(
                    txs@[t].label@,
                    old(self).watcher.wallets@[k].checksum@,
                    i,
                ) && old(self).watcher.wallets@[k].spec_is_valid_index(i) ==> funded_at_least(
                    final(self).watcher.wallets@[k],
                    i,
                ),
            forall|i: int|
                0 <= i < txs@.len() ==> final(self).store.spec_has_history(
                    (#[trigger] txs@[i]).address@,
                ),
            sync_updates_ok(old(self).tip, node_tip, txs@, upds@),
    {
        let tip_moved = match self.tip {
            Some(t) => t != node_tip,
            None => true,
        };
        let n = txs.len();
        let mut raw: Vec<IndexUpdate> = Vec::new();
        let mut i: usize = 0;
        while i < n
            invariant
                0 <= i <= n,
                n == txs@.len(),
                self.wf(),
                self.tip == old(self).tip,
                self.watcher.wallets@.len() == old(self).watcher.wallets@.len(),
                forall|k: int|
                    0 <= k < old(self).watcher.wallets@.len() ==> {
                        let a = #[trigger] old(self).watcher.wallets@[k];
                        let b = self.watcher.wallets@[k];
                        &&& same_config(b, a)
                        &&& b.done_initial_import == a.done_initial_import
                        &&& b.spec_watch_index() >= a.spec_watch_index()
                        &&& funded_geq(b, a)
                    },
                forall|k: int, t: int, ix: u32|
                    0 <= k < old(self).watcher.wallets@.len() && 0 <= t < i
                        && #[trigger] label_denotes(
                        txs@[t].label@,
                        old(self).watcher.wallets@[k].checksum@,
                        ix,
                    ) && old(self).watcher.wallets@[k].spec_is_valid_index(ix) ==> funded_at_least(
                        self.watcher.wallets@[k],
                        ix,
                    ),
                forall|t: int|
                    0 <= t < i ==> self.store.spec_has_history((#[trigger] txs@[t]).address@),
                raw@.len() == i,
                forall|j: int|
                    0 <= j < i ==> {
                        let u = #[trigger] raw@[j];
                        &&& u.kind == UpdateKind::Transaction
                        &&& u.txid@ == txs@[j].txid@
                        &&& u.height == txs@[j].height
                        &&& origin_for_label(txs@[j].label@, u.origin)
                    },
            decreases n - i,
        {
            let origin = self.digest_tx(&txs[i]);
            let txid = txs[i].txid.clone();
            proof {
                assert(txid@ =~= txs@[i as int].txid@);
            }
            raw.push(
                IndexUpdate {
                    kind: UpdateKind::Transaction,
                    origin,
                    height: txs[i].height,
                    txid,
                },
            );
            i = i + 1;
        }
        let ghost raw0 = raw@;
        let mut upds = sort_updates(raw);
        proof {
            broadcast use vstd::seq_lib::group_to_multiset_ensures;

            assert(upds@.take(upds@.len() as int) =~= upds@);
            assert forall|j: int| 0 <= j < upds@.len() implies tx_update_ok(
                #[trigger] upds@[j],
                txs@,
            ) by {
                assert(upds@.contains(upds@[j]));
                assert(raw0.to_multiset().count(upds@[j]) > 0);
                assert(raw0.contains(upds@[j]));
                let jj = choose|jj: int| 0 <= jj < raw0.len() && raw0[jj] == upds@[j];
                assert(raw0[jj].txid@ == txs@[jj].txid@);
            }
            assert forall|i2: int| 0 <= i2 < txs@.len() implies exists|j: int|
                0 <= j < txs@.len() && (#[trigger] upds@[j]).txid@ == (#[trigger] txs@[i2]).txid@
                    && upds@[j].height == txs@[i2].height by {
                assert(raw0.contains(raw0[i2]));
                assert(upds@.to_multiset().count(raw0[i2]) > 0);
                assert(upds@.contains(raw0[i2]));
                let j = choose|j: int| 0 <= j < upds@.len() && upds@[j] == raw0[i2];
                assert(upds@[j].txid@ == txs@[i2].txid@);
            }
        }
        if tip_moved {
            let ghost sorted_part = upds@;
            upds.push(
                IndexUpdate {
                    kind: UpdateKind::ChainTip,
                    origin: None,
                    height: Some(node_tip),
                    txid: Vec::new(),
                },
            );
            proof {
                assert(upds@.take(upds@.len() - 1) =~= sorted_part);
            }
        }
        self.tip = Some(node_tip);
        upds
    }
}

} // verus!
