//! The collection of tracked wallets, keyed by descriptor checksum, and the
//! import planning against the backing node.
//!
//! The node interaction itself (listing labels, submitting the import
//! batch) happens outside; the watcher consumes the label list, plans the
//! batched import requests, and adopts the confirmed ceilings.

use vstd::prelude::*;
use crate::types::{Network, RescanSince, WalletError};
use crate::labels::{Checksum, KeyOrigin, label_denotes, label_of, label_prefix};
use crate::wallet::{Wallet, ImportRequest, funding_effect, same_config, desc_accepted,
    fresh_wallet_state, gap_config_ok, wallet_matches_desc};
use crate::descriptor::{desc_report_of, desc_keys_ok};
use crate::descriptor::derived_address_of;
use crate::xpub::desc_text_of;
use crate::xpub::XyzPubKey;

verus! {

/// Whether some label in the list is a descriptor label for checksum text
/// `cs` at index `i`.
pub open spec fn some_label_funds(labels: Seq<String>, cs: Seq<char>, i: u32) -> bool {
    exists|j: int| 0 <= j < labels.len() && label_denotes(#[trigger] labels[j]@, cs, i)
}

/// How reconciling with the node's label list turns the wallet `a` into
/// the wallet `b`: if any label claims a usable index of this wallet, the
/// imported ceiling becomes the largest such index (held at or above the
/// funded index) and the initial import counts as done; otherwise nothing
/// changes.
pub open spec fn check_effect(labels: Seq<String>, a: Wallet, b: Wallet) -> bool {
    &&& same_config(b, a)
    &&& b.max_funded_index == a.max_funded_index
    &&& if exists|i: u32| #[trigger] some_label_funds(labels, a.checksum@, i)
        && a.spec_is_valid_index(i) {
        &&& b.done_initial_import
        &&& exists|m: u32|
            {
                &&& #[trigger] some_label_funds(labels, a.checksum@, m)
                &&& a.spec_is_valid_index(m)
                &&& b.max_imported_index == Some(
                    match a.max_funded_index {
                        Some(f) => if f > m {
                            f
                        } else {
                            m
                        },
                        None => m,
                    },
                )
                &&& forall|i: u32|
                    #[trigger] some_label_funds(labels, a.checksum@, i) && a.spec_is_valid_index(i)
                        ==> i <= m
            }
    } else {
        b == a
    }
}

/// The import batch a planning pass produced: the requests for the node,
/// and for each wallet that needed growth the ceiling to adopt once the
/// node confirms the batch.
#[derive(Debug)]
pub struct PendingImports {
    pub reqs: Vec<ImportRequest>,
    pub ceilings: Vec<(usize, u32)>,
}

/// The first index an import range for wallet `a` would start at: right
/// above the imported ceiling, or zero when nothing was imported yet.
pub open spec fn spec_import_start(a: Wallet) -> int {
    match a.max_imported_index {
        None => 0,
        Some(m) => m + 1,
    }
}

/// Whether `req` is the import request of wallet `a` at index `idx` under
/// the `rescan` choice: the derived address, the label naming the wallet
/// and the index, and the rescan marker.
pub open spec fn import_req_ok(a: Wallet, idx: u32, req: ImportRequest, rescan: bool) -> bool {
    &&& derived_address_of(a.desc@, a.network, idx) == Some(req.address@)
    &&& req.label@ == label_of(KeyOrigin::Descriptor(a.checksum, idx))
    &&& req.rescan == (if rescan {
        a.rescan_policy
    } else {
        RescanSince::Now
    })
}

/// The number of requests of one ceiling entry: its wallet's range from
/// the import start up to the ceiling, inclusive.
pub open spec fn entry_range_len(w0: WalletWatcher, e: (usize, u32)) -> int {
    e.1 - spec_import_start(w0.wallets@[e.0 as int]) + 1
}

/// The number of requests the first `t` ceiling entries contribute.
pub open spec fn planned_reqs_len(w0: WalletWatcher, ceilings: Seq<(usize, u32)>, t: int) -> int
    decreases t,
{
    if t <= 0 {
        0
    } else {
        planned_reqs_len(w0, ceilings, t - 1) + entry_range_len(w0, ceilings[t - 1])
    }
}

/// Whether the requests hold, at the cumulative offset of ceiling entry
/// `t`, exactly that entry's wallet range.
pub open spec fn reqs_cover_entry(
    w0: WalletWatcher,
    ceilings: Seq<(usize, u32)>,
    reqs: Seq<ImportRequest>,
    t: int,
    rescan: bool,
) -> bool {
    let e = ceilings[t];
    let a = w0.wallets@[e.0 as int];
    let start = spec_import_start(a);
    let off = planned_reqs_len(w0, ceilings, t);
    forall|q: int|
        0 <= q < entry_range_len(w0, e) ==> import_req_ok(
            a,
            (start + q) as u32,
            #[trigger] reqs[off + q],
            rescan,
        )
}

/// The first `t` entries contribute the same request count under any two
/// ceiling lists that agree on them.
pub proof fn lemma_reqs_len_prefix(
    w0: WalletWatcher,
    c1: Seq<(usize, u32)>,
    c2: Seq<(usize, u32)>,
    t: int,
)
    requires
        0 <= t <= c1.len(),
        t <= c2.len(),
        forall|i: int| 0 <= i < t ==> c1[i] == c2[i],
    ensures
        planned_reqs_len(w0, c1, t) == planned_reqs_len(w0, c2, t),
    decreases t,
{
    if t > 0 {
        lemma_reqs_len_prefix(w0, c1, c2, t - 1);
    }
}

/// The request count never shrinks as more ceiling entries are counted,
/// as long as each counted entry's range is non-empty.
pub proof fn lemma_reqs_len_mono(w0: WalletWatcher, c: Seq<(usize, u32)>, t1: int, t2: int)
    requires
        0 <= t1 <= t2 <= c.len(),
        forall|i: int| 0 <= i < t2 ==> #[trigger] entry_range_len(w0, c[i]) >= 0,
    ensures
        planned_reqs_len(w0, c, t1) <= planned_reqs_len(w0, c, t2),
    decreases t2 - t1,
{
    if t1 < t2 {
        lemma_reqs_len_mono(w0, c, t1, t2 - 1);
    }
}

/// How a planning pass relates the watcher before (`w0`) and after (`w1`)
/// and the batch `p` it produced: wallets that need growth are untouched
/// and get a ceiling entry at their watch index; wallets that do not are at
/// most marked done with their initial import; there are requests exactly
/// when some wallet needs growth, and they are exactly the concatenation
/// of the per-wallet ranges — at most one range per wallet, each ceiling
/// inside the unhardened index space, each request carrying its derived
/// address, its label and its rescan marker.
pub open spec fn planned(
    w0: WalletWatcher,
    w1: WalletWatcher,
    p: PendingImports,
    rescan: bool,
) -> bool {
    &&& w1.wallets@.len() == w0.wallets@.len()
    &&& forall|k: int|
        0 <= k < w0.wallets@.len() ==> {
            let a = #[trigger] w0.wallets@[k];
            let b = w1.wallets@[k];
            &&& same_config(b, a)
            &&& b.max_funded_index == a.max_funded_index
            &&& b.max_imported_index == a.max_imported_index
            &&& (if a.spec_needs_import() {
                b == a
            } else {
                b.done_initial_import && b.spec_watch_index() <= a.spec_watch_index()
            })
        }
    &&& (p.reqs@.len() > 0) == (exists|k: int|
        0 <= k < w0.wallets@.len() && (#[trigger] w0.wallets@[k]).spec_needs_import())
    &&& forall|t: int|
        0 <= t < p.ceilings@.len() ==> {
            let e = #[trigger] p.ceilings@[t];
            &&& 0 <= e.0 < w0.wallets@.len()
            &&& w0.wallets@[e.0 as int].spec_needs_import()
            &&& e.1 as int == w0.wallets@[e.0 as int].spec_watch_index()
            &&& e.1 < 0x8000_0000
        }
    &&& forall|t1: int, t2: int|
        0 <= t1 < t2 < p.ceilings@.len() ==> (#[trigger] p.ceilings@[t1]).0 != (
        #[trigger] p.ceilings@[t2]).0
    &&& forall|k: int|
        0 <= k < w0.wallets@.len() && (#[trigger] w0.wallets@[k]).spec_needs_import() ==> exists|
            t: int,
        |
            0 <= t < p.ceilings@.len() && (#[trigger] p.ceilings@[t]).0 == k
    &&& p.reqs@.len() == planned_reqs_len(w0, p.ceilings@, p.ceilings@.len() as int)
    &&& forall|t: int|
        0 <= t < p.ceilings@.len() ==> #[trigger] reqs_cover_entry(
            w0,
            p.ceilings@,
            p.reqs@,
            t,
            rescan,
        )
}

/// How confirming the batch `p` relates the watcher before (`w1`) and
/// after (`w2`): each wallet with a ceiling entry adopts it as its
/// imported ceiling; every other wallet is untouched.
pub open spec fn applied(w1: WalletWatcher, w2: WalletWatcher, p: PendingImports) -> bool {
    &&& w2.wallets@.len() == w1.wallets@.len()
    &&& forall|k: int|
        0 <= k < w1.wallets@.len() ==> {
            let a = #[trigger] w1.wallets@[k];
            let b = w2.wallets@[k];
            &&& same_config(b, a)
            &&& b.max_funded_index == a.max_funded_index
            &&& b.done_initial_import == a.done_initial_import
        }
    &&& forall|k: int|
        0 <= k < w1.wallets@.len() && (forall|t: int|
            0 <= t < p.ceilings@.len() ==> (#[trigger] p.ceilings@[t]).0 != k) ==> w2.wallets@[k]
            == w1.wallets@[k]
    &&& forall|t: int|
        0 <= t < p.ceilings@.len() ==> w2.wallets@[(#[trigger] p.ceilings@[t]).0 as int].max_imported_index
            == Some(p.ceilings@[t].1)
}

/// Which configured input an error points at.
#[derive(Clone, Copy, Debug, PartialEq, Eq, Structural)]
pub enum ConfigEntry {
    Descriptor(usize),
    Xpub(usize),
    BareXpub(usize),
}

/// A configuration failure: what went wrong, and — for a rejected input —
/// which entry it was.
#[derive(Clone, Copy, Debug, PartialEq, Eq, Structural)]
pub struct ConfigError {
    pub error: WalletError,
    pub entry: Option<ConfigEntry>,
}

/// The descriptor text the `k`-th constructed wallet is built over: the
/// configured descriptors first, then the two chains (`/0/*`, `/1/*`) of
/// each xpub, then the bare xpubs (`/*`).
pub open spec fn config_text(
    descs: Seq<(String, RescanSince)>,
    xpubs: Seq<(XyzPubKey, RescanSince)>,
    bare_xpubs: Seq<(XyzPubKey, RescanSince)>,
    k: int,
) -> Seq<char> {
    if k < descs.len() {
        descs[k].0@
    } else if k < descs.len() + 2 * xpubs.len() {
        let j = (k - descs.len()) / 2;
        if (k - descs.len()) % 2 == 0 {
            desc_text_of(xpubs[j].0.script_type, xpubs[j].0.xpub@, seq![0u32])
        } else {
            desc_text_of(xpubs[j].0.script_type, xpubs[j].0.xpub@, seq![1u32])
        }
    } else {
        let b = k - descs.len() - 2 * xpubs.len();
        desc_text_of(bare_xpubs[b].0.script_type, bare_xpubs[b].0.xpub@, Seq::<u32>::empty())
    }
}

/// Whether the engine accepts every configured input on the network.
pub open spec fn config_all_accepted(
    descs: Seq<(String, RescanSince)>,
    xpubs: Seq<(XyzPubKey, RescanSince)>,
    bare_xpubs: Seq<(XyzPubKey, RescanSince)>,
    network: Network,
) -> bool {
    forall|k: int|
        0 <= k < descs.len() + 2 * xpubs.len() + bare_xpubs.len() ==> desc_accepted(
            #[trigger] config_text(descs, xpubs, bare_xpubs, k),
            network,
        )
}

/// The checksum the canonical form of an accepted descriptor text ends in.
pub open spec fn text_checksum(s: Seq<char>) -> Seq<char> {
    match desc_report_of(s) {
        Some(rep) => rep.0.subrange(rep.0.len() - 8, rep.0.len() as int),
        None => Seq::<char>::empty(),
    }
}

/// The error a rejected descriptor text draws: a parse or key failure is
/// an invalid descriptor; an accepted parse without an address
/// representation is reported as such.
pub open spec fn reject_error_of(s: Seq<char>) -> WalletError {
    if !(desc_report_of(s) is Some && desc_keys_ok(s)) {
        WalletError::InvalidDescriptor
    } else {
        WalletError::NoAddressRepresentation
    }
}

/// The configured input the `k`-th constructed wallet comes from.
pub open spec fn config_entry_of(
    descs: Seq<(String, RescanSince)>,
    xpubs: Seq<(XyzPubKey, RescanSince)>,
    bare_xpubs: Seq<(XyzPubKey, RescanSince)>,
    k: int,
) -> ConfigEntry {
    if k < descs.len() {
        ConfigEntry::Descriptor(k as usize)
    } else if k < descs.len() + 2 * xpubs.len() {
        ConfigEntry::Xpub(((k - descs.len()) / 2) as usize)
    } else {
        ConfigEntry::BareXpub((k - descs.len() - 2 * xpubs.len()) as usize)
    }
}

/// The flat positions of an xpub's two chains, and the inputs they name.
pub proof fn lemma_xpub_flat_index(
    descs: Seq<(String, RescanSince)>,
    xpubs: Seq<(XyzPubKey, RescanSince)>,
    bare_xpubs: Seq<(XyzPubKey, RescanSince)>,
    j: int,
)
    requires
        0 <= j < xpubs.len(),
    ensures
        config_text(descs, xpubs, bare_xpubs, descs.len() + 2 * j) == desc_text_of(
            xpubs[j].0.script_type,
            xpubs[j].0.xpub@,
            seq![0u32],
        ),
        config_text(descs, xpubs, bare_xpubs, descs.len() + 2 * j + 1) == desc_text_of(
            xpubs[j].0.script_type,
            xpubs[j].0.xpub@,
            seq![1u32],
        ),
        config_entry_of(descs, xpubs, bare_xpubs, descs.len() + 2 * j) == ConfigEntry::Xpub(
            j as usize,
        ),
        config_entry_of(descs, xpubs, bare_xpubs, descs.len() + 2 * j + 1) == ConfigEntry::Xpub(
            j as usize,
        ),
{
    let nd = descs.len() as int;
    let k0 = nd + 2 * j;
    let k1 = k0 + 1;
    assert((k0 - nd) % 2 == 0 && (k0 - nd) / 2 == j) by (nonlinear_arith)
        requires
            k0 == nd + 2 * j && j >= 0 && nd >= 0,
    ;
    assert((k1 - nd) % 2 == 1 && (k1 - nd) / 2 == j) by (nonlinear_arith)
        requires
            k1 == nd + 2 * j + 1 && j >= 0 && nd >= 0,
    ;
}

/// Every wallet of a fully built list matches the text of its flat
/// configured input, and bears that text's checksum.
pub proof fn lemma_config_flat_facts(
    wallets: Seq<Wallet>,
    descs: Seq<(String, RescanSince)>,
    xpubs: Seq<(XyzPubKey, RescanSince)>,
    bare_xpubs: Seq<(XyzPubKey, RescanSince)>,
)
    requires
        wallets.len() == descs.len() + 2 * xpubs.len() + bare_xpubs.len(),
        forall|t: int|
            0 <= t < descs.len() ==> wallet_matches_desc(#[trigger] wallets[t], descs[t].0@),
        forall|t: int|
            0 <= t < xpubs.len() ==> wallet_matches_desc(
                wallets[descs.len() + 2 * t],
                desc_text_of((#[trigger] xpubs[t]).0.script_type, xpubs[t].0.xpub@, seq![0u32]),
            ) && wallet_matches_desc(
                wallets[descs.len() + 2 * t + 1],
                desc_text_of(xpubs[t].0.script_type, xpubs[t].0.xpub@, seq![1u32]),
            ),
        forall|t: int|
            0 <= t < bare_xpubs.len() ==> wallet_matches_desc(
                wallets[descs.len() + 2 * xpubs.len() + t],
                desc_text_of(
                    (#[trigger] bare_xpubs[t]).0.script_type,
                    bare_xpubs[t].0.xpub@,
                    Seq::<u32>::empty(),
                ),
            ),
    ensures
        forall|k: int|
            0 <= k < wallets.len() ==> wallet_matches_desc(
                #[trigger] wallets[k],
                config_text(descs, xpubs, bare_xpubs, k),
            ),
        forall|k: int|
            0 <= k < wallets.len() ==> (#[trigger] wallets[k]).checksum@ == text_checksum(
                config_text(descs, xpubs, bare_xpubs, k),
            ),
{
    let nd = descs.len() as int;
    let nx = xpubs.len() as int;
    assert forall|k: int| 0 <= k < wallets.len() implies wallet_matches_desc(
        #[trigger] wallets[k],
        config_text(descs, xpubs, bare_xpubs, k),
    ) by {
        if k < nd {
        } else if k < nd + 2 * nx {
            let d = k - nd;
            vstd::arithmetic::div_mod::lemma_fundamental_div_mod(d, 2);
            let jj = d / 2;
            assert(0 <= jj < nx);
            if d % 2 == 0 {
                assert(k == nd + 2 * jj);
            } else {
                assert(k == nd + 2 * jj + 1);
            }
        } else {
        }
    }
    assert forall|k: int| 0 <= k < wallets.len() implies (#[trigger] wallets[k]).checksum@
        == text_checksum(config_text(descs, xpubs, bare_xpubs, k)) by {
        assert(wallet_matches_desc(wallets[k], config_text(descs, xpubs, bare_xpubs, k)));
    }
}

/// Whether two configured inputs would build wallets with the same
/// checksum.
pub open spec fn config_collision(
    descs: Seq<(String, RescanSince)>,
    xpubs: Seq<(XyzPubKey, RescanSince)>,
    bare_xpubs: Seq<(XyzPubKey, RescanSince)>,
) -> bool {
    exists|k1: int, k2: int|
        0 <= k1 < k2 < descs.len() + 2 * xpubs.len() + bare_xpubs.len() && text_checksum(
            #[trigger] config_text(descs, xpubs, bare_xpubs, k1),
        ) == text_checksum(#[trigger] config_text(descs, xpubs, bare_xpubs, k2))
}

/// The set of tracked wallets, keyed by descriptor checksum.
#[derive(Debug)]
pub struct WalletWatcher {
    pub wallets: Vec<Wallet>,
}

impl WalletWatcher {
    /// Well-formedness: every wallet is well-formed and no two share a
    /// checksum.
    pub open spec fn wf(&self) -> bool {
        &&& forall|i: int| 0 <= i < self.wallets@.len() ==> (#[trigger] self.wallets@[i]).wf()
        &&& forall|i: int, j: int|
            0 <= i < j < self.wallets@.len() ==> (#[trigger] self.wallets@[i]).checksum@ != (
            #[trigger] self.wallets@[j]).checksum@
    }

    /// Takes ownership of the wallets; rejects an empty set and any
    /// checksum collision.
    pub fn new(wallets: Vec<Wallet>) -> (r: Result<WalletWatcher, WalletError>)
        requires
            forall|i: int| 0 <= i < wallets@.len() ==> (#[trigger] wallets@[i]).wf(),
        ensures
            match r {
                Ok(w) => w.wallets@ == wallets@ && w.wf(),
                Err(e) => e == WalletError::NoWallets || e == WalletError::ChecksumCollision,
            },
            wallets@.len() == 0 <==> r == Err::<WalletWatcher, WalletError>(WalletError::NoWallets),
            wallets@.len() > 0 ==> ((exists|i: int, j: int|
                0 <= i < j < wallets@.len() && (#[trigger] wallets@[i]).checksum@ == (
                #[trigger] wallets@[j]).checksum@) <==> r == Err::<WalletWatcher, WalletError>(
                WalletError::ChecksumCollision,
            )),
    {
        if wallets.is_empty() {
            return Err(WalletError::NoWallets);
        }
        let n = wallets.len();
        let mut i: usize = 0;
        while i < n
            invariant
                0 <= i <= n,
                n == wallets@.len(),
                forall|a: int, b: int|
                    0 <= a < b < wallets@.len() && a < i ==> (#[trigger] wallets@[a]).checksum@ != (
                    #[trigger] wallets@[b]).checksum@,
            decreases n - i,
        {
            let mut j: usize = i + 1;
            while j < n
                invariant
                    0 <= i < j <= n,
                    n == wallets@.len(),
                    forall|b: int|
                        i < b < j ==> (#[trigger] wallets@[b]).checksum@ != wallets@[i as int].checksum@,
                decreases n - j,
            {
                if wallets[i].checksum.matches(&wallets[j].checksum) {
                    return Err(WalletError::ChecksumCollision);
                }
                j = j + 1;
            }
            i = i + 1;
        }
        Ok(WalletWatcher { wallets })
    }

    /// Builds the watcher from the configured inputs: one wallet per
    /// descriptor, two per xpub (external and change chains), one per bare
    /// xpub, in that order, each over its expanded descriptor text and
    /// paired with its rescan marker. Fails with a clear error when no
    /// input at all was supplied, names the offending entry when one is
    /// rejected, and reports a collision exactly when two accepted inputs
    /// share a checksum.
    #[verifier::loop_isolation(false)]
    #[verifier::rlimit(100)]
    pub fn from_config(
        descs: &Vec<(String, RescanSince)>,
        xpubs: &Vec<(XyzPubKey, RescanSince)>,
        bare_xpubs: &Vec<(XyzPubKey, RescanSince)>,
        network: Network,
        gap_limit: u32,
        initial_import_size: u32,
    ) -> (r: Result<WalletWatcher, ConfigError>)
        ensures
            (descs@.len() == 0 && xpubs@.len() == 0 && bare_xpubs@.len() == 0) <==> (r
                == Err::<WalletWatcher, ConfigError>(
                ConfigError { error: WalletError::NoWallets, entry: None },
            )),
            match r {
                Ok(w) => {
                    &&& w.wf()
                    &&& w.wallets@.len() == descs@.len() + 2 * xpubs@.len() + bare_xpubs@.len()
                    &&& forall|k: int|
                        0 <= k < w.wallets@.len() ==> wallet_matches_desc(
                            #[trigger] w.wallets@[k],
                            config_text(descs@, xpubs@, bare_xpubs@, k),
                        )
                    &&& forall|i: int|
                        0 <= i < descs@.len() ==> fresh_wallet_state(
                            #[trigger] w.wallets@[i],
                            network,
                            gap_limit,
                            initial_import_size,
                            descs@[i].1,
                        )
                    &&& forall|i: int|
                        0 <= i < xpubs@.len() ==> fresh_wallet_state(
                            w.wallets@[descs@.len() + 2 * i],
                            network,
                            gap_limit,
                            initial_import_size,
                            (#[trigger] xpubs@[i]).1,
                        ) && fresh_wallet_state(
                            w.wallets@[descs@.len() + 2 * i + 1],
                            network,
                            gap_limit,
                            initial_import_size,
                            xpubs@[i].1,
                        )
                    &&& forall|i: int|
                        0 <= i < bare_xpubs@.len() ==> fresh_wallet_state(
                            w.wallets@[descs@.len() + 2 * xpubs@.len() + i],
                            network,
                            gap_limit,
                            initial_import_size,
                            (#[trigger] bare_xpubs@[i]).1,
                        )
                },
                Err(e) => e.error == WalletError::NoWallets || e.error
                    == WalletError::ChecksumCollision || e.error == WalletError::InvalidGapLimit
                    || e.error == WalletError::NoAddressRepresentation || e.error
                    == WalletError::InvalidDescriptor,
            },
            (descs@.len() + 2 * xpubs@.len() + bare_xpubs@.len() > 0 && gap_config_ok(
                gap_limit,
                initial_import_size,
            ) && config_all_accepted(descs@, xpubs@, bare_xpubs@, network)) ==> ((r is Err)
                <==> config_collision(descs@, xpubs@, bare_xpubs@)),
            (descs@.len() + 2 * xpubs@.len() + bare_xpubs@.len() > 0 && gap_config_ok(
                gap_limit,
                initial_import_size,
            ) && config_all_accepted(descs@, xpubs@, bare_xpubs@, network) && config_collision(
                descs@,
                xpubs@,
                bare_xpubs@,
            )) ==> r == Err::<WalletWatcher, ConfigError>(
                ConfigError { error: WalletError::ChecksumCollision, entry: None },
            ),
            (gap_config_ok(gap_limit, initial_import_size) && exists|k: int|
                0 <= k < descs@.len() + 2 * xpubs@.len() + bare_xpubs@.len() && !desc_accepted(
                    #[trigger] config_text(descs@, xpubs@, bare_xpubs@, k),
                    network,
                )) ==> exists|kf: int|
                {
                    &&& 0 <= kf < descs@.len() + 2 * xpubs@.len() + bare_xpubs@.len()
                    &&& !desc_accepted(#[trigger] config_text(descs@, xpubs@, bare_xpubs@, kf), network)
                    &&& forall|k2: int|
                        0 <= k2 < kf ==> desc_accepted(
                            #[trigger] config_text(descs@, xpubs@, bare_xpubs@, k2),
                            network,
                        )
                    &&& r == Err::<WalletWatcher, ConfigError>(
                        ConfigError {
                            error: reject_error_of(config_text(descs@, xpubs@, bare_xpubs@, kf)),
                            entry: Some(config_entry_of(descs@, xpubs@, bare_xpubs@, kf)),
                        },
                    )
                },
    {
        let nd = descs.len();
        let nx = xpubs.len();
        let nb = bare_xpubs.len();
        let mut wallets: Vec<Wallet> = Vec::new();
        let mut i: usize = 0;
        while i < nd
            invariant
                0 <= i <= nd,
                nd == descs@.len(),
                wallets@.len() == i,
                forall|t: int|
                    0 <= t < i ==> wallet_matches_desc(#[trigger] wallets@[t], descs@[t].0@)
                        && fresh_wallet_state(
                        wallets@[t],
                        network,
                        gap_limit,
                        initial_import_size,
                        descs@[t].1,
                    ),
                gap_config_ok(gap_limit, initial_import_size) ==> forall|kk: int|
                    0 <= kk < i ==> desc_accepted(
                        #[trigger] config_text(descs@, xpubs@, bare_xpubs@, kk),
                        network,
                    ),
            decreases nd - i,
        {
            let w = match Wallet::from_descriptor(
                descs[i].0.clone(),
                network,
                gap_limit,
                initial_import_size,
                descs[i].1,
            ) {
                Ok(w) => w,
                Err(e) => {
                    proof {
                        if gap_config_ok(gap_limit, initial_import_size) {
                            assert(config_text(descs@, xpubs@, bare_xpubs@, i as int)
                                == descs@[i as int].0@);
                            assert(!desc_accepted(
                                config_text(descs@, xpubs@, bare_xpubs@, i as int),
                                network,
                            ));
                            assert(reject_error_of(config_text(descs@, xpubs@, bare_xpubs@, i as int))
                                == e);
                            assert(config_entry_of(descs@, xpubs@, bare_xpubs@, i as int)
                                == ConfigEntry::Descriptor(i));
                        }
                    }
                    return Err(ConfigError { error: e, entry: Some(ConfigEntry::Descriptor(i)) });
                },
            };
            proof {
                assert(config_text(descs@, xpubs@, bare_xpubs@, i as int) == descs@[i as int].0@);
            }
            wallets.push(w);
            i = i + 1;
        }
        let mut j: usize = 0;
        while j < nx
            invariant
                0 <= j <= nx,
                nd == descs@.len(),
                nx == xpubs@.len(),
                wallets@.len() == nd + 2 * j,
                forall|t: int|
                    0 <= t < nd ==> wallet_matches_desc(#[trigger] wallets@[t], descs@[t].0@)
                        && fresh_wallet_state(
                        wallets@[t],
                        network,
                        gap_limit,
                        initial_import_size,
                        descs@[t].1,
                    ),
                forall|t: int|
                    0 <= t < j ==> wallet_matches_desc(
                        wallets@[nd + 2 * t],
                        desc_text_of((#[trigger] xpubs@[t]).0.script_type, xpubs@[t].0.xpub@, seq![0u32]),
                    ) && wallet_matches_desc(
                        wallets@[nd + 2 * t + 1],
                        desc_text_of(xpubs@[t].0.script_type, xpubs@[t].0.xpub@, seq![1u32]),
                    ) && fresh_wallet_state(
                        wallets@[nd + 2 * t],
                        network,
                        gap_limit,
                        initial_import_size,
                        xpubs@[t].1,
                    ) && fresh_wallet_state(
                        wallets@[nd + 2 * t + 1],
                        network,
                        gap_limit,
                        initial_import_size,
                        xpubs@[t].1,
                    ),
                gap_config_ok(gap_limit, initial_import_size) ==> forall|kk: int|
                    0 <= kk < nd + 2 * j ==> desc_accepted(
                        #[trigger] config_text(descs@, xpubs@, bare_xpubs@, kk),
                        network,
                    ),
            decreases nx - j,
        {
            let mut pair = match Wallet::from_xpub(
                &xpubs[j].0,
                network,
                gap_limit,
                initial_import_size,
                xpubs[j].1,
            ) {
                Ok(v) => v,
                Err(e) => {
                    proof {
                        if gap_config_ok(gap_limit, initial_import_size) {
                            lemma_xpub_flat_index(descs@, xpubs@, bare_xpubs@, j as int);
                            let k0 = nd + 2 * j as int;
                            let k1 = k0 + 1;
                            if !desc_accepted(config_text(descs@, xpubs@, bare_xpubs@, k0), network) {
                                assert(reject_error_of(config_text(descs@, xpubs@, bare_xpubs@, k0))
                                    == e);
                            } else {
                                assert(!desc_accepted(
                                    config_text(descs@, xpubs@, bare_xpubs@, k1),
                                    network,
                                ));
                                assert(reject_error_of(config_text(descs@, xpubs@, bare_xpubs@, k1))
                                    == e);
                            }
                        }
                    }
                    return Err(ConfigError { error: e, entry: Some(ConfigEntry::Xpub(j)) });
                },
            };
            proof {
                lemma_xpub_flat_index(descs@, xpubs@, bare_xpubs@, j as int);
            }
            wallets.append(&mut pair);
            j = j + 1;
        }
        let mut b: usize = 0;
        while b < nb
            invariant
                0 <= b <= nb,
                nd == descs@.len(),
                nx == xpubs@.len(),
                nb == bare_xpubs@.len(),
                wallets@.len() == nd + 2 * nx + b,
                forall|t: int|
                    0 <= t < nd ==> wallet_matches_desc(#[trigger] wallets@[t], descs@[t].0@)
                        && fresh_wallet_state(
                        wallets@[t],
                        network,
                        gap_limit,
                        initial_import_size,
                        descs@[t].1,
                    ),
                forall|t: int|
                    0 <= t < nx ==> wallet_matches_desc(
                        wallets@[nd + 2 * t],
                        desc_text_of((#[trigger] xpubs@[t]).0.script_type, xpubs@[t].0.xpub@, seq![0u32]),
                    ) && wallet_matches_desc(
                        wallets@[nd + 2 * t + 1],
                        desc_text_of(xpubs@[t].0.script_type, xpubs@[t].0.xpub@, seq![1u32]),
                    ) && fresh_wallet_state(
                        wallets@[nd + 2 * t],
                        network,
                        gap_limit,
                        initial_import_size,
                        xpubs@[t].1,
                    ) && fresh_wallet_state(
                        wallets@[nd + 2 * t + 1],
                        network,
                        gap_limit,
                        initial_import_size,
                        xpubs@[t].1,
                    ),
                forall|t: int|
                    0 <= t < b ==> wallet_matches_desc(
                        wallets@[nd + 2 * nx + t],
                        desc_text_of(
                            (#[trigger] bare_xpubs@[t]).0.script_type,
                            bare_xpubs@[t].0.xpub@,
                            Seq::<u32>::empty(),
                        ),
                    ) && fresh_wallet_state(
                        wallets@[nd + 2 * nx + t],
                        network,
                        gap_limit,
                        initial_import_size,
                        bare_xpubs@[t].1,
                    ),
                gap_config_ok(gap_limit, initial_import_size) ==> forall|kk: int|
                    0 <= kk < nd + 2 * nx + b ==> desc_accepted(
                        #[trigger] config_text(descs@, xpubs@, bare_xpubs@, kk),
                        network,
                    ),
            decreases nb - b,
        {
            let w = match Wallet::from_bare_xpub(
                &bare_xpubs[b].0,
                network,
                gap_limit,
                initial_import_size,
                bare_xpubs[b].1,
            ) {
                Ok(w) => w,
                Err(e) => {
                    proof {
                        if gap_config_ok(gap_limit, initial_import_size) {
                            let kb = nd + 2 * nx + b as int;
                            assert(config_text(descs@, xpubs@, bare_xpubs@, kb) == desc_text_of(
                                bare_xpubs@[b as int].0.script_type,
                                bare_xpubs@[b as int].0.xpub@,
                                Seq::<u32>::empty(),
                            ));
                            assert(!desc_accepted(
                                config_text(descs@, xpubs@, bare_xpubs@, kb),
                                network,
                            ));
                            assert(reject_error_of(config_text(descs@, xpubs@, bare_xpubs@, kb))
                                == e);
                            assert(config_entry_of(descs@, xpubs@, bare_xpubs@, kb)
                                == ConfigEntry::BareXpub(b));
                        }
                    }
                    return Err(ConfigError { error: e, entry: Some(ConfigEntry::BareXpub(b)) });
                },
            };
            proof {
                assert(config_text(descs@, xpubs@, bare_xpubs@, nd + 2 * nx + b as int)
                    == desc_text_of(
                    bare_xpubs@[b as int].0.script_type,
                    bare_xpubs@[b as int].0.xpub@,
                    Seq::<u32>::empty(),
                ));
            }
            wallets.push(w);
            b = b + 1;
        }
        if wallets.is_empty() {
            return Err(ConfigError { error: WalletError::NoWallets, entry: None });
        }
        proof {
            lemma_config_flat_facts(wallets@, descs@, xpubs@, bare_xpubs@);
        }
        let r = Self::new(wallets);
        proof {
            let total = descs@.len() + 2 * xpubs@.len() + bare_xpubs@.len();
            if r is Err {
                let (i1, i2) = choose|i1: int, i2: int|
                    0 <= i1 < i2 < wallets@.len() && (#[trigger] wallets@[i1]).checksum@ == (
                    #[trigger] wallets@[i2]).checksum@;
                assert(text_checksum(config_text(descs@, xpubs@, bare_xpubs@, i1)) == text_checksum(
                    config_text(descs@, xpubs@, bare_xpubs@, i2),
                ));
                assert(config_collision(descs@, xpubs@, bare_xpubs@));
            }
            if config_collision(descs@, xpubs@, bare_xpubs@) {
                let (k1, k2) = choose|k1: int, k2: int|
                    0 <= k1 < k2 < total && text_checksum(
                        #[trigger] config_text(descs@, xpubs@, bare_xpubs@, k1),
                    ) == text_checksum(#[trigger] config_text(descs@, xpubs@, bare_xpubs@, k2));
                assert(wallets@[k1].checksum@ == wallets@[k2].checksum@);
                assert(r is Err);
            }
        }
        match r {
            Ok(w) => Ok(w),
            Err(e) => Err(ConfigError { error: e, entry: None }),
        }
    }

    /// A read view of the wallets.
    pub fn wallets(&self) -> (r: &Vec<Wallet>)
        ensures
            r == &self.wallets,
    {
        &self.wallets
    }

    /// The wallet with the given checksum, if tracked.
    pub fn get(&self, checksum: &Checksum) -> (r: Option<&Wallet>)
        ensures
            match r {
                Some(w) => exists|i: int|
                    0 <= i < self.wallets@.len() && *w == #[trigger] self.wallets@[i] && w.checksum@
                        == checksum@,
                None => forall|i: int|
                    0 <= i < self.wallets@.len() ==> (#[trigger] self.wallets@[i]).checksum@
                        != checksum@,
            },
    {
        let n = self.wallets.len();
        let mut i: usize = 0;
        while i < n
            invariant
                0 <= i <= n,
                n == self.wallets@.len(),
                forall|j: int|
                    0 <= j < i ==> (#[trigger] self.wallets@[j]).checksum@ != checksum@,
            decreases n - i,
        {
            if self.wallets[i].checksum.matches(checksum) {
                return Some(&self.wallets[i]);
            }
            i = i + 1;
        }
        None
    }

    /// Records a funded origin: the matching wallet (if any) raises its
    /// funded and imported ceilings to the origin's index. Standalone
    /// origins and unknown checksums change nothing; no wallet's watch
    /// index ever decreases.
    #[verifier::loop_isolation(false)]
    pub fn mark_funded(&mut self, origin: &KeyOrigin)
        requires
            old(self).wf(),
        ensures
            final(self).wf(),
            final(self).wallets@.len() == old(self).wallets@.len(),
            forall|i: int|
                0 <= i < old(self).wallets@.len() ==> (#[trigger] final(self).wallets@[i]).spec_watch_index()
                    >= old(self).wallets@[i].spec_watch_index(),
            origin is Standalone ==> final(self).wallets@ == old(self).wallets@,
            origin matches KeyOrigin::Descriptor(c, idx) ==> ({
                &&& forall|i: int|
                    0 <= i < old(self).wallets@.len() && (#[trigger] old(
                        self,
                    ).wallets@[i]).checksum@ != c@ ==> final(self).wallets@[i] == old(
                        self,
                    ).wallets@[i]
                &&& forall|i: int|
                    0 <= i < old(self).wallets@.len() && (#[trigger] old(
                        self,
                    ).wallets@[i]).checksum@ == c@ ==> funding_effect(
                        old(self).wallets@[i],
                        final(self).wallets@[i],
                        *idx,
                    )
            }),
    {
        match origin {
            KeyOrigin::Standalone => {},
            KeyOrigin::Descriptor(checksum, index) => {
                let n = self.wallets.len();
                let mut i: usize = 0;
                while i < n
                    invariant
                        0 <= i <= n,
                        self.wf(),
                        n == self.wallets@.len(),
                        self.wallets@ == old(self).wallets@,
                        forall|j: int|
                            0 <= j < i ==> (#[trigger] self.wallets@[j]).checksum@ != checksum@,
                    decreases n - i,
                {
                    if self.wallets[i].checksum.matches(checksum) {
                        self.wallets[i].record_funding(*index);
                        return ;
                    }
                    i = i + 1;
                }
            },
        }
    }

    /// Reconciles with the node's label list: for each wallet, the largest
    /// usable index any of this indexer's labels claims becomes its
    /// imported ceiling, and its initial import counts as done. Foreign
    /// labels, unknown checksums and unusable indices are ignored.
    pub fn check_imports(&mut self, labels: &Vec<String>)
        requires
            old(self).wf(),
        ensures
            final(self).wf(),
            final(self).wallets@.len() == old(self).wallets@.len(),
            forall|k: int|
                0 <= k < old(self).wallets@.len() ==> check_effect(
                    labels@,
                    #[trigger] old(self).wallets@[k],
                    final(self).wallets@[k],
                ),
    {
        let n = self.wallets.len();
        let nl = labels.len();
        let mut k: usize = 0;
        while k < n
            invariant
                0 <= k <= n,
                self.wf(),
                n == self.wallets@.len(),
                nl == labels@.len(),
                self.wallets@.len() == old(self).wallets@.len(),
                forall|t: int|
                    k <= t < n ==> #[trigger] self.wallets@[t] == old(self).wallets@[t],
                forall|t: int|
                    0 <= t < k ==> check_effect(
                        labels@,
                        #[trigger] old(self).wallets@[t],
                        self.wallets@[t],
                    ),
            decreases n - k,
        {
            let mut found = false;
            let mut best: u32 = 0;
            let mut j: usize = 0;
            while j < nl
                invariant
                    0 <= j <= nl,
                    0 <= k < n,
                    self.wf(),
                    n == self.wallets@.len(),
                    nl == labels@.len(),
                    self.wallets@[k as int] == old(self).wallets@[k as int],
                    found ==> self.wallets@[k as int].spec_is_valid_index(best)
                        && some_label_funds(labels@, self.wallets@[k as int].checksum@, best),
                    forall|i: u32|
                        (exists|jj: int|
                            0 <= jj < j && label_denotes(
                                (#[trigger] labels@[jj])@,
                                self.wallets@[k as int].checksum@,
                                i,
                            )) && self.wallets@[k as int].spec_is_valid_index(i) ==> found && i
                            <= best,
                decreases nl - j,
            {
                match KeyOrigin::from_label(labels[j].as_str()) {
                    Some(o) => {
                        match &o {
                            KeyOrigin::Descriptor(c, idx) => {
                                let valid = self.wallets[k].is_valid_index(*idx);
                                if c.matches(&self.wallets[k].checksum) && valid {
                                    if !found || *idx > best {
                                        best = *idx;
                                        found = true;
                                    }
                                    proof {
                                        assert(label_denotes(
                                            labels@[j as int]@,
                                            self.wallets@[k as int].checksum@,
                                            *idx,
                                        ));
                                    }
                                } else {
                                    proof {
                                        assert forall|i: u32|
                                            !label_denotes(
                                                labels@[j as int]@,
                                                self.wallets@[k as int].checksum@,
                                                i,
                                            ) || !self.wallets@[k as int].spec_is_valid_index(
                                                i,
                                            ) by {
                                            if label_denotes(
                                                labels@[j as int]@,
                                                self.wallets@[k as int].checksum@,
                                                i,
                                            ) {
                                                assert(label_denotes(labels@[j as int]@, c@, *idx));
                                                assert(self.wallets@[k as int].checksum@
                                                    == labels@[j as int]@.subrange(4, 12));
                                            }
                                        }
                                    }
                                }
                            },
                            KeyOrigin::Standalone => {
                                proof {
                                    assert(labels@[j as int]@ == label_prefix());
                                    assert forall|i: u32|
                                        !label_denotes(
                                            labels@[j as int]@,
                                            self.wallets@[k as int].checksum@,
                                            i,
                                        ) by {}
                                }
                            },
                        }
                    },
                    None => {},
                }
                j = j + 1;
            }
            if found {
                self.wallets[k].adopt_import_ceiling(best);
                proof {
                    assert(check_effect(
                        labels@,
                        old(self).wallets@[k as int],
                        self.wallets@[k as int],
                    ));
                }
            } else {
                proof {
                    assert forall|i: u32|
                        !(some_label_funds(labels@, old(self).wallets@[k as int].checksum@, i)
                            && old(self).wallets@[k as int].spec_is_valid_index(i)) by {}
                    assert(check_effect(
                        labels@,
                        old(self).wallets@[k as int],
                        self.wallets@[k as int],
                    ));
                }
            }
            k = k + 1;
        }
    }

    /// Plans the import batch: for each wallet whose watch index has
    /// outgrown its imported ceiling, the requests for the missing index
    /// range, plus the ceiling to adopt once the node confirms. A wallet
    /// with nothing to import and its initial import still pending has it
    /// marked done (the end of the first-run cold-import phase). There are
    /// requests exactly when some wallet needs growth.
    #[verifier::loop_isolation(false)]
    pub fn do_imports(&mut self, rescan: bool) -> (r: Result<PendingImports, WalletError>)
        requires
            old(self).wf(),
        ensures
            final(self).wf(),
            final(self).wallets@.len() == old(self).wallets@.len(),
            forall|k: int|
                0 <= k < old(self).wallets@.len() ==> {
                    let a = #[trigger] old(self).wallets@[k];
                    let b = final(self).wallets@[k];
                    &&& same_config(b, a)
                    &&& b.max_funded_index == a.max_funded_index
                    &&& b.max_imported_index == a.max_imported_index
                    &&& (a.done_initial_import ==> b.done_initial_import)
                },
            match r {
                Ok(p) => planned(*old(self), *final(self), p, rescan),
                Err(e) => e == WalletError::DerivationFailed || e
                    == WalletError::IndexSpaceExhausted,
            },
            r == Err::<PendingImports, WalletError>(WalletError::IndexSpaceExhausted)
                ==> exists|k: int|
                0 <= k < old(self).wallets@.len() && (#[trigger] old(
                    self,
                ).wallets@[k]).spec_needs_import() && old(self).wallets@[k].spec_watch_index()
                    > 0x7FFF_FFFF,
            r == Err::<PendingImports, WalletError>(WalletError::DerivationFailed)
                ==> exists|k: int, idx: u32|
                0 <= k < old(self).wallets@.len() && old(self).wallets@[k].spec_needs_import()
                    && spec_import_start(old(self).wallets@[k]) <= idx <= old(
                    self,
                ).wallets@[k].spec_watch_index() && (#[trigger] derived_address_of(
                    old(self).wallets@[k].desc@,
                    old(self).wallets@[k].network,
                    idx,
                )) is None,
            (forall|k: int|
                0 <= k < old(self).wallets@.len() && (#[trigger] old(
                    self,
                ).wallets@[k]).spec_needs_import() ==> old(self).wallets@[k].spec_watch_index()
                    <= 0x7FFF_FFFF && forall|idx: u32|
                    spec_import_start(old(self).wallets@[k]) <= idx <= old(
                        self,
                    ).wallets@[k].spec_watch_index() ==> (#[trigger] derived_address_of(
                        old(self).wallets@[k].desc@,
                        old(self).wallets@[k].network,
                        idx,
                    )) is Some) ==> r is Ok,
    {
        let n = self.wallets.len();
        let mut reqs: Vec<ImportRequest> = Vec::new();
        let mut ceilings: Vec<(usize, u32)> = Vec::new();
        let mut k: usize = 0;
        while k < n
            invariant
                0 <= k <= n,
                self.wf(),
                n == self.wallets@.len(),
                self.wallets@.len() == old(self).wallets@.len(),
                forall|t: int|
                    k <= t < n ==> #[trigger] self.wallets@[t] == old(self).wallets@[t],
                forall|t: int|
                    0 <= t < k ==> {
                        let a = #[trigger] old(self).wallets@[t];
                        let b = self.wallets@[t];
                        &&& same_config(b, a)
                        &&& b.max_funded_index == a.max_funded_index
                        &&& b.max_imported_index == a.max_imported_index
                        &&& (if a.spec_needs_import() {
                            b == a
                        } else {
                            b.done_initial_import && b.spec_watch_index() <= a.spec_watch_index()
                        })
                    },
                forall|ti: int|
                    0 <= ti < ceilings@.len() ==> {
                        let e = #[trigger] ceilings@[ti];
                        &&& 0 <= e.0 < k
                        &&& old(self).wallets@[e.0 as int].spec_needs_import()
                        &&& e.1 as int == old(self).wallets@[e.0 as int].spec_watch_index()
                        &&& e.1 < 0x8000_0000
                    },
                forall|t1: int, t2: int|
                    0 <= t1 < t2 < ceilings@.len() ==> (#[trigger] ceilings@[t1]).0 != (
                    #[trigger] ceilings@[t2]).0,
                forall|t: int|
                    0 <= t < k && (#[trigger] old(self).wallets@[t]).spec_needs_import() ==> exists|
                        ti: int,
                    |
                        0 <= ti < ceilings@.len() && (#[trigger] ceilings@[ti]).0 == t,
                (reqs@.len() > 0) == (exists|t: int|
                    0 <= t < k && (#[trigger] old(self).wallets@[t]).spec_needs_import()),
                reqs@.len() == planned_reqs_len(*old(self), ceilings@, ceilings@.len() as int),
                forall|ti: int|
                    0 <= ti < ceilings@.len() ==> #[trigger] reqs_cover_entry(
                        *old(self),
                        ceilings@,
                        reqs@,
                        ti,
                        rescan,
                    ),
            decreases n - k,
        {
            let watch = self.wallets[k].watch_index();
            let need = match self.wallets[k].max_imported_index {
                None => true,
                Some(m) => watch > m,
            };
            if need {
                if watch > 0x7FFF_FFFF {
                    proof {
                        assert(old(self).wallets@[k as int].spec_needs_import());
                        assert(old(self).wallets@[k as int].spec_watch_index() > 0x7FFF_FFFF);
                    }
                    return Err(WalletError::IndexSpaceExhausted);
                }
                let start = match self.wallets[k].max_imported_index {
                    None => 0,
                    Some(m) => m + 1,
                };
                let mut batch = match self.wallets[k].make_imports(start, watch, rescan) {
                    Ok(b) => b,
                    Err(e) => {
                        proof {
                            let a = old(self).wallets@[k as int];
                            assert(a.spec_needs_import());
                            assert(start as int == spec_import_start(a));
                            let idx = choose|idx: u32|
                                start <= idx <= watch && #[trigger] derived_address_of(
                                    a.desc@,
                                    a.network,
                                    idx,
                                ) is None;
                            assert(derived_address_of(a.desc@, a.network, idx) is None);
                        }
                        return Err(e);
                    },
                };
                proof {
                    assert(batch@.len() >= 1);
                    assert(old(self).wallets@[k as int].spec_needs_import());
                }
                let ghost w0 = *old(self);
                let ghost reqs0 = reqs@;
                let ghost batch0 = batch@;
                reqs.append(&mut batch);
                let ghost ceil0 = ceilings@;
                ceilings.push((k, watch));
                proof {
                    assert forall|t: int|
                        0 <= t <= k as int && (#[trigger] old(
                            self,
                        ).wallets@[t]).spec_needs_import() implies exists|ti: int|
                        0 <= ti < ceilings@.len() && (#[trigger] ceilings@[ti]).0 == t by {
                        if t < k as int {
                            let ti = choose|ti: int|
                                0 <= ti < ceil0.len() && (#[trigger] ceil0[ti]).0 == t;
                            assert(ceilings@[ti].0 == t);
                        } else {
                            assert(ceilings@[ceil0.len() as int].0 == k as int);
                        }
                    }
                    // the request list bookkeeping: the new entry's range
                    // sits at the cumulative offset, earlier entries are
                    // untouched
                    let e = (k, watch);
                    let a = w0.wallets@[k as int];
                    assert(start as int == spec_import_start(a));
                    assert(entry_range_len(w0, e) == watch - start + 1);
                    assert(reqs@ =~= reqs0 + batch0);
                    lemma_reqs_len_prefix(w0, ceilings@, ceil0, ceil0.len() as int);
                    assert(planned_reqs_len(w0, ceilings@, ceil0.len() as int) == reqs0.len());
                    assert(planned_reqs_len(w0, ceilings@, ceilings@.len() as int) == reqs0.len()
                        + entry_range_len(w0, e));
                    assert(reqs@.len() == planned_reqs_len(w0, ceilings@, ceilings@.len() as int));
                    assert forall|i: int|
                        0 <= i < ceilings@.len() implies #[trigger] entry_range_len(
                        w0,
                        ceilings@[i],
                    ) >= 0 by {
                        if i < ceil0.len() {
                            assert(ceilings@[i] == ceil0[i]);
                            let ee = ceil0[i];
                            assert(w0.wallets@[ee.0 as int].spec_needs_import());
                        }
                    }
                    assert forall|ti: int|
                        0 <= ti < ceilings@.len() implies #[trigger] reqs_cover_entry(
                        w0,
                        ceilings@,
                        reqs@,
                        ti,
                        rescan,
                    ) by {
                        lemma_reqs_len_prefix(w0, ceilings@, ceil0, ti);
                        if ti < ceil0.len() {
                            assert(reqs_cover_entry(w0, ceil0, reqs0, ti, rescan));
                            lemma_reqs_len_prefix(w0, ceil0, ceilings@, ti + 1);
                            lemma_reqs_len_mono(w0, ceilings@, ti + 1, ceil0.len() as int);
                            lemma_reqs_len_mono(w0, ceilings@, 0, ti);
                            let off = planned_reqs_len(w0, ceil0, ti);
                            assert(off == planned_reqs_len(w0, ceilings@, ti));
                            assert(ceilings@[ti] == ceil0[ti]);
                            assert(planned_reqs_len(w0, ceilings@, ti + 1) == planned_reqs_len(
                                w0,
                                ceilings@,
                                ti,
                            ) + entry_range_len(w0, ceilings@[ti]));
                            assert(planned_reqs_len(w0, ceilings@, ti + 1) <= planned_reqs_len(
                                w0,
                                ceilings@,
                                ceil0.len() as int,
                            ));
                            assert(planned_reqs_len(w0, ceilings@, ceil0.len() as int)
                                == reqs0.len());
                            assert forall|q: int|
                                0 <= q < entry_range_len(w0, ceilings@[ti]) implies import_req_ok(
                                w0.wallets@[ceilings@[ti].0 as int],
                                (spec_import_start(w0.wallets@[ceilings@[ti].0 as int]) + q) as u32,
                                #[trigger] reqs@[off + q],
                                rescan,
                            ) by {
                                assert(off + q < reqs0.len());
                                assert(reqs@[off + q] == reqs0[off + q]);
                                assert(import_req_ok(
                                    w0.wallets@[ceil0[ti].0 as int],
                                    (spec_import_start(w0.wallets@[ceil0[ti].0 as int]) + q) as u32,
                                    reqs0[off + q],
                                    rescan,
                                ));
                            }
                        } else {
                            let off = planned_reqs_len(w0, ceilings@, ti);
                            assert(off == reqs0.len());
                            assert forall|q: int|
                                0 <= q < entry_range_len(w0, e) implies import_req_ok(
                                a,
                                (spec_import_start(a) + q) as u32,
                                #[trigger] reqs@[off + q],
                                rescan,
                            ) by {
                                assert(reqs@[off + q] == batch0[q]);
                                assert(derived_address_of(a.desc@, a.network, (start + q) as u32)
                                    == Some(batch0[q].address@));
                                assert(batch0[q].label@ == label_of(
                                    KeyOrigin::Descriptor(a.checksum, (start + q) as u32),
                                ));
                            }
                        }
                    }
                }
            } else {
                if !self.wallets[k].done_initial_import {
                    self.wallets[k].finish_initial_import();
                }
            }
            k = k + 1;
        }
        let p = PendingImports { reqs, ceilings };
        proof {
            assert forall|t: int|
                0 <= t < old(self).wallets@.len() && (#[trigger] old(
                    self,
                ).wallets@[t]).spec_needs_import() implies exists|ti: int|
                0 <= ti < p.ceilings@.len() && (#[trigger] p.ceilings@[ti]).0 == t by {
                let ti = choose|ti: int|
                    0 <= ti < ceilings@.len() && (#[trigger] ceilings@[ti]).0 == t;
                assert(p.ceilings@[ti].0 == t);
            }
            assert forall|t: int|
                0 <= t < p.ceilings@.len() implies #[trigger] reqs_cover_entry(
                *old(self),
                p.ceilings@,
                p.reqs@,
                t,
                rescan,
            ) by {
                assert(reqs_cover_entry(*old(self), ceilings@, reqs@, t, rescan));
            }
        }
        Ok(p)
    }

    /// Adopts the confirmed import batch: each wallet with a ceiling entry
    /// takes it as its imported ceiling. Call only after the node accepted
    /// every request of the batch.
    #[verifier::loop_isolation(false)]
    pub fn apply_imports(&mut self, pending: &PendingImports)
        requires
            old(self).wf(),
            forall|t: int|
                0 <= t < pending.ceilings@.len() ==> {
                    let e = #[trigger] pending.ceilings@[t];
                    &&& 0 <= e.0 < old(self).wallets@.len()
                    &&& e.1 < 0x8000_0000
                    &&& e.1 as int == old(self).wallets@[e.0 as int].spec_watch_index()
                },
        ensures
            final(self).wf(),
            applied(*old(self), *final(self), *pending),
    {
        let m = pending.ceilings.len();
        let mut t: usize = 0;
        while t < m
            invariant
                0 <= t <= m,
                self.wf(),
                m == pending.ceilings@.len(),
                self.wallets@.len() == old(self).wallets@.len(),
                forall|k: int|
                    0 <= k < old(self).wallets@.len() ==> {
                        let a = #[trigger] old(self).wallets@[k];
                        let b = self.wallets@[k];
                        &&& same_config(b, a)
                        &&& b.max_funded_index == a.max_funded_index
                        &&& b.done_initial_import == a.done_initial_import
                        &&& b.spec_watch_index() == a.spec_watch_index()
                    },
                forall|k: int|
                    0 <= k < old(self).wallets@.len() && (forall|tt: int|
                        0 <= tt < t ==> (#[trigger] pending.ceilings@[tt]).0 != k) ==> self.wallets@[k]
                        == old(self).wallets@[k],
                forall|tt: int|
                    0 <= tt < t ==> self.wallets@[(#[trigger] pending.ceilings@[tt]).0 as int].max_imported_index
                        == Some(pending.ceilings@[tt].1),
            decreases m - t,
        {
            let entry = pending.ceilings[t];
            let k = entry.0;
            let c = entry.1;
            self.wallets[k].confirm_imported(c);
            t = t + 1;
        }
    }
}

/// The position of the first entry the node rejected in an import batch,
/// if any. Any rejected entry is fatal to the round: the invariant that
/// addresses believed imported are actually imported must hold, so the
/// confirmed ceilings may be adopted only when this returns `None`.
pub fn first_failed_import(successes: &Vec<bool>) -> (r: Option<usize>)
    ensures
        match r {
            Some(i) => i < successes@.len() && !successes@[i as int] && forall|j: int|
                0 <= j < i ==> successes@[j],
            None => forall|j: int| 0 <= j < successes@.len() ==> successes@[j],
        },
{
    let n = successes.len();
    let mut i: usize = 0;
    while i < n
        invariant
            0 <= i <= n,
            n == successes@.len(),
            forall|j: int| 0 <= j < i ==> successes@[j],
        decreases n - i,
    {
        if !successes[i] {
            return Some(i);
        }
        i = i + 1;
    }
    None
}

/// Once a planning pass found nothing to import, the watcher is at its
/// fixed point: no wallet needs growth afterwards either, so the next pass
/// finds nothing as well.
pub proof fn lemma_no_imports_is_fixed_point(
    w0: WalletWatcher,
    w1: WalletWatcher,
    p: PendingImports,
    rescan: bool,
)
    requires
        planned(w0, w1, p, rescan),
        p.reqs@.len() == 0,
    ensures
        forall|k: int|
            0 <= k < w1.wallets@.len() ==> !(#[trigger] w1.wallets@[k]).spec_needs_import(),
{
    assert forall|k: int|
        0 <= k < w1.wallets@.len() implies !(#[trigger] w1.wallets@[k]).spec_needs_import() by {
        let a = w0.wallets@[k];
        let b = w1.wallets@[k];
        assert(!a.spec_needs_import());
        assert(b.spec_watch_index() <= a.spec_watch_index());
    }
}

/// After a planning pass and the confirmation of its batch, every wallet's
/// imported ceiling covers the watch index it had when planning began.
pub proof fn lemma_imports_cover_watch(
    w0: WalletWatcher,
    w1: WalletWatcher,
    w2: WalletWatcher,
    p: PendingImports,
    rescan: bool,
)
    requires
        planned(w0, w1, p, rescan),
        applied(w1, w2, p),
    ensures
        forall|k: int|
            0 <= k < w0.wallets@.len() ==> match (#[trigger] w2.wallets@[k]).max_imported_index {
                Some(m) => m as int >= w0.wallets@[k].spec_watch_index(),
                None => false,
            },
{
    assert forall|k: int|
        0 <= k < w0.wallets@.len() implies match (#[trigger] w2.wallets@[k]).max_imported_index {
        Some(m) => m as int >= w0.wallets@[k].spec_watch_index(),
        None => false,
    } by {
        let a = w0.wallets@[k];
        if a.spec_needs_import() {
            let ti = choose|ti: int|
                0 <= ti < p.ceilings@.len() && (#[trigger] p.ceilings@[ti]).0 == k;
            assert(w2.wallets@[k].max_imported_index == Some(p.ceilings@[ti].1));
        } else {
            assert(w2.wallets@[k].max_imported_index == w1.wallets@[k].max_imported_index);
        }
    }
}

} // verus!
