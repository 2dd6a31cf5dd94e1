//! One tracked wallet: a ranged (or single-address) output descriptor with
//! the indices the watcher has seen funded and announced to the node.

use vstd::prelude::*;
use vstd::string::StrSliceExecFns;
use crate::types::{Network, RescanSince, WalletError};
use crate::labels::{Checksum, KeyOrigin, label_of};
use crate::descriptor::{Bip32Origin, KeyInfo, derived_address_of, desc_report_of, desc_keys_ok,
    desc_addressable_of, desc_addressable, desc_derive_address, inspect};
use crate::store::MemoryStore;
use crate::xpub::{XyzPubKey, desc_text_of};

verus! {

/// One address the node is asked to import: the address text, the rescan
/// marker, and the label that ties it back to its origin.
#[derive(Debug)]
pub struct ImportRequest {
    pub address: String,
    pub rescan: RescanSince,
    pub label: String,
}

/// An optional index raised to at least `i`.
pub open spec fn raised(cur: Option<u32>, i: u32) -> Option<u32> {
    match cur {
        None => Some(i),
        Some(m) => if i > m {
            Some(i)
        } else {
            Some(m)
        },
    }
}

/// The windows a wallet can be configured with: a positive gap limit and
/// an effective first-run window inside the unhardened index space.
pub open spec fn gap_config_ok(gap_limit: u32, initial_import_size: u32) -> bool {
    gap_limit >= 1 && (if initial_import_size > gap_limit {
        initial_import_size
    } else {
        gap_limit
    }) <= 0x8000_0000
}

/// Whether the engine accepts the descriptor text for a wallet on the
/// network: it parses, every key carries a single derivation path, and it
/// has an address representation.
pub open spec fn desc_accepted(s: Seq<char>, network: Network) -> bool {
    &&& desc_report_of(s) is Some
    &&& desc_keys_ok(s)
    &&& desc_addressable_of(s, network)
}

/// Whether the wallet carries exactly what the engine reports of the
/// descriptor text `s`: the canonical text, its rangedness, and the
/// checksum the canonical text ends in.
pub open spec fn wallet_matches_desc(w: Wallet, s: Seq<char>) -> bool {
    match desc_report_of(s) {
        Some(rep) => w.desc@ == rep.0 && w.is_ranged == rep.1 && rep.0.len() >= 9 && w.checksum@
            == rep.0.subrange(rep.0.len() - 8, rep.0.len() as int),
        None => false,
    }
}

/// The state every constructor returns: well-formed, on the given network
/// and windows (the first-run window raised to at least the gap limit), no
/// funding, no imports, initial import ahead.
pub open spec fn fresh_wallet_state(
    w: Wallet,
    network: Network,
    gap_limit: u32,
    initial_import_size: u32,
    rescan_policy: RescanSince,
) -> bool {
    &&& w.wf()
    &&& w.network == network
    &&& w.rescan_policy == rescan_policy
    &&& w.gap_limit == gap_limit
    &&& w.initial_import_size == (if initial_import_size > gap_limit {
        initial_import_size
    } else {
        gap_limit
    })
    &&& w.max_funded_index is None
    &&& w.max_imported_index is None
    &&& !w.done_initial_import
}

/// How `record_funding(index)` turns the wallet `a` into the wallet `b`:
/// a valid index raises both ceilings to at least `index`; an invalid one
/// changes nothing; the configuration and the flag never move.
pub open spec fn funding_effect(a: Wallet, b: Wallet, index: u32) -> bool {
    &&& same_config(b, a)
    &&& b.done_initial_import == a.done_initial_import
    &&& (a.spec_is_valid_index(index) ==> {
        &&& b.max_funded_index == raised(a.max_funded_index, index)
        &&& b.max_imported_index == raised(a.max_imported_index, index)
    })
    &&& (!a.spec_is_valid_index(index) ==> b == a)
    &&& b.spec_watch_index() >= a.spec_watch_index()
}

/// Whether the wallet's funded ceiling stands at or above index `i`.
pub open spec fn funded_at_least(w: Wallet, i: u32) -> bool {
    match w.max_funded_index {
        Some(f) => f >= i,
        None => false,
    }
}

/// Whether `b`'s funded ceiling stands at or above `a`'s.
pub open spec fn funded_geq(b: Wallet, a: Wallet) -> bool {
    match a.max_funded_index {
        None => true,
        Some(f) => match b.max_funded_index {
            Some(g) => g >= f,
            None => false,
        },
    }
}

/// One tracked wallet.
#[derive(Debug)]
pub struct Wallet {
    /// Canonical descriptor text, ending in `#` and its checksum.
    pub desc: String,
    /// Whether any key of the descriptor is ranged (`/*`).
    pub is_ranged: bool,
    /// The descriptor checksum; wallet identity.
    pub checksum: Checksum,
    /// The BIP32 provenance of each key of the descriptor.
    pub keys_info: Vec<KeyInfo>,
    pub network: Network,
    /// How far back the node rescans when the wallet's addresses are first
    /// imported.
    pub rescan_policy: RescanSince,
    /// Steady-state lookahead window beyond the last funded index.
    pub gap_limit: u32,
    /// First-run lookahead window; at least `gap_limit`.
    pub initial_import_size: u32,
    /// Largest derivation index observed funded, if any.
    pub max_funded_index: Option<u32>,
    /// Largest derivation index ever announced to the node, if any.
    pub max_imported_index: Option<u32>,
    /// Once true, the smaller `gap_limit` governs further lookahead.
    pub done_initial_import: bool,
}

/// The fields that never change after construction.
pub open spec fn same_config(a: Wallet, b: Wallet) -> bool {
    &&& a.desc == b.desc
    &&& a.is_ranged == b.is_ranged
    &&& a.checksum == b.checksum
    &&& a.keys_info == b.keys_info
    &&& a.network == b.network
    &&& a.rescan_policy == b.rescan_policy
    &&& a.gap_limit == b.gap_limit
    &&& a.initial_import_size == b.initial_import_size
}

impl Wallet {
    /// Well-formedness, established by construction and preserved by every
    /// method: the checksum is the descriptor's own suffix; the lookahead
    /// windows are positive and fit the unhardened index space; a funded
    /// index is a valid derivation index and never exceeds the imported
    /// ceiling; a non-ranged wallet only ever uses index zero.
    pub open spec fn wf(&self) -> bool {
        &&& self.checksum.wf()
        &&& self.desc@.len() >= 9
        &&& self.checksum@ == self.desc@.subrange(
            self.desc@.len() - 8,
            self.desc@.len() as int,
        )
        &&& 1 <= self.gap_limit
        &&& self.gap_limit <= self.initial_import_size
        &&& self.initial_import_size <= 0x8000_0000
        &&& match self.max_funded_index {
            Some(f) => f < 0x8000_0000 && match self.max_imported_index {
                Some(m) => f <= m,
                None => false,
            },
            None => true,
        }
        &&& (!self.is_ranged ==> {
            &&& (self.max_funded_index is None || self.max_funded_index == Some(0u32))
            &&& (self.max_imported_index is None || self.max_imported_index == Some(0u32))
        })
    }

    /// The lookahead window currently in force.
    pub open spec fn spec_chunk_size(&self) -> u32 {
        if self.done_initial_import {
            self.gap_limit
        } else {
            self.initial_import_size
        }
    }

    /// The maximum derivation index that must be imported.
    pub open spec fn spec_watch_index(&self) -> int {
        if !self.is_ranged {
            0
        } else {
            match self.max_funded_index {
                None => self.spec_chunk_size() - 1,
                Some(m) => m + self.spec_chunk_size(),
            }
        }
    }

    /// Whether `index` is a derivation index this wallet can use.
    pub open spec fn spec_is_valid_index(&self, index: u32) -> bool {
        if self.is_ranged {
            index < 0x8000_0000
        } else {
            index == 0
        }
    }

    /// Returns the maximum index that needs to be watched: zero for a
    /// non-ranged wallet, and the funded index (if any) plus the current
    /// lookahead window for a ranged one.
    pub fn watch_index(&self) -> (r: u32)
        requires
            self.wf(),
        ensures
            r == self.spec_watch_index(),
    {
        if !self.is_ranged {
            return 0;
        }
        let chunk = if self.done_initial_import {
            self.gap_limit
        } else {
            self.initial_import_size
        };
        match self.max_funded_index {
            None => chunk - 1,
            Some(m) => m + chunk,
        }
    }

    /// The next index a fresh address would come from.
    pub fn get_next_index(&self) -> (r: u32)
        requires
            self.wf(),
        ensures
            r == if self.is_ranged {
                match self.max_funded_index {
                    None => 0,
                    Some(m) => m + 1,
                }
            } else {
                0
            },
    {
        if self.is_ranged {
            match self.max_funded_index {
                None => 0,
                Some(m) => m + 1,
            }
        } else {
            0
        }
    }

    /// Whether `index` is valid for this wallet: any unhardened index (bit
    /// 31 clear) for a ranged wallet, exactly zero for a non-ranged one.
    pub fn is_valid_index(&self, index: u32) -> (r: bool)
        ensures
            r == self.spec_is_valid_index(index),
            self.is_ranged ==> r == ((index & 0x8000_0000u32) == 0),
            !self.is_ranged ==> r == (index == 0),
    {
        if self.is_ranged {
            proof {
                assert(((index & 0x8000_0000u32) == 0) == (index < 0x8000_0000)) by (bit_vector);
            }
            index & 0x8000_0000u32 == 0
        } else {
            index == 0
        }
    }

    /// Whether the watch index has outgrown what was announced to the node.
    pub open spec fn spec_needs_import(&self) -> bool {
        match self.max_imported_index {
            None => true,
            Some(m) => self.spec_watch_index() > m,
        }
    }

    /// Records that a transaction was observed at `index`: the funded and
    /// imported ceilings both rise to at least `index`. An index the wallet
    /// cannot use is ignored. The watch index never decreases.
    pub fn record_funding(&mut self, index: u32)
        requires
            old(self).wf(),
        ensures
            final(self).wf(),
            same_config(*final(self), *old(self)),
            final(self).done_initial_import == old(self).done_initial_import,
            old(self).spec_is_valid_index(index) ==> {
                &&& final(self).max_funded_index == raised(old(self).max_funded_index, index)
                &&& final(self).max_imported_index == raised(old(self).max_imported_index, index)
            },
            !old(self).spec_is_valid_index(index) ==> *final(self) == *old(self),
            final(self).spec_watch_index() >= old(self).spec_watch_index(),
            funding_effect(*old(self), *final(self), index),
    {
        if !self.is_valid_index(index) {
            return;
        }
        let raise_imported = match self.max_imported_index {
            None => true,
            Some(m) => index > m,
        };
        if raise_imported {
            self.max_imported_index = Some(index);
        }
        let raise_funded = match self.max_funded_index {
            None => true,
            Some(m) => index > m,
        };
        if raise_funded {
            self.max_funded_index = Some(index);
        }
    }

    /// Adopts `ceiling` as the imported ceiling rediscovered from the
    /// node's labels (kept at or above the funded index), and takes the
    /// initial import as done: a prior run already imported addresses, so
    /// the steady-state gap limit governs from here on.
    pub fn adopt_import_ceiling(&mut self, ceiling: u32)
        requires
            old(self).wf(),
            old(self).spec_is_valid_index(ceiling),
        ensures
            final(self).wf(),
            same_config(*final(self), *old(self)),
            final(self).max_funded_index == old(self).max_funded_index,
            final(self).done_initial_import,
            final(self).max_imported_index == Some(
                match old(self).max_funded_index {
                    Some(f) => if f > ceiling {
                        f
                    } else {
                        ceiling
                    },
                    None => ceiling,
                },
            ),
    {
        let floor = match self.max_funded_index {
            Some(f) => if f > ceiling {
                f
            } else {
                ceiling
            },
            None => ceiling,
        };
        self.max_imported_index = Some(floor);
        self.done_initial_import = true;
    }

    /// Takes the initial import as done: the steady-state gap limit governs
    /// further lookahead, so the watch index can only shrink.
    pub fn finish_initial_import(&mut self)
        requires
            old(self).wf(),
        ensures
            final(self).wf(),
            same_config(*final(self), *old(self)),
            final(self).max_funded_index == old(self).max_funded_index,
            final(self).max_imported_index == old(self).max_imported_index,
            final(self).done_initial_import,
            final(self).spec_watch_index() <= old(self).spec_watch_index(),
    {
        self.done_initial_import = true;
    }

    /// Records that the node confirmed the import batch up to `ceiling`,
    /// which must be the wallet's current watch index.
    pub fn confirm_imported(&mut self, ceiling: u32)
        requires
            old(self).wf(),
            ceiling as int == old(self).spec_watch_index(),
        ensures
            final(self).wf(),
            same_config(*final(self), *old(self)),
            final(self).max_funded_index == old(self).max_funded_index,
            final(self).done_initial_import == old(self).done_initial_import,
            final(self).max_imported_index == Some(ceiling),
            final(self).spec_watch_index() == old(self).spec_watch_index(),
    {
        self.max_imported_index = Some(ceiling);
    }

    /// Enumerates the import requests for indices `start_index..=end_index`:
    /// one derived address per index, labelled with the wallet's checksum
    /// and the index. With `rescan` false the `Now` marker overrides the
    /// wallet's rescan policy (growth imports follow an earlier rescan).
    pub fn make_imports(&self, start_index: u32, end_index: u32, rescan: bool) -> (r: Result<
        Vec<ImportRequest>,
        WalletError,
    >)
        requires
            self.wf(),
            start_index <= end_index,
            end_index < 0x8000_0000,
        ensures
            match r {
                Ok(v) => {
                    &&& v@.len() == end_index - start_index + 1
                    &&& forall|k: int|
                        0 <= k < v@.len() ==> derived_address_of(
                            self.desc@,
                            self.network,
                            (start_index + k) as u32,
                        ) == Some(#[trigger] v@[k].address@)
                    &&& forall|k: int|
                        0 <= k < v@.len() ==> (#[trigger] v@[k].label)@ == label_of(
                            KeyOrigin::Descriptor(self.checksum, (start_index + k) as u32),
                        )
                    &&& forall|k: int|
                        0 <= k < v@.len() ==> (#[trigger] v@[k].rescan) == (if rescan {
                            self.rescan_policy
                        } else {
                            RescanSince::Now
                        })
                },
                Err(e) => e == WalletError::DerivationFailed && exists|k: u32|
                    start_index <= k <= end_index && #[trigger] derived_address_of(
                        self.desc@,
                        self.network,
                        k,
                    ) is None,
            },
    {
        let rescan_since = if rescan {
            self.rescan_policy
        } else {
            RescanSince::Now
        };
        let mut v: Vec<ImportRequest> = Vec::new();
        let mut i: u32 = start_index;
        while i <= end_index
            invariant
                self.wf(),
                start_index <= i <= end_index + 1,
                end_index < 0x8000_0000,
                v@.len() == i - start_index,
                rescan_since == (if rescan {
                    self.rescan_policy
                } else {
                    RescanSince::Now
                }),
                forall|k: int|
                    0 <= k < v@.len() ==> derived_address_of(
                        self.desc@,
                        self.network,
                        (start_index + k) as u32,
                    ) == Some(#[trigger] v@[k].address@),
                forall|k: int|
                    0 <= k < v@.len() ==> (#[trigger] v@[k].label)@ == label_of(
                        KeyOrigin::Descriptor(self.checksum, (start_index + k) as u32),
                    ),
                forall|k: int|
                    0 <= k < v@.len() ==> (#[trigger] v@[k].rescan) == (if rescan {
                        self.rescan_policy
                    } else {
                        RescanSince::Now
                    }),
            decreases end_index + 1 - i,
        {
            let address = match desc_derive_address(self.desc.as_str(), self.network, i) {
                Some(a) => a,
                None => {
                    return Err(WalletError::DerivationFailed);
                },
            };
            let origin = KeyOrigin::Descriptor(self.checksum.duplicate(), i);
            let label = origin.to_label();
            proof {
                assert(label@ == label_of(KeyOrigin::Descriptor(self.checksum, i)));
            }
            v.push(ImportRequest { address, rescan: rescan_since, label });
            i = i + 1;
        }
        Ok(v)
    }

    /// Derives the address at `index`, which must be an index the wallet
    /// can use. `None` only where the descriptor engine cannot produce an
    /// address.
    pub fn derive_address(&self, index: u32) -> (r: Option<String>)
        requires
            self.wf(),
            self.spec_is_valid_index(index),
        ensures
            match r {
                Some(a) => derived_address_of(self.desc@, self.network, index) == Some(a@),
                None => derived_address_of(self.desc@, self.network, index) is None,
            },
    {
        desc_derive_address(self.desc.as_str(), self.network, index)
    }

    /// Whether the derived address at `i` has recorded history.
    pub open spec fn spec_index_has_history(&self, store: MemoryStore, i: int) -> bool {
        match derived_address_of(self.desc@, self.network, i as u32) {
            Some(a) => store.spec_has_history(a),
            None => false,
        }
    }

    /// The (current run, longest run) of history-less indices after
    /// scanning indices `0..k`.
    pub open spec fn spec_gap_fold(&self, store: MemoryStore, k: int) -> (int, int)
        decreases k,
    {
        if k <= 0 {
            (0, 0)
        } else {
            let prev = self.spec_gap_fold(store, k - 1);
            if self.spec_index_has_history(store, k - 1) {
                (0, if prev.0 > prev.1 {
                    prev.0
                } else {
                    prev.1
                })
            } else {
                (prev.0 + 1, prev.1)
            }
        }
    }

    /// The longest run of history-less indices over `0..=m` (a trailing
    /// run included), where `m` is the funded ceiling, or `None` if the
    /// wallet has no funding history. Diagnostic: the true observed gap,
    /// which may be smaller than the gap limit.
    pub fn find_gap(&self, store: &MemoryStore) -> (r: Option<usize>)
        requires
            self.wf(),
        ensures
            match r {
                None => self.max_funded_index is None,
                Some(g) => match self.max_funded_index {
                    Some(mf) => g == (if self.is_ranged {
                        let f = self.spec_gap_fold(*store, mf + 1);
                        if f.0 > f.1 {
                            f.0
                        } else {
                            f.1
                        }
                    } else {
                        0
                    }),
                    None => false,
                },
            },
    {
        let mf = match self.max_funded_index {
            Some(mf) => mf,
            None => {
                return None;
            },
        };
        if !self.is_ranged {
            return Some(0);
        }
        let mut curr: usize = 0;
        let mut longest: usize = 0;
        let mut i: u32 = 0;
        while i <= mf
            invariant
                self.wf(),
                self.is_ranged,
                self.max_funded_index == Some(mf),
                mf < 0x8000_0000,
                0 <= i <= mf + 1,
                curr <= i,
                longest <= i,
                (curr as int, longest as int) == self.spec_gap_fold(*store, i as int),
            decreases mf + 1 - i,
        {
            let has = match desc_derive_address(self.desc.as_str(), self.network, i) {
                Some(a) => store.has_history(&a),
                None => false,
            };
            if has {
                if curr > longest {
                    longest = curr;
                }
                curr = 0;
            } else {
                curr = curr + 1;
            }
            i = i + 1;
        }
        Some(
            if curr > longest {
                curr
            } else {
                longest
            },
        )
    }

    /// The BIP32 origins of the keys used at `index`: ranged keys extended
    /// by the index, non-ranged keys as they stand.
    pub fn bip32_origins(&self, index: u32) -> (r: Vec<Bip32Origin>)
        ensures
            r@.len() == self.keys_info@.len(),
            forall|k: int|
                0 <= k < r@.len() ==> (#[trigger] r@[k]).fingerprint
                    == self.keys_info@[k].origin.fingerprint,
            forall|k: int|
                0 <= k < r@.len() ==> (#[trigger] r@[k]).path@ == (if self.keys_info@[k].is_ranged {
                    self.keys_info@[k].origin.path@.push(index)
                } else {
                    self.keys_info@[k].origin.path@
                }),
    {
        let n = self.keys_info.len();
        let mut r: Vec<Bip32Origin> = Vec::new();
        let mut k: usize = 0;
        while k < n
            invariant
                0 <= k <= n,
                n == self.keys_info@.len(),
                r@.len() == k,
                forall|j: int|
                    0 <= j < k ==> (#[trigger] r@[j]).fingerprint
                        == self.keys_info@[j].origin.fingerprint,
                forall|j: int|
                    0 <= j < k ==> (#[trigger] r@[j]).path@ == (if self.keys_info@[j].is_ranged {
                        self.keys_info@[j].origin.path@.push(index)
                    } else {
                        self.keys_info@[j].origin.path@
                    }),
            decreases n - k,
        {
            let ki = &self.keys_info[k];
            let o = if ki.is_ranged {
                ki.origin.child(index)
            } else {
                ki.origin.duplicate()
            };
            r.push(o);
            k = k + 1;
        }
        r
    }

    /// Builds a wallet from a descriptor string. Rejects a zero gap limit
    /// and lookahead windows beyond the unhardened index space, descriptors
    /// the engine does not accept, and descriptors without an address
    /// representation on the network. The effective first-run lookahead is
    /// raised to at least the gap limit.
    pub fn from_descriptor(
        desc: String,
        network: Network,
        gap_limit: u32,
        initial_import_size: u32,
        rescan_policy: RescanSince,
    ) -> (r: Result<Wallet, WalletError>)
        ensures
            !gap_config_ok(gap_limit, initial_import_size) <==> r == Err::<Wallet, WalletError>(
                WalletError::InvalidGapLimit,
            ),
            (gap_config_ok(gap_limit, initial_import_size) && !(desc_report_of(desc@) is Some
                && desc_keys_ok(desc@))) <==> r == Err::<Wallet, WalletError>(
                WalletError::InvalidDescriptor,
            ),
            (gap_config_ok(gap_limit, initial_import_size) && desc_report_of(desc@) is Some
                && desc_keys_ok(desc@) && !desc_addressable_of(desc@, network)) <==> r
                == Err::<Wallet, WalletError>(WalletError::NoAddressRepresentation),
            (gap_config_ok(gap_limit, initial_import_size) && desc_accepted(desc@, network)) <==> r
                is Ok,
            r matches Ok(w) ==> fresh_wallet_state(
                w,
                network,
                gap_limit,
                initial_import_size,
                rescan_policy,
            ) && wallet_matches_desc(w, desc@),
    {
        let effective = if initial_import_size > gap_limit {
            initial_import_size
        } else {
            gap_limit
        };
        if gap_limit == 0 || effective > 0x8000_0000 {
            return Err(WalletError::InvalidGapLimit);
        }
        let (basic, keys) = match inspect(desc.as_str()) {
            Some(m) => m,
            None => {
                return Err(WalletError::InvalidDescriptor);
            },
        };
        if !desc_addressable(desc.as_str(), network) {
            return Err(WalletError::NoAddressRepresentation);
        }
        let n = basic.canonical.as_str().unicode_len();
        let cs_part = basic.canonical.as_str().substring_char(n - 8, n);
        let checksum = match Checksum::new(cs_part.to_owned()) {
            Some(c) => c,
            None => {
                proof {
                    assert(false);
                }
                return Err(WalletError::InvalidDescriptor);
            },
        };
        Ok(
            Wallet {
                desc: basic.canonical,
                is_ranged: basic.is_ranged,
                checksum,
                keys_info: keys,
                network,
                rescan_policy,
                gap_limit,
                initial_import_size: effective,
                max_funded_index: None,
                max_imported_index: None,
                done_initial_import: false,
            },
        )
    }

    /// Builds the single wallet of a bare xpub: its ranged descriptor with
    /// no child step (`.../*`).
    pub fn from_bare_xpub(
        xpub: &XyzPubKey,
        network: Network,
        gap_limit: u32,
        initial_import_size: u32,
        rescan_policy: RescanSince,
    ) -> (r: Result<Wallet, WalletError>)
        ensures
            !gap_config_ok(gap_limit, initial_import_size) <==> r == Err::<Wallet, WalletError>(
                WalletError::InvalidGapLimit,
            ),
            (gap_config_ok(gap_limit, initial_import_size) && desc_accepted(
                desc_text_of(xpub.script_type, xpub.xpub@, Seq::<u32>::empty()),
                network,
            )) <==> r is Ok,
            gap_config_ok(gap_limit, initial_import_size) ==> ({
                let t = desc_text_of(xpub.script_type, xpub.xpub@, Seq::<u32>::empty());
                &&& ((r == Err::<Wallet, WalletError>(WalletError::InvalidDescriptor)) <==> !(
                desc_report_of(t) is Some && desc_keys_ok(t)))
                &&& ((r == Err::<Wallet, WalletError>(WalletError::NoAddressRepresentation)) <==> (
                desc_report_of(t) is Some && desc_keys_ok(t) && !desc_addressable_of(t, network)))
            }),
            r matches Ok(w) ==> fresh_wallet_state(
                w,
                network,
                gap_limit,
                initial_import_size,
                rescan_policy,
            ) && wallet_matches_desc(
                w,
                desc_text_of(xpub.script_type, xpub.xpub@, Seq::<u32>::empty()),
            ),
            r matches Err(e) ==> e == WalletError::InvalidGapLimit || e
                == WalletError::NoAddressRepresentation || e == WalletError::InvalidDescriptor,
    {
        let path: Vec<u32> = Vec::new();
        proof {
            assert(path@ =~= Seq::<u32>::empty());
        }
        Self::from_descriptor(
            xpub.as_descriptor(&path),
            network,
            gap_limit,
            initial_import_size,
            rescan_policy,
        )
    }

    /// Builds the two wallets of an xpub: the external chain (`/0/*`) and
    /// the internal change chain (`/1/*`), each tracked independently.
    pub fn from_xpub(
        xpub: &XyzPubKey,
        network: Network,
        gap_limit: u32,
        initial_import_size: u32,
        rescan_policy: RescanSince,
    ) -> (r: Result<Vec<Wallet>, WalletError>)
        ensures
            !gap_config_ok(gap_limit, initial_import_size) <==> r == Err::<Vec<Wallet>, WalletError>(
                WalletError::InvalidGapLimit,
            ),
            (gap_config_ok(gap_limit, initial_import_size) && desc_accepted(
                desc_text_of(xpub.script_type, xpub.xpub@, seq![0u32]),
                network,
            ) && desc_accepted(desc_text_of(xpub.script_type, xpub.xpub@, seq![1u32]), network))
                <==> r is Ok,
            gap_config_ok(gap_limit, initial_import_size) ==> ({
                let t0 = desc_text_of(xpub.script_type, xpub.xpub@, seq![0u32]);
                let t1 = desc_text_of(xpub.script_type, xpub.xpub@, seq![1u32]);
                &&& ((r == Err::<Vec<Wallet>, WalletError>(WalletError::InvalidDescriptor)) <==> (!(
                desc_report_of(t0) is Some && desc_keys_ok(t0)) || (desc_accepted(t0, network) && !(
                desc_report_of(t1) is Some && desc_keys_ok(t1)))))
                &&& ((r == Err::<Vec<Wallet>, WalletError>(WalletError::NoAddressRepresentation))
                    <==> ((desc_report_of(t0) is Some && desc_keys_ok(t0) && !desc_addressable_of(
                    t0,
                    network,
                )) || (desc_accepted(t0, network) && desc_report_of(t1) is Some && desc_keys_ok(t1)
                    && !desc_addressable_of(t1, network))))
            }),
            r matches Ok(v) ==> {
                &&& v@.len() == 2
                &&& wallet_matches_desc(v@[0], desc_text_of(xpub.script_type, xpub.xpub@, seq![0u32]))
                &&& wallet_matches_desc(v@[1], desc_text_of(xpub.script_type, xpub.xpub@, seq![1u32]))
                &&& forall|k: int|
                    0 <= k < 2 ==> fresh_wallet_state(
                        #[trigger] v@[k],
                        network,
                        gap_limit,
                        initial_import_size,
                        rescan_policy,
                    )
            },
            r matches Err(e) ==> e == WalletError::InvalidGapLimit || e
                == WalletError::NoAddressRepresentation || e == WalletError::InvalidDescriptor,
    {
        let mut external_path: Vec<u32> = Vec::new();
        external_path.push(0);
        proof {
            assert(external_path@ =~= seq![0u32]);
        }
        let external = Self::from_descriptor(
            xpub.as_descriptor(&external_path),
            network,
            gap_limit,
            initial_import_size,
            rescan_policy,
        )?;
        let mut internal_path: Vec<u32> = Vec::new();
        internal_path.push(1);
        proof {
            assert(internal_path@ =~= seq![1u32]);
        }
        let internal = Self::from_descriptor(
            xpub.as_descriptor(&internal_path),
            network,
            gap_limit,
            initial_import_size,
            rescan_policy,
        )?;
        let mut v: Vec<Wallet> = Vec::new();
        v.push(external);
        v.push(internal);
        Ok(v)
    }
}

/// Address derivation is a function of the descriptor text, the network
/// and the index alone: any two wallets over the same descriptor — however
/// they were built, from the descriptor itself or expanded from an xpub —
/// derive byte-identical addresses at every index. The library keeps this
/// equivalence by routing every derivation through that one function.
pub proof fn lemma_derivation_deterministic(a: Wallet, b: Wallet, index: u32)
    requires
        a.desc@ == b.desc@,
        a.network == b.network,
    ensures
        derived_address_of(a.desc@, a.network, index) == derived_address_of(
            b.desc@,
            b.network,
            index,
        ),
{
}

/// A wallet that has observed funding has announced at least as much to the
/// node: the funded index never exceeds the imported ceiling.
pub proof fn lemma_funded_le_imported(w: Wallet)
    requires
        w.wf(),
        w.max_funded_index is Some,
    ensures
        w.max_imported_index is Some,
        w.max_funded_index.unwrap() <= w.max_imported_index.unwrap(),
{
}

} // verus!
