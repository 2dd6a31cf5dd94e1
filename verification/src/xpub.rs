//! Extended public keys supplied by the user, including the SLIP-132
//! `ypub`/`zpub`/`upub`/`vpub` variants whose version prefix selects the
//! script type. The key is normalized to the standard `xpub`/`tpub`
//! encoding and expanded into a descriptor.

use vstd::prelude::*;
use vstd::string::StringExecFns;
use crate::numstr::{u32_digits, format_u32};

verus! {

/// The payment script a SLIP-132 prefix selects.
#[derive(Clone, Copy, Debug, PartialEq, Eq, Structural)]
pub enum ScriptType {
    P2pkh,
    P2shP2wpkh,
    P2wpkh,
}

/// BIP32 version prefix of a mainnet `xpub`.
pub const VERSION_XPUB: u32 = 0x0488_B21E;

/// BIP32 version prefix of a testnet `tpub`.
pub const VERSION_TPUB: u32 = 0x0435_87CF;

/// SLIP-132 version prefix of a mainnet `ypub` (p2sh-wrapped segwit).
pub const VERSION_YPUB: u32 = 0x049D_7CB2;

/// SLIP-132 version prefix of a mainnet `zpub` (native segwit).
pub const VERSION_ZPUB: u32 = 0x04B2_4746;

/// SLIP-132 version prefix of a testnet `upub`.
pub const VERSION_UPUB: u32 = 0x044A_5262;

/// SLIP-132 version prefix of a testnet `vpub`.
pub const VERSION_VPUB: u32 = 0x045F_1CF6;

/// The script type and normalized version for a BIP32/SLIP-132 version
/// prefix, or `None` for an unknown prefix.
pub open spec fn spec_classify_version(v: u32) -> Option<(ScriptType, u32)> {
    if v == VERSION_XPUB {
        Some((ScriptType::P2pkh, VERSION_XPUB))
    } else if v == VERSION_TPUB {
        Some((ScriptType::P2pkh, VERSION_TPUB))
    } else if v == VERSION_YPUB {
        Some((ScriptType::P2shP2wpkh, VERSION_XPUB))
    } else if v == VERSION_UPUB {
        Some((ScriptType::P2shP2wpkh, VERSION_TPUB))
    } else if v == VERSION_ZPUB {
        Some((ScriptType::P2wpkh, VERSION_XPUB))
    } else if v == VERSION_VPUB {
        Some((ScriptType::P2wpkh, VERSION_TPUB))
    } else {
        None
    }
}

/// Maps a version prefix to its script type and the standard prefix the
/// key is re-encoded under.
pub fn classify_version(v: u32) -> (r: Option<(ScriptType, u32)>)
    ensures
        r == spec_classify_version(v),
{
    if v == VERSION_XPUB {
        Some((ScriptType::P2pkh, VERSION_XPUB))
    } else if v == VERSION_TPUB {
        Some((ScriptType::P2pkh, VERSION_TPUB))
    } else if v == VERSION_YPUB {
        Some((ScriptType::P2shP2wpkh, VERSION_XPUB))
    } else if v == VERSION_UPUB {
        Some((ScriptType::P2shP2wpkh, VERSION_TPUB))
    } else if v == VERSION_ZPUB {
        Some((ScriptType::P2wpkh, VERSION_XPUB))
    } else if v == VERSION_VPUB {
        Some((ScriptType::P2wpkh, VERSION_TPUB))
    } else {
        None
    }
}

/// The payload a base58check string decodes to, without its 4-byte
/// checksum; a function of the text alone. `None` where the text is not
/// valid base58check.
pub uninterp spec fn b58check_payload_of(s: Seq<char>) -> Option<Seq<u8>>;

/// The base58check text of a payload; a function of the bytes alone.
pub uninterp spec fn b58check_text_of(payload: Seq<u8>) -> Seq<char>;

/// Relies on bitcoin's base58check decoding: the decoded payload without
/// its checksum, named `b58check_payload_of`; `None` where the string is
/// not valid base58check.
#[verifier::external_body]
fn b58check_decode(s: &str) -> (r: Option<Vec<u8>>)
    ensures
        ({
            let d = b58check_payload_of(s@);
            match r {
                Some(v) => d == Some(v@),
                None => d is None,
            }
        }),
{
    bitcoin::base58::decode_check(s).ok()
}

/// Relies on bitcoin's base58check encoding of the given payload, named
/// `b58check_text_of`.
#[verifier::external_body]
fn b58check_encode(data: &Vec<u8>) -> (r: String)
    ensures
        r@ == b58check_text_of(data@),
{
    bitcoin::base58::encode_check(data.as_slice())
}

/// The big-endian bytes of a version prefix.
pub open spec fn be32_bytes(v: u32) -> Seq<u8> {
    seq![(v >> 24) as u8, ((v >> 16) & 0xFF) as u8, ((v >> 8) & 0xFF) as u8, (v & 0xFF) as u8]
}

/// The version prefix held in the first four bytes of a payload.
pub open spec fn version_of(p: Seq<u8>) -> u32 {
    ((p[0] as u32) << 24) | ((p[1] as u32) << 16) | ((p[2] as u32) << 8) | (p[3] as u32)
}

/// An extended public key with the script type its original prefix
/// selected, normalized to the standard `xpub`/`tpub` encoding.
#[derive(Clone, Debug)]
pub struct XyzPubKey {
    pub script_type: ScriptType,
    pub xpub: String,
}

/// The derivation-path suffix `/c1/c2/.../cn` of a descriptor.
pub open spec fn path_text(path: Seq<u32>) -> Seq<char>
    decreases path.len(),
{
    if path.len() == 0 {
        Seq::<char>::empty()
    } else {
        path_text(path.drop_last()) + seq!['/'] + u32_digits(path.last() as nat)
    }
}

/// The descriptor text for a script type over an xpub with a child path
/// and a trailing range wildcard: `pkh(X/p/*)`, `sh(wpkh(X/p/*))` or
/// `wpkh(X/p/*)`.
pub open spec fn desc_text_of(st: ScriptType, xpub: Seq<char>, path: Seq<u32>) -> Seq<char> {
    let inner = xpub + path_text(path) + seq!['/', '*'];
    match st {
        ScriptType::P2pkh => seq!['p', 'k', 'h', '('] + inner + seq![')'],
        ScriptType::P2shP2wpkh => seq!['s', 'h', '(', 'w', 'p', 'k', 'h', '('] + inner
            + seq![')', ')'],
        ScriptType::P2wpkh => seq!['w', 'p', 'k', 'h', '('] + inner + seq![')'],
    }
}

impl XyzPubKey {
    /// Parses a BIP32 or SLIP-132 extended public key: base58check with a
    /// 78-byte payload whose 4-byte version prefix is one of the six known
    /// prefixes. The key is re-encoded under the standard prefix of its
    /// network.
    #[verifier::loop_isolation(false)]
    pub fn parse(s: &str) -> (r: Option<XyzPubKey>)
        ensures
            match r {
                Some(x) => match b58check_payload_of(s@) {
                    Some(p) => p.len() == 78 && match spec_classify_version(version_of(p)) {
                        Some(c) => x.script_type == c.0 && x.xpub@ == b58check_text_of(
                            be32_bytes(c.1) + p.skip(4),
                        ),
                        None => false,
                    },
                    None => false,
                },
                None => match b58check_payload_of(s@) {
                    Some(p) => p.len() != 78 || spec_classify_version(version_of(p)) is None,
                    None => true,
                },
            },
    {
        let payload = match b58check_decode(s) {
            Some(p) => p,
            None => {
                return None;
            },
        };
        if payload.len() != 78 {
            return None;
        }
        let version: u32 = ((payload[0] as u32) << 24) | ((payload[1] as u32) << 16) | ((
        payload[2] as u32) << 8) | (payload[3] as u32);
        let (script_type, normalized) = match classify_version(version) {
            Some(c) => c,
            None => {
                return None;
            },
        };
        let mut bytes: Vec<u8> = Vec::new();
        bytes.push((normalized >> 24) as u8);
        bytes.push(((normalized >> 16) & 0xFF) as u8);
        bytes.push(((normalized >> 8) & 0xFF) as u8);
        bytes.push((normalized & 0xFF) as u8);
        proof {
            assert(bytes@ =~= be32_bytes(normalized));
            assert(bytes@ =~= be32_bytes(normalized) + payload@.subrange(4, 4));
        }
        let mut i: usize = 4;
        while i < 78
            invariant
                4 <= i <= 78,
                bytes@ == be32_bytes(normalized) + payload@.subrange(4, i as int),
            decreases 78 - i,
        {
            bytes.push(payload[i]);
            proof {
                assert(payload@.subrange(4, i as int).push(payload@[i as int]) =~= payload@.subrange(
                    4,
                    i as int + 1,
                ));
                assert(bytes@ =~= be32_bytes(normalized) + payload@.subrange(4, i as int + 1));
            }
            i = i + 1;
        }
        proof {
            assert(payload@.subrange(4, 78) =~= payload@.skip(4));
        }
        let xpub = b58check_encode(&bytes);
        Some(XyzPubKey { script_type, xpub })
    }

    /// The descriptor text for this key with the given child path and a
    /// trailing range wildcard.
    pub fn as_descriptor(&self, path: &Vec<u32>) -> (r: String)
        ensures
            r@ == desc_text_of(self.script_type, self.xpub@, path@),
    {
        proof {
            reveal_strlit("pkh(");
            reveal_strlit("sh(wpkh(");
            reveal_strlit("wpkh(");
            reveal_strlit("/");
            reveal_strlit("/*)");
            reveal_strlit("/*))");
        }
        let mut s: String = match self.script_type {
            ScriptType::P2pkh => "pkh(".to_owned(),
            ScriptType::P2shP2wpkh => "sh(wpkh(".to_owned(),
            ScriptType::P2wpkh => "wpkh(".to_owned(),
        };
        s.append(self.xpub.as_str());
        proof {
            reveal_strlit("pkh(");
            reveal_strlit("sh(wpkh(");
            reveal_strlit("wpkh(");
            assert("pkh("@ =~= seq!['p', 'k', 'h', '(']);
            assert("sh(wpkh("@ =~= seq!['s', 'h', '(', 'w', 'p', 'k', 'h', '(']);
            assert("wpkh("@ =~= seq!['w', 'p', 'k', 'h', '(']);
            assert(path@.subrange(0, 0) =~= Seq::<u32>::empty());
            assert(path_text(Seq::<u32>::empty()) =~= Seq::<char>::empty());
        }
        let n = path.len();
        let mut i: usize = 0;
        while i < n
            invariant
                0 <= i <= n,
                n == path@.len(),
                s@ == (match self.script_type {
                    ScriptType::P2pkh => seq!['p', 'k', 'h', '('],
                    ScriptType::P2shP2wpkh => seq!['s', 'h', '(', 'w', 'p', 'k', 'h', '('],
                    ScriptType::P2wpkh => seq!['w', 'p', 'k', 'h', '('],
                }) + self.xpub@ + path_text(path@.subrange(0, i as int)),
            decreases n - i,
        {
            s.append("/");
            let digits = format_u32(path[i]);
            s.append(digits.as_str());
            proof {
                reveal_strlit("/");
                assert("/"@ =~= seq!['/']);
                assert(path@.subrange(0, i as int + 1).drop_last() =~= path@.subrange(0, i as int));
                assert(path@.subrange(0, i as int + 1).last() == path@[i as int]);
            }
            i = i + 1;
        }
        proof {
            assert(path@.subrange(0, n as int) =~= path@);
        }
        match self.script_type {
            ScriptType::P2pkh => {
                s.append("/*)");
                proof {
                    reveal_strlit("/*)");
                    assert("/*)"@ =~= seq!['/', '*', ')']);
                    assert(s@ =~= desc_text_of(self.script_type, self.xpub@, path@));
                }
            },
            ScriptType::P2shP2wpkh => {
                s.append("/*))");
                proof {
                    reveal_strlit("/*))");
                    assert("/*))"@ =~= seq!['/', '*', ')', ')']);
                    assert(s@ =~= desc_text_of(self.script_type, self.xpub@, path@));
                }
            },
            ScriptType::P2wpkh => {
                s.append("/*)");
                proof {
                    reveal_strlit("/*)");
                    assert("/*)"@ =~= seq!['/', '*', ')']);
                    assert(s@ =~= desc_text_of(self.script_type, self.xpub@, path@));
                }
            },
        }
        s
    }
}

} // verus!
