//! Textual wallet labels persisted in the node's watch-only wallet.
//!
//! An imported address carries the label `bwt/<checksum>/<index>` tying it to
//! the wallet (identified by its descriptor checksum) and the derivation
//! index it came from, or the bare label `bwt` for one-off standalone
//! imports. Labels of any other shape belong to other processes and are
//! ignored.

use vstd::prelude::*;
use vstd::string::StrSliceExecFns;
use vstd::string::StringExecFns;
use crate::numstr::{is_digit_seq, digits_value, u32_digits, parse_u32, format_u32, lemma_u32_digits};

verus! {

/// Whether `c` may appear in a descriptor checksum: lowercase ASCII letters
/// and digits.
pub open spec fn is_checksum_char(c: char) -> bool {
    (97 <= c as int && c as int <= 122) || (48 <= c as int && c as int <= 57)
}

/// Whether `s` is a well-formed checksum: exactly eight checksum characters.
pub open spec fn valid_checksum_seq(s: Seq<char>) -> bool {
    s.len() == 8 && forall|i: int| 0 <= i < 8 ==> is_checksum_char(#[trigger] s[i])
}

/// An eight-character descriptor checksum; equality of checksums defines
/// wallet identity.
#[derive(Clone, Debug, PartialEq, Eq, Hash)]
pub struct Checksum {
    pub text: String,
}

impl View for Checksum {
    type V = Seq<char>;

    open spec fn view(&self) -> Seq<char> {
        self.text@
    }
}

impl Checksum {
    /// Well-formedness: the text is a valid checksum.
    pub open spec fn wf(&self) -> bool {
        valid_checksum_seq(self@)
    }

    /// Accepts exactly the eight-character lowercase-alphanumeric strings.
    pub fn new(text: String) -> (r: Option<Checksum>)
        ensures
            match r {
                Some(c) => c.wf() && c@ == text@,
                None => !valid_checksum_seq(text@),
            },
    {
        let n = text.as_str().unicode_len();
        if n != 8 {
            return None;
        }
        let mut i: usize = 0;
        while i < 8
            invariant
                0 <= i <= 8,
                text@.len() == 8,
                forall|j: int| 0 <= j < i ==> is_checksum_char(#[trigger] text@[j]),
            decreases 8 - i,
        {
            let c = text.as_str().get_char(i);
            let v = c as u32;
            if !((97 <= v && v <= 122) || (48 <= v && v <= 57)) {
                proof {
                    assert(!is_checksum_char(text@[i as int]));
                }
                return None;
            }
            i = i + 1;
        }
        Some(Checksum { text })
    }

    /// The checksum text.
    pub fn as_str(&self) -> (r: &str)
        ensures
            r@ == self@,
    {
        self.text.as_str()
    }

    /// A copy with the same text.
    pub fn duplicate(&self) -> (r: Checksum)
        ensures
            r@ == self@,
    {
        Checksum { text: self.text.clone() }
    }

    /// Whether the two checksums have the same text.
    pub fn matches(&self, other: &Checksum) -> (r: bool)
        ensures
            r == (self@ == other@),
    {
        self.text.eq(&other.text)
    }
}

/// Where an imported address came from: a derivation index of a tracked
/// wallet, or a one-off standalone import.
#[derive(Clone, Debug, PartialEq, Eq)]
pub enum KeyOrigin {
    Descriptor(Checksum, u32),
    Standalone,
}

/// The label prefix claimed by this indexer.
pub open spec fn label_prefix() -> Seq<char> {
    seq!['b', 'w', 't']
}

/// The textual label of an origin: `bwt` or `bwt/<checksum>/<index>`.
pub open spec fn label_of(o: KeyOrigin) -> Seq<char> {
    match o {
        KeyOrigin::Standalone => label_prefix(),
        KeyOrigin::Descriptor(c, i) => label_prefix() + seq!['/'] + c@ + seq!['/'] + u32_digits(
            i as nat,
        ),
    }
}

/// Whether the string `s` is a descriptor label carrying the checksum text
/// `cs` and the index `i`: `bwt/<cs>/<digits of i>`. The digits may carry
/// leading zeros, so several strings may denote one pair, but one string
/// denotes at most one.
pub open spec fn label_denotes(s: Seq<char>, cs: Seq<char>, i: u32) -> bool {
    &&& s.len() >= 14
    &&& s.subrange(0, 4) == label_prefix() + seq!['/']
    &&& s.subrange(4, 12) == cs
    &&& valid_checksum_seq(cs)
    &&& s[12] == '/'
    &&& is_digit_seq(s.subrange(13, s.len() as int))
    &&& digits_value(s.subrange(13, s.len() as int)) == i
}

/// Whether the string `s` denotes the origin `o`.
pub open spec fn label_matches(s: Seq<char>, o: KeyOrigin) -> bool {
    match o {
        KeyOrigin::Standalone => s == label_prefix(),
        KeyOrigin::Descriptor(c, i) => label_denotes(s, c@, i),
    }
}

/// View-level equality of origins.
pub open spec fn origin_eq(a: KeyOrigin, b: KeyOrigin) -> bool {
    match (a, b) {
        (KeyOrigin::Standalone, KeyOrigin::Standalone) => true,
        (KeyOrigin::Descriptor(c1, i1), KeyOrigin::Descriptor(c2, i2)) => c1@ == c2@ && i1 == i2,
        _ => false,
    }
}

impl KeyOrigin {
    /// Well-formedness: a descriptor origin carries a valid checksum.
    pub open spec fn wf(&self) -> bool {
        match self {
            KeyOrigin::Standalone => true,
            KeyOrigin::Descriptor(c, _) => c.wf(),
        }
    }

    /// Renders the origin as its textual label.
    pub fn to_label(&self) -> (r: String)
        ensures
            r@ == label_of(*self),
    {
        proof {
            reveal_strlit("bwt");
            reveal_strlit("bwt/");
            reveal_strlit("/");
        }
        match self {
            KeyOrigin::Standalone => {
                let r = "bwt".to_owned();
                proof {
                    assert(r@ =~= label_prefix());
                }
                r
            },
            KeyOrigin::Descriptor(checksum, index) => {
                let mut r = "bwt/".to_owned();
                r.append(checksum.as_str());
                r.append("/");
                let digits = format_u32(*index);
                r.append(digits.as_str());
                proof {
                    assert("bwt/"@ =~= label_prefix() + seq!['/']);
                    assert("/"@ =~= seq!['/']);
                    assert(r@ =~= label_of(*self));
                }
                r
            },
        }
    }

    /// Parses a textual label back into an origin. Accepts exactly `bwt` and
    /// `bwt/<checksum>/<index>`; anything else is a foreign label.
    pub fn from_label(s: &str) -> (r: Option<KeyOrigin>)
        ensures
            match r {
                Some(o) => o.wf() && label_matches(s@, o),
                None => s@ != label_prefix() && forall|cs: Seq<char>, idx: u32|
                    !label_denotes(s@, cs, idx),
            },
    {
        let n = s.unicode_len();
        if n < 3 {
            proof {
                assert forall|cs: Seq<char>, idx: u32| !label_denotes(s@, cs, idx) by {}
            }
            return None;
        }
        if !(s.get_char(0) == 'b' && s.get_char(1) == 'w' && s.get_char(2) == 't') {
            proof {
                assert(s@ != label_prefix());
                assert forall|cs: Seq<char>, idx: u32| !label_denotes(s@, cs, idx) by {
                    if label_denotes(s@, cs, idx) {
                        assert(s@.subrange(0, 4)[0] == s@[0]);
                        assert(s@.subrange(0, 4)[1] == s@[1]);
                        assert(s@.subrange(0, 4)[2] == s@[2]);
                    }
                }
            }
            return None;
        }
        if n == 3 {
            proof {
                assert(s@ =~= label_prefix());
            }
            return Some(KeyOrigin::Standalone);
        }
        if n < 14 {
            proof {
                assert(s@.len() != label_prefix().len());
                assert forall|cs: Seq<char>, idx: u32| !label_denotes(s@, cs, idx) by {}
            }
            return None;
        }
        if !(s.get_char(3) == '/' && s.get_char(12) == '/') {
            proof {
                assert(s@.len() != label_prefix().len());
                assert forall|cs: Seq<char>, idx: u32| !label_denotes(s@, cs, idx) by {
                    if label_denotes(s@, cs, idx) {
                        assert(s@.subrange(0, 4)[3] == s@[3]);
                        assert((label_prefix() + seq!['/'])[3] == '/');
                    }
                }
            }
            return None;
        }
        let cs_part = s.substring_char(4, 12);
        let checksum = match Checksum::new(cs_part.to_owned()) {
            Some(c) => c,
            None => {
                proof {
                    assert(s@.len() != label_prefix().len());
                    assert forall|cs: Seq<char>, idx: u32| !label_denotes(s@, cs, idx) by {
                        if label_denotes(s@, cs, idx) {
                            assert(cs == s@.subrange(4, 12));
                        }
                    }
                }
                return None;
            },
        };
        let digits_part = s.substring_char(13, n);
        match parse_u32(digits_part) {
            Some(index) => {
                let o = KeyOrigin::Descriptor(checksum, index);
                proof {
                    assert(s@.subrange(0, 4) =~= label_prefix() + seq!['/']);
                    assert(label_matches(s@, o));
                }
                Some(o)
            },
            None => {
                proof {
                    assert(s@.len() != label_prefix().len());
                    assert forall|cs: Seq<char>, idx: u32| !label_denotes(s@, cs, idx) by {
                        if label_denotes(s@, cs, idx) {
                            assert(digits_value(s@.subrange(13, s@.len() as int)) == idx
                                <= u32::MAX);
                        }
                    }
                }
                None
            },
        }
    }

    /// Whether the origin is the standalone marker.
    pub fn is_standalone(origin: &KeyOrigin) -> (r: bool)
        ensures
            r == (origin is Standalone),
    {
        match origin {
            KeyOrigin::Standalone => true,
            KeyOrigin::Descriptor(..) => false,
        }
    }
}

/// The label of a well-formed origin parses back to that origin, and to no
/// other: `from_label` inverts `to_label` over the valid origins.
pub proof fn lemma_label_round_trip(o: KeyOrigin)
    requires
        o.wf(),
    ensures
        label_matches(label_of(o), o),
        forall|o2: KeyOrigin| #[trigger] label_matches(label_of(o), o2) ==> origin_eq(o, o2),
{
    match o {
        KeyOrigin::Standalone => {
            assert(label_matches(label_of(o), o));
            assert forall|o2: KeyOrigin| #[trigger] label_matches(label_of(o), o2) implies origin_eq(
                o,
                o2,
            ) by {
                match o2 {
                    KeyOrigin::Standalone => {},
                    KeyOrigin::Descriptor(c2, i2) => {
                        assert(label_of(o).len() == 3);
                    },
                }
            }
        },
        KeyOrigin::Descriptor(c, i) => {
            let s = label_of(o);
            let ds = u32_digits(i as nat);
            lemma_u32_digits(i as nat);
            assert(s.len() == 13 + ds.len());
            assert(s.subrange(0, 4) =~= label_prefix() + seq!['/']);
            assert(s.subrange(4, 12) =~= c@);
            assert(s[12] == '/');
            assert(s.subrange(13, s.len() as int) =~= ds);
            assert(label_matches(s, o));
            assert forall|o2: KeyOrigin| #[trigger] label_matches(s, o2) implies origin_eq(o, o2) by {
                match o2 {
                    KeyOrigin::Standalone => {
                        assert(s.len() >= 14);
                        assert(label_prefix().len() == 3);
                    },
                    KeyOrigin::Descriptor(c2, i2) => {
                        assert(c2@ == s.subrange(4, 12));
                        assert(i2 == digits_value(s.subrange(13, s.len() as int)));
                    },
                }
            }
        },
    }
}

} // verus!
