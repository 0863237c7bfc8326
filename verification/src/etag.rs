//! HTTP-style entity tags: a validator computed from rendered bytes.
//!
//! A tag is an opaque string plus a weakness flag. Its wire form is
//! `"<value>"` for strong tags and `W/"<value>"` for weak ones. Two tags are
//! weakly equal when their values agree, whatever the flags say; strong
//! equality additionally demands that both tags are strong.
//!
//! [`EntityTag::compute`] derives a strong tag from a byte sequence: a
//! deterministic, non-cryptographic 64-bit content hash, written as uppercase
//! hexadecimal. Identical bytes always give identical tags; collision
//! resistance is not needed, because the tag is a cache-freshness signal and
//! not a security boundary.

use vstd::prelude::*;
use vstd::string::StrSliceExecFns;
use vstd::string::StringExecFns;

verus! {

/// The 64-bit content hash used for entity tags, defined byte by byte:
/// starting from a fixed offset basis, each byte is folded in with an
/// exclusive-or followed by a wrapping multiplication with a fixed prime.
pub open spec fn content_hash(bytes: Seq<u8>) -> u64
    decreases bytes.len(),
{
    if bytes.len() == 0 {
        0xcbf29ce484222325u64
    } else {
        (content_hash(bytes.drop_last()) ^ (bytes.last() as u64)).wrapping_mul(0x100000001b3u64)
    }
}

/// The uppercase hexadecimal digit for a value below sixteen.
pub open spec fn hex_digit(d: u64) -> char {
    if d == 0 {
        '0'
    } else if d == 1 {
        '1'
    } else if d == 2 {
        '2'
    } else if d == 3 {
        '3'
    } else if d == 4 {
        '4'
    } else if d == 5 {
        '5'
    } else if d == 6 {
        '6'
    } else if d == 7 {
        '7'
    } else if d == 8 {
        '8'
    } else if d == 9 {
        '9'
    } else if d == 10 {
        'A'
    } else if d == 11 {
        'B'
    } else if d == 12 {
        'C'
    } else if d == 13 {
        'D'
    } else if d == 14 {
        'E'
    } else {
        'F'
    }
}

/// Uppercase hexadecimal rendering of a 64-bit value, without leading zeros
/// (zero itself is rendered as a single digit).
pub open spec fn hex_chars(n: u64) -> Seq<char>
    decreases n,
{
    if n < 16 {
        seq![hex_digit(n)]
    } else {
        hex_chars(n / 16).push(hex_digit(n % 16))
    }
}

/// The tag value that [`EntityTag::compute`] assigns to a byte sequence.
pub open spec fn computed_tag(bytes: Seq<u8>) -> Seq<char> {
    hex_chars(content_hash(bytes))
}

/// An entity tag: an opaque value string plus a weakness flag.
#[derive(Debug)]
pub struct EntityTag {
    /// Whether the tag is weak. Weak tags claim semantic equivalence only;
    /// strong tags claim byte-for-byte equality of what they validate.
    pub weak: bool,
    /// The opaque value carried between the quotes of the wire form.
    pub tag: String,
}

/// Two tags are weakly equal when their values agree, whatever the flags say.
pub open spec fn weak_match(a: EntityTag, b: EntityTag) -> bool {
    a.tag@ == b.tag@
}

/// Two tags are strongly equal when their values agree and both are strong.
pub open spec fn strong_match(a: EntityTag, b: EntityTag) -> bool {
    a.tag@ == b.tag@ && !a.weak && !b.weak
}

/// The wire form: `"<value>"`, prefixed by `W/` for weak tags.
pub open spec fn wire(t: EntityTag) -> Seq<char> {
    (if t.weak {
        seq!['W', '/']
    } else {
        Seq::<char>::empty()
    }) + seq!['"'] + t.tag@ + seq!['"']
}

impl EntityTag {
    /// A value is acceptable when no character of it would break the quoted
    /// wire form.
    pub open spec fn wf(self) -> bool {
        forall|i: int| 0 <= i < self.tag@.len() ==> self.tag@[i] != '"'
    }

    /// Builds a tag from a flag and a value, refusing a value that holds a
    /// double quote (such a value could not be carried in the wire form).
    pub fn new(weak: bool, tag: String) -> (r: Option<EntityTag>)
        ensures
            match r {
                Some(t) => t.weak == weak && t.tag@ == tag@ && t.wf(),
                None => exists|i: int| 0 <= i < tag@.len() && tag@[i] == '"',
            },
    {
        let n = tag.as_str().unicode_len();
        let mut i: usize = 0;
        while i < n
            invariant
                n == tag@.len(),
                i <= n,
                forall|j: int| 0 <= j < i ==> tag@[j] != '"',
            decreases n - i,
        {
            if tag.as_str().get_char(i) == '"' {
                return None;
            }
            i += 1;
        }
        Some(EntityTag { weak, tag })
    }

    /// Computes the strong tag for a byte sequence: the 64-bit content hash,
    /// rendered as uppercase hexadecimal.
    pub fn compute(bytes: &[u8]) -> (r: EntityTag)
        ensures
            !r.weak,
            r.tag@ == computed_tag(bytes@),
            r.wf(),
    {
        let mut h: u64 = 0xcbf29ce484222325;
        let mut i: usize = 0;
        let n = bytes.len();
        while i < n
            invariant
                n == bytes@.len(),
                i <= n,
                h == content_hash(bytes@.take(i as int)),
            decreases n - i,
        {
            proof {
                assert(bytes@.take(i as int + 1).drop_last() =~= bytes@.take(i as int));
                assert(bytes@.take(i as int + 1).last() == bytes@[i as int]);
            }
            h = (h ^ (bytes[i] as u64)).wrapping_mul(0x100000001b3);
            i += 1;
        }
        proof {
            assert(bytes@.take(n as int) =~= bytes@);
        }
        let tag = u64_to_hex_upper(h);
        proof {
            lemma_hex_chars_no_quote(h);
        }
        EntityTag { weak: false, tag }
    }

    /// Weak comparison: the values agree, whatever the flags say.
    pub fn weak_eq(&self, other: &EntityTag) -> (r: bool)
        ensures
            r == weak_match(*self, *other),
    {
        self.tag == other.tag
    }

    /// Strong comparison: the values agree and both tags are strong.
    pub fn strong_eq(&self, other: &EntityTag) -> (r: bool)
        ensures
            r == strong_match(*self, *other),
    {
        !self.weak && !other.weak && self.tag == other.tag
    }

    /// The wire form of the tag: the value between double quotes, prefixed by
    /// `W/` when the tag is weak.
    pub fn to_string(&self) -> (r: String)
        ensures
            r@ == wire(*self),
    {
        proof {
            reveal_strlit("W/");
            reveal_strlit("\"");
        }
        let mut s = String::new();
        if self.weak {
            s.append("W/");
        }
        s.append("\"");
        s.append(self.tag.as_str());
        s.append("\"");
        proof {
            assert(s@ =~= wire(*self));
        }
        s
    }
}

impl Clone for EntityTag {
    /// Duplicating a tag keeps the flag and the value.
    fn clone(&self) -> (r: Self)
        ensures
            r == *self,
    {
        EntityTag { weak: self.weak, tag: self.tag.clone() }
    }
}

/// Renders a 64-bit value as uppercase hexadecimal without leading zeros.
fn u64_to_hex_upper(n: u64) -> (s: String)
    ensures
        s@ == hex_chars(n),
    decreases n,
{
    if n < 16 {
        hex_digit_str(n).to_owned()
    } else {
        let mut s = u64_to_hex_upper(n / 16);
        s.append(hex_digit_str(n % 16));
        proof {
            assert(s@ =~= hex_chars(n));
        }
        s
    }
}

/// The one-character string for an uppercase hexadecimal digit.
fn hex_digit_str(d: u64) -> (r: &'static str)
    requires
        d < 16,
    ensures
        r@ =~= seq![hex_digit(d)],
{
    proof {
        reveal_strlit("0");
        reveal_strlit("1");
        reveal_strlit("2");
        reveal_strlit("3");
        reveal_strlit("4");
        reveal_strlit("5");
        reveal_strlit("6");
        reveal_strlit("7");
        reveal_strlit("8");
        reveal_strlit("9");
        reveal_strlit("A");
        reveal_strlit("B");
        reveal_strlit("C");
        reveal_strlit("D");
        reveal_strlit("E");
        reveal_strlit("F");
    }
    if d == 0 {
        "0"
    } else if d == 1 {
        "1"
    } else if d == 2 {
        "2"
    } else if d == 3 {
        "3"
    } else if d == 4 {
        "4"
    } else if d == 5 {
        "5"
    } else if d == 6 {
        "6"
    } else if d == 7 {
        "7"
    } else if d == 8 {
        "8"
    } else if d == 9 {
        "9"
    } else if d == 10 {
        "A"
    } else if d == 11 {
        "B"
    } else if d == 12 {
        "C"
    } else if d == 13 {
        "D"
    } else if d == 14 {
        "E"
    } else {
        "F"
    }
}

/// No uppercase hexadecimal digit is a double quote.
proof fn lemma_hex_chars_no_quote(n: u64)
    ensures
        forall|i: int| 0 <= i < hex_chars(n).len() ==> hex_chars(n)[i] != '"',
    decreases n,
{
    assert(hex_digit(n % 16) != '"');
    assert(hex_digit(n) != '"');
    if n >= 16 {
        lemma_hex_chars_no_quote(n / 16);
        assert forall|i: int| 0 <= i < hex_chars(n).len() implies hex_chars(n)[i] != '"' by {
            if i < hex_chars(n / 16).len() {
                assert(hex_chars(n)[i] == hex_chars(n / 16)[i]);
            } else {
                assert(hex_chars(n)[i] == hex_digit(n % 16));
            }
        }
    }
}

/// Weak equality of entity tags is symmetric: whichever side a tag stands on,
/// the comparison reads the same.
pub proof fn lemma_weak_match_symmetric(a: EntityTag, b: EntityTag)
    ensures
        weak_match(a, b) == weak_match(b, a),
{
}

/// Two tags computed from the same bytes weakly match, in either order.
pub proof fn lemma_compute_weak_match_self(bytes: Seq<u8>, a: EntityTag, b: EntityTag)
    requires
        a.tag@ == computed_tag(bytes),
        b.tag@ == computed_tag(bytes),
    ensures
        weak_match(a, b),
        weak_match(b, a),
{
}

/// Tag computation is a pure function of the bytes: equal inputs give equal
/// tag values, and tags that agree flag and value have identical wire forms.
pub proof fn lemma_compute_deterministic(b1: Seq<u8>, b2: Seq<u8>)
    requires
        b1 == b2,
    ensures
        computed_tag(b1) == computed_tag(b2),
{
}

/// Tags that agree on flag and value render to byte-identical wire forms.
pub proof fn lemma_wire_deterministic(a: EntityTag, b: EntityTag)
    requires
        a.weak == b.weak,
        a.tag@ == b.tag@,
    ensures
        wire(a) == wire(b),
{
}

} // verus!
