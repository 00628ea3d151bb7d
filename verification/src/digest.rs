//! SHA-256 content digests, held as lowercase hexadecimal text.
use vstd::prelude::*;
use vstd::string::StrSliceExecFns;
use vstd::string::StringExecFns;

verus! {

/// Whether `c` is one of `0`..`9`, `a`..`f`.
pub open spec fn is_lower_hex(c: char) -> bool {
    ('0' as u32 <= c as u32 && c as u32 <= '9' as u32) || ('a' as u32 <= c as u32 && c as u32
        <= 'f' as u32)
}

/// Whether `c` is a hexadecimal digit of either case.
pub open spec fn is_hex_digit(c: char) -> bool {
    is_lower_hex(c) || ('A' as u32 <= c as u32 && c as u32 <= 'F' as u32)
}

/// The number that the hexadecimal digit `c` stands for.
pub open spec fn hex_value(c: char) -> int {
    if '0' as u32 <= c as u32 && c as u32 <= '9' as u32 {
        c as u32 - '0' as u32
    } else if 'a' as u32 <= c as u32 && c as u32 <= 'f' as u32 {
        c as u32 - 'a' as u32 + 10
    } else {
        c as u32 - 'A' as u32 + 10
    }
}

/// Whether `s` is hexadecimal text for whole bytes: an even number of
/// hexadecimal digits.
pub open spec fn is_hex_text(s: Seq<char>) -> bool {
    &&& s.len() % 2 == 0
    &&& forall|i: int| 0 <= i < s.len() ==> is_hex_digit(#[trigger] s[i])
}

/// The bytes that the hexadecimal text `s` stands for: two digits a byte,
/// the high half first.
pub open spec fn hex_bytes(s: Seq<char>) -> Seq<u8> {
    Seq::new(s.len() / 2, |i: int| (16 * hex_value(s[2 * i]) + hex_value(s[2 * i + 1])) as u8)
}

/// Whether `s` is the text of a digest: 64 lowercase hexadecimal digits.
pub open spec fn is_digest_text(s: Seq<char>) -> bool {
    &&& s.len() == 64
    &&& forall|i: int| 0 <= i < s.len() ==> is_lower_hex(#[trigger] s[i])
}

/// The SHA-256 digest of `data`, as lowercase hexadecimal text.
pub uninterp spec fn sha256_hex(data: Seq<u8>) -> Seq<char>;

/// The digest of two digests side by side: SHA-256 over the 32 raw bytes of
/// `left` followed by the 32 raw bytes of `right`.
pub open spec fn parent_digest(left: Seq<char>, right: Seq<char>) -> Seq<char> {
    sha256_hex(hex_bytes(left) + hex_bytes(right))
}

/// Calls `sha256::digest` on a byte slice.
///
/// Trusted: the result is the function's value on these bytes, and it is
/// the lowercase hexadecimal encoding of a 32-byte hash, so 64 digits long.
#[verifier::external_body]
fn sha256_digest(data: &[u8]) -> (r: String)
    ensures
        r@ == sha256_hex(data@),
        is_digest_text(r@),
{
    sha256::digest(data)
}

/// Calls `hex::decode` on a string.
///
/// Trusted: decoding succeeds exactly on an even number of hexadecimal
/// digits of either case, and then yields one byte for each pair of digits,
/// the first digit of a pair being the high half.
#[verifier::external_body]
fn hex_decode(text: &str) -> (r: Option<Vec<u8>>)
    ensures
        r is Some <==> is_hex_text(text@),
        r matches Some(bytes) ==> bytes@ == hex_bytes(text@),
{
    hex::decode(text).ok()
}

/// Decoding hexadecimal text piece by piece: the bytes of two texts joined
/// are the bytes of the first followed by the bytes of the second, provided
/// the first ends on a byte boundary.
pub proof fn lemma_hex_bytes_concat(left: Seq<char>, right: Seq<char>)
    requires
        left.len() % 2 == 0,
    ensures
        hex_bytes(left + right) == hex_bytes(left) + hex_bytes(right),
{
    let joined = left + right;
    let half = left.len() / 2;
    assert((left.len() + right.len()) / 2 == half + right.len() / 2) by {
        assert(left.len() == 2 * half);
    }
    assert forall|i: int| 0 <= i < hex_bytes(joined).len() implies hex_bytes(joined)[i] == (
    hex_bytes(left) + hex_bytes(right))[i] by {
        if i < half {
            assert(joined[2 * i] == left[2 * i]);
            assert(joined[2 * i + 1] == left[2 * i + 1]);
        } else {
            assert(joined[2 * i] == right[2 * (i - half)]);
            assert(joined[2 * i + 1] == right[2 * (i - half) + 1]);
        }
    }
    assert(hex_bytes(joined) =~= hex_bytes(left) + hex_bytes(right));
}

/// A 32-byte SHA-256 value, exchanged as 64 lowercase hexadecimal digits.
#[derive(Debug)]
pub struct ContentDigest {
    hex: String,
}

impl View for ContentDigest {
    type V = Seq<char>;

    closed spec fn view(&self) -> Seq<char> {
        self.hex@
    }
}

impl Clone for ContentDigest {
    fn clone(&self) -> (r: Self)
        ensures
            r == *self,
    {
        proof {
            use_type_invariant(self);
        }
        ContentDigest { hex: self.hex.clone() }
    }
}

impl ContentDigest {
    #[verifier::type_invariant]
    spec fn well_formed(&self) -> bool {
        is_digest_text(self.hex@)
    }

    /// The digest of `data`.
    pub fn of_bytes(data: &[u8]) -> (r: ContentDigest)
        ensures
            r@ == sha256_hex(data@),
    {
        ContentDigest { hex: sha256_digest(data) }
    }

    /// The digest that `text` spells, if `text` is 64 lowercase hexadecimal
    /// digits.
    pub fn from_hex(text: &str) -> (r: Option<ContentDigest>)
        ensures
            r is Some <==> is_digest_text(text@),
            r matches Some(d) ==> d@ == text@,
    {
        let len = text.unicode_len();
        if len != 64 {
            return None;
        }
        let mut i: usize = 0;
        while i < len
            invariant
                len == 64,
                text@.len() == 64,
                i <= len,
                forall|j: int| 0 <= j < i ==> is_lower_hex(#[trigger] text@[j]),
            decreases len - i,
        {
            let c = text.get_char(i);
            if !(('0' <= c && c <= '9') || ('a' <= c && c <= 'f')) {
                return None;
            }
            i = i + 1;
        }
        Some(ContentDigest { hex: String::from_str(text) })
    }

    /// The digest as 64 lowercase hexadecimal digits.
    pub fn to_hex(&self) -> (r: String)
        ensures
            r@ == self@,
            is_digest_text(r@),
    {
        proof {
            use_type_invariant(self);
        }
        self.hex.clone()
    }

    /// The 32 raw bytes of the digest.
    pub fn to_bytes(&self) -> (r: Vec<u8>)
        ensures
            r@ == hex_bytes(self@),
            r@.len() == 32,
    {
        proof {
            use_type_invariant(self);
        }
        match hex_decode(self.hex.as_str()) {
            Some(bytes) => bytes,
            None => Vec::new(),
        }
    }

    /// The digest of `left` and `right` side by side, as raw bytes.
    pub fn combine(left: &ContentDigest, right: &ContentDigest) -> (r: ContentDigest)
        ensures
            r@ == parent_digest(left@, right@),
    {
        proof {
            use_type_invariant(left);
            use_type_invariant(right);
            lemma_hex_bytes_concat(left@, right@);
        }
        let text = left.hex.clone().concat(right.hex.as_str());
        match hex_decode(text.as_str()) {
            Some(bytes) => ContentDigest { hex: sha256_digest(bytes.as_slice()) },
            None => left.clone(),
        }
    }
}

} // verus!
