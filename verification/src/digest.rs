//! SHA-256 digests and their lowercase hexadecimal form.

use sha2::Digest;
use vstd::prelude::*;
use vstd::string::StringSliceAdditionalSpecFns;

verus! {

/// The SHA-256 digest of `data` (FIPS 180-4), as computed by the `sha2`
/// crate.
pub uninterp spec fn sha256_digest(data: Seq<u8>) -> Seq<u8>;

/// `sha2::Sha256::digest`: the 32-byte SHA-256 digest of `data`. Trusted:
/// the result is the named digest of the bytes and is 32 bytes long (the
/// output size of `Sha256`).
#[verifier::external_body]
fn sha256(data: &[u8]) -> (d: Vec<u8>)
    ensures
        d@ == sha256_digest(data@),
        d@.len() == 32,
{
    sha2::Sha256::digest(data).to_vec()
}

/// The lowercase hexadecimal digit for `n < 16`.
pub open spec fn hex_digit(n: int) -> char {
    if n < 10 {
        (48 + n) as char
    } else {
        (87 + n) as char
    }
}

/// The lowercase hexadecimal form of `b`: two digits per byte, high
/// nibble first (`hex::encode`).
pub open spec fn hex_lower(b: Seq<u8>) -> Seq<char>
    decreases b.len(),
{
    if b.len() == 0 {
        seq![]
    } else {
        hex_lower(b.drop_last()) + seq![hex_digit((b.last() / 16) as int), hex_digit((b.last() % 16) as int)]
    }
}

pub(crate) fn hex_digit_exec(n: u8) -> (c: char)
    requires
        n < 16,
    ensures
        c == hex_digit(n as int),
{
    let digits: [char; 16] = [
        '0', '1', '2', '3', '4', '5', '6', '7', '8', '9', 'a', 'b', 'c', 'd', 'e', 'f',
    ];
    proof {
        assert(digits@ =~= seq![
            '0', '1', '2', '3', '4', '5', '6', '7', '8', '9', 'a', 'b', 'c', 'd', 'e', 'f',
        ]);
    }
    digits[n as usize]
}

/// The lowercase hexadecimal form of the first `n` bytes of `b`.
pub fn hex_prefix(b: &Vec<u8>, n: usize) -> (s: String)
    requires
        n <= b.len(),
    ensures
        s@ == hex_lower(b@.take(n as int)),
{
    let mut s = String::new();
    let mut i: usize = 0;
    while i < n
        invariant
            i <= n <= b.len(),
            s@ == hex_lower(b@.take(i as int)),
        decreases n - i,
    {
        let byte = b[i];
        let hi = hex_digit_exec(byte / 16);
        let lo = hex_digit_exec(byte % 16);
        proof {
            assert(b@.take(i + 1).drop_last() =~= b@.take(i as int));
        }
        crate::text::push_char(&mut s, hi);
        crate::text::push_char(&mut s, lo);
        i += 1;
    }
    s
}

/// The short content hash used for deduplication: the hexadecimal form of
/// the first 8 bytes of the SHA-256 digest of `content`'s UTF-8 bytes.
pub open spec fn short_hash(content: Seq<u8>) -> Seq<char> {
    hex_lower(sha256_digest(content).take(8))
}

/// Compute a short content hash (16 hex digits) for deduplication.
pub fn content_hash(content: &str) -> (h: String)
    ensures
        h@ == short_hash(content.spec_bytes()),
        h@.len() == 16,
{
    let d = sha256(content.as_bytes());
    let h = hex_prefix(&d, 8);
    proof {
        lemma_hex_len(d@.take(8));
    }
    h
}

/// The full SHA-256 digest of `text`'s UTF-8 bytes in lowercase
/// hexadecimal (`format!("{:x}", Sha256::digest(..))`).
pub fn sha256_hex(text: &str) -> (h: String)
    ensures
        h@ == hex_lower(sha256_digest(text.spec_bytes())),
        h@.len() == 64,
{
    let d = sha256(text.as_bytes());
    let h = hex_prefix(&d, 32);
    proof {
        assert(d@.take(32) =~= d@);
        lemma_hex_len(d@);
    }
    h
}

/// The name content-addressed storage gives a file: the full SHA-256 of
/// its bytes in lowercase hexadecimal, so the same bytes always get the
/// same name.
pub fn content_address(bytes: &[u8]) -> (h: String)
    ensures
        h@ == hex_lower(sha256_digest(bytes@)),
        h@.len() == 64,
{
    let d = sha256(bytes);
    let h = hex_prefix(&d, 32);
    proof {
        assert(d@.take(32) =~= d@);
        lemma_hex_len(d@);
    }
    h
}

/// Two digits per byte.
pub proof fn lemma_hex_len(b: Seq<u8>)
    ensures
        hex_lower(b).len() == 2 * b.len(),
    decreases b.len(),
{
    if b.len() > 0 {
        lemma_hex_len(b.drop_last());
    }
}

} // verus!
