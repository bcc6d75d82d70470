//! Byte encodings of integers and strings, and the SHA-256 based hash that
//! binds identities, passwords and PUF responses.

use vstd::prelude::*;
use vstd::arithmetic::power::*;
use sha2::Digest;

verus! {

/// The first `k` base-256 digits of `x`, least significant first.
pub open spec fn le_digits(x: nat, k: nat) -> Seq<u8>
    decreases k,
{
    if k == 0 {
        Seq::empty()
    } else {
        seq![(x % 256) as u8] + le_digits(x / 256, (k - 1) as nat)
    }
}

/// The eight bytes of a `u64`, least significant first.
pub open spec fn u64_le(x: u64) -> Seq<u8> {
    le_digits(x as nat, 8)
}

/// The bytes read as one big-endian number.
pub open spec fn be_value(s: Seq<u8>) -> nat
    decreases s.len(),
{
    if s.len() == 0 {
        0
    } else {
        be_value(s.drop_last()) * 256 + s.last() as nat
    }
}

/// The first eight bytes read as a big-endian `u64`.
pub open spec fn be_word(s: Seq<u8>) -> u64 {
    be_value(s.subrange(0, 8)) as u64
}

/// The SHA-256 digest of a byte string.
pub uninterp spec fn sha256_of(data: Seq<u8>) -> Seq<u8>;

/// The protocol's hash: the first eight digest bytes as a big-endian word.
pub open spec fn hash_word(data: Seq<u8>) -> u64 {
    be_word(sha256_of(data))
}

/// The UTF-8 bytes of a string.
pub open spec fn utf8(s: Seq<char>) -> Seq<u8> {
    vstd::utf8::encode_utf8(s)
}

/// The decimal digits of a number, without leading zeros.
pub open spec fn decimal_spec(n: nat) -> Seq<char>
    decreases n,
{
    if n < 10 {
        seq![seq!['0', '1', '2', '3', '4', '5', '6', '7', '8', '9'][n as int]]
    } else {
        decimal_spec(n / 10) + seq![seq!['0', '1', '2', '3', '4', '5', '6', '7', '8', '9'][(n % 10) as int]]
    }
}

/// Relies on sha2::Sha256::digest: the SHA-256 digest of `data`, 32 bytes.
#[verifier::external_body]
fn sha256(data: &[u8]) -> (r: Vec<u8>)
    ensures
        r@ == sha256_of(data@),
        r@.len() == 32,
{
    sha2::Sha256::digest(data).to_vec()
}

/// Relies on `u64::to_string` (std's `Display` for integers): the decimal
/// digits of `n`.
#[verifier::external_body]
pub(crate) fn decimal_string(n: u64) -> (r: String)
    ensures
        r@ == decimal_spec(n as nat),
{
    n.to_string()
}

/// The eight little-endian bytes of `x`.
pub fn u64_to_le_bytes(x: u64) -> (r: Vec<u8>)
    ensures
        r@ == u64_le(x),
{
    let mut out: Vec<u8> = Vec::new();
    let mut cur: u64 = x;
    let mut k: usize = 0;
    while k < 8
        invariant
            k <= 8,
            out@ + le_digits(cur as nat, (8 - k) as nat) == le_digits(x as nat, 8),
        decreases 8 - k,
    {
        let b = (cur % 256) as u8;
        proof {
            assert(le_digits(cur as nat, (8 - k) as nat)
                == seq![b] + le_digits((cur / 256) as nat, (8 - k - 1) as nat));
            assert(out@.push(b) + le_digits((cur / 256) as nat, (8 - k - 1) as nat)
                =~= out@ + (seq![b] + le_digits((cur / 256) as nat, (8 - k - 1) as nat)));
        }
        out.push(b);
        cur = cur / 256;
        k = k + 1;
    }
    assert(out@ + le_digits(cur as nat, 0) =~= out@);
    out
}

/// The first eight bytes of `s` as a big-endian `u64`.
pub fn be_word_of(s: &[u8]) -> (r: u64)
    requires
        s@.len() >= 8,
    ensures
        r == be_word(s@),
{
    let mut acc: u64 = 0;
    let mut k: usize = 0;
    proof {
        lemma_pow0(256);
        assert(s@.subrange(0, 0).len() == 0);
    }
    while k < 8
        invariant
            k <= 8,
            s@.len() >= 8,
            acc as nat == be_value(s@.subrange(0, k as int)),
            (acc as int) < pow(256, k as nat),
        decreases 8 - k,
    {
        proof {
            lemma_pow_increases(256, (k + 1) as nat, 8);
            reveal_with_fuel(pow, 9);
            assert(pow(256, 8) == 0x1_0000_0000_0000_0000int);
            lemma_pow1(256);
            lemma_pow_adds(256, k as nat, 1);
            assert(s@.subrange(0, k + 1).drop_last() =~= s@.subrange(0, k as int));
            assert(acc * 256 + s@[k as int] < pow(256, (k + 1) as nat)) by (nonlinear_arith)
                requires acc < pow(256, k as nat), s@[k as int] < 256,
                    pow(256, (k + 1) as nat) == pow(256, k as nat) * 256;
        }
        acc = acc * 256 + s[k] as u64;
        k = k + 1;
    }
    acc
}

/// Appends the bytes of `b` to `out`.
pub fn append_bytes(out: &mut Vec<u8>, b: &[u8])
    ensures
        final(out)@ == old(out)@ + b@,
{
    let mut i: usize = 0;
    while i < b.len()
        invariant
            i <= b@.len(),
            out@ == old(out)@ + b@.subrange(0, i as int),
        decreases b@.len() - i,
    {
        proof {
            assert(old(out)@ + b@.subrange(0, i + 1) =~= (old(out)@ + b@.subrange(0, i as int)).push(b@[i as int]));
        }
        out.push(b[i]);
        i = i + 1;
    }
    assert(b@.subrange(0, b@.len() as int) =~= b@);
}

/// The protocol hash of `data`.
pub fn digest_word(data: &[u8]) -> (r: u64)
    ensures
        r == hash_word(data@),
{
    let d = sha256(data);
    be_word_of(d.as_slice())
}

} // verus!
