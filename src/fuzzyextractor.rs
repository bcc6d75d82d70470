//! A toy fuzzy extractor: the secret is a random pad and the public helper
//! data is the sample plus the pad, byte by byte modulo 256.

use vstd::prelude::*;
use crate::entropy::random_in;
use crate::error::ZkError;

verus! {

/// Helper data for `sample` under `pad`: `(sample[i] + pad[i]) mod 256`.
pub open spec fn bind_spec(sample: Seq<u8>, pad: Seq<u8>) -> Seq<u8> {
    Seq::new(sample.len(), |i: int| ((sample[i] as int + pad[i] as int) % 256) as u8)
}

/// The pad recovered from helper data: `(helper[i] - sample[i]) mod 256`.
pub open spec fn unbind_spec(sample: Seq<u8>, helper: Seq<u8>) -> Seq<u8> {
    Seq::new(sample.len(), |i: int| ((helper[i] as int - sample[i] as int) % 256) as u8)
}

/// What reproduction yields: the recovered secret, or a length mismatch.
pub open spec fn reproduce_spec(sample: Seq<u8>, helper: Seq<u8>) -> Result<Seq<u8>, ZkError> {
    if sample.len() != helper.len() {
        Err(ZkError::LengthMismatch)
    } else {
        Ok(unbind_spec(sample, helper))
    }
}

/// Reproducing from the helper data that one generation produced recovers
/// exactly that generation's secret.
pub proof fn lemma_reproduce_inverts_bind(sample: Seq<u8>, pad: Seq<u8>)
    requires
        pad.len() == sample.len(),
    ensures
        reproduce_spec(sample, bind_spec(sample, pad)) == Ok::<Seq<u8>, ZkError>(pad),
{
    let h = bind_spec(sample, pad);
    assert forall|i: int| 0 <= i < sample.len() implies #[trigger] unbind_spec(sample, h)[i] == pad[i] by {
        let a = sample[i] as int;
        let b = pad[i] as int;
        if a + b >= 256 {
            assert((a + b) % 256 == a + b - 256);
            assert((a + b - 256 - a) % 256 == b);
        } else {
            assert((a + b) % 256 == a + b);
            assert((a + b - a) % 256 == b);
        }
    }
    assert(unbind_spec(sample, h) =~= pad);
}

/// Derives a stable secret from a biometric sample; the sample itself is
/// never kept.
pub struct FuzzyExtractor {
    pad_limit: u8,
}

impl FuzzyExtractor {
    /// The largest value a pad byte can take.
    pub closed spec fn spec_pad_limit(&self) -> u8 {
        self.pad_limit
    }

    /// An extractor whose pad bytes lie in `[0, 177]`.
    pub fn new() -> (r: FuzzyExtractor)
        ensures
            r.spec_pad_limit() == 177,
    {
        FuzzyExtractor { pad_limit: 177 }
    }

    /// Helper data binding `pad` to `bio`.
    pub fn bind(&self, bio: &[u8], pad: &[u8]) -> (r: Vec<u8>)
        requires
            pad@.len() == bio@.len(),
        ensures
            r@ == bind_spec(bio@, pad@),
    {
        let mut out: Vec<u8> = Vec::new();
        let mut i: usize = 0;
        while i < bio.len()
            invariant
                i <= bio@.len(),
                pad@.len() == bio@.len(),
                out@ =~= bind_spec(bio@, pad@).subrange(0, i as int),
            decreases bio@.len() - i,
        {
            let v = ((bio[i] as u16 + pad[i] as u16) % 256) as u8;
            out.push(v);
            i = i + 1;
        }
        out
    }

    /// Draws a fresh pad and returns `(secret, helper)`: the pad is the
    /// secret, and the helper data binds it to the sample.
    pub fn generate(&self, bio: &[u8]) -> (r: (Vec<u8>, Vec<u8>))
        ensures
            r.0@.len() == bio@.len(),
            forall|i: int| 0 <= i < r.0@.len() ==> #[trigger] r.0@[i] <= self.spec_pad_limit(),
            r.1@ == bind_spec(bio@, r.0@),
            reproduce_spec(bio@, r.1@) == Ok::<Seq<u8>, ZkError>(r.0@),
    {
        let mut pad: Vec<u8> = Vec::new();
        let mut i: usize = 0;
        while i < bio.len()
            invariant
                i <= bio@.len(),
                pad@.len() == i,
                forall|j: int| 0 <= j < pad@.len() ==> #[trigger] pad@[j] <= self.pad_limit,
            decreases bio@.len() - i,
        {
            let b = random_in(0, self.pad_limit as u64 + 1) as u8;
            pad.push(b);
            i = i + 1;
        }
        let helper = self.bind(bio, pad.as_slice());
        proof {
            lemma_reproduce_inverts_bind(bio@, pad@);
        }
        (pad, helper)
    }

    /// Recovers the secret from the same sample and its helper data; fails
    /// with `LengthMismatch` when their lengths differ.
    pub fn reproduce(&self, bio: &[u8], hu: &[u8]) -> (r: Result<Vec<u8>, ZkError>)
        ensures
            match r {
                Ok(v) => reproduce_spec(bio@, hu@) == Ok::<Seq<u8>, ZkError>(v@),
                Err(e) => reproduce_spec(bio@, hu@) == Err::<Seq<u8>, ZkError>(e),
            },
    {
        if bio.len() != hu.len() {
            return Err(ZkError::LengthMismatch);
        }
        let mut out: Vec<u8> = Vec::new();
        let mut i: usize = 0;
        while i < bio.len()
            invariant
                i <= bio@.len(),
                hu@.len() == bio@.len(),
                out@ =~= unbind_spec(bio@, hu@).subrange(0, i as int),
            decreases bio@.len() - i,
        {
            let v = ((hu[i] as u16 + 256 - bio[i] as u16) % 256) as u8;
            proof {
                let a = hu@[i as int] as int;
                let b = bio@[i as int] as int;
                assert((a + 256 - b) % 256 == (a - b) % 256) by {
                    vstd::arithmetic::div_mod::lemma_mod_add_multiples_vanish(a - b, 256);
                }
            }
            out.push(v);
            i = i + 1;
        }
        assert(out@ =~= unbind_spec(bio@, hu@));
        Ok(out)
    }
}

} // verus!
