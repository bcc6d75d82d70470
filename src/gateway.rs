//! The gateway: keeps its PUF challenge–response pairs and the users'
//! verifiers by pseudonym, proves its identity, checks the users' proofs of
//! knowledge and rotates their pseudonyms.

use vstd::prelude::*;
use vstd::arithmetic::power::*;
use vstd::arithmetic::div_mod::*;
use std::collections::HashMap;
use crate::binding::{gateway_key, gateway_key_spec, identity_binding, identity_binding_spec};
use crate::encoding::decimal_string;
use crate::entropy::{random_in, random_u64};
use crate::error::ZkError;
use crate::number_theory::{mod_pow, mod_pow_spec};
use crate::store::KeyedStore;

verus! {

broadcast use vstd::std_specs::hash::group_hash_axioms;

/// How many fresh challenges `register_preparation` draws before it gives
/// up on finding one that is not in use.
pub const CHALLENGE_ATTEMPTS: u64 = 16;

/// How many fresh pseudonyms the gateway draws before it gives up on
/// finding one that is not live.
pub const PSEUDONYM_ATTEMPTS: u64 = 16;

/// The Schnorr-like check: `g^t2 mod n == (t1 * v2^n2 mod n) mod n`.
pub open spec fn accepts_spec(g: int, n: int, v2: int, t1: int, n2: nat, t2: nat) -> bool {
    n > 0 && mod_pow_spec(g, t2, n) == (t1 * mod_pow_spec(v2, n2, n)) % n
}

/// Completeness: with verifier `g^s mod n` and commitment `g^n1 mod n`, the
/// response `n1 + n2 * s` passes the check.
pub proof fn lemma_honest_response_accepted(g: int, n: int, s: nat, n1: nat, n2: nat)
    requires
        n > 0,
    ensures
        accepts_spec(g, n, mod_pow_spec(g, s, n), mod_pow_spec(g, n1, n), n2, n1 + n2 * s),
{
    let a = pow(g, n1);
    let b = pow(g, s);
    vstd::arithmetic::mul::lemma_mul_is_commutative(n2 as int, s as int);
    lemma_pow_adds(g, n1, s * n2);
    lemma_pow_multiplies(g, s, n2);
    assert(pow(g, n1 + n2 * s) == a * pow(b, n2));
    lemma_pow_mod_noop(b, n2, n);
    lemma_mul_mod_noop_general(a, pow(b, n2), n);
}

/// A gateway.
pub struct Gateway {
    id: String,
    rid: String,
    n: u64,
    g: u64,
    users: KeyedStore,
    puf_response_map: HashMap<u64, u64>,
    temp_id_map: Vec<(String, String)>,
    blinding: KeyedStore,
}

impl Gateway {
    /// The gateway identifier.
    pub closed spec fn spec_id(&self) -> Seq<char> {
        self.id@
    }

    /// The identity the gateway declares to the registration authority.
    pub closed spec fn spec_rid(&self) -> Seq<char> {
        self.rid@
    }

    /// The modulus of the group.
    pub closed spec fn spec_n(&self) -> u64 {
        self.n
    }

    /// The generator of the group.
    pub closed spec fn spec_g(&self) -> u64 {
        self.g
    }

    /// Verifiers by pseudonym.
    pub closed spec fn credentials(&self) -> Map<Seq<char>, u64> {
        self.users@
    }

    /// PUF responses by challenge.
    pub closed spec fn challenges(&self) -> Map<u64, u64> {
        self.puf_response_map@
    }

    /// Each rotation, old pseudonym then new, in order.
    pub closed spec fn rotations(&self) -> Seq<(Seq<char>, Seq<char>)> {
        self.temp_id_map@.map_values(|p: (String, String)| (p.0@, p.1@))
    }

    /// The blinding factor that came with the latest key update, by the
    /// pseudonym it was sent under.
    pub closed spec fn blindings(&self) -> Map<Seq<char>, u64> {
        self.blinding@
    }

    /// Whether an authentication round with these values succeeds.
    pub open spec fn authenticate_user_spec(&self, old_pidu: Seq<char>, new_pidu: Seq<char>, t1: u64, n2: u64, t2: u128) -> bool {
        &&& self.credentials().contains_key(old_pidu)
        &&& (new_pidu == old_pidu || !self.credentials().contains_key(new_pidu))
        &&& accepts_spec(
            self.spec_g() as int,
            self.spec_n() as int,
            self.credentials()[old_pidu] as int,
            t1 as int,
            n2 as nat,
            t2 as nat,
        )
    }

    /// A gateway with no challenges and no users, in the group `(n, g)`.
    pub fn new(id: String, rid: String, n: u64, g: u64) -> (r: Gateway)
        ensures
            r.spec_id() == id@,
            r.spec_rid() == rid@,
            r.spec_n() == n,
            r.spec_g() == g,
            r.credentials() == Map::<Seq<char>, u64>::empty(),
            r.challenges() == Map::<u64, u64>::empty(),
            r.rotations() == Seq::<(Seq<char>, Seq<char>)>::empty(),
            r.blindings() == Map::<Seq<char>, u64>::empty(),
    {
        let r = Gateway {
            id,
            rid,
            n,
            g,
            users: KeyedStore::new(),
            puf_response_map: HashMap::new(),
            temp_id_map: Vec::new(),
            blinding: KeyedStore::new(),
        };
        assert(r.rotations() =~= Seq::<(Seq<char>, Seq<char>)>::empty());
        r
    }

    /// Records the challenge–response pair `(cg, rg)` and returns it with
    /// the gateway identifier. A challenge in use already is refused with
    /// `DuplicateRegistration`, so that each challenge keeps one response.
    pub fn prepare_with(&mut self, cg: u64, rg: u64) -> (r: Result<(String, u64, u64), ZkError>)
        ensures
            r is Err <==> old(self).challenges().contains_key(cg),
            r is Err ==> r == Err::<(String, u64, u64), ZkError>(ZkError::DuplicateRegistration) && *final(self) == *old(self),
            r matches Ok((id, c, resp)) ==> {
                &&& id@ == old(self).spec_id()
                &&& c == cg
                &&& resp == rg
                &&& final(self).challenges() == old(self).challenges().insert(cg, rg)
                &&& final(self).spec_id() == old(self).spec_id()
                &&& final(self).spec_rid() == old(self).spec_rid()
                &&& final(self).spec_n() == old(self).spec_n()
                &&& final(self).spec_g() == old(self).spec_g()
                &&& final(self).credentials() == old(self).credentials()
                &&& final(self).rotations() == old(self).rotations()
                &&& final(self).blindings() == old(self).blindings()
            },
    {
        if self.puf_response_map.contains_key(&cg) {
            return Err(ZkError::DuplicateRegistration);
        }
        self.puf_response_map.insert(cg, rg);
        Ok((self.id.clone(), cg, rg))
    }

    /// Mints a fresh challenge and a simulated PUF response for it, records
    /// the pair and returns `(gateway_id, challenge, response)`. Fails with
    /// `SearchExhausted` only if every drawn challenge was in use.
    pub fn register_preparation(&mut self) -> (r: Result<(String, u64, u64), ZkError>)
        ensures
            old(self).challenges() == Map::<u64, u64>::empty() ==> r is Ok,
            r is Err ==> r == Err::<(String, u64, u64), ZkError>(ZkError::SearchExhausted) && *final(self) == *old(self),
            r matches Ok((id, c, resp)) ==> {
                &&& id@ == old(self).spec_id()
                &&& !old(self).challenges().contains_key(c)
                &&& final(self).challenges() == old(self).challenges().insert(c, resp)
                &&& final(self).spec_id() == old(self).spec_id()
                &&& final(self).spec_rid() == old(self).spec_rid()
                &&& final(self).spec_n() == old(self).spec_n()
                &&& final(self).spec_g() == old(self).spec_g()
                &&& final(self).credentials() == old(self).credentials()
                &&& final(self).rotations() == old(self).rotations()
                &&& final(self).blindings() == old(self).blindings()
            },
    {
        let mut attempt: u64 = 0;
        while attempt < CHALLENGE_ATTEMPTS
            invariant
                attempt <= CHALLENGE_ATTEMPTS,
                *self == *old(self),
                attempt > 0 ==> old(self).challenges() != Map::<u64, u64>::empty(),
            decreases CHALLENGE_ATTEMPTS - attempt,
        {
            let cg = random_u64();
            let rg = random_u64();
            let r = self.prepare_with(cg, rg);
            if r.is_ok() {
                return r;
            }
            assert(old(self).challenges().contains_key(cg));
            attempt = attempt + 1;
        }
        Err(ZkError::SearchExhausted)
    }

    /// Enrols a user: stores `v2` under pseudonym `pidu`. Fails with
    /// `UnknownChallenge` if this gateway never minted `cg`, and with
    /// `DuplicateRegistration` if `pidu` is live already; on failure nothing
    /// changes.
    pub fn register_user(&mut self, pidu: String, v2: u64, cg: u64) -> (r: Result<(), ZkError>)
        ensures
            r == (if !old(self).challenges().contains_key(cg) {
                Err(ZkError::UnknownChallenge)
            } else if old(self).credentials().contains_key(pidu@) {
                Err(ZkError::DuplicateRegistration)
            } else {
                Ok::<(), ZkError>(())
            }),
            r is Err ==> *final(self) == *old(self),
            r is Ok ==> {
                &&& final(self).credentials() == old(self).credentials().insert(pidu@, v2)
                &&& final(self).challenges() == old(self).challenges()
                &&& final(self).spec_id() == old(self).spec_id()
                &&& final(self).spec_rid() == old(self).spec_rid()
                &&& final(self).spec_n() == old(self).spec_n()
                &&& final(self).spec_g() == old(self).spec_g()
                &&& final(self).rotations() == old(self).rotations()
                &&& final(self).blindings() == old(self).blindings()
            },
    {
        if !self.puf_response_map.contains_key(&cg) {
            return Err(ZkError::UnknownChallenge);
        }
        if self.users.contains(pidu.as_str()) {
            return Err(ZkError::DuplicateRegistration);
        }
        self.users.insert(pidu, v2);
        Ok(())
    }

    /// Proves the gateway's identity to the holder of `pidu`: returns
    /// `H(H(IDg || Rg) || pidu)` with the response `Rg` to challenge `cg`,
    /// or 0 when `pidu` has no credential here or `cg` is unknown.
    pub fn authenticate_gateway(&self, pidu: &str, cg: u64) -> (r: u64)
        ensures
            r == (if self.credentials().contains_key(pidu@) && self.challenges().contains_key(cg) {
                identity_binding_spec(gateway_key_spec(self.spec_rid(), self.challenges()[cg]), pidu@)
            } else {
                0
            }),
    {
        if !self.users.contains(pidu) {
            return 0;
        }
        match self.puf_response_map.get(&cg) {
            None => 0,
            Some(rg) => {
                let x = gateway_key(self.rid.as_str(), *rg);
                identity_binding(x, pidu)
            },
        }
    }

    /// Checks a user's proof of knowledge: `g^t2 mod n` against
    /// `t1 * v2^n2 mod n` with the verifier `v2` stored under `old_pidu`.
    /// On success the credential moves to `new_pidu` and the rotation is
    /// logged; on failure nothing changes. A `new_pidu` that is live for
    /// another credential is refused.
    pub fn authenticate_user(&mut self, old_pidu: &str, new_pidu: String, t1: u64, n2: u64, t2: u128) -> (r: bool)
        ensures
            r == old(self).authenticate_user_spec(old_pidu@, new_pidu@, t1, n2, t2),
            !r ==> *final(self) == *old(self),
            r ==> {
                &&& final(self).credentials() == old(self).credentials().remove(old_pidu@).insert(
                    new_pidu@,
                    old(self).credentials()[old_pidu@],
                )
                &&& final(self).credentials().len() == old(self).credentials().len()
                &&& final(self).rotations() == old(self).rotations().push((old_pidu@, new_pidu@))
                &&& final(self).challenges() == old(self).challenges()
                &&& final(self).spec_id() == old(self).spec_id()
                &&& final(self).spec_rid() == old(self).spec_rid()
                &&& final(self).spec_n() == old(self).spec_n()
                &&& final(self).spec_g() == old(self).spec_g()
                &&& final(self).blindings() == old(self).blindings()
            },
    {
        if self.n == 0 {
            return false;
        }
        let v2 = match self.users.get(old_pidu) {
            None => {
                return false;
            },
            Some(v) => v,
        };
        let old_name = old_pidu.to_owned();
        if new_pidu != old_name && self.users.contains(new_pidu.as_str()) {
            return false;
        }
        let left = mod_pow(self.g, t2, self.n);
        let w = mod_pow(v2, n2 as u128, self.n) as u128;
        let a = t1 as u128;
        assert(a * w <= 0xffff_ffff_ffff_ffff * 0xffff_ffff_ffff_ffffint) by (nonlinear_arith)
            requires a <= 0xffff_ffff_ffff_ffff, w <= 0xffff_ffff_ffff_ffff;
        let right = ((a * w) % (self.n as u128)) as u64;
        if left != right {
            return false;
        }
        proof {
            self.users.lemma_finite();
        }
        self.users.remove(old_pidu);
        self.users.insert(new_pidu.clone(), v2);
        self.temp_id_map.push((old_name, new_pidu));
        proof {
            assert(self.rotations() =~= old(self).rotations().push((old_pidu@, new_pidu@)));
            let m = old(self).credentials();
            assert(m.remove(old_pidu@).dom() == m.dom().remove(old_pidu@));
            assert(m.remove(old_pidu@).insert(new_pidu@, v2).dom() == m.dom().remove(old_pidu@).insert(new_pidu@));
            assert(!m.dom().remove(old_pidu@).contains(new_pidu@));
        }
        true
    }

    /// Replaces the verifier stored under `pidu` with the blinded verifier
    /// `new_v2`, and keeps the blinding factor `r` that came with it. Fails
    /// with `UnknownPseudonym` when `pidu` has no credential; then nothing
    /// changes.
    pub fn update_user_key(&mut self, pidu: &str, new_v2: u64, r: u64) -> (res: Result<(), ZkError>)
        ensures
            res == (if old(self).credentials().contains_key(pidu@) {
                Ok::<(), ZkError>(())
            } else {
                Err(ZkError::UnknownPseudonym)
            }),
            res is Err ==> *final(self) == *old(self),
            res is Ok ==> {
                &&& final(self).credentials() == old(self).credentials().insert(pidu@, new_v2)
                &&& final(self).blindings() == old(self).blindings().insert(pidu@, r)
                &&& final(self).challenges() == old(self).challenges()
                &&& final(self).rotations() == old(self).rotations()
                &&& final(self).spec_id() == old(self).spec_id()
                &&& final(self).spec_rid() == old(self).spec_rid()
                &&& final(self).spec_n() == old(self).spec_n()
                &&& final(self).spec_g() == old(self).spec_g()
            },
    {
        if !self.users.contains(pidu) {
            return Err(ZkError::UnknownPseudonym);
        }
        let name = pidu.to_owned();
        self.users.insert(name.clone(), new_v2);
        self.blinding.insert(name, r);
        Ok(())
    }

    /// Whether this gateway minted challenge `cg`.
    pub fn knows_challenge(&self, cg: u64) -> (r: bool)
        ensures
            r == self.challenges().contains_key(cg),
    {
        self.puf_response_map.contains_key(&cg)
    }

    /// Draws a pseudonym that is not live here.
    fn mint_pseudonym(&self) -> (r: Option<String>)
        ensures
            self.credentials() == Map::<Seq<char>, u64>::empty() ==> r is Some,
            r matches Some(p) ==> !self.credentials().contains_key(p@),
    {
        let mut attempt: u64 = 0;
        while attempt < PSEUDONYM_ATTEMPTS
            invariant
                attempt <= PSEUDONYM_ATTEMPTS,
                attempt > 0 ==> self.credentials() != Map::<Seq<char>, u64>::empty(),
            decreases PSEUDONYM_ATTEMPTS - attempt,
        {
            let p = decimal_string(random_u64());
            if !self.users.contains(p.as_str()) {
                return Some(p);
            }
            assert(self.credentials().contains_key(p@));
            attempt = attempt + 1;
        }
        None
    }

    /// The gateway's reply to a handshake opening: a fresh pseudonym to
    /// rotate to and a challenge `n2` in `[0, n)`. `None` when the gateway
    /// has no group, or when every drawn pseudonym was live.
    pub fn offer_rotation(&self) -> (r: Option<(String, u64)>)
        ensures
            self.spec_n() == 0 ==> r is None,
            self.spec_n() > 0 && self.credentials() == Map::<Seq<char>, u64>::empty() ==> r is Some,
            r matches Some((p, n2)) ==> !self.credentials().contains_key(p@) && n2 < self.spec_n(),
    {
        if self.n == 0 {
            return None;
        }
        match self.mint_pseudonym() {
            None => None,
            Some(p) => {
                let n2 = random_in(0, self.n);
                Some((p, n2))
            },
        }
    }

    /// The verifier stored under `pidu`, if any.
    pub fn verifier_of(&self, pidu: &str) -> (r: Option<u64>)
        ensures
            r == (if self.credentials().contains_key(pidu@) { Some(self.credentials()[pidu@]) } else { None }),
    {
        self.users.get(pidu)
    }

    /// The credential table, verifiers by pseudonym.
    pub fn credential_table(&self) -> (r: &KeyedStore)
        ensures
            r@ == self.credentials(),
    {
        &self.users
    }

    /// The gateway identifier.
    pub fn get_id(&self) -> (r: &str)
        ensures
            r@ == self.spec_id(),
    {
        self.id.as_str()
    }

    /// The modulus of the group.
    pub fn get_n(&self) -> (r: u64)
        ensures
            r == self.spec_n(),
    {
        self.n
    }

    /// The generator of the group.
    pub fn get_g(&self) -> (r: u64)
        ensures
            r == self.spec_g(),
    {
        self.g
    }
}

} // verus!
