//! The registration authority: owns the group parameters, registers gateways
//! and user commitments, and issues per-gateway session parameters.

use vstd::prelude::*;
use crate::binding::{gateway_key, gateway_key_spec};
use crate::encoding::{decimal_spec, decimal_string};
use crate::entropy::{random_in, random_u64};
use crate::error::ZkError;
use crate::number_theory::{is_generator, is_prime, is_prime_spec, is_primitive_root_spec, mod_pow, mod_pow_spec, valid_group};
use crate::store::KeyedStore;

verus! {

/// Lower end (inclusive) of the range a generated modulus is drawn from.
pub const PRIME_LOW: u64 = 0x8000_0000;

/// Upper end (exclusive) of the range a generated modulus is drawn from.
pub const PRIME_HIGH: u64 = 0x1_0000_0000;

/// How many random candidates the prime search draws before giving up.
pub const PRIME_ATTEMPTS: u64 = 100_000;

/// How many random candidates the generator search draws before giving up.
pub const GENERATOR_ATTEMPTS: u64 = 10_000;

/// What the authority records of a registered gateway.
pub struct GatewayRegistration {
    pub gateway_id: String,
    pub declared_id: String,
    pub challenge: u64,
    pub response: u64,
}

/// A gateway's record as plain values: declared identity, challenge and
/// PUF response.
pub type GatewayEntry = (Seq<char>, u64, u64);

/// The gateways that a sequence of registrations denotes, by identifier.
pub open spec fn gateway_map(s: Seq<GatewayRegistration>) -> Map<Seq<char>, GatewayEntry>
    decreases s.len(),
{
    if s.len() == 0 {
        Map::empty()
    } else {
        gateway_map(s.drop_last()).insert(
            s.last().gateway_id@,
            (s.last().declared_id@, s.last().challenge, s.last().response),
        )
    }
}

/// Once the authority holds parameters, the modulus is prime and, for
/// every prime divisor `q` of `modulus - 1`, `generator^((modulus-1)/q) mod
/// modulus != 1`.
pub proof fn lemma_parameters_form_group(ra: &RA)
    requires
        ra.wf(),
        ra.initialized(),
    ensures
        is_prime_spec(ra.spec_n() as int),
        forall|q: int|
            #[trigger] is_prime_spec(q) && (ra.spec_n() - 1) % q == 0 ==> mod_pow_spec(
                ra.spec_g() as int,
                ((ra.spec_n() - 1) / q) as nat,
                ra.spec_n() as int,
            ) != 1,
{
}

/// The registration authority.
pub struct RA {
    users: KeyedStore,
    n: u64,
    g: u64,
    gateway_list: Vec<GatewayRegistration>,
}

/// Session parameters for a user: modulus, generator, pseudonym, the
/// gateway's challenge and the gateway key `X`.
pub type SessionParameters = (u64, u64, String, u64, u64);

impl RA {
    /// The modulus, zero before initialisation.
    pub closed spec fn spec_n(&self) -> u64 {
        self.n
    }

    /// The generator, zero before initialisation.
    pub closed spec fn spec_g(&self) -> u64 {
        self.g
    }

    /// Registered users and their commitments.
    pub closed spec fn users(&self) -> Map<Seq<char>, u64> {
        self.users@
    }

    /// Registered gateways by identifier.
    pub closed spec fn gateways(&self) -> Map<Seq<char>, GatewayEntry> {
        gateway_map(self.gateway_list@)
    }

    /// Group parameters have been set.
    pub open spec fn initialized(&self) -> bool {
        self.spec_n() != 0
    }

    /// Before initialisation both parameters are zero and nothing is
    /// registered; after it the parameters form a valid group.
    pub open spec fn wf(&self) -> bool {
        if self.initialized() {
            valid_group(self.spec_n() as int, self.spec_g() as int)
        } else {
            &&& self.spec_g() == 0
            &&& self.users() == Map::<Seq<char>, u64>::empty()
            &&& self.gateways() == Map::<Seq<char>, GatewayEntry>::empty()
        }
    }

    /// An authority with no parameters, users or gateways.
    pub fn new() -> (r: RA)
        ensures
            r.wf(),
            !r.initialized(),
            r.users() == Map::<Seq<char>, u64>::empty(),
            r.gateways() == Map::<Seq<char>, GatewayEntry>::empty(),
    {
        RA { users: KeyedStore::new(), n: 0, g: 0, gateway_list: Vec::new() }
    }

    /// The modulus (zero before initialisation).
    pub fn get_n(&self) -> (r: u64)
        ensures
            r == self.spec_n(),
    {
        self.n
    }

    /// The generator (zero before initialisation).
    pub fn get_g(&self) -> (r: u64)
        ensures
            r == self.spec_g(),
    {
        self.g
    }

    /// Draws random candidates from `[PRIME_LOW, PRIME_HIGH)` until one is
    /// prime, giving up after `PRIME_ATTEMPTS` draws.
    fn generate_large_prime(&self) -> (r: Option<u64>)
        ensures
            r matches Some(p) ==> is_prime_spec(p as int) && PRIME_LOW <= p < PRIME_HIGH,
    {
        let mut attempt: u64 = 0;
        while attempt < PRIME_ATTEMPTS
            invariant
                attempt <= PRIME_ATTEMPTS,
            decreases PRIME_ATTEMPTS - attempt,
        {
            let candidate = random_in(PRIME_LOW, PRIME_HIGH);
            if is_prime(candidate) {
                return Some(candidate);
            }
            attempt = attempt + 1;
        }
        None
    }

    /// Draws random candidates from `[2, prime - 1)` until one passes the
    /// primitive-root test, giving up after `GENERATOR_ATTEMPTS` draws.
    fn generate_generator(&self, prime: u64) -> (r: Option<u64>)
        requires
            prime > 3,
        ensures
            r matches Some(g) ==> 2 <= g < prime - 1 && is_primitive_root_spec(g as int, prime as int),
    {
        let mut attempt: u64 = 0;
        while attempt < GENERATOR_ATTEMPTS
            invariant
                attempt <= GENERATOR_ATTEMPTS,
                prime > 3,
            decreases GENERATOR_ATTEMPTS - attempt,
        {
            let candidate = random_in(2, prime - 1);
            if is_generator(candidate, prime) {
                return Some(candidate);
            }
            attempt = attempt + 1;
        }
        None
    }

    /// Generates the group parameters: a random prime modulus from
    /// `[PRIME_LOW, PRIME_HIGH)` and a random generator of its multiplicative
    /// group. Fails with `DuplicateRegistration` when parameters are set
    /// already, and with `SearchExhausted` when the random search gives up;
    /// on failure nothing changes.
    pub fn initialize(&mut self) -> (r: Result<(), ZkError>)
        requires
            old(self).wf(),
        ensures
            final(self).wf(),
            final(self).users() == old(self).users(),
            final(self).gateways() == old(self).gateways(),
            old(self).initialized() <==> r == Err::<(), ZkError>(ZkError::DuplicateRegistration),
            r is Err ==> r == Err::<(), ZkError>(ZkError::DuplicateRegistration) || r == Err::<(), ZkError>(ZkError::SearchExhausted),
            r is Err ==> final(self).spec_n() == old(self).spec_n() && final(self).spec_g() == old(self).spec_g(),
            r is Ok ==> final(self).initialized() && PRIME_LOW <= final(self).spec_n() < PRIME_HIGH
                && 2 <= final(self).spec_g() < final(self).spec_n() - 1
                && valid_group(final(self).spec_n() as int, final(self).spec_g() as int),
    {
        if self.n != 0 {
            return Err(ZkError::DuplicateRegistration);
        }
        match self.generate_large_prime() {
            None => Err(ZkError::SearchExhausted),
            Some(p) => match self.generate_generator(p) {
                None => Err(ZkError::SearchExhausted),
                Some(g) => {
                    self.n = p;
                    self.g = g;
                    Ok(())
                },
            },
        }
    }

    /// Installs given group parameters, for a configured or reproducible
    /// setup. Fails with `DuplicateRegistration` when parameters are set
    /// already, and with `InvalidParameters` unless `n` is prime and `g` a
    /// generator of its multiplicative group; on failure nothing changes.
    pub fn initialize_with(&mut self, n: u64, g: u64) -> (r: Result<(), ZkError>)
        requires
            old(self).wf(),
        ensures
            final(self).wf(),
            final(self).users() == old(self).users(),
            final(self).gateways() == old(self).gateways(),
            r == (if old(self).initialized() {
                Err(ZkError::DuplicateRegistration)
            } else if !valid_group(n as int, g as int) {
                Err(ZkError::InvalidParameters)
            } else {
                Ok::<(), ZkError>(())
            }),
            r is Ok ==> final(self).spec_n() == n && final(self).spec_g() == g,
            r is Err ==> final(self).spec_n() == old(self).spec_n() && final(self).spec_g() == old(self).spec_g(),
    {
        if self.n != 0 {
            return Err(ZkError::DuplicateRegistration);
        }
        if n < 2 || g == 0 || g >= n || !is_prime(n) || !is_generator(g, n) {
            return Err(ZkError::InvalidParameters);
        }
        self.n = n;
        self.g = g;
        Ok(())
    }

    fn find_gateway(&self, gid: &str) -> (r: Option<usize>)
        ensures
            match r {
                Some(i) => i < self.gateway_list@.len() && self.gateways().contains_key(gid@)
                    && self.gateways()[gid@] == (
                    self.gateway_list@[i as int].declared_id@,
                    self.gateway_list@[i as int].challenge,
                    self.gateway_list@[i as int].response,
                ),
                None => !self.gateways().contains_key(gid@),
            },
    {
        let k = gid.to_owned();
        let mut i: usize = self.gateway_list.len();
        assert(self.gateway_list@.subrange(0, i as int) =~= self.gateway_list@);
        while i > 0
            invariant
                i <= self.gateway_list@.len(),
                k@ == gid@,
                forall|j: int| i <= j < self.gateway_list@.len() ==> #[trigger] self.gateway_list@[j].gateway_id@ != k@,
                gateway_map(self.gateway_list@).contains_key(k@) == gateway_map(self.gateway_list@.subrange(0, i as int)).contains_key(k@),
                gateway_map(self.gateway_list@).contains_key(k@) ==> gateway_map(self.gateway_list@)[k@]
                    == gateway_map(self.gateway_list@.subrange(0, i as int))[k@],
            decreases i,
        {
            proof {
                assert(self.gateway_list@.subrange(0, i as int).drop_last() =~= self.gateway_list@.subrange(0, i - 1));
            }
            if self.gateway_list[i - 1].gateway_id == k {
                return Some(i - 1);
            }
            i = i - 1;
        }
        None
    }

    /// Records a gateway's identifier, declared identity and PUF pair.
    pub fn register_gateway(&mut self, gid: String, idg: String, cg: u64, rg: u64) -> (r: Result<(), ZkError>)
        requires
            old(self).wf(),
        ensures
            final(self).wf(),
            final(self).spec_n() == old(self).spec_n(),
            final(self).spec_g() == old(self).spec_g(),
            final(self).users() == old(self).users(),
            r == (if !old(self).initialized() {
                Err(ZkError::NotInitialized)
            } else if old(self).gateways().contains_key(gid@) {
                Err(ZkError::DuplicateRegistration)
            } else {
                Ok::<(), ZkError>(())
            }),
            final(self).gateways() == (if r is Ok {
                old(self).gateways().insert(gid@, (idg@, cg, rg))
            } else {
                old(self).gateways()
            }),
    {
        if self.n == 0 {
            return Err(ZkError::NotInitialized);
        }
        if self.find_gateway(gid.as_str()).is_some() {
            return Err(ZkError::DuplicateRegistration);
        }
        let ghost before = self.gateway_list@;
        self.gateway_list.push(GatewayRegistration { gateway_id: gid, declared_id: idg, challenge: cg, response: rg });
        proof {
            assert(self.gateway_list@.drop_last() =~= before);
        }
        Ok(())
    }

    /// Stores a user's commitment; each user identifier registers once.
    pub fn receive_v1(&mut self, user_id: String, v1: u64) -> (r: Result<(), ZkError>)
        requires
            old(self).wf(),
        ensures
            final(self).wf(),
            final(self).spec_n() == old(self).spec_n(),
            final(self).spec_g() == old(self).spec_g(),
            final(self).gateways() == old(self).gateways(),
            r == (if !old(self).initialized() {
                Err(ZkError::NotInitialized)
            } else if old(self).users().contains_key(user_id@) {
                Err(ZkError::DuplicateRegistration)
            } else {
                Ok::<(), ZkError>(())
            }),
            old(self).users().contains_key(user_id@) ==> r == Err::<(), ZkError>(ZkError::DuplicateRegistration)
                && final(self).users() == old(self).users(),
            final(self).users() == (if r is Ok {
                old(self).users().insert(user_id@, v1)
            } else {
                old(self).users()
            }),
    {
        if self.n == 0 {
            return Err(ZkError::NotInitialized);
        }
        if self.users.contains(user_id.as_str()) {
            return Err(ZkError::DuplicateRegistration);
        }
        self.users.insert(user_id, v1);
        Ok(())
    }

    /// The commitment stored for a user, if registered.
    pub fn commitment_of(&self, user_id: &str) -> (r: Option<u64>)
        ensures
            r == (if self.users().contains_key(user_id@) { Some(self.users()[user_id@]) } else { None }),
    {
        self.users.get(user_id)
    }

    /// Issues session parameters for a user of gateway `gateway_gid`: the
    /// group, a freshly minted pseudonym, the gateway's challenge and the
    /// gateway key `X = H(IDg || Rg)`.
    pub fn get_parameters(&self, gateway_gid: &str) -> (r: Result<SessionParameters, ZkError>)
        ensures
            !self.initialized() ==> r == Err::<SessionParameters, ZkError>(ZkError::NotInitialized),
            self.initialized() && !self.gateways().contains_key(gateway_gid@)
                ==> r == Err::<SessionParameters, ZkError>(ZkError::UnknownGateway),
            self.initialized() && self.gateways().contains_key(gateway_gid@) ==> r is Ok,
            r matches Ok((n, g, pidu, cg, x)) ==> {
                let e = self.gateways()[gateway_gid@];
                &&& n == self.spec_n()
                &&& g == self.spec_g()
                &&& cg == e.1
                &&& x == gateway_key_spec(e.0, e.2)
                &&& exists|v: u64| pidu@ == decimal_spec(v as nat)
            },
    {
        if self.n == 0 {
            return Err(ZkError::NotInitialized);
        }
        match self.find_gateway(gateway_gid) {
            None => Err(ZkError::UnknownGateway),
            Some(i) => {
                let drawn = random_u64();
                let pidu = decimal_string(drawn);
                let rec = &self.gateway_list[i];
                let x = gateway_key(rec.declared_id.as_str(), rec.response);
                Ok((self.n, self.g, pidu, rec.challenge, x))
            },
        }
    }

    /// The verifier `g^v1 mod n` of a secret.
    pub fn compute_v2(&self, v1: u64) -> (r: Result<u64, ZkError>)
        ensures
            r == (if self.initialized() {
                Ok::<u64, ZkError>(mod_pow_spec(self.spec_g() as int, v1 as nat, self.spec_n() as int) as u64)
            } else {
                Err(ZkError::NotInitialized)
            }),
    {
        if self.n == 0 {
            return Err(ZkError::NotInitialized);
        }
        Ok(mod_pow(self.g, v1 as u128, self.n))
    }
}

} // verus!
