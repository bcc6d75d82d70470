//! The user device: derives its secret from password and biometric sample,
//! registers through the authority and the gateway, logs in locally, checks
//! the gateway's identity, runs the authentication handshake and updates its
//! credentials.

use vstd::prelude::*;
use crate::binding::{commitment, commitment_spec, gateway_key_spec, identity_binding, identity_binding_spec};
use crate::entropy::random_in;
use crate::error::ZkError;
use crate::fuzzyextractor::{reproduce_spec, FuzzyExtractor};
use crate::gateway::{Gateway, PSEUDONYM_ATTEMPTS};
use crate::number_theory::{mod_pow, mod_pow_spec};
use crate::ra::{GatewayEntry, RA};

verus! {

/// The device's response `n1 + n2 * (s mod (n - 1))` to challenge `n2`.
pub open spec fn response_spec(n1: u64, n2: u64, secret: u64, n: u64) -> int {
    n1 as int + n2 as int * ((secret as int) % (n as int - 1))
}

/// A user device.
pub struct UserDevice {
    id: String,
    v1: u64,
    n: u64,
    g: u64,
    gateway_id: String,
    cg: u64,
    pidu: String,
    x: u64,
    hu: Vec<u8>,
}

impl UserDevice {
    /// The user identifier.
    pub closed spec fn spec_id(&self) -> Seq<char> {
        self.id@
    }

    /// The commitment `H(id || password || secret)`.
    pub closed spec fn spec_v1(&self) -> u64 {
        self.v1
    }

    /// The gateway's PUF challenge received at registration.
    pub closed spec fn spec_cg(&self) -> u64 {
        self.cg
    }

    /// The current pseudonym.
    pub closed spec fn spec_pidu(&self) -> Seq<char> {
        self.pidu@
    }

    /// The modulus received at registration, zero before it.
    pub closed spec fn spec_n(&self) -> u64 {
        self.n
    }

    /// The generator received at registration.
    pub closed spec fn spec_g(&self) -> u64 {
        self.g
    }

    /// The gateway key `X` received at registration.
    pub closed spec fn spec_x(&self) -> u64 {
        self.x
    }

    /// The gateway the device registered with.
    pub closed spec fn spec_gateway_id(&self) -> Seq<char> {
        self.gateway_id@
    }

    /// The biometric helper data.
    pub closed spec fn spec_hu(&self) -> Seq<u8> {
        self.hu@
    }

    /// The device has registered.
    pub open spec fn registered(&self) -> bool {
        self.spec_n() != 0
    }

    /// Local login succeeds: the secret reproduced from `bio` and the helper
    /// data, hashed with identity and `pw`, gives the stored commitment.
    pub open spec fn accepts_login(&self, pw: Seq<char>, bio: Seq<u8>) -> bool {
        self.registered() && match reproduce_spec(bio, self.spec_hu()) {
            Ok(bu) => commitment_spec(self.spec_id(), pw, bu) == self.spec_v1(),
            Err(_) => false,
        }
    }

    /// All of the device's state but the pseudonym is as in `other`.
    pub open spec fn same_but_pseudonym(&self, other: &UserDevice) -> bool {
        &&& self.spec_id() == other.spec_id()
        &&& self.spec_v1() == other.spec_v1()
        &&& self.spec_n() == other.spec_n()
        &&& self.spec_g() == other.spec_g()
        &&& self.spec_gateway_id() == other.spec_gateway_id()
        &&& self.spec_cg() == other.spec_cg()
        &&& self.spec_x() == other.spec_x()
        &&& self.spec_hu() == other.spec_hu()
    }

    /// An unregistered device of user `id`.
    pub fn new(id: String) -> (r: UserDevice)
        ensures
            r.spec_id() == id@,
            !r.registered(),
            r.spec_v1() == 0,
            r.spec_pidu() == Seq::<char>::empty(),
            r.spec_hu() == Seq::<u8>::empty(),
    {
        UserDevice {
            id,
            v1: 0,
            n: 0,
            g: 0,
            gateway_id: String::new(),
            cg: 0,
            pidu: String::new(),
            x: 0,
            hu: Vec::new(),
        }
    }

    /// Registers the user: derives the secret from `bio`, commits to
    /// `H(id || pw || secret)` at the authority, takes the session
    /// parameters issued for `gateway` and enrols the verifier
    /// `g^v1 mod n` there under the new pseudonym. A pseudonym that is live
    /// at the gateway already is drawn again. Fails, changing nothing, with
    /// `NotInitialized`, `DuplicateRegistration` (the user is registered
    /// already), `UnknownGateway`, `UnknownChallenge` (the gateway never
    /// minted the challenge the authority holds for it) or `SearchExhausted`
    /// (every drawn pseudonym was live).
    pub fn register(&mut self, pw: &str, bio: &[u8], ra: &mut RA, gateway: &mut Gateway) -> (r: Result<(), ZkError>)
        requires
            old(ra).wf(),
        ensures
            final(ra).wf(),
            !old(ra).initialized() ==> r == Err::<(), ZkError>(ZkError::NotInitialized),
            old(ra).initialized() && old(ra).users().contains_key(old(self).spec_id())
                ==> r == Err::<(), ZkError>(ZkError::DuplicateRegistration),
            old(ra).initialized() && !old(ra).users().contains_key(old(self).spec_id())
                && !old(ra).gateways().contains_key(old(gateway).spec_id())
                ==> r == Err::<(), ZkError>(ZkError::UnknownGateway),
            old(ra).initialized() && !old(ra).users().contains_key(old(self).spec_id())
                && old(ra).gateways().contains_key(old(gateway).spec_id())
                && !old(gateway).challenges().contains_key(old(ra).gateways()[old(gateway).spec_id()].1)
                ==> r == Err::<(), ZkError>(ZkError::UnknownChallenge),
            old(ra).initialized() && !old(ra).users().contains_key(old(self).spec_id())
                && old(ra).gateways().contains_key(old(gateway).spec_id())
                && old(gateway).challenges().contains_key(old(ra).gateways()[old(gateway).spec_id()].1)
                ==> (r is Ok || r == Err::<(), ZkError>(ZkError::SearchExhausted)),
            old(ra).initialized() && !old(ra).users().contains_key(old(self).spec_id())
                && old(ra).gateways().contains_key(old(gateway).spec_id())
                && old(gateway).challenges().contains_key(old(ra).gateways()[old(gateway).spec_id()].1)
                && old(gateway).credentials() == Map::<Seq<char>, u64>::empty()
                ==> r is Ok,
            r is Err ==> *final(ra) == *old(ra) && *final(gateway) == *old(gateway) && *final(self) == *old(self),
            r is Ok ==> {
                let e: GatewayEntry = old(ra).gateways()[old(gateway).spec_id()];
                &&& final(self).spec_id() == old(self).spec_id()
                &&& final(self).registered()
                &&& final(self).accepts_login(pw@, bio@)
                &&& final(self).spec_n() == old(ra).spec_n()
                &&& final(self).spec_g() == old(ra).spec_g()
                &&& final(self).spec_gateway_id() == old(gateway).spec_id()
                &&& final(self).spec_cg() == e.1
                &&& final(self).spec_x() == gateway_key_spec(e.0, e.2)
                &&& final(ra).users() == old(ra).users().insert(old(self).spec_id(), final(self).spec_v1())
                &&& final(ra).gateways() == old(ra).gateways()
                &&& final(ra).spec_n() == old(ra).spec_n()
                &&& final(ra).spec_g() == old(ra).spec_g()
                &&& !old(gateway).credentials().contains_key(final(self).spec_pidu())
                &&& final(gateway).credentials() == old(gateway).credentials().insert(
                    final(self).spec_pidu(),
                    mod_pow_spec(old(ra).spec_g() as int, final(self).spec_v1() as nat, old(ra).spec_n() as int) as u64,
                )
                &&& final(gateway).challenges() == old(gateway).challenges()
                &&& final(gateway).spec_id() == old(gateway).spec_id()
                &&& final(gateway).spec_rid() == old(gateway).spec_rid()
                &&& final(gateway).spec_n() == old(gateway).spec_n()
                &&& final(gateway).spec_g() == old(gateway).spec_g()
                &&& final(gateway).rotations() == old(gateway).rotations()
                &&& final(gateway).blindings() == old(gateway).blindings()
            },
    {
        if ra.get_n() == 0 {
            return Err(ZkError::NotInitialized);
        }
        if ra.commitment_of(self.id.as_str()).is_some() {
            return Err(ZkError::DuplicateRegistration);
        }
        let gid = gateway.get_id().to_owned();
        let mut params = match ra.get_parameters(gid.as_str()) {
            Err(e) => {
                return Err(e);
            },
            Ok(p) => p,
        };
        if !gateway.knows_challenge(params.3) {
            return Err(ZkError::UnknownChallenge);
        }
        let ghost entry: GatewayEntry = ra.gateways()[gid@];
        let mut attempt: u64 = 1;
        while attempt < PSEUDONYM_ATTEMPTS && gateway.verifier_of(params.2.as_str()).is_some()
            invariant
                1 <= attempt <= PSEUDONYM_ATTEMPTS,
                *ra == *old(ra),
                *gateway == *old(gateway),
                gid@ == gateway.spec_id(),
                ra.initialized(),
                ra.gateways().contains_key(gid@),
                entry == ra.gateways()[gid@],
                params.0 == ra.spec_n(),
                params.1 == ra.spec_g(),
                params.3 == entry.1,
                params.4 == gateway_key_spec(entry.0, entry.2),
            decreases PSEUDONYM_ATTEMPTS - attempt,
        {
            params = match ra.get_parameters(gid.as_str()) {
                Err(e) => {
                    return Err(e);
                },
                Ok(p) => p,
            };
            attempt = attempt + 1;
        }
        if gateway.verifier_of(params.2.as_str()).is_some() {
            return Err(ZkError::SearchExhausted);
        }
        let (n, g, pidu, cg, x) = params;
        let extractor = FuzzyExtractor::new();
        let (bu, hu) = extractor.generate(bio);
        let v1 = commitment(self.id.as_str(), pw, bu.as_slice());
        let v2 = match ra.compute_v2(v1) {
            Err(e) => {
                return Err(e);
            },
            Ok(v) => v,
        };
        match gateway.register_user(pidu.clone(), v2, cg) {
            Err(e) => {
                assert(false);
                return Err(e);
            },
            Ok(()) => {},
        }
        match ra.receive_v1(self.id.clone(), v1) {
            Err(e) => {
                assert(false);
                return Err(e);
            },
            Ok(()) => {},
        }
        self.v1 = v1;
        self.n = n;
        self.g = g;
        self.gateway_id = gid;
        self.cg = cg;
        self.pidu = pidu;
        self.x = x;
        self.hu = hu;
        Ok(())
    }

    /// The current pseudonym.
    pub fn get_pidu(&self) -> (r: &str)
        ensures
            r@ == self.spec_pidu(),
    {
        self.pidu.as_str()
    }

    /// The gateway's PUF challenge received at registration.
    pub fn get_cg(&self) -> (r: u64)
        ensures
            r == self.spec_cg(),
    {
        self.cg
    }

    /// The commitment `H(id || password || secret)`.
    pub fn get_v1(&self) -> (r: u64)
        ensures
            r == self.spec_v1(),
    {
        self.v1
    }

    /// The verifier `g^v1 mod n` of the device's current secret.
    fn compute_v2(&self) -> (r: u64)
        requires
            self.spec_n() > 0,
        ensures
            r == mod_pow_spec(self.spec_g() as int, self.spec_v1() as nat, self.spec_n() as int),
    {
        mod_pow(self.g, self.v1 as u128, self.n)
    }

    /// Local login with password and biometric sample; touches nothing
    /// outside the device. A wrong password or sample yields `false`.
    pub fn login(&self, pw: &str, bio: &[u8]) -> (r: bool)
        ensures
            r == self.accepts_login(pw@, bio@),
    {
        if self.n == 0 {
            return false;
        }
        let extractor = FuzzyExtractor::new();
        match extractor.reproduce(bio, self.hu.as_slice()) {
            Err(_) => false,
            Ok(bu) => commitment(self.id.as_str(), pw, bu.as_slice()) == self.v1,
        }
    }

    /// Checks a gateway's identity claim against `H(X || pidu)`, with the
    /// key `X` received at registration.
    pub fn verify_gateway(&self, x1: u64) -> (r: bool)
        ensures
            r == (identity_binding_spec(self.spec_x(), self.spec_pidu()) == x1),
    {
        identity_binding(self.x, self.pidu.as_str()) == x1
    }

    /// Opens a handshake: draws `n1` in `[0, n)` for the gateway's modulus
    /// `n` and returns `(pseudonym, n1, t1)` with `t1 = g^n1 mod n`. `None`
    /// when the device is not registered or the gateway has no group.
    pub fn start_authentication(&self, gateway: &Gateway) -> (r: Option<(String, u64, u64)>)
        ensures
            r is None <==> (!self.registered() || gateway.spec_n() == 0),
            r matches Some((p, n1, t1)) ==> {
                &&& p@ == self.spec_pidu()
                &&& n1 < gateway.spec_n()
                &&& t1 == mod_pow_spec(self.spec_g() as int, n1 as nat, self.spec_n() as int)
            },
    {
        if self.n == 0 || gateway.get_n() == 0 {
            return None;
        }
        let n1 = random_in(0, gateway.get_n());
        let t1 = mod_pow(self.g, n1 as u128, self.n);
        Some((self.pidu.clone(), n1, t1))
    }

    /// Completes a handshake: answers challenge `n2` with
    /// `t2 = n1 + n2 * (v1 mod (n - 1))` and has the gateway check it. On
    /// success gateway and device both move to `new_pidu`; on failure
    /// neither changes.
    pub fn complete_authentication(
        &mut self,
        gateway: &mut Gateway,
        old_pidu: String,
        new_pidu: String,
        n2: u64,
        n1: u64,
        t1: u64,
    ) -> (r: bool)
        ensures
            r == (old(self).spec_n() >= 2 && old(gateway).authenticate_user_spec(
                old_pidu@,
                new_pidu@,
                t1,
                n2,
                response_spec(n1, n2, old(self).spec_v1(), old(self).spec_n()) as u128,
            )),
            final(self).same_but_pseudonym(&*old(self)),
            final(self).spec_pidu() == (if r { new_pidu@ } else { old(self).spec_pidu() }),
            !r ==> *final(gateway) == *old(gateway),
            r ==> {
                &&& final(gateway).credentials() == old(gateway).credentials().remove(old_pidu@).insert(
                    new_pidu@,
                    old(gateway).credentials()[old_pidu@],
                )
                &&& final(gateway).credentials().len() == old(gateway).credentials().len()
                &&& final(gateway).rotations() == old(gateway).rotations().push((old_pidu@, new_pidu@))
                &&& final(gateway).challenges() == old(gateway).challenges()
            },
    {
        if self.n < 2 {
            return false;
        }
        let reduced = self.v1 % (self.n - 1);
        let a = n2 as u128;
        let b = reduced as u128;
        assert(a * b <= 0xffff_ffff_ffff_ffff * 0xffff_ffff_ffff_ffffint) by (nonlinear_arith)
            requires a <= 0xffff_ffff_ffff_ffff, b <= 0xffff_ffff_ffff_ffff;
        let product = a * b;
        let t2: u128 = n1 as u128 + product;
        let accepted = gateway.authenticate_user(old_pidu.as_str(), new_pidu.clone(), t1, n2, t2);
        if accepted {
            self.pidu = new_pidu;
        }
        accepted
    }

    /// Replaces password and biometric sample: derives the new secret and
    /// commitment, draws a blinding factor `r` in `[0, n)` and sends the
    /// blinded verifier `g^v1 * r mod n` with `r` to the gateway under the
    /// current pseudonym. Fails, changing nothing, with `NotInitialized`
    /// before registration and with `UnknownPseudonym` when the gateway holds
    /// no credential under the current pseudonym.
    pub fn update_password(&mut self, new_pw: &str, new_bio: &[u8], gateway: &mut Gateway) -> (res: Result<(), ZkError>)
        ensures
            !old(self).registered() ==> res == Err::<(), ZkError>(ZkError::NotInitialized),
            old(self).registered() && !old(gateway).credentials().contains_key(old(self).spec_pidu())
                ==> res == Err::<(), ZkError>(ZkError::UnknownPseudonym),
            old(self).registered() && old(gateway).credentials().contains_key(old(self).spec_pidu()) ==> res is Ok,
            res is Err ==> *final(self) == *old(self) && *final(gateway) == *old(gateway),
            res is Ok ==> {
                let n = old(self).spec_n();
                let p = old(self).spec_pidu();
                &&& final(self).accepts_login(new_pw@, new_bio@)
                &&& final(self).spec_pidu() == old(self).spec_pidu()
                &&& final(self).spec_id() == old(self).spec_id()
                &&& final(self).spec_n() == n
                &&& final(self).spec_g() == old(self).spec_g()
                &&& final(self).spec_x() == old(self).spec_x()
                &&& final(self).spec_cg() == old(self).spec_cg()
                &&& final(gateway).blindings().contains_key(p)
                &&& final(gateway).blindings()[p] < n
                &&& final(gateway).blindings() == old(gateway).blindings().insert(p, final(gateway).blindings()[p])
                &&& final(gateway).credentials() == old(gateway).credentials().insert(
                    p,
                    ((mod_pow_spec(old(self).spec_g() as int, final(self).spec_v1() as nat, n as int) * final(gateway).blindings()[p])
                        % (n as int)) as u64,
                )
                &&& final(gateway).challenges() == old(gateway).challenges()
                &&& final(gateway).rotations() == old(gateway).rotations()
            },
    {
        if self.n == 0 {
            return Err(ZkError::NotInitialized);
        }
        if gateway.verifier_of(self.pidu.as_str()).is_none() {
            return Err(ZkError::UnknownPseudonym);
        }
        let extractor = FuzzyExtractor::new();
        let (new_bu, new_hu) = extractor.generate(new_bio);
        let new_v1 = commitment(self.id.as_str(), new_pw, new_bu.as_slice());
        let r = random_in(0, self.n);
        self.v1 = new_v1;
        let v = self.compute_v2() as u128;
        let b = r as u128;
        assert(v * b <= 0xffff_ffff_ffff_ffff * 0xffff_ffff_ffff_ffffint) by (nonlinear_arith)
            requires v <= 0xffff_ffff_ffff_ffff, b <= 0xffff_ffff_ffff_ffff;
        let new_v2 = ((v * b) % (self.n as u128)) as u64;
        match gateway.update_user_key(self.pidu.as_str(), new_v2, r) {
            Err(e) => {
                assert(false);
                return Err(e);
            },
            Ok(()) => {},
        }
        self.hu = new_hu;
        Ok(())
    }
}

} // verus!
