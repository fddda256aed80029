use vstd::prelude::*;
use crate::bytes::{bytes_eq, clone_bytes};

verus! {

/// An immutable public identity: the raw bytes of an ECDSA P-256 public key.
/// Equality is equality of those bytes; the display form is lowercase hex.
#[derive(Debug)]
pub struct Entity {
    pub pub_key: Vec<u8>,
}

impl View for Entity {
    type V = Seq<u8>;

    open spec fn view(&self) -> Seq<u8> {
        self.pub_key@
    }
}

/// Private key material for an identity, as PKCS#8 DER bytes.
/// Used only to sign; never transmitted.
pub struct EntitySecret {
    pub pkcs8: Vec<u8>,
}

/// Whether `aws_lc_rs` accepts these bytes as a PKCS#8 P-256 signing key.
pub uninterp spec fn is_p256_pkcs8(pkcs8: Seq<u8>) -> bool;

/// The P-256 public key bytes derived from a PKCS#8 private key.
/// Key derivation depends on the private-key bytes alone.
pub uninterp spec fn pubkey_of(pkcs8: Seq<u8>) -> Seq<u8>;

/// Whether `sig` is a valid ECDSA P-256/SHA-256 ASN.1 signature on `msg`
/// under the public key `pub_key`. Verification depends on its inputs alone.
pub uninterp spec fn ecdsa_p256_valid(pub_key: Seq<u8>, msg: Seq<u8>, sig: Seq<u8>) -> bool;

/// Relies on aws_lc_rs::signature::EcdsaKeyPair::generate and to_pkcs8v1:
/// a freshly generated key serialises to PKCS#8 bytes that from_pkcs8
/// accepts again. Returns None if the system's key generation fails.
#[verifier::external_body]
fn keygen_p256_pkcs8() -> (r: Option<Vec<u8>>)
    ensures
        r is Some ==> is_p256_pkcs8(r->Some_0@),
{
    let kp = aws_lc_rs::signature::EcdsaKeyPair::generate(
        &aws_lc_rs::signature::ECDSA_P256_SHA256_ASN1_SIGNING,
    ).ok()?;
    Some(kp.to_pkcs8v1().ok()?.as_ref().to_vec())
}

/// Relies on aws_lc_rs::signature::EcdsaKeyPair::from_pkcs8: parsing succeeds
/// exactly on well-formed P-256 PKCS#8 bytes, and the public key it exposes
/// is a function of those bytes.
#[verifier::external_body]
fn derive_pubkey(pkcs8: &Vec<u8>) -> (r: Option<Vec<u8>>)
    ensures
        r is Some <==> is_p256_pkcs8(pkcs8@),
        r is Some ==> r->Some_0@ == pubkey_of(pkcs8@),
{
    let kp = aws_lc_rs::signature::EcdsaKeyPair::from_pkcs8(
        &aws_lc_rs::signature::ECDSA_P256_SHA256_ASN1_SIGNING,
        pkcs8.as_slice(),
    ).ok()?;
    Some(aws_lc_rs::signature::KeyPair::public_key(&kp).as_ref().to_vec())
}

/// Relies on aws_lc_rs::signature::EcdsaKeyPair::sign: ECDSA P-256 with
/// SHA-256, ASN.1 DER output. The signature is randomised, so its bytes
/// are not a function of the inputs; what holds of every signature the
/// library hands back is that it verifies under the key's own public
/// key. None when the key is rejected or signing fails.
#[verifier::external_body]
fn ecdsa_sign(pkcs8: &Vec<u8>, msg: &Vec<u8>) -> (r: Option<Vec<u8>>)
    ensures
        r is Some ==> ecdsa_p256_valid(pubkey_of(pkcs8@), msg@, r->Some_0@),
{
    let kp = aws_lc_rs::signature::EcdsaKeyPair::from_pkcs8(
        &aws_lc_rs::signature::ECDSA_P256_SHA256_ASN1_SIGNING,
        pkcs8.as_slice(),
    ).ok()?;
    let rand = aws_lc_rs::rand::SystemRandom::new();
    Some(kp.sign(&rand, msg.as_slice()).ok()?.as_ref().to_vec())
}

/// Relies on aws_lc_rs::signature::UnparsedPublicKey::verify with
/// ECDSA_P256_SHA256_ASN1: acceptance depends on key, message and
/// signature bytes alone.
#[verifier::external_body]
pub(crate) fn ecdsa_verify(pub_key: &Vec<u8>, msg: &Vec<u8>, sig: &Vec<u8>) -> (r: bool)
    ensures
        r == ecdsa_p256_valid(pub_key@, msg@, sig@),
{
    let pk = aws_lc_rs::signature::UnparsedPublicKey::new(
        &aws_lc_rs::signature::ECDSA_P256_SHA256_ASN1,
        pub_key.as_slice(),
    );
    pk.verify(msg.as_slice(), sig.as_slice()).is_ok()
}

impl EntitySecret {
    /// Whether this secret holds bytes the crypto library accepts.
    pub open spec fn wf(&self) -> bool {
        is_p256_pkcs8(self.pkcs8@)
    }

    /// Generate a fresh P-256 keypair; None if the system refuses.
    pub fn generate() -> (r: Option<EntitySecret>)
        ensures
            r is Some ==> r->Some_0.wf(),
    {
        match keygen_p256_pkcs8() {
            Some(pkcs8) => Some(EntitySecret { pkcs8 }),
            None => None,
        }
    }

    /// The public identity belonging to this secret.
    pub fn get_pubkey(&self) -> (r: Entity)
        requires
            self.wf(),
        ensures
            r@ == pubkey_of(self.pkcs8@),
    {
        Entity::from_secret(self)
    }

    /// The public identity belonging to this secret, or None when the
    /// secret's bytes are not a well-formed key (for material read from
    /// outside, whose shape nothing has checked yet).
    pub fn try_get_pubkey(&self) -> (r: Option<Entity>)
        ensures
            r is Some <==> self.wf(),
            r is Some ==> r->Some_0@ == pubkey_of(self.pkcs8@),
    {
        match derive_pubkey(&self.pkcs8) {
            Some(_) => Some(self.get_pubkey()),
            None => None,
        }
    }

    /// Sign `data` with this secret. A signature that comes back verifies
    /// under this secret's public identity. None if the secret's bytes
    /// are not a well-formed key or the crypto library fails.
    pub fn sign(&self, data: &Vec<u8>) -> (r: Option<Vec<u8>>)
        ensures
            r is Some ==> ecdsa_p256_valid(pubkey_of(self.pkcs8@), data@, r->Some_0@),
    {
        ecdsa_sign(&self.pkcs8, data)
    }

    pub fn duplicate(&self) -> (r: EntitySecret)
        ensures
            r.pkcs8@ == self.pkcs8@,
            r.wf() == self.wf(),
    {
        EntitySecret { pkcs8: clone_bytes(&self.pkcs8) }
    }
}

impl Entity {
    /// Derive the public identity from a secret.
    pub fn from_secret(secret: &EntitySecret) -> (r: Entity)
        requires
            secret.wf(),
        ensures
            r@ == pubkey_of(secret.pkcs8@),
    {
        match derive_pubkey(&secret.pkcs8) {
            Some(pub_key) => Entity { pub_key },
            None => {
                proof {
                    assert(false);
                }
                Entity { pub_key: Vec::new() }
            },
        }
    }

    pub fn eq_entity(&self, other: &Entity) -> (r: bool)
        ensures
            r == (self@ == other@),
    {
        bytes_eq(&self.pub_key, &other.pub_key)
    }

    pub fn duplicate(&self) -> (r: Entity)
        ensures
            r@ == self@,
    {
        Entity { pub_key: clone_bytes(&self.pub_key) }
    }

    /// Lowercase hex of the key bytes: the display form of an identity.
    pub fn to_hex(&self) -> (r: Vec<u8>)
        ensures
            r@ == hex_lower(self.pub_key@),
    {
        bytes_to_hex(&self.pub_key)
    }
}

pub open spec fn hex_digit(n: u8) -> u8
    recommends
        n < 16,
{
    if n < 10 {
        (0x30 + n) as u8
    } else {
        (0x61 + (n - 10)) as u8
    }
}

/// Lowercase hex encoding of a byte string, two digits per byte.
pub open spec fn hex_lower(data: Seq<u8>) -> Seq<u8>
    decreases data.len(),
{
    if data.len() == 0 {
        Seq::empty()
    } else {
        seq![hex_digit(data.first() / 16), hex_digit(data.first() % 16)] + hex_lower(
            data.drop_first(),
        )
    }
}

fn hex_digit_exec(n: u8) -> (r: u8)
    requires
        n < 16,
    ensures
        r == hex_digit(n),
{
    if n < 10 {
        0x30 + n
    } else {
        0x61 + (n - 10)
    }
}

pub fn bytes_to_hex(data: &Vec<u8>) -> (r: Vec<u8>)
    ensures
        r@ == hex_lower(data@),
{
    let n = data.len();
    let mut out: Vec<u8> = Vec::new();
    proof {
        assert(data@.skip(0) =~= data@);
    }
    let mut i: usize = 0;
    while i < n
        invariant
            n == data@.len(),
            0 <= i <= n,
            hex_lower(data@) =~= out@ + hex_lower(data@.skip(i as int)),
            out@.len() == 2 * i,
        decreases n - i,
    {
        let b = data[i];
        out.push(hex_digit_exec(b / 16));
        out.push(hex_digit_exec(b % 16));
        proof {
            assert(data@.skip(i as int).drop_first() =~= data@.skip(i + 1));
            assert(data@.skip(i as int).first() == data@[i as int]);
        }
        i += 1;
    }
    proof {
        assert(data@.skip(n as int) =~= Seq::<u8>::empty());
    }
    out
}

} // verus!
