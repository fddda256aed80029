use vstd::prelude::*;
use vstd::string::*;
use crate::bytes::extend_bytes;
use crate::entity::{Entity, EntitySecret, ecdsa_p256_valid, ecdsa_verify, hex_lower, pubkey_of};

verus! {

/// The stable local name of an active link: a 128-bit UUID chosen by the
/// dialer, written big-endian into an unsigned integer.
pub type LinkId = u128;

/// Instants are UTC milliseconds since the epoch. `FOREVER_MS` stands for
/// "the maximum representable instant": the last millisecond of year 9999.
pub const FOREVER_MS: i64 = 253402300799999;

pub open spec fn wf_ts(t: i64) -> bool {
    0 <= t <= FOREVER_MS
}

/// The JSON text (a quoted RFC 3339 string, quotes included) of a UTC
/// instant at millisecond precision. Relied on from `rfc3339_json`.
pub uninterp spec fn rfc3339_json_of(ms: i64) -> Seq<u8>;

/// Relies on chrono's RFC 3339 serialisation through serde_json: the JSON
/// text of a UTC instant depends on the instant alone.
#[verifier::external_body]
fn rfc3339_json(ms: i64) -> (r: Vec<u8>)
    requires
        wf_ts(ms),
    ensures
        r@ == rfc3339_json_of(ms),
{
    let dt = chrono::DateTime::<chrono::Utc>::from_timestamp_millis(ms).unwrap();
    serde_json::to_vec(&dt).unwrap()
}

/// Relies on aws_lc_rs::rand::SystemRandom::fill for 16 random bytes.
/// Nothing is promised of a random value; None when the generator fails.
#[verifier::external_body]
fn random_bytes_16() -> (r: Option<Vec<u8>>)
    ensures
        r is Some ==> r->Some_0@.len() == 16,
{
    let rng = aws_lc_rs::rand::SystemRandom::new();
    let mut buf: [u8; 16] = [0; 16];
    aws_lc_rs::rand::SecureRandom::fill(&rng, &mut buf).ok()?;
    Some(buf.to_vec())
}

/// Byte `i` (big-endian, 0 is most significant) of a 128-bit value.
pub open spec fn u128_byte(x: u128, i: int) -> u8 {
    ((x >> (8 * (15 - i)) as u128) & 0xff) as u8
}

pub open spec fn u128_be_seq(x: u128) -> Seq<u8> {
    Seq::new(16, |i: int| u128_byte(x, i))
}

pub fn u128_be_bytes(x: u128) -> (r: Vec<u8>)
    ensures
        r@ == u128_be_seq(x),
{
    let mut out: Vec<u8> = Vec::new();
    let mut i: usize = 0;
    while i < 16
        invariant
            0 <= i <= 16,
            out@.len() == i,
            forall|j: int| 0 <= j < i ==> out@[j] == u128_byte(x, j),
        decreases 16 - i,
    {
        let sh: u128 = (8 * (15 - i)) as u128;
        let b: u8 = ((x >> sh) & 0xff) as u8;
        out.push(b);
        i += 1;
    }
    proof {
        assert(out@ =~= u128_be_seq(x));
    }
    out
}

/// The lowercase hyphenated text form of a UUID: 8-4-4-4-12 hex digits.
pub open spec fn uuid_str(x: u128) -> Seq<u8> {
    let b = u128_be_seq(x);
    hex_lower(b.subrange(0, 4)) + seq![45u8] + hex_lower(b.subrange(4, 6)) + seq![45u8]
        + hex_lower(b.subrange(6, 8)) + seq![45u8] + hex_lower(b.subrange(8, 10)) + seq![45u8]
        + hex_lower(b.subrange(10, 16))
}

fn subvec(a: &Vec<u8>, lo: usize, hi: usize) -> (r: Vec<u8>)
    requires
        lo <= hi <= a@.len(),
    ensures
        r@ == a@.subrange(lo as int, hi as int),
{
    let mut out: Vec<u8> = Vec::new();
    let mut i: usize = lo;
    while i < hi
        invariant
            lo <= i <= hi <= a@.len(),
            out@ == a@.subrange(lo as int, i as int),
        decreases hi - i,
    {
        out.push(a[i]);
        assert(out@ =~= a@.subrange(lo as int, i + 1 as int));
        i += 1;
    }
    out
}

pub fn uuid_to_text(x: u128) -> (r: Vec<u8>)
    ensures
        r@ == uuid_str(x),
{
    let b = u128_be_bytes(x);
    let mut out = crate::entity::bytes_to_hex(&subvec(&b, 0, 4));
    out.push(45);
    let part = crate::entity::bytes_to_hex(&subvec(&b, 4, 6));
    extend_bytes(&mut out, &part);
    out.push(45);
    let part = crate::entity::bytes_to_hex(&subvec(&b, 6, 8));
    extend_bytes(&mut out, &part);
    out.push(45);
    let part = crate::entity::bytes_to_hex(&subvec(&b, 8, 10));
    extend_bytes(&mut out, &part);
    out.push(45);
    let part = crate::entity::bytes_to_hex(&subvec(&b, 10, 16));
    extend_bytes(&mut out, &part);
    proof {
        assert(out@ =~= uuid_str(x));
    }
    out
}

/// A payload plus a validity window and a random 128-bit serial.
#[derive(Clone, Copy)]
pub struct Claim<T> {
    pub data: T,
    pub not_before: i64,
    pub not_after: i64,
    pub serial: u128,
}

/// A claim plus an ECDSA signature over its canonical serialisation.
pub struct SignedClaim<T> {
    pub claim: Claim<T>,
    pub signature: Vec<u8>,
}

#[derive(Clone, Copy, PartialEq, Eq, Structural, Debug)]
pub enum ValidationError {
    /// The claim is either expired or not active yet.
    Inactive,
    /// The signature does not verify under the supplied identity.
    InvalidSignature,
}

impl<T> Claim<T> {
    /// Whether `now` falls inside the claim's validity window.
    pub open spec fn active_at(&self, now_ms: i64) -> bool {
        self.not_before <= now_ms < self.not_after
    }

    pub open spec fn wf_window(&self) -> bool {
        wf_ts(self.not_before) && wf_ts(self.not_after)
    }
}

/// The canonical serialisation of a link claim: JSON with the fields in the
/// order data, not_before, not_after, serial; the UUIDs lowercase and
/// hyphenated; the instants RFC 3339.
pub open spec fn link_claim_json(data: u128, nbf: i64, naf: i64, serial: u128) -> Seq<u8> {
    "{\"data\":\"".spec_bytes() + uuid_str(data) + "\",\"not_before\":".spec_bytes()
        + rfc3339_json_of(nbf) + ",\"not_after\":".spec_bytes() + rfc3339_json_of(naf)
        + ",\"serial\":\"".spec_bytes() + uuid_str(serial) + "\"}".spec_bytes()
}

fn append_str(out: &mut Vec<u8>, s: &str)
    ensures
        final(out)@ == old(out)@ + s.spec_bytes(),
{
    let b = s.as_bytes();
    let n = b.len();
    let mut i: usize = 0;
    while i < n
        invariant
            n == b@.len(),
            b@ == s.spec_bytes(),
            0 <= i <= n,
            out@ == old(out)@ + b@.subrange(0, i as int),
        decreases n - i,
    {
        out.push(b[i]);
        assert(out@ =~= old(out)@ + b@.subrange(0, i + 1 as int));
        i += 1;
    }
    proof {
        assert(old(out)@ + b@.subrange(0, n as int) =~= old(out)@ + b@);
    }
}

impl Claim<LinkId> {
    /// Produce the canonical serialisation of this claim.
    pub fn to_serialized(&self) -> (r: Vec<u8>)
        requires
            self.wf_window(),
        ensures
            r@ == link_claim_json(self.data, self.not_before, self.not_after, self.serial),
    {
        let mut out: Vec<u8> = Vec::new();
        append_str(&mut out, "{\"data\":\"");
        let part = uuid_to_text(self.data);
        extend_bytes(&mut out, &part);
        append_str(&mut out, "\",\"not_before\":");
        let part = rfc3339_json(self.not_before);
        extend_bytes(&mut out, &part);
        append_str(&mut out, ",\"not_after\":");
        let part = rfc3339_json(self.not_after);
        extend_bytes(&mut out, &part);
        append_str(&mut out, ",\"serial\":\"");
        let part = uuid_to_text(self.serial);
        extend_bytes(&mut out, &part);
        append_str(&mut out, "\"}");
        proof {
            assert(out@ =~= link_claim_json(
                self.data,
                self.not_before,
                self.not_after,
                self.serial,
            ));
        }
        out
    }

    /// Build a claim over `data`, valid in `[not_before, not_after)`, with a
    /// fresh random serial. None when the system's random generator fails.
    pub fn from(data: LinkId, not_before: i64, not_after: i64) -> (r: Option<Claim<LinkId>>)
        ensures
            r is Some ==> {
                let c = r->Some_0;
                c.data == data && c.not_before == not_before && c.not_after == not_after
            },
    {
        match random_u128() {
            Some(serial) => Some(Claim { data, not_before, not_after, serial }),
            None => None,
        }
    }

    /// Sign this claim's canonical serialisation. None when the secret is
    /// not a well-formed key or the crypto library fails.
    pub fn sign_claim(&self, secret: &EntitySecret) -> (r: Option<SignedClaim<LinkId>>)
        requires
            self.wf_window(),
        ensures
            r is Some ==> r->Some_0.claim == *self,
            r is Some ==> link_claim_signed_by(
                r->Some_0.claim,
                r->Some_0.signature@,
                pubkey_of(secret.pkcs8@),
            ),
    {
        let ser = self.to_serialized();
        match secret.sign(&ser) {
            Some(signature) => Some(SignedClaim { claim: *self, signature }),
            None => None,
        }
    }
}

/// Whether a signature is valid for the canonical serialisation of a link
/// claim, under the given public key bytes.
pub open spec fn link_claim_signed_by(c: Claim<LinkId>, sig: Seq<u8>, pub_key: Seq<u8>) -> bool {
    ecdsa_p256_valid(pub_key, link_claim_json(c.data, c.not_before, c.not_after, c.serial), sig)
}

/// The verdict `validate` owes: acceptance exactly when the claim is
/// active at `now_ms` and its signature verifies under `pk`.
pub open spec fn spec_validate(sc: SignedClaim<LinkId>, pk: Seq<u8>, now_ms: i64) -> bool {
    sc.claim.active_at(now_ms) && link_claim_signed_by(sc.claim, sc.signature@, pk)
}

/// Signing is deterministic in identity: whatever signature `sign_claim`
/// attaches to a claim (its `ensures` are this lemma's premises), the
/// signed claim passes validation under the signer's public identity at
/// every instant inside the claim's window.
pub proof fn lemma_sign_then_validate(
    sc: SignedClaim<LinkId>,
    secret: EntitySecret,
    now_ms: i64,
)
    requires
        link_claim_signed_by(sc.claim, sc.signature@, pubkey_of(secret.pkcs8@)),
        sc.claim.active_at(now_ms),
    ensures
        spec_validate(sc, pubkey_of(secret.pkcs8@), now_ms),
{
}

impl SignedClaim<LinkId> {
    /// Validation succeeds exactly when `now` lies inside the claim's
    /// window and the signature verifies under `entity`; the window is
    /// checked first.
    pub fn validate(&self, entity: &Entity, now_ms: i64) -> (r: Result<(), ValidationError>)
        requires
            self.claim.wf_window(),
        ensures
            r is Ok <==> spec_validate(*self, entity@, now_ms),
            r == Err::<(), ValidationError>(ValidationError::Inactive) <==> !self.claim.active_at(
                now_ms,
            ),
            r == Err::<(), ValidationError>(ValidationError::InvalidSignature)
                <==> self.claim.active_at(now_ms) && !link_claim_signed_by(
                self.claim,
                self.signature@,
                entity@,
            ),
    {
        if now_ms >= self.claim.not_after || now_ms < self.claim.not_before {
            return Err(ValidationError::Inactive);
        }
        let ser = self.claim.to_serialized();
        if ecdsa_verify(&entity.pub_key, &ser, &self.signature) {
            Ok(())
        } else {
            Err(ValidationError::InvalidSignature)
        }
    }

    pub fn duplicate(&self) -> (r: SignedClaim<LinkId>)
        ensures
            r.claim == self.claim,
            r.signature@ == self.signature@,
    {
        SignedClaim { claim: self.claim, signature: crate::bytes::clone_bytes(&self.signature) }
    }
}

/// A fresh random 128-bit value; None when the generator fails.
pub fn random_u128() -> (r: Option<u128>)
{
    match random_bytes_16() {
        Some(b) => {
            let mut x: u128 = 0;
            let mut i: usize = 0;
            while i < 16
                invariant
                    0 <= i <= 16,
                    b@.len() == 16,
                decreases 16 - i,
            {
                x = (x << 8u128) | (b[i] as u128);
                i += 1;
            }
            Some(x)
        },
        None => None,
    }
}

/// A fresh link id in the shape of a version-4 UUID: random bits with the
/// version nibble set to 4 and the variant bits to 10.
pub fn new_link_id() -> (r: Option<LinkId>)
    ensures
        r is Some ==> (r->Some_0 >> 76) & 0xf == 4,
        r is Some ==> (r->Some_0 >> 62) & 0x3 == 2,
{
    match random_u128() {
        Some(x) => {
            let id: u128 = (x & 0xffffffff_ffff_0fff_3fff_ffffffffffffu128)
                | 0x00000000_0000_4000_8000_000000000000u128;
            proof {
                assert((id >> 76) & 0xf == 4 && (id >> 62) & 0x3 == 2) by (bit_vector)
                    requires
                        id == (x & 0xffffffff_ffff_0fff_3fff_ffffffffffffu128)
                            | 0x00000000_0000_4000_8000_000000000000u128,
                ;
            }
            Some(id)
        },
        None => None,
    }
}

} // verus!
