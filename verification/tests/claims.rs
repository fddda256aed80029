use nylon::claim::{Claim, FOREVER_MS, SignedClaim, ValidationError, new_link_id, uuid_to_text};
use nylon::entity::{Entity, EntitySecret};

fn keypair() -> (EntitySecret, Entity) {
    let secret = EntitySecret::generate().expect("key generation");
    let public = secret.get_pubkey();
    (secret, public)
}

#[test]
fn uuid_text_is_hyphenated_lowercase_hex() {
    let x: u128 = 0x550e8400_e29b_41d4_a716_446655440000;
    let text = uuid_to_text(x);
    assert_eq!(
        String::from_utf8(text).unwrap(),
        "550e8400-e29b-41d4-a716-446655440000"
    );
}

#[test]
fn uuid_text_zero() {
    let text = uuid_to_text(0);
    assert_eq!(
        String::from_utf8(text).unwrap(),
        "00000000-0000-0000-0000-000000000000"
    );
}

#[test]
fn entity_hex_display() {
    let e = Entity { pub_key: vec![0xbe, 0xef, 0x00, 0x1a] };
    assert_eq!(String::from_utf8(e.to_hex()).unwrap(), "beef001a");
}

#[test]
fn canonical_claim_serialisation_matches_field_order() {
    // the canonical form is JSON with the fields in the order
    // data, not_before, not_after, serial; UUIDs hyphenated lowercase;
    // instants RFC 3339 as chrono serialises them
    let c = Claim {
        data: 0x550e8400_e29b_41d4_a716_446655440000u128,
        not_before: 1_700_000_000_000,
        not_after: 1_700_000_005_000,
        serial: 0x123e4567_e89b_42d3_a456_426614174000u128,
    };
    let got = String::from_utf8(c.to_serialized()).unwrap();
    let nbf = chrono::DateTime::<chrono::Utc>::from_timestamp_millis(1_700_000_000_000).unwrap();
    let naf = chrono::DateTime::<chrono::Utc>::from_timestamp_millis(1_700_000_005_000).unwrap();
    let expected = format!(
        "{{\"data\":\"550e8400-e29b-41d4-a716-446655440000\",\"not_before\":{},\"not_after\":{},\"serial\":\"123e4567-e89b-42d3-a456-426614174000\"}}",
        serde_json::to_string(&nbf).unwrap(),
        serde_json::to_string(&naf).unwrap(),
    );
    assert_eq!(got, expected);
}

#[test]
fn sign_then_validate_succeeds() {
    // signing under a secret and validating under its public identity
    // accepts, for an active window
    let (secret, public) = keypair();
    let c = Claim { data: 42u128, not_before: 1000, not_after: 6000, serial: 7u128 };
    let signed = c.sign_claim(&secret).expect("signing");
    assert!(signed.validate(&public, 3000).is_ok());
}

#[test]
fn validate_rejects_expired_claim() {
    // a claim that expired six seconds ago is inactive
    let (secret, public) = keypair();
    let c = Claim { data: 42u128, not_before: 0, not_after: 5000, serial: 7u128 };
    let signed = c.sign_claim(&secret).expect("signing");
    assert!(matches!(signed.validate(&public, 11_000), Err(ValidationError::Inactive)));
}

#[test]
fn validate_rejects_not_yet_active_claim() {
    let (secret, public) = keypair();
    let c = Claim { data: 42u128, not_before: 5000, not_after: 10_000, serial: 7u128 };
    let signed = c.sign_claim(&secret).expect("signing");
    assert!(matches!(signed.validate(&public, 1000), Err(ValidationError::Inactive)));
}

#[test]
fn validate_rejects_wrong_key() {
    let (secret, _) = keypair();
    let (_, other_public) = keypair();
    let c = Claim { data: 42u128, not_before: 0, not_after: FOREVER_MS, serial: 7u128 };
    let signed = c.sign_claim(&secret).expect("signing");
    assert!(matches!(
        signed.validate(&other_public, 1000),
        Err(ValidationError::InvalidSignature)
    ));
}

#[test]
fn validate_rejects_tampered_payload() {
    let (secret, public) = keypair();
    let c = Claim { data: 42u128, not_before: 0, not_after: FOREVER_MS, serial: 7u128 };
    let signed = c.sign_claim(&secret).expect("signing");
    let forged = SignedClaim {
        claim: Claim { data: 43u128, ..signed.claim },
        signature: signed.signature.clone(),
    };
    assert!(matches!(forged.validate(&public, 1000), Err(ValidationError::InvalidSignature)));
}

#[test]
fn fresh_link_ids_carry_version_four() {
    let id = new_link_id().expect("random");
    assert_eq!((id >> 76) & 0xf, 4);
    let other = new_link_id().expect("random");
    assert_ne!(id, other);
}

#[test]
fn pubkey_is_deterministic() {
    let (secret, public) = keypair();
    let again = secret.try_get_pubkey().expect("well-formed key");
    assert_eq!(public.pub_key, again.pub_key);
}

#[test]
fn malformed_secret_has_no_pubkey() {
    let bogus = EntitySecret { pkcs8: vec![1, 2, 3] };
    assert!(bogus.try_get_pubkey().is_none());
}
