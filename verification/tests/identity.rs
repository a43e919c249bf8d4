use rustmesh::identity::{Identity, Peer};
use rustmesh::service::{hello_reply, registration, service_instance_name};
use sha2::Digest;

#[test]
fn generated_identity_is_a_key_pair() {
    let id = Identity::generate();
    assert_eq!(id.signing_key.len(), 32);
    let bytes: [u8; 32] = id.signing_key.clone().try_into().unwrap();
    let expected = ed25519_dalek::SigningKey::from_bytes(&bytes).verifying_key().to_bytes();
    assert_eq!(id.verifying_key, expected.to_vec());
    assert_eq!(id.public_key_bytes(), expected.to_vec());
}

#[test]
fn encode_is_the_hex_digest_of_the_public_key() {
    let id = Identity::generate();
    let text = id.encode();
    assert_eq!(text.len(), 64);
    assert!(text.chars().all(|c| c.is_ascii_hexdigit() && !c.is_ascii_uppercase()));
    let digest = sha2::Sha256::digest(&id.verifying_key);
    assert_eq!(text, hex::encode(digest));
    assert_ne!(text, hex::encode(&id.verifying_key));
}

#[test]
fn known_digest_text() {
    let secret = [7u8; 32];
    let public = ed25519_dalek::SigningKey::from_bytes(&secret).verifying_key().to_bytes();
    let id = Identity { signing_key: secret.to_vec(), verifying_key: public.to_vec() };
    let expected: String = sha2::Sha256::digest(public)
        .iter()
        .map(|b| format!("{:02x}", b))
        .collect();
    assert_eq!(id.encode(), expected);
}

#[test]
fn peer_new_keeps_the_address() {
    let p = Peer::new("10.0.0.1", 4000);
    assert_eq!(p.ip, "10.0.0.1");
    assert_eq!(p.port, 4000);
    assert_eq!(p.id.verifying_key.len(), 32);
}

#[test]
fn instance_name_and_reply() {
    let id = Identity::generate();
    let text = id.encode();
    assert_eq!(service_instance_name(&id), text[..10].to_string());
    assert_eq!(hello_reply(&id), format!("{} says hello to you!", text));
    let r = registration(&id);
    assert_eq!(r.service_type, "_mdns-sd-my-test._udp.local.");
    assert_eq!(r.instance_name, text[..10].to_string());
    assert_eq!(r.host_name, "localhost.local.");
    assert_eq!(r.ip, "127.0.0.1");
    assert_eq!(r.port, 8080);
    assert_eq!(
        r.properties,
        vec![
            ("property_1".to_string(), "test".to_string()),
            ("property_2".to_string(), "1234".to_string())
        ]
    );
}
