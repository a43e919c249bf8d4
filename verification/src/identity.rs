//! Node identities (ed25519 key pairs) and the peers that carry them.
use vstd::prelude::*;

verus! {

/// The ed25519 public key of a 32-byte secret key (its compressed point).
pub uninterp spec fn ed25519_public(secret: Seq<u8>) -> Seq<u8>;

/// The SHA-256 digest of some bytes.
pub uninterp spec fn sha256_digest(data: Seq<u8>) -> Seq<u8>;

/// The lowercase hexadecimal digit of a value below sixteen.
pub open spec fn hex_digit(n: int) -> char {
    if n < 10 {
        (48 + n) as char
    } else {
        (87 + n) as char
    }
}

/// Bytes written in lowercase hexadecimal, two digits per byte, high half first.
pub open spec fn hex_lower(b: Seq<u8>) -> Seq<char> {
    Seq::new(
        2 * b.len(),
        |i: int|
            if i % 2 == 0 {
                hex_digit(b[i / 2] as int / 16)
            } else {
                hex_digit(b[i / 2] as int % 16)
            },
    )
}

/// The text by which a node with the public key `vk` is known: the lowercase
/// hexadecimal form of the SHA-256 digest of the key.
pub open spec fn identity_text(vk: Seq<u8>) -> Seq<char> {
    hex_lower(sha256_digest(vk))
}

/// A fresh ed25519 secret key drawn from the operating system's random source
/// (`SigningKey::generate` with `OsRng`). Only its length is stated.
#[verifier::external_body]
fn random_secret_key() -> (r: Vec<u8>)
    ensures
        r@.len() == 32,
{
    ed25519_dalek::SigningKey::generate(&mut rand::rngs::OsRng).to_bytes().to_vec()
}

/// `SigningKey::from_bytes(..).verifying_key().to_bytes()`: the 32-byte
/// public key of a 32-byte secret key, a function of the secret alone.
#[verifier::external_body]
fn public_key_of(secret: &[u8]) -> (r: Vec<u8>)
    requires
        secret@.len() == 32,
    ensures
        r@ == ed25519_public(secret@),
        r@.len() == 32,
{
    let mut bytes = [0u8; 32];
    bytes.copy_from_slice(secret);
    ed25519_dalek::SigningKey::from_bytes(&bytes).verifying_key().to_bytes().to_vec()
}

/// `sha2::Sha256::digest`: the 32-byte SHA-256 digest of the data.
#[verifier::external_body]
fn sha256(data: &[u8]) -> (r: Vec<u8>)
    ensures
        r@ == sha256_digest(data@),
        r@.len() == 32,
{
    <sha2::Sha256 as sha2::Digest>::digest(data).to_vec()
}

/// `hex::encode`: the bytes in lowercase hexadecimal.
#[verifier::external_body]
fn hex_encode(data: &[u8]) -> (r: String)
    ensures
        r@ == hex_lower(data@),
{
    hex::encode(data)
}

/// The keys of a node: an ed25519 secret key and its public key.
#[derive(Clone, Debug)]
pub struct Identity {
    pub signing_key: Vec<u8>,
    pub verifying_key: Vec<u8>,
}

impl Identity {
    /// The public key belongs to the secret key.
    pub open spec fn wf(&self) -> bool {
        &&& self.signing_key@.len() == 32
        &&& self.verifying_key@ == ed25519_public(self.signing_key@)
    }

    /// A fresh identity with a random secret key.
    pub fn generate() -> (id: Identity)
        ensures
            id.wf(),
    {
        let signing_key = random_secret_key();
        let verifying_key = public_key_of(signing_key.as_slice());
        Identity { signing_key, verifying_key }
    }

    /// The text by which this node is known: the hexadecimal SHA-256 digest
    /// of its public key (64 characters).
    pub fn encode(&self) -> (text: String)
        ensures
            text@ == identity_text(self.verifying_key@),
            text@.len() == 64,
    {
        let digest = sha256(self.verifying_key.as_slice());
        hex_encode(digest.as_slice())
    }

    /// The bytes of the public key.
    pub fn public_key_bytes(&self) -> (bytes: Vec<u8>)
        ensures
            bytes@ == self.verifying_key@,
    {
        let mut bytes: Vec<u8> = Vec::new();
        let n = self.verifying_key.len();
        for i in 0..n
            invariant
                n == self.verifying_key@.len(),
                bytes@ == self.verifying_key@.take(i as int),
        {
            bytes.push(self.verifying_key[i]);
            assert(self.verifying_key@.take(i + 1) =~= self.verifying_key@.take(i as int).push(
                self.verifying_key@[i as int],
            ));
        }
        assert(self.verifying_key@.take(n as int) =~= self.verifying_key@);
        bytes
    }
}

/// A node of the mesh, with its identity and address.
#[derive(Clone, Debug)]
pub struct Peer {
    pub id: Identity,
    pub ip: String,
    pub port: u16,
}

/// What a peer holds, as mathematical values.
pub struct PeerView {
    pub signing_key: Seq<u8>,
    pub verifying_key: Seq<u8>,
    pub ip: Seq<char>,
    pub port: u16,
}

impl View for Peer {
    type V = PeerView;

    open spec fn view(&self) -> PeerView {
        PeerView {
            signing_key: self.id.signing_key@,
            verifying_key: self.id.verifying_key@,
            ip: self.ip@,
            port: self.port,
        }
    }
}

impl Peer {
    /// A peer at the given address with a fresh identity.
    pub fn new(ip: &str, port: u16) -> (peer: Peer)
        ensures
            peer.id.wf(),
            peer.ip@ == ip@,
            peer.port == port,
    {
        Peer { id: Identity::generate(), ip: ip.to_string(), port }
    }
}

} // verus!
