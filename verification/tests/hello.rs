use rsa::traits::PublicKeyParts;
use rsa::{BigUint, RsaPrivateKey, RsaPublicKey};
use treesync::errors::Error;
use treesync::message::{
    client_hello_has_rsa_key, client_hello_rsa_key, deserialize, serialize, serialize_without_cert,
    Message,
};

fn rebuild_key(version: u8, n_bytes: Vec<u8>, e_bytes: Vec<u8>) -> RsaPublicKey {
    client_hello_rsa_key(&Message::ClientHello(version, Some((n_bytes, e_bytes)))).unwrap()
}

#[test]
fn message_test() {
    let n = 55u32; // modulus
    let e = 3u32; // public exponent
    let d = 27u32; // private exponent

    // Construct BigUint from u32
    let n = BigUint::from(n);
    let e = BigUint::from(e);
    let _d = BigUint::from(d);

    // Small primes p and q that multiply to n (not strictly needed to encrypt/decrypt here)
    let _p = BigUint::from(5u32);
    let _q = BigUint::from(11u32);

    // Construct public key
    let public_key = RsaPublicKey::new(n, e).unwrap();

    let serialized = serialize(
        1,
        &public_key.n().to_bytes_le(),
        &public_key.e().to_bytes_le(),
    );
    assert_eq!(serialized[0], 0b11);

    let (version, cert) = deserialize(&serialized).unwrap();
    let (n_bytes, e_bytes) = cert.unwrap();
    let public_key2 = rebuild_key(version, n_bytes, e_bytes);

    assert_eq!(version, 1);
    assert_eq!(public_key, public_key2);
}

#[test]
fn test2() {
    let mut rng = rand::thread_rng();
    let private_key = RsaPrivateKey::new(&mut rng, 2048).unwrap();
    let public_key = RsaPublicKey::from(private_key);

    let serialized = serialize(
        1,
        &public_key.n().to_bytes_le(),
        &public_key.e().to_bytes_le(),
    );
    assert_eq!(serialized[0], 0b11);

    let (version, cert) = deserialize(&serialized).unwrap();
    let (n_bytes, e_bytes) = cert.unwrap();
    let public_key2 = rebuild_key(version, n_bytes, e_bytes);

    assert_eq!(version, 1);
    assert_eq!(public_key, public_key2);
}

#[test]
fn bare_hello_round_trip() {
    let frame = serialize_without_cert(1);
    assert_eq!(frame, [0b10]);
    let (version, cert) = deserialize(&frame).unwrap();
    assert_eq!(version, 1);
    assert!(cert.is_none());
}

#[test]
fn malformed_frames_are_decode_errors() {
    // Empty input.
    assert!(matches!(deserialize(&[]), Err(Error::DecodeError(_))));
    // Wrong version: version 2, no certificate.
    assert!(matches!(deserialize(&[0b100]), Err(Error::DecodeError(_))));
    // Trailing bytes after a bare hello.
    assert!(matches!(
        deserialize(&[0b10, 0]),
        Err(Error::DecodeError(_))
    ));
    // Truncated header.
    assert!(matches!(deserialize(&[0b11, 1]), Err(Error::DecodeError(_))));
    // Length prefix does not match the body.
    assert!(matches!(
        deserialize(&[0b11, 2, 0, 1, 9]),
        Err(Error::DecodeError(_))
    ));
}

#[test]
fn hello_helpers() {
    let with_key = Message::ClientHello(1, Some((vec![55], vec![3])));
    let without = Message::ClientHello(1, None);
    assert!(client_hello_has_rsa_key(&with_key));
    assert!(!client_hello_has_rsa_key(&without));
    assert!(matches!(
        client_hello_rsa_key(&without),
        Err(Error::DecodeError(_))
    ));
    // An even exponent is not a valid RSA key: the library's rejection
    // surfaces as a foreign failure.
    let bad = Message::ClientHello(1, Some((vec![55], vec![2])));
    assert!(matches!(client_hello_rsa_key(&bad), Err(Error::Foreign(_))));
    // A valid pair parses into a key.
    assert!(client_hello_rsa_key(&with_key).is_ok());
}

#[test]
fn largest_modulus_round_trips() {
    let n_bytes: Vec<u8> = (0..=255u8).collect();
    assert_eq!(n_bytes.len(), 256);
    let e_bytes = vec![1, 0, 1];
    let serialized = serialize(1, &n_bytes, &e_bytes);
    let (version, cert) = deserialize(&serialized).unwrap();
    let (n2, e2) = cert.unwrap();
    assert_eq!(version, 1);
    assert_eq!(n2, n_bytes);
    assert_eq!(e2, e_bytes);
}
