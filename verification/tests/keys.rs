use lamport_signature_plus::hash::{Sha256, Sha3_256, Sha3_512, Shake128};
use lamport_signature_plus::{
    generate_keys, LamportExtendableDigest, LamportFixedDigest, Signature, SigningKey,
    VerifyingKey,
};
use rand::rngs::StdRng;
use rand::SeedableRng;

const SEED: [u8; 32] = [3u8; 32];

#[test]
fn key_bytes_round_trip() {
    let mut rng = StdRng::from_seed(SEED);
    let (mut sk, original_public_key) = generate_keys::<LamportFixedDigest<Sha3_256>>(&mut rng);

    let bytes = original_public_key.to_bytes();
    let res = VerifyingKey::<LamportFixedDigest<Sha3_256>>::from_bytes(&bytes);
    assert!(res.is_ok());
    let restored_public_key = res.unwrap();
    assert_eq!(
        restored_public_key.to_bytes(),
        original_public_key.to_bytes()
    );

    let bytes = sk.to_bytes();
    let res = SigningKey::<LamportFixedDigest<Sha3_256>>::from_bytes(&bytes);
    assert!(res.is_ok());
    let restored_private_key = res.unwrap();
    assert_eq!(restored_private_key.to_bytes(), sk.to_bytes());

    let signature = sk.sign(b"hello, world!").unwrap();
    let bytes = signature.to_bytes();
    let res = Signature::<LamportFixedDigest<Sha3_256>>::from_bytes(&bytes);
    assert!(res.is_ok());
    let restored_signature = res.unwrap();
    assert_eq!(restored_signature.to_bytes(), signature.to_bytes());
}

#[test]
fn generate_sha3_256_private_key() {
    let mut rng = StdRng::from_seed(SEED);
    let private_key = SigningKey::<LamportFixedDigest<Sha3_256>>::random(&mut rng);

    assert!(!private_key.used());
    assert_eq!(private_key.zero_values().len(), 256 * 32);
    assert_eq!(private_key.one_values().len(), 256 * 32);
}

#[test]
fn generate_sha3_512_private_key() {
    let mut rng = StdRng::from_seed(SEED);
    let private_key = SigningKey::<LamportFixedDigest<Sha3_512>>::random(&mut rng);

    assert!(!private_key.used());
    assert_eq!(private_key.zero_values().len(), 512 * 64);
    assert_eq!(private_key.one_values().len(), 512 * 64);
}

#[test]
fn sign_fixed() {
    let mut rng = StdRng::from_seed(SEED);
    let (mut sk, pk) = generate_keys::<LamportFixedDigest<Sha3_256>>(&mut rng);

    let message = b"hello, world!";
    let signature = sk.sign(message).unwrap();
    assert!(pk.verify(&signature, message).is_ok());
    assert!(!pk.verify(&signature, b"hello, world").is_ok());
}

#[test]
fn sign_xof() {
    let mut rng = StdRng::from_seed(SEED);
    let (mut sk, pk) = generate_keys::<LamportExtendableDigest<Shake128>>(&mut rng);

    let message = b"hello, world!";
    let signature = sk.sign(message).unwrap();
    assert!(pk.verify(&signature, message).is_ok());
    assert!(!pk.verify(&signature, b"hello, world").is_ok());
}

#[test]
fn vsss_key_round_trip() {
    let mut rng = StdRng::from_seed(SEED);
    let sk = SigningKey::<LamportFixedDigest<Sha256>>::random(&mut rng);
    let res = sk.split(3, 5, &mut rng);
    assert!(res.is_ok());
    let shares = res.unwrap();

    let res = SigningKey::<LamportFixedDigest<Sha256>>::combine(&shares[0..3]);
    assert!(res.is_ok());
    let restored_key = res.unwrap();
    assert_eq!(restored_key.to_bytes(), sk.to_bytes());

    let res = SigningKey::<LamportFixedDigest<Sha256>>::combine(&shares[2..5]);
    assert!(res.is_ok());
    let restored_key = res.unwrap();
    assert_eq!(restored_key.to_bytes(), sk.to_bytes());

    let res = SigningKey::<LamportFixedDigest<Sha256>>::combine(&shares[0..2]);
    assert!(res.is_err());
}

#[test]
fn lib_partial_sign() {
    let mut rng = StdRng::from_seed(SEED);
    let (sk, pk) = generate_keys::<LamportFixedDigest<Sha256>>(&mut rng);
    let message = b"hello, world!";
    let mut shares = sk.split(3, 5, &mut rng).unwrap();
    let signatures = shares
        .iter_mut()
        .map(|share| share.sign(message).unwrap())
        .collect::<Vec<_>>();

    let res = Signature::combine(&signatures[..3]);
    assert!(res.is_ok());
    let signature = res.unwrap();
    assert!(pk.verify(&signature, message).is_ok());
}

#[test]
fn vsss_partial_sign() {
    let mut rng = StdRng::from_entropy();
    for _ in 0..10 {
        let (sk, pk) = generate_keys::<LamportFixedDigest<Sha256>>(&mut rng);
        let message = b"hello, world!";
        let mut shares = sk.split(3, 5, &mut rng).unwrap();
        let signatures = shares
            .iter_mut()
            .map(|share| share.sign(message).unwrap())
            .collect::<Vec<_>>();

        let res = Signature::combine(&signatures[..3]);
        assert!(res.is_ok());
        let signature = res.unwrap();
        assert!(pk.verify(&signature, message).is_ok());

        let res = Signature::combine(&signatures[1..3]);
        assert!(res.is_err());
    }
}
