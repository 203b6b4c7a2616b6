use lamport_signature_plus::hash::Sha256;
use lamport_signature_plus::{
    generate_keys, LamportError, LamportFixedDigest, Signature, SignatureShare, SigningKey,
    SigningKeyShare, VerifyingKey,
};
use rand::rngs::StdRng;
use rand::SeedableRng;

type D256 = LamportFixedDigest<Sha256>;

const CELLS: usize = 256 * 32;

fn rng() -> StdRng {
    StdRng::from_seed([3u8; 32])
}

#[test]
fn text_is_two_lowercase_digits_for_each_byte() {
    let mut bytes = Vec::new();
    for i in 0..CELLS {
        bytes.push(i as u8);
    }
    let signature = Signature::<D256>::from_bytes(&bytes).unwrap();
    let text = signature.to_hex();
    assert_eq!(text.len(), 2 * CELLS);
    assert_eq!(&text[..20], "00010203040506070809");
    assert_eq!(&text[20..32], "0a0b0c0d0e0f");
    assert_eq!(&text[2 * 0xab..2 * 0xab + 2], "ab");
    assert_eq!(&text[2 * 255..2 * 255 + 4], "ff00");
    assert_eq!(text, text.to_lowercase());
}

#[test]
fn text_of_either_case_is_read() {
    let lower = "ab".repeat(CELLS);
    let upper = "AB".repeat(CELLS);
    let mixed = "aB".repeat(CELLS);
    for text in [&lower, &upper, &mixed] {
        let signature = Signature::<D256>::from_hex(text).unwrap();
        assert_eq!(signature.to_bytes(), vec![0xabu8; CELLS]);
    }
}

#[test]
fn text_that_is_not_hexadecimal_is_refused() {
    let good = "ab".repeat(CELLS);
    assert!(Signature::<D256>::from_hex(&good).is_ok());
    let odd = &good[1..];
    let short = &good[2..];
    let mut wrong = good.clone();
    wrong.replace_range(10..11, "g");
    let mut wide = good.clone();
    wide.replace_range(10..12, "é");
    for text in [odd, short, &wrong, &wide, ""] {
        let res = Signature::<D256>::from_hex(text);
        assert!(matches!(res, Err(LamportError::InvalidSignatureBytes)));
    }
    let res = SigningKey::<D256>::from_hex(&good);
    assert!(matches!(res, Err(LamportError::InvalidPrivateKeyBytes)));
    let res = SigningKey::<D256>::from_hex("zz");
    assert!(matches!(res, Err(LamportError::InvalidPrivateKeyBytes)));
    let res = SigningKeyShare::<D256>::from_hex("0");
    assert!(matches!(res, Err(LamportError::InvalidPrivateKeyBytes)));
    let res = VerifyingKey::<D256>::from_hex("0");
    assert!(matches!(res, Err(LamportError::InvalidSignatureBytes)));
    let res = SignatureShare::<D256>::from_hex("0");
    assert!(matches!(res, Err(LamportError::InvalidSignatureBytes)));
}

#[test]
fn text_round_trips() {
    let mut generator = rng();
    let (mut sk, pk) = generate_keys::<D256>(&mut generator);
    let mut shares = sk.split(2, 3, &mut generator).unwrap();

    let text = sk.to_hex();
    assert_eq!(text.len(), 2 * (1 + 2 * CELLS));
    assert_eq!(&text[..2], "00");
    assert_eq!(text, hex::encode(sk.to_bytes()));
    assert!(SigningKey::<D256>::from_hex(&text).unwrap() == sk);

    let text = pk.to_hex();
    assert_eq!(text.len(), 2 * 2 * CELLS);
    assert!(VerifyingKey::<D256>::from_hex(&text).unwrap() == pk);

    let text = shares[2].to_hex();
    assert_eq!(text.len(), 2 * (3 + 2 * CELLS));
    assert_eq!(&text[..6], "030200");
    assert!(SigningKeyShare::<D256>::from_hex(&text).unwrap() == shares[2]);

    let partial = shares[0].sign(b"m").unwrap();
    let text = partial.to_hex();
    assert_eq!(text.len(), 2 * (2 + CELLS));
    assert_eq!(&text[..4], "0102");
    assert!(SignatureShare::<D256>::from_hex(&text).unwrap() == partial);

    let signature = sk.sign(b"m").unwrap();
    let text = signature.to_hex();
    assert!(Signature::<D256>::from_hex(&text).unwrap() == signature);
    assert_eq!(&sk.to_hex()[..2], "01");
}
