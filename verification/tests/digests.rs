use lamport_signature_plus::hash::{
    has_key_shape, Blake2b512, Blake2s256, Sha256, Sha384, Sha3_256, Sha3_512, Sha512, Shake128, Shake256,
    Whirlpool,
};
use lamport_signature_plus::{
    ExtendableHash, FixedHash, LamportDigest, LamportExtendableDigest, LamportFixedDigest,
};
use rand::rngs::StdRng;
use rand::SeedableRng;

fn unhex(text: &str) -> Vec<u8> {
    hex::decode(text).unwrap()
}

#[test]
fn sha256_of_abc() {
    let expected = unhex("ba7816bf8f01cfea414140de5dae2223b00361a396177a9cb410ff61f20015ad");
    assert_eq!(<Sha256 as FixedHash>::digest(b"abc"), expected);
    assert_eq!(<LamportFixedDigest<Sha256> as LamportDigest>::digest(b"abc"), expected);
    assert_eq!(<Sha256 as FixedHash>::output_size_in_bits(), 256);
    assert_eq!(<LamportFixedDigest<Sha256> as LamportDigest>::digest_size_in_bits(), 256);
}

#[test]
fn sha384_of_abc() {
    let expected = unhex(
        "cb00753f45a35e8bb5a03d699ac65007272c32ab0eded1631a8b605a43ff5bed8086072ba1e7cc2358baeca134c825a7",
    );
    assert_eq!(<Sha384 as FixedHash>::digest(b"abc"), expected);
    assert_eq!(<LamportFixedDigest<Sha384> as LamportDigest>::digest_size_in_bits(), 384);
}

#[test]
fn sha512_of_abc() {
    let expected = unhex(
        "ddaf35a193617abacc417349ae20413112e6fa4e89a97ea20a9eeee64b55d39a2192992a274fc1a836ba3c23a3feebbd454d4423643ce80e2a9ac94fa54ca49f",
    );
    assert_eq!(<Sha512 as FixedHash>::digest(b"abc"), expected);
    assert_eq!(<LamportFixedDigest<Sha512> as LamportDigest>::digest_size_in_bits(), 512);
}

#[test]
fn sha3_256_of_nothing() {
    let expected = unhex("a7ffc6f8bf1ed76651c14756a061d662f580ff4de43b49fa82d80a4b80f8434a");
    assert_eq!(<Sha3_256 as FixedHash>::digest(b""), expected);
    assert_eq!(<LamportFixedDigest<Sha3_256> as LamportDigest>::digest_size_in_bits(), 256);
}

#[test]
fn sha3_512_of_nothing() {
    let expected = unhex(
        "a69f73cca23a9ac5c8b567dc185a756e97c982164fe25859e0d1dcc1475c80a615b2123af1f5f94c11e3e9402c3ac558f500199d95b6d3e301758586281dcd26",
    );
    assert_eq!(<Sha3_512 as FixedHash>::digest(b""), expected);
    assert_eq!(<LamportFixedDigest<Sha3_512> as LamportDigest>::digest_size_in_bits(), 512);
}

#[test]
fn blake2s256_of_abc() {
    let expected = unhex("508c5e8c327c14e2e1a72ba34eeb452f37458b209ed63a294d999b4c86675982");
    assert_eq!(<Blake2s256 as FixedHash>::digest(b"abc"), expected);
    assert_eq!(<LamportFixedDigest<Blake2s256> as LamportDigest>::digest_size_in_bits(), 256);
}

#[test]
fn blake2b512_of_abc() {
    let expected = unhex(
        "ba80a53f981c4d0d6a2797b69f12f6e94c212f14685ac4b74b12bb6fdbffa2d17d87c5392aab792dc252d5de4533cc9518d38aa8dbf1925ab92386edd4009923",
    );
    assert_eq!(<Blake2b512 as FixedHash>::digest(b"abc"), expected);
    assert_eq!(<LamportFixedDigest<Blake2b512> as LamportDigest>::digest_size_in_bits(), 512);
}

#[test]
fn whirlpool_of_nothing() {
    let expected = unhex(
        "19fa61d75522a4669b44e39c1d2e1726c530232130d407f89afee0964997f7a73e83be698b288febcf88e3e03c4f0757ea8964e59b63d93708b138cc42a66eb3",
    );
    assert_eq!(<Whirlpool as FixedHash>::digest(b""), expected);
    assert_eq!(<LamportFixedDigest<Whirlpool> as LamportDigest>::digest_size_in_bits(), 512);
}

#[test]
fn shake128_reads_what_is_asked() {
    let expected = unhex("7f9c2ba4e88f827d616045507605853ed73b8093f6efbc88eb1a6eacfa66ef26");
    assert_eq!(<Shake128 as ExtendableHash>::digest_xof(b"", 32), expected);
    assert_eq!(<Shake128 as ExtendableHash>::digest_xof(b"", 16), expected[..16].to_vec());
    assert_eq!(<Shake128 as ExtendableHash>::digest_xof(b"", 0), Vec::<u8>::new());
}

#[test]
fn shake256_reads_what_is_asked() {
    let expected = unhex("46b9dd2b0ba88d13233b3feb743eeb243fcd52ea62b81b82b50c27646ed5762f");
    assert_eq!(<Shake256 as ExtendableHash>::digest_xof(b"", 32), expected);
    assert_eq!(<Shake256 as ExtendableHash>::digest_xof(b"", 7), expected[..7].to_vec());
}

#[test]
fn extendable_digest_is_32_bytes() {
    let expected = unhex("7f9c2ba4e88f827d616045507605853ed73b8093f6efbc88eb1a6eacfa66ef26");
    assert_eq!(<LamportExtendableDigest<Shake128> as LamportDigest>::digest(b""), expected);
    assert_eq!(<LamportExtendableDigest<Shake128> as LamportDigest>::digest_size_in_bits(), 256);
    assert_eq!(<LamportExtendableDigest<Shake256> as LamportDigest>::digest(b"x").len(), 32);
    assert_eq!(<LamportExtendableDigest<Shake256> as LamportDigest>::digest_size_in_bits(), 256);
}

#[test]
fn digest_depends_on_the_data_alone() {
    let first = <LamportFixedDigest<Sha3_256> as LamportDigest>::digest(b"hello, world!");
    let second = <LamportFixedDigest<Sha3_256> as LamportDigest>::digest(b"hello, world!");
    let other = <LamportFixedDigest<Sha3_256> as LamportDigest>::digest(b"hello, world");
    assert_eq!(first, second);
    assert_ne!(first, other);
}

#[test]
fn random_matrix_has_the_shape_of_the_digest() {
    let mut rng = StdRng::from_seed([3u8; 32]);
    let small = <LamportFixedDigest<Sha256> as LamportDigest>::random(&mut rng);
    assert_eq!(small.axes(), [256, 32]);
    assert_eq!(small.len(), 256 * 32);
    let large = <LamportFixedDigest<Sha512> as LamportDigest>::random(&mut rng);
    assert_eq!(large.axes(), [512, 64]);
    assert_eq!(large.len(), 512 * 64);
    let xof = <LamportExtendableDigest<Shake256> as LamportDigest>::random(&mut rng);
    assert_eq!(xof.axes(), [256, 32]);
    assert_eq!(xof.len(), 256 * 32);
    assert!(has_key_shape::<LamportFixedDigest<Sha256>>(&small));
    assert!(has_key_shape::<LamportExtendableDigest<Shake128>>(&small));
    assert!(!has_key_shape::<LamportFixedDigest<Sha512>>(&small));
    assert!(has_key_shape::<LamportFixedDigest<Sha512>>(&large));
}

#[test]
fn random_matrix_is_filled_by_the_generator() {
    let mut rng = StdRng::from_seed([3u8; 32]);
    let first = <LamportFixedDigest<Sha256> as LamportDigest>::random(&mut rng);
    let second = <LamportFixedDigest<Sha256> as LamportDigest>::random(&mut rng);
    assert!(first.iter().any(|cell| *cell != 0));
    assert_ne!(first.to_vec(), second.to_vec());

    let mut again = StdRng::from_seed([3u8; 32]);
    let repeated = <LamportFixedDigest<Sha256> as LamportDigest>::random(&mut again);
    let mut rng = StdRng::from_seed([3u8; 32]);
    let first = <LamportFixedDigest<Sha256> as LamportDigest>::random(&mut rng);
    assert_eq!(first.to_vec(), repeated.to_vec());
}
