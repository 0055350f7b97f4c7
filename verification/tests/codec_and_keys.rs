use aias_gm::codec::encode;
use aias_gm::codec::g1_to_str;
use aias_gm::codec::scalar_to_str;
use aias_gm::codec::str_to_g1;
use aias_gm::codec::str_to_scalar;
use aias_gm::codec::try_str_to_g1;
use aias_gm::codec::try_str_to_scalar;
use aias_gm::keys::init_gm_secrets;
use aias_gm::keys::init_opener_secret;
use aias_gm::keys::try_init_gm_secrets;
use aias_gm::keys::try_init_opener_secret;
use aias_gm::keys::GmSecrets;
use aias_gm::keys::OpenerSecret;

fn generator_bytes() -> Vec<u8> {
    bls12_381::G1Affine::generator().to_compressed().to_vec()
}

fn scalar_bytes(n: u64) -> Vec<u8> {
    bls12_381::Scalar::from(n).to_bytes().to_vec()
}

#[test]
fn encode_is_base64() {
    assert_eq!(encode(b"hello"), "aGVsbG8=");
    assert_eq!(encode(b""), "");
    assert_eq!(base64::decode(encode(&[0, 255, 7, 9])).unwrap(), vec![0, 255, 7, 9]);
}

#[test]
fn g1_text_is_base64_of_messagepack() {
    let point = generator_bytes();
    let text = g1_to_str(&point).unwrap();
    let expected = base64::encode(rmp_serde::to_vec(&point).unwrap());
    assert_eq!(text, expected);
    assert_ne!(text.as_bytes(), point.as_slice());
}

#[test]
fn g1_text_round_trips() {
    let point = generator_bytes();
    let text = g1_to_str(&point).unwrap();
    assert_eq!(str_to_g1(&text), point);
    assert_eq!(try_str_to_g1(&text), Some(point.clone()));
    let identity = bls12_381::G1Affine::identity().to_compressed().to_vec();
    let text = g1_to_str(&identity).unwrap();
    assert_eq!(str_to_g1(&text), identity);
}

#[test]
fn g1_text_rejects_what_is_not_a_point() {
    assert_eq!(try_str_to_g1(&"not base64!".to_string()), None);
    assert_eq!(try_str_to_g1(&base64::encode(b"\x01\x02")), None);
    let short = base64::encode(rmp_serde::to_vec(&vec![1u8; 47]).unwrap());
    assert_eq!(try_str_to_g1(&short), None);
    let mut bad = generator_bytes();
    bad[0] ^= 0x80;
    let text = g1_to_str(&bad).unwrap();
    assert_eq!(try_str_to_g1(&text), None);
}

#[test]
fn scalar_text_round_trips() {
    let scalar = scalar_bytes(123456789);
    let text = scalar_to_str(&scalar).unwrap();
    assert_eq!(text, base64::encode(rmp_serde::to_vec(&scalar).unwrap()));
    assert_eq!(str_to_scalar(&text), scalar);
    assert_eq!(try_str_to_scalar(&text), Some(scalar));
}

#[test]
fn scalar_text_rejects_non_canonical_scalars() {
    let text = scalar_to_str(&[0xff; 32]).unwrap();
    assert_eq!(try_str_to_scalar(&text), None);
    assert_eq!(try_str_to_scalar(&"".to_string()), None);
}

#[test]
fn gm_secrets_are_generated_unless_both_are_set() {
    let stored = scalar_to_str(&scalar_bytes(5)).unwrap();
    assert!(matches!(init_gm_secrets(&String::new(), &stored), GmSecrets::Generate));
    assert!(matches!(init_gm_secrets(&stored, &String::new()), GmSecrets::Generate));
    assert!(matches!(
        try_init_gm_secrets(&String::new(), &"garbage".to_string()),
        Some(GmSecrets::Generate)
    ));
}

#[test]
fn gm_secrets_are_read_when_both_are_set() {
    let xi = scalar_bytes(5);
    let gamma = scalar_bytes(7);
    let sec1 = scalar_to_str(&xi).unwrap();
    let sec2 = scalar_to_str(&gamma).unwrap();
    match init_gm_secrets(&sec1, &sec2) {
        GmSecrets::Stored { xi: a, gamma: b } => {
            assert_eq!(a, xi);
            assert_eq!(b, gamma);
        }
        GmSecrets::Generate => panic!("the stored secrets were not read"),
    }
    assert!(try_init_gm_secrets(&sec1, &"garbage".to_string()).is_none());
}

#[test]
fn opener_secret_is_read_when_set() {
    let xi = scalar_bytes(11);
    let text = scalar_to_str(&xi).unwrap();
    match init_opener_secret(&Some(text.clone())) {
        OpenerSecret::Stored { xi: a } => assert_eq!(a, xi),
        OpenerSecret::Generate => panic!("the stored secret was not read"),
    }
    assert!(matches!(init_opener_secret(&None), OpenerSecret::Generate));
    assert!(try_init_opener_secret(&Some(String::new())).is_none());
    assert!(matches!(try_init_opener_secret(&Some(text)), Some(OpenerSecret::Stored { .. })));
}

#[test]
fn encode_has_four_characters_per_three_bytes_begun() {
    for n in 0..10usize {
        let bytes: Vec<u8> = (0..n as u8).map(|b| b.wrapping_mul(37)).collect();
        let text = encode(&bytes);
        assert_eq!(text.len(), 4 * ((n + 2) / 3));
        assert!(text.chars().all(|c| c.is_ascii_alphanumeric() || c == '+' || c == '/' || c == '='));
    }
    assert_eq!(encode(&[0xfb, 0xff]), "+/8=");
}

#[test]
fn scalars_are_canonical_exactly_below_the_modulus() {
    // The field order, little-endian.
    let mut modulus = [0u8; 32];
    let limbs: [u64; 4] = [
        0xffff_ffff_0000_0001,
        0x53bd_a402_fffe_5bfe,
        0x3339_d808_09a1_d805,
        0x73ed_a753_299d_7d48,
    ];
    for (i, limb) in limbs.iter().enumerate() {
        modulus[8 * i..8 * i + 8].copy_from_slice(&limb.to_le_bytes());
    }
    let text = scalar_to_str(&modulus).unwrap();
    assert_eq!(try_str_to_scalar(&text), None);
    let mut below = modulus;
    below[0] = 0;
    let text = scalar_to_str(&below).unwrap();
    assert_eq!(try_str_to_scalar(&text), Some(below.to_vec()));
}

#[test]
fn written_secrets_are_read_back_not_regenerated() {
    let xi = scalar_bytes(42);
    let gamma = scalar_bytes(43);
    let sec1 = scalar_to_str(&xi).unwrap();
    let sec2 = scalar_to_str(&gamma).unwrap();
    assert!(!sec1.is_empty() && !sec2.is_empty());
    for _ in 0..2 {
        match init_gm_secrets(&sec1, &sec2) {
            GmSecrets::Stored { xi: a, gamma: b } => {
                assert_eq!(a, xi);
                assert_eq!(b, gamma);
            }
            GmSecrets::Generate => panic!("stored secrets were regenerated"),
        }
    }
}

#[test]
fn encode_of_known_bytes() {
    assert_eq!(encode(b"abc"), "YWJj");
    assert_eq!(encode(b"a"), "YQ==");
    assert_eq!(encode(b"ab"), "YWI=");
    assert_eq!(encode(b"abcd"), "YWJjZA==");
}

#[test]
fn g1_text_is_encode_of_the_messagepack_bytes() {
    let point = generator_bytes();
    let mut packed = vec![0xdc, 0x00, 0x30];
    for b in &point {
        if *b >= 128 {
            packed.push(0xcc);
        }
        packed.push(*b);
    }
    assert_eq!(rmp_serde::to_vec(&point).unwrap(), packed);
    assert_eq!(g1_to_str(&point).unwrap(), encode(&packed));
    let scalar = scalar_bytes(3);
    let mut packed = vec![0xdc, 0x00, 0x20];
    for b in &scalar {
        if *b >= 128 {
            packed.push(0xcc);
        }
        packed.push(*b);
    }
    assert_eq!(scalar_to_str(&scalar).unwrap(), encode(&packed));
}
