use lattice_noise::random::stateless_rand::encode_words;
use lattice_noise::random::StatelessRand;
use std::hash::Hasher;
use twox_hash::XxHash64;

fn reference_digest(seed: u64, bytes: &[u8]) -> u64 {
    let mut hasher = XxHash64::with_seed(seed);
    hasher.write(bytes);
    hasher.finish()
}

#[test]
fn small_inputs() {
    let rand = StatelessRand::from_seed(1234);

    let bytes: [u8; 24] = [
        0x00, 0x00, 0x00, 0x00, 0x00, 0x00, 0x00, 0x00,
        0x01, 0x00, 0x00, 0x00, 0x00, 0x00, 0x00, 0x00,
        0x02, 0x00, 0x00, 0x00, 0x00, 0x00, 0x00, 0x00
    ];

    assert_eq!(rand.hash_bytes(&bytes), rand.hash_3u64(0, 1, 2));
}

#[test]
fn hash_bytes_gives_the_published_digests() {
    let rand = StatelessRand::from_seed(0);

    assert_eq!(rand.hash_bytes(&[]), 0xef46_db37_51d8_e999);
    assert_eq!(rand.hash_bytes(&[42]), 0x0a9e_dece_beb0_3ae4);
    assert_eq!(rand.hash_bytes(b"Hello, world!\0"), 0x7b06_c531_ea43_e89f);
    assert_eq!(
        StatelessRand::from_seed(0xae05_4331_1b70_2d91).hash_bytes(&[]),
        0x4b6a_04fc_df7a_4672
    );
}

#[test]
fn hash_bytes_depends_on_seed_and_input() {
    let rand = StatelessRand::from_seed(7);

    assert_ne!(rand.hash_bytes(&[1, 2, 3]), rand.hash_bytes(&[1, 2, 4]));
    assert_ne!(rand.hash_bytes(&[1, 2, 3]), StatelessRand::from_seed(8).hash_bytes(&[1, 2, 3]));
    assert_ne!(rand.hash_bytes(&[7, 0, 0, 0, 0, 0, 0, 0]), 7);
    assert_eq!(rand.hash_bytes(&[1, 2, 3]), rand.hash_bytes(&[1, 2, 3]));
}

#[test]
fn fixed_arity_hashes_equal_the_hash_of_the_bytes() {
    let words = [
        0_u64,
        1,
        2,
        0xFF,
        0x0123_4567_89AB_CDEF,
        0x8000_0000_0000_0000,
        u64::MAX,
    ];
    for seed in [0_u64, 1, 1234, 0xDEAD_BEEF, u64::MAX] {
        let rand = StatelessRand::from_seed(seed);
        for &x in &words {
            assert_eq!(rand.hash_1u64(x), rand.hash_bytes(&x.to_le_bytes()));
            for &y in &words {
                let mut bytes = x.to_le_bytes().to_vec();
                bytes.extend_from_slice(&y.to_le_bytes());
                assert_eq!(rand.hash_2u64(x, y), rand.hash_bytes(&bytes));
                for &z in &[0_u64, 2, u64::MAX] {
                    let mut bytes = bytes.clone();
                    bytes.extend_from_slice(&z.to_le_bytes());
                    assert_eq!(rand.hash_3u64(x, y, z), rand.hash_bytes(&bytes));
                }
            }
        }
    }
}

#[test]
fn short_inputs_of_every_length_match_the_hasher() {
    let bytes: Vec<u8> = (0..40_u32).map(|i| (i * 37 + 11) as u8).collect();
    for seed in [0_u64, 99, u64::MAX] {
        let rand = StatelessRand::from_seed(seed);
        for len in 0..=bytes.len() {
            assert_eq!(rand.hash_bytes(&bytes[..len]), reference_digest(seed, &bytes[..len]));
        }
    }
}

#[test]
fn long_inputs_match_the_hasher() {
    let bytes: Vec<u8> = (0..1000_u32).map(|i| (i * 131 + 7) as u8).collect();
    let rand = StatelessRand::from_seed(0x5EED);

    for len in [32, 33, 63, 64, 65, 100, 999, 1000] {
        assert_eq!(rand.hash_bytes(&bytes[..len]), reference_digest(0x5EED, &bytes[..len]));
    }
}

#[test]
fn encode_words_writes_each_word_low_byte_first() {
    assert_eq!(encode_words(&[]), Vec::<u8>::new());
    assert_eq!(
        encode_words(&[0x0102_0304_0506_0708, 1]),
        vec![8, 7, 6, 5, 4, 3, 2, 1, 1, 0, 0, 0, 0, 0, 0, 0]
    );

    let reals = [1.5_f64, -0.0, f64::INFINITY];
    let mut expected = Vec::new();
    for real in reals {
        expected.extend_from_slice(&real.to_le_bytes());
    }
    assert_eq!(encode_words(&reals.map(f64::to_bits)), expected);
}

#[test]
fn hash_words_equals_the_hash_of_the_encoding() {
    let words: Vec<u64> = (0..9_u64).map(|i| i.wrapping_mul(0x9E37_79B9_7F4A_7C15) ^ 0xABCD).collect();
    for seed in [0_u64, 31337] {
        let rand = StatelessRand::from_seed(seed);
        for len in 0..=words.len() {
            assert_eq!(
                rand.hash_words(&words[..len]),
                rand.hash_bytes(&encode_words(&words[..len]))
            );
        }
    }
    let rand = StatelessRand::from_seed(5);
    assert_eq!(rand.hash_words(&[9]), rand.hash_1u64(9));
    assert_eq!(rand.hash_words(&[9, 8]), rand.hash_2u64(9, 8));
    assert_eq!(rand.hash_words(&[9, 8, 7]), rand.hash_3u64(9, 8, 7));
}

fn mixed_by_hand(rand: &StatelessRand, bytes: &[u8]) -> u64 {
    let mut digest = rand.prepare_seed(bytes.len() as u64);
    let mut rest = bytes;
    while rest.len() >= 8 {
        digest = StatelessRand::mix_u64(digest, u64::from_le_bytes(rest[..8].try_into().unwrap()));
        rest = &rest[8..];
    }
    if rest.len() >= 4 {
        digest = StatelessRand::mix_u32(digest, u32::from_le_bytes(rest[..4].try_into().unwrap()));
        rest = &rest[4..];
    }
    for &byte in rest {
        digest = StatelessRand::mix_u8(digest, byte);
    }
    StatelessRand::finalize(digest)
}

#[test]
fn short_inputs_are_mixed_in_by_words_then_a_half_word_then_bytes() {
    let bytes: Vec<u8> = (0..31_u32).map(|i| (i * 89 + 3) as u8).collect();
    for seed in [0_u64, 1, 1234, 0x0123_4567_89AB_CDEF, u64::MAX] {
        let rand = StatelessRand::from_seed(seed);
        for len in 0..32 {
            assert_eq!(rand.hash_bytes(&bytes[..len]), mixed_by_hand(&rand, &bytes[..len]), "{}", len);
        }
        assert_eq!(rand.hash_bytes(&[0xFF; 31]), mixed_by_hand(&rand, &[0xFF; 31]));
        assert_eq!(rand.hash_bytes(&[0x80; 7]), mixed_by_hand(&rand, &[0x80; 7]));
    }
}

#[test]
fn mixing_steps_give_the_known_values() {
    let rand = StatelessRand::from_seed(0);

    assert_eq!(rand.prepare_seed(0), 0x27D4_EB2F_1656_67C5);
    assert_eq!(rand.prepare_seed(24), 0x27D4_EB2F_1656_67DD);
    assert_eq!(StatelessRand::from_seed(u64::MAX).prepare_seed(1), 0x27D4_EB2F_1656_67C5);
    assert_eq!(StatelessRand::finalize(0), 0);
    assert_eq!(StatelessRand::finalize(rand.prepare_seed(0)), 0xef46_db37_51d8_e999);
    assert_eq!(
        StatelessRand::finalize(StatelessRand::mix_u8(rand.prepare_seed(1), 42)),
        0x0a9e_dece_beb0_3ae4
    );
    assert_eq!(StatelessRand::mix_u8(0, 0), 0);
    assert_eq!(StatelessRand::mix_u32(0, 0), 0x1656_67B1_9E37_79F9);
    assert_eq!(StatelessRand::mix_u64(0, 0), 0x85EB_CA77_C2B2_AE63);
    assert_eq!(
        StatelessRand::mix_u8(1, 0),
        (1_u64 << 11).wrapping_mul(0x9E37_79B1_85EB_CA87)
    );
}
