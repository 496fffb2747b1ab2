use osnma_core::gst::Gst;
use osnma_core::tesla::ChainError;
use osnma_core::tesla::ChainParameters;
use osnma_core::tesla::HashFunction;
use osnma_core::tesla::Key;

const K0: [u8; 16] = [
    0x42, 0xb4, 0x19, 0xda, 0x6a, 0xda, 0x1c, 0x0a, 0x3d, 0x6f, 0x56, 0xa5, 0xe5, 0xdc, 0x59, 0xa7,
];
const K1: [u8; 16] = [
    0x95, 0x42, 0xaa, 0xd4, 0x7a, 0xbf, 0x39, 0xba, 0xfe, 0x56, 0x68, 0x61, 0xaf, 0xe8, 0x80, 0xb2,
];

fn sha256_chain() -> ChainParameters {
    ChainParameters {
        hash: HashFunction::Sha256,
        alpha: 0x25d3964da3a2,
    }
}

#[test]
fn one_way_function() {
    // Keys broadcast on 2022-03-07 ~9:00 UTC
    let k0 = Key::from_slice(
        &K0,
        Gst {
            wn: 1176,
            tow: 120930,
        },
    );
    let k1 = Key::from_slice(
        &K1,
        Gst {
            wn: 1176,
            tow: 120960,
        },
    );
    let chain = sha256_chain();
    assert_eq!(k1.one_way_function(&chain), Ok(k0));
}

#[test]
fn owf_message_layout() {
    let k1 = Key::from_slice(&K1, Gst { wn: 1176, tow: 120960 });
    let m = k1.owf_message(&sha256_chain());
    let mut expected = K1.to_vec();
    expected.extend_from_slice(&[0x49, 0x81, 0xd8, 0x62]);
    expected.extend_from_slice(&[0x25, 0xd3, 0x96, 0x4d, 0xa3, 0xa2]);
    assert_eq!(m, expected);
}

#[test]
fn alpha_keeps_low_48_bits() {
    let k1 = Key::from_slice(&K1, Gst { wn: 1176, tow: 120960 });
    let params = ChainParameters {
        hash: HashFunction::Sha256,
        alpha: 0xffff_25d3_964d_a3a2,
    };
    assert_eq!(k1.owf_message(&params), k1.owf_message(&sha256_chain()));
    assert_eq!(k1.one_way_function(&params), Ok(Key::from_slice(&K0, Gst { wn: 1176, tow: 120930 })));
}

#[test]
fn week_rollover_derivation() {
    let k = Key::from_slice(&K1, Gst { wn: 1176, tow: 0 });
    let d = k.one_way_function(&sha256_chain()).unwrap();
    assert_eq!(d.gst_subframe(), Gst { wn: 1175, tow: 604770 });
    assert_eq!(d.size(), 128);
    let m = k.owf_message(&sha256_chain());
    // week 1175, time of week 604770
    let word: u32 = (1175 << 20) | 604770;
    assert_eq!(&m[16..20], &word.to_be_bytes());
}

#[test]
fn reserved_hash_is_refused() {
    let k = Key::from_slice(&K1, Gst { wn: 1176, tow: 120960 });
    let params = ChainParameters {
        hash: HashFunction::Reserved,
        alpha: 0x25d3964da3a2,
    };
    assert_eq!(k.one_way_function(&params), Err(ChainError::ReservedHashFunction));
}

#[test]
fn sha3_chain_step() {
    let k = Key::from_slice(&K1, Gst { wn: 1176, tow: 120960 });
    let params = ChainParameters {
        hash: HashFunction::Sha3_256,
        alpha: 0x25d3964da3a2,
    };
    let d = k.one_way_function(&params).unwrap();
    assert_eq!(d.gst_subframe(), Gst { wn: 1176, tow: 120930 });
    assert_eq!(d.size(), 128);
    assert_ne!(d, Key::from_slice(&K1, Gst { wn: 1176, tow: 120930 }));
    assert_ne!(d, Key::from_slice(&K0, Gst { wn: 1176, tow: 120930 }));
}

#[test]
fn from_digest_truncates() {
    let k = Key::from_slice(&K1[..4], Gst { wn: 3, tow: 60 });
    let mut digest = [0u8; 32];
    for (i, b) in digest.iter_mut().enumerate() {
        *b = i as u8 + 1;
    }
    let d = k.from_digest(&digest);
    assert_eq!(d, Key::from_slice(&[1, 2, 3, 4], Gst { wn: 3, tow: 30 }));
}

#[test]
fn chain_steps_move_anchor() {
    let mut k = Key::from_slice(&K1, Gst { wn: 7, tow: 60 });
    let expected = [
        Gst { wn: 7, tow: 30 },
        Gst { wn: 7, tow: 0 },
        Gst { wn: 6, tow: 604770 },
        Gst { wn: 6, tow: 604740 },
    ];
    for g in expected {
        k = k.one_way_function(&sha256_chain()).unwrap();
        assert_eq!(k.gst_subframe(), g);
        assert_eq!(k.size(), 128);
    }
}

#[test]
fn from_bitslice_matches_from_slice() {
    let mut bits = Vec::new();
    for b in K0 {
        for m in 0..8 {
            bits.push((b >> (7 - m)) & 1 == 1);
        }
    }
    let g = Gst { wn: 1176, tow: 120930 };
    assert_eq!(Key::from_bitslice(&bits, g), Key::from_slice(&K0, g));
    assert_eq!(Key::from_bitslice(&bits, g).size(), 128);
}

#[test]
fn keys_differ_by_anchor() {
    let a = Key::from_slice(&K0, Gst { wn: 1176, tow: 120930 });
    let b = Key::from_slice(&K0, Gst { wn: 1176, tow: 120960 });
    assert_ne!(a, b);
    assert_eq!(a.gst_subframe(), Gst { wn: 1176, tow: 120930 });
}

#[test]
fn reserved_hash_is_refused_at_week_start() {
    let k = Key::from_slice(&K1, Gst { wn: 0, tow: 0 });
    let params = ChainParameters {
        hash: HashFunction::Reserved,
        alpha: 0,
    };
    assert_eq!(k.one_way_function(&params), Err(ChainError::ReservedHashFunction));
}
