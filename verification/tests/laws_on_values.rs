use zkp_auth::BigNat;
use zkp_auth::ChaumPedersen;
use zkp_auth::ChaumPedersenK256;
use zkp_auth::CredentialStore;
use zkp_auth::Credentials;
use zkp_auth::CurvePoint;
use zkp_auth::CurveScalar;
use zkp_auth::SessionStore;
use zkp_auth::WirePoint;
use zkp_auth::AuthError;

const ORDER: [u8; 32] = [
    0xff, 0xff, 0xff, 0xff, 0xff, 0xff, 0xff, 0xff, 0xff, 0xff, 0xff, 0xff, 0xff, 0xff, 0xff, 0xfe,
    0xba, 0xae, 0xdc, 0xe6, 0xaf, 0x48, 0xa0, 0x3b, 0xbf, 0xd2, 0x5e, 0x8c, 0xd0, 0x36, 0x41, 0x41,
];

fn n(value: u64) -> BigNat {
    BigNat::from_u64(value)
}

fn small_group() -> ChaumPedersen {
    ChaumPedersen::new(n(23), n(11), n(4), n(9))
}

fn large_group() -> ChaumPedersen {
    ChaumPedersen::new(
        n(363967321904221003),
        n(7696033),
        n(165950041202038920),
        n(96429580695728554),
    )
}

#[test]
fn public_key_and_commitment_by_hand() {
    let group = small_group();
    let (y1, y2) = group.derive_public_key(&n(3));
    assert_eq!((y1, y2), (n(18), n(16)));
    let (k, r1, r2) = group.commit_with(2);
    assert_eq!((k, r1, r2), (n(2), n(16), n(12)));
    let (y1, y2) = group.derive_public_key(&n(0));
    assert_eq!((y1, y2), (n(1), n(1)));
}

#[test]
fn answer_by_hand_on_both_sides_of_the_order() {
    let group = small_group();
    assert_eq!(group.solve_with(&n(3), &n(2), &n(5)), n(9));
    assert_eq!(group.solve_with(&n(3), &n(10), &n(5)), n(17));
    assert_eq!(group.solve_with(&n(3), &n(11), &n(5)), n(7));
    assert_eq!(group.solve_with(&n(3), &n(20), &n(5)), n(16));
    assert_eq!(group.solve_with(&n(3), &n(0), &n(0)), n(11));
}

#[test]
fn verdict_by_hand() {
    let group = small_group();
    assert!(group.verify(&n(18), &n(16), &n(16), &n(12), &n(5), &n(9)));
    assert!(!group.verify(&n(18), &n(16), &n(16), &n(12), &n(5), &n(10)));
    assert!(!group.verify(&n(18), &n(16), &n(16), &n(13), &n(5), &n(9)));
    assert!(!group.verify(&n(18), &n(16), &n(17), &n(12), &n(5), &n(9)));
    assert!(!group.verify(&n(18), &n(16), &n(16 + 23), &n(12), &n(5), &n(9)));
}

#[test]
fn challenge_is_the_remainder_of_the_draw() {
    let group = large_group();
    assert_eq!(group.challenge_from(&n(7696033 + 5).to_bytes_be()), n(5));
    assert_eq!(group.challenge_from(&[0, 0, 0x3d, 0xd3, 0xb0]), n(4051888));
    assert_eq!(group.challenge_from(&[0xff; 8]), n(u64::MAX % 7696033));
    assert_eq!(group.challenge_from(&[]), n(0));
    assert_eq!(group.challenge_from(&[1, 0, 0, 0, 0, 0, 0, 0, 0]), n((u64::MAX % 7696033 + 1) % 7696033));
    assert!(group.has_positive_moduli());
    assert!(!ChaumPedersen::new(n(0), n(11), n(4), n(9)).has_positive_moduli());
    assert!(!ChaumPedersen::new(n(23), n(0), n(4), n(9)).has_positive_moduli());
}

#[test]
fn honest_answers_are_accepted() {
    let group = large_group();
    for password in ["", "password", "pässword", "correct horse battery staple"] {
        let (y1, y2) = group.register(password);
        for _ in 0..8 {
            let (k, r1, r2) = group.commit();
            let c = group.challenge();
            let s = group.solve(password, &k, &c);
            assert!(group.verify(&y1, &y2, &r1, &r2, &c, &s));
        }
        for k in [0u64, 1, 7696032, 7696033, u64::MAX] {
            let (k, r1, r2) = group.commit_with(k);
            let c = group.challenge_from(&k.to_bytes_be());
            let s = group.solve(password, &k, &c);
            assert!(group.verify(&y1, &y2, &r1, &r2, &c, &s));
        }
    }
}

#[test]
fn honest_answers_are_accepted_on_the_curve() {
    let curve = ChaumPedersenK256::new(107211496160805127);
    for password in ["", "password", "pässword"] {
        let (y1, y2) = curve.register(password);
        for _ in 0..4 {
            let (k, r1, r2) = curve.commit();
            let c = curve.challenge();
            let s = curve.solve(password, &k, &c);
            assert!(curve.verify(&y1, &y2, &r1, &r2, &c, &s));
        }
        let (k, r1, r2) = curve.commit_with(0);
        let c = CurveScalar::from_u64(0).sub(&CurveScalar::from_u64(1));
        let s = curve.solve(password, &k, &c);
        assert!(curve.verify(&y1, &y2, &r1, &r2, &c, &s));
    }
}

#[test]
fn the_next_answer_is_refused() {
    let group = large_group();
    let (y1, y2) = group.register("password");
    let (k, r1, r2) = group.commit_with(9223918093844043694);
    let c = n(4051888);
    let s = group.solve("password", &k, &c);
    assert_eq!(s, n(9223918093840913154));
    assert!(group.verify(&y1, &y2, &r1, &r2, &c, &s));
    assert!(!group.verify(&y1, &y2, &r1, &r2, &c, &n(9223918093840913155)));

    let curve = ChaumPedersenK256::new(107211496160805127);
    let (y1, y2) = curve.register("password");
    let (k, r1, r2) = curve.commit_with(77);
    let c = CurveScalar::from_u64(1234567);
    let s = curve.solve("password", &k, &c);
    assert!(curve.verify(&y1, &y2, &r1, &r2, &c, &s));
    let next = CurveScalar::from_u64(0).sub(&CurveScalar::from_u64(0).sub(&s).sub(&CurveScalar::from_u64(1)));
    assert!(!curve.verify(&y1, &y2, &r1, &r2, &c, &next));
}

#[test]
fn challenges_come_from_the_whole_domain() {
    let wide = ChaumPedersen::new(
        BigNat::from_bytes_be(&[0xff; 40]),
        BigNat::from_bytes_be(&[0xff; 40]),
        n(2),
        n(3),
    );
    let mut beyond_64_bits = false;
    let mut all_the_same = true;
    let first = wide.challenge();
    for _ in 0..16 {
        let c = wide.challenge();
        assert!(c < BigNat::from_bytes_be(&[0xff; 40]));
        beyond_64_bits |= c > n(u64::MAX);
        all_the_same &= c == first;
    }
    assert!(beyond_64_bits);
    assert!(!all_the_same);

    let curve = ChaumPedersenK256::new(3);
    let mut beyond_64_bits = false;
    let mut all_the_same = true;
    let first = curve.challenge();
    for _ in 0..16 {
        let c = curve.challenge();
        assert!(CurveScalar::from_repr(&c.to_repr()).is_some());
        beyond_64_bits |= c.to_repr()[..24] != [0u8; 24];
        all_the_same &= c == first;
    }
    assert!(beyond_64_bits);
    assert!(!all_the_same);
    assert!(CurveScalar::random() != CurveScalar::random());
}

#[test]
fn arithmetic_on_numbers() {
    assert_eq!(n(4).modpow(&n(9), &n(23)), n(13));
    assert_eq!(n(4).modpow(&n(0), &n(23)), n(1));
    assert_eq!(n(4).modpow(&n(0), &n(1)), n(0));
    assert_eq!(n(0).modpow(&n(0), &n(7)), n(1));
    assert_eq!(n(u64::MAX).mul(&n(u64::MAX)).to_bytes_be(), vec![
        0xff, 0xff, 0xff, 0xff, 0xff, 0xff, 0xff, 0xfe, 0, 0, 0, 0, 0, 0, 0, 1
    ]);
    assert_eq!(n(u64::MAX).add(&n(1)).to_bytes_be(), vec![1, 0, 0, 0, 0, 0, 0, 0, 0]);
    assert_eq!(n(u64::MAX).add(&n(1)).sub(&n(2)), n(u64::MAX - 1));
    assert_eq!(n(5).sub(&n(5)), n(0));
    assert_eq!(n(39).rem(&n(23)), n(16));
    assert_eq!(n(39).rem(&n(40)), n(39));
    assert!(n(5).at_least(&n(5)));
    assert!(n(6).at_least(&n(5)));
    assert!(!n(5).at_least(&n(6)));
}

#[test]
fn numbers_and_their_bytes() {
    assert_eq!(BigNat::from_bytes_be(&[0, 0, 5]).to_bytes_be(), vec![5]);
    assert_eq!(BigNat::from_bytes_be(&[]).to_bytes_be(), vec![0]);
    assert_eq!(BigNat::from_bytes_be(&[]), n(0));
    assert_eq!(n(0x0102).to_bytes_be(), vec![1, 2]);
    assert_eq!(BigNat::from_bytes_be(&[1, 0, 0, 0, 0, 0, 0, 0, 0]) > n(u64::MAX), true);
    assert_eq!(n(7).clone(), n(7));
    assert!(n(7) != n(8));
    assert!(n(7) < n(8));
    assert!(n(8) >= n(8));
}

#[test]
fn scalars_and_their_bytes() {
    assert_eq!(CurveScalar::from_repr(&ORDER), None);
    assert_eq!(CurveScalar::from_repr(&[0xff; 32]), None);
    assert_eq!(CurveScalar::from_repr(&[1; 31]), None);
    assert_eq!(CurveScalar::from_repr(&[1; 33]), None);
    let mut below = ORDER;
    below[31] -= 1;
    let largest = CurveScalar::from_repr(&below).unwrap();
    assert_eq!(largest.to_repr(), below);
    assert_eq!(CurveScalar::from_u64(0).sub(&CurveScalar::from_u64(1)), largest);
    assert_eq!(largest.mul(&largest), CurveScalar::from_u64(1));
    assert_eq!(CurveScalar::from_u64(6).mul(&CurveScalar::from_u64(7)), CurveScalar::from_u64(42));
    assert_eq!(CurveScalar::from_u64(6).sub(&CurveScalar::from_u64(4)), CurveScalar::from_u64(2));
    let mut repr = [0u8; 32];
    repr[31] = 9;
    assert_eq!(CurveScalar::from_u64(9).to_repr(), repr);

    assert_eq!(CurveScalar::from_natural(&n(9)), Some(CurveScalar::from_u64(9)));
    assert_eq!(CurveScalar::from_natural(&BigNat::from_bytes_be(&below)), Some(largest));
    assert_eq!(CurveScalar::from_natural(&BigNat::from_bytes_be(&ORDER)), None);
    assert_eq!(CurveScalar::from_natural(&BigNat::from_bytes_be(&[1; 33])), None);
    assert_eq!(CurveScalar::from_natural(&BigNat::from_bytes_be(&[0; 40])), Some(CurveScalar::from_u64(0)));
}

#[test]
fn points_and_their_bytes() {
    let g = CurvePoint::generator();
    let bytes = g.to_bytes();
    assert_eq!(bytes[0], 2);
    assert_eq!(
        g.x(),
        [
            0x79, 0xbe, 0x66, 0x7e, 0xf9, 0xdc, 0xbb, 0xac, 0x55, 0xa0, 0x62, 0x95, 0xce, 0x87,
            0x0b, 0x07, 0x02, 0x9b, 0xfc, 0xdb, 0x2d, 0xce, 0x28, 0xd9, 0x59, 0xf2, 0x81, 0x5b,
            0x16, 0xf8, 0x17, 0x98,
        ]
    );
    assert_eq!(&bytes[1..], &g.x()[..]);
    assert!(!g.y_is_odd());
    assert_eq!(CurvePoint::decompress(&g.x(), false), Some(g));
    let mirrored = CurvePoint::decompress(&g.x(), true).unwrap();
    assert!(mirrored != g);
    assert!(mirrored.y_is_odd());
    assert_eq!(CurvePoint::decompress(&[0xff; 32], false), None);
    assert_eq!(CurvePoint::decompress(&g.x()[..31], false), None);

    assert_eq!(g.mul(&CurveScalar::from_u64(1)), g);
    let double = g.add(&g);
    assert_eq!(g.mul(&CurveScalar::from_u64(2)), double);
    assert!(double != g);
    let infinity = g.add(&mirrored);
    assert_eq!(infinity.to_bytes(), [0u8; 33]);
    assert_eq!(infinity, g.mul(&CurveScalar::from_u64(0)));
    assert_eq!(infinity.x(), [0u8; 32]);
    assert!(!infinity.y_is_odd());
    assert_eq!(infinity.add(&g), g);

    let wire = WirePoint::from_point(&double);
    assert_eq!(wire.x, double.x().to_vec());
    assert_eq!(wire.is_y_odd, double.y_is_odd());
    assert_eq!(CurvePoint::decompress(&wire.x, wire.is_y_odd), Some(double));
    let copy = wire.clone();
    assert_eq!((copy.x, copy.is_y_odd), (wire.x, wire.is_y_odd));
}

#[test]
fn second_generator_is_a_multiple_of_the_first() {
    let curve = ChaumPedersenK256::new(3);
    let g = CurvePoint::generator();
    let three = g.add(&g).add(&g);
    let (y1, y2) = curve.derive_public_key(&CurveScalar::from_u64(1));
    assert_eq!((y1, y2), (g, three));
    let (k, r1, r2) = curve.commit_with(2);
    assert_eq!(k, CurveScalar::from_u64(2));
    assert_eq!(r1, g.add(&g));
    assert_eq!(r2, three.add(&three));
    assert_eq!(
        curve.solve_with(&CurveScalar::from_u64(3), &CurveScalar::from_u64(20), &CurveScalar::from_u64(5)),
        CurveScalar::from_u64(5)
    );
}

#[test]
fn credential_store_by_itself() {
    let mut store = CredentialStore::new();
    assert!(!store.contains("alice"));
    assert_eq!(store.lookup("alice").err(), Some(AuthError::NotFound));
    assert_eq!(store.insert("alice", Credentials::Exp(n(1), n(2))), Ok(()));
    assert_eq!(store.insert("bob", Credentials::Exp(n(3), n(4))), Ok(()));
    assert_eq!(
        store.insert("alice", Credentials::Exp(n(5), n(6))),
        Err(AuthError::AlreadyExists)
    );
    assert!(store.contains("alice"));
    assert!(matches!(store.lookup("alice"), Ok(Credentials::Exp(a, b)) if *a == n(1) && *b == n(2)));
    assert!(matches!(store.lookup("bob"), Ok(Credentials::Exp(a, b)) if *a == n(3) && *b == n(4)));
    assert!(!store.contains("alic"));
    assert!(!store.contains(""));
}

#[test]
fn session_store_by_itself() {
    let mut store = SessionStore::new();
    assert_eq!(store.lookup(1).err(), Some(AuthError::NotFound));
    assert_eq!(store.mark_verified(1, 9), Err(AuthError::NotFound));
    assert_eq!(store.create_with(1, "alice", Credentials::Exp(n(1), n(2)), n(3)), Ok(()));
    assert_eq!(
        store.create_with(1, "bob", Credentials::Exp(n(4), n(5)), n(6)),
        Err(AuthError::Internal)
    );
    let token = store.create("bob", Credentials::Exp(n(4), n(5)), n(6)).unwrap();
    assert!(token != 1);
    assert_eq!(store.lookup(token).unwrap().user, "bob");
    assert_eq!(store.mark_verified(1, 9), Ok(()));
    let session = store.lookup(1).unwrap();
    assert_eq!(session.id, Some(9));
    assert_eq!(session.user, "alice");
    assert_eq!(session.c, n(3));
    assert!(matches!(&session.r, Credentials::Exp(a, b) if *a == n(1) && *b == n(2)));
    assert_eq!(store.mark_verified(1, 10), Ok(()));
    assert_eq!(store.lookup(1).unwrap().id, Some(10));
    assert_eq!(store.lookup(token).unwrap().id, None);
    let copy = store.lookup(1).unwrap().clone();
    assert_eq!((copy.id, copy.user.as_str()), (Some(10), "alice"));
}
