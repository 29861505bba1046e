use uuid::Uuid;
use zkp_auth::AuthError;
use zkp_auth::BigNat;
use zkp_auth::ChaumPedersen;
use zkp_auth::ChaumPedersenK256;
use zkp_auth::Credentials;
use zkp_auth::CurveScalar;
use zkp_auth::ErrorKind;
use zkp_auth::WirePoint;
use zkp_auth::API;

const H_OFFSET: u64 = 107211496160805127;
const TOKEN: u128 = 0xa1a2a3a4_b1b2_c1c2_d1d2_d3d4d5d6d7d8;
const SESSION_ID: u128 = 0x00112233_4455_6677_8899_aabbccddeeff;

fn engine() -> ChaumPedersen {
    ChaumPedersen::new(
        BigNat::from_u64(363967321904221003u64),
        BigNat::from_u64(7696033u64),
        BigNat::from_u64(165950041202038920u64),
        BigNat::from_u64(96429580695728554u64),
    )
}

fn service() -> API {
    API::new(engine(), ChaumPedersenK256::new(H_OFFSET))
}

fn exp_key(password: &str) -> (Vec<u8>, Vec<u8>) {
    let (y1, y2) = engine().register(password);
    (y1.to_bytes_be(), y2.to_bytes_be())
}

fn curve_key(password: &str) -> (Option<WirePoint>, Option<WirePoint>) {
    let (y1, y2) = ChaumPedersenK256::new(H_OFFSET).register(password);
    (Some(WirePoint::from_point(&y1)), Some(WirePoint::from_point(&y2)))
}

#[test]
fn register_then_register_again_is_refused() {
    let mut api = service();
    let (y1, y2) = exp_key("password");
    assert_eq!(api.register("alice", &y1, &y2), Ok(()));
    assert_eq!(api.register("alice", &[1], &[2]), Err(AuthError::AlreadyExists));
    match api.public_key("alice") {
        Ok(Credentials::Exp(a, b)) => {
            assert_eq!(a, BigNat::from_u64(180020373440730202u64));
            assert_eq!(b, BigNat::from_u64(138713557362284185u64));
        }
        other => panic!("unexpected {:?}", other),
    }
    let (point_a, point_b) = curve_key("password");
    assert_eq!(api.k256_register("alice", &point_a, &point_b), Err(AuthError::AlreadyExists));
    assert!(matches!(api.public_key("alice"), Ok(Credentials::Exp(_, _))));
}

#[test]
fn unknown_user_gets_no_challenge() {
    let mut api = service();
    assert_eq!(
        api.create_authentication_challenge("nobody", &[1], &[2]),
        Err(AuthError::NotFound)
    );
    assert_eq!(
        api.create_authentication_challenge_with("nobody", &[1], &[2], TOKEN, BigNat::from_u64(7)),
        Err(AuthError::NotFound)
    );
    let (r1, r2) = curve_key("nonce");
    assert_eq!(
        api.k256_create_authentication_challenge("nobody", &r1, &r2),
        Err(AuthError::NotFound)
    );
    assert!(!api.is_registered("nobody"));
    assert_eq!(api.session(TOKEN).err(), Some(AuthError::NotFound));
}

#[test]
fn unknown_token_is_not_found() {
    let mut api = service();
    let (y1, y2) = exp_key("password");
    assert_eq!(api.register("alice", &y1, &y2), Ok(()));
    assert_eq!(
        api.verify_authentication_with(TOKEN, &[5], SESSION_ID),
        Err(AuthError::NotFound)
    );
    let text = Uuid::from_u128(TOKEN).to_string();
    assert_eq!(api.verify_authentication(&text, &[5]), Err(AuthError::NotFound));
    assert_eq!(api.try_verify_authentication(&text, &[5]), Some(Err(AuthError::NotFound)));
    let s = CurveScalar::from_u64(5).to_repr();
    assert_eq!(
        api.k256_verify_authentication_with(TOKEN, &s, SESSION_ID),
        Err(AuthError::NotFound)
    );
    assert_eq!(api.k256_verify_authentication(&text, &s), Err(AuthError::NotFound));
    assert_eq!(api.try_k256_verify_authentication(&text, &s), Some(Err(AuthError::NotFound)));
}

#[test]
fn malformed_token_text_is_told_apart() {
    let mut api = service();
    assert_eq!(api.try_verify_authentication("not a token", &[5]), None);
    let s = CurveScalar::from_u64(5).to_repr();
    assert_eq!(api.try_k256_verify_authentication("", &s), None);
    assert_eq!(
        api.try_k256_verify_authentication("", &[0xff; 32]),
        Some(Err(AuthError::Unauthenticated))
    );
    assert_eq!(
        api.k256_verify_authentication("not a token", &[1, 2]),
        Err(AuthError::Unauthenticated)
    );
}

#[test]
fn discrete_log_round_trip() {
    let mut api = service();
    let protocol = engine();
    let (y1, y2) = exp_key("password");
    assert_eq!(api.register("alice", &y1, &y2), Ok(()));

    let (k, r1, r2) = protocol.commit_with(9223918093844043694u64);
    assert_eq!(r1, BigNat::from_u64(254414293247193407u64));
    assert_eq!(r2, BigNat::from_u64(320950112331669597u64));
    let (auth_id, c) = api
        .create_authentication_challenge_with(
            "alice",
            &r1.to_bytes_be(),
            &r2.to_bytes_be(),
            TOKEN,
            BigNat::from_u64(4051888),
        )
        .unwrap();
    assert_eq!(auth_id, "a1a2a3a4-b1b2-c1c2-d1d2-d3d4d5d6d7d8");
    assert_eq!(c, BigNat::from_u64(4051888).to_bytes_be());
    let session = api.session(TOKEN).unwrap();
    assert_eq!(session.id, None);
    assert_eq!(session.user, "alice");
    assert_eq!(session.c, BigNat::from_u64(4051888));

    assert_eq!(
        api.verify_authentication_with(TOKEN, &BigNat::from_u64(1337).to_bytes_be(), SESSION_ID),
        Err(AuthError::Unauthenticated)
    );
    assert_eq!(api.session(TOKEN).unwrap().id, None);

    let s = protocol.solve("password", &k, &BigNat::from_bytes_be(&c));
    assert_eq!(s, BigNat::from_u64(9223918093840913154u64));
    assert_eq!(
        api.verify_authentication_with(TOKEN, &s.to_bytes_be(), SESSION_ID),
        Ok("00112233-4455-6677-8899-aabbccddeeff".to_string())
    );
    let session = api.session(TOKEN).unwrap();
    assert_eq!(session.id, Some(SESSION_ID));
    assert_eq!(session.c, BigNat::from_u64(4051888));
}

#[test]
fn discrete_log_round_trip_with_fresh_draws() {
    let mut api = service();
    let protocol = engine();
    let (y1, y2) = exp_key("secret");
    assert_eq!(api.register("bob", &y1, &y2), Ok(()));
    let (k, r1, r2) = protocol.commit();
    let (auth_id, c) = api
        .create_authentication_challenge("bob", &r1.to_bytes_be(), &r2.to_bytes_be())
        .unwrap();
    let token = Uuid::parse_str(&auth_id).unwrap().as_u128();
    assert!(BigNat::from_bytes_be(&c) < BigNat::from_u64(7696033));
    assert_eq!(api.session(token).unwrap().user, "bob");
    let wrong = protocol.solve("guess", &k, &BigNat::from_bytes_be(&c));
    assert_eq!(
        api.verify_authentication(&auth_id, &wrong.to_bytes_be()),
        Err(AuthError::Unauthenticated)
    );
    let s = protocol.solve("secret", &k, &BigNat::from_bytes_be(&c));
    let session_id = api.try_verify_authentication(&auth_id, &s.to_bytes_be()).unwrap().unwrap();
    let id = Uuid::parse_str(&session_id).unwrap().as_u128();
    assert_eq!(api.session(token).unwrap().id, Some(id));
}

#[test]
fn curve_round_trip() {
    let mut api = service();
    let protocol = ChaumPedersenK256::new(H_OFFSET);
    let (y1, y2) = curve_key("password");
    assert_eq!(api.k256_register("carol", &y1, &y2), Ok(()));

    let (k, r1, r2) = protocol.commit_with(424242);
    let r1 = Some(WirePoint::from_point(&r1));
    let r2 = Some(WirePoint::from_point(&r2));
    let (auth_id, c) = api
        .k256_create_authentication_challenge_with("carol", &r1, &r2, TOKEN, CurveScalar::from_u64(99))
        .unwrap();
    assert_eq!(auth_id, "a1a2a3a4-b1b2-c1c2-d1d2-d3d4d5d6d7d8");
    assert_eq!(c, CurveScalar::from_u64(99).to_repr().to_vec());
    assert_eq!(api.session(TOKEN).unwrap().c, BigNat::from_u64(99));

    let c = CurveScalar::from_repr(&c).unwrap();
    let wrong = protocol.solve("passwörd", &k, &c).to_repr();
    assert_eq!(
        api.k256_verify_authentication_with(TOKEN, &wrong, SESSION_ID),
        Err(AuthError::Unauthenticated)
    );
    let s = protocol.solve("password", &k, &c).to_repr();
    assert_eq!(
        api.k256_verify_authentication_with(TOKEN, &s, SESSION_ID),
        Ok("00112233-4455-6677-8899-aabbccddeeff".to_string())
    );
    assert_eq!(api.session(TOKEN).unwrap().id, Some(SESSION_ID));
}

#[test]
fn curve_round_trip_with_fresh_draws() {
    let mut api = service();
    let protocol = ChaumPedersenK256::new(H_OFFSET);
    let (y1, y2) = curve_key("secret");
    assert_eq!(api.k256_register("dave", &y1, &y2), Ok(()));
    let (k, r1, r2) = protocol.commit();
    let r1 = Some(WirePoint::from_point(&r1));
    let r2 = Some(WirePoint::from_point(&r2));
    let (auth_id, c) = api.k256_create_authentication_challenge("dave", &r1, &r2).unwrap();
    assert_eq!(c.len(), 32);
    let c = CurveScalar::from_repr(&c).unwrap();
    let s = protocol.solve("secret", &k, &c).to_repr();
    let session_id = api.k256_verify_authentication(&auth_id, &s).unwrap();
    let token = Uuid::parse_str(&auth_id).unwrap().as_u128();
    let id = Uuid::parse_str(&session_id).unwrap().as_u128();
    assert_eq!(api.session(token).unwrap().id, Some(id));
    let again = api.try_k256_verify_authentication(&auth_id, &s).unwrap().unwrap();
    let id = Uuid::parse_str(&again).unwrap().as_u128();
    assert_eq!(api.session(token).unwrap().id, Some(id));
}

#[test]
fn variants_do_not_mix() {
    let mut api = service();
    let (y1, y2) = exp_key("password");
    assert_eq!(api.register("alice", &y1, &y2), Ok(()));
    let (point_a, point_b) = curve_key("password");
    assert_eq!(api.k256_register("carol", &point_a, &point_b), Ok(()));

    let curve = ChaumPedersenK256::new(H_OFFSET);
    let (k, r1, r2) = curve.commit_with(5);
    let r1 = Some(WirePoint::from_point(&r1));
    let r2 = Some(WirePoint::from_point(&r2));
    api.k256_create_authentication_challenge_with("alice", &r1, &r2, 1, CurveScalar::from_u64(9))
        .unwrap();
    let s = curve.solve("password", &k, &CurveScalar::from_u64(9)).to_repr();
    assert_eq!(
        api.k256_verify_authentication_with(1, &s, SESSION_ID),
        Err(AuthError::ProtocolMismatch)
    );
    assert_eq!(
        api.verify_authentication_with(1, &s, SESSION_ID),
        Err(AuthError::ProtocolMismatch)
    );

    let group = engine();
    let (k, r1, r2) = group.commit_with(5);
    let c = api
        .create_authentication_challenge_with(
            "carol",
            &r1.to_bytes_be(),
            &r2.to_bytes_be(),
            2,
            BigNat::from_u64(9),
        )
        .unwrap()
        .1;
    let s = group.solve("password", &k, &BigNat::from_bytes_be(&c));
    assert_eq!(
        api.verify_authentication_with(2, &s.to_bytes_be(), SESSION_ID),
        Err(AuthError::ProtocolMismatch)
    );
    assert_eq!(
        api.k256_verify_authentication_with(2, &CurveScalar::from_u64(3).to_repr(), SESSION_ID),
        Err(AuthError::ProtocolMismatch)
    );
    assert_eq!(api.session(1).unwrap().id, None);
    assert_eq!(api.session(2).unwrap().id, None);
    assert_eq!(AuthError::ProtocolMismatch.kind(), ErrorKind::Unauthenticated);
}

#[test]
fn token_in_use_is_an_internal_failure() {
    let mut api = service();
    let (y1, y2) = exp_key("password");
    assert_eq!(api.register("alice", &y1, &y2), Ok(()));
    api.create_authentication_challenge_with("alice", &[9], &[8], TOKEN, BigNat::from_u64(7))
        .unwrap();
    assert_eq!(
        api.create_authentication_challenge_with("alice", &[1], &[2], TOKEN, BigNat::from_u64(3)),
        Err(AuthError::Internal)
    );
    let session = api.session(TOKEN).unwrap();
    assert_eq!(session.c, BigNat::from_u64(7));
    assert!(matches!(session.r, Credentials::Exp(ref a, ref b)
        if *a == BigNat::from_u64(9) && *b == BigNat::from_u64(8)));
    assert_eq!(AuthError::Internal.kind(), ErrorKind::Internal);
}

#[test]
fn points_that_are_missing_or_malformed() {
    let mut api = service();
    let (point_a, point_b) = curve_key("password");
    assert_eq!(api.k256_register("erin", &None, &point_b), Err(AuthError::MissingArgument));
    assert_eq!(api.k256_register("erin", &point_a, &None), Err(AuthError::MissingArgument));
    let off_curve = Some(WirePoint { x: vec![0xff; 32], is_y_odd: false });
    assert_eq!(api.k256_register("erin", &point_a, &off_curve), Err(AuthError::InvalidArgument));
    let short = Some(WirePoint { x: vec![1; 31], is_y_odd: true });
    assert_eq!(api.k256_register("erin", &short, &point_b), Err(AuthError::InvalidArgument));
    assert!(!api.is_registered("erin"));
    assert_eq!(
        api.k256_create_authentication_challenge("erin", &None, &None),
        Err(AuthError::MissingArgument)
    );
    assert_eq!(
        api.k256_create_authentication_challenge_with(
            "erin",
            &point_a,
            &off_curve,
            TOKEN,
            CurveScalar::from_u64(1),
        ),
        Err(AuthError::InvalidArgument)
    );
    assert_eq!(AuthError::MissingArgument.kind(), ErrorKind::InvalidArgument);
    assert_eq!(AuthError::InvalidArgument.kind(), ErrorKind::InvalidArgument);
}

#[test]
fn bytes_that_are_no_scalar_are_unauthenticated() {
    let mut api = service();
    assert_eq!(
        api.k256_verify_authentication_with(TOKEN, &[1, 2, 3], SESSION_ID),
        Err(AuthError::Unauthenticated)
    );
    assert_eq!(
        api.k256_verify_authentication_with(TOKEN, &[0xff; 32], SESSION_ID),
        Err(AuthError::Unauthenticated)
    );
    assert_eq!(AuthError::Unauthenticated.kind(), ErrorKind::Unauthenticated);
    assert_eq!(AuthError::NotFound.kind(), ErrorKind::NotFound);
    assert_eq!(AuthError::AlreadyExists.kind(), ErrorKind::AlreadyExists);
}

#[test]
fn many_users_and_many_sessions() {
    let mut api = service();
    let names: Vec<String> = (0..20).map(|i| format!("user-{}", i)).collect();
    for (i, name) in names.iter().enumerate() {
        let y = BigNat::from_u64(1000 + i as u64).to_bytes_be();
        assert_eq!(api.register(name, &y, &y), Ok(()));
    }
    let mut tokens = Vec::new();
    for (i, name) in names.iter().enumerate() {
        match api.public_key(name) {
            Ok(Credentials::Exp(a, _)) => assert_eq!(a, BigNat::from_u64(1000 + i as u64)),
            other => panic!("unexpected {:?}", other),
        }
        let (auth_id, _) = api.create_authentication_challenge(name, &[1], &[2]).unwrap();
        assert!(!tokens.contains(&auth_id));
        tokens.push(auth_id);
    }
    for (name, auth_id) in names.iter().zip(tokens.iter()) {
        let token = Uuid::parse_str(auth_id).unwrap().as_u128();
        assert_eq!(&api.session(token).unwrap().user, name);
    }
}
