use ed25519_dalek::{Signer, SigningKey};
use server::auth::{auth_message, AuthError};
use server::chain::{ChainConfig, ChainError, SpaceAccess};
use server::limits::Limit;
use server::pubkey::Pubkey;
use server::realtime::clients::{Clients, UserDataPayload};
use server::realtime::handlers::{
    admit_update, authorize_update, begin_join, begin_request, begin_update, finish_join,
    finish_request, finish_update, on_auth, on_chat_message, on_connect, on_disconnect, on_goto,
    on_leave_space, on_move, on_set_user_data, presence_news, AdmittedUpdate,
};
use server::realtime::messages::{
    now_millis, space_room_name, AuthPayload, ChatMessageInput, GotoPayload, MovePayload,
    RoomAccess, RoomErrorCode, RoomProgramUpdatePayload,
};
use server::realtime::motion::{Measured, Point};
use server::realtime::rooms::{
    access_for, access_notice, needs_lookup, parse_room_id, RoomProgramRecord, RoomPrograms,
};
use server::realtime::validate::RoomProgramState;
use server::scalar::Scalar;

const SEC: u128 = 1_000_000_000;

fn f(x: f32) -> Scalar {
    Scalar::new(x.to_bits())
}

fn point(x: f32, y: f32, z: f32) -> Point {
    Point {
        x: f(x),
        y: f(y),
        z: f(z),
    }
}

fn list(v: &[f32]) -> Option<Vec<Scalar>> {
    Some(v.iter().map(|x| f(*x)).collect())
}

fn pk(n: u8) -> Pubkey {
    Pubkey { bytes: [n; 32] }
}

fn supply(total: u32) -> Result<ChainConfig, ChainError> {
    Ok(ChainConfig {
        total_spaces: total,
        minted_spaces: total,
    })
}

fn step(position: &[f32], seq: Option<u64>) -> Option<MovePayload> {
    Some(MovePayload {
        position: list(position),
        rotation: Some(f(1.5)),
        seq,
    })
}

fn named(nickname: &str, avatar: &str) -> Option<UserDataPayload> {
    Some(UserDataPayload {
        avatar: Some(avatar.to_string()),
        nickname: Some(nickname.to_string()),
        avatar_height_scale: None,
    })
}

fn joined(ids: &[&str], room: &str) -> Clients {
    let mut c = Clients::new();
    for id in ids {
        let _ = on_connect(&mut c, id, 0);
        assert!(begin_join(&mut c, id, 0, room).is_ok());
        assert!(finish_join(&mut c, id, 0, room, &supply(10)).is_ok());
    }
    c
}

fn sign_in(c: &mut Clients, id: &str, seed: u8, nonce: &str) -> Pubkey {
    let sk = SigningKey::from_bytes(&[seed; 32]);
    let wallet = Pubkey {
        bytes: sk.verifying_key().to_bytes(),
    };
    let signature = bs58::encode(sk.sign(auth_message(nonce).as_bytes()).to_bytes()).into_string();
    let reply = on_auth(
        c,
        id,
        0,
        Some(AuthPayload {
            pubkey: wallet.to_text(),
            signature,
        }),
    );
    assert!(reply.result.ok);
    wallet
}

#[test]
fn connecting_hands_out_a_nonce() {
    let mut c = Clients::new();
    let (a, n) = on_connect(&mut c, "a", 0);
    assert_eq!(n, 1);
    assert_eq!(a.message, format!("ekza-space:auth:{}", a.nonce));
    let (b, n) = on_connect(&mut c, "b", 0);
    assert_eq!(n, 2);
    assert_ne!(a.nonce, b.nonce);
    // A known connection keeps its nonce.
    let (again, n) = on_connect(&mut c, "a", 5);
    assert_eq!((again.nonce, n), (a.nonce, 2));
}

#[test]
fn a_proven_wallet_shows_and_the_nonce_is_spent() {
    let mut c = joined(&["a"], "3");
    let (hello, _) = on_connect(&mut c, "a", 0);
    let sk = SigningKey::from_bytes(&[7; 32]);
    let wallet = Pubkey {
        bytes: sk.verifying_key().to_bytes(),
    };
    let signature =
        bs58::encode(sk.sign(auth_message(&hello.nonce).as_bytes()).to_bytes()).into_string();
    let claim = || {
        Some(AuthPayload {
            pubkey: wallet.to_text(),
            signature: signature.clone(),
        })
    };
    let reply = on_auth(&mut c, "a", 0, claim());
    assert!(reply.result.ok);
    assert_eq!(reply.result.wallet, Some(wallet.to_text()));
    assert_eq!(reply.result.error, None);
    assert_eq!(reply.proven, Some((3, wallet)));
    assert_eq!(c.wallet_of("a"), Some(wallet));
    assert_eq!(
        presence_news(&c, "a").unwrap().user_data.wallet,
        Some(wallet.to_text())
    );
    // The same signature again: the nonce has changed.
    let reply = on_auth(&mut c, "a", 0, claim());
    assert!(!reply.result.ok);
    assert_eq!(reply.result.error, Some("invalid_signature"));
    assert_eq!(c.wallet_of("a"), Some(wallet));
}

#[test]
fn a_signature_is_of_no_use_on_another_connection() {
    let mut c = Clients::new();
    let (a, _) = on_connect(&mut c, "a", 0);
    let _ = on_connect(&mut c, "b", 0);
    let sk = SigningKey::from_bytes(&[7; 32]);
    let signature =
        bs58::encode(sk.sign(auth_message(&a.nonce).as_bytes()).to_bytes()).into_string();
    let reply = on_auth(
        &mut c,
        "b",
        0,
        Some(AuthPayload {
            pubkey: bs58::encode(sk.verifying_key().to_bytes()).into_string(),
            signature,
        }),
    );
    assert_eq!(reply.result.error, Some("invalid_signature"));
    assert_eq!(c.wallet_of("b"), None);
}

#[test]
fn bad_claims_are_told_apart() {
    let mut c = Clients::new();
    let _ = on_connect(&mut c, "a", 0);
    let reply = on_auth(&mut c, "a", 0, None);
    assert_eq!(reply.result.error, Some("bad_payload"));
    for _ in 0..4 {
        let _ = on_auth(&mut c, "a", 0, None);
    }
    let reply = on_auth(&mut c, "a", 0, None);
    assert_eq!(reply.result.error, Some("rate_limited"));
    // An unknown connection has no budget at all.
    let reply = on_auth(&mut c, "ghost", 0, None);
    assert_eq!(reply.result.error, Some("rate_limited"));
}

#[test]
fn accepting_a_claim_takes_the_outcome_and_the_next_nonce() {
    let mut c = Clients::new();
    let _ = c.insert_default("a", 0);
    assert_eq!(
        c.accept("ghost", Ok(pk(1)), "n".to_string()),
        Err(AuthError::Mismatch)
    );
    assert_eq!(
        c.accept("a", Err(AuthError::BadSignature), "n".to_string()),
        Err(AuthError::BadSignature)
    );
    assert_eq!(c.wallet_of("a"), None);
    assert_eq!(c.accept("a", Ok(pk(1)), "n".to_string()), Ok((pk(1), None)));
    assert_eq!(c.wallet_of("a"), Some(pk(1)));
    assert_eq!(c.insert_default("a", 0), "n");
    assert_eq!(
        c.authenticate("ghost", "x", "y"),
        Err(AuthError::Mismatch)
    );
    assert_eq!(c.authenticate("a", "x", "y"), Err(AuthError::BadPubkey));
}

#[test]
fn standing_changes_by_auth_alone() {
    let mut c = joined(&["a", "b"], "3");
    let (hello, _) = on_connect(&mut c, "a", 0);
    let wallet = sign_in(&mut c, "a", 4, &hello.nonce);
    let (nonce, _) = on_connect(&mut c, "a", 0);
    let _ = on_chat_message(&mut c, "a", 0, Some(ChatMessageInput::Text("hi".to_string())));
    let _ = on_set_user_data(&mut c, "a", 0, named("Ann", "x"));
    let _ = on_move(&mut c, "a", 0, 0, step(&[1.0, 0.0, 0.0], None));
    on_goto(&mut c, "a", 0, walk(&[2.0, 0.0, 0.0], None));
    assert_eq!(c.wallet_of("a"), Some(wallet));
    assert_eq!(c.room_of("a"), Some(3));
    assert_eq!(on_connect(&mut c, "a", 0).0.nonce, nonce.nonce);
    // Nobody else was touched.
    let b = presence_news(&c, "b").unwrap().user_data;
    assert_eq!((b.nickname.as_str(), b.wallet), ("", None));
    assert_eq!(b.position, point(0.0, 0.0, 0.0));
}

#[test]
fn room_ids_are_one_to_the_supply() {
    assert_eq!(parse_room_id(" 3 ", &supply(3)), Ok(3));
    assert_eq!(
        parse_room_id("4", &supply(3)),
        Err(RoomErrorCode::InvalidRoom)
    );
    for raw in ["0", "", "x", "-1", "4294967296"] {
        assert_eq!(
            parse_room_id(raw, &supply(u32::MAX)),
            Err(RoomErrorCode::InvalidRoom)
        );
    }
    assert_eq!(
        parse_room_id("1", &Err(ChainError::Malformed)),
        Err(RoomErrorCode::ChainUnavailable)
    );
    // The text is looked at before the chain.
    assert_eq!(
        parse_room_id("0", &Err(ChainError::Malformed)),
        Err(RoomErrorCode::InvalidRoom)
    );
}

#[test]
fn joining_moves_a_client_and_shows_who_is_there() {
    let mut c = joined(&["a", "b"], "3");
    let _ = on_set_user_data(&mut c, "a", 0, named("Ann", ""));
    assert!(begin_join(&mut c, "a", 0, "4").is_ok());
    let j = finish_join(&mut c, "a", 0, "4", &supply(10)).unwrap();
    assert_eq!(j.room_id, 4);
    assert_eq!(j.left, Some(3));
    assert_eq!(j.present.len(), 1);
    assert_eq!(j.present[0].0, "a");
    assert_eq!(j.news.unwrap().user_data.nickname, "Ann");
    assert_eq!(c.room_of("a"), Some(4));
    assert_eq!(c.room_of("b"), Some(3));
    // Joining the same room again leaves nothing.
    let j = finish_join(&mut c, "b", 0, "3", &supply(10)).unwrap();
    assert_eq!(j.left, None);
    assert!(j.news.is_none());
}

#[test]
fn refused_joins_say_why() {
    let mut c = Clients::new();
    let _ = on_connect(&mut c, "a", 0);
    let r = begin_join(&mut c, "a", 0, "zero").unwrap_err();
    assert_eq!((r.room_id.as_str(), r.code), ("zero", RoomErrorCode::InvalidRoom));
    assert!(r.detail.is_none());
    let r = finish_join(&mut c, "a", 0, "11", &supply(10)).unwrap_err();
    assert_eq!((r.room_id.as_str(), r.code), ("11", RoomErrorCode::InvalidRoom));
    let r = finish_join(&mut c, "a", 0, "1", &Err(ChainError::NotFound)).unwrap_err();
    assert_eq!(r.code, RoomErrorCode::ChainUnavailable);
    assert_eq!(c.room_of("a"), None);
    for _ in 0..9 {
        let _ = begin_join(&mut c, "a", 0, "1");
    }
    let r = begin_join(&mut c, "a", 0, "1").unwrap_err();
    assert_eq!(r.code, RoomErrorCode::RateLimited);
}

#[test]
fn leaving_needs_the_right_room() {
    let mut c = joined(&["a"], "3");
    assert_eq!(on_leave_space(&mut c, "a", "4"), None);
    assert_eq!(on_leave_space(&mut c, "a", "x"), None);
    assert_eq!(on_leave_space(&mut c, "ghost", "3"), None);
    assert_eq!(on_leave_space(&mut c, "a", " 3 "), Some(3));
    assert_eq!(c.room_of("a"), None);
    assert_eq!(on_leave_space(&mut c, "a", "3"), None);
}

#[test]
fn disconnecting_forgets_a_client() {
    let mut c = joined(&["a", "b"], "3");
    assert_eq!(on_disconnect(&mut c, "a"), (Some(3), 1));
    assert_eq!(on_disconnect(&mut c, "a"), (None, 1));
    assert_eq!(c.room_of("a"), None);
}

#[test]
fn user_data_is_trimmed_cut_and_clamped() {
    let mut c = joined(&["a"], "3");
    let data = UserDataPayload {
        avatar: Some("v".repeat(600)),
        nickname: Some(format!("  {}  ", "я".repeat(40))),
        avatar_height_scale: Some(f(9.0)),
    };
    let (room, news) = on_set_user_data(&mut c, "a", 0, Some(data)).unwrap();
    assert_eq!(room, 3);
    assert_eq!(news.id, "a");
    assert_eq!(news.user_data.avatar.chars().count(), 512);
    assert_eq!(news.user_data.nickname, "я".repeat(32));
    assert_eq!(news.user_data.avatar_height_scale, Some(f(2.0)));
    let data = UserDataPayload {
        avatar: None,
        nickname: None,
        avatar_height_scale: Some(f(0.1)),
    };
    let (_, news) = on_set_user_data(&mut c, "a", 0, Some(data)).unwrap();
    assert_eq!(news.user_data.avatar, "");
    assert_eq!(news.user_data.avatar_height_scale, Some(f(0.5)));
    let data = UserDataPayload {
        avatar: None,
        nickname: None,
        avatar_height_scale: Some(f(f32::NAN)),
    };
    let (_, news) = on_set_user_data(&mut c, "a", 0, Some(data)).unwrap();
    assert_eq!(news.user_data.avatar_height_scale, None);
    // Three in a burst.
    assert!(on_set_user_data(&mut c, "a", 0, named("x", "y")).is_none());
    assert!(on_set_user_data(&mut c, "a", 10 * SEC, named("x", "y")).is_some());
    assert!(on_set_user_data(&mut c, "a", 100 * SEC, None).is_none());
}

#[test]
fn chat_is_heard_in_the_room() {
    let mut c = joined(&["a"], "3");
    let _ = on_set_user_data(&mut c, "a", 0, named("Ann", ""));
    let (room, line) = on_chat_message(
        &mut c,
        "a",
        0,
        Some(ChatMessageInput::Text(format!(" {} ", "m".repeat(600)))),
    )
    .unwrap();
    assert_eq!(room, 3);
    assert_eq!(line.message, "m".repeat(500));
    assert_eq!((line.id.as_str(), line.nickname.as_str()), ("a", "Ann"));
    assert_eq!(line.wallet, None);
    let object = ChatMessageInput::Object {
        message: "hi".to_string(),
        nickname: Some("Mallory".to_string()),
    };
    let (_, line) = on_chat_message(&mut c, "a", 0, Some(object)).unwrap();
    assert_eq!((line.nickname.as_str(), line.message.as_str()), ("Ann", "hi"));
}

#[test]
fn empty_or_homeless_chat_is_not_heard() {
    let mut c = joined(&["a"], "3");
    let blank = || Some(ChatMessageInput::Text("  ".to_string()));
    let words = || Some(ChatMessageInput::Text("hi".to_string()));
    assert!(on_chat_message(&mut c, "a", 0, None).is_none());
    assert!(on_chat_message(&mut c, "a", 0, blank()).is_none());
    // The blank line cost a token: four are left.
    for _ in 0..4 {
        assert!(on_chat_message(&mut c, "a", 0, words()).is_some());
    }
    assert!(on_chat_message(&mut c, "a", 0, words()).is_none());
    assert!(on_chat_message(&mut c, "a", 2 * SEC, words()).is_some());
    let _ = on_connect(&mut c, "b", 0);
    assert!(on_chat_message(&mut c, "b", 0, words()).is_none());
    assert!(on_chat_message(&mut c, "ghost", 0, words()).is_none());
}

#[test]
fn moves_carry_presence_and_numbers() {
    let mut c = joined(&["a"], "3");
    let _ = on_set_user_data(
        &mut c,
        "a",
        0,
        Some(UserDataPayload {
            avatar: Some("av".to_string()),
            nickname: Some("Ann".to_string()),
            avatar_height_scale: Some(f(1.25)),
        }),
    );
    let (room, m) = on_move(&mut c, "a", 0, 99, step(&[1.0, 2.0, 3.0], Some(5))).unwrap();
    assert_eq!(room, 3);
    assert_eq!(m.position, point(1.0, 2.0, 3.0));
    assert_eq!(m.rotation, f(1.5));
    assert_eq!((m.avatar.as_str(), m.nickname.as_str()), ("av", "Ann"));
    assert_eq!(m.avatar_height_scale, Some(f(1.25)));
    assert_eq!((m.server_seq, m.server_time, m.client_seq), (1, 99, Some(5)));
    // Stale numbers are dropped; unnumbered moves count.
    assert!(on_move(&mut c, "a", 0, 0, step(&[0.0, 0.0, 0.0], Some(5))).is_none());
    assert!(on_move(&mut c, "a", 0, 0, step(&[0.0, 0.0, 0.0], Some(4))).is_none());
    let (_, m) = on_move(&mut c, "a", 0, 0, step(&[0.0, 0.0, 0.0], None)).unwrap();
    assert_eq!((m.server_seq, m.client_seq), (2, None));
    let (_, m) = on_move(&mut c, "a", 0, 0, step(&[0.0, 0.0, 0.0], Some(6))).unwrap();
    assert_eq!(m.server_seq, 3);
}

#[test]
fn moves_stay_in_the_world() {
    let mut c = joined(&["a"], "3");
    for p in [
        [2_000.0f32, 500.0, -2_000.0],
        [-2_000.0, -500.0, 2_000.0],
    ] {
        assert!(on_move(&mut c, "a", 0, 0, step(&p, None)).is_some());
    }
    for p in [
        [2_000.1f32, 0.0, 0.0],
        [0.0, 500.1, 0.0],
        [0.0, 0.0, -2_001.0],
        [f32::NAN, 0.0, 0.0],
        [0.0, f32::INFINITY, 0.0],
    ] {
        assert!(on_move(&mut c, "a", 0, 0, step(&p, None)).is_none());
    }
    assert!(on_move(&mut c, "a", 0, 0, step(&[0.0, 0.0], None)).is_none());
    assert!(on_move(&mut c, "a", 0, 0, None).is_none());
    let spin = MovePayload {
        position: list(&[0.0, 0.0, 0.0]),
        rotation: Some(f(f32::INFINITY)),
        seq: None,
    };
    assert!(on_move(&mut c, "a", 0, 0, Some(spin)).is_none());
    let still = MovePayload {
        position: list(&[0.0, 0.0, 0.0]),
        rotation: None,
        seq: None,
    };
    assert_eq!(
        on_move(&mut c, "a", 0, 0, Some(still)).unwrap().1.rotation,
        f(0.0)
    );
    // Outside a room nobody moves.
    let _ = on_connect(&mut c, "b", 0);
    assert!(on_move(&mut c, "b", 0, 0, step(&[0.0, 0.0, 0.0], None)).is_none());
}

fn walk(position: &[f32], speed: Option<f32>) -> Option<GotoPayload> {
    Some(GotoPayload {
        position: list(position),
        speed: speed.map(f),
        rotation: None,
    })
}

#[test]
fn walks_are_measured_and_end() {
    let mut c = joined(&["a"], "3");
    on_goto(&mut c, "a", 0, walk(&[10.0, 0.0, 0.0], Some(100.0)));
    let w = c.walkers();
    assert_eq!(w.len(), 1);
    assert_eq!(w[0].id, "a");
    assert_eq!(w[0].from, point(0.0, 0.0, 0.0));
    assert_eq!(w[0].motion.target, point(10.0, 0.0, 0.0));
    assert_eq!(w[0].motion.speed, f(50.0));

    let half = Measured {
        dist: f(10.0),
        step: f(2.5),
        between: point(2.5, 0.0, 0.0),
    };
    let news = c.tick_motions(&vec![("a".to_string(), half)], 77);
    assert_eq!(news.len(), 1);
    assert_eq!(news[0].0, 3);
    assert_eq!(news[0].1.position, point(2.5, 0.0, 0.0));
    assert_eq!(
        (news[0].1.server_seq, news[0].1.server_time, news[0].1.client_seq),
        (1, 77, None)
    );
    assert_eq!(c.walkers()[0].from, point(2.5, 0.0, 0.0));

    let last = Measured {
        dist: f(2.0),
        step: f(2.5),
        between: point(99.0, 0.0, 0.0),
    };
    let news = c.tick_motions(&vec![("a".to_string(), last), ("x".to_string(), last)], 78);
    assert_eq!(news.len(), 1);
    assert_eq!(news[0].1.position, point(10.0, 0.0, 0.0));
    assert!(c.walkers().is_empty());
    assert!(c
        .tick_motions(&vec![("a".to_string(), last)], 79)
        .is_empty());
}

#[test]
fn walks_have_a_default_and_a_lowest_speed() {
    let mut c = joined(&["a"], "3");
    on_goto(&mut c, "a", 0, walk(&[1.0, 0.0, 0.0], None));
    assert_eq!(c.walkers()[0].motion.speed, f(3.0));
    on_goto(&mut c, "a", 0, walk(&[1.0, 0.0, 0.0], Some(-4.0)));
    assert_eq!(c.walkers()[0].motion.speed, f(0.1));
    // A step that leads nowhere, or a target within reach, ends the walk.
    for (dist, length) in [(9.0f32, 1e-7f32), (1e-5, 0.5), (0.4, 0.5)] {
        on_goto(&mut c, "a", 0, walk(&[1.0, 0.0, 0.0], None));
        let m = Measured {
            dist: f(dist),
            step: f(length),
            between: point(0.5, 0.0, 0.0),
        };
        let _ = c.tick_motions(&vec![("a".to_string(), m)], 0);
        assert!(c.walkers().is_empty());
    }
}

#[test]
fn walks_need_a_room_and_a_place_in_the_world() {
    let mut c = joined(&["a"], "3");
    on_goto(&mut c, "a", 0, walk(&[3_000.0, 0.0, 0.0], None));
    on_goto(&mut c, "a", 0, None);
    assert!(c.walkers().is_empty());
    let _ = on_connect(&mut c, "b", 0);
    on_goto(&mut c, "b", 0, walk(&[1.0, 0.0, 0.0], None));
    assert!(c.walkers().is_empty());
    // A move of one's own and leaving the room end a walk.
    on_goto(&mut c, "a", 0, walk(&[1.0, 0.0, 0.0], None));
    assert!(on_move(&mut c, "a", 0, 0, step(&[0.0, 0.0, 0.0], None)).is_some());
    assert!(c.walkers().is_empty());
    on_goto(&mut c, "a", 0, walk(&[1.0, 0.0, 0.0], None));
    assert_eq!(on_leave_space(&mut c, "a", "3"), Some(3));
    assert!(c.walkers().is_empty());
}

#[test]
fn budgets_belong_to_connections() {
    let mut c = joined(&["a", "b"], "3");
    while c.allow("a", Limit::Chat, 0) {}
    assert!(!c.allow("a", Limit::Chat, 0));
    assert!(c.allow("b", Limit::Chat, 0));
    assert!(!c.allow("ghost", Limit::Chat, 0));
}

#[test]
fn reading_needs_to_have_joined() {
    let mut c = joined(&["a"], "3");
    assert!(begin_request(&mut c, "a", 0, "3").unwrap().is_ok());
    assert_eq!(finish_request(&c, "a", "3", &supply(10)).unwrap(), 3);
    let r = finish_request(&c, "a", " 4", &supply(10)).unwrap_err();
    assert_eq!((r.room_id.as_str(), r.code), ("4", RoomErrorCode::Forbidden));
    assert_eq!(r.detail.as_deref(), Some("join the space first"));
    let r = finish_request(&c, "a", "x", &supply(10)).unwrap_err();
    assert_eq!((r.room_id.as_str(), r.code), ("x", RoomErrorCode::InvalidRoom));
    let r = begin_request(&mut c, "a", 0, "no").unwrap().unwrap_err();
    assert_eq!(r.code, RoomErrorCode::InvalidRoom);
    while begin_request(&mut c, "a", 0, "3").is_some() {}
    assert!(begin_request(&mut c, "ghost", 0, "3").is_none());
}

fn update(room: &str, revision: Option<u64>) -> RoomProgramUpdatePayload {
    RoomProgramUpdatePayload {
        room_id: room.to_string(),
        state: RoomProgramState::empty(0),
        server_revision: revision,
    }
}

fn editor() -> Result<RoomAccess, RoomErrorCode> {
    Ok(RoomAccess {
        can_edit: true,
        holder: None,
        is_open: true,
        minted: true,
    })
}

#[test]
fn updates_are_admitted_step_by_step() {
    let r = begin_update(None).unwrap_err();
    assert_eq!((r.room_id.as_str(), r.code), ("?", RoomErrorCode::InvalidState));
    assert_eq!(r.detail.as_deref(), Some("malformed payload"));
    let r = begin_update(Some(update("zero", None))).unwrap_err();
    assert_eq!((r.room_id.as_str(), r.code), ("zero", RoomErrorCode::InvalidRoom));

    let mut c = joined(&["a"], "3");
    let request = begin_update(Some(update("4", None))).unwrap();
    let r = admit_update(&mut c, "a", 0, request, &supply(10)).unwrap_err();
    assert_eq!((r.room_id.as_str(), r.code), ("4", RoomErrorCode::Forbidden));

    let r = admit_update(&mut c, "a", 0, update("3", None), &supply(10)).unwrap_err();
    assert_eq!((r.room_id.as_str(), r.code), ("3", RoomErrorCode::AuthRequired));

    let (hello, _) = on_connect(&mut c, "a", 0);
    let wallet = sign_in(&mut c, "a", 9, &hello.nonce);
    let ok = admit_update(&mut c, "a", 0, update("3", Some(6)), &supply(10)).unwrap();
    assert_eq!((ok.room_id, ok.wallet, ok.expected_revision), (3, wallet, 6));
    let ok = admit_update(&mut c, "a", 0, update("3", None), &supply(10)).unwrap();
    assert_eq!(ok.expected_revision, 0);

    // Three tokens are spent; seven more, and the budget is empty.
    for _ in 0..7 {
        assert!(admit_update(&mut c, "a", 0, update("3", None), &supply(10)).is_ok());
    }
    let r = admit_update(&mut c, "a", 0, update("3", None), &supply(10)).unwrap_err();
    assert_eq!((r.room_id.as_str(), r.code), ("3", RoomErrorCode::RateLimited));
}

#[test]
fn updates_are_authorized_by_access_and_layout() {
    let mut u = AdmittedUpdate {
        room_id: 3,
        wallet: pk(1),
        state: RoomProgramState::empty(0),
        expected_revision: 0,
    };
    assert!(authorize_update(&u, editor()).is_ok());
    let guest = RoomAccess {
        can_edit: false,
        holder: None,
        is_open: true,
        minted: true,
    };
    assert_eq!(
        authorize_update(&u, Ok(guest)).unwrap_err().code,
        RoomErrorCode::Forbidden
    );
    assert_eq!(
        authorize_update(&u, Err(RoomErrorCode::ChainUnavailable))
            .unwrap_err()
            .code,
        RoomErrorCode::ChainUnavailable
    );
    u.state.version = 9;
    let r = authorize_update(&u, editor()).unwrap_err();
    assert_eq!(r.code, RoomErrorCode::InvalidState);
    assert_eq!(r.detail.as_deref(), Some("unsupported state version 9"));
}

#[test]
fn a_written_layout_is_told_to_everyone() {
    let mut rooms = RoomPrograms::new();
    assert!(rooms.get(3).is_none());
    let fresh = rooms.load(3, None, 11);
    assert_eq!((fresh.revision, fresh.state.updated_at), (0, 11));
    let mut state = RoomProgramState::empty(0);
    state.environment_id = "studio-grid".to_string();
    let next = rooms.prepare(3, 0, state, &pk(1), 50).unwrap();
    assert_eq!(next.revision, 1);
    assert_eq!(next.state.updated_at, 50);
    assert_eq!(next.updated_at_ms, 50);
    assert_eq!(next.updated_by, Some(pk(1).to_text()));
    // Nothing has changed yet.
    assert_eq!(rooms.get(3).unwrap().revision, 0);
    let news = finish_update(3, "a", rooms.settle(3, next, true), 60);
    assert!(news.to_everyone);
    assert_eq!(news.news.room_id, "3");
    assert_eq!(news.news.server_revision, 1);
    assert_eq!(news.news.server_time, 60);
    assert_eq!(news.news.source_client_id.as_deref(), Some("a"));
    assert_eq!(news.news.rejected, None);
    assert_eq!(news.news.state.environment_id, "studio-grid");
    assert_eq!(rooms.get(3).unwrap().revision, 1);
}

#[test]
fn the_second_of_two_writers_is_refused() {
    let mut rooms = RoomPrograms::new();
    let _ = rooms.load(3, None, 0);
    let first = rooms
        .prepare(3, 0, RoomProgramState::empty(0), &pk(1), 1)
        .unwrap();
    assert!(rooms.settle(3, first, true).is_ok());
    let stale = rooms.prepare(3, 0, RoomProgramState::empty(0), &pk(2), 2);
    let news = finish_update(3, "b", stale, 3);
    assert!(!news.to_everyone);
    assert_eq!(news.news.rejected, Some(RoomErrorCode::StaleRevision));
    assert_eq!(news.news.server_revision, 1);
    assert_eq!(news.news.source_client_id, None);
}

#[test]
fn a_failed_write_changes_nothing() {
    let mut rooms = RoomPrograms::new();
    let _ = rooms.load(3, None, 0);
    let next = rooms
        .prepare(3, 0, RoomProgramState::empty(0), &pk(1), 1)
        .unwrap();
    let news = finish_update(3, "a", rooms.settle(3, next, false), 3);
    assert!(!news.to_everyone);
    assert_eq!(news.news.rejected, Some(RoomErrorCode::StorageFailed));
    assert_eq!(news.news.server_revision, 0);
    assert_eq!(rooms.get(3).unwrap().revision, 0);
}

#[test]
fn rooms_are_loaded_once() {
    let mut rooms = RoomPrograms::new();
    let stored = RoomProgramRecord {
        state: RoomProgramState::empty(5),
        revision: 8,
        updated_by: Some("w".to_string()),
        updated_at_ms: 5,
    };
    assert_eq!(rooms.load(2, Some(stored), 9).revision, 8);
    // What is known by now stays.
    assert_eq!(rooms.load(2, None, 10).revision, 8);
    assert!(rooms
        .prepare(2, u64::MAX, RoomProgramState::empty(0), &pk(1), 1)
        .is_err());
}

fn space(holder: Option<Pubkey>) -> SpaceAccess {
    SpaceAccess {
        space_id: 3,
        mint: pk(9),
        recorded_owner: pk(1),
        holder,
        editors: vec![pk(2)],
        is_open: false,
    }
}

#[test]
fn access_follows_the_chain() {
    let moderators = vec![pk(8)];
    assert!(!needs_lookup(&moderators, &pk(8)));
    assert!(needs_lookup(&moderators, &pk(1)));

    let a = access_for(&moderators, &pk(8), Err(ChainError::Malformed)).unwrap();
    assert!(a.can_edit && a.is_open && a.minted);
    assert_eq!(a.holder, None);

    let a = access_for(&moderators, &pk(2), Ok(space(Some(pk(1))))).unwrap();
    assert!(a.can_edit && !a.is_open && a.minted);
    assert_eq!(a.holder, Some(pk(1).to_text()));

    let a = access_for(&moderators, &pk(2), Ok(space(Some(pk(5))))).unwrap();
    assert!(!a.can_edit);

    let a = access_for(&moderators, &pk(1), Err(ChainError::NotFound)).unwrap();
    assert!(!a.can_edit && a.is_open && !a.minted);

    assert_eq!(
        access_for(&moderators, &pk(1), Err(ChainError::Rpc("x".to_string())))
            .err()
            .unwrap(),
        RoomErrorCode::ChainUnavailable
    );
}

#[test]
fn access_is_told_as_it_is() {
    let n = access_notice(3, None).unwrap();
    assert_eq!(n.room_id, "3");
    assert!(!n.access.can_edit && n.access.is_open && n.access.minted);
    let n = access_notice(3, Some(editor())).unwrap();
    assert!(n.access.can_edit);
    let r = access_notice(3, Some(Err(RoomErrorCode::ChainUnavailable))).unwrap_err();
    assert_eq!((r.room_id.as_str(), r.code), ("3", RoomErrorCode::ChainUnavailable));
}

#[test]
fn codes_and_names_are_written_out() {
    let codes = [
        (RoomErrorCode::InvalidRoom, "invalid_room"),
        (RoomErrorCode::ChainUnavailable, "chain_unavailable"),
        (RoomErrorCode::AuthRequired, "auth_required"),
        (RoomErrorCode::Forbidden, "forbidden"),
        (RoomErrorCode::StaleRevision, "stale_revision"),
        (RoomErrorCode::InvalidState, "invalid_state"),
        (RoomErrorCode::RateLimited, "rate_limited"),
        (RoomErrorCode::StorageFailed, "storage_failed"),
    ];
    for (code, name) in codes {
        assert_eq!(code.name(), name);
    }
    assert_eq!(space_room_name(12), "space:12");
    assert_ne!(space_room_name(1), space_room_name(11));
    assert_eq!(now_millis(Some(5)), 5);
    assert_eq!(now_millis(Some(u128::MAX)), u64::MAX);
    assert_eq!(now_millis(None), 0);
}

#[test]
fn numbers_compare_like_singles() {
    let values = [
        0.0f32,
        -0.0,
        1.0,
        -1.0,
        1e-45,
        -1e-45,
        1.17e-38,
        3.4e38,
        f32::INFINITY,
        f32::NEG_INFINITY,
        f32::NAN,
        0.1,
        50.0,
    ];
    for a in values {
        assert_eq!(f(a).is_finite(), a.is_finite());
        assert_eq!(f(a).is_nan(), a.is_nan());
        for b in values {
            assert_eq!(f(a).at_most(f(b)), a <= b);
            assert_eq!(f(a).below(f(b)), a < b);
        }
        let c = a.clamp(0.1, 50.0);
        assert_eq!(f(a).clamp(f(0.1), f(50.0)).bits, c.to_bits());
        assert_eq!(f(a).within(f(50.0)), a.is_finite() && a.abs() <= 50.0);
    }
}
