//! Who is connected, where they are, and who proved to be whom.

use crate::auth::{self, AuthError};
use crate::laws::layouts;
use crate::laws::presence::{
    has_budget, is_kept_scale, lemma_kept_scale, lemma_world_bounds, others_stay, says, shows,
    tells_of,
};
use crate::laws::texts;
use crate::limits::{self, ClientLimits, Limit};
use crate::pubkey::{self, Pubkey};
use crate::realtime::clients::{
    self, ClientInfo, Clients, RecordView, UserDataPayload, Walker,
};
use crate::realtime::messages::{
    self, MoveBroadcast, RoomErrorBroadcast, RoomErrorCode,
};
use crate::realtime::motion::{self, Measured, Point};
use crate::scalar::Scalar;
use crate::text_map::TextMap;
use vstd::prelude::*;
use vstd::string::*;
use vstd::utf8::*;

verus! {

// ------------------------------------------------------------------------ rooms

/// Whoever is put into a room is there, and all else of it and of everyone else
/// stays; the room that it was in comes back, and its presence.
pub proof fn rooms_are_entered(
    c: &mut Clients,
    id: &str,
    room_id: u32,
    now: u128,
    r: (Option<u32>, ClientInfo),
    room: Option<u32>,
)
    requires
        call_ensures(Clients::set_room, (c, id, room_id, now), r),
        call_ensures(Clients::room_of, (&*final(c), id), room),
    ensures
        room == Some(room_id),
        others_stay(old(c)@, final(c)@, id@),
        old(c)@.contains_key(id@) ==> r.0 == old(c)@[id@].room_id && final(c)@[id@] == (
        RecordView { room_id: Some(room_id), ..old(c)@[id@] }),
        !old(c)@.contains_key(id@) ==> r.0 is None && final(c)@[id@].wallet is None
            && final(c)@[id@].motion is None && final(c)@[id@].info.nickname.len() == 0,
        shows(r.1, final(c)@[id@].info),
{
}

/// Whoever is in a room leaves it on the word of that very room, and stops walking;
/// on the word of any other nothing happens.
pub proof fn rooms_are_left(
    c: &mut Clients,
    id: &str,
    room_id: u32,
    r: Option<u32>,
    before: Option<u32>,
    after: Option<u32>,
)
    requires
        call_ensures(Clients::clear_room, (c, id, room_id), r),
        call_ensures(Clients::room_of, (&*old(c), id), before),
        call_ensures(Clients::room_of, (&*final(c), id), after),
    ensures
        others_stay(old(c)@, final(c)@, id@),
        before == Some(room_id) ==> r == Some(room_id) && after is None && final(c)@[id@] == (
        RecordView { room_id: None, motion: None, ..old(c)@[id@] }),
        before != Some(room_id) ==> r is None && final(c)@ == old(c)@,
{
}

/// What is asked of a client is what is known of it; of a stranger nothing is.
pub proof fn clients_are_known_by_id(
    c: &Clients,
    id: &str,
    room: Option<u32>,
    wallet: Option<Pubkey>,
    both: Option<(ClientInfo, Option<u32>)>,
    n: usize,
)
    requires
        call_ensures(Clients::room_of, (c, id), room),
        call_ensures(Clients::wallet_of, (c, id), wallet),
        call_ensures(Clients::get_with_room, (c, id), both),
        call_ensures(Clients::len, (c,), n),
    ensures
        c@.contains_key(id@) ==> room == c@[id@].room_id && wallet == c@[id@].wallet && (
        both matches Some((info, in_room)) && in_room == room && shows(info, c@[id@].info)),
        !c@.contains_key(id@) ==> room is None && wallet is None && both is None,
        n == c@.dom().len(),
{
}

/// There is nobody at first; who is added is counted once and, when removed,
/// forgotten.
pub proof fn clients_come_and_go(
    fresh: Clients,
    none: usize,
    c: &mut Clients,
    id: &str,
    now: u128,
    nonce: String,
    before: usize,
    after: usize,
    d: &mut Clients,
    r: Option<u32>,
    at_last: usize,
)
    requires
        call_ensures(Clients::new, (), fresh),
        call_ensures(Clients::len, (&fresh,), none),
        call_ensures(Clients::insert_default, (c, id, now), nonce),
        call_ensures(Clients::len, (&*old(c),), before),
        call_ensures(Clients::len, (&*final(c),), after),
        *old(d) == *final(c),
        call_ensures(Clients::remove, (d, id), r),
        call_ensures(Clients::len, (&*final(d),), at_last),
    ensures
        none == 0,
        final(c)@.contains_key(id@) && nonce@ == final(c)@[id@].nonce,
        others_stay(old(c)@, final(c)@, id@),
        old(c)@.contains_key(id@) ==> final(c)@[id@] == old(c)@[id@] && after == before,
        !old(c)@.contains_key(id@) ==> after == before + 1 && final(c)@[id@].room_id is None
            && final(c)@[id@].wallet is None && final(c)@[id@].motion is None,
        r == final(c)@[id@].room_id,
        !final(d)@.contains_key(id@),
        others_stay(old(c)@, final(d)@, id@),
        at_last == after - 1,
{
    assert(final(c)@.dom() =~= old(c)@.dom().insert(id@));
    assert(final(d)@.dom() =~= final(c)@.dom().remove(id@));
    assert(fresh@.dom() =~= Set::<Seq<char>>::empty());
}

/// The list of a room has everyone whose room it is, once, with its presence, and
/// nobody else.
pub proof fn rooms_list_those_in_them(
    c: &Clients,
    room_id: u32,
    r: Vec<(String, ClientInfo)>,
    id: Seq<char>,
)
    requires
        call_ensures(Clients::snapshot_room, (c, room_id), r),
    ensures
        c@.contains_key(id) && c@[id].room_id == Some(room_id) <==> exists|k: int|
            0 <= k < r@.len() && (#[trigger] r@[k]).0@ == id,
        forall|k: int|
            0 <= k < r@.len() ==> shows((#[trigger] r@[k]).1, c@[r@[k].0@].info),
        forall|k: int, l: int|
            0 <= k < l < r@.len() ==> (#[trigger] r@[k]).0@ != (#[trigger] r@[l]).0@,
{
    if c@.contains_key(id) && c@[id].room_id == Some(room_id) {
        assert(clients::room_in(c@, id) == Some(room_id));
    }
    if exists|k: int| 0 <= k < r@.len() && (#[trigger] r@[k]).0@ == id {
        let k = choose|k: int| 0 <= k < r@.len() && (#[trigger] r@[k]).0@ == id;
        assert(clients::room_in(c@, r@[k].0@) == Some(room_id));
    }
}

/// What user data says of a client is kept: the name without white space around it
/// and up to 32 characters, the avatar up to 512, and the height between a half
/// and two. Its place, wallet and room stay, and so does everyone else.
pub proof fn user_data_is_kept(
    c: &mut Clients,
    id: &str,
    data: UserDataPayload,
    now: u128,
    r: (ClientInfo, Option<u32>),
)
    requires
        call_ensures(Clients::update_user_data, (c, id, data, now), r),
    ensures
        final(c)@.contains_key(id@),
        others_stay(old(c)@, final(c)@, id@),
        shows(r.0, final(c)@[id@].info),
        r.1 == final(c)@[id@].room_id,
        data.nickname matches Some(name) ==> texts::is_shown(
            name@,
            32,
            final(c)@[id@].info.nickname,
        ),
        data.nickname is None ==> final(c)@[id@].info.nickname.len() == 0,
        data.avatar matches Some(look) ==> texts::is_head(look@, 512, final(c)@[id@].info.avatar),
        data.avatar is None ==> final(c)@[id@].info.avatar.len() == 0,
        is_kept_scale(data.avatar_height_scale, final(c)@[id@].info.avatar_height_scale),
        old(c)@.contains_key(id@) ==> {
            let was = old(c)@[id@];
            let now = final(c)@[id@];
            &&& now.room_id == was.room_id && now.wallet == was.wallet && now.motion == was.motion
            &&& now.nonce == was.nonce && now.limits == was.limits
            &&& now.info.position == was.info.position && now.info.rotation == was.info.rotation
            &&& now.info.wallet == was.info.wallet
            &&& now.server_move_seq == was.server_move_seq
            &&& now.last_client_move_seq == was.last_client_move_seq
        },
{
    lemma_kept_scale(data.avatar_height_scale);
    if let Some(name) = data.nickname {
        texts::lemma_shown(name@, 32);
    } else {
        texts::lemma_trimmed_is_core(Seq::<char>::empty());
    }
    if let Some(look) = data.avatar {
        texts::lemma_shown(look@, 512);
    }
}

// ---------------------------------------------------------------------- walking

/// A client in a room that reports a move above its last number is there and turned
/// so, walks no more, and has the next number of the server; what is told is just
/// that. Any other report changes nothing.
pub proof fn reported_moves_are_taken(
    c: &mut Clients,
    id: &str,
    position: Point,
    rotation: Scalar,
    client_seq: Option<u64>,
    r: Option<(ClientInfo, u32, u64)>,
)
    requires
        call_ensures(Clients::update_move, (c, id, position, rotation, client_seq), r),
    ensures
        others_stay(old(c)@, final(c)@, id@),
        r is Some <==> old(c)@.contains_key(id@) && old(c)@[id@].room_id is Some && (
        client_seq matches Some(n) ==> old(c)@[id@].last_client_move_seq < n),
        r is None ==> final(c)@ == old(c)@,
        r matches Some((info, room, seq)) ==> {
            let was = old(c)@[id@];
            let now = final(c)@[id@];
            &&& shows(info, now.info)
            &&& now.info.position == position && now.info.rotation == rotation
            &&& now.info.nickname == was.info.nickname && now.info.avatar == was.info.avatar
            &&& now.info.wallet == was.info.wallet && now.info.avatar_height_scale
                == was.info.avatar_height_scale
            &&& now.motion is None
            &&& Some(room) == was.room_id && now.room_id == was.room_id
            &&& seq == now.server_move_seq
            &&& was.server_move_seq < u64::MAX ==> seq == was.server_move_seq + 1
            &&& client_seq matches Some(n) ==> now.last_client_move_seq == n
            &&& client_seq is None ==> now.last_client_move_seq == was.last_client_move_seq
            &&& now.wallet == was.wallet && now.nonce == was.nonce && now.limits == was.limits
        },
{
}

/// A client in a room that is sent off walks to its target at its speed, turned as
/// told; nothing else of it changes, and one that is nowhere stays as it is.
pub proof fn walkers_are_sent_off(
    c: &mut Clients,
    id: &str,
    target: Point,
    speed: Scalar,
    rotation: Option<Scalar>,
    r: Option<u32>,
    room: Option<u32>,
)
    requires
        call_ensures(Clients::set_goto, (c, id, target, speed, rotation), r),
        call_ensures(Clients::room_of, (&*old(c), id), room),
    ensures
        r == room,
        others_stay(old(c)@, final(c)@, id@),
        r is None ==> final(c)@ == old(c)@,
        r is Some ==> {
            let was = old(c)@[id@];
            let now = final(c)@[id@];
            &&& now.motion matches Some(m) && m.target == target && m.speed == speed
            &&& rotation matches Some(s) ==> now.info.rotation == s
            &&& rotation is None ==> now.info.rotation == was.info.rotation
            &&& now == (RecordView { info: now.info, motion: now.motion, ..was })
            &&& now.info == (clients::InfoView { rotation: now.info.rotation, ..was.info })
        },
{
}

/// Everyone who walks is listed once, with where it is and where it goes, and
/// nobody else is; who is at no place at all starts from the middle.
pub proof fn walkers_are_listed(c: &Clients, r: Vec<Walker>, id: Seq<char>)
    requires
        call_ensures(Clients::walkers, (c,), r),
    ensures
        c@.contains_key(id) && c@[id].motion is Some <==> exists|k: int|
            0 <= k < r@.len() && (#[trigger] r@[k]).id@ == id,
        forall|k: int|
            0 <= k < r@.len() ==> c@[(#[trigger] r@[k]).id@].motion == Some(r@[k].motion),
        forall|k: int|
            0 <= k < r@.len() ==> {
                let at = c@[(#[trigger] r@[k]).id@].info.position;
                if at.x.bits % 0x8000_0000 < 0x7f80_0000 && at.y.bits % 0x8000_0000 < 0x7f80_0000
                    && at.z.bits % 0x8000_0000 < 0x7f80_0000 {
                    r@[k].from == at
                } else {
                    r@[k].from.x.bits == 0 && r@[k].from.y.bits == 0 && r@[k].from.z.bits == 0
                }
            },
        forall|k: int, l: int|
            0 <= k < l < r@.len() ==> (#[trigger] r@[k]).id@ != (#[trigger] r@[l]).id@,
{
    if exists|k: int| 0 <= k < r@.len() && (#[trigger] r@[k]).id@ == id {
        let k = choose|k: int| 0 <= k < r@.len() && (#[trigger] r@[k]).id@ == id;
        assert(clients::walks(c@, r@[k].id@, r@[k].from, r@[k].motion));
    }
    assert forall|k: int| 0 <= k < r@.len() implies clients::walks(
        c@,
        (#[trigger] r@[k]).id@,
        r@[k].from,
        r@[k].motion,
    ) by {}
}

/// A walker that was measured takes one step: to its target and to rest if it
/// arrives, or to the place measured on its way. Its room is told exactly where it
/// is now, under the next number of the server. Nobody else moves, and one who does
/// not walk is not told of.
pub proof fn walkers_take_one_step(
    c: &mut Clients,
    measured: &Vec<(String, Measured)>,
    now_ms: u64,
    r: Vec<(u32, MoveBroadcast)>,
    id: String,
    m: Measured,
    arrived: bool,
)
    requires
        measured@.len() == 1,
        measured@[0] == (id, m),
        call_ensures(motion::has_arrived, (&m,), arrived),
        call_ensures(Clients::tick_motions, (c, measured, now_ms), r),
    ensures
        others_stay(old(c)@, final(c)@, id@),
        old(c)@.contains_key(id@) && old(c)@[id@].motion is Some && old(c)@[id@].room_id is Some
            ==> {
            let was = old(c)@[id@];
            let now = final(c)@[id@];
            &&& arrived ==> now.info.position == was.motion->0.target && now.motion is None
            &&& !arrived ==> now.info.position == m.between && now.motion == was.motion
            &&& now == (RecordView {
                info: clients::InfoView { position: now.info.position, ..was.info },
                motion: now.motion,
                server_move_seq: now.server_move_seq,
                ..was
            })
            &&& was.server_move_seq < u64::MAX ==> now.server_move_seq == was.server_move_seq + 1
            &&& r@.len() == 1 && Some(r@[0].0) == was.room_id && tells_of(
                r@[0].1,
                id@,
                now,
                now_ms,
                None,
            )
        },
        !(old(c)@.contains_key(id@) && old(c)@[id@].motion is Some
            && old(c)@[id@].room_id is Some) ==> final(c)@ == old(c)@ && r@.len() == 0,
{
    let all = clients::measurements(measured@);
    assert(all.len() == 1 && all[0] == (id@, m));
    let none = all.drop_last();
    assert(clients::after_ticks(old(c)@, none) == old(c)@);
    assert(clients::tick_news(old(c)@, none, now_ms).len() == 0);
    let told = clients::news_views(r@);
    assert(told.len() == r@.len());
    assert(told =~= clients::step_news(old(c)@, id@, m, now_ms));
    if told.len() > 0 {
        assert(told[0] == (r@[0].0, r@[0].1@));
    }
}

proof fn lemma_ticks(
    before: Map<Seq<char>, RecordView>,
    x: Seq<(Seq<char>, Measured)>,
    y: Seq<(Seq<char>, Measured)>,
    now_ms: u64,
)
    ensures
        clients::after_ticks(before, x + y) == clients::after_ticks(
            clients::after_ticks(before, x),
            y,
        ),
        clients::tick_news(before, x + y, now_ms) == clients::tick_news(before, x, now_ms)
            + clients::tick_news(clients::after_ticks(before, x), y, now_ms),
    decreases y.len(),
{
    if y.len() == 0 {
        assert(x + y =~= x);
        assert(clients::tick_news(before, x, now_ms) =~= clients::tick_news(before, x, now_ms)
            + clients::tick_news(clients::after_ticks(before, x), y, now_ms));
    } else {
        assert((x + y).drop_last() =~= x + y.drop_last());
        lemma_ticks(before, x, y.drop_last(), now_ms);
        assert(clients::tick_news(before, x + y, now_ms) =~= clients::tick_news(before, x, now_ms)
            + clients::tick_news(clients::after_ticks(before, x), y, now_ms));
    }
}

/// Walkers step one after the other: a tick over two lists is a tick over the first
/// and then one over the second, and tells what both tell.
pub proof fn ticks_go_through_the_list(
    whole: &mut Clients,
    all: &Vec<(String, Measured)>,
    now_ms: u64,
    r: Vec<(u32, MoveBroadcast)>,
    first: &mut Clients,
    x: &Vec<(String, Measured)>,
    r1: Vec<(u32, MoveBroadcast)>,
    second: &mut Clients,
    y: &Vec<(String, Measured)>,
    r2: Vec<(u32, MoveBroadcast)>,
)
    requires
        all@ == x@ + y@,
        call_ensures(Clients::tick_motions, (whole, all, now_ms), r),
        *old(first) == *old(whole),
        call_ensures(Clients::tick_motions, (first, x, now_ms), r1),
        *old(second) == *final(first),
        call_ensures(Clients::tick_motions, (second, y, now_ms), r2),
    ensures
        final(whole)@ == final(second)@,
        r@.len() == r1@.len() + r2@.len(),
        clients::news_views(r@) == clients::news_views(r1@) + clients::news_views(r2@),
{
    assert(clients::measurements(all@) =~= clients::measurements(x@) + clients::measurements(y@));
    lemma_ticks(old(whole)@, clients::measurements(x@), clients::measurements(y@), now_ms);
    assert(clients::news_views(r@).len() == r@.len());
    assert(clients::news_views(r1@).len() == r1@.len());
    assert(clients::news_views(r2@).len() == r2@.len());
}

/// A place is read from three finite numbers and nothing else, and is in the world
/// exactly if it is at most 2000 away to the sides and 500 up or down.
pub proof fn places_are_three_finite_numbers(
    v: &Vec<Scalar>,
    r: Option<Point>,
    p: &Point,
    inside: bool,
    middle: Point,
)
    requires
        call_ensures(motion::to_vec3, (v,), r),
        call_ensures(motion::in_world_bounds, (p,), inside),
        call_ensures(motion::origin, (), middle),
    ensures
        r is Some <==> v@.len() == 3 && v@[0].bits % 0x8000_0000 < 0x7f80_0000 && v@[1].bits
            % 0x8000_0000 < 0x7f80_0000 && v@[2].bits % 0x8000_0000 < 0x7f80_0000,
        r matches Some(at) ==> at.x == v@[0] && at.y == v@[1] && at.z == v@[2],
        inside <==> p.x.bits % 0x8000_0000 <= 0x44fa_0000 && p.y.bits % 0x8000_0000 <= 0x43fa_0000
            && p.z.bits % 0x8000_0000 <= 0x44fa_0000,
        middle.x.bits == 0 && middle.y.bits == 0 && middle.z.bits == 0,
{
    lemma_world_bounds();
    layouts::lemma_away(p.x, 0x44fa_0000, 2_000);
    layouts::lemma_away(p.y, 0x43fa_0000, 500);
    layouts::lemma_away(p.z, 0x44fa_0000, 2_000);
}

// ----------------------------------------------------------------------- wallets

/// A claim is true exactly if it names a key of the curve and its 64 bytes are that
/// key's signature over the message with the nonce; else the first thing wrong is
/// named: the key, the signature's form, or that it does not fit.
pub proof fn claims_are_true_if_signed(
    pubkey_b58: &str,
    signature_b58: &str,
    nonce: &str,
    r: Result<Pubkey, AuthError>,
)
    requires
        call_ensures(auth::verify, (pubkey_b58, signature_b58, nonce), r),
    ensures
        match pubkey::pubkey_from_text(pubkey_b58@) {
            Some(key) => if !auth::ed25519_key(key) {
                r matches Err(AuthError::BadPubkey)
            } else {
                match auth::base58_bytes(signature_b58@) {
                    Some(bytes) => if bytes.len() != 64 {
                        r matches Err(AuthError::BadSignature)
                    } else if auth::ed25519_signed(
                        key,
                        encode_utf8("ekza-space:auth:"@ + nonce@),
                        bytes,
                    ) {
                        r matches Ok(proven) && proven.bytes@ == key
                    } else {
                        r matches Err(AuthError::Mismatch)
                    },
                    None => r matches Err(AuthError::BadSignature),
                }
            },
            None => r matches Err(AuthError::BadPubkey),
        },
{
}

/// The key is the proven one exactly if there is one on the curve, the signature is
/// 64 bytes, and it fits.
pub proof fn claims_are_judged(
    key: Option<Pubkey>,
    on_curve: bool,
    signature: Option<Vec<u8>>,
    fits: bool,
    r: Result<Pubkey, AuthError>,
)
    requires
        call_ensures(auth::judge, (key, on_curve, signature, fits), r),
    ensures
        r is Ok <==> key is Some && on_curve && (signature matches Some(s) && s@.len() == 64)
            && fits,
        r matches Ok(proven) ==> proven.bytes@ == key->0.bytes@,
        r matches Err(e) ==> (e is BadPubkey <==> key is None || !on_curve) && (e is Mismatch
            <==> key is Some && on_curve && (signature matches Some(s) && s@.len() == 64)),
{
}

/// The message to sign is the prefix and the nonce; a nonce is 24 bytes in base 58.
pub proof fn nonces_are_signed_with_the_prefix(
    nonce: &str,
    message: String,
    bytes: &[u8; 24],
    written: String,
    fresh: String,
)
    requires
        call_ensures(auth::auth_message, (nonce,), message),
        call_ensures(auth::nonce_from, (bytes,), written),
        call_ensures(auth::new_nonce, (), fresh),
    ensures
        message@ == "ekza-space:auth:"@ + nonce@,
        auth::base58_bytes(written@) == Some(bytes@),
        auth::base58_bytes(fresh@) matches Some(b) && b.len() == 24,
{
}

/// A client whose claim is true has that wallet from then on, proven and shown, and
/// a new nonce; a claim that is not proves nothing.
pub proof fn true_claims_prove_the_wallet(
    c: &mut Clients,
    id: &str,
    pubkey_b58: &str,
    signature_b58: &str,
    r: Result<(Pubkey, Option<u32>), AuthError>,
    nonce: &str,
    judged: Result<Pubkey, AuthError>,
    wallet: Option<Pubkey>,
)
    requires
        call_ensures(Clients::authenticate, (c, id, pubkey_b58, signature_b58), r),
        old(c)@.contains_key(id@) ==> nonce@ == old(c)@[id@].nonce,
        call_ensures(auth::verify, (pubkey_b58, signature_b58, nonce), judged),
        call_ensures(Clients::wallet_of, (&*final(c), id), wallet),
    ensures
        others_stay(old(c)@, final(c)@, id@),
        r is Ok <==> old(c)@.contains_key(id@) && judged is Ok,
        r is Err ==> final(c)@ == old(c)@,
        r matches Ok((key, room)) ==> {
            let was = old(c)@[id@];
            let now = final(c)@[id@];
            &&& wallet == Some(key) && key.bytes@ == judged->Ok_0.bytes@
            &&& room == was.room_id
            &&& now.info.wallet == Some(pubkey::pubkey_text(key.bytes@))
            &&& now == (RecordView {
                info: clients::InfoView { wallet: now.info.wallet, ..was.info },
                wallet: Some(key),
                nonce: now.nonce,
                ..was
            })
            &&& auth::base58_bytes(now.nonce) matches Some(b) && b.len() == 24
        },
        judged matches Err(e) ==> old(c)@.contains_key(id@) ==> r == Err::<
            (Pubkey, Option<u32>),
            AuthError,
        >(e),
{
}

/// A judgement that stands is taken over as it is, with the nonce that goes with it.
pub proof fn judgements_are_taken_over(
    c: &mut Clients,
    id: &str,
    outcome: Result<Pubkey, AuthError>,
    nonce: String,
    r: Result<(Pubkey, Option<u32>), AuthError>,
    wallet: Option<Pubkey>,
)
    requires
        call_ensures(Clients::accept, (c, id, outcome, nonce), r),
        call_ensures(Clients::wallet_of, (&*final(c), id), wallet),
    ensures
        others_stay(old(c)@, final(c)@, id@),
        r is Ok <==> old(c)@.contains_key(id@) && outcome is Ok,
        r is Err ==> final(c)@ == old(c)@,
        r matches Ok((key, room)) ==> Ok::<Pubkey, AuthError>(key) == outcome && wallet == Some(key)
            && room == old(c)@[id@].room_id && final(c)@[id@] == (RecordView {
            info: clients::InfoView {
                wallet: Some(pubkey::pubkey_text(key.bytes@)),
                ..old(c)@[id@].info
            },
            wallet: Some(key),
            nonce: nonce@,
            ..old(c)@[id@]
        }),
{
}

/// An action is allowed exactly if its author is known and has budget for it, and
/// costs what an attempt costs that budget alone.
pub proof fn actions_draw_on_their_budget(
    c: &mut Clients,
    id: &str,
    which: Limit,
    now: u128,
    r: bool,
    other: Limit,
    own: &mut ClientLimits,
    granted: bool,
)
    requires
        call_ensures(Clients::allow, (c, id, which, now), r),
        old(c)@.contains_key(id@) ==> old(own)@ == old(c)@[id@].limits,
        call_ensures(ClientLimits::try_take, (own, which, now), granted),
    ensures
        r <==> has_budget(old(c)@, id@, which, now),
        r <==> old(c)@.contains_key(id@) && granted,
        others_stay(old(c)@, final(c)@, id@),
        !old(c)@.contains_key(id@) ==> final(c)@ == old(c)@,
        old(c)@.contains_key(id@) ==> {
            let was = old(c)@[id@];
            let now = final(c)@[id@];
            &&& now == (RecordView { limits: final(own)@, ..was })
            &&& other != which ==> limits::budget(now.limits, other) == limits::budget(
                was.limits,
                other,
            )
        },
{
}

// --------------------------------------------------------------------- messages

/// News of a move shows the presence as it is, with the numbers and time given.
pub proof fn moves_are_told_as_they_are(
    id: &str,
    info: &ClientInfo,
    server_seq: u64,
    server_time: u64,
    client_seq: Option<u64>,
    r: MoveBroadcast,
)
    requires
        call_ensures(
            messages::announce_move,
            (id, info, server_seq, server_time, client_seq),
            r,
        ),
    ensures
        r.id@ == id@,
        r.position == info.position && r.rotation == info.rotation,
        r.avatar@ == info.avatar@ && r.nickname@ == info.nickname@,
        r.avatar_height_scale == info.avatar_height_scale,
        r.server_seq == server_seq && r.server_time == server_time && r.client_seq == client_seq,
{
}

/// A refusal names the room and the reason, with the detail if there is one; each
/// reason has its name.
pub proof fn refusals_name_room_and_reason(
    room_id: String,
    code: RoomErrorCode,
    detail: String,
    bare: RoomErrorBroadcast,
    detailed: RoomErrorBroadcast,
    name: &'static str,
)
    requires
        call_ensures(messages::refuse, (room_id, code), bare),
        call_ensures(messages::refuse_because, (room_id, code, detail), detailed),
        call_ensures(RoomErrorCode::name, (code,), name),
    ensures
        bare.room_id@ == room_id@ && bare.code == code && bare.detail is None,
        detailed.room_id@ == room_id@ && detailed.code == code,
        says(detailed.detail, Some(detail@)),
        name@ == match code {
            RoomErrorCode::InvalidRoom => "invalid_room"@,
            RoomErrorCode::ChainUnavailable => "chain_unavailable"@,
            RoomErrorCode::AuthRequired => "auth_required"@,
            RoomErrorCode::Forbidden => "forbidden"@,
            RoomErrorCode::StaleRevision => "stale_revision"@,
            RoomErrorCode::InvalidState => "invalid_state"@,
            RoomErrorCode::RateLimited => "rate_limited"@,
            RoomErrorCode::StorageFailed => "storage_failed"@,
        },
{
}

/// A blank presence shows nothing, and a copy shows the same.
pub proof fn copies_show_the_same(blank: ClientInfo, info: &ClientInfo, copy: ClientInfo)
    requires
        call_ensures(ClientInfo::blank, (), blank),
        call_ensures(ClientInfo::duplicate, (info,), copy),
    ensures
        blank.nickname@.len() == 0 && blank.avatar@.len() == 0 && blank.wallet is None,
        blank.avatar_height_scale is None && blank.rotation.bits == 0,
        blank.position.x.bits == 0 && blank.position.y.bits == 0 && blank.position.z.bits == 0,
        copy.position == info.position && copy.rotation == info.rotation,
        copy.avatar@ == info.avatar@ && copy.nickname@ == info.nickname@,
        copy.avatar_height_scale == info.avatar_height_scale,
        info.wallet matches Some(w) ==> says(copy.wallet, Some(w@)),
        info.wallet is None ==> copy.wallet is None,
{
}

// ------------------------------------------------------------------------- maps

/// What is put under a key is found there until it is taken out, and every other
/// key keeps what it has.
pub proof fn maps_give_back_what_was_put(
    m: &mut TextMap<u64>,
    key: String,
    value: u64,
    look: &str,
    found: Option<&u64>,
    n: &mut TextMap<u64>,
    taken: Option<u64>,
    gone: Option<&u64>,
    other: Seq<char>,
)
    requires
        call_ensures(TextMap::<u64>::insert, (m, key, value), ()),
        look@ == key@,
        call_ensures(TextMap::<u64>::get, (&*final(m), look), found),
        *old(n) == *final(m),
        call_ensures(TextMap::<u64>::remove, (n, look), taken),
        call_ensures(TextMap::<u64>::get, (&*final(n), look), gone),
        other != key@,
    ensures
        found matches Some(v) && *v == value,
        taken == Some(value),
        gone is None,
        old(m)@.contains_key(other) <==> final(n)@.contains_key(other),
        old(m)@.contains_key(other) ==> final(n)@[other] == old(m)@[other],
{
}

} // verus!
