//! What becomes of connecting, proving a wallet, speaking, moving, entering and
//! leaving.

use crate::auth;
use crate::chain::{ChainConfig, ChainError};
use crate::laws::layouts;
use crate::laws::numbers::{self, is_less, is_number};
use crate::laws::texts;
use crate::limits::{self, ClientLimits, Limit};
use crate::pubkey;
use crate::realtime::clients::{self, ClientInfo, Clients, RecordView, UserDataPayload};
use crate::realtime::handlers::{self, AuthReply, Joined};
use crate::realtime::messages::{
    AuthNonceBroadcast,
    AuthPayload,
    ChatBroadcast,
    ChatMessageInput,
    GotoPayload,
    MoveBroadcast,
    MovePayload,
    NewUserBroadcast,
    RoomErrorBroadcast,
    RoomErrorCode,
};
use crate::realtime::motion::{self, Measured, Point};
use crate::scalar::{self, Scalar};
use crate::text;
use vstd::arithmetic::power2::*;
use vstd::prelude::*;
use vstd::string::*;
use vstd::utf8::*;

verus! {

/// Whether nobody but `id` came, went or changed.
pub open spec fn others_stay(
    before: Map<Seq<char>, RecordView>,
    after: Map<Seq<char>, RecordView>,
    id: Seq<char>,
) -> bool {
    forall|other: Seq<char>| #![trigger after.contains_key(other)]
        other != id ==> after.contains_key(other) == before.contains_key(other) && (
        before.contains_key(other) ==> after[other] == before[other])
}

/// Whether a connection has budget left for an action.
pub open spec fn has_budget(
    clients: Map<Seq<char>, RecordView>,
    id: Seq<char>,
    which: Limit,
    now: u128,
) -> bool {
    clients.contains_key(id) && limits::granted(
        limits::budget(clients[id].limits, which),
        now as int,
    )
}

/// Whether an optional text says what it should.
pub open spec fn says(text: Option<String>, expected: Option<Seq<char>>) -> bool {
    match (text, expected) {
        (Some(t), Some(e)) => t@ == e,
        (None, None) => true,
        _ => false,
    }
}

/// Whether a presence that is shown is the one that is kept, field by field.
pub open spec fn shows(info: ClientInfo, kept: clients::InfoView) -> bool {
    &&& info.position == kept.position
    &&& info.rotation == kept.rotation
    &&& info.avatar@ == kept.avatar
    &&& info.nickname@ == kept.nickname
    &&& says(info.wallet, kept.wallet)
    &&& info.avatar_height_scale == kept.avatar_height_scale
}

/// Whether there is anything but white space in a text.
pub open spec fn has_words(s: Seq<char>) -> bool {
    exists|i: int| 0 <= i < s.len() && !texts::blank(#[trigger] s[i])
}

// ------------------------------------------------------------------ connecting

/// A new connection starts as a guest that is nowhere, says nothing and has its
/// full budgets; it is told to sign the nonce kept for it. A known one stays as it
/// is. Nobody else is touched.
pub proof fn connections_start_as_guests(
    c: &mut Clients,
    id: &str,
    now: u128,
    r: (AuthNonceBroadcast, usize),
    full: ClientLimits,
)
    requires
        call_ensures(handlers::on_connect, (c, id, now), r),
        call_ensures(ClientLimits::new, (now,), full),
    ensures
        others_stay(old(c)@, final(c)@, id@),
        final(c)@.contains_key(id@),
        r.0.nonce@ == final(c)@[id@].nonce,
        r.0.message@ == "ekza-space:auth:"@ + r.0.nonce@,
        r.1 == final(c)@.dom().len(),
        old(c)@.contains_key(id@) ==> final(c)@[id@] == old(c)@[id@],
        !old(c)@.contains_key(id@) ==> {
            let fresh = final(c)@[id@];
            &&& fresh.room_id is None && fresh.wallet is None && fresh.motion is None
            &&& fresh.server_move_seq == 0 && fresh.last_client_move_seq == 0
            &&& fresh.info.nickname.len() == 0 && fresh.info.avatar.len() == 0
            &&& fresh.info.wallet is None && fresh.info.avatar_height_scale is None
            &&& fresh.info.position.x.bits == 0 && fresh.info.position.y.bits == 0
                && fresh.info.position.z.bits == 0 && fresh.info.rotation.bits == 0
            &&& auth::base58_bytes(fresh.nonce) matches Some(bytes) && bytes.len() == 24
            &&& fresh.limits == full@
            &&& forall|which: Limit| has_budget(final(c)@, id@, which, now)
        },
{
    if !old(c)@.contains_key(id@) {
        assert forall|which: Limit| has_budget(final(c)@, id@, which, now) by {
            let b = limits::budget(final(c)@[id@].limits, which);
            assert((now - b.last) * b.refill == 0) by (nonlinear_arith)
                requires
                    now == b.last,
            ;
        }
    }
}

/// A socket that is gone is forgotten, wherever it was, and nobody else is touched.
pub proof fn the_gone_are_forgotten(c: &mut Clients, id: &str, r: (Option<u32>, usize))
    requires
        call_ensures(handlers::on_disconnect, (c, id), r),
    ensures
        !final(c)@.contains_key(id@),
        others_stay(old(c)@, final(c)@, id@),
        old(c)@.contains_key(id@) ==> r.0 == old(c)@[id@].room_id,
        !old(c)@.contains_key(id@) ==> r.0 is None,
        r.1 == final(c)@.dom().len(),
{
}

// ----------------------------------------------------------------------- wallet

/// A claim is accepted exactly if its author is known and within budget, it names
/// a key of the curve, and its 64 bytes are that key's signature over the message
/// with the nonce kept for that very connection. The wallet is then proven and
/// shown, and the nonce replaced; a claim that is refused says why and proves
/// nothing. Nobody else is touched either way.
pub proof fn wallets_are_proven_by_signing(
    c: &mut Clients,
    id: &str,
    now: u128,
    payload: Option<AuthPayload>,
    r: AuthReply,
)
    requires
        call_ensures(handlers::on_auth, (c, id, now, payload), r),
    ensures
        others_stay(old(c)@, final(c)@, id@),
        r.result.ok <==> {
            &&& has_budget(old(c)@, id@, Limit::Auth, now)
            &&& payload is Some
            &&& pubkey::pubkey_from_text(payload->0.pubkey@) matches Some(key)
            &&& auth::ed25519_key(key)
            &&& auth::base58_bytes(payload->0.signature@) matches Some(signature)
            &&& signature.len() == 64
            &&& auth::ed25519_signed(
                key,
                encode_utf8("ekza-space:auth:"@ + old(c)@[id@].nonce),
                signature,
            )
        },
        r.result.ok ==> {
            let key = pubkey::pubkey_from_text(payload->0.pubkey@)->0;
            &&& final(c)@[id@].wallet matches Some(wallet)
            &&& wallet.bytes@ == key
            &&& final(c)@[id@].info.wallet == Some(pubkey::pubkey_text(key))
            &&& says(r.result.wallet, Some(pubkey::pubkey_text(key)))
            &&& r.result.error is None
            &&& auth::base58_bytes(final(c)@[id@].nonce) matches Some(bytes) && bytes.len() == 24
            &&& r.proven == match old(c)@[id@].room_id {
                Some(room) => Some((room, wallet)),
                None => None,
            }
        },
        !r.result.ok ==> {
            &&& r.result.wallet is None && r.proven is None
            &&& r.result.error matches Some(e) && if !has_budget(
                old(c)@,
                id@,
                Limit::Auth,
                now,
            ) {
                e@ == "rate_limited"@
            } else if payload is None {
                e@ == "bad_payload"@
            } else {
                e@ == "invalid_signature"@
            }
            &&& old(c)@.contains_key(id@) ==> final(c)@[id@] == (RecordView {
                limits: final(c)@[id@].limits,
                ..old(c)@[id@]
            })
        },
        old(c)@.contains_key(id@) ==> {
            &&& final(c)@[id@].room_id == old(c)@[id@].room_id
            &&& final(c)@[id@].motion == old(c)@[id@].motion
            &&& final(c)@[id@].info.nickname == old(c)@[id@].info.nickname
            &&& final(c)@[id@].info.avatar == old(c)@[id@].info.avatar
            &&& final(c)@[id@].info.position == old(c)@[id@].info.position
            &&& final(c)@[id@].limits == limits::drawn(old(c)@[id@].limits, Limit::Auth, now)
        },
{
}

// ------------------------------------------------------------------------- chat

/// The words of a chat line, bare or in an object. A name in it does not count.
pub open spec fn words_in(input: ChatMessageInput) -> Seq<char> {
    match input {
        ChatMessageInput::Text(words) => words@,
        ChatMessageInput::Object { message, .. } => message@,
    }
}

/// A line is heard exactly if its author is in a room, has budget left, and says
/// anything but white space. It is heard in that room, under the author's own id,
/// name and wallet, without the white space around it and up to 500 characters. It
/// costs one chat token and changes nothing else.
pub proof fn lines_with_words_are_heard(
    c: &mut Clients,
    id: &str,
    now: u128,
    payload: Option<ChatMessageInput>,
    r: Option<(u32, ChatBroadcast)>,
)
    requires
        call_ensures(handlers::on_chat_message, (c, id, now, payload), r),
    ensures
        others_stay(old(c)@, final(c)@, id@),
        r is Some <==> {
            &&& payload is Some
            &&& has_budget(old(c)@, id@, Limit::Chat, now)
            &&& old(c)@[id@].room_id is Some
            &&& has_words(words_in(payload->0))
        },
        r matches Some((room, line)) ==> {
            &&& old(c)@[id@].room_id == Some(room)
            &&& line.id@ == id@
            &&& line.nickname@ == old(c)@[id@].info.nickname
            &&& says(line.wallet, old(c)@[id@].info.wallet)
            &&& texts::is_shown(words_in(payload->0), 500, line.message@)
        },
        old(c)@.contains_key(id@) ==> final(c)@[id@] == (RecordView {
            limits: if payload is Some && old(c)@[id@].room_id is Some {
                limits::drawn(old(c)@[id@].limits, Limit::Chat, now)
            } else {
                old(c)@[id@].limits
            },
            ..old(c)@[id@]
        }),
{
    if let Some(input) = payload {
        let words = words_in(input);
        texts::lemma_shown(words, 500);
        texts::lemma_shown_has_words(
            words,
            500,
            text::truncated(text::trimmed(words), 500),
        );
    }
}

// -------------------------------------------------------------------- user data

/// The text that a client gives, none being an empty one.
pub open spec fn given(text: Option<String>) -> Seq<char> {
    match text {
        Some(t) => t@,
        None => Seq::empty(),
    }
}

/// Whether a height scale that is kept is the one asked for, moved between one
/// half and two; what is no finite number is not kept.
pub open spec fn is_kept_scale(asked: Option<Scalar>, kept: Option<Scalar>) -> bool {
    match asked {
        None => kept is None,
        Some(s) => if s.bits as int % 0x8000_0000 >= 0x7f80_0000 {
            kept is None
        } else if s.bits < 0x8000_0000 && s.bits > 0x4000_0000 {
            kept == Some(Scalar { bits: 0x4000_0000 })
        } else if s.bits < 0x8000_0000 && s.bits >= 0x3f00_0000 {
            kept == Some(s)
        } else {
            kept == Some(Scalar { bits: 0x3f00_0000 })
        },
    }
}

pub proof fn lemma_kept_scale(asked: Option<Scalar>)
    ensures
        is_kept_scale(asked, clients::kept_height_scale(asked)),
{
    if let Some(s) = asked {
        scalar::lemma_units_order(scalar::magnitude(s), 0x3f00_0000);
        scalar::lemma_units_order(0x3f00_0000, scalar::magnitude(s));
        scalar::lemma_units_order(scalar::magnitude(s), 0x4000_0000);
        scalar::lemma_units_order(0x4000_0000, scalar::magnitude(s));
    }
}

/// What a client says of itself is what the others are shown from then on: its
/// name without the white space around it up to 32 characters, the first 512
/// characters of its avatar, and its height between one half and two. Where it is
/// and which wallet it has proven stays. The others in its room are told exactly
/// that, if it is in one and within budget; else nothing but the budget changes.
pub proof fn user_data_is_shown(
    c: &mut Clients,
    id: &str,
    now: u128,
    payload: Option<UserDataPayload>,
    r: Option<(u32, NewUserBroadcast)>,
)
    requires
        call_ensures(handlers::on_set_user_data, (c, id, now, payload), r),
    ensures
        others_stay(old(c)@, final(c)@, id@),
        payload is None ==> final(c)@ == old(c)@ && r is None,
        payload matches Some(data) ==> if has_budget(old(c)@, id@, Limit::UserData, now) {
            let before = old(c)@[id@];
            let after = final(c)@[id@];
            &&& final(c)@.contains_key(id@)
            &&& texts::is_shown(given(data.nickname), 32, after.info.nickname)
            &&& texts::is_head(given(data.avatar), 512, after.info.avatar)
            &&& is_kept_scale(data.avatar_height_scale, after.info.avatar_height_scale)
            &&& after.info.position == before.info.position
            &&& after.info.rotation == before.info.rotation
            &&& after.info.wallet == before.info.wallet
            &&& after == (RecordView {
                info: after.info,
                limits: limits::drawn(before.limits, Limit::UserData, now),
                ..before
            })
            &&& r is Some <==> before.room_id is Some
            &&& r matches Some((room, news)) ==> before.room_id == Some(room) && news.id@ == id@
                && shows(news.user_data, after.info)
        } else {
            &&& r is None
            &&& old(c)@.contains_key(id@) ==> final(c)@[id@] == (RecordView {
                limits: limits::drawn(old(c)@[id@].limits, Limit::UserData, now),
                ..old(c)@[id@]
            })
        },
{
    if let Some(data) = payload {
        texts::lemma_shown(given(data.nickname), 32);
        texts::lemma_shown(given(data.avatar), 512);
        lemma_kept_scale(data.avatar_height_scale);
        assert(given(data.nickname) == text::text_or_empty(data.nickname));
        assert(given(data.avatar) == text::text_or_empty(data.avatar));
    }
}

// --------------------------------------------------------------------- movement

/// Whether three numbers name a place in the world: at most 2000 sideways and 500
/// up or down.
pub open spec fn is_place(v: Vec<Scalar>, p: Point) -> bool {
    &&& v@.len() == 3
    &&& p.x == v@[0] && p.y == v@[1] && p.z == v@[2]
    &&& layouts::at_most_away(v@[0], 0x44fa_0000)
    &&& layouts::at_most_away(v@[1], 0x43fa_0000)
    &&& layouts::at_most_away(v@[2], 0x44fa_0000)
}

/// The patterns of 2000 and of 500.
pub proof fn lemma_world_bounds()
    ensures
        scalar::units(0x44fa_0000) == scalar::whole(2_000),
        scalar::units(0x43fa_0000) == scalar::whole(500),
{
    lemma2_to64();
    assert(pow2(13) == 8192);
    assert(pow2(15) == 32768);
    assert(0x44fa_0000int / 0x80_0000 == 137);
    assert(0x43fa_0000int / 0x80_0000 == 135);
    scalar::lemma_whole(0x44fa_0000, 2_000);
    scalar::lemma_whole(0x43fa_0000, 500);
}

proof fn lemma_place(position: Option<Vec<Scalar>>)
    ensures
        match handlers::place_in(position) {
            Some(p) => position is Some && is_place(position->0, p),
            None => forall|p: Point| position is Some ==> !is_place(position->0, p),
        },
{
    lemma_world_bounds();
    if let Some(v) = position {
        if v@.len() == 3 {
            layouts::lemma_away(v@[0], 0x44fa_0000, 2_000);
            layouts::lemma_away(v@[1], 0x43fa_0000, 500);
            layouts::lemma_away(v@[2], 0x44fa_0000, 2_000);
        }
    }
}

/// Whether news of a move says where a client is and how it looks.
pub open spec fn tells_of(
    news: MoveBroadcast,
    id: Seq<char>,
    r: RecordView,
    now_ms: u64,
    client_seq: Option<u64>,
) -> bool {
    &&& news.id@ == id
    &&& news.position == r.info.position
    &&& news.rotation == r.info.rotation
    &&& news.nickname@ == r.info.nickname
    &&& news.avatar@ == r.info.avatar
    &&& news.avatar_height_scale == r.info.avatar_height_scale
    &&& news.server_seq == r.server_move_seq
    &&& news.server_time == now_ms
    &&& news.client_seq == client_seq
}

/// A move counts exactly if it names a place in the world and no odd rotation, its
/// author is in a room and within budget, and its number, if it has one, is above
/// the last. The author is then there, turned as said, with no walk left and the
/// next number of the server; its room is told exactly that. A move that does not
/// count changes nothing else, and costs a token only if its place and rotation are
/// in order.
pub proof fn moves_lead_where_they_say(
    c: &mut Clients,
    id: &str,
    now: u128,
    now_ms: u64,
    payload: Option<MovePayload>,
    r: Option<(u32, MoveBroadcast)>,
)
    requires
        call_ensures(handlers::on_move, (c, id, now, now_ms, payload), r),
    ensures
        others_stay(old(c)@, final(c)@, id@),
        r is Some <==> {
            &&& payload is Some
            &&& payload->0.position is Some
            &&& exists|p: Point| #[trigger] is_place(payload->0.position->0, p)
            &&& payload->0.rotation matches Some(rot) ==> rot.bits as int % 0x8000_0000
                < 0x7f80_0000
            &&& has_budget(old(c)@, id@, Limit::Moves, now)
            &&& old(c)@[id@].room_id is Some
            &&& payload->0.seq matches Some(n) ==> n > old(c)@[id@].last_client_move_seq
        },
        r matches Some((room, news)) ==> {
            let before = old(c)@[id@];
            let after = final(c)@[id@];
            &&& before.room_id == Some(room) && after.room_id == Some(room)
            &&& is_place(payload->0.position->0, after.info.position)
            &&& after.info.rotation == match payload->0.rotation {
                Some(rot) => rot,
                None => Scalar { bits: 0 },
            }
            &&& after.motion is None
            &&& before.server_move_seq < u64::MAX ==> after.server_move_seq
                == before.server_move_seq + 1
            &&& payload->0.seq matches Some(n) ==> after.last_client_move_seq == n
            &&& payload->0.seq is None ==> after.last_client_move_seq
                == before.last_client_move_seq
            &&& after.wallet == before.wallet && after.nonce == before.nonce
            &&& after.info.nickname == before.info.nickname && after.info.avatar
                == before.info.avatar && after.info.wallet == before.info.wallet
                && after.info.avatar_height_scale == before.info.avatar_height_scale
            &&& after.limits == limits::drawn(before.limits, Limit::Moves, now)
            &&& tells_of(news, id@, after, now_ms, payload->0.seq)
        },
        r is None && old(c)@.contains_key(id@) ==> final(c)@[id@] == (RecordView {
            limits: if payload is Some && payload->0.position is Some && (exists|p: Point|
                #[trigger] is_place(payload->0.position->0, p)) && (payload->0.rotation matches Some(rot)
                ==> rot.bits as int % 0x8000_0000 < 0x7f80_0000) {
                limits::drawn(old(c)@[id@].limits, Limit::Moves, now)
            } else {
                old(c)@[id@].limits
            },
            ..old(c)@[id@]
        }),
{
    if let Some(p) = payload {
        lemma_place(p.position);
        if let Some(place) = handlers::place_in(p.position) {
            assert(is_place(p.position->0, place));
        }
    }
}

/// The speed of a walk: the one asked for, moved between 0.1 and 50, or 3.
pub open spec fn is_speed(asked: Option<Scalar>, speed: Scalar) -> bool {
    match asked {
        None => speed.bits == 0x4040_0000,
        Some(s) => if s.bits as int % 0x8000_0000 > 0x7f80_0000 {
            speed == s
        } else if s.bits < 0x8000_0000 && s.bits > 0x4248_0000 {
            speed.bits == 0x4248_0000
        } else if s.bits < 0x8000_0000 && s.bits >= 0x3dcc_cccd {
            speed == s
        } else {
            speed.bits == 0x3dcc_cccd
        },
    }
}

/// The speed of a walk is the one asked for, moved between 0.1 and 50, or 3.
pub proof fn walks_have_the_speed_asked_for(asked: Option<Scalar>, r: Scalar)
    requires
        call_ensures(motion::speed_for, (asked,), r),
    ensures
        is_speed(asked, r),
{
    let s = match asked {
        Some(s) => s,
        None => Scalar { bits: 0x4040_0000 },
    };
    scalar::lemma_units_order(scalar::magnitude(s), 0x3dcc_cccd);
    scalar::lemma_units_order(0x3dcc_cccd, scalar::magnitude(s));
    scalar::lemma_units_order(scalar::magnitude(s), 0x4248_0000);
    scalar::lemma_units_order(0x4248_0000, scalar::magnitude(s));
}

/// A client that is in a room, within budget, and names a place in the world walks
/// there from then on, at the speed asked for. Nothing is shown of it yet but the
/// rotation, if one was named.
pub proof fn walks_lead_to_their_target(
    c: &mut Clients,
    id: &str,
    now: u128,
    payload: Option<GotoPayload>,
    speed: Scalar,
)
    requires
        call_ensures(handlers::on_goto, (c, id, now, payload), ()),
        payload is Some,
        call_ensures(motion::speed_for, (payload->0.speed,), speed),
    ensures
        others_stay(old(c)@, final(c)@, id@),
        old(c)@.contains_key(id@) ==> if has_budget(old(c)@, id@, Limit::Moves, now) && old(
            c,
        )@[id@].room_id is Some && payload->0.position is Some && exists|p: Point| #[trigger]
            is_place(payload->0.position->0, p) {
            let before = old(c)@[id@];
            let after = final(c)@[id@];
            &&& after.motion matches Some(walk)
            &&& is_place(payload->0.position->0, walk.target)
            &&& walk.speed == speed && is_speed(payload->0.speed, walk.speed)
            &&& after.info.rotation == match payload->0.rotation {
                Some(rot) => rot,
                None => before.info.rotation,
            }
            &&& after == (RecordView {
                info: clients::InfoView { rotation: after.info.rotation, ..before.info },
                motion: after.motion,
                limits: limits::drawn(before.limits, Limit::Moves, now),
                ..before
            })
        } else {
            final(c)@[id@] == (RecordView {
                limits: if payload->0.position is Some && exists|p: Point| #[trigger]
                    is_place(payload->0.position->0, p) {
                    limits::drawn(old(c)@[id@].limits, Limit::Moves, now)
                } else {
                    old(c)@[id@].limits
                },
                ..old(c)@[id@]
            })
        },
{
    walks_have_the_speed_asked_for(payload->0.speed, speed);
    lemma_place(payload->0.position);
    if let Some(place) = handlers::place_in(payload->0.position) {
        assert(is_place(payload->0.position->0, place));
    }
}

/// What is no request to walk, or names no place, sends nobody off.
pub proof fn walks_need_a_target(c: &mut Clients, id: &str, now: u128, payload: Option<GotoPayload>)
    requires
        call_ensures(handlers::on_goto, (c, id, now, payload), ()),
        payload is None || payload->0.position is None,
    ensures
        final(c)@ == old(c)@,
{
}

/// A walk ends at the tick at which its target is no further than a step, or a
/// hair's breadth away, or its steps lead nowhere.
pub proof fn walks_end_near_their_target(m: &Measured, r: bool)
    requires
        call_ensures(motion::has_arrived, (m,), r),
    ensures
        ({
            let near = Scalar { bits: 0x38d1_b717 };
            let short = Scalar { bits: 0x3586_37bd };
            r <==> (is_number(m.dist) && !is_less(near, m.dist)) || (is_number(m.step) && !is_less(
                short,
                m.step,
            )) || (is_number(m.dist) && is_number(m.step) && !is_less(m.step, m.dist))
        }),
{
    numbers::lemma_is_less(m.dist, Scalar { bits: 0x38d1_b717 });
    numbers::lemma_is_less(m.step, Scalar { bits: 0x3586_37bd });
    numbers::lemma_is_less(m.dist, m.step);
}

// ------------------------------------------------------------ entering, leaving

/// Whether a text names a number: between white space, digits behind an optional
/// plus.
pub open spec fn names_number(raw: Seq<char>, n: nat) -> bool {
    exists|core: Seq<char>| #[trigger]
        texts::is_core(raw, core) && text::number(core, u32::MAX as nat) == Some(n)
}

/// Whether a text names a room in a supply of so many.
pub open spec fn names_room(raw: Seq<char>, n: nat, total: u32) -> bool {
    names_number(raw, n) && 1 <= n <= total
}

/// What a text names, if anything.
pub proof fn lemma_names(raw: Seq<char>)
    ensures
        match text::number(text::trimmed(raw), u32::MAX as nat) {
            Some(n) => names_number(raw, n) && n <= u32::MAX && forall|m: nat|
                names_number(raw, m) ==> m == n,
            None => forall|m: nat| !names_number(raw, m),
        },
{
    texts::lemma_trimmed_is_core(raw);
    assert forall|m: nat| names_number(raw, m) implies text::number(
        text::trimmed(raw),
        u32::MAX as nat,
    ) == Some(m) by {
        let core = choose|core: Seq<char>| #[trigger]
            texts::is_core(raw, core) && text::number(core, u32::MAX as nat) == Some(m);
        texts::lemma_one_core(raw, core, text::trimmed(raw));
    }
}

/// Whether a list shows exactly those in a room: each of them once, with its
/// presence, and nobody else.
pub open spec fn lists_the_room(
    present: Seq<(String, ClientInfo)>,
    clients: Map<Seq<char>, RecordView>,
    room: u32,
) -> bool {
    &&& forall|who: Seq<char>| #![trigger clients.contains_key(who)]
        clients.contains_key(who) && clients[who].room_id == Some(room) ==> exists|k: int|
            0 <= k < present.len() && (#[trigger] present[k]).0@ == who && shows(
                present[k].1,
                clients[who].info,
            )
    &&& forall|k: int|
        0 <= k < present.len() ==> clients.contains_key((#[trigger] present[k]).0@)
            && clients[present[k].0@].room_id == Some(room)
    &&& forall|k: int, l: int|
        0 <= k < l < present.len() ==> (#[trigger] present[k]).0@ != (#[trigger] present[l]).0@
}

/// Whoever names a room of the supply enters it, whatever it did before, and keeps
/// everything else. It is shown everyone who is there, itself among them, each with
/// its presence, and nobody else. The room it was in, if another, is the one it
/// left; the others are told of it once it has a name or an avatar. Nobody else is
/// touched.
pub proof fn newcomers_see_everyone(
    c: &mut Clients,
    id: &str,
    now: u128,
    raw: &str,
    supply: &Result<ChainConfig, ChainError>,
    r: Result<Joined, RoomErrorBroadcast>,
)
    requires
        call_ensures(handlers::finish_join, (c, id, now, raw, supply), r),
    ensures
        others_stay(old(c)@, final(c)@, id@),
        r matches Ok(joined) ==> {
            let after = final(c)@[id@];
            &&& supply is Ok && names_room(
                raw@,
                joined.room_id as nat,
                supply->Ok_0.total_spaces,
            )
            &&& final(c)@.contains_key(id@) && after.room_id == Some(joined.room_id)
            &&& lists_the_room(joined.present@, final(c)@, joined.room_id)
            &&& old(c)@.contains_key(id@) ==> {
                let before = old(c)@[id@];
                &&& after == (RecordView { room_id: Some(joined.room_id), ..before })
                &&& joined.left == if before.room_id == Some(joined.room_id) {
                    None
                } else {
                    before.room_id
                }
            }
            &&& !old(c)@.contains_key(id@) ==> joined.left is None && after.wallet is None
            &&& joined.news is Some <==> after.info.nickname.len() > 0 || after.info.avatar.len()
                > 0
            &&& joined.news matches Some(news) ==> news.id@ == id@ && shows(
                news.user_data,
                after.info,
            )
        },
        r matches Err(refused) ==> {
            &&& final(c)@ == old(c)@
            &&& refused.room_id@ == raw@ && refused.detail is None
            &&& supply matches Ok(config) ==> refused.code is InvalidRoom && forall|n: nat|
                !names_room(raw@, n, config.total_spaces)
            &&& supply is Err ==> refused.code == if exists|n: nat| #[trigger]
                names_number(raw@, n) && n > 0 {
                RoomErrorCode::ChainUnavailable
            } else {
                RoomErrorCode::InvalidRoom
            }
        },
{
    lemma_names(raw@);
    if let Ok(joined) = r {
        let present = joined.present@;
        assert forall|who: Seq<char>| #![trigger final(c)@.contains_key(who)]
            final(c)@.contains_key(who) && final(c)@[who].room_id == Some(
                joined.room_id,
            ) implies exists|k: int|
            0 <= k < present.len() && (#[trigger] present[k]).0@ == who && shows(
                present[k].1,
                final(c)@[who].info,
            ) by {
            assert(clients::room_in(final(c)@, who) == Some(joined.room_id));
            let k = choose|k: int| 0 <= k < present.len() && (#[trigger] present[k]).0@ == who;
            assert(shows(present[k].1, final(c)@[who].info));
        }
        assert forall|k: int| 0 <= k < present.len() implies final(c)@.contains_key(
            (#[trigger] present[k]).0@,
        ) && final(c)@[present[k].0@].room_id == Some(joined.room_id) by {
            assert(clients::room_in(final(c)@, present[k].0@) == Some(joined.room_id));
        }
    }
}

/// In particular whoever was in the room before is shown to the newcomer.
pub proof fn those_already_there_are_shown(
    c: &mut Clients,
    id: &str,
    now: u128,
    raw: &str,
    supply: &Result<ChainConfig, ChainError>,
    joined: Joined,
    who: Seq<char>,
)
    requires
        call_ensures(
            handlers::finish_join,
            (c, id, now, raw, supply),
            Ok::<Joined, RoomErrorBroadcast>(joined),
        ),
        who != id@,
        old(c)@.contains_key(who),
        old(c)@[who].room_id == Some(joined.room_id),
    ensures
        exists|k: int|
            0 <= k < joined.present@.len() && (#[trigger] joined.present@[k]).0@ == who && shows(
                joined.present@[k].1,
                old(c)@[who].info,
            ),
{
    newcomers_see_everyone(
        c,
        id,
        now,
        raw,
        supply,
        Ok::<Joined, RoomErrorBroadcast>(joined),
    );
    assert(final(c)@.contains_key(who));
}

/// A request to enter is taken up exactly if there is budget for it and it names a
/// number other than zero; it costs one token of the joins, and moves nobody.
pub proof fn joins_are_taken_up(
    c: &mut Clients,
    id: &str,
    now: u128,
    raw: &str,
    r: Result<(), RoomErrorBroadcast>,
)
    requires
        call_ensures(handlers::begin_join, (c, id, now, raw), r),
    ensures
        others_stay(old(c)@, final(c)@, id@),
        r is Ok <==> has_budget(old(c)@, id@, Limit::Joins, now) && exists|n: nat| #[trigger]
            names_number(raw@, n) && n > 0,
        r matches Err(refused) ==> refused.room_id@ == raw@ && refused.detail is None
            && refused.code == if has_budget(old(c)@, id@, Limit::Joins, now) {
            RoomErrorCode::InvalidRoom
        } else {
            RoomErrorCode::RateLimited
        },
        old(c)@.contains_key(id@) ==> final(c)@[id@] == (RecordView {
            limits: limits::drawn(old(c)@[id@].limits, Limit::Joins, now),
            ..old(c)@[id@]
        }),
{
    lemma_names(raw@);
}

/// A client leaves exactly the room that it names and is in; its walk ends with
/// that, and it keeps everything else. Nobody else is touched.
pub proof fn leaving_needs_the_right_room(c: &mut Clients, id: &str, raw: &str, r: Option<u32>)
    requires
        call_ensures(handlers::on_leave_space, (c, id, raw), r),
    ensures
        others_stay(old(c)@, final(c)@, id@),
        r is Some <==> old(c)@.contains_key(id@) && (old(c)@[id@].room_id matches Some(room)
            && names_number(raw@, room as nat)),
        r is Some ==> r == old(c)@[id@].room_id && final(c)@.contains_key(id@) && final(c)@[id@]
            == (RecordView { room_id: None, motion: None, ..old(c)@[id@] }),
        r is None ==> final(c)@ == old(c)@,
{
    lemma_names(raw@);
}

/// The presence of a client, as it is kept, is what others are told of it.
pub proof fn presence_is_told_as_it_is(c: &Clients, id: &str, r: Option<NewUserBroadcast>)
    requires
        call_ensures(handlers::presence_news, (c, id), r),
    ensures
        r is Some <==> c@.contains_key(id@),
        r matches Some(news) ==> news.id@ == id@ && shows(news.user_data, c@[id@].info),
{
}

} // verus!
