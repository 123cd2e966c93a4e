//! What the server does about each event of a socket.
//!
//! - Identity is a wallet proven by signing a nonce. Guests may look, move and
//!   chat; they cannot edit.
//! - Room ids are the space ids `1..=total_spaces` read from the chain.
//! - A layout is written by the current holder of the space's NFT, an editor on
//!   the chain, or a configured moderator.
//! - The author of an update names the revision last seen; any other than the
//!   current one is refused with the current layout.
//! - An update is on disk before anyone hears of it.
//!
//! Each function takes what arrived and what was found out, and says what to
//! send. Reading the chain and the disk, and the sending itself, lie outside.

use crate::auth;
use crate::chain::{self, AccessView, ChainConfig, ChainError, ErrorView};
use crate::limits::Limit;
use crate::pubkey::{self, Pubkey};
use crate::realtime::clients::{self, ClientInfo, Clients, RecordView, UserDataPayload};
use crate::realtime::messages::{
    self,
    AuthNonceBroadcast,
    AuthPayload,
    AuthResultBroadcast,
    ChatBroadcast,
    ChatMessageInput,
    ChatView,
    GotoPayload,
    MoveBroadcast,
    MovePayload,
    MoveView,
    NewUserBroadcast,
    NewUserView,
    ProgramView,
    RefusalView,
    RoomAccess,
    RoomAccessView,
    RoomErrorBroadcast,
    RoomErrorCode,
    RoomProgramBroadcast,
    RoomProgramUpdatePayload,
};
use crate::realtime::motion::{self, Point};
use crate::realtime::rooms::{self, ProgramRecordView, RoomProgramRecord};
use crate::realtime::validate::{self, RoomProgramState, StateView};
use crate::scalar::{self, Scalar};
use crate::text;
use vstd::prelude::*;
use vstd::string::*;

verus! {

/// How large a polled payload may be.
pub const MAX_PAYLOAD_BYTES: u64 = 262_144;

pub const MAX_CHAT_LEN: usize = 500;

// ------------------------------------------------------- connecting and auth

/// A socket connected: it is told the nonce to sign, and the text to sign for
/// it. The number is how many are connected.
pub fn on_connect(clients: &mut Clients, id: &str, now: u128) -> (r: (AuthNonceBroadcast, usize))
    requires
        old(clients).wf(),
    ensures
        final(clients).wf(),
        final(clients)@ == old(clients)@.insert(
            id@,
            clients::record_or_new(old(clients)@, id@, r.0.nonce@, now),
        ),
        r.0.nonce@ == final(clients)@[id@].nonce,
        !old(clients)@.contains_key(id@) ==> clients::is_nonce(r.0.nonce@),
        r.0.message@ == auth::message_for(r.0.nonce@),
        r.1 == final(clients)@.dom().len(),
{
    let nonce = clients.insert_default(id, now);
    let message = auth::auth_message(nonce.as_str());
    (AuthNonceBroadcast { nonce, message }, clients.len())
}

/// The answer to a claim to a wallet; and, once a client in a room has proven
/// one, the room and the wallet.
#[derive(Debug)]
pub struct AuthReply {
    pub result: AuthResultBroadcast,
    pub proven: Option<(u32, Pubkey)>,
}

/// What a claim to a wallet comes to.
pub open spec fn auth_handled(
    before: Map<Seq<char>, RecordView>,
    id: Seq<char>,
    now: u128,
    payload: Option<AuthPayload>,
    after: Map<Seq<char>, RecordView>,
    reply: AuthReply,
) -> bool {
    let drawn = clients::after_act(before, id, Limit::Auth, now);
    if !clients::may_act(before, id, Limit::Auth, now) {
        &&& after == drawn
        &&& reply.result@ == messages::auth_refused("rate_limited"@)
        &&& reply.proven is None
    } else {
        match payload {
            None => {
                &&& after == drawn
                &&& reply.result@ == messages::auth_refused("bad_payload"@)
                &&& reply.proven is None
            },
            Some(claim) => match auth::verification(
                claim.pubkey@,
                claim.signature@,
                before[id].nonce,
            ) {
                Err(_) => {
                    &&& after == drawn
                    &&& reply.result@ == messages::auth_refused("invalid_signature"@)
                    &&& reply.proven is None
                },
                Ok(bytes) => {
                    &&& after[id].wallet matches Some(wallet)
                    &&& wallet.bytes@ == bytes
                    &&& after == drawn.insert(
                        id,
                        clients::proven(drawn[id], wallet, after[id].nonce),
                    )
                    &&& clients::is_nonce(after[id].nonce)
                    &&& reply.result@ == messages::auth_accepted(pubkey::pubkey_text(bytes))
                    &&& reply.proven == match before[id].room_id {
                        Some(room_id) => Some((room_id, wallet)),
                        None => None,
                    }
                },
            },
        }
    }
}

fn auth_refusal(error: &'static str) -> (r: AuthReply)
    ensures
        r.result@ == messages::auth_refused(error@),
        r.proven is None,
{
    AuthReply {
        result: AuthResultBroadcast { ok: false, wallet: None, error: Some(error) },
        proven: None,
    }
}

/// A client claims a wallet; `None` stands for a payload that is no claim.
pub fn on_auth(clients: &mut Clients, id: &str, now: u128, payload: Option<AuthPayload>) -> (r:
    AuthReply)
    requires
        old(clients).wf(),
    ensures
        final(clients).wf(),
        auth_handled(old(clients)@, id@, now, payload, final(clients)@, r),
{
    if !clients.allow(id, Limit::Auth, now) {
        return auth_refusal("rate_limited");
    }
    match payload {
        None => auth_refusal("bad_payload"),
        Some(claim) => match clients.authenticate(
            id,
            claim.pubkey.as_str(),
            claim.signature.as_str(),
        ) {
            Err(_) => auth_refusal("invalid_signature"),
            Ok((wallet, room_id)) => AuthReply {
                result: AuthResultBroadcast {
                    ok: true,
                    wallet: Some(wallet.to_text()),
                    error: None,
                },
                proven: match room_id {
                    Some(room_id) => Some((room_id, wallet)),
                    None => None,
                },
            },
        },
    }
}

/// The news of a client as it is now, if it is still connected.
pub fn presence_news(clients: &Clients, id: &str) -> (r: Option<NewUserBroadcast>)
    requires
        clients.wf(),
    ensures
        match r {
            Some(news) => clients@.contains_key(id@) && news@ == (NewUserView {
                id: id@,
                user_data: clients@[id@].info,
            }),
            None => !clients@.contains_key(id@),
        },
{
    match clients.get_with_room(id) {
        Some((user_data, _)) => Some(NewUserBroadcast { id: id.to_owned(), user_data }),
        None => None,
    }
}

// ------------------------------------------------------------ chat and presence

/// What a chat line comes to: who hears what. It is heard by everyone in the
/// room of its author, without the white space around it and cut to 500
/// characters; an empty one is not heard.
pub open spec fn chat_heard(
    clients: Map<Seq<char>, RecordView>,
    id: Seq<char>,
    now: u128,
    payload: Option<ChatMessageInput>,
) -> Option<(u32, ChatView)> {
    match (payload, clients::room_in(clients, id)) {
        (Some(input), Some(room_id)) => {
            let message = text::truncated(
                text::trimmed(messages::chat_text(input)),
                MAX_CHAT_LEN as nat,
            );
            if clients::may_act(clients, id, Limit::Chat, now) && message.len() > 0 {
                Some(
                    (
                        room_id,
                        ChatView {
                            id,
                            nickname: clients[id].info.nickname,
                            message,
                            wallet: clients[id].info.wallet,
                        },
                    ),
                )
            } else {
                None
            }
        },
        _ => None,
    }
}

/// The clients after a chat line: its author's budget is drawn on, if there was a
/// line and a room to say it in.
pub open spec fn after_chat(
    clients: Map<Seq<char>, RecordView>,
    id: Seq<char>,
    now: u128,
    payload: Option<ChatMessageInput>,
) -> Map<Seq<char>, RecordView> {
    if payload is Some && clients::room_in(clients, id) is Some {
        clients::after_act(clients, id, Limit::Chat, now)
    } else {
        clients
    }
}

/// A client says something; `None` stands for a payload that is no chat line.
pub fn on_chat_message(
    clients: &mut Clients,
    id: &str,
    now: u128,
    payload: Option<ChatMessageInput>,
) -> (r: Option<(u32, ChatBroadcast)>)
    requires
        old(clients).wf(),
    ensures
        final(clients).wf(),
        final(clients)@ == after_chat(old(clients)@, id@, now, payload),
        match r {
            Some((room_id, news)) => chat_heard(old(clients)@, id@, now, payload) == Some(
                (room_id, news@),
            ),
            None => chat_heard(old(clients)@, id@, now, payload) is None,
        },
{
    let message = match payload {
        None => return None,
        Some(ChatMessageInput::Text(message)) => message,
        Some(ChatMessageInput::Object { message, nickname: _ }) => message,
    };
    let (info, room_id): (ClientInfo, u32) = match clients.get_with_room(id) {
        Some((info, Some(room_id))) => (info, room_id),
        _ => return None,
    };
    if !clients.allow(id, Limit::Chat, now) {
        return None;
    }
    let message = text::truncate_chat(message.as_str(), MAX_CHAT_LEN);
    if message.as_str().is_empty() {
        return None;
    }
    Some(
        (
            room_id,
            ChatBroadcast {
                id: id.to_owned(),
                nickname: info.nickname,
                message,
                wallet: info.wallet,
            },
        ),
    )
}

/// The clients after one of them spoke of itself.
pub open spec fn after_user_data(
    clients: Map<Seq<char>, RecordView>,
    id: Seq<char>,
    now: u128,
    payload: Option<UserDataPayload>,
) -> Map<Seq<char>, RecordView> {
    match payload {
        None => clients,
        Some(data) => {
            let drawn = clients::after_act(clients, id, Limit::UserData, now);
            if clients::may_act(clients, id, Limit::UserData, now) {
                drawn.insert(
                    id,
                    RecordView {
                        info: clients::with_user_data(drawn[id].info, data),
                        ..drawn[id]
                    },
                )
            } else {
                drawn
            }
        },
    }
}

/// A client speaks of itself. The others in its room are told, if it is in one.
pub fn on_set_user_data(
    clients: &mut Clients,
    id: &str,
    now: u128,
    payload: Option<UserDataPayload>,
) -> (r: Option<(u32, NewUserBroadcast)>)
    requires
        old(clients).wf(),
    ensures
        final(clients).wf(),
        final(clients)@ == after_user_data(old(clients)@, id@, now, payload),
        ({
            let told = payload is Some && clients::may_act(
                old(clients)@,
                id@,
                Limit::UserData,
                now,
            ) && clients::room_in(old(clients)@, id@) is Some;
            match r {
                Some((room_id, news)) => told && clients::room_in(old(clients)@, id@) == Some(
                    room_id,
                ) && news@ == (NewUserView { id: id@, user_data: final(clients)@[id@].info }),
                None => !told,
            }
        }),
{
    let data = match payload {
        None => return None,
        Some(data) => data,
    };
    if !clients.allow(id, Limit::UserData, now) {
        return None;
    }
    let (user_data, room_id) = clients.update_user_data(id, data, now);
    match room_id {
        Some(room_id) => Some((room_id, NewUserBroadcast { id: id.to_owned(), user_data })),
        None => None,
    }
}

// ------------------------------------------------------------------- movement

/// The place that a payload names: finite, and in the world.
pub open spec fn place_in(position: Option<Vec<Scalar>>) -> Option<Point> {
    match position {
        Some(v) => match motion::point_of(v@) {
            Some(p) => if motion::in_world(p) {
                Some(p)
            } else {
                None
            },
            None => None,
        },
        None => None,
    }
}

fn read_place(position: &Option<Vec<Scalar>>) -> (r: Option<Point>)
    ensures
        r == place_in(*position),
{
    match position {
        Some(v) => match motion::to_vec3(v) {
            Some(p) => if motion::in_world_bounds(&p) {
                Some(p)
            } else {
                None
            },
            None => None,
        },
        None => None,
    }
}

/// The rotation that a move names, zero if it names none.
pub open spec fn rotation_in(payload: MovePayload) -> Scalar {
    match payload.rotation {
        Some(r) => r,
        None => Scalar { bits: 0 },
    }
}

/// What a move comes to: the clients after it, and who hears what. A move counts
/// if its place is in the world, its rotation is finite, its author has budget
/// left and is in a room, and it is news.
pub open spec fn move_handled(
    clients: Map<Seq<char>, RecordView>,
    id: Seq<char>,
    now: u128,
    now_ms: u64,
    payload: Option<MovePayload>,
) -> (Map<Seq<char>, RecordView>, Option<(u32, MoveView)>) {
    match payload {
        None => (clients, None),
        Some(payload) => match place_in(payload.position) {
            None => (clients, None),
            Some(position) => {
                let rotation = rotation_in(payload);
                let drawn = clients::after_act(clients, id, Limit::Moves, now);
                if !scalar::is_finite(rotation) {
                    (clients, None)
                } else if !clients::may_act(clients, id, Limit::Moves, now)
                    || clients[id].room_id is None || !clients::is_news(
                    clients[id].last_client_move_seq,
                    payload.seq,
                ) {
                    (drawn, None)
                } else {
                    let after = clients::moved(drawn[id], position, rotation, payload.seq);
                    (
                        drawn.insert(id, after),
                        Some(
                            (
                                after.room_id->0,
                                messages::move_news(
                                    id,
                                    after.info,
                                    after.server_move_seq,
                                    now_ms,
                                    payload.seq,
                                ),
                            ),
                        ),
                    )
                }
            },
        },
    }
}

/// A client moves. Who it is follows from the socket alone.
pub fn on_move(
    clients: &mut Clients,
    id: &str,
    now: u128,
    now_ms: u64,
    payload: Option<MovePayload>,
) -> (r: Option<(u32, MoveBroadcast)>)
    requires
        old(clients).wf(),
    ensures
        final(clients).wf(),
        ({
            let (after, heard) = move_handled(old(clients)@, id@, now, now_ms, payload);
            &&& final(clients)@ == after
            &&& match r {
                Some((room_id, news)) => heard == Some((room_id, news@)),
                None => heard is None,
            }
        }),
{
    let payload = match payload {
        None => return None,
        Some(payload) => payload,
    };
    let position = match read_place(&payload.position) {
        None => return None,
        Some(position) => position,
    };
    let rotation = match payload.rotation {
        Some(rotation) => rotation,
        None => Scalar::new(0),
    };
    if !rotation.is_finite() {
        return None;
    }
    if !clients.allow(id, Limit::Moves, now) {
        return None;
    }
    match clients.update_move(id, position, rotation, payload.seq) {
        None => None,
        Some((info, room_id, server_seq)) => Some(
            (room_id, messages::announce_move(id, &info, server_seq, now_ms, payload.seq)),
        ),
    }
}

/// The clients after one of them asked to walk somewhere.
pub open spec fn after_goto(
    clients: Map<Seq<char>, RecordView>,
    id: Seq<char>,
    now: u128,
    payload: Option<GotoPayload>,
) -> Map<Seq<char>, RecordView> {
    match payload {
        None => clients,
        Some(payload) => match place_in(payload.position) {
            None => clients,
            Some(target) => {
                let drawn = clients::after_act(clients, id, Limit::Moves, now);
                if clients::may_act(clients, id, Limit::Moves, now) && clients[id].room_id is Some {
                    drawn.insert(
                        id,
                        clients::sent_off(
                            drawn[id],
                            target,
                            motion::walking_speed(payload.speed),
                            payload.rotation,
                        ),
                    )
                } else {
                    drawn
                }
            },
        },
    }
}

/// A client walks somewhere; its steps are told as they are taken.
pub fn on_goto(clients: &mut Clients, id: &str, now: u128, payload: Option<GotoPayload>)
    requires
        old(clients).wf(),
    ensures
        final(clients).wf(),
        final(clients)@ == after_goto(old(clients)@, id@, now, payload),
{
    if let Some(payload) = payload {
        if let Some(target) = read_place(&payload.position) {
            if clients.allow(id, Limit::Moves, now) {
                let speed = motion::speed_for(payload.speed);
                let _ = clients.set_goto(id, target, speed, payload.rotation);
            }
        }
    }
}

// ------------------------------------------------------------ entering a room

/// A client asks to enter a room. `Ok` means that the supply of spaces decides.
pub fn begin_join(clients: &mut Clients, id: &str, now: u128, raw: &str) -> (r: Result<
    (),
    RoomErrorBroadcast,
>)
    requires
        old(clients).wf(),
    ensures
        final(clients).wf(),
        final(clients)@ == clients::after_act(old(clients)@, id@, Limit::Joins, now),
        if !clients::may_act(old(clients)@, id@, Limit::Joins, now) {
            r matches Err(refused) && refused@ == messages::refusal(raw@, RoomErrorCode::RateLimited)
        } else {
            match rooms::room_number(raw@) {
                Ok(_) => r is Ok,
                Err(code) => r matches Err(refused) && refused@ == messages::refusal(raw@, code),
            }
        },
{
    if !clients.allow(id, Limit::Joins, now) {
        return Err(messages::refuse(raw.to_owned(), RoomErrorCode::RateLimited));
    }
    match rooms::parse_room_number(raw) {
        Ok(_) => Ok(()),
        Err(code) => Err(messages::refuse(raw.to_owned(), code)),
    }
}

/// A client that entered a room: the other room it left, if it was in one, who
/// is in the room now, and what the others there are told.
#[derive(Debug)]
pub struct Joined {
    pub room_id: u32,
    pub left: Option<u32>,
    pub present: Vec<(String, ClientInfo)>,
    pub news: Option<NewUserBroadcast>,
}

/// What entering a room comes to.
pub open spec fn join_handled(
    before: Map<Seq<char>, RecordView>,
    id: Seq<char>,
    now: u128,
    room_id: u32,
    after: Map<Seq<char>, RecordView>,
    joined: Joined,
) -> bool {
    let was = clients::record_or_new(before, id, after[id].nonce, now);
    &&& after == before.insert(id, RecordView { room_id: Some(room_id), ..was })
    &&& joined.room_id == room_id
    &&& joined.left == match was.room_id {
        Some(previous) => if previous != room_id {
            Some(previous)
        } else {
            None
        },
        None => None,
    }
    &&& clients::snapshot_of(after, room_id, joined.present@)
    &&& match joined.news {
        Some(news) => (was.info.nickname.len() > 0 || was.info.avatar.len() > 0) && news@ == (
        NewUserView { id, user_data: was.info }),
        None => was.info.nickname.len() == 0 && was.info.avatar.len() == 0,
    }
}

/// A client enters a room, if the supply of spaces has it.
pub fn finish_join(
    clients: &mut Clients,
    id: &str,
    now: u128,
    raw: &str,
    supply: &Result<ChainConfig, ChainError>,
) -> (r: Result<Joined, RoomErrorBroadcast>)
    requires
        old(clients).wf(),
    ensures
        final(clients).wf(),
        match rooms::room_named(raw@, chain::config_outcome(*supply)) {
            Ok(room_id) => r matches Ok(joined) && join_handled(
                old(clients)@,
                id@,
                now,
                room_id,
                final(clients)@,
                joined,
            ),
            Err(code) => r matches Err(refused) && refused@ == messages::refusal(raw@, code)
                && final(clients)@ == old(clients)@,
        },
{
    let room_id = match rooms::parse_room_id(raw, supply) {
        Ok(room_id) => room_id,
        Err(code) => return Err(messages::refuse(raw.to_owned(), code)),
    };
    let (previous, user_data) = clients.set_room(id, room_id, now);
    let left: Option<u32> = match previous {
        Some(previous) => if previous != room_id {
            Some(previous)
        } else {
            None
        },
        None => None,
    };
    let present = clients.snapshot_room(room_id);
    let news = if !user_data.nickname.as_str().is_empty() || !user_data.avatar.as_str().is_empty() {
        Some(NewUserBroadcast { id: id.to_owned(), user_data })
    } else {
        None
    };
    Ok(Joined { room_id, left, present, news })
}

/// A client leaves a room. The result is the room that it left, if it was there;
/// the others in it are told.
pub fn on_leave_space(clients: &mut Clients, id: &str, raw: &str) -> (r: Option<u32>)
    requires
        old(clients).wf(),
    ensures
        final(clients).wf(),
        match text::number(text::trimmed(raw@), u32::MAX as nat) {
            Some(n) => if clients::room_in(old(clients)@, id@) == Some(n as u32) {
                r == Some(n as u32) && final(clients)@ == old(clients)@.insert(
                    id@,
                    RecordView { motion: None, room_id: None, ..old(clients)@[id@] },
                )
            } else {
                r is None && final(clients)@ == old(clients)@
            },
            None => r is None && final(clients)@ == old(clients)@,
        },
{
    let trimmed = text::trim(raw);
    match text::parse_number(trimmed.as_str(), u32::MAX as u64) {
        Some(n) => clients.clear_room(id, n as u32),
        None => None,
    }
}

/// A socket is gone. The result is the room it was in, whose clients are told,
/// and how many are still connected.
pub fn on_disconnect(clients: &mut Clients, id: &str) -> (r: (Option<u32>, usize))
    requires
        old(clients).wf(),
    ensures
        final(clients).wf(),
        final(clients)@ == old(clients)@.remove(id@),
        r.0 == clients::room_in(old(clients)@, id@),
        r.1 == final(clients)@.dom().len(),
{
    let room_id = clients.remove(id);
    (room_id, clients.len())
}

// ------------------------------------------------------------ reading a layout

/// A client asks for a layout. `None` means that the request is dropped, and
/// `Ok` that the supply of spaces decides.
pub fn begin_request(clients: &mut Clients, id: &str, now: u128, raw: &str) -> (r: Option<
    Result<(), RoomErrorBroadcast>,
>)
    requires
        old(clients).wf(),
    ensures
        final(clients).wf(),
        final(clients)@ == clients::after_act(old(clients)@, id@, Limit::Joins, now),
        if !clients::may_act(old(clients)@, id@, Limit::Joins, now) {
            r is None
        } else {
            match rooms::room_number(raw@) {
                Ok(_) => r == Some(Ok::<(), RoomErrorBroadcast>(())),
                Err(code) => r matches Some(Err(refused)) && refused@ == messages::refusal(
                    raw@,
                    code,
                ),
            }
        },
{
    if !clients.allow(id, Limit::Joins, now) {
        return None;
    }
    match rooms::parse_room_number(raw) {
        Ok(_) => Some(Ok(())),
        Err(code) => Some(Err(messages::refuse(raw.to_owned(), code))),
    }
}

/// Which layout a client may read: that of the room it is in.
pub open spec fn readable(
    clients: Map<Seq<char>, RecordView>,
    id: Seq<char>,
    raw: Seq<char>,
    supply: Result<ChainConfig, ErrorView>,
) -> Result<u32, RefusalView> {
    match rooms::room_named(raw, supply) {
        Err(code) => Err(messages::refusal(raw, code)),
        Ok(room_id) => if clients::room_in(clients, id) == Some(room_id) {
            Ok(room_id)
        } else {
            Err(
                messages::refusal_because(
                    messages::room_text(room_id),
                    RoomErrorCode::Forbidden,
                    "join the space first"@,
                ),
            )
        },
    }
}

/// A client reads a layout: that of the room it is in. Reading does not move it
/// there.
pub fn finish_request(
    clients: &Clients,
    id: &str,
    raw: &str,
    supply: &Result<ChainConfig, ChainError>,
) -> (r: Result<u32, RoomErrorBroadcast>)
    requires
        clients.wf(),
    ensures
        match r {
            Ok(room_id) => readable(clients@, id@, raw@, chain::config_outcome(*supply)) == Ok::<
                u32,
                RefusalView,
            >(room_id),
            Err(refused) => readable(clients@, id@, raw@, chain::config_outcome(*supply)) == Err::<
                u32,
                RefusalView,
            >(refused@),
        },
{
    match rooms::parse_room_id(raw, supply) {
        Err(code) => Err(messages::refuse(raw.to_owned(), code)),
        Ok(room_id) => if clients.room_of(id) == Some(room_id) {
            Ok(room_id)
        } else {
            Err(
                messages::refuse_because(
                    messages::write_room_id(room_id),
                    RoomErrorCode::Forbidden,
                    "join the space first".to_owned(),
                ),
            )
        },
    }
}

// ----------------------------------------------------------- changing a layout

/// A client asks to change a layout; `None` stands for a payload that is no such
/// request. `Ok` means that the supply of spaces decides next.
pub fn begin_update(payload: Option<RoomProgramUpdatePayload>) -> (r: Result<
    RoomProgramUpdatePayload,
    RoomErrorBroadcast,
>)
    ensures
        match payload {
            None => r matches Err(refused) && refused@ == malformed_update(),
            Some(request) => match rooms::room_number(request.room_id@) {
                Ok(_) => r == Ok::<RoomProgramUpdatePayload, RoomErrorBroadcast>(request),
                Err(code) => r matches Err(refused) && refused@ == messages::refusal(
                    request.room_id@,
                    code,
                ),
            },
        },
{
    match payload {
        None => Err(
            messages::refuse_because(
                "?".to_owned(),
                RoomErrorCode::InvalidState,
                "malformed payload".to_owned(),
            ),
        ),
        Some(request) => match rooms::parse_room_number(request.room_id.as_str()) {
            Ok(_) => Ok(request),
            Err(code) => Err(messages::refuse(request.room_id, code)),
        },
    }
}

/// The answer to a payload that is no update.
pub open spec fn malformed_update() -> RefusalView {
    messages::refusal_because("?"@, RoomErrorCode::InvalidState, "malformed payload"@)
}

/// An update by a client that is in the room and has proven a wallet.
#[derive(Debug)]
pub struct AdmittedUpdate {
    pub room_id: u32,
    pub wallet: Pubkey,
    pub state: RoomProgramState,
    pub expected_revision: u64,
}

/// Whether an update is admitted: for which room and wallet, or why not.
pub open spec fn admission(
    clients: Map<Seq<char>, RecordView>,
    id: Seq<char>,
    now: u128,
    raw: Seq<char>,
    supply: Result<ChainConfig, ErrorView>,
) -> Result<(u32, Pubkey), RefusalView> {
    match readable(clients, id, raw, supply) {
        Err(refused) => Err(refused),
        Ok(room_id) => if !clients::may_act(clients, id, Limit::RoomUpdates, now) {
            Err(messages::refusal(messages::room_text(room_id), RoomErrorCode::RateLimited))
        } else {
            match clients::wallet_in(clients, id) {
                None => Err(
                    messages::refusal(messages::room_text(room_id), RoomErrorCode::AuthRequired),
                ),
                Some(wallet) => Ok((room_id, wallet)),
            }
        },
    }
}

/// The revision that an update was made against, zero if it names none.
pub open spec fn expected_in(server_revision: Option<u64>) -> u64 {
    match server_revision {
        Some(n) => n,
        None => 0,
    }
}

/// Admits an update: its author is in the room, has budget left and has proven a
/// wallet. The budget is drawn on only for a room that the author is in.
pub fn admit_update(
    clients: &mut Clients,
    id: &str,
    now: u128,
    request: RoomProgramUpdatePayload,
    supply: &Result<ChainConfig, ChainError>,
) -> (r: Result<AdmittedUpdate, RoomErrorBroadcast>)
    requires
        old(clients).wf(),
    ensures
        final(clients).wf(),
        ({
            let supply = chain::config_outcome(*supply);
            let raw = request.room_id@;
            &&& final(clients)@ == if readable(old(clients)@, id@, raw, supply) is Ok {
                clients::after_act(old(clients)@, id@, Limit::RoomUpdates, now)
            } else {
                old(clients)@
            }
            &&& match r {
                Ok(update) => {
                    &&& admission(old(clients)@, id@, now, raw, supply) == Ok::<
                        (u32, Pubkey),
                        RefusalView,
                    >((update.room_id, update.wallet))
                    &&& update.state == request.state
                    &&& update.expected_revision == expected_in(request.server_revision)
                },
                Err(refused) => admission(old(clients)@, id@, now, raw, supply) == Err::<
                    (u32, Pubkey),
                    RefusalView,
                >(refused@),
            }
        }),
{
    let room_id = match finish_request(clients, id, request.room_id.as_str(), supply) {
        Ok(room_id) => room_id,
        Err(refused) => return Err(refused),
    };
    if !clients.allow(id, Limit::RoomUpdates, now) {
        return Err(
            messages::refuse(messages::write_room_id(room_id), RoomErrorCode::RateLimited),
        );
    }
    match clients.wallet_of(id) {
        None => Err(
            messages::refuse(messages::write_room_id(room_id), RoomErrorCode::AuthRequired),
        ),
        Some(wallet) => Ok(
            AdmittedUpdate {
                room_id,
                wallet,
                state: request.state,
                expected_revision: match request.server_revision {
                    Some(n) => n,
                    None => 0,
                },
            },
        ),
    }
}

/// Why an admitted update is refused, if it is: its author may not edit, or what
/// the author may do could not be found out, or the layout is not in order.
pub open spec fn objection(
    room_id: u32,
    state: StateView,
    access: Result<RoomAccessView, RoomErrorCode>,
) -> Option<RefusalView> {
    let room = messages::room_text(room_id);
    match access {
        Err(code) => Some(messages::refusal(room, code)),
        Ok(access) => if !access.can_edit {
            Some(messages::refusal(room, RoomErrorCode::Forbidden))
        } else {
            match validate::state_problem(state) {
                Some(problem) => Some(
                    messages::refusal_because(
                        room,
                        RoomErrorCode::InvalidState,
                        validate::problem_text(problem),
                    ),
                ),
                None => None,
            }
        },
    }
}

/// Authorizes an admitted update. It may be prepared if there is no objection.
pub fn authorize_update(update: &AdmittedUpdate, access: Result<RoomAccess, RoomErrorCode>) -> (r:
    Result<(), RoomErrorBroadcast>)
    ensures
        match r {
            Ok(_) => objection(update.room_id, update.state@, rooms::access_views(access)) is None,
            Err(refused) => objection(update.room_id, update.state@, rooms::access_views(access))
                == Some(refused@),
        },
{
    match access {
        Err(code) => Err(messages::refuse(messages::write_room_id(update.room_id), code)),
        Ok(access) => {
            if !access.can_edit {
                return Err(
                    messages::refuse(
                        messages::write_room_id(update.room_id),
                        RoomErrorCode::Forbidden,
                    ),
                );
            }
            match validate::validate_room_state(&update.state) {
                Ok(_) => Ok(()),
                Err(problem) => Err(
                    messages::refuse_because(
                        messages::write_room_id(update.room_id),
                        RoomErrorCode::InvalidState,
                        problem.message(),
                    ),
                ),
            }
        },
    }
}

/// The news of an update, and whether everyone in the room hears it or its author
/// alone.
#[derive(Debug)]
pub struct UpdateNews {
    pub to_everyone: bool,
    pub news: RoomProgramBroadcast,
}

/// What is told of an update: everyone hears of the new record, or the author
/// alone hears why the current one stays.
pub open spec fn update_told(
    room_id: u32,
    id: Seq<char>,
    outcome: Result<ProgramRecordView, (ProgramRecordView, RoomErrorCode)>,
    server_time: u64,
) -> (bool, ProgramView) {
    match outcome {
        Ok(record) => (true, rooms::program_news(room_id, record, server_time, Some(id), None)),
        Err((current, code)) => (
            false,
            rooms::program_news(room_id, current, server_time, None, Some(code)),
        ),
    }
}

/// Tells what became of an update.
pub fn finish_update(
    room_id: u32,
    id: &str,
    outcome: Result<RoomProgramRecord, (RoomProgramRecord, RoomErrorCode)>,
    server_time: u64,
) -> (r: UpdateNews)
    ensures
        (r.to_everyone, r.news@) == update_told(
            room_id,
            id@,
            rooms::update_views(outcome),
            server_time,
        ),
{
    match outcome {
        Ok(record) => UpdateNews {
            to_everyone: true,
            news: record.announce(room_id, server_time, Some(id.to_owned()), None),
        },
        Err((current, code)) => UpdateNews {
            to_everyone: false,
            news: current.announce(room_id, server_time, None, Some(code)),
        },
    }
}

// ------------------------------------------------------------------------ laws

/// What a request to change a layout meets with on its way: everything that was
/// found out for it.
pub struct Circumstances {
    pub supply: Result<ChainConfig, ErrorView>,
    pub moderators: Seq<Pubkey>,
    /// What the chain says of the space.
    pub found: Result<AccessView, ErrorView>,
    /// The room's record when the update is prepared.
    pub current: ProgramRecordView,
    /// Whether the prepared record was written to disk.
    pub saved: bool,
    pub now_ms: u64,
}

/// The record that a request puts in place, if it does.
pub open spec fn written(
    clients: Map<Seq<char>, RecordView>,
    id: Seq<char>,
    now: u128,
    raw: Seq<char>,
    state: StateView,
    server_revision: Option<u64>,
    c: Circumstances,
) -> Option<ProgramRecordView> {
    match admission(clients, id, now, raw, c.supply) {
        Err(_) => None,
        Ok((room_id, wallet)) => if objection(
            room_id,
            state,
            rooms::access_of(c.moderators, wallet, c.found),
        ) is Some {
            None
        } else {
            match rooms::prepared(
                c.current,
                expected_in(server_revision),
                state,
                wallet,
                c.now_ms,
            ) {
                Err(_) => None,
                Ok(next) => match rooms::settled(c.current, next, c.saved) {
                    Err(_) => None,
                    Ok(record) => Some(record),
                },
            }
        },
    }
}

/// A layout changes exactly if its author is in that room, has budget left, has
/// proven a wallet that is a moderator's or that the chain lets edit, sends a
/// layout in order, made it against the current revision, and the new record is
/// on disk. In particular a guest never changes one.
pub proof fn only_rightful_updates_are_written(
    clients: Map<Seq<char>, RecordView>,
    id: Seq<char>,
    now: u128,
    raw: Seq<char>,
    state: StateView,
    server_revision: Option<u64>,
    c: Circumstances,
)
    ensures
        written(clients, id, now, raw, state, server_revision, c) is Some <==> {
            &&& rooms::room_named(raw, c.supply) is Ok
            &&& clients::room_in(clients, id) == Some(rooms::room_named(raw, c.supply)->Ok_0)
            &&& clients::may_act(clients, id, Limit::RoomUpdates, now)
            &&& clients::wallet_in(clients, id) is Some
            &&& {
                let wallet = clients::wallet_in(clients, id)->0;
                c.moderators.contains(wallet) || (c.found is Ok && chain::may_edit(
                    c.found->Ok_0,
                    wallet,
                ))
            }
            &&& validate::state_problem(state) is None
            &&& expected_in(server_revision) == c.current.revision
            &&& c.saved
        },
        written(clients, id, now, raw, state, server_revision, c) matches Some(record) ==> record
            == rooms::successor(c.current, state, clients::wallet_in(clients, id)->0, c.now_ms),
{
}

/// Everyone in a room hears of a layout only once it is on disk.
pub proof fn news_follows_the_disk(
    room_id: u32,
    id: Seq<char>,
    current: ProgramRecordView,
    next: ProgramRecordView,
    saved: bool,
    server_time: u64,
)
    ensures
        update_told(room_id, id, rooms::settled(current, next, saved), server_time).0 <==> saved,
        saved ==> update_told(
            room_id,
            id,
            rooms::settled(current, next, saved),
            server_time,
        ).1.state == next.state,
        !saved ==> update_told(
            room_id,
            id,
            rooms::settled(current, next, saved),
            server_time,
        ).1.state == current.state,
{
}

/// An update against another revision than the current one is answered, to its
/// author alone, with the current layout and revision and why it was refused.
pub proof fn stale_updates_are_answered(
    room_id: u32,
    id: Seq<char>,
    current: ProgramRecordView,
    expected_revision: u64,
    state: StateView,
    by: Pubkey,
    now_ms: u64,
    server_time: u64,
)
    requires
        expected_revision != current.revision,
    ensures
        ({
            let (to_everyone, news) = update_told(
                room_id,
                id,
                rooms::prepared(current, expected_revision, state, by, now_ms),
                server_time,
            );
            &&& !to_everyone
            &&& news.state == current.state
            &&& news.server_revision == current.revision
            &&& news.rejected == Some(RoomErrorCode::StaleRevision)
        }),
{
}

/// A room that was entered can be read; one that was left cannot, until it is
/// entered again.
pub proof fn rooms_are_read_from_inside(
    before: Map<Seq<char>, RecordView>,
    id: Seq<char>,
    now: u128,
    raw: Seq<char>,
    supply: Result<ChainConfig, ErrorView>,
    room_id: u32,
    after: Map<Seq<char>, RecordView>,
    joined: Joined,
)
    requires
        rooms::room_named(raw, supply) == Ok::<u32, RoomErrorCode>(room_id),
        join_handled(before, id, now, room_id, after, joined),
    ensures
        readable(after, id, raw, supply) == Ok::<u32, RefusalView>(room_id),
        readable(
            after.insert(id, RecordView { motion: None, room_id: None, ..after[id] }),
            id,
            raw,
            supply,
        ) is Err,
        readable(after.remove(id), id, raw, supply) is Err,
{
}

/// A client that enters a room finds itself among those present.
pub proof fn newcomers_are_present(
    before: Map<Seq<char>, RecordView>,
    id: Seq<char>,
    now: u128,
    room_id: u32,
    after: Map<Seq<char>, RecordView>,
    joined: Joined,
)
    requires
        join_handled(before, id, now, room_id, after, joined),
    ensures
        exists|k: int|
            0 <= k < joined.present@.len() && (#[trigger] joined.present@[k]).0@ == id
                && joined.present@[k].1@ == after[id].info,
{
    assert(clients::room_in(after, id) == Some(room_id));
}

/// A chat line is heard only in the room of its author.
pub proof fn chat_stays_in_the_room(
    clients: Map<Seq<char>, RecordView>,
    id: Seq<char>,
    now: u128,
    payload: Option<ChatMessageInput>,
)
    ensures
        chat_heard(clients, id, now, payload) matches Some((room_id, line)) ==> {
            &&& clients::room_in(clients, id) == Some(room_id)
            &&& line.id == id
            &&& 0 < line.message.len() <= MAX_CHAT_LEN
        },
{
}

/// A move that others hear of led to a place in the world, and a later message
/// with the same or a lower number is no longer heard.
pub proof fn moves_are_sane_and_ordered(
    clients: Map<Seq<char>, RecordView>,
    id: Seq<char>,
    now: u128,
    now_ms: u64,
    payload: Option<MovePayload>,
    later: u128,
    later_ms: u64,
    again: MovePayload,
)
    requires
        payload is Some,
        payload->0.seq is Some,
        again.seq matches Some(n) && n <= payload->0.seq->0,
    ensures
        ({
            let (after, heard) = move_handled(clients, id, now, now_ms, payload);
            heard matches Some((room_id, news)) ==> {
                &&& clients::room_in(clients, id) == Some(room_id)
                &&& motion::in_world(news.position)
                &&& scalar::is_finite(news.rotation)
                &&& news.client_seq == payload->0.seq
                &&& move_handled(after, id, later, later_ms, Some(again)).1 is None
            }
        }),
{
}

/// Guests may chat and move like everyone else: what is heard of a client that has
/// proven no wallet is what would be heard of it with one, but for the wallet.
pub proof fn guests_may_chat_and_move(
    clients: Map<Seq<char>, RecordView>,
    id: Seq<char>,
    now: u128,
    now_ms: u64,
    chat: Option<ChatMessageInput>,
    step: Option<MovePayload>,
    wallet: Pubkey,
    nonce: Seq<char>,
)
    requires
        clients.contains_key(id),
    ensures
        ({
            let known = clients.insert(id, clients::proven(clients[id], wallet, nonce));
            &&& chat_heard(clients, id, now, chat) is Some <==> chat_heard(
                known,
                id,
                now,
                chat,
            ) is Some
            &&& chat_heard(clients, id, now, chat) matches Some((room_id, line)) ==> chat_heard(
                known,
                id,
                now,
                chat,
            ) == Some(
                (
                    room_id,
                    ChatView { wallet: Some(pubkey::pubkey_text(wallet.bytes@)), ..line },
                ),
            )
            &&& move_handled(clients, id, now, now_ms, step).1 == move_handled(
                known,
                id,
                now,
                now_ms,
                step,
            ).1
        }),
{
}

/// Chatting, speaking of oneself and moving prove nothing: nobody's wallet, nonce
/// or room changes by them.
pub proof fn only_auth_proves_a_wallet(
    clients: Map<Seq<char>, RecordView>,
    id: Seq<char>,
    other: Seq<char>,
    now: u128,
    now_ms: u64,
    chat: Option<ChatMessageInput>,
    data: Option<UserDataPayload>,
    step: Option<MovePayload>,
    walk: Option<GotoPayload>,
)
    requires
        clients.contains_key(other),
    ensures
        keeps_standing(clients, after_chat(clients, id, now, chat), other),
        keeps_standing(clients, after_user_data(clients, id, now, data), other),
        keeps_standing(clients, move_handled(clients, id, now, now_ms, step).0, other),
        keeps_standing(clients, after_goto(clients, id, now, walk), other),
{
}

/// Whether a connection's wallet, nonce and room are what they were.
pub open spec fn keeps_standing(
    before: Map<Seq<char>, RecordView>,
    after: Map<Seq<char>, RecordView>,
    id: Seq<char>,
) -> bool {
    &&& after.contains_key(id)
    &&& after[id].wallet == before[id].wallet
    &&& after[id].nonce == before[id].nonce
    &&& after[id].room_id == before[id].room_id
}

/// Nobody but the sender is touched by a chat line, by user data or by a move.
pub proof fn others_are_untouched(
    clients: Map<Seq<char>, RecordView>,
    id: Seq<char>,
    other: Seq<char>,
    now: u128,
    now_ms: u64,
    chat: Option<ChatMessageInput>,
    data: Option<UserDataPayload>,
    step: Option<MovePayload>,
    walk: Option<GotoPayload>,
)
    requires
        other != id,
        clients.contains_key(other),
    ensures
        after_chat(clients, id, now, chat).contains_key(other),
        after_chat(clients, id, now, chat)[other] == clients[other],
        after_user_data(clients, id, now, data).contains_key(other),
        after_user_data(clients, id, now, data)[other] == clients[other],
        move_handled(clients, id, now, now_ms, step).0.contains_key(other),
        move_handled(clients, id, now, now_ms, step).0[other] == clients[other],
        after_goto(clients, id, now, walk).contains_key(other),
        after_goto(clients, id, now, walk)[other] == clients[other],
{
}

} // verus!
