//! What clients and server say to each other.

use crate::realtime::clients::{ClientInfo, InfoView};
use crate::realtime::motion::Point;
use crate::realtime::validate::{RoomProgramState, StateView};
use crate::scalar::Scalar;
use crate::text;
use vstd::prelude::*;
use vstd::string::*;

verus! {

// ------------------------------------------------------------- from a client

/// A claim to a wallet, in base58.
#[derive(Debug)]
pub struct AuthPayload {
    pub pubkey: String,
    pub signature: String,
}

/// A chat line: a bare text, or an object that holds one.
#[derive(Debug)]
pub enum ChatMessageInput {
    Text(String),
    Object { message: String, nickname: Option<String> },
}

/// The text of a chat line.
pub open spec fn chat_text(input: ChatMessageInput) -> Seq<char> {
    match input {
        ChatMessageInput::Text(message) => message@,
        ChatMessageInput::Object { message, nickname } => message@,
    }
}

#[derive(Debug)]
pub struct MovePayload {
    pub position: Option<Vec<Scalar>>,
    pub rotation: Option<Scalar>,
    pub seq: Option<u64>,
}

#[derive(Debug)]
pub struct GotoPayload {
    pub position: Option<Vec<Scalar>>,
    pub speed: Option<Scalar>,
    pub rotation: Option<Scalar>,
}

#[derive(Debug)]
pub struct RoomProgramUpdatePayload {
    pub room_id: String,
    pub state: RoomProgramState,
    pub server_revision: Option<u64>,
}

// --------------------------------------------------------------- to a client

/// The nonce of a connection and the text to sign.
#[derive(Debug)]
pub struct AuthNonceBroadcast {
    pub nonce: String,
    pub message: String,
}

#[derive(Debug)]
pub struct AuthResultBroadcast {
    pub ok: bool,
    pub wallet: Option<String>,
    pub error: Option<&'static str>,
}

/// What an answer to a claim says.
pub struct AuthResultView {
    pub ok: bool,
    pub wallet: Option<Seq<char>>,
    pub error: Option<Seq<char>>,
}

impl View for AuthResultBroadcast {
    type V = AuthResultView;

    open spec fn view(&self) -> AuthResultView {
        AuthResultView {
            ok: self.ok,
            wallet: text::opt_text(self.wallet),
            error: match self.error {
                Some(e) => Some(e@),
                None => None,
            },
        }
    }
}

/// The answer to a claim that was refused.
pub open spec fn auth_refused(error: Seq<char>) -> AuthResultView {
    AuthResultView { ok: false, wallet: None, error: Some(error) }
}

/// The answer to a claim that was accepted.
pub open spec fn auth_accepted(wallet: Seq<char>) -> AuthResultView {
    AuthResultView { ok: true, wallet: Some(wallet), error: None }
}

#[derive(Debug)]
pub struct NewUserBroadcast {
    pub id: String,
    pub user_data: ClientInfo,
}

/// What the news of a client says.
pub struct NewUserView {
    pub id: Seq<char>,
    pub user_data: InfoView,
}

impl View for NewUserBroadcast {
    type V = NewUserView;

    open spec fn view(&self) -> NewUserView {
        NewUserView { id: self.id@, user_data: self.user_data@ }
    }
}

#[derive(Debug)]
pub struct MoveBroadcast {
    pub id: String,
    pub position: Point,
    pub rotation: Scalar,
    pub avatar: String,
    pub nickname: String,
    pub avatar_height_scale: Option<Scalar>,
    pub server_seq: u64,
    pub server_time: u64,
    pub client_seq: Option<u64>,
}

/// What the news of a move says.
pub struct MoveView {
    pub id: Seq<char>,
    pub position: Point,
    pub rotation: Scalar,
    pub avatar: Seq<char>,
    pub nickname: Seq<char>,
    pub avatar_height_scale: Option<Scalar>,
    pub server_seq: u64,
    pub server_time: u64,
    pub client_seq: Option<u64>,
}

impl View for MoveBroadcast {
    type V = MoveView;

    open spec fn view(&self) -> MoveView {
        MoveView {
            id: self.id@,
            position: self.position,
            rotation: self.rotation,
            avatar: self.avatar@,
            nickname: self.nickname@,
            avatar_height_scale: self.avatar_height_scale,
            server_seq: self.server_seq,
            server_time: self.server_time,
            client_seq: self.client_seq,
        }
    }
}

/// The news that a client is where its presence says.
pub open spec fn move_news(
    id: Seq<char>,
    info: InfoView,
    server_seq: u64,
    server_time: u64,
    client_seq: Option<u64>,
) -> MoveView {
    MoveView {
        id,
        position: info.position,
        rotation: info.rotation,
        avatar: info.avatar,
        nickname: info.nickname,
        avatar_height_scale: info.avatar_height_scale,
        server_seq,
        server_time,
        client_seq,
    }
}

/// The news that a client is where its presence says.
pub fn announce_move(
    id: &str,
    info: &ClientInfo,
    server_seq: u64,
    server_time: u64,
    client_seq: Option<u64>,
) -> (r: MoveBroadcast)
    ensures
        r@ == move_news(id@, info@, server_seq, server_time, client_seq),
{
    MoveBroadcast {
        id: id.to_owned(),
        position: info.position,
        rotation: info.rotation,
        avatar: info.avatar.clone(),
        nickname: info.nickname.clone(),
        avatar_height_scale: info.avatar_height_scale,
        server_seq,
        server_time,
        client_seq,
    }
}

#[derive(Debug)]
pub struct ChatBroadcast {
    pub id: String,
    pub nickname: String,
    pub message: String,
    pub wallet: Option<String>,
}

/// What a chat line says.
pub struct ChatView {
    pub id: Seq<char>,
    pub nickname: Seq<char>,
    pub message: Seq<char>,
    pub wallet: Option<Seq<char>>,
}

impl View for ChatBroadcast {
    type V = ChatView;

    open spec fn view(&self) -> ChatView {
        ChatView {
            id: self.id@,
            nickname: self.nickname@,
            message: self.message@,
            wallet: text::opt_text(self.wallet),
        }
    }
}

#[derive(Debug)]
pub struct RoomProgramBroadcast {
    pub room_id: String,
    pub state: RoomProgramState,
    pub server_revision: u64,
    pub server_time: u64,
    pub source_client_id: Option<String>,
    pub rejected: Option<RoomErrorCode>,
}

/// What the news of a room's layout says.
pub struct ProgramView {
    pub room_id: Seq<char>,
    pub state: StateView,
    pub server_revision: u64,
    pub server_time: u64,
    pub source_client_id: Option<Seq<char>>,
    pub rejected: Option<RoomErrorCode>,
}

impl View for RoomProgramBroadcast {
    type V = ProgramView;

    open spec fn view(&self) -> ProgramView {
        ProgramView {
            room_id: self.room_id@,
            state: self.state@,
            server_revision: self.server_revision,
            server_time: self.server_time,
            source_client_id: text::opt_text(self.source_client_id),
            rejected: self.rejected,
        }
    }
}

/// Why a request about a room was refused.
#[derive(Clone, Copy, Debug, PartialEq, Eq, Structural)]
pub enum RoomErrorCode {
    InvalidRoom,
    ChainUnavailable,
    AuthRequired,
    Forbidden,
    StaleRevision,
    InvalidState,
    RateLimited,
    StorageFailed,
}

/// How a code is written.
pub open spec fn code_name(code: RoomErrorCode) -> Seq<char> {
    match code {
        RoomErrorCode::InvalidRoom => "invalid_room"@,
        RoomErrorCode::ChainUnavailable => "chain_unavailable"@,
        RoomErrorCode::AuthRequired => "auth_required"@,
        RoomErrorCode::Forbidden => "forbidden"@,
        RoomErrorCode::StaleRevision => "stale_revision"@,
        RoomErrorCode::InvalidState => "invalid_state"@,
        RoomErrorCode::RateLimited => "rate_limited"@,
        RoomErrorCode::StorageFailed => "storage_failed"@,
    }
}

impl RoomErrorCode {
    /// How the code is written.
    pub fn name(self) -> (r: &'static str)
        ensures
            r@ == code_name(self),
    {
        match self {
            RoomErrorCode::InvalidRoom => "invalid_room",
            RoomErrorCode::ChainUnavailable => "chain_unavailable",
            RoomErrorCode::AuthRequired => "auth_required",
            RoomErrorCode::Forbidden => "forbidden",
            RoomErrorCode::StaleRevision => "stale_revision",
            RoomErrorCode::InvalidState => "invalid_state",
            RoomErrorCode::RateLimited => "rate_limited",
            RoomErrorCode::StorageFailed => "storage_failed",
        }
    }
}

#[derive(Debug)]
pub struct RoomErrorBroadcast {
    pub room_id: String,
    pub code: RoomErrorCode,
    pub detail: Option<String>,
}

/// What a refusal says.
pub struct RefusalView {
    pub room_id: Seq<char>,
    pub code: RoomErrorCode,
    pub detail: Option<Seq<char>>,
}

impl View for RoomErrorBroadcast {
    type V = RefusalView;

    open spec fn view(&self) -> RefusalView {
        RefusalView {
            room_id: self.room_id@,
            code: self.code,
            detail: text::opt_text(self.detail),
        }
    }
}

/// A refusal without further words.
pub open spec fn refusal(room_id: Seq<char>, code: RoomErrorCode) -> RefusalView {
    RefusalView { room_id, code, detail: None }
}

/// A refusal with further words.
pub open spec fn refusal_because(
    room_id: Seq<char>,
    code: RoomErrorCode,
    detail: Seq<char>,
) -> RefusalView {
    RefusalView { room_id, code, detail: Some(detail) }
}

/// A refusal without further words.
pub fn refuse(room_id: String, code: RoomErrorCode) -> (r: RoomErrorBroadcast)
    ensures
        r@ == refusal(room_id@, code),
{
    RoomErrorBroadcast { room_id, code, detail: None }
}

/// A refusal with further words.
pub fn refuse_because(room_id: String, code: RoomErrorCode, detail: String) -> (r:
    RoomErrorBroadcast)
    ensures
        r@ == refusal_because(room_id@, code, detail@),
{
    RoomErrorBroadcast { room_id, code, detail: Some(detail) }
}

/// What a wallet may do in a room.
#[derive(Debug)]
pub struct RoomAccess {
    pub can_edit: bool,
    pub holder: Option<String>,
    pub is_open: bool,
    pub minted: bool,
}

/// What an access notice says.
pub struct RoomAccessView {
    pub can_edit: bool,
    pub holder: Option<Seq<char>>,
    pub is_open: bool,
    pub minted: bool,
}

impl View for RoomAccess {
    type V = RoomAccessView;

    open spec fn view(&self) -> RoomAccessView {
        RoomAccessView {
            can_edit: self.can_edit,
            holder: text::opt_text(self.holder),
            is_open: self.is_open,
            minted: self.minted,
        }
    }
}

#[derive(Debug)]
pub struct RoomAccessBroadcast {
    pub room_id: String,
    pub access: RoomAccess,
}

// ----------------------------------------------------------------- room names

/// The id of a room as text.
pub open spec fn room_text(room_id: u32) -> Seq<char> {
    text::decimal(room_id as nat)
}

/// The name under which the sockets in a room are reached.
pub open spec fn room_name(room_id: u32) -> Seq<char> {
    "space:"@ + room_text(room_id)
}

/// The id of a room as text.
pub fn write_room_id(room_id: u32) -> (r: String)
    ensures
        r@ == room_text(room_id),
{
    text::write_decimal(room_id as u64)
}

/// The name under which the sockets in a room are reached.
pub fn space_room_name(room_id: u32) -> (r: String)
    ensures
        r@ == room_name(room_id),
{
    let id = write_room_id(room_id);
    text::join("space:", id.as_str())
}

/// No two rooms share a name, so what is said in one is not heard in another.
pub proof fn room_names_differ(a: u32, b: u32)
    requires
        a != b,
    ensures
        room_name(a) != room_name(b),
{
    if room_name(a) == room_name(b) {
        let n = "space:"@.len() as int;
        assert(room_text(a) =~= room_name(a).skip(n));
        assert(room_text(b) =~= room_name(b).skip(n));
        text::decimal_is_injective(a as nat, b as nat);
    }
}

/// The milliseconds since the epoch that a clock shows, if it is not before it.
pub fn now_millis(since_epoch: Option<u128>) -> (r: u64)
    ensures
        r == match since_epoch {
            Some(ms) => if ms <= u64::MAX {
                ms as u64
            } else {
                u64::MAX
            },
            None => 0,
        },
{
    match since_epoch {
        Some(ms) => if ms <= u64::MAX as u128 {
            ms as u64
        } else {
            u64::MAX
        },
        None => 0,
    }
}

} // verus!
