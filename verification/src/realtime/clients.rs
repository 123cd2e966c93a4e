//! Who is connected, where they are and what they may still do.
//!
//! Times are nanoseconds on a clock that does not go back.

use crate::auth::{self, AuthError};
use crate::limits::{self, ClientLimits, Limit, LimitsView};
use crate::pubkey::{self, Pubkey};
use crate::realtime::messages::{self, MoveBroadcast, MoveView};
use crate::realtime::motion::{self, Measured, Motion, Point};
use crate::scalar::{self, Scalar};
use crate::text;
use crate::text_map::TextMap;
use vstd::prelude::*;
use vstd::string::*;
use vstd::utf8::*;

verus! {

pub const MAX_NICKNAME_LEN: usize = 32;

pub const MAX_AVATAR_LEN: usize = 512;

/// The bits of `0.5`, the smallest height scale of an avatar.
pub const MIN_HEIGHT_SCALE_BITS: u32 = 0x3f00_0000;

/// The bits of `2.0`, the largest height scale of an avatar.
pub const MAX_HEIGHT_SCALE_BITS: u32 = 0x4000_0000;

// ------------------------------------------------------------------ presence

/// What others see of a client.
#[derive(Debug)]
pub struct ClientInfo {
    pub position: Point,
    pub rotation: Scalar,
    pub avatar: String,
    pub nickname: String,
    pub wallet: Option<String>,
    pub avatar_height_scale: Option<Scalar>,
}

/// What a presence record says.
pub struct InfoView {
    pub position: Point,
    pub rotation: Scalar,
    pub avatar: Seq<char>,
    pub nickname: Seq<char>,
    pub wallet: Option<Seq<char>>,
    pub avatar_height_scale: Option<Scalar>,
}

impl View for ClientInfo {
    type V = InfoView;

    open spec fn view(&self) -> InfoView {
        InfoView {
            position: self.position,
            rotation: self.rotation,
            avatar: self.avatar@,
            nickname: self.nickname@,
            wallet: text::opt_text(self.wallet),
            avatar_height_scale: self.avatar_height_scale,
        }
    }
}

/// The presence of a client that has said nothing yet.
pub open spec fn blank_info() -> InfoView {
    InfoView {
        position: motion::origin_point(),
        rotation: Scalar { bits: 0 },
        avatar: Seq::empty(),
        nickname: Seq::empty(),
        wallet: None,
        avatar_height_scale: None,
    }
}

impl ClientInfo {
    /// The presence of a client that has said nothing yet.
    pub fn blank() -> (r: ClientInfo)
        ensures
            r@ == blank_info(),
    {
        let r = ClientInfo {
            position: motion::origin(),
            rotation: Scalar::new(0),
            avatar: String::new(),
            nickname: String::new(),
            wallet: None,
            avatar_height_scale: None,
        };
        proof {
            assert(r.avatar@ =~= Seq::<char>::empty());
            assert(r.nickname@ =~= Seq::<char>::empty());
        }
        r
    }

    /// The same presence once more.
    pub fn duplicate(&self) -> (r: ClientInfo)
        ensures
            r@ == self@,
    {
        ClientInfo {
            position: self.position,
            rotation: self.rotation,
            avatar: self.avatar.clone(),
            nickname: self.nickname.clone(),
            wallet: match &self.wallet {
                Some(t) => Some(t.clone()),
                None => None,
            },
            avatar_height_scale: self.avatar_height_scale,
        }
    }
}

/// What a client says of itself.
#[derive(Debug)]
pub struct UserDataPayload {
    pub avatar: Option<String>,
    pub nickname: Option<String>,
    pub avatar_height_scale: Option<Scalar>,
}

/// The height scale that is kept: a finite one, moved into `0.5..=2`.
pub open spec fn kept_height_scale(asked: Option<Scalar>) -> Option<Scalar> {
    match asked {
        Some(s) => if scalar::is_finite(s) {
            Some(
                scalar::clamped(
                    s,
                    Scalar { bits: MIN_HEIGHT_SCALE_BITS },
                    Scalar { bits: MAX_HEIGHT_SCALE_BITS },
                ),
            )
        } else {
            None
        },
        None => None,
    }
}

/// The presence after a client has spoken of itself: the avatar cut to 512
/// characters, the nickname trimmed and cut to 32.
pub open spec fn with_user_data(info: InfoView, data: UserDataPayload) -> InfoView {
    InfoView {
        avatar: text::truncated(text::text_or_empty(data.avatar), MAX_AVATAR_LEN as nat),
        nickname: text::truncated(
            text::trimmed(text::text_or_empty(data.nickname)),
            MAX_NICKNAME_LEN as nat,
        ),
        avatar_height_scale: kept_height_scale(data.avatar_height_scale),
        ..info
    }
}

fn or_empty(s: Option<String>) -> (r: String)
    ensures
        r@ == text::text_or_empty(s),
{
    match s {
        Some(t) => t,
        None => {
            let r = String::new();
            proof {
                assert(r@ =~= Seq::<char>::empty());
            }
            r
        },
    }
}

fn height_scale_for(asked: Option<Scalar>) -> (r: Option<Scalar>)
    ensures
        r == kept_height_scale(asked),
{
    match asked {
        Some(s) => if s.is_finite() {
            Some(
                s.clamp(
                    Scalar::new(MIN_HEIGHT_SCALE_BITS),
                    Scalar::new(MAX_HEIGHT_SCALE_BITS),
                ),
            )
        } else {
            None
        },
        None => None,
    }
}

// ------------------------------------------------------------------- records

/// One connection.
#[derive(Debug)]
pub struct ClientRecord {
    info: ClientInfo,
    motion: Option<Motion>,
    room_id: Option<u32>,
    last_client_move_seq: u64,
    server_move_seq: u64,
    wallet: Option<Pubkey>,
    nonce: String,
    limits: ClientLimits,
}

/// What is known of one connection.
pub struct RecordView {
    pub info: InfoView,
    pub motion: Option<Motion>,
    pub room_id: Option<u32>,
    pub last_client_move_seq: u64,
    pub server_move_seq: u64,
    pub wallet: Option<Pubkey>,
    pub nonce: Seq<char>,
    pub limits: LimitsView,
}

impl View for ClientRecord {
    type V = RecordView;

    closed spec fn view(&self) -> RecordView {
        RecordView {
            info: self.info@,
            motion: self.motion,
            room_id: self.room_id,
            last_client_move_seq: self.last_client_move_seq,
            server_move_seq: self.server_move_seq,
            wallet: self.wallet,
            nonce: self.nonce@,
            limits: self.limits@,
        }
    }
}

/// What a new connection starts with.
pub open spec fn new_record(nonce: Seq<char>, now: u128) -> RecordView {
    RecordView {
        info: blank_info(),
        motion: None,
        room_id: None,
        last_client_move_seq: 0,
        server_move_seq: 0,
        wallet: None,
        nonce,
        limits: limits::full_limits(now),
    }
}

/// The text of a proven wallet.
pub open spec fn wallet_text(wallet: Option<Pubkey>) -> Option<Seq<char>> {
    match wallet {
        Some(key) => Some(pubkey::pubkey_text(key.bytes@)),
        None => None,
    }
}

/// What holds of every connection at all times: the texts others see are capped,
/// the height scale is in range, the wallet they see is the one that was proven,
/// and only a client in a room walks.
pub open spec fn record_ok(r: RecordView) -> bool {
    &&& r.info.avatar.len() <= MAX_AVATAR_LEN
    &&& r.info.nickname.len() <= MAX_NICKNAME_LEN
    &&& r.info.avatar_height_scale matches Some(s) ==> scalar::at_most(
        Scalar { bits: MIN_HEIGHT_SCALE_BITS },
        s,
    ) && scalar::at_most(s, Scalar { bits: MAX_HEIGHT_SCALE_BITS })
    &&& r.info.wallet == wallet_text(r.wallet)
    &&& r.motion is Some ==> r.room_id is Some
}

/// A height scale that is kept is in range.
proof fn lemma_height_scale(asked: Option<Scalar>)
    ensures
        kept_height_scale(asked) matches Some(s) ==> scalar::at_most(
            Scalar { bits: MIN_HEIGHT_SCALE_BITS },
            s,
        ) && scalar::at_most(s, Scalar { bits: MAX_HEIGHT_SCALE_BITS }),
{
    let low = Scalar { bits: MIN_HEIGHT_SCALE_BITS };
    let high = Scalar { bits: MAX_HEIGHT_SCALE_BITS };
    scalar::lemma_units_order(scalar::magnitude(low), scalar::magnitude(high));
    if let Some(s) = asked {
        if scalar::is_finite(s) {
            scalar::lemma_clamped_inside(s, low, high);
        }
    }
}

impl ClientRecord {
    pub closed spec fn wf(&self) -> bool {
        self.limits.wf() && record_ok(self@)
    }

    fn new(nonce: String, now: u128) -> (r: ClientRecord)
        ensures
            r.wf(),
            r@ == new_record(nonce@, now),
    {
        ClientRecord {
            info: ClientInfo::blank(),
            motion: None,
            room_id: None,
            last_client_move_seq: 0,
            server_move_seq: 0,
            wallet: None,
            nonce,
            limits: ClientLimits::new(now),
        }
    }
}

// ------------------------------------------------------------------ registry

/// The connections, by their ids.
pub struct Clients {
    records: TextMap<ClientRecord>,
}

impl View for Clients {
    type V = Map<Seq<char>, RecordView>;

    closed spec fn view(&self) -> Map<Seq<char>, RecordView> {
        self.records@.map_values(|r: ClientRecord| r@)
    }
}

/// The room of a connection, if it is known and in one.
pub open spec fn room_in(clients: Map<Seq<char>, RecordView>, id: Seq<char>) -> Option<u32> {
    if clients.contains_key(id) {
        clients[id].room_id
    } else {
        None
    }
}

/// The wallet of a connection, if it is known and has proven one.
pub open spec fn wallet_in(clients: Map<Seq<char>, RecordView>, id: Seq<char>) -> Option<Pubkey> {
    if clients.contains_key(id) {
        clients[id].wallet
    } else {
        None
    }
}

/// Whether a connection may act; an unknown one may not.
pub open spec fn may_act(
    clients: Map<Seq<char>, RecordView>,
    id: Seq<char>,
    which: Limit,
    now: u128,
) -> bool {
    clients.contains_key(id) && limits::permits(clients[id].limits, which, now)
}

/// The connections after one of them tried to act.
pub open spec fn after_act(
    clients: Map<Seq<char>, RecordView>,
    id: Seq<char>,
    which: Limit,
    now: u128,
) -> Map<Seq<char>, RecordView> {
    if clients.contains_key(id) {
        clients.insert(
            id,
            RecordView { limits: limits::drawn(clients[id].limits, which, now), ..clients[id] },
        )
    } else {
        clients
    }
}

/// The record of a connection, or a new one under the given nonce.
pub open spec fn record_or_new(
    clients: Map<Seq<char>, RecordView>,
    id: Seq<char>,
    nonce: Seq<char>,
    now: u128,
) -> RecordView {
    if clients.contains_key(id) {
        clients[id]
    } else {
        new_record(nonce, now)
    }
}

/// Whether a client's message with sequence number `seq` is news.
pub open spec fn is_news(last: u64, seq: Option<u64>) -> bool {
    seq matches Some(n) ==> n > last
}

/// A connection after a move that was taken.
pub open spec fn moved(
    r: RecordView,
    position: Point,
    rotation: Scalar,
    seq: Option<u64>,
) -> RecordView {
    RecordView {
        info: InfoView { position, rotation, ..r.info },
        motion: None,
        last_client_move_seq: match seq {
            Some(n) => n,
            None => r.last_client_move_seq,
        },
        server_move_seq: next_seq(r.server_move_seq),
        ..r
    }
}

/// The number after `n`, as far as there is one.
pub open spec fn next_seq(n: u64) -> u64 {
    if n == u64::MAX {
        n
    } else {
        (n + 1) as u64
    }
}

/// A connection once its claim to a wallet was accepted.
pub open spec fn proven(r: RecordView, wallet: Pubkey, nonce: Seq<char>) -> RecordView {
    RecordView {
        info: InfoView { wallet: Some(pubkey::pubkey_text(wallet.bytes@)), ..r.info },
        wallet: Some(wallet),
        nonce,
        ..r
    }
}

/// The nonce is the base58 text of 24 bytes.
pub open spec fn is_nonce(nonce: Seq<char>) -> bool {
    auth::base58_bytes(nonce) matches Some(bytes) && bytes.len() == auth::NONCE_BYTES
}

impl Clients {
    /// Every connection is in order.
    pub closed spec fn wf(&self) -> bool {
        &&& self.records.wf()
        &&& forall|id: Seq<char>| #[trigger]
            self.records@.contains_key(id) ==> self.records@[id].wf()
    }

    /// What holds of every connection at all times: see [`record_ok`].
    pub proof fn records_stay_in_order(&self)
        requires
            self.wf(),
        ensures
            forall|id: Seq<char>| #[trigger] self@.contains_key(id) ==> record_ok(self@[id]),
    {
        assert forall|id: Seq<char>| #[trigger] self@.contains_key(id) implies record_ok(
            self@[id],
        ) by {
            assert(self.records@.contains_key(id));
            assert(self.records@[id].wf());
        }
    }

    pub fn new() -> (r: Clients)
        ensures
            r.wf(),
            r@ == Map::<Seq<char>, RecordView>::empty(),
    {
        let r = Clients { records: TextMap::new() };
        proof {
            assert(r@ =~= Map::<Seq<char>, RecordView>::empty());
        }
        r
    }

    /// How many connections there are.
    pub fn len(&self) -> (n: usize)
        requires
            self.wf(),
        ensures
            n == self@.dom().len(),
            self@.dom().finite(),
    {
        proof {
            assert(self@.dom() =~= self.records@.dom());
        }
        self.records.len()
    }

    /// Makes sure that a connection is known, under the given nonce if it is new.
    fn ensure(&mut self, id: &str, nonce: String, now: u128)
        requires
            old(self).wf(),
        ensures
            final(self).wf(),
            final(self)@ == old(self)@.insert(id@, record_or_new(old(self)@, id@, nonce@, now)),
            final(self)@.contains_key(id@),
    {
        if self.records.get(id).is_none() {
            let record = ClientRecord::new(nonce, now);
            self.records.insert(id.to_owned(), record);
        }
        proof {
            assert(self@ =~= old(self)@.insert(id@, record_or_new(old(self)@, id@, nonce@, now)));
        }
    }

    /// Takes in a new connection and gives the nonce that it is to sign. One that
    /// is already known keeps its record.
    pub fn insert_default(&mut self, id: &str, now: u128) -> (nonce: String)
        requires
            old(self).wf(),
        ensures
            final(self).wf(),
            final(self)@ == old(self)@.insert(id@, record_or_new(old(self)@, id@, nonce@, now)),
            nonce@ == final(self)@[id@].nonce,
            !old(self)@.contains_key(id@) ==> is_nonce(nonce@),
    {
        let fresh = auth::new_nonce();
        self.ensure(id, fresh, now);
        let record = self.records.get(id).unwrap();
        proof {
            assert(self@ =~= old(self)@.insert(
                id@,
                record_or_new(old(self)@, id@, record.nonce@, now),
            ));
        }
        record.nonce.clone()
    }

    /// Spends one token of a budget. `false` means that the connection is over
    /// it, or unknown.
    pub fn allow(&mut self, id: &str, which: Limit, now: u128) -> (r: bool)
        requires
            old(self).wf(),
        ensures
            final(self).wf(),
            r == may_act(old(self)@, id@, which, now),
            final(self)@ == after_act(old(self)@, id@, which, now),
    {
        match self.records.get_mut(id) {
            Some(record) => {
                let r: bool = record.limits.try_take(which, now);
                proof {
                    assert(self@ =~= after_act(old(self)@, id@, which, now));
                }
                r
            },
            None => false,
        }
    }

    /// Takes in what became of a claim to a wallet. An accepted claim gives the
    /// wallet and the room of the connection, and replaces the nonce by `nonce`,
    /// so that the same signature is not accepted again.
    pub fn accept(&mut self, id: &str, outcome: Result<Pubkey, AuthError>, nonce: String) -> (r:
        Result<(Pubkey, Option<u32>), AuthError>)
        requires
            old(self).wf(),
        ensures
            final(self).wf(),
            if !old(self)@.contains_key(id@) {
                r == Err::<(Pubkey, Option<u32>), AuthError>(AuthError::Mismatch) && final(self)@
                    == old(self)@
            } else {
                match outcome {
                    Ok(wallet) => r == Ok::<(Pubkey, Option<u32>), AuthError>(
                        (wallet, old(self)@[id@].room_id),
                    ) && final(self)@ == old(self)@.insert(
                        id@,
                        proven(old(self)@[id@], wallet, nonce@),
                    ),
                    Err(e) => r == Err::<(Pubkey, Option<u32>), AuthError>(e) && final(self)@
                        == old(self)@,
                }
            },
    {
        match self.records.get_mut(id) {
            None => Err(AuthError::Mismatch),
            Some(record) => match outcome {
                Err(e) => {
                    proof {
                        assert(self@ =~= old(self)@);
                    }
                    Err(e)
                },
                Ok(wallet) => {
                    record.nonce = nonce;
                    record.wallet = Some(wallet);
                    record.info.wallet = Some(wallet.to_text());
                    let room_id = record.room_id;
                    proof {
                        assert(self@ =~= old(self)@.insert(
                            id@,
                            proven(old(self)@[id@], wallet, nonce@),
                        ));
                    }
                    Ok((wallet, room_id))
                },
            },
        }
    }

    /// Checks a claim to a wallet against the nonce of the connection.
    pub fn authenticate(&mut self, id: &str, pubkey_b58: &str, signature_b58: &str) -> (r: Result<
        (Pubkey, Option<u32>),
        AuthError,
    >)
        requires
            old(self).wf(),
        ensures
            final(self).wf(),
            authenticated(old(self)@, id@, pubkey_b58@, signature_b58@, final(self)@, r),
    {
        let outcome: Result<Pubkey, AuthError> = match self.records.get(id) {
            Some(record) => auth::verify(pubkey_b58, signature_b58, record.nonce.as_str()),
            None => Err(AuthError::Mismatch),
        };
        let fresh = auth::new_nonce();
        self.accept(id, outcome, fresh)
    }

    pub fn wallet_of(&self, id: &str) -> (r: Option<Pubkey>)
        requires
            self.wf(),
        ensures
            r == wallet_in(self@, id@),
    {
        match self.records.get(id) {
            Some(record) => record.wallet,
            None => None,
        }
    }

    /// Takes in what a client says of itself.
    pub fn update_user_data(&mut self, id: &str, data: UserDataPayload, now: u128) -> (r: (
        ClientInfo,
        Option<u32>,
    ))
        requires
            old(self).wf(),
        ensures
            final(self).wf(),
            ({
                let before = record_or_new(old(self)@, id@, final(self)@[id@].nonce, now);
                &&& final(self)@ == old(self)@.insert(
                    id@,
                    RecordView { info: with_user_data(before.info, data), ..before },
                )
                &&& r.0@ == with_user_data(before.info, data)
                &&& r.1 == before.room_id
            }),
    {
        let fresh = auth::new_nonce();
        self.ensure(id, fresh, now);
        let ghost ensured = self@;
        proof {
            lemma_height_scale(data.avatar_height_scale);
        }
        let record = self.records.get_mut(id).unwrap();
        let avatar = or_empty(data.avatar);
        record.info.avatar = text::truncate(avatar.as_str(), MAX_AVATAR_LEN);
        let nickname = or_empty(data.nickname);
        record.info.nickname = text::truncate_chat(nickname.as_str(), MAX_NICKNAME_LEN);
        record.info.avatar_height_scale = height_scale_for(data.avatar_height_scale);
        let r = (record.info.duplicate(), record.room_id);
        proof {
            let before = ensured[id@];
            assert(self@ =~= ensured.insert(
                id@,
                RecordView { info: with_user_data(before.info, data), ..before },
            ));
            assert(self@ =~= old(self)@.insert(id@, self@[id@]));
        }
        r
    }

    /// Puts a client into a room, and gives the one it was in and its presence.
    pub fn set_room(&mut self, id: &str, room_id: u32, now: u128) -> (r: (Option<u32>, ClientInfo))
        requires
            old(self).wf(),
        ensures
            final(self).wf(),
            ({
                let before = record_or_new(old(self)@, id@, final(self)@[id@].nonce, now);
                &&& final(self)@ == old(self)@.insert(
                    id@,
                    RecordView { room_id: Some(room_id), ..before },
                )
                &&& r.0 == before.room_id
                &&& r.1@ == before.info
            }),
    {
        let fresh = auth::new_nonce();
        self.ensure(id, fresh, now);
        let ghost ensured = self@;
        let record = self.records.get_mut(id).unwrap();
        let previous = record.room_id;
        record.room_id = Some(room_id);
        let r = (previous, record.info.duplicate());
        proof {
            assert(self@ =~= ensured.insert(
                id@,
                RecordView { room_id: Some(room_id), ..ensured[id@] },
            ));
            assert(self@ =~= old(self)@.insert(id@, self@[id@]));
        }
        r
    }

    pub fn room_of(&self, id: &str) -> (r: Option<u32>)
        requires
            self.wf(),
        ensures
            r == room_in(self@, id@),
    {
        match self.records.get(id) {
            Some(record) => record.room_id,
            None => None,
        }
    }

    /// Takes a client out of a room, if it is in that one; a walk ends with it.
    pub fn clear_room(&mut self, id: &str, room_id: u32) -> (r: Option<u32>)
        requires
            old(self).wf(),
        ensures
            final(self).wf(),
            if room_in(old(self)@, id@) == Some(room_id) {
                r == Some(room_id) && final(self)@ == old(self)@.insert(
                    id@,
                    RecordView { motion: None, room_id: None, ..old(self)@[id@] },
                )
            } else {
                r is None && final(self)@ == old(self)@
            },
    {
        match self.records.get_mut(id) {
            Some(record) => if record.room_id == Some(room_id) {
                record.motion = None;
                record.room_id = None;
                proof {
                    assert(self@ =~= old(self)@.insert(
                        id@,
                        RecordView { motion: None, room_id: None, ..old(self)@[id@] },
                    ));
                }
                Some(room_id)
            } else {
                proof {
                    assert(self@ =~= old(self)@);
                }
                None
            },
            None => None,
        }
    }

    /// Takes in a client's own move. It counts only in a room, and only if it is
    /// news: a message numbered no higher than an earlier one is stale.
    pub fn update_move(
        &mut self,
        id: &str,
        position: Point,
        rotation: Scalar,
        client_seq: Option<u64>,
    ) -> (r: Option<(ClientInfo, u32, u64)>)
        requires
            old(self).wf(),
        ensures
            final(self).wf(),
            if room_in(old(self)@, id@) is Some && is_news(
                old(self)@[id@].last_client_move_seq,
                client_seq,
            ) {
                let after = moved(old(self)@[id@], position, rotation, client_seq);
                &&& final(self)@ == old(self)@.insert(id@, after)
                &&& r matches Some((info, room_id, seq))
                &&& info@ == after.info
                &&& after.room_id == Some(room_id)
                &&& seq == after.server_move_seq
            } else {
                r is None && final(self)@ == old(self)@
            },
    {
        match self.records.get_mut(id) {
            None => None,
            Some(record) => {
                let stale: bool = match client_seq {
                    Some(seq) => seq <= record.last_client_move_seq,
                    None => false,
                };
                match record.room_id {
                    Some(room_id) => if stale {
                        proof {
                            assert(self@ =~= old(self)@);
                        }
                        None
                    } else {
                        if let Some(seq) = client_seq {
                            record.last_client_move_seq = seq;
                        }
                        record.motion = None;
                        record.info.position = position;
                        record.info.rotation = rotation;
                        record.server_move_seq = record.server_move_seq.saturating_add(1);
                        let r = Some((record.info.duplicate(), room_id, record.server_move_seq));
                        proof {
                            assert(self@ =~= old(self)@.insert(
                                id@,
                                moved(old(self)@[id@], position, rotation, client_seq),
                            ));
                        }
                        r
                    },
                    None => {
                        proof {
                            assert(self@ =~= old(self)@);
                        }
                        None
                    },
                }
            },
        }
    }

    /// Forgets a connection, and gives the room it was in.
    pub fn remove(&mut self, id: &str) -> (r: Option<u32>)
        requires
            old(self).wf(),
        ensures
            final(self).wf(),
            r == room_in(old(self)@, id@),
            final(self)@ == old(self)@.remove(id@),
    {
        let taken = self.records.remove(id);
        proof {
            assert(self@ =~= old(self)@.remove(id@));
        }
        match taken {
            Some(record) => record.room_id,
            None => None,
        }
    }

    pub fn get_with_room(&self, id: &str) -> (r: Option<(ClientInfo, Option<u32>)>)
        requires
            self.wf(),
        ensures
            match r {
                Some((info, room_id)) => self@.contains_key(id@) && info@ == self@[id@].info
                    && room_id == self@[id@].room_id,
                None => !self@.contains_key(id@),
            },
    {
        match self.records.get(id) {
            Some(record) => Some((record.info.duplicate(), record.room_id)),
            None => None,
        }
    }

    /// Sends a client on a walk. Only one that is in a room walks.
    pub fn set_goto(
        &mut self,
        id: &str,
        target: Point,
        speed: Scalar,
        rotation: Option<Scalar>,
    ) -> (r: Option<u32>)
        requires
            old(self).wf(),
        ensures
            final(self).wf(),
            r == room_in(old(self)@, id@),
            final(self)@ == if r is Some {
                old(self)@.insert(id@, sent_off(old(self)@[id@], target, speed, rotation))
            } else {
                old(self)@
            },
    {
        match self.records.get_mut(id) {
            None => None,
            Some(record) => {
                let room_id = record.room_id;
                if room_id.is_some() {
                    record.motion = Some(Motion { target, speed });
                    if let Some(rot) = rotation {
                        record.info.rotation = rot;
                    }
                    proof {
                        assert(self@ =~= old(self)@.insert(
                            id@,
                            sent_off(old(self)@[id@], target, speed, rotation),
                        ));
                    }
                } else {
                    proof {
                        assert(self@ =~= old(self)@);
                    }
                }
                room_id
            },
        }
    }

    /// The clients in a room, each by its id and presence.
    pub fn snapshot_room(&self, room_id: u32) -> (r: Vec<(String, ClientInfo)>)
        requires
            self.wf(),
        ensures
            snapshot_of(self@, room_id, r@),
    {
        let mut out: Vec<(String, ClientInfo)> = Vec::new();
        let n: usize = self.records.len();
        let mut i: usize = 0;
        while i < n
            invariant
                self.wf(),
                i <= n == self.records.count(),
                forall|k: int|
                    0 <= k < out@.len() ==> {
                        let id = (#[trigger] out@[k]).0@;
                        &&& exists|j: int| 0 <= j < i && #[trigger] self.records.key(j) == id
                        &&& room_in(self@, id) == Some(room_id)
                        &&& out@[k].1@ == self@[id].info
                    },
                forall|j: int|
                    0 <= j < i && room_in(self@, #[trigger] self.records.key(j)) == Some(room_id)
                        ==> exists|k: int|
                        0 <= k < out@.len() && (#[trigger] out@[k]).0@ == self.records.key(j),
                forall|k: int, l: int|
                    0 <= k < l < out@.len() ==> (#[trigger] out@[k]).0@ != (#[trigger] out@[l]).0@,
            decreases n - i,
        {
            proof {
                self.records.lemma_entries();
            }
            let record = self.records.value_at(i);
            let ghost before = out@;
            if record.room_id == Some(room_id) {
                let id = self.records.key_at(i).clone();
                out.push((id, record.info.duplicate()));
                proof {
                    assert(self.records.key(i as int) == id@);
                    assert(self.records@.contains_key(id@));
                }
            }
            proof {
                assert forall|j: int|
                    0 <= j < i + 1 && room_in(self@, #[trigger] self.records.key(j)) == Some(
                        room_id,
                    ) implies exists|k: int|
                    0 <= k < out@.len() && (#[trigger] out@[k]).0@ == self.records.key(j) by {
                    if j < i {
                        let k = choose|k: int|
                            0 <= k < before.len() && (#[trigger] before[k]).0@ == self.records.key(
                                j,
                            );
                        assert(out@[k] == before[k]);
                    } else {
                        assert(self.records@.contains_key(self.records.key(j)));
                        assert(out@[before.len() as int].0@ == self.records.key(j));
                    }
                }
            }
            i = i + 1;
        }
        proof {
            self.records.lemma_entries();
            assert forall|id: Seq<char>| room_in(self@, id) == Some(room_id) implies exists|
                k: int,
            | 0 <= k < out@.len() && (#[trigger] out@[k]).0@ == id by {
                assert(self.records@.contains_key(id));
                let j = choose|j: int|
                    0 <= j < self.records.count() && #[trigger] self.records.key(j) == id;
                assert(room_in(self@, self.records.key(j)) == Some(room_id));
            }
        }
        out
    }

    /// The clients that are walking.
    pub fn walkers(&self) -> (r: Vec<Walker>)
        requires
            self.wf(),
        ensures
            walkers_of(self@, r@),
    {
        let mut out: Vec<Walker> = Vec::new();
        let n: usize = self.records.len();
        let mut i: usize = 0;
        while i < n
            invariant
                self.wf(),
                i <= n == self.records.count(),
                forall|k: int|
                    0 <= k < out@.len() ==> {
                        let w = #[trigger] out@[k];
                        &&& exists|j: int| 0 <= j < i && #[trigger] self.records.key(j) == w.id@
                        &&& walks(self@, w.id@, w.from, w.motion)
                    },
                forall|j: int|
                    0 <= j < i && self@[#[trigger] self.records.key(j)].motion is Some ==> exists|
                        k: int,
                    |
                        0 <= k < out@.len() && (#[trigger] out@[k]).id@ == self.records.key(j),
                forall|k: int, l: int|
                    0 <= k < l < out@.len() ==> (#[trigger] out@[k]).id@
                        != (#[trigger] out@[l]).id@,
            decreases n - i,
        {
            proof {
                self.records.lemma_entries();
            }
            let record = self.records.value_at(i);
            let ghost before = out@;
            if let Some(motion) = record.motion {
                let id = self.records.key_at(i).clone();
                let at = record.info.position;
                let from = if at.x.is_finite() && at.y.is_finite() && at.z.is_finite() {
                    at
                } else {
                    motion::origin()
                };
                proof {
                    assert(self.records.key(i as int) == id@);
                    assert(self.records@.contains_key(id@));
                }
                out.push(Walker { id, from, motion });
            }
            proof {
                assert forall|j: int|
                    0 <= j < i + 1 && self@[#[trigger] self.records.key(j)].motion is Some implies exists|
                    k: int,
                | 0 <= k < out@.len() && (#[trigger] out@[k]).id@ == self.records.key(j) by {
                    if j < i {
                        let k = choose|k: int|
                            0 <= k < before.len() && (#[trigger] before[k]).id@
                                == self.records.key(j);
                        assert(out@[k] == before[k]);
                    } else {
                        assert(self.records@.contains_key(self.records.key(j)));
                        assert(out@[before.len() as int].id@ == self.records.key(j));
                    }
                }
            }
            i = i + 1;
        }
        proof {
            self.records.lemma_entries();
            assert forall|id: Seq<char>|
                self@.contains_key(id) && self@[id].motion is Some implies exists|k: int|
                0 <= k < out@.len() && (#[trigger] out@[k]).id@ == id by {
                assert(self.records@.contains_key(id));
                let j = choose|j: int|
                    0 <= j < self.records.count() && #[trigger] self.records.key(j) == id;
                assert(self@[self.records.key(j)].motion is Some);
            }
        }
        out
    }

    /// Moves one walking client by what was measured of its walk.
    fn step(&mut self, id: &str, measured: &Measured, now_ms: u64) -> (r: Option<
        (u32, MoveBroadcast),
    >)
        requires
            old(self).wf(),
        ensures
            final(self).wf(),
            final(self)@ == after_step(old(self)@, id@, *measured),
            match r {
                Some((room_id, news)) => step_news(old(self)@, id@, *measured, now_ms) == seq![
                    (room_id, news@),
                ],
                None => step_news(old(self)@, id@, *measured, now_ms).len() == 0,
            },
    {
        match self.records.get_mut(id) {
            None => None,
            Some(record) => match (record.motion, record.room_id) {
                (Some(walk), Some(room_id)) => {
                    let next = if motion::has_arrived(measured) {
                        record.motion = None;
                        walk.target
                    } else {
                        measured.between
                    };
                    record.info.position = next;
                    record.server_move_seq = record.server_move_seq.saturating_add(1);
                    let news = messages::announce_move(
                        id,
                        &record.info,
                        record.server_move_seq,
                        now_ms,
                        None,
                    );
                    proof {
                        assert(self@ =~= after_step(old(self)@, id@, *measured));
                    }
                    Some((room_id, news))
                },
                _ => {
                    proof {
                        assert(self@ =~= old(self)@);
                    }
                    None
                },
            },
        }
    }

    /// Moves the walking clients by what was measured of their walks, and gives
    /// the news of each with the room it goes to.
    pub fn tick_motions(&mut self, measured: &Vec<(String, Measured)>, now_ms: u64) -> (r: Vec<
        (u32, MoveBroadcast),
    >)
        requires
            old(self).wf(),
        ensures
            final(self).wf(),
            final(self)@ == after_ticks(old(self)@, measurements(measured@)),
            news_views(r@) == tick_news(old(self)@, measurements(measured@), now_ms),
    {
        let mut out: Vec<(u32, MoveBroadcast)> = Vec::new();
        let ghost all = measurements(measured@);
        let mut i: usize = 0;
        proof {
            assert(all.take(0) =~= Seq::<(Seq<char>, Measured)>::empty());
            assert(news_views(out@) =~= Seq::<(u32, MoveView)>::empty());
        }
        while i < measured.len()
            invariant
                self.wf(),
                i <= measured.len(),
                all == measurements(measured@),
                self@ == after_ticks(old(self)@, all.take(i as int)),
                news_views(out@) == tick_news(old(self)@, all.take(i as int), now_ms),
            decreases measured.len() - i,
        {
            let ghost before = out@;
            proof {
                assert(all.take(i + 1).drop_last() =~= all.take(i as int));
                assert(all.take(i + 1).last() == (measured@[i as int].0@, measured@[i as int].1));
            }
            let news = self.step(measured[i].0.as_str(), &measured[i].1, now_ms);
            if let Some(news) = news {
                out.push(news);
                proof {
                    assert(news_views(out@) =~= news_views(before) + seq![(news.0, news.1@)]);
                }
            } else {
                proof {
                    assert(news_views(out@) =~= tick_news(old(self)@, all.take(i + 1), now_ms));
                }
            }
            i = i + 1;
        }
        proof {
            assert(all.take(all.len() as int) =~= all);
        }
        out
    }
}

/// The clients in a room: each once, and nobody else.
pub open spec fn snapshot_of(
    clients: Map<Seq<char>, RecordView>,
    room_id: u32,
    found: Seq<(String, ClientInfo)>,
) -> bool {
    &&& forall|k: int|
        0 <= k < found.len() ==> room_in(clients, (#[trigger] found[k]).0@) == Some(room_id)
            && found[k].1@ == clients[found[k].0@].info
    &&& forall|id: Seq<char>| #[trigger]
        room_in(clients, id) == Some(room_id) ==> exists|k: int|
            0 <= k < found.len() && (#[trigger] found[k]).0@ == id
    &&& forall|k: int, l: int|
        0 <= k < l < found.len() ==> (#[trigger] found[k]).0@ != (#[trigger] found[l]).0@
}

/// A client on its way.
#[derive(Debug)]
pub struct Walker {
    pub id: String,
    pub from: Point,
    pub motion: Motion,
}

/// Whether a client is on the given way; one without a proper place starts in
/// the middle.
pub open spec fn walks(
    clients: Map<Seq<char>, RecordView>,
    id: Seq<char>,
    from: Point,
    motion: Motion,
) -> bool {
    &&& clients.contains_key(id)
    &&& clients[id].motion == Some(motion)
    &&& from == if motion::finite_point(clients[id].info.position) {
        clients[id].info.position
    } else {
        motion::origin_point()
    }
}

/// The clients that are walking: each once, and nobody else.
pub open spec fn walkers_of(clients: Map<Seq<char>, RecordView>, found: Seq<Walker>) -> bool {
    &&& forall|k: int|
        0 <= k < found.len() ==> walks(
            clients,
            (#[trigger] found[k]).id@,
            found[k].from,
            found[k].motion,
        )
    &&& forall|id: Seq<char>| #[trigger]
        clients.contains_key(id) && clients[id].motion is Some ==> exists|k: int|
            0 <= k < found.len() && (#[trigger] found[k]).id@ == id
    &&& forall|k: int, l: int|
        0 <= k < l < found.len() ==> (#[trigger] found[k]).id@ != (#[trigger] found[l]).id@
}

/// A walking client one tick later: at its target and at rest if it arrives, else
/// one step along the way.
pub open spec fn stepped(r: RecordView, m: Measured) -> RecordView {
    RecordView {
        info: InfoView {
            position: if motion::arrives(m) {
                r.motion->0.target
            } else {
                m.between
            },
            ..r.info
        },
        motion: if motion::arrives(m) {
            None
        } else {
            r.motion
        },
        server_move_seq: next_seq(r.server_move_seq),
        ..r
    }
}

/// Whether a client is known, walking and in a room.
pub open spec fn on_its_way(clients: Map<Seq<char>, RecordView>, id: Seq<char>) -> bool {
    clients.contains_key(id) && clients[id].motion is Some && clients[id].room_id is Some
}

/// The clients after one of them took a step.
pub open spec fn after_step(
    clients: Map<Seq<char>, RecordView>,
    id: Seq<char>,
    m: Measured,
) -> Map<Seq<char>, RecordView> {
    if on_its_way(clients, id) {
        clients.insert(id, stepped(clients[id], m))
    } else {
        clients
    }
}

/// The news of one step.
pub open spec fn step_news(
    clients: Map<Seq<char>, RecordView>,
    id: Seq<char>,
    m: Measured,
    now_ms: u64,
) -> Seq<(u32, MoveView)> {
    if on_its_way(clients, id) {
        let after = stepped(clients[id], m);
        seq![
            (
                after.room_id->0,
                messages::move_news(id, after.info, after.server_move_seq, now_ms, None),
            ),
        ]
    } else {
        seq![]
    }
}

/// The measurements, by the text of the ids.
pub open spec fn measurements(v: Seq<(String, Measured)>) -> Seq<(Seq<char>, Measured)> {
    v.map_values(|m: (String, Measured)| (m.0@, m.1))
}

/// The news, by what it says.
pub open spec fn news_views(v: Seq<(u32, MoveBroadcast)>) -> Seq<(u32, MoveView)> {
    v.map_values(|m: (u32, MoveBroadcast)| (m.0, m.1@))
}

/// The clients after each measured step in turn.
pub open spec fn after_ticks(
    clients: Map<Seq<char>, RecordView>,
    measured: Seq<(Seq<char>, Measured)>,
) -> Map<Seq<char>, RecordView>
    decreases measured.len(),
{
    if measured.len() == 0 {
        clients
    } else {
        after_step(
            after_ticks(clients, measured.drop_last()),
            measured.last().0,
            measured.last().1,
        )
    }
}

/// The news of each measured step in turn.
pub open spec fn tick_news(
    clients: Map<Seq<char>, RecordView>,
    measured: Seq<(Seq<char>, Measured)>,
    now_ms: u64,
) -> Seq<(u32, MoveView)>
    decreases measured.len(),
{
    if measured.len() == 0 {
        seq![]
    } else {
        tick_news(clients, measured.drop_last(), now_ms) + step_news(
            after_ticks(clients, measured.drop_last()),
            measured.last().0,
            measured.last().1,
            now_ms,
        )
    }
}

/// A connection that was sent on a walk.
pub open spec fn sent_off(
    r: RecordView,
    target: Point,
    speed: Scalar,
    rotation: Option<Scalar>,
) -> RecordView {
    RecordView {
        info: InfoView {
            rotation: match rotation {
                Some(rot) => rot,
                None => r.info.rotation,
            },
            ..r.info
        },
        motion: Some(Motion { target, speed }),
        ..r
    }
}

/// What an attempt to prove a wallet comes to: an unknown connection and a claim
/// that does not hold change nothing; an accepted claim leaves the wallet and a
/// fresh nonce.
pub open spec fn authenticated(
    before: Map<Seq<char>, RecordView>,
    id: Seq<char>,
    pubkey_b58: Seq<char>,
    signature_b58: Seq<char>,
    after: Map<Seq<char>, RecordView>,
    r: Result<(Pubkey, Option<u32>), AuthError>,
) -> bool {
    if !before.contains_key(id) {
        r == Err::<(Pubkey, Option<u32>), AuthError>(AuthError::Mismatch) && after == before
    } else {
        match auth::verification(pubkey_b58, signature_b58, before[id].nonce) {
            Ok(bytes) => {
                &&& r matches Ok((wallet, room_id))
                &&& wallet.bytes@ == bytes
                &&& room_id == before[id].room_id
                &&& after == before.insert(id, proven(before[id], wallet, after[id].nonce))
                &&& is_nonce(after[id].nonce)
            },
            Err(e) => r == Err::<(Pubkey, Option<u32>), AuthError>(e) && after == before,
        }
    }
}

// ------------------------------------------------------------------------ laws

/// A signature that was accepted is of no use a second time, be it on the same
/// connection or on another, unless it fits the message of the nonce held there
/// as well. The attempt is answered with a mismatch and changes nothing, and the
/// wallet stays proven.
pub proof fn spent_signatures_do_not_pass(
    before: Map<Seq<char>, RecordView>,
    id: Seq<char>,
    pubkey_b58: Seq<char>,
    signature_b58: Seq<char>,
    after: Map<Seq<char>, RecordView>,
    accepted: Result<(Pubkey, Option<u32>), AuthError>,
    other: Seq<char>,
    later: Map<Seq<char>, RecordView>,
    again: Result<(Pubkey, Option<u32>), AuthError>,
)
    requires
        authenticated(before, id, pubkey_b58, signature_b58, after, accepted),
        accepted is Ok,
        authenticated(after, other, pubkey_b58, signature_b58, later, again),
        after.contains_key(other) ==> !auth::ed25519_signed(
            (accepted->Ok_0).0.bytes@,
            encode_utf8(auth::message_for(after[other].nonce)),
            auth::base58_bytes(signature_b58)->0,
        ),
    ensures
        again == Err::<(Pubkey, Option<u32>), AuthError>(AuthError::Mismatch),
        later == after,
        wallet_in(later, id) == Some((accepted->Ok_0).0),
{
}

/// A claim that is refused leaves every nonce and every wallet as it was, and one
/// of a connection that is not known is a mismatch.
pub proof fn refused_claims_change_nothing(
    before: Map<Seq<char>, RecordView>,
    id: Seq<char>,
    pubkey_b58: Seq<char>,
    signature_b58: Seq<char>,
    after: Map<Seq<char>, RecordView>,
    r: Result<(Pubkey, Option<u32>), AuthError>,
)
    requires
        authenticated(before, id, pubkey_b58, signature_b58, after, r),
    ensures
        r is Err ==> after == before,
        !before.contains_key(id) ==> r == Err::<(Pubkey, Option<u32>), AuthError>(
            AuthError::Mismatch,
        ),
{
}

/// The numbers that the server gives to the moves of a client grow, as far as
/// there are numbers.
pub proof fn server_numbers_grow(
    r: RecordView,
    position: Point,
    rotation: Scalar,
    seq: Option<u64>,
    m: Measured,
)
    requires
        r.server_move_seq < u64::MAX,
    ensures
        moved(r, position, rotation, seq).server_move_seq == r.server_move_seq + 1,
        stepped(r, m).server_move_seq == r.server_move_seq + 1,
{
}

/// A client that arrives is at its target and at rest; a move of its own ends a
/// walk as well.
pub proof fn walks_end(
    r: RecordView,
    m: Measured,
    position: Point,
    rotation: Scalar,
    seq: Option<u64>,
)
    requires
        r.motion is Some,
    ensures
        motion::arrives(m) ==> stepped(r, m).motion is None && stepped(r, m).info.position
            == r.motion->0.target,
        !motion::arrives(m) ==> stepped(r, m).motion == r.motion,
        moved(r, position, rotation, seq).motion is None,
        moved(r, position, rotation, seq).info.position == position,
{
}

/// Without a walk there is no news of a tick, and nobody moves.
pub proof fn rest_is_quiet(
    clients: Map<Seq<char>, RecordView>,
    measured: Seq<(Seq<char>, Measured)>,
    now_ms: u64,
)
    requires
        forall|id: Seq<char>| #[trigger]
            clients.contains_key(id) ==> clients[id].motion is None,
    ensures
        after_ticks(clients, measured) == clients,
        tick_news(clients, measured, now_ms) == Seq::<(u32, MoveView)>::empty(),
    decreases measured.len(),
{
    if measured.len() > 0 {
        rest_is_quiet(clients, measured.drop_last(), now_ms);
        assert(tick_news(clients, measured, now_ms) =~= Seq::<(u32, MoveView)>::empty());
    }
}

/// A tick touches nobody that was not measured.
proof fn lemma_unmeasured(
    clients: Map<Seq<char>, RecordView>,
    measured: Seq<(Seq<char>, Measured)>,
    id: Seq<char>,
)
    requires
        forall|i: int| 0 <= i < measured.len() ==> (#[trigger] measured[i]).0 != id,
    ensures
        after_ticks(clients, measured).contains_key(id) == clients.contains_key(id),
        after_ticks(clients, measured)[id] == clients[id],
    decreases measured.len(),
{
    if measured.len() > 0 {
        let front = measured.drop_last();
        assert forall|i: int| 0 <= i < front.len() implies (#[trigger] front[i]).0 != id by {
            assert(front[i] == measured[i]);
        }
        lemma_unmeasured(clients, front, id);
        assert(measured[measured.len() - 1].0 != id);
    }
}

/// In one tick every walking client that was measured takes exactly one step, by
/// its own measurement; one that is not walking stays.
pub proof fn walkers_step_once(
    clients: Map<Seq<char>, RecordView>,
    measured: Seq<(Seq<char>, Measured)>,
    k: int,
)
    requires
        forall|i: int, j: int|
            0 <= i < j < measured.len() ==> (#[trigger] measured[i]).0 != (
            #[trigger] measured[j]).0,
        0 <= k < measured.len(),
    ensures
        ({
            let (id, m) = measured[k];
            let after = after_ticks(clients, measured);
            &&& after.contains_key(id) == clients.contains_key(id)
            &&& on_its_way(clients, id) ==> after[id] == stepped(clients[id], m)
            &&& !on_its_way(clients, id) ==> after[id] == clients[id]
        }),
    decreases measured.len(),
{
    let front = measured.drop_last();
    let (id, m) = measured[k];
    if k == measured.len() - 1 {
        assert forall|i: int| 0 <= i < front.len() implies (#[trigger] front[i]).0 != id by {
            assert(front[i] == measured[i]);
            assert(measured[i].0 != measured[k].0);
        }
        lemma_unmeasured(clients, front, id);
    } else {
        assert forall|i: int, j: int| 0 <= i < j < front.len() implies (#[trigger] front[i]).0 != (
        #[trigger] front[j]).0 by {
            assert(front[i] == measured[i] && front[j] == measured[j]);
        }
        walkers_step_once(clients, front, k);
        assert(front[k] == measured[k]);
        assert(measured[k].0 != measured[measured.len() - 1].0);
    }
}

} // verus!
