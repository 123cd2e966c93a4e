//! Who may change a layout, what a change leaves, and what is told of it.

use crate::chain::{ChainConfig, ChainError, SpaceAccess};
use crate::laws::presence::{
    has_budget, lemma_names, names_number, names_room, others_stay, says,
};
use crate::limits::{self, Limit};
use crate::pubkey::{self, Pubkey};
use crate::realtime::clients::{Clients, RecordView};
use crate::realtime::handlers::{self, AdmittedUpdate, UpdateNews};
use crate::realtime::messages::{
    self,
    RoomAccess,
    RoomAccessBroadcast,
    RoomErrorBroadcast,
    RoomErrorCode,
    RoomProgramBroadcast,
    RoomProgramUpdatePayload,
};
use crate::realtime::rooms::{self, RoomProgramRecord, RoomPrograms};
use crate::realtime::validate::{self, RoomProgramState, ValidationError};
use crate::text;
use vstd::prelude::*;
use vstd::string::*;

verus! {

/// Whether two layouts show the same.
pub open spec fn same_layout(a: RoomProgramState, b: RoomProgramState) -> bool {
    &&& a.version == b.version
    &&& a.environment_id@ == b.environment_id@
    &&& a@.objects == b@.objects
}

/// Whether news of a room shows a record as it is.
pub open spec fn shows_record(
    news: RoomProgramBroadcast,
    room_id: u32,
    record: RoomProgramRecord,
    server_time: u64,
) -> bool {
    &&& news.room_id@ == text::decimal(room_id as nat)
    &&& same_layout(news.state, record.state)
    &&& news.state.updated_at == record.state.updated_at
    &&& news.server_revision == record.revision
    &&& news.server_time == server_time
}

/// Whether two records are the same, field by field.
pub open spec fn same_record(a: RoomProgramRecord, b: RoomProgramRecord) -> bool {
    &&& same_layout(a.state, b.state)
    &&& a.state.updated_at == b.state.updated_at
    &&& a.revision == b.revision
    &&& a.updated_by is Some == b.updated_by is Some
    &&& a.updated_by is Some ==> a.updated_by->0@ == b.updated_by->0@
    &&& a.updated_at_ms == b.updated_at_ms
}

// ------------------------------------------------------------------------- news

/// Everyone hears of a change with the layout, the revision and the author of the
/// record just written; of a refused one only its author hears, with the record
/// that stands and the reason.
pub proof fn changes_are_told_as_they_are(
    room_id: u32,
    id: &str,
    outcome: Result<RoomProgramRecord, (RoomProgramRecord, RoomErrorCode)>,
    server_time: u64,
    r: UpdateNews,
)
    requires
        call_ensures(handlers::finish_update, (room_id, id, outcome, server_time), r),
    ensures
        r.to_everyone <==> outcome is Ok,
        outcome matches Ok(record) ==> {
            &&& shows_record(r.news, room_id, record, server_time)
            &&& r.news.server_revision == record.revision
            &&& says(r.news.source_client_id, Some(id@))
            &&& r.news.rejected is None
        },
        outcome matches Err((current, code)) ==> {
            &&& shows_record(r.news, room_id, current, server_time)
            &&& r.news.source_client_id is None
            &&& r.news.rejected == Some(code)
        },
{
}

/// Whoever answers the news of a change with another change, against the revision
/// that the news named, is not refused as stale.
pub proof fn listeners_may_go_on(
    room_id: u32,
    id: &str,
    record: RoomProgramRecord,
    server_time: u64,
    told: UpdateNews,
    programs: &RoomPrograms,
    state: RoomProgramState,
    by: &Pubkey,
    now_ms: u64,
    r: Result<RoomProgramRecord, (RoomProgramRecord, RoomErrorCode)>,
)
    requires
        call_ensures(
            handlers::finish_update,
            (
                room_id,
                id,
                Ok::<RoomProgramRecord, (RoomProgramRecord, RoomErrorCode)>(record),
                server_time,
            ),
            told,
        ),
        programs@.contains_key(room_id),
        programs@[room_id] == record@,
        record.revision < u64::MAX,
        call_ensures(
            RoomPrograms::prepare,
            (programs, room_id, told.news.server_revision, state, by, now_ms),
            r,
        ),
    ensures
        r matches Ok(next) && next.revision == told.news.server_revision + 1,
{
}

/// A record is told as it is to whoever asks for it.
pub proof fn records_are_told_as_they_are(
    record: RoomProgramRecord,
    room_id: u32,
    server_time: u64,
    source: Option<String>,
    rejected: Option<RoomErrorCode>,
    r: RoomProgramBroadcast,
)
    requires
        call_ensures(
            RoomProgramRecord::announce,
            (record, room_id, server_time, source, rejected),
            r,
        ),
    ensures
        shows_record(r, room_id, record, server_time),
        says(r.source_client_id, text::opt_text(source)),
        r.rejected == rejected,
{
}

// ---------------------------------------------------------------------- records

/// An update is prepared exactly if it was made against the revision that stands.
/// The record prepared holds the layout sent, one revision more, and who sent it
/// and when; a refusal gives the record that stands.
pub proof fn updates_count_up_by_one(
    programs: &RoomPrograms,
    room_id: u32,
    expected: u64,
    state: RoomProgramState,
    by: &Pubkey,
    now_ms: u64,
    current: Option<RoomProgramRecord>,
    r: Result<RoomProgramRecord, (RoomProgramRecord, RoomErrorCode)>,
)
    requires
        call_ensures(RoomPrograms::get, (programs, room_id), current),
        current matches Some(record) && record.revision < u64::MAX,
        call_ensures(RoomPrograms::prepare, (programs, room_id, expected, state, by, now_ms), r),
    ensures
        r is Ok <==> expected == current->0.revision,
        r matches Ok(next) ==> {
            &&& next.revision == current->0.revision + 1
            &&& same_layout(next.state, state)
            &&& next.state.updated_at == now_ms && next.updated_at_ms == now_ms
            &&& says(next.updated_by, Some(pubkey::pubkey_text(by.bytes@)))
        },
        r matches Err((stands, code)) ==> code is StaleRevision && same_record(
            stands,
            current->0,
        ),
{
}

/// What was written to disk is what is read from then on; what was not leaves the
/// room as it was. No other room changes.
pub proof fn written_layouts_are_read(
    programs: &mut RoomPrograms,
    room_id: u32,
    next: RoomProgramRecord,
    saved: bool,
    r: Result<RoomProgramRecord, (RoomProgramRecord, RoomErrorCode)>,
    before: Option<RoomProgramRecord>,
    after: Option<RoomProgramRecord>,
    other: u32,
)
    requires
        call_ensures(RoomPrograms::get, (&*old(programs), room_id), before),
        before is Some,
        call_ensures(RoomPrograms::settle, (programs, room_id, next, saved), r),
        call_ensures(RoomPrograms::get, (&*final(programs), room_id), after),
    ensures
        after is Some,
        saved ==> same_record(after->0, next) && (r matches Ok(told) && same_record(told, next)),
        !saved ==> same_record(after->0, before->0) && (r matches Err((told, code))
            && code is StorageFailed && same_record(told, before->0)),
        other != room_id ==> final(programs)@.contains_key(other) == old(
            programs,
        )@.contains_key(other),
        other != room_id && old(programs)@.contains_key(other) ==> final(programs)@[other] == old(
            programs,
        )@[other],
{
}

/// A room that is not known yet is what was found of it on disk, and empty at
/// revision zero if nothing was; one that is known stays as it is. No other room
/// changes.
pub proof fn rooms_come_back_from_disk(
    programs: &mut RoomPrograms,
    room_id: u32,
    found: Option<RoomProgramRecord>,
    now_ms: u64,
    r: RoomProgramRecord,
    known: Option<RoomProgramRecord>,
    after: Option<RoomProgramRecord>,
    other: u32,
)
    requires
        call_ensures(RoomPrograms::get, (&*old(programs), room_id), known),
        call_ensures(RoomPrograms::load, (programs, room_id, found, now_ms), r),
        call_ensures(RoomPrograms::get, (&*final(programs), room_id), after),
    ensures
        after is Some && same_record(after->0, r),
        known is Some ==> same_record(r, known->0),
        known is None && found is Some ==> same_record(r, found->0),
        known is None && found is None ==> {
            &&& r.revision == 0 && r.updated_by is None && r.updated_at_ms == 0
            &&& r.state.version == 1 && r.state.environment_id@ == "cosmic-grass"@
            &&& r.state@.objects.len() == 0 && r.state.updated_at == now_ms
        },
        other != room_id ==> final(programs)@.contains_key(other) == old(
            programs,
        )@.contains_key(other),
        other != room_id && old(programs)@.contains_key(other) ==> final(programs)@[other] == old(
            programs,
        )@[other],
{
}

/// No room is known at first. A record that nobody wrote is empty and at revision
/// zero, and a copy is the record.
pub proof fn rooms_start_unknown(
    fresh: RoomPrograms,
    room_id: u32,
    found: Option<RoomProgramRecord>,
    now_ms: u64,
    empty: RoomProgramRecord,
    record: &RoomProgramRecord,
    copy: RoomProgramRecord,
)
    requires
        call_ensures(RoomPrograms::new, (), fresh),
        call_ensures(RoomPrograms::get, (&fresh, room_id), found),
        call_ensures(RoomProgramRecord::empty, (now_ms,), empty),
        call_ensures(RoomProgramRecord::duplicate, (record,), copy),
    ensures
        found is None,
        empty.revision == 0 && empty.updated_by is None && empty.updated_at_ms == 0,
        empty.state.version == 1 && empty.state.environment_id@ == "cosmic-grass"@,
        empty.state.objects@.len() == 0 && empty.state.updated_at == now_ms,
        same_record(copy, *record),
{
    assert(empty.state@.objects.len() == empty.state.objects@.len());
}

/// A text names a room number exactly if it is a number other than zero.
pub proof fn room_numbers_are_not_zero(raw: &str, r: Result<u32, RoomErrorCode>)
    requires
        call_ensures(rooms::parse_room_number, (raw,), r),
    ensures
        r matches Ok(n) ==> n > 0 && names_number(raw@, n as nat),
        r matches Err(code) ==> code is InvalidRoom && forall|n: nat| #[trigger]
            names_number(raw@, n) ==> n == 0,
{
    lemma_names(raw@);
}

// ----------------------------------------------------------------------- access

/// Whether the chain lets a wallet edit: it holds the NFT, or whoever the space
/// names as its owner still holds it and names the wallet as an editor.
pub open spec fn chain_lets_edit(access: SpaceAccess, wallet: Pubkey) -> bool {
    &&& access.holder matches Some(holder)
    &&& holder.bytes@ == wallet.bytes@ || (access.recorded_owner.bytes@ == holder.bytes@
        && exists|i: int|
        0 <= i < access.editors@.len() && (#[trigger] access.editors@[i]).bytes@ == wallet.bytes@)
}

/// Two keys are the same exactly if their bytes are.
proof fn lemma_same_key(a: Pubkey, b: Pubkey)
    ensures
        a == b <==> a.bytes@ == b.bytes@,
{
    if a.bytes@ == b.bytes@ {
        assert(a.bytes =~= b.bytes);
    }
}

/// The holder of a space may edit it, and so may the editors whom the holder has
/// named; nobody else may.
pub proof fn holders_and_their_editors_may_edit(access: &SpaceAccess, wallet: &Pubkey, r: bool)
    requires
        call_ensures(SpaceAccess::can_edit, (access, wallet), r),
    ensures
        r == chain_lets_edit(*access, *wallet),
{
    lemma_same_key(access.recorded_owner, *wallet);
    if let Some(holder) = access.holder {
        lemma_same_key(holder, *wallet);
        lemma_same_key(access.recorded_owner, holder);
    }
    if access.editors@.contains(*wallet) {
        let i = choose|i: int| 0 <= i < access.editors@.len() && access.editors@[i] == *wallet;
        assert(access.editors@[i].bytes@ == wallet.bytes@);
    }
    if chain_lets_edit(*access, *wallet) && !(access.holder->0.bytes@ == wallet.bytes@) {
        let i = choose|i: int|
            0 <= i < access.editors@.len() && (#[trigger] access.editors@[i]).bytes@
                == wallet.bytes@;
        lemma_same_key(access.editors@[i], *wallet);
        assert(access.editors@.contains(*wallet));
    }
}

/// Moderators may edit anywhere and are not looked up. Of anyone else the chain
/// decides; a space that is not minted is read-only, and where the chain cannot be
/// read nobody is told anything of it.
pub proof fn access_is_what_the_chain_says(
    moderators: &Vec<Pubkey>,
    wallet: &Pubkey,
    found: Result<SpaceAccess, ChainError>,
    asks: bool,
    edits: bool,
    r: Result<RoomAccess, RoomErrorCode>,
)
    requires
        call_ensures(rooms::needs_lookup, (moderators, wallet), asks),
        call_ensures(rooms::access_for, (moderators, wallet, found), r),
        found matches Ok(access) ==> call_ensures(
            SpaceAccess::can_edit,
            (&access, wallet),
            edits,
        ),
    ensures
        asks <==> forall|i: int|
            0 <= i < moderators@.len() ==> #[trigger] moderators@[i] != *wallet,
        !asks ==> (r matches Ok(access) && access.can_edit && access.minted && access.is_open
            && access.holder is None),
        asks && found is Ok ==> {
            &&& r matches Ok(access)
            &&& access.can_edit == edits && edits == chain_lets_edit(found->Ok_0, *wallet)
            &&& access.minted && access.is_open == found->Ok_0.is_open
            &&& says(
                access.holder,
                match found->Ok_0.holder {
                    Some(holder) => Some(pubkey::pubkey_text(holder.bytes@)),
                    None => None,
                },
            )
        },
        asks && (found matches Err(e) && e is NotFound) ==> (r matches Ok(access)
            && !access.can_edit && !access.minted && access.is_open && access.holder is None),
        asks && (found matches Err(e) && !(e is NotFound)) ==> r == Err::<
            RoomAccess,
            RoomErrorCode,
        >(RoomErrorCode::ChainUnavailable),
{
    if let Ok(access) = found {
        holders_and_their_editors_may_edit(&access, wallet, edits);
    }
    if exists|i: int| 0 <= i < moderators@.len() && moderators@[i] == *wallet {
        let i = choose|i: int| 0 <= i < moderators@.len() && moderators@[i] == *wallet;
        assert(moderators@.contains(*wallet));
    }
}

/// A client is told what it may do as it was found out; without a wallet it may
/// look around and not edit.
pub proof fn guests_may_look_and_not_edit(
    room_id: u32,
    access: Option<Result<RoomAccess, RoomErrorCode>>,
    r: Result<RoomAccessBroadcast, RoomErrorBroadcast>,
)
    requires
        call_ensures(rooms::access_notice, (room_id, access), r),
    ensures
        access is None ==> (r matches Ok(notice) && !notice.access.can_edit
            && notice.access.is_open && notice.access.minted && notice.access.holder is None
            && notice.room_id@ == text::decimal(room_id as nat)),
        access matches Some(Ok(found)) ==> (r matches Ok(notice) && notice.access == found
            && notice.room_id@ == text::decimal(room_id as nat)),
        access matches Some(Err(code)) ==> (r matches Err(refused) && refused.code == code
            && refused.room_id@ == text::decimal(room_id as nat) && refused.detail is None),
{
}

/// A text names a room exactly if it is a number from one to the supply.
pub proof fn room_ids_are_the_supply(
    raw: &str,
    supply: &Result<ChainConfig, ChainError>,
    r: Result<u32, RoomErrorCode>,
)
    requires
        call_ensures(rooms::parse_room_id, (raw, supply), r),
    ensures
        r matches Ok(room) ==> supply is Ok && names_room(
            raw@,
            room as nat,
            supply->Ok_0.total_spaces,
        ),
        r is Err && supply is Ok ==> r->Err_0 is InvalidRoom && forall|n: nat|
            !names_room(raw@, n, supply->Ok_0.total_spaces),
        supply is Err ==> r == Err::<u32, RoomErrorCode>(
            if exists|n: nat| #[trigger] names_number(raw@, n) && n > 0 {
                RoomErrorCode::ChainUnavailable
            } else {
                RoomErrorCode::InvalidRoom
            },
        ),
{
    lemma_names(raw@);
}

/// The id of a room, as it is written, names that room.
pub proof fn written_ids_name_their_room(room_id: u32, written: String)
    requires
        call_ensures(messages::write_room_id, (room_id,), written),
    ensures
        names_number(written@, room_id as nat),
        written@ == text::decimal(room_id as nat),
{
    text::lemma_decimal_digits(room_id as nat);
    text::decimal_reads_back(room_id as nat, u32::MAX as nat);
    let s = written@;
    assert(text::is_digit(s[0]));
    assert(text::is_digit(s.last()));
    assert(text::trim_start(s) == s);
    assert(text::trim_end(s) == s);
    lemma_names(s);
}

// ---------------------------------------------------------------------- reading

/// A layout is read by whoever is in its room, and by nobody else.
pub proof fn layouts_are_read_from_inside(
    c: &Clients,
    id: &str,
    raw: &str,
    supply: &Result<ChainConfig, ChainError>,
    r: Result<u32, RoomErrorBroadcast>,
)
    requires
        call_ensures(handlers::finish_request, (c, id, raw, supply), r),
    ensures
        r is Ok <==> {
            &&& supply is Ok
            &&& c@.contains_key(id@)
            &&& c@[id@].room_id matches Some(room)
            &&& names_room(raw@, room as nat, supply->Ok_0.total_spaces)
        },
        r matches Ok(room) ==> c@[id@].room_id == Some(room),
        r matches Err(refused) ==> if supply is Ok && exists|n: nat| #[trigger]
            names_room(raw@, n, supply->Ok_0.total_spaces) {
            &&& refused.code is Forbidden
            &&& says(refused.detail, Some("join the space first"@))
            &&& exists|n: nat| #[trigger]
                names_room(raw@, n, supply->Ok_0.total_spaces) && refused.room_id@
                    == text::decimal(n)
        } else {
            &&& refused.room_id@ == raw@ && refused.detail is None
            &&& refused.code == if supply is Err && exists|n: nat| #[trigger]
                names_number(raw@, n) && n > 0 {
                RoomErrorCode::ChainUnavailable
            } else {
                RoomErrorCode::InvalidRoom
            }
        },
{
    lemma_names(raw@);
    if let Ok(config) = supply {
        if let Some(n) = text::number(text::trimmed(raw@), u32::MAX as nat) {
            if 1 <= n <= config.total_spaces {
                assert(names_room(raw@, n, config.total_spaces));
            }
        }
    }
}

/// A request for a layout is taken up exactly if there is budget for it and it
/// names a number other than zero; without budget it is dropped. It moves nobody.
pub proof fn requests_are_taken_up(
    c: &mut Clients,
    id: &str,
    now: u128,
    raw: &str,
    r: Option<Result<(), RoomErrorBroadcast>>,
)
    requires
        call_ensures(handlers::begin_request, (c, id, now, raw), r),
    ensures
        others_stay(old(c)@, final(c)@, id@),
        r is None <==> !has_budget(old(c)@, id@, Limit::Joins, now),
        r matches Some(answer) ==> {
            &&& answer is Ok <==> exists|n: nat| #[trigger] names_number(raw@, n) && n > 0
            &&& answer matches Err(refused) ==> refused.code is InvalidRoom && refused.room_id@
                == raw@ && refused.detail is None
        },
        old(c)@.contains_key(id@) ==> final(c)@[id@] == (RecordView {
            limits: limits::drawn(old(c)@[id@].limits, Limit::Joins, now),
            ..old(c)@[id@]
        }),
{
    lemma_names(raw@);
}

// --------------------------------------------------------------------- changing

/// A request to change a layout is taken up, as it came, exactly if it is one and
/// names a number other than zero.
pub proof fn update_requests_are_taken_up(
    payload: Option<RoomProgramUpdatePayload>,
    r: Result<RoomProgramUpdatePayload, RoomErrorBroadcast>,
)
    requires
        call_ensures(handlers::begin_update, (payload,), r),
    ensures
        r is Ok <==> payload is Some && exists|n: nat| #[trigger]
            names_number(payload->0.room_id@, n) && n > 0,
        r matches Ok(request) ==> payload == Some(request),
        r matches Err(refused) ==> if payload is None {
            &&& refused.code is InvalidState
            &&& refused.room_id@ == "?"@
            &&& says(refused.detail, Some("malformed payload"@))
        } else {
            refused.code is InvalidRoom && refused.room_id@ == payload->0.room_id@
                && refused.detail is None
        },
{
    if let Some(request) = payload {
        lemma_names(request.room_id@);
    }
}

/// An update is let on exactly if its author is in the room it names, within
/// budget, and has proven a wallet. It goes on for that room and that wallet, with
/// the layout and the revision that were sent. A refusal says which of these is
/// missing; who is not in the room is refused as one who asks for its layout.
pub proof fn updates_need_presence_and_a_wallet(
    c: &mut Clients,
    id: &str,
    now: u128,
    request: RoomProgramUpdatePayload,
    supply: &Result<ChainConfig, ChainError>,
    r: Result<AdmittedUpdate, RoomErrorBroadcast>,
    raw: &str,
    read: Result<u32, RoomErrorBroadcast>,
)
    requires
        call_ensures(handlers::admit_update, (c, id, now, request, supply), r),
        raw@ == request.room_id@,
        call_ensures(handlers::finish_request, (&*old(c), id, raw, supply), read),
    ensures
        others_stay(old(c)@, final(c)@, id@),
        ({
            let inside = supply is Ok && old(c)@.contains_key(id@) && (old(c)@[id@].room_id
                matches Some(room) && names_room(
                request.room_id@,
                room as nat,
                supply->Ok_0.total_spaces,
            ));
            &&& r is Ok <==> inside && has_budget(old(c)@, id@, Limit::RoomUpdates, now) && old(
                c,
            )@[id@].wallet is Some
            &&& r matches Ok(update) ==> {
                &&& old(c)@[id@].room_id == Some(update.room_id)
                &&& old(c)@[id@].wallet == Some(update.wallet)
                &&& update.state == request.state
                &&& update.expected_revision == match request.server_revision {
                    Some(n) => n,
                    None => 0,
                }
            }
            &&& r matches Err(refused) ==> inside ==> {
                &&& refused.detail is None
                &&& refused.room_id@ == text::decimal(old(c)@[id@].room_id->0 as nat)
                &&& refused.code == if has_budget(old(c)@, id@, Limit::RoomUpdates, now) {
                    RoomErrorCode::AuthRequired
                } else {
                    RoomErrorCode::RateLimited
                }
            }
            &&& r matches Err(refused) ==> !inside ==> (read matches Err(same) && refused.code
                == same.code && refused.room_id@ == same.room_id@ && says(
                refused.detail,
                text::opt_text(same.detail),
            ))
            &&& old(c)@.contains_key(id@) ==> final(c)@[id@] == (RecordView {
                limits: if inside {
                    limits::drawn(old(c)@[id@].limits, Limit::RoomUpdates, now)
                } else {
                    old(c)@[id@].limits
                },
                ..old(c)@[id@]
            })
        }),
{
    lemma_names(request.room_id@);
}

/// An update is authorized exactly if its author may edit and the layout is
/// accepted. A refusal gives the reason.
pub proof fn updates_need_the_right_and_a_sound_layout(
    update: &AdmittedUpdate,
    access: Result<RoomAccess, RoomErrorCode>,
    valid: Result<(), ValidationError>,
    words: String,
    r: Result<(), RoomErrorBroadcast>,
)
    requires
        call_ensures(validate::validate_room_state, (&update.state,), valid),
        valid matches Err(problem) ==> call_ensures(
            ValidationError::message,
            (&problem,),
            words,
        ),
        call_ensures(handlers::authorize_update, (update, access), r),
    ensures
        r is Ok <==> (access matches Ok(a) && a.can_edit) && valid is Ok,
        r matches Err(refused) ==> {
            &&& refused.room_id@ == text::decimal(update.room_id as nat)
            &&& access matches Err(code) ==> refused.code == code && refused.detail is None
            &&& access matches Ok(a) ==> !a.can_edit ==> refused.code is Forbidden
                && refused.detail is None
            &&& access matches Ok(a) ==> a.can_edit ==> refused.code is InvalidState && says(
                refused.detail,
                Some(words@),
            )
        },
{
}

/// The error about a layout says in words what it is about.
pub proof fn problems_are_put_in_words(problem: &ValidationError, r: String)
    requires
        call_ensures(ValidationError::message, (problem,), r),
    ensures
        problem matches ValidationError::Version(v) ==> r@ == "unsupported state version "@
            + text::decimal(*v as nat),
        problem matches ValidationError::Environment ==> r@ == "environmentId too long"@,
        problem matches ValidationError::TooManyObjects(n) ==> r@ == "too many objects ("@
            + text::decimal(*n as nat) + " > "@ + text::decimal(200) + ")"@,
        problem matches ValidationError::Object(i, m) ==> r@ == "object "@ + text::decimal(
            *i as nat,
        ) + ": "@ + m@,
{
}

/// The sockets in a room are reached under the name `space:` and its id.
pub proof fn rooms_are_reached_by_name(room_id: u32, r: String)
    requires
        call_ensures(messages::space_room_name, (room_id,), r),
    ensures
        r@ == "space:"@ + text::decimal(room_id as nat),
{
}

} // verus!
