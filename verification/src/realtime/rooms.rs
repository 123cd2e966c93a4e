//! The layouts of the rooms, and who may change them.
//!
//! A layout changes in three steps: the update is prepared against the revision
//! that its author last saw, the prepared record is written to disk, and only
//! then does it take the place of the old one.

use crate::chain::{self, AccessView, ChainConfig, ChainError, ErrorView, SpaceAccess};
use crate::pubkey::{self, Pubkey};
use crate::realtime::messages::{
    self,
    ProgramView,
    RoomAccess,
    RoomAccessBroadcast,
    RoomAccessView,
    RoomErrorBroadcast,
    RoomErrorCode,
    RoomProgramBroadcast,
};
use crate::realtime::validate::{self, RoomProgramState, StateView};
use crate::text;
use std::collections::HashMap;
use vstd::prelude::*;
use vstd::string::*;

verus! {

// -------------------------------------------------------------------- records

/// A room's layout, how often it was changed, and by whom last.
#[derive(Debug)]
pub struct RoomProgramRecord {
    pub state: RoomProgramState,
    pub revision: u64,
    pub updated_by: Option<String>,
    pub updated_at_ms: u64,
}

/// What a room's record says.
pub struct ProgramRecordView {
    pub state: StateView,
    pub revision: u64,
    pub updated_by: Option<Seq<char>>,
    pub updated_at_ms: u64,
}

impl View for RoomProgramRecord {
    type V = ProgramRecordView;

    open spec fn view(&self) -> ProgramRecordView {
        ProgramRecordView {
            state: self.state@,
            revision: self.revision,
            updated_by: text::opt_text(self.updated_by),
            updated_at_ms: self.updated_at_ms,
        }
    }
}

/// The record of a room that nobody has changed.
pub open spec fn untouched(now_ms: u64) -> ProgramRecordView {
    ProgramRecordView {
        state: validate::empty_state(now_ms),
        revision: 0,
        updated_by: None,
        updated_at_ms: 0,
    }
}

/// The record that follows `current` once `by` has set the layout to `state`.
pub open spec fn successor(
    current: ProgramRecordView,
    state: StateView,
    by: Pubkey,
    now_ms: u64,
) -> ProgramRecordView {
    ProgramRecordView {
        state: StateView { updated_at: now_ms, ..state },
        revision: (current.revision + 1) as u64,
        updated_by: Some(pubkey::pubkey_text(by.bytes@)),
        updated_at_ms: now_ms,
    }
}

impl RoomProgramRecord {
    /// The record of a room that nobody has changed.
    pub fn empty(now_ms: u64) -> (r: RoomProgramRecord)
        ensures
            r@ == untouched(now_ms),
    {
        RoomProgramRecord {
            state: RoomProgramState::empty(now_ms),
            revision: 0,
            updated_by: None,
            updated_at_ms: 0,
        }
    }

    /// The same record once more.
    pub fn duplicate(&self) -> (r: RoomProgramRecord)
        ensures
            r@ == self@,
    {
        RoomProgramRecord {
            state: self.state.duplicate(),
            revision: self.revision,
            updated_by: match &self.updated_by {
                Some(t) => Some(t.clone()),
                None => None,
            },
            updated_at_ms: self.updated_at_ms,
        }
    }

    /// The news of this record.
    pub fn announce(
        self,
        room_id: u32,
        server_time: u64,
        source_client_id: Option<String>,
        rejected: Option<RoomErrorCode>,
    ) -> (r: RoomProgramBroadcast)
        ensures
            r@ == program_news(
                room_id,
                self@,
                server_time,
                text::opt_text(source_client_id),
                rejected,
            ),
    {
        RoomProgramBroadcast {
            room_id: messages::write_room_id(room_id),
            state: self.state,
            server_revision: self.revision,
            server_time,
            source_client_id,
            rejected,
        }
    }
}

/// The news of a room's record.
pub open spec fn program_news(
    room_id: u32,
    record: ProgramRecordView,
    server_time: u64,
    source_client_id: Option<Seq<char>>,
    rejected: Option<RoomErrorCode>,
) -> ProgramView {
    ProgramView {
        room_id: messages::room_text(room_id),
        state: record.state,
        server_revision: record.revision,
        server_time,
        source_client_id,
        rejected,
    }
}

/// The rooms that have been looked at since the start.
pub struct RoomPrograms {
    records: HashMap<u32, RoomProgramRecord>,
}

impl View for RoomPrograms {
    type V = Map<u32, ProgramRecordView>;

    closed spec fn view(&self) -> Map<u32, ProgramRecordView> {
        self.records@.map_values(|r: RoomProgramRecord| r@)
    }
}

/// What became of an update: the new record, or the current one and why it
/// stays.
pub open spec fn update_views(
    r: Result<RoomProgramRecord, (RoomProgramRecord, RoomErrorCode)>,
) -> Result<ProgramRecordView, (ProgramRecordView, RoomErrorCode)> {
    match r {
        Ok(record) => Ok(record@),
        Err((record, code)) => Err((record@, code)),
    }
}

/// An update prepared against the revision that its author last saw.
pub open spec fn prepared(
    current: ProgramRecordView,
    expected_revision: u64,
    state: StateView,
    by: Pubkey,
    now_ms: u64,
) -> Result<ProgramRecordView, (ProgramRecordView, RoomErrorCode)> {
    if current.revision != expected_revision {
        Err((current, RoomErrorCode::StaleRevision))
    } else {
        Ok(successor(current, state, by, now_ms))
    }
}

/// An update once it was written to disk, or failed to be.
pub open spec fn settled(
    current: ProgramRecordView,
    next: ProgramRecordView,
    saved: bool,
) -> Result<ProgramRecordView, (ProgramRecordView, RoomErrorCode)> {
    if saved {
        Ok(next)
    } else {
        Err((current, RoomErrorCode::StorageFailed))
    }
}

/// The rooms after one of them was looked for on disk. What was found counts only
/// for a room that is not known yet; one of which nothing was found is untouched.
pub open spec fn after_load(
    rooms: Map<u32, ProgramRecordView>,
    room_id: u32,
    found: Option<ProgramRecordView>,
    now_ms: u64,
) -> Map<u32, ProgramRecordView> {
    rooms.insert(
        room_id,
        if rooms.contains_key(room_id) {
            rooms[room_id]
        } else {
            match found {
                Some(record) => record,
                None => untouched(now_ms),
            }
        },
    )
}

/// The rooms after an update was written to disk, or failed to be.
pub open spec fn after_settle(
    rooms: Map<u32, ProgramRecordView>,
    room_id: u32,
    next: ProgramRecordView,
    saved: bool,
) -> Map<u32, ProgramRecordView> {
    if saved {
        rooms.insert(room_id, next)
    } else {
        rooms
    }
}

/// An update from beginning to end.
pub struct UpdateCourse {
    pub outcome: Result<ProgramRecordView, (ProgramRecordView, RoomErrorCode)>,
    /// The rooms after it.
    pub rooms: Map<u32, ProgramRecordView>,
    /// What was handed to the disk.
    pub written: Option<ProgramRecordView>,
}

/// An update from beginning to end: the room is loaded, the update is prepared
/// against it, and what was prepared is written to disk and settled.
pub open spec fn updated(
    rooms: Map<u32, ProgramRecordView>,
    room_id: u32,
    found: Option<ProgramRecordView>,
    loaded_ms: u64,
    expected_revision: u64,
    state: StateView,
    by: Pubkey,
    now_ms: u64,
    saved: bool,
) -> UpdateCourse {
    let loaded = after_load(rooms, room_id, found, loaded_ms);
    match prepared(loaded[room_id], expected_revision, state, by, now_ms) {
        Err(e) => UpdateCourse { outcome: Err(e), rooms: loaded, written: None },
        Ok(next) => UpdateCourse {
            outcome: settled(loaded[room_id], next, saved),
            rooms: after_settle(loaded, room_id, next, saved),
            written: Some(next),
        },
    }
}

impl RoomPrograms {
    pub fn new() -> (r: RoomPrograms)
        ensures
            r@ == Map::<u32, ProgramRecordView>::empty(),
    {
        broadcast use vstd::std_specs::hash::group_hash_axioms;

        let r = RoomPrograms { records: HashMap::new() };
        proof {
            assert(r@ =~= Map::<u32, ProgramRecordView>::empty());
        }
        r
    }

    /// The record of a room, if it has been looked at before.
    pub fn get(&self, room_id: u32) -> (r: Option<RoomProgramRecord>)
        ensures
            match r {
                Some(record) => self@.contains_key(room_id) && record@ == self@[room_id],
                None => !self@.contains_key(room_id),
            },
    {
        broadcast use vstd::std_specs::hash::group_hash_axioms;

        match self.records.get(&room_id) {
            Some(record) => Some(record.duplicate()),
            None => None,
        }
    }

    /// Takes in what was found on disk for a room, and gives its record. A room
    /// of which nothing was found is untouched; one that is known by now stays
    /// as it is.
    pub fn load(&mut self, room_id: u32, found: Option<RoomProgramRecord>, now_ms: u64) -> (r:
        RoomProgramRecord)
        ensures
            final(self)@ == after_load(
                old(self)@,
                room_id,
                match found {
                    Some(record) => Some(record@),
                    None => None,
                },
                now_ms,
            ),
            r@ == final(self)@[room_id],
    {
        broadcast use vstd::std_specs::hash::group_hash_axioms;

        if let Some(record) = self.get(room_id) {
            proof {
                assert(self@ =~= old(self)@.insert(room_id, old(self)@[room_id]));
            }
            return record;
        }
        let record = match found {
            Some(record) => record,
            None => RoomProgramRecord::empty(now_ms),
        };
        let kept = record.duplicate();
        self.records.insert(room_id, kept);
        proof {
            assert(self@ =~= old(self)@.insert(room_id, record@));
        }
        record
    }

    /// Prepares an update of a room that is loaded. Nothing changes yet.
    pub fn prepare(
        &self,
        room_id: u32,
        expected_revision: u64,
        state: RoomProgramState,
        by: &Pubkey,
        now_ms: u64,
    ) -> (r: Result<RoomProgramRecord, (RoomProgramRecord, RoomErrorCode)>)
        requires
            self@.contains_key(room_id),
            self@[room_id].revision == expected_revision ==> expected_revision < u64::MAX,
        ensures
            update_views(r) == prepared(
                self@[room_id],
                expected_revision,
                state@,
                *by,
                now_ms,
            ),
    {
        broadcast use vstd::std_specs::hash::group_hash_axioms;

        let current = self.get(room_id).unwrap();
        if current.revision != expected_revision {
            return Err((current, RoomErrorCode::StaleRevision));
        }
        let mut state = state;
        state.updated_at = now_ms;
        Ok(
            RoomProgramRecord {
                state,
                revision: current.revision + 1,
                updated_by: Some(by.to_text()),
                updated_at_ms: now_ms,
            },
        )
    }

    /// Takes in whether a prepared record was written to disk. If it was, it is
    /// the room's record from now on; if not, the room stays as it is.
    pub fn settle(&mut self, room_id: u32, next: RoomProgramRecord, saved: bool) -> (r: Result<
        RoomProgramRecord,
        (RoomProgramRecord, RoomErrorCode),
    >)
        requires
            old(self)@.contains_key(room_id),
        ensures
            update_views(r) == settled(old(self)@[room_id], next@, saved),
            final(self)@ == after_settle(old(self)@, room_id, next@, saved),
    {
        broadcast use vstd::std_specs::hash::group_hash_axioms;

        if saved {
            let kept = next.duplicate();
            self.records.insert(room_id, kept);
            proof {
                assert(self@ =~= old(self)@.insert(room_id, next@));
            }
            Ok(next)
        } else {
            let current = self.get(room_id).unwrap();
            Err((current, RoomErrorCode::StorageFailed))
        }
    }
}

// -------------------------------------------------------------------- room ids

/// The number that a room id is: any but zero.
pub open spec fn room_number(raw: Seq<char>) -> Result<u32, RoomErrorCode> {
    match text::number(text::trimmed(raw), u32::MAX as nat) {
        Some(n) => if n == 0 {
            Err(RoomErrorCode::InvalidRoom)
        } else {
            Ok(n as u32)
        },
        None => Err(RoomErrorCode::InvalidRoom),
    }
}

/// A room number held against the supply of spaces.
pub open spec fn supplied(id: u32, supply: Result<ChainConfig, ErrorView>) -> Result<
    u32,
    RoomErrorCode,
> {
    match supply {
        Ok(config) => if id <= config.total_spaces {
            Ok(id)
        } else {
            Err(RoomErrorCode::InvalidRoom)
        },
        Err(_) => Err(RoomErrorCode::ChainUnavailable),
    }
}

/// The room that a room id names, given the supply of spaces.
pub open spec fn room_named(raw: Seq<char>, supply: Result<ChainConfig, ErrorView>) -> Result<
    u32,
    RoomErrorCode,
> {
    match room_number(raw) {
        Ok(id) => supplied(id, supply),
        Err(code) => Err(code),
    }
}

/// Reads a room number.
pub fn parse_room_number(raw: &str) -> (r: Result<u32, RoomErrorCode>)
    ensures
        r == room_number(raw@),
{
    let trimmed = text::trim(raw);
    match text::parse_number(trimmed.as_str(), u32::MAX as u64) {
        Some(n) => if n == 0 {
            Err(RoomErrorCode::InvalidRoom)
        } else {
            Ok(n as u32)
        },
        None => Err(RoomErrorCode::InvalidRoom),
    }
}

/// Reads a room id and holds it against the supply of spaces.
pub fn parse_room_id(raw: &str, supply: &Result<ChainConfig, ChainError>) -> (r: Result<
    u32,
    RoomErrorCode,
>)
    ensures
        r == room_named(raw@, chain::config_outcome(*supply)),
{
    match parse_room_number(raw) {
        Err(code) => Err(code),
        Ok(id) => match supply {
            Ok(config) => if id <= config.total_spaces {
                Ok(id)
            } else {
                Err(RoomErrorCode::InvalidRoom)
            },
            Err(_) => Err(RoomErrorCode::ChainUnavailable),
        },
    }
}

// ---------------------------------------------------------------------- access

/// What a moderator may do anywhere.
pub open spec fn moderator_access() -> RoomAccessView {
    RoomAccessView { can_edit: true, holder: None, is_open: true, minted: true }
}

/// What a guest may do anywhere.
pub open spec fn guest_access() -> RoomAccessView {
    RoomAccessView { can_edit: false, holder: None, is_open: true, minted: true }
}

/// What a wallet may do in a space, by what the chain says of it. A space that
/// is not there has not been minted yet, and nobody edits it.
pub open spec fn chain_access(wallet: Pubkey, found: Result<AccessView, ErrorView>) -> Result<
    RoomAccessView,
    RoomErrorCode,
> {
    match found {
        Ok(access) => Ok(
            RoomAccessView {
                can_edit: chain::may_edit(access, wallet),
                holder: match access.holder {
                    Some(holder) => Some(pubkey::pubkey_text(holder.bytes@)),
                    None => None,
                },
                is_open: access.is_open,
                minted: true,
            },
        ),
        Err(ErrorView::NotFound) => Ok(
            RoomAccessView { can_edit: false, holder: None, is_open: true, minted: false },
        ),
        Err(_) => Err(RoomErrorCode::ChainUnavailable),
    }
}

/// What a wallet may do in a room. Moderators are not looked up on the chain.
pub open spec fn access_of(
    moderators: Seq<Pubkey>,
    wallet: Pubkey,
    found: Result<AccessView, ErrorView>,
) -> Result<RoomAccessView, RoomErrorCode> {
    if moderators.contains(wallet) {
        Ok(moderator_access())
    } else {
        chain_access(wallet, found)
    }
}

/// What an answer on access says.
pub open spec fn access_views(r: Result<RoomAccess, RoomErrorCode>) -> Result<
    RoomAccessView,
    RoomErrorCode,
> {
    match r {
        Ok(access) => Ok(access@),
        Err(code) => Err(code),
    }
}

/// Whether the chain has to be asked what a wallet may do.
pub fn needs_lookup(moderators: &Vec<Pubkey>, wallet: &Pubkey) -> (r: bool)
    ensures
        r == !moderators@.contains(*wallet),
{
    !pubkey::contains_key(moderators, wallet)
}

/// What a wallet may do in a room, by what the chain was found to say. For a
/// moderator that does not matter.
pub fn access_for(
    moderators: &Vec<Pubkey>,
    wallet: &Pubkey,
    found: Result<SpaceAccess, ChainError>,
) -> (r: Result<RoomAccess, RoomErrorCode>)
    ensures
        access_views(r) == access_of(moderators@, *wallet, chain::access_outcome(found)),
{
    if pubkey::contains_key(moderators, wallet) {
        return Ok(RoomAccess { can_edit: true, holder: None, is_open: true, minted: true });
    }
    match found {
        Ok(access) => Ok(
            RoomAccess {
                can_edit: access.can_edit(wallet),
                holder: match &access.holder {
                    Some(holder) => Some(holder.to_text()),
                    None => None,
                },
                is_open: access.is_open,
                minted: true,
            },
        ),
        Err(ChainError::NotFound) => Ok(
            RoomAccess { can_edit: false, holder: None, is_open: true, minted: false },
        ),
        Err(_) => Err(RoomErrorCode::ChainUnavailable),
    }
}

/// Tells a client what it may do in a room. `access` is what was found out for
/// its wallet; a client that has proven none is a guest.
pub fn access_notice(room_id: u32, access: Option<Result<RoomAccess, RoomErrorCode>>) -> (r: Result<
    RoomAccessBroadcast,
    RoomErrorBroadcast,
>)
    ensures
        match access {
            Some(Err(code)) => r matches Err(refused) && refused@ == messages::refusal(
                messages::room_text(room_id),
                code,
            ),
            Some(Ok(access)) => r matches Ok(notice) && notice.room_id@ == messages::room_text(
                room_id,
            ) && notice.access == access,
            None => r matches Ok(notice) && notice.room_id@ == messages::room_text(room_id)
                && notice.access@ == guest_access(),
        },
{
    let room = messages::write_room_id(room_id);
    match access {
        Some(Err(code)) => Err(messages::refuse(room, code)),
        Some(Ok(access)) => Ok(RoomAccessBroadcast { room_id: room, access }),
        None => Ok(
            RoomAccessBroadcast {
                room_id: room,
                access: RoomAccess { can_edit: false, holder: None, is_open: true, minted: true },
            },
        ),
    }
}

// ------------------------------------------------------------------------ laws

/// Whoever reads a room after an update sees what was written, and only if it
/// reached the disk; no other room changes.
pub proof fn layouts_read_back(
    rooms: Map<u32, ProgramRecordView>,
    room_id: u32,
    other: u32,
    next: ProgramRecordView,
    saved: bool,
    server_time: u64,
)
    requires
        other != room_id,
    ensures
        ({
            let after = after_settle(rooms, room_id, next, saved);
            let news = program_news(room_id, after[room_id], server_time, None, None);
            &&& saved ==> after.contains_key(room_id) && news.state == next.state
                && news.server_revision == next.revision
            &&& !saved ==> after == rooms
            &&& after.contains_key(other) == rooms.contains_key(other)
            &&& after[other] == rooms[other]
        }),
{
}

/// After a restart a room is what was last written of it to disk; and looking for
/// it again changes nothing, whatever is found.
pub proof fn restarts_keep_layouts(
    room_id: u32,
    record: ProgramRecordView,
    again: Option<ProgramRecordView>,
    now_ms: u64,
    later_ms: u64,
)
    ensures
        ({
            let restarted = Map::<u32, ProgramRecordView>::empty();
            let loaded = after_load(restarted, room_id, Some(record), now_ms);
            &&& loaded[room_id] == record
            &&& after_load(loaded, room_id, again, later_ms) == loaded
        }),
{
    let loaded = after_load(Map::empty(), room_id, Some(record), now_ms);
    assert(after_load(loaded, room_id, again, later_ms) =~= loaded);
}

/// Only the ids `1..=total_spaces` name a room, and each of them does.
pub proof fn rooms_are_the_supply(raw: Seq<char>, config: ChainConfig, id: u32)
    ensures
        room_named(raw, Ok(config)) matches Ok(room) ==> 1 <= room <= config.total_spaces,
        1 <= id <= config.total_spaces ==> room_named(messages::room_text(id), Ok(config)) == Ok::<
            u32,
            RoomErrorCode,
        >(id),
{
    let s = messages::room_text(id);
    text::lemma_decimal_digits(id as nat);
    assert(text::is_digit(s[0]));
    assert(text::is_digit(s.last()));
    assert(text::trim_start(s) == s);
    assert(text::trim_end(s) == s);
    text::decimal_reads_back(id as nat, u32::MAX as nat);
}

/// A room that has not been minted is edited by moderators alone.
pub proof fn unminted_rooms_are_read_only(moderators: Seq<Pubkey>, wallet: Pubkey)
    ensures
        access_of(moderators, wallet, Err(ErrorView::NotFound)) matches Ok(access)
            && access.can_edit == moderators.contains(wallet),
{
}

/// A wallet may edit exactly if it is a moderator's, or the chain was read and
/// says so.
pub proof fn editing_follows_the_chain(
    moderators: Seq<Pubkey>,
    wallet: Pubkey,
    found: Result<AccessView, ErrorView>,
)
    ensures
        (access_of(moderators, wallet, found) matches Ok(access) && access.can_edit) <==> (
        moderators.contains(wallet) || (found matches Ok(access) && chain::may_edit(
            access,
            wallet,
        ))),
{
}

/// Of two updates made against the same revision, the second is refused and is
/// told the record that the first one left.
pub proof fn second_writer_is_refused(
    current: ProgramRecordView,
    first: StateView,
    second: StateView,
    a: Pubkey,
    b: Pubkey,
    now_a: u64,
    now_b: u64,
)
    requires
        current.revision < u64::MAX,
    ensures
        prepared(current, current.revision, first, a, now_a) matches Ok(next) && prepared(
            next,
            current.revision,
            second,
            b,
            now_b,
        ) == Err::<ProgramRecordView, (ProgramRecordView, RoomErrorCode)>(
            (next, RoomErrorCode::StaleRevision),
        ),
{
}

/// An update is applied exactly if it was made against the current revision and
/// reached the disk; it then counts the revision up by one and holds the layout
/// it was given. A refused update leaves the record as it was.
pub proof fn applied_or_unchanged(
    current: ProgramRecordView,
    expected_revision: u64,
    state: StateView,
    by: Pubkey,
    now_ms: u64,
    saved: bool,
)
    requires
        current.revision < u64::MAX,
    ensures
        match prepared(current, expected_revision, state, by, now_ms) {
            Ok(next) => {
                &&& expected_revision == current.revision
                &&& next.revision == current.revision + 1
                &&& next.state.objects == state.objects
                &&& next.state.environment_id == state.environment_id
                &&& settled(current, next, saved) is Ok <==> saved
                &&& settled(current, next, saved) matches Err((kept, _)) ==> kept == current
            },
            Err((kept, code)) => expected_revision != current.revision && kept == current && code
                == RoomErrorCode::StaleRevision,
        },
{
}

/// An update fails exactly if it was made against another revision than the
/// current one, or did not reach the disk. It is then answered with the record
/// that the room had before, and whoever looks at the room still finds that
/// record, whatever the disk holds. An update against another revision writes
/// nothing; one that succeeds was written, and is what is found from then on.
pub proof fn updates_are_all_or_nothing(
    rooms: Map<u32, ProgramRecordView>,
    room_id: u32,
    found: Option<ProgramRecordView>,
    loaded_ms: u64,
    expected_revision: u64,
    state: StateView,
    by: Pubkey,
    now_ms: u64,
    saved: bool,
    on_disk: Option<ProgramRecordView>,
    later_ms: u64,
)
    ensures
        ({
            let current = after_load(rooms, room_id, found, loaded_ms)[room_id];
            let course = updated(
                rooms,
                room_id,
                found,
                loaded_ms,
                expected_revision,
                state,
                by,
                now_ms,
                saved,
            );
            let seen = after_load(course.rooms, room_id, on_disk, later_ms)[room_id];
            let stale = expected_revision != current.revision;
            &&& stale <==> course.outcome == Err::<
                ProgramRecordView,
                (ProgramRecordView, RoomErrorCode),
            >((current, RoomErrorCode::StaleRevision))
            &&& !stale && !saved <==> course.outcome == Err::<
                ProgramRecordView,
                (ProgramRecordView, RoomErrorCode),
            >((current, RoomErrorCode::StorageFailed))
            &&& course.outcome is Err <==> stale || !saved
            &&& course.outcome is Err ==> seen == current
            &&& stale ==> course.written is None
            &&& course.outcome matches Ok(next) ==> course.written == Some(next) && seen == next
                && next == successor(current, state, by, now_ms)
        }),
{
}

} // verus!
