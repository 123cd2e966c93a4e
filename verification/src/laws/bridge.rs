//! What the bridge knows after what it was told.

use crate::agents::bridge::{
    self, AgentInfo, Agents, Bridge, BridgeEvent, BridgeView, EnvelopeView, EventEnvelope,
    Refused,
};
use crate::agents::world::{self, ChatLine, Player};
use crate::json::Json;
use crate::laws::texts;
use crate::scalar::Scalar;
use crate::text;
use vstd::prelude::*;
use vstd::string::*;

verus! {

/// Whether two players are shown alike.
pub open spec fn same_player(a: Player, b: Player) -> bool {
    &&& a.position@ == b.position@
    &&& a.rotation == b.rotation
    &&& a.avatar@ == b.avatar@
    &&& a.nickname@ == b.nickname@
}

/// Whether a list has a player under an id.
pub open spec fn lists(list: Seq<(String, Player)>, id: Seq<char>, p: Player) -> bool {
    exists|i: int|
        0 <= i < list.len() && (#[trigger] list[i]).0@ == id && same_player(list[i].1, p)
}

/// Whether a list has nobody under an id.
pub open spec fn lists_nobody(list: Seq<(String, Player)>, id: Seq<char>) -> bool {
    forall|i: int| 0 <= i < list.len() ==> (#[trigger] list[i]).0@ != id
}

/// Whether two lists say the same of everyone but one.
pub open spec fn others_alike(
    before: Seq<(String, Player)>,
    after: Seq<(String, Player)>,
    id: Seq<char>,
) -> bool {
    forall|other: Seq<char>, p: Player|
        other != id ==> (#[trigger] lists(after, other, p) <==> lists(before, other, p))
}

/// Whether two lists say the same of everyone.
pub open spec fn all_alike(before: Seq<(String, Player)>, after: Seq<(String, Player)>) -> bool {
    forall|other: Seq<char>, p: Player| #[trigger]
        lists(after, other, p) <==> lists(before, other, p)
}

/// Whether a list has each id once.
pub open spec fn once_each(list: Seq<(String, Player)>) -> bool {
    forall|i: int, j: int|
        0 <= i < j < list.len() ==> (#[trigger] list[i]).0@ != (#[trigger] list[j]).0@
}

proof fn lemma_dom(v: Seq<(String, Player)>)
    ensures
        world::players_in(v).dom().finite(),
        world::players_in(v).dom().len() <= v.len(),
        world::players_in(v).dom().len() == v.len() ==> once_each(v),
        forall|i: int|
            0 <= i < v.len() ==> world::players_in(v).contains_key((#[trigger] v[i]).0@),
        forall|id: Seq<char>| #[trigger]
            world::players_in(v).contains_key(id) ==> exists|i: int|
                0 <= i < v.len() && (#[trigger] v[i]).0@ == id && v[i].1@ == world::players_in(
                    v,
                )[id],
    decreases v.len(),
{
    if v.len() > 0 {
        let front = v.drop_last();
        let last = v.last().0@;
        let before = world::players_in(front);
        let now = world::players_in(v);
        lemma_dom(front);
        assert(now.dom() =~= before.dom().insert(last));
        assert forall|i: int| 0 <= i < v.len() implies now.contains_key((#[trigger] v[i]).0@) by {
            if i < front.len() {
                assert(front[i] == v[i]);
            }
        }
        if now.dom().len() == v.len() {
            assert(!before.contains_key(last));
            assert forall|i: int, j: int| 0 <= i < j < v.len() implies (#[trigger] v[i]).0@ != (
            #[trigger] v[j]).0@ by {
                assert(front[i] == v[i]);
                if j < front.len() {
                    assert(front[j] == v[j]);
                } else {
                    assert(before.contains_key(front[i].0@));
                }
            }
        }
        assert forall|id: Seq<char>| #[trigger] now.contains_key(id) implies exists|i: int|
            0 <= i < v.len() && (#[trigger] v[i]).0@ == id && v[i].1@ == now[id] by {
            if id == last {
                assert(v[v.len() - 1].0@ == id);
            } else {
                assert(before.contains_key(id));
                let i = choose|i: int|
                    0 <= i < front.len() && (#[trigger] front[i]).0@ == id && front[i].1@
                        == before[id];
                assert(v[i] == front[i]);
            }
        }
    }
}

/// A list without doubles says of everyone what its map does.
proof fn lemma_lists(v: Seq<(String, Player)>)
    requires
        world::players_in(v).dom().len() == v.len(),
    ensures
        once_each(v),
        forall|id: Seq<char>, p: Player| #[trigger]
            lists(v, id, p) <==> world::players_in(v).contains_key(id) && world::players_in(v)[id]
                == p@,
        forall|id: Seq<char>| #[trigger]
            lists_nobody(v, id) <==> !world::players_in(v).contains_key(id),
{
    let m = world::players_in(v);
    lemma_dom(v);
    assert forall|id: Seq<char>, p: Player| #[trigger]
        lists(v, id, p) <==> m.contains_key(id) && m[id] == p@ by {
        if lists(v, id, p) {
            let i = choose|i: int|
                0 <= i < v.len() && (#[trigger] v[i]).0@ == id && same_player(v[i].1, p);
            assert(m.contains_key(v[i].0@));
            let j = choose|j: int|
                0 <= j < v.len() && (#[trigger] v[j]).0@ == id && v[j].1@ == m[id];
            if i < j {
                assert(v[i].0@ != v[j].0@);
            } else if j < i {
                assert(v[j].0@ != v[i].0@);
            }
            assert(m[id] =~= p@);
        }
        if m.contains_key(id) && m[id] == p@ {
            let j = choose|j: int|
                0 <= j < v.len() && (#[trigger] v[j]).0@ == id && v[j].1@ == m[id];
            assert(same_player(v[j].1, p));
        }
    }
    assert forall|id: Seq<char>| #[trigger] lists_nobody(v, id) <==> !m.contains_key(id) by {
        if m.contains_key(id) {
            let j = choose|j: int|
                0 <= j < v.len() && (#[trigger] v[j]).0@ == id && v[j].1@ == m[id];
            assert(v[j].0@ == id);
        }
        if !lists_nobody(v, id) {
            let i = choose|i: int| 0 <= i < v.len() && (#[trigger] v[i]).0@ == id;
            assert(m.contains_key(v[i].0@));
        }
    }
}

/// Whether there is one more event, under the next number and with its time, behind
/// those kept before, without the oldest beyond 2000.
pub open spec fn one_more_event(before: BridgeView, after: BridgeView, ts_ms: u64) -> bool {
    let dropped = if before.events.len() < 2000 {
        0int
    } else {
        1int
    };
    &&& after.events.len() == before.events.len() - dropped + 1
    &&& after.events.last().id == before.next_event_id
    &&& after.events.last().ts_ms == ts_ms
    &&& forall|i: int|
        0 <= i < after.events.len() - 1 ==> #[trigger] after.events[i] == before.events[i + dropped]
    &&& before.next_event_id < u64::MAX ==> after.next_event_id == before.next_event_id + 1
}

proof fn lemma_last_page(b: &Bridge, after: u64, r: Vec<EventEnvelope>)
    requires
        b.wf(),
        call_ensures(Bridge::get_events, (b, Some(after), Some(2000usize)), r),
        b@.events.len() > 0,
        b@.events.last().id > after,
    ensures
        r@.len() > 0,
        r@.last()@ == b@.events.last(),
{
    b.memory_is_bounded();
    let keep = |e: EnvelopeView| e.id > after;
    let events = b@.events;
    reveal(Seq::filter);
    assert(events.filter(keep) == events.drop_last().filter(keep).push(events.last()));
    let shown = bridge::envelope_views(r@);
    assert(shown == events.filter(keep));
    assert(shown.last() == r@.last()@);
}

// ---------------------------------------------------------------------- clients

/// After news of a client that names an id and carries its user data, the bridge
/// knows under that id exactly that user data, tells of it as the newest event, and
/// knows of everyone else what it knew.
pub proof fn newcomers_are_known_as_they_are(
    b: &mut Bridge,
    doc: &Json,
    user_data: Player,
    raw: String,
    ts_ms: u64,
    id: String,
    before: Vec<(String, Player)>,
    after: Vec<(String, Player)>,
    seen: u64,
    events: Vec<EventEnvelope>,
)
    requires
        old(b).wf(),
        call_ensures(Json::text_field_or_empty, (doc, "id"), id),
        id@.len() > 0,
        call_ensures(Bridge::new_user, (b, doc, Some(user_data), raw, ts_ms), ()),
        call_ensures(Bridge::clients, (&*old(b),), before),
        call_ensures(Bridge::clients, (&*final(b),), after),
        seen < old(b)@.next_event_id,
        call_ensures(Bridge::get_events, (&*final(b), Some(seen), Some(2000usize)), events),
    ensures
        one_more_event(old(b)@, final(b)@, ts_ms),
        lists(after@, id@, user_data),
        once_each(after@),
        others_alike(before@, after@, id@),
        final(b)@.last_chat == old(b)@.last_chat,
        events@.len() > 0 && events@.last().id == final(b)@.events.last().id && events@.last().ts_ms
            == ts_ms,
        events@.last().event matches BridgeEvent::NewUser { id: who, user_data: shown } && who@
            == id@ && same_player(shown, user_data),
{
    old(b).memory_is_bounded();
    lemma_lists(before@);
    lemma_lists(after@);
    lemma_last_page(final(b), seen, events);
}

/// News that names an id without user data makes a client of which nothing is
/// known; news that names nobody is kept as it came, and changes no client.
pub proof fn news_without_details_is_kept(
    b: &mut Bridge,
    doc: &Json,
    user_data: Option<Player>,
    raw: String,
    ts_ms: u64,
    id: String,
    before: Vec<(String, Player)>,
    after: Vec<(String, Player)>,
    nothing: Player,
    seen: u64,
    events: Vec<EventEnvelope>,
)
    requires
        old(b).wf(),
        call_ensures(Json::text_field_or_empty, (doc, "id"), id),
        call_ensures(Bridge::new_user, (b, doc, user_data, raw, ts_ms), ()),
        call_ensures(Bridge::clients, (&*old(b),), before),
        call_ensures(Bridge::clients, (&*final(b),), after),
        nothing.position@.len() == 0,
        nothing.rotation.bits == 0,
        nothing.avatar@.len() == 0,
        nothing.nickname@.len() == 0,
        seen < old(b)@.next_event_id,
        call_ensures(Bridge::get_events, (&*final(b), Some(seen), Some(2000usize)), events),
    ensures
        one_more_event(old(b)@, final(b)@, ts_ms),
        final(b)@.last_chat == old(b)@.last_chat,
        events@.len() > 0,
        id@.len() > 0 && user_data is None ==> lists(after@, id@, nothing) && others_alike(
            before@,
            after@,
            id@,
        ) && (events@.last().event matches BridgeEvent::NewUser { id: who, user_data: shown }
            && who@ == id@ && same_player(shown, nothing)),
        id@.len() == 0 ==> all_alike(before@, after@) && (
        events@.last().event matches BridgeEvent::Raw { event, data } && event@ == "new user"@
            && data@ == raw@),
{
    old(b).memory_is_bounded();
    lemma_lists(before@);
    lemma_lists(after@);
    lemma_last_page(final(b), seen, events);
    assert(nothing.position@ =~= Seq::<Scalar>::empty());
    assert(nothing.avatar@ =~= Seq::<char>::empty());
    assert(nothing.nickname@ =~= Seq::<char>::empty());
}

/// Who left is known no more, and everyone else is as before; the newest event
/// tells of it. News that names nobody is kept as it came.
pub proof fn leavers_are_forgotten(
    b: &mut Bridge,
    doc: &Json,
    raw: String,
    ts_ms: u64,
    before: Vec<(String, Player)>,
    after: Vec<(String, Player)>,
    seen: u64,
    events: Vec<EventEnvelope>,
)
    requires
        old(b).wf(),
        call_ensures(Bridge::delete, (b, doc, raw, ts_ms), ()),
        call_ensures(Bridge::clients, (&*old(b),), before),
        call_ensures(Bridge::clients, (&*final(b),), after),
        seen < old(b)@.next_event_id,
        call_ensures(Bridge::get_events, (&*final(b), Some(seen), Some(2000usize)), events),
    ensures
        one_more_event(old(b)@, final(b)@, ts_ms),
        final(b)@.last_chat == old(b)@.last_chat,
        events@.len() > 0 && events@.last().id == final(b)@.events.last().id && events@.last().ts_ms
            == ts_ms,
        match *doc {
            Json::Text(id) => id@.len() > 0 ==> lists_nobody(after@, id@) && others_alike(
                before@,
                after@,
                id@,
            ) && (events@.last().event matches BridgeEvent::Delete(who) && who@ == id@),
            _ => true,
        },
        !(*doc matches Json::Text(id) && id@.len() > 0) ==> all_alike(before@, after@) && (
        events@.last().event matches BridgeEvent::Raw { event, data } && event@ == "delete"@
            && data@ == raw@),
{
    old(b).memory_is_bounded();
    lemma_lists(before@);
    lemma_lists(after@);
    lemma_last_page(final(b), seen, events);
}

/// Who moved to three coordinates is known to be there, turned as it said. Its
/// name and avatar are those that the move gave, or else those known before. The
/// newest event tells what the move said; everyone else is as before.
pub proof fn movers_are_where_they_went(
    b: &mut Bridge,
    doc: &Json,
    position: Vec<Scalar>,
    raw: String,
    ts_ms: u64,
    id: String,
    zero: Scalar,
    rotation: Scalar,
    avatar: String,
    nickname: String,
    before: Vec<(String, Player)>,
    after: Vec<(String, Player)>,
    seen: u64,
    events: Vec<EventEnvelope>,
)
    requires
        old(b).wf(),
        call_ensures(Json::text_field_or_empty, (doc, "id"), id),
        zero.bits == 0,
        call_ensures(Json::single_field_or, (doc, "rotation", zero), rotation),
        call_ensures(Json::text_field_or_empty, (doc, "avatar"), avatar),
        call_ensures(Json::text_field_or_empty, (doc, "nickname"), nickname),
        id@.len() > 0,
        position@.len() == 3,
        call_ensures(Bridge::moved, (b, doc, Some(position), raw, ts_ms), ()),
        call_ensures(Bridge::clients, (&*old(b),), before),
        call_ensures(Bridge::clients, (&*final(b),), after),
        seen < old(b)@.next_event_id,
        call_ensures(Bridge::get_events, (&*final(b), Some(seen), Some(2000usize)), events),
    ensures
        one_more_event(old(b)@, final(b)@, ts_ms),
        once_each(after@),
        exists|i: int|
            #![trigger after@[i]]
            0 <= i < after@.len() && after@[i].0@ == id@ && {
                let now = after@[i].1;
                &&& now.position@ == position@
                &&& now.rotation == rotation
                &&& avatar@.len() > 0 ==> now.avatar@ == avatar@
                &&& nickname@.len() > 0 ==> now.nickname@ == nickname@
                &&& forall|was: Player| #[trigger]
                    lists(before@, id@, was) ==> (avatar@.len() == 0 ==> now.avatar@ == was.avatar@)
                        && (nickname@.len() == 0 ==> now.nickname@ == was.nickname@)
                &&& lists_nobody(before@, id@) ==> now.avatar@ == avatar@ && now.nickname@
                    == nickname@
            },
        others_alike(before@, after@, id@),
        final(b)@.last_chat == old(b)@.last_chat,
        events@.len() > 0 && events@.last().id == final(b)@.events.last().id && events@.last().ts_ms
            == ts_ms,
        events@.last().event matches BridgeEvent::Move { id: who, player } && who@ == id@
            && player.position@ == position@ && player.rotation == rotation && player.avatar@
            == avatar@ && player.nickname@ == nickname@,
{
    old(b).memory_is_bounded();
    lemma_lists(before@);
    lemma_lists(after@);
    lemma_last_page(final(b), seen, events);
    lemma_dom(after@);
    assert(world::players_in(after@).contains_key(id@));
    let i = choose|i: int|
        0 <= i < after@.len() && (#[trigger] after@[i]).0@ == id@ && after@[i].1@
            == world::players_in(after@)[id@];
    let now = after@[i].1;
    assert(zero == Scalar { bits: 0 });
    if lists_nobody(before@, id@) {
        assert(now.avatar@ =~= avatar@);
        assert(now.nickname@ =~= nickname@);
    }
    assert forall|was: Player| #[trigger] lists(before@, id@, was) implies (avatar@.len() == 0
        ==> now.avatar@ == was.avatar@) && (nickname@.len() == 0 ==> now.nickname@
        == was.nickname@) by {
        assert(world::players_in(before@)[id@] == was@);
    }
}

/// A move that names nobody or no three coordinates is kept as it came, and moves
/// nobody.
pub proof fn unclear_moves_move_nobody(
    b: &mut Bridge,
    doc: &Json,
    position: Option<Vec<Scalar>>,
    raw: String,
    ts_ms: u64,
    id: String,
    before: Vec<(String, Player)>,
    after: Vec<(String, Player)>,
    seen: u64,
    events: Vec<EventEnvelope>,
)
    requires
        old(b).wf(),
        call_ensures(Json::text_field_or_empty, (doc, "id"), id),
        id@.len() == 0 || !(position matches Some(p) && p@.len() == 3),
        call_ensures(Bridge::moved, (b, doc, position, raw, ts_ms), ()),
        call_ensures(Bridge::clients, (&*old(b),), before),
        call_ensures(Bridge::clients, (&*final(b),), after),
        seen < old(b)@.next_event_id,
        call_ensures(Bridge::get_events, (&*final(b), Some(seen), Some(2000usize)), events),
    ensures
        one_more_event(old(b)@, final(b)@, ts_ms),
        final(b)@.last_chat == old(b)@.last_chat,
        all_alike(before@, after@),
        events@.len() > 0 && events@.last().id == final(b)@.events.last().id && events@.last().ts_ms
            == ts_ms,
        events@.last().event matches BridgeEvent::Raw { event, data } && event@ == "move"@
            && data@ == raw@,
{
    old(b).memory_is_bounded();
    lemma_lists(before@);
    lemma_lists(after@);
    lemma_last_page(final(b), seen, events);
}

/// After a list of all clients the bridge knows those and nobody else, the later of
/// two of the same id; the newest event is the list. One that could not be read is
/// kept as it came.
pub proof fn lists_replace_what_was_known(
    b: &mut Bridge,
    players: Option<Vec<(String, Player)>>,
    raw: String,
    ts_ms: u64,
    before: Vec<(String, Player)>,
    after: Vec<(String, Player)>,
    seen: u64,
    events: Vec<EventEnvelope>,
)
    requires
        old(b).wf(),
        call_ensures(Bridge::existing_clients, (b, players, raw, ts_ms), ()),
        call_ensures(Bridge::clients, (&*old(b),), before),
        call_ensures(Bridge::clients, (&*final(b),), after),
        seen < old(b)@.next_event_id,
        call_ensures(Bridge::get_events, (&*final(b), Some(seen), Some(2000usize)), events),
    ensures
        one_more_event(old(b)@, final(b)@, ts_ms),
        once_each(after@),
        final(b)@.last_chat == old(b)@.last_chat,
        events@.len() > 0 && events@.last().id == final(b)@.events.last().id && events@.last().ts_ms
            == ts_ms,
        players matches Some(list) ==> {
            &&& forall|i: int|
                #![trigger list@[i]]
                0 <= i < list@.len() && (forall|j: int|
                    i < j < list@.len() ==> (#[trigger] list@[j]).0@ != list@[i].0@) ==> lists(
                    after@,
                    list@[i].0@,
                    list@[i].1,
                )
            &&& forall|k: int|
                0 <= k < after@.len() ==> exists|i: int|
                    0 <= i < list@.len() && (#[trigger] list@[i]).0@ == (#[trigger] after@[k]).0@
            &&& events@.last().event matches BridgeEvent::ExistingClients(told) && told@.len()
                == list@.len() && forall|i: int|
                0 <= i < list@.len() ==> (#[trigger] told@[i]).0@ == list@[i].0@ && same_player(
                    told@[i].1,
                    list@[i].1,
                )
        },
        players is None ==> all_alike(before@, after@) && (
        events@.last().event matches BridgeEvent::Raw { event, data } && event@
            == "existing clients"@ && data@ == raw@),
{
    old(b).memory_is_bounded();
    lemma_lists(before@);
    lemma_lists(after@);
    lemma_last_page(final(b), seen, events);
    if let Some(list) = players {
        let v = list@;
        lemma_dom(v);
        lemma_dom(after@);
        assert forall|i: int|
            #![trigger v[i]]
            0 <= i < v.len() && (forall|j: int|
                i < j < v.len() ==> (#[trigger] v[j]).0@ != v[i].0@) implies lists(
            after@,
            v[i].0@,
            v[i].1,
        ) by {
            lemma_latest(v, i);
        }
        assert forall|k: int| 0 <= k < after@.len() implies exists|i: int|
            0 <= i < v.len() && (#[trigger] v[i]).0@ == (#[trigger] after@[k]).0@ by {
            assert(world::players_in(v).contains_key(after@[k].0@));
        }
        let said = bridge::entry_views(v);
        if let BridgeEvent::ExistingClients(told) = events@.last().event {
            let heard = bridge::entry_views(told@);
            assert(heard == said);
            assert(heard.len() == told@.len() && said.len() == v.len());
            assert forall|i: int| 0 <= i < v.len() implies (#[trigger] told@[i]).0@ == v[i].0@
                && same_player(told@[i].1, v[i].1) by {
                assert(heard[i] == (told@[i].0@, told@[i].1@));
                assert(said[i] == (v[i].0@, v[i].1@));
            }
        }
    }
}

/// The last entry under an id is the one that counts.
proof fn lemma_latest(v: Seq<(String, Player)>, i: int)
    requires
        0 <= i < v.len(),
        forall|j: int| i < j < v.len() ==> (#[trigger] v[j]).0@ != v[i].0@,
    ensures
        world::players_in(v).contains_key(v[i].0@),
        world::players_in(v)[v[i].0@] == v[i].1@,
    decreases v.len(),
{
    if i < v.len() - 1 {
        let front = v.drop_last();
        assert(v[v.len() - 1].0@ != v[i].0@);
        assert(front[i] == v[i]);
        assert forall|j: int| i < j < front.len() implies (#[trigger] front[j]).0@
            != front[i].0@ by {
            assert(front[j] == v[j]);
        }
        lemma_latest(front, i);
    }
}

// ------------------------------------------------------------------------- chat

/// Whether a list of lines is another with one more at the end, without the oldest
/// beyond 200.
pub open spec fn one_more_line(
    before: Seq<ChatLine>,
    after: Seq<ChatLine>,
    from_id: Seq<char>,
    nickname: Seq<char>,
    message: Seq<char>,
) -> bool {
    let dropped = if before.len() < 200 {
        0int
    } else {
        before.len() - 199
    };
    &&& after.len() == before.len() - dropped + 1
    &&& after.last().from_id@ == from_id
    &&& after.last().nickname@ == nickname
    &&& after.last().message@ == message
    &&& forall|i: int|
        0 <= i < after.len() - 1 ==> (#[trigger] after[i]).from_id@ == before[i + dropped].from_id@
            && after[i].nickname@ == before[i + dropped].nickname@ && after[i].message@ == before[i
            + dropped].message@
}

/// A line with words is the newest of those kept, with its author and name, after
/// those kept before; the newest event tells of it. A line without words is kept as
/// it came. Either way no client changes.
pub proof fn lines_are_kept_as_they_were_said(
    b: &mut Bridge,
    doc: &Json,
    raw: String,
    ts_ms: u64,
    id: String,
    nickname: String,
    message: String,
    before: Vec<ChatLine>,
    after: Vec<ChatLine>,
    seen: u64,
    events: Vec<EventEnvelope>,
)
    requires
        old(b).wf(),
        call_ensures(Json::text_field_or_empty, (doc, "id"), id),
        call_ensures(Json::text_field_or_empty, (doc, "nickname"), nickname),
        call_ensures(Json::text_field_or_empty, (doc, "message"), message),
        call_ensures(Bridge::heard, (b, doc, raw, ts_ms), ()),
        call_ensures(Bridge::last_chat, (&*old(b),), before),
        call_ensures(Bridge::last_chat, (&*final(b),), after),
        seen < old(b)@.next_event_id,
        call_ensures(Bridge::get_events, (&*final(b), Some(seen), Some(2000usize)), events),
    ensures
        one_more_event(old(b)@, final(b)@, ts_ms),
        final(b)@.clients == old(b)@.clients,
        events@.len() > 0 && events@.last().id == final(b)@.events.last().id && events@.last().ts_ms
            == ts_ms,
        message@.len() > 0 ==> one_more_line(before@, after@, id@, nickname@, message@) && (
        events@.last().event matches BridgeEvent::ChatMessage(line) && line.from_id@ == id@
            && line.nickname@ == nickname@ && line.message@ == message@),
        message@.len() == 0 ==> final(b)@.last_chat == old(b)@.last_chat && (
        events@.last().event matches BridgeEvent::Raw { event, data } && event@ == "chat message"@
            && data@ == raw@),
{
    old(b).memory_is_bounded();
    lemma_last_page(final(b), seen, events);
    if message@.len() > 0 {
        let was = world::line_views(before@);
        let now = world::line_views(after@);
        let dropped = if before@.len() < 200 {
            0int
        } else {
            before@.len() - 199
        };
        assert(was.len() == before@.len() && now.len() == after@.len());
        assert(now.last() == after@.last()@);
        assert forall|i: int| 0 <= i < after@.len() - 1 implies (#[trigger] after@[i]).from_id@
            == before@[i + dropped].from_id@ && after@[i].nickname@ == before@[i
            + dropped].nickname@ && after@[i].message@ == before@[i + dropped].message@ by {
            assert(now[i] == after@[i]@);
            assert(was[i + dropped] == before@[i + dropped]@);
        }
    }
}

// ----------------------------------------------------------------------- events

/// What happened is the newest event, under the next number and with its time; the
/// events before it stay, the newest 1999 of them. No client and no line changes.
pub proof fn what_happened_is_kept(b: &mut Bridge, event: BridgeEvent, ts_ms: u64)
    requires
        old(b).wf(),
        call_ensures(Bridge::push_event, (b, event, ts_ms), ()),
    ensures
        one_more_event(old(b)@, final(b)@, ts_ms),
        final(b)@.events.last().event == event@,
        final(b)@.clients == old(b)@.clients,
        final(b)@.last_chat == old(b)@.last_chat,
{
    old(b).memory_is_bounded();
}

/// A bridge knows nobody and has heard nothing at first; its first event is number
/// one.
pub proof fn bridges_start_empty(
    b: Bridge,
    clients: Vec<(String, Player)>,
    lines: Vec<ChatLine>,
    asked: Option<u64>,
    limit: Option<usize>,
    events: Vec<EventEnvelope>,
)
    requires
        call_ensures(Bridge::new, (), b),
        call_ensures(Bridge::clients, (&b,), clients),
        call_ensures(Bridge::last_chat, (&b,), lines),
        call_ensures(Bridge::get_events, (&b, asked, limit), events),
    ensures
        clients@.len() == 0,
        lines@.len() == 0,
        events@.len() == 0,
        b@.next_event_id == 1,
{
    assert(b@.clients.dom() =~= Set::<Seq<char>>::empty());
    assert(world::line_views(lines@).len() == lines@.len());
    assert(bridge::envelope_views(events@).len() == events@.len());
    reveal(Seq::filter);
}

/// How many events are given: as many as asked for, 200 if nothing was said, at
/// least one, at most 2000.
pub open spec fn asked_for(limit: Option<usize>) -> int {
    match limit {
        None => 200,
        Some(n) => if n == 0 {
            1
        } else if n > 2000 {
            2000
        } else {
            n as int
        },
    }
}

proof fn lemma_filter_grows(events: Seq<EnvelopeView>, after: u64)
    requires
        forall|i: int, j: int|
            0 <= i < j < events.len() ==> (#[trigger] events[i]).id < (#[trigger] events[j]).id,
    ensures
        ({
            let later = events.filter(|e: EnvelopeView| e.id > after);
            forall|i: int, j: int|
                0 <= i < j < later.len() ==> (#[trigger] later[i]).id < (#[trigger] later[j]).id
        }),
    decreases events.len(),
{
    reveal(Seq::filter);
    let keep = |e: EnvelopeView| e.id > after;
    if events.len() > 0 {
        let front = events.drop_last();
        lemma_filter_grows(front, after);
        let before = front.filter(keep);
        let later = events.filter(keep);
        assert forall|i: int, j: int| 0 <= i < j < later.len() implies (#[trigger] later[i]).id < (
        #[trigger] later[j]).id by {
            if j < before.len() {
                assert(before[i].id < before[j].id);
            } else {
                assert(later[i] == before[i]);
                front.lemma_filter_contains_rev(keep, before[i]);
                let k = choose|k: int| 0 <= k < front.len() && front[k] == before[i];
                assert(events[k] == front[k]);
                assert(events[k].id < events[events.len() - 1].id);
            }
        }
    }
}

/// The events given are the first of those numbered above the one asked after,
/// oldest first, as many as asked for: an event is among them exactly if it is
/// kept, comes after the one asked after, and there was room for it. (Numbers that
/// have run out are left aside.)
pub proof fn events_are_given_in_order(
    b: &Bridge,
    after: Option<u64>,
    limit: Option<usize>,
    r: Vec<EventEnvelope>,
    e: EnvelopeView,
)
    requires
        b.wf(),
        b@.next_event_id < u64::MAX,
        call_ensures(Bridge::get_events, (b, after, limit), r),
    ensures
        r@.len() <= asked_for(limit),
        forall|i: int, j: int|
            0 <= i < j < r@.len() ==> (#[trigger] r@[i]).id < (#[trigger] r@[j]).id,
        bridge::envelope_views(r@).contains(e) <==> b@.events.contains(e) && (
        after matches Some(n) ==> e.id > n) && (after is None ==> e.id > 0) && (r@.len()
            == asked_for(limit) ==> e.id <= r@.last().id),
{
    let n: u64 = match after {
        Some(n) => n,
        None => 0,
    };
    let events = b@.events;
    let keep = |e: EnvelopeView| e.id > n;
    let later = events.filter(keep);
    let shown = bridge::envelope_views(r@);
    b.events_stay_in_sequence();
    assert forall|i: int, j: int| 0 <= i < j < events.len() implies (#[trigger] events[i]).id < (
    #[trigger] events[j]).id by {
        assert(events[j].id < b@.next_event_id);
    }
    lemma_filter_grows(events, n);
    assert(shown.len() == r@.len());
    assert forall|i: int| 0 <= i < r@.len() implies shown[i] == (#[trigger] r@[i])@ && later[i]
        == shown[i] by {}
    assert forall|i: int, j: int| 0 <= i < j < r@.len() implies (#[trigger] r@[i]).id < (
    #[trigger] r@[j]).id by {
        assert(later[i].id < later[j].id);
    }
    if shown.contains(e) {
        let i = choose|i: int| 0 <= i < shown.len() && shown[i] == e;
        events.lemma_filter_pred(keep, i);
        events.lemma_filter_contains_rev(keep, e);
        assert(r@[i]@ == e);
        if i < r@.len() - 1 {
            assert(r@[i].id < r@[r@.len() - 1].id);
        }
    }
    if events.contains(e) && e.id > n && (r@.len() == asked_for(limit) ==> e.id <= r@.last().id) {
        let k = choose|k: int| 0 <= k < events.len() && events[k] == e;
        events.lemma_filter_contains(keep, k);
        let i = choose|i: int| 0 <= i < later.len() && later[i] == e;
        if i < shown.len() {
            assert(shown[i] == e);
        } else {
            assert(later[shown.len() - 1].id < later[i].id);
            assert(r@[r@.len() - 1]@ == later[shown.len() - 1]);
        }
    }
}

/// Copies of events and of what they hold say the same.
pub proof fn copies_of_events_say_the_same(
    event: &BridgeEvent,
    copy: BridgeEvent,
    p: &Player,
    q: Player,
    again: Player,
    line: &ChatLine,
    other: ChatLine,
    info: &AgentInfo,
    same: AgentInfo,
)
    requires
        call_ensures(AgentInfo::duplicate, (info,), same),
        call_ensures(BridgeEvent::duplicate, (event,), copy),
        call_ensures(bridge::copy_player, (p,), q),
        call_ensures(Player::duplicate, (p,), again),
        call_ensures(ChatLine::duplicate, (line,), other),
    ensures
        same_player(q, *p),
        same_player(again, *p),
        same_agent(same, *info),
        other.from_id@ == line.from_id@ && other.nickname@ == line.nickname@ && other.message@
            == line.message@,
        match *event {
            BridgeEvent::ExistingClients(list) => copy matches BridgeEvent::ExistingClients(same)
                && same@.len() == list@.len() && forall|i: int|
                0 <= i < list@.len() ==> (#[trigger] same@[i]).0@ == list@[i].0@ && same_player(
                    same@[i].1,
                    list@[i].1,
                ),
            BridgeEvent::NewUser { id, user_data } => copy matches BridgeEvent::NewUser {
                id: who,
                user_data: shown,
            } && who@ == id@ && same_player(shown, user_data),
            BridgeEvent::Delete(id) => copy matches BridgeEvent::Delete(who) && who@ == id@,
            BridgeEvent::Move { id, player } => copy matches BridgeEvent::Move {
                id: who,
                player: shown,
            } && who@ == id@ && same_player(shown, player),
            BridgeEvent::ChatMessage(said) => copy matches BridgeEvent::ChatMessage(told)
                && told.from_id@ == said.from_id@ && told.nickname@ == said.nickname@
                && told.message@ == said.message@,
            BridgeEvent::Raw { event, data } => copy matches BridgeEvent::Raw {
                event: name,
                data: text,
            } && name@ == event@ && text@ == data@,
        },
{
    if let BridgeEvent::ExistingClients(list) = *event {
        if let BridgeEvent::ExistingClients(same) = copy {
            let a = bridge::entry_views(list@);
            let b = bridge::entry_views(same@);
            assert(a == b);
            assert(a.len() == list@.len() && b.len() == same@.len());
            assert forall|i: int| 0 <= i < list@.len() implies (#[trigger] same@[i]).0@
                == list@[i].0@ && same_player(same@[i].1, list@[i].1) by {
                assert(a[i] == (list@[i].0@, list@[i].1@));
                assert(b[i] == (same@[i].0@, same@[i].1@));
            }
        }
    }
}

// ----------------------------------------------------------------------- agents

/// Whether two agents are known alike.
pub open spec fn same_agent(a: AgentInfo, b: AgentInfo) -> bool {
    &&& a.agent_id == b.agent_id
    &&& a.nickname@ == b.nickname@
    &&& a.avatar@ == b.avatar@
    &&& a.created_ts_ms == b.created_ts_ms
}

/// Whether a list has an agent.
pub open spec fn holds(list: Seq<AgentInfo>, a: AgentInfo) -> bool {
    exists|i: int| 0 <= i < list.len() && same_agent(#[trigger] list[i], a)
}

proof fn lemma_has(list: Seq<AgentInfo>, a: AgentInfo)
    ensures
        holds(list, a) <==> bridge::agent_views(list).contains(a@),
{
    let views = bridge::agent_views(list);
    if holds(list, a) {
        let i = choose|i: int| 0 <= i < list.len() && same_agent(#[trigger] list[i], a);
        assert(views[i] == a@);
    }
    if views.contains(a@) {
        let i = choose|i: int| 0 <= i < views.len() && views[i] == a@;
        assert(same_agent(list[i], a));
    }
}

proof fn lemma_has_id(list: Seq<AgentInfo>, id: u64)
    ensures
        bridge::has_agent(bridge::agent_views(list), id) <==> exists|i: int|
            0 <= i < list.len() && (#[trigger] list[i]).agent_id == id,
{
    let views = bridge::agent_views(list);
    if bridge::has_agent(views, id) {
        let i = choose|i: int| 0 <= i < views.len() && (#[trigger] views[i]).agent_id == id;
        assert(list[i].agent_id == id);
    }
    if exists|i: int| 0 <= i < list.len() && (#[trigger] list[i]).agent_id == id {
        let i = choose|i: int| 0 <= i < list.len() && (#[trigger] list[i]).agent_id == id;
        assert(views[i].agent_id == id);
    }
}

/// An agent with a name gets the next number, from one upwards, and the name
/// without the white space around it; one without a name is refused.
pub proof fn agents_are_numbered_from_one(
    fresh: Agents,
    none: Vec<AgentInfo>,
    a: &mut Agents,
    nickname: &str,
    r: Result<(u64, String), Refused>,
)
    requires
        call_ensures(Agents::new, (), fresh),
        call_ensures(Agents::list, (&fresh,), none),
        call_ensures(Agents::enroll, (a, nickname), r),
    ensures
        none@.len() == 0,
        fresh.next_id() == 1,
        final(a).list_view() == old(a).list_view(),
        r matches Ok(enrolled) ==> enrolled.0 == old(a).next_id() && texts::is_core(
            nickname@,
            enrolled.1@,
        ) && enrolled.1@.len() > 0 && (old(a).next_id() < u64::MAX ==> final(a).next_id()
            == old(a).next_id() + 1),
        r matches Err(refused) ==> texts::is_core(nickname@, Seq::<char>::empty()) && refused.0
            == 400 && refused.1@ == "nickname is empty"@ && final(a).next_id()
            == old(a).next_id(),
{
    texts::lemma_trimmed_is_core(nickname@);
    assert(bridge::agent_views(none@).len() == none@.len());
    if r is Err {
        assert(text::trimmed(nickname@) =~= Seq::<char>::empty());
    }
}

/// Whoever is taken in is listed as it is, in place of one of the same number;
/// everyone else is listed as before, and the numbers grow along the list.
pub proof fn agents_are_listed_as_they_are(
    a: &mut Agents,
    info: AgentInfo,
    before: Vec<AgentInfo>,
    after: Vec<AgentInfo>,
    other: AgentInfo,
)
    requires
        old(a).wf(),
        call_ensures(Agents::register, (a, info), ()),
        call_ensures(Agents::list, (&*old(a),), before),
        call_ensures(Agents::list, (&*final(a),), after),
    ensures
        holds(after@, info),
        other.agent_id == info.agent_id ==> (holds(after@, other) <==> same_agent(other, info)),
        other.agent_id != info.agent_id ==> (holds(after@, other) <==> holds(before@, other)),
        forall|i: int, j: int|
            0 <= i < j < after@.len() ==> (#[trigger] after@[i]).agent_id < (
            #[trigger] after@[j]).agent_id,
        final(a).next_id() == old(a).next_id(),
{
    lemma_has(before@, other);
    lemma_has(after@, other);
    lemma_has(after@, info);
    let views = bridge::agent_views(after@);
    assert(final(a).list_view().contains(info@));
    assert(final(a).list_view().contains(other@) <==> (other@ == info@ || (
    old(a).list_view().contains(other@) && other.agent_id != info.agent_id)));
    assert(same_agent(other, info) <==> other@ == info@);
    assert forall|i: int, j: int| 0 <= i < j < after@.len() implies (#[trigger] after@[i]).agent_id
        < (#[trigger] after@[j]).agent_id by {
        assert(views[i].agent_id < views[j].agent_id);
    }
}

/// An agent is found under its number exactly if it is listed. Taking it out gives
/// it back and leaves everyone else; of a number that nobody has, nothing changes.
pub proof fn agents_are_found_and_taken_out(
    a: &mut Agents,
    id: u64,
    found: Result<AgentInfo, Refused>,
    taken: Result<AgentInfo, Refused>,
    before: Vec<AgentInfo>,
    after: Vec<AgentInfo>,
    other: AgentInfo,
)
    requires
        old(a).wf(),
        call_ensures(Agents::get, (&*old(a), id), found),
        call_ensures(Agents::remove, (a, id), taken),
        call_ensures(Agents::list, (&*old(a),), before),
        call_ensures(Agents::list, (&*final(a),), after),
    ensures
        found is Ok <==> exists|i: int|
            0 <= i < before@.len() && (#[trigger] before@[i]).agent_id == id,
        taken is Ok <==> found is Ok,
        found matches Ok(info) ==> info.agent_id == id && holds(before@, info),
        taken matches Ok(info) ==> info.agent_id == id && holds(before@, info),
        other.agent_id != id ==> (holds(after@, other) <==> holds(before@, other)),
        other.agent_id == id ==> !holds(after@, other),
        found matches Err(refused) ==> refused.0 == 404 && refused.1@ == "agent not found"@,
        taken matches Err(refused) ==> refused.0 == 404 && refused.1@ == "agent not found"@,
        final(a).next_id() == old(a).next_id(),
{
    lemma_has_id(before@, id);
    lemma_has_id(after@, id);
    lemma_has(before@, other);
    lemma_has(after@, other);
    let was = old(a).list_view();
    let now = final(a).list_view();
    if let Ok(info) = found {
        lemma_has(before@, info);
        let i = choose|i: int| 0 <= i < was.len() && was[i] == info@;
        assert(was[i].agent_id == id);
    }
    if let Ok(info) = taken {
        lemma_has(before@, info);
        let i = choose|i: int| 0 <= i < was.len() && was[i] == info@;
        assert(was[i].agent_id == id);
        assert(now.contains(other@) <==> (was.contains(other@) && other.agent_id != id));
    }
    if taken is Err && was.contains(other@) {
        let i = choose|i: int| 0 <= i < was.len() && was[i] == other@;
        assert(was[i].agent_id == other.agent_id);
    }
}

/// A command to chat, to be called something or to send an event says its words
/// without the white space around them; one without words is refused.
pub proof fn commands_need_words(
    s: &str,
    chat: Result<String, Refused>,
    name: Result<String, Refused>,
    event: Result<String, Refused>,
)
    requires
        call_ensures(bridge::chat_command, (s,), chat),
        call_ensures(bridge::user_data_command, (s,), name),
        call_ensures(bridge::emit_command, (s,), event),
    ensures
        ({
            let empty = texts::is_core(s@, Seq::<char>::empty());
            &&& chat is Err <==> empty
            &&& name is Err <==> empty
            &&& event is Err <==> empty
        }),
        chat matches Ok(t) ==> texts::is_core(s@, t@),
        name matches Ok(t) ==> texts::is_core(s@, t@),
        event matches Ok(t) ==> texts::is_core(s@, t@),
        chat matches Err(refused) ==> refused.0 == 400 && refused.1@ == "message is empty"@,
        name matches Err(refused) ==> refused.0 == 400 && refused.1@ == "nickname is empty"@,
        event matches Err(refused) ==> refused.0 == 400 && refused.1@ == "event is empty"@,
{
    texts::lemma_trimmed_is_core(s@);
    if text::trimmed(s@).len() == 0 {
        assert(text::trimmed(s@) =~= Seq::<char>::empty());
    }
    if texts::is_core(s@, Seq::<char>::empty()) {
        texts::lemma_one_core(s@, Seq::<char>::empty(), text::trimmed(s@));
    }
}

/// A command to move turns as it says, or to zero.
pub proof fn moves_turn_as_they_say(rotation: Option<Scalar>, r: Scalar)
    requires
        call_ensures(bridge::move_command, (rotation,), r),
    ensures
        rotation matches Some(s) ==> r == s,
        rotation is None ==> r.bits == 0,
{
}

} // verus!
