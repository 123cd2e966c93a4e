//! The bridge: it watches the world through one socket and keeps what happened
//! for others to read, and it holds the agents that others drive.

use crate::agents::queue;
use crate::agents::world::{self, ChatLine, LineView, Player, PlayerView};
use crate::json::{self, Json};
use crate::realtime::validate;
use crate::scalar::Scalar;
use crate::text;
use crate::text_map::TextMap;
use std::collections::VecDeque;
use vstd::prelude::*;
use vstd::string::*;

verus! {

/// How many events are kept.
pub const MAX_EVENTS: usize = 2_000;

/// How many chat lines are kept.
pub const MAX_CHAT: usize = 200;

/// How many events are given at a time, unless told otherwise.
pub const DEFAULT_EVENTS: usize = 200;

// ---------------------------------------------------------------------- events

/// Something that happened.
#[derive(Debug)]
pub enum BridgeEvent {
    ExistingClients(Vec<(String, Player)>),
    NewUser { id: String, user_data: Player },
    Delete(String),
    /// A move; an avatar or a name may be missing from it.
    Move { id: String, player: Player },
    ChatMessage(ChatLine),
    /// Something else: its name, and its data as JSON text.
    Raw { event: String, data: String },
}

/// What an event says.
pub enum EventView {
    ExistingClients(Seq<(Seq<char>, PlayerView)>),
    NewUser(Seq<char>, PlayerView),
    Delete(Seq<char>),
    Move(Seq<char>, PlayerView),
    ChatMessage(LineView),
    Raw(Seq<char>, Seq<char>),
}

/// The entries of a list, by what they say.
pub open spec fn entry_views(v: Seq<(String, Player)>) -> Seq<(Seq<char>, PlayerView)> {
    v.map_values(|e: (String, Player)| (e.0@, e.1@))
}

impl View for BridgeEvent {
    type V = EventView;

    open spec fn view(&self) -> EventView {
        match self {
            BridgeEvent::ExistingClients(v) => EventView::ExistingClients(entry_views(v@)),
            BridgeEvent::NewUser { id, user_data } => EventView::NewUser(id@, user_data@),
            BridgeEvent::Delete(id) => EventView::Delete(id@),
            BridgeEvent::Move { id, player } => EventView::Move(id@, player@),
            BridgeEvent::ChatMessage(line) => EventView::ChatMessage(line@),
            BridgeEvent::Raw { event, data } => EventView::Raw(event@, data@),
        }
    }
}

/// The same player once more.
pub fn copy_player(p: &Player) -> (r: Player)
    ensures
        r@ == p@,
{
    Player {
        position: validate::copy_scalars(&p.position),
        rotation: p.rotation,
        avatar: p.avatar.clone(),
        nickname: p.nickname.clone(),
    }
}

/// The same entries once more.
pub fn copy_entries(v: &Vec<(String, Player)>) -> (r: Vec<(String, Player)>)
    ensures
        entry_views(r@) == entry_views(v@),
{
    let mut out: Vec<(String, Player)> = Vec::new();
    let ghost all = entry_views(v@);
    let mut i: usize = 0;
    while i < v.len()
        invariant
            i <= v.len(),
            all == entry_views(v@),
            entry_views(out@) == all.take(i as int),
        decreases v.len() - i,
    {
        let ghost before = out@;
        let entry = (v[i].0.clone(), copy_player(&v[i].1));
        out.push(entry);
        proof {
            assert(entry_views(out@) =~= entry_views(before).push((entry.0@, entry.1@)));
            assert(all.take(i + 1) =~= all.take(i as int).push(all[i as int]));
        }
        i = i + 1;
    }
    proof {
        assert(all.take(all.len() as int) =~= all);
    }
    out
}

impl BridgeEvent {
    /// The same event once more.
    pub fn duplicate(&self) -> (r: BridgeEvent)
        ensures
            r@ == self@,
    {
        match self {
            BridgeEvent::ExistingClients(v) => BridgeEvent::ExistingClients(copy_entries(v)),
            BridgeEvent::NewUser { id, user_data } => BridgeEvent::NewUser {
                id: id.clone(),
                user_data: copy_player(user_data),
            },
            BridgeEvent::Delete(id) => BridgeEvent::Delete(id.clone()),
            BridgeEvent::Move { id, player } => BridgeEvent::Move {
                id: id.clone(),
                player: copy_player(player),
            },
            BridgeEvent::ChatMessage(line) => BridgeEvent::ChatMessage(line.duplicate()),
            BridgeEvent::Raw { event, data } => BridgeEvent::Raw {
                event: event.clone(),
                data: data.clone(),
            },
        }
    }
}

/// An event with its number and time.
#[derive(Debug)]
pub struct EventEnvelope {
    pub id: u64,
    pub ts_ms: u64,
    pub event: BridgeEvent,
}

/// What an envelope says.
pub struct EnvelopeView {
    pub id: u64,
    pub ts_ms: u64,
    pub event: EventView,
}

impl View for EventEnvelope {
    type V = EnvelopeView;

    open spec fn view(&self) -> EnvelopeView {
        EnvelopeView { id: self.id, ts_ms: self.ts_ms, event: self.event@ }
    }
}

/// The envelopes of a list, by what they say.
pub open spec fn envelope_views(v: Seq<EventEnvelope>) -> Seq<EnvelopeView> {
    v.map_values(|e: EventEnvelope| e@)
}

// ------------------------------------------------------------------- the bridge

/// What the bridge has seen.
pub struct Bridge {
    clients: TextMap<Player>,
    last_chat: VecDeque<ChatLine>,
    events: VecDeque<EventEnvelope>,
    next_event_id: u64,
}

/// What is known to the bridge.
pub struct BridgeView {
    pub clients: Map<Seq<char>, PlayerView>,
    pub last_chat: Seq<LineView>,
    pub events: Seq<EnvelopeView>,
    pub next_event_id: u64,
}

impl View for Bridge {
    type V = BridgeView;

    closed spec fn view(&self) -> BridgeView {
        BridgeView {
            clients: self.clients@.map_values(|p: Player| p@),
            last_chat: world::line_views(self.last_chat@),
            events: envelope_views(self.events@),
            next_event_id: self.next_event_id,
        }
    }
}

/// The bridge after one more event; the last 2000 are kept.
pub open spec fn recorded(b: BridgeView, event: EventView, ts_ms: u64) -> BridgeView {
    BridgeView {
        events: queue::newest(
            b.events.push(EnvelopeView { id: b.next_event_id, ts_ms, event }),
            MAX_EVENTS as nat,
        ),
        next_event_id: world::counted(b.next_event_id),
        ..b
    }
}

/// The events are numbered upwards, below the next number. (Numbers run out at
/// `u64::MAX`, which then repeats.)
pub open spec fn in_sequence(events: Seq<EnvelopeView>, next: u64) -> bool {
    &&& forall|i: int|
        0 <= i < events.len() ==> (#[trigger] events[i]).id < next || next == u64::MAX
    &&& forall|i: int, j: int|
        0 <= i < j < events.len() ==> (#[trigger] events[i]).id < (#[trigger] events[j]).id
            || events[j].id == u64::MAX
}

/// A player of which nothing is known.
pub open spec fn unknown_player() -> PlayerView {
    PlayerView {
        position: Seq::empty(),
        rotation: Scalar { bits: 0 },
        avatar: Seq::empty(),
        nickname: Seq::empty(),
    }
}

/// A player after a move: an avatar or a name that the move lacks stays.
pub open spec fn after_move(before: PlayerView, m: PlayerView) -> PlayerView {
    PlayerView {
        position: m.position,
        rotation: m.rotation,
        avatar: if m.avatar.len() > 0 {
            m.avatar
        } else {
            before.avatar
        },
        nickname: if m.nickname.len() > 0 {
            m.nickname
        } else {
            before.nickname
        },
    }
}

/// The move in a document, given the position read from it.
pub open spec fn move_in(doc: Json, position: Option<Seq<Scalar>>) -> PlayerView {
    PlayerView {
        position: match position {
            Some(p) => p,
            None => Seq::empty(),
        },
        rotation: json::single_field_or(doc, "rotation"@, Scalar { bits: 0 }),
        avatar: json::text_field_or_empty(doc, "avatar"@),
        nickname: json::text_field_or_empty(doc, "nickname"@),
    }
}

/// The bridge after news of a client: who it is, if the news names anyone.
pub open spec fn seen_new_user(
    b: BridgeView,
    doc: Json,
    user_data: Option<PlayerView>,
    raw: Seq<char>,
    ts_ms: u64,
) -> BridgeView {
    let id = json::text_field_or_empty(doc, "id"@);
    let player = match user_data {
        Some(p) => p,
        None => unknown_player(),
    };
    if id.len() > 0 {
        recorded(
            BridgeView { clients: b.clients.insert(id, player), ..b },
            EventView::NewUser(id, player),
            ts_ms,
        )
    } else {
        recorded(b, EventView::Raw("new user"@, raw), ts_ms)
    }
}

/// The text that a document is, empty if it is none.
pub open spec fn text_or_none(doc: Json) -> Seq<char> {
    match json::text_of(doc) {
        Some(t) => t,
        None => Seq::empty(),
    }
}

/// The bridge after a client left, if the news names one.
pub open spec fn seen_delete(b: BridgeView, doc: Json, raw: Seq<char>, ts_ms: u64) -> BridgeView {
    let id = text_or_none(doc);
    if id.len() > 0 {
        recorded(
            BridgeView { clients: b.clients.remove(id), ..b },
            EventView::Delete(id),
            ts_ms,
        )
    } else {
        recorded(b, EventView::Raw("delete"@, raw), ts_ms)
    }
}

/// The bridge after a move, if the news names a client and three numbers.
pub open spec fn seen_move(
    b: BridgeView,
    doc: Json,
    position: Option<Seq<Scalar>>,
    raw: Seq<char>,
    ts_ms: u64,
) -> BridgeView {
    let id = json::text_field_or_empty(doc, "id"@);
    let m = move_in(doc, position);
    if id.len() > 0 && m.position.len() == 3 {
        let before = if b.clients.contains_key(id) {
            b.clients[id]
        } else {
            unknown_player()
        };
        recorded(
            BridgeView { clients: b.clients.insert(id, after_move(before, m)), ..b },
            EventView::Move(id, m),
            ts_ms,
        )
    } else {
        recorded(b, EventView::Raw("move"@, raw), ts_ms)
    }
}

/// The chat line in a document.
pub open spec fn chat_in(doc: Json) -> LineView {
    LineView {
        from_id: json::text_field_or_empty(doc, "id"@),
        nickname: json::text_field_or_empty(doc, "nickname"@),
        message: json::text_field_or_empty(doc, "message"@),
    }
}

/// The bridge after a chat line, if there are words in it; the last 200 are kept.
pub open spec fn seen_chat(b: BridgeView, doc: Json, raw: Seq<char>, ts_ms: u64) -> BridgeView {
    let line = chat_in(doc);
    if line.message.len() > 0 {
        recorded(
            BridgeView {
                last_chat: queue::newest(b.last_chat.push(line), MAX_CHAT as nat),
                ..b
            },
            EventView::ChatMessage(line),
            ts_ms,
        )
    } else {
        recorded(b, EventView::Raw("chat message"@, raw), ts_ms)
    }
}

/// The bridge after a list of all clients, if it could be read as one.
pub open spec fn seen_all(
    b: BridgeView,
    players: Option<Seq<(String, Player)>>,
    raw: Seq<char>,
    ts_ms: u64,
) -> BridgeView {
    match players {
        Some(v) => recorded(
            BridgeView { clients: world::players_in(v), ..b },
            EventView::ExistingClients(entry_views(v)),
            ts_ms,
        ),
        None => recorded(b, EventView::Raw("existing clients"@, raw), ts_ms),
    }
}

/// How many events a request is for: 200 unless told, at least 1, at most 2000.
pub open spec fn page_size(limit: Option<usize>) -> nat {
    match limit {
        Some(n) => if n < 1 {
            1
        } else if n > MAX_EVENTS {
            MAX_EVENTS as nat
        } else {
            n as nat
        },
        None => DEFAULT_EVENTS as nat,
    }
}

/// The first `max` events numbered above `after`.
pub open spec fn page(events: Seq<EnvelopeView>, after: u64, max: nat) -> Seq<EnvelopeView> {
    let later = events.filter(|e: EnvelopeView| e.id > after);
    if later.len() <= max {
        later
    } else {
        later.take(max as int)
    }
}

/// Dropping events from the front keeps the rest in sequence.
proof fn lemma_newest_in_sequence(events: Seq<EnvelopeView>, next: u64, max: nat)
    requires
        in_sequence(events, next),
    ensures
        in_sequence(queue::newest(events, max), next),
{
    let kept = queue::newest(events, max);
    let d = events.len() - kept.len();
    assert forall|i: int| 0 <= i < kept.len() implies (#[trigger] kept[i]).id < next || next
        == u64::MAX by {
        assert(kept[i] == events[i + d]);
    }
    assert forall|i: int, j: int| 0 <= i < j < kept.len() implies (#[trigger] kept[i]).id < (
    #[trigger] kept[j]).id || kept[j].id == u64::MAX by {
        assert(kept[i] == events[i + d]);
        assert(kept[j] == events[j + d]);
    }
}

impl Bridge {
    pub closed spec fn wf(&self) -> bool {
        &&& self.clients.wf()
        &&& in_sequence(self@.events, self.next_event_id)
        &&& self.last_chat@.len() <= MAX_CHAT
        &&& self.events@.len() <= MAX_EVENTS
    }

    /// The numbers of the events kept grow.
    pub proof fn events_stay_in_sequence(&self)
        requires
            self.wf(),
        ensures
            in_sequence(self@.events, self@.next_event_id),
    {
    }

    /// Whatever a bridge has seen, it keeps at most 200 chat lines and 2000 events.
    pub proof fn memory_is_bounded(&self)
        requires
            self.wf(),
        ensures
            self@.last_chat.len() <= MAX_CHAT,
            self@.events.len() <= MAX_EVENTS,
    {
    }

    /// A bridge that has seen nothing. Its first event will be number 1.
    pub fn new() -> (r: Bridge)
        ensures
            r.wf(),
            r@.clients == Map::<Seq<char>, PlayerView>::empty(),
            r@.last_chat == Seq::<LineView>::empty(),
            r@.events == Seq::<EnvelopeView>::empty(),
            r@.next_event_id == 1,
    {
        let r = Bridge {
            clients: TextMap::new(),
            last_chat: VecDeque::new(),
            events: VecDeque::new(),
            next_event_id: 1,
        };
        proof {
            assert(r@.clients =~= Map::<Seq<char>, PlayerView>::empty());
            assert(r@.last_chat =~= Seq::<LineView>::empty());
            assert(r@.events =~= Seq::<EnvelopeView>::empty());
        }
        r
    }

    /// Records that something happened.
    pub fn push_event(&mut self, event: BridgeEvent, ts_ms: u64)
        requires
            old(self).wf(),
        ensures
            final(self).wf(),
            final(self)@ == recorded(old(self)@, event@, ts_ms),
    {
        let id: u64 = self.next_event_id;
        let envelope = EventEnvelope { id, ts_ms, event };
        let ghost before = self.events@;
        self.next_event_id = id.saturating_add(1);
        queue::push_bounded(&mut self.events, envelope, MAX_EVENTS);
        proof {
            let pushed = envelope_views(before).push(envelope@);
            assert(envelope_views(before.push(envelope)) =~= pushed);
            assert(self@.events =~= queue::newest(pushed, MAX_EVENTS as nat));
            assert(in_sequence(pushed, self.next_event_id));
            lemma_newest_in_sequence(pushed, self.next_event_id, MAX_EVENTS as nat);
        }
    }

    /// Takes in a list of all clients; `None` if it could not be read as one.
    pub fn existing_clients(
        &mut self,
        players: Option<Vec<(String, Player)>>,
        raw: String,
        ts_ms: u64,
    )
        requires
            old(self).wf(),
        ensures
            final(self).wf(),
            final(self)@ == seen_all(
                old(self)@,
                match players {
                    Some(v) => Some(v@),
                    None => None,
                },
                raw@,
                ts_ms,
            ),
    {
        match players {
            Some(v) => {
                let mut map: TextMap<Player> = TextMap::new();
                let mut i: usize = 0;
                proof {
                    assert(map@.map_values(|p: Player| p@) =~= world::players_in(v@.take(0)));
                }
                while i < v.len()
                    invariant
                        i <= v.len(),
                        map.wf(),
                        map@.map_values(|p: Player| p@) == world::players_in(v@.take(i as int)),
                    decreases v.len() - i,
                {
                    let ghost before = map@;
                    let player = copy_player(&v[i].1);
                    proof {
                        assert(v@.take(i + 1).drop_last() =~= v@.take(i as int));
                    }
                    map.insert(v[i].0.clone(), player);
                    proof {
                        assert(map@.map_values(|p: Player| p@) =~= before.map_values(
                            |p: Player| p@,
                        ).insert(v@[i as int].0@, v@[i as int].1@));
                    }
                    i = i + 1;
                }
                proof {
                    assert(v@.take(v@.len() as int) =~= v@);
                }
                self.clients = map;
                self.push_event(BridgeEvent::ExistingClients(v), ts_ms);
            },
            None => {
                self.push_event(
                    BridgeEvent::Raw { event: "existing clients".to_owned(), data: raw },
                    ts_ms,
                );
            },
        }
    }

    /// Takes in news of a client. `user_data` is what could be read of it.
    pub fn new_user(&mut self, doc: &Json, user_data: Option<Player>, raw: String, ts_ms: u64)
        requires
            old(self).wf(),
        ensures
            final(self).wf(),
            final(self)@ == seen_new_user(
                old(self)@,
                *doc,
                match user_data {
                    Some(p) => Some(p@),
                    None => None,
                },
                raw@,
                ts_ms,
            ),
    {
        let id = doc.text_field_or_empty("id");
        let player = match user_data {
            Some(p) => p,
            None => nobody(),
        };
        if !id.as_str().is_empty() {
            self.put(id.clone(), copy_player(&player));
            self.push_event(BridgeEvent::NewUser { id, user_data: player }, ts_ms);
        } else {
            self.push_event(BridgeEvent::Raw { event: "new user".to_owned(), data: raw }, ts_ms);
        }
    }

    fn put(&mut self, id: String, player: Player)
        requires
            old(self).wf(),
        ensures
            final(self).wf(),
            final(self)@ == (BridgeView {
                clients: old(self)@.clients.insert(id@, player@),
                ..old(self)@
            }),
    {
        let ghost view = player@;
        self.clients.insert(id, player);
        proof {
            assert(self@.clients =~= old(self)@.clients.insert(id@, view));
        }
    }

    /// Takes in that a client left.
    pub fn delete(&mut self, doc: &Json, raw: String, ts_ms: u64)
        requires
            old(self).wf(),
        ensures
            final(self).wf(),
            final(self)@ == seen_delete(old(self)@, *doc, raw@, ts_ms),
    {
        let id: String = match doc.as_text() {
            Some(t) => t.clone(),
            None => String::new(),
        };
        proof {
            assert(id@ =~= text_or_none(*doc));
        }
        if !id.as_str().is_empty() {
            let _ = self.clients.remove(id.as_str());
            proof {
                assert(self@.clients =~= old(self)@.clients.remove(id@));
            }
            self.push_event(BridgeEvent::Delete(id), ts_ms);
        } else {
            self.push_event(BridgeEvent::Raw { event: "delete".to_owned(), data: raw }, ts_ms);
        }
    }

    /// Takes in a move. `position` is what could be read of it.
    pub fn moved(&mut self, doc: &Json, position: Option<Vec<Scalar>>, raw: String, ts_ms: u64)
        requires
            old(self).wf(),
        ensures
            final(self).wf(),
            final(self)@ == seen_move(
                old(self)@,
                *doc,
                match position {
                    Some(p) => Some(p@),
                    None => None,
                },
                raw@,
                ts_ms,
            ),
    {
        let id = doc.text_field_or_empty("id");
        let position = match position {
            Some(p) => p,
            None => Vec::new(),
        };
        let m = Player {
            position,
            rotation: doc.single_field_or("rotation", Scalar::new(0)),
            avatar: doc.text_field_or_empty("avatar"),
            nickname: doc.text_field_or_empty("nickname"),
        };
        if !id.as_str().is_empty() && m.position.len() == 3 {
            let before = match self.clients.get(id.as_str()) {
                Some(p) => {
                    proof {
                        assert(self@.clients.contains_key(id@));
                        assert(self@.clients[id@] == p@);
                    }
                    copy_player(p)
                },
                None => nobody(),
            };
            let after = Player {
                position: validate::copy_scalars(&m.position),
                rotation: m.rotation,
                avatar: if !m.avatar.as_str().is_empty() {
                    m.avatar.clone()
                } else {
                    before.avatar
                },
                nickname: if !m.nickname.as_str().is_empty() {
                    m.nickname.clone()
                } else {
                    before.nickname
                },
            };
            self.put(id.clone(), after);
            self.push_event(BridgeEvent::Move { id, player: m }, ts_ms);
        } else {
            self.push_event(BridgeEvent::Raw { event: "move".to_owned(), data: raw }, ts_ms);
        }
    }

    /// Takes in something said in chat.
    pub fn heard(&mut self, doc: &Json, raw: String, ts_ms: u64)
        requires
            old(self).wf(),
        ensures
            final(self).wf(),
            final(self)@ == seen_chat(old(self)@, *doc, raw@, ts_ms),
    {
        let line = ChatLine {
            from_id: doc.text_field_or_empty("id"),
            nickname: doc.text_field_or_empty("nickname"),
            message: doc.text_field_or_empty("message"),
        };
        if !line.message.as_str().is_empty() {
            let ghost before = self.last_chat@;
            let kept = line.duplicate();
            queue::push_bounded(&mut self.last_chat, kept, MAX_CHAT);
            proof {
                assert(world::line_views(before.push(kept)) =~= world::line_views(before).push(
                    line@,
                ));
                assert(self@.last_chat =~= queue::newest(
                    old(self)@.last_chat.push(line@),
                    MAX_CHAT as nat,
                ));
            }
            self.push_event(BridgeEvent::ChatMessage(line), ts_ms);
        } else {
            self.push_event(
                BridgeEvent::Raw { event: "chat message".to_owned(), data: raw },
                ts_ms,
            );
        }
    }

    /// The events after the one numbered `after`, oldest first, as many as were
    /// asked for.
    pub fn get_events(&self, after: Option<u64>, limit: Option<usize>) -> (r: Vec<EventEnvelope>)
        ensures
            envelope_views(r@) == page(
                self@.events,
                match after {
                    Some(n) => n,
                    None => 0,
                },
                page_size(limit),
            ),
    {
        let after: u64 = match after {
            Some(n) => n,
            None => 0,
        };
        let limit: usize = match limit {
            Some(n) => if n < 1 {
                1
            } else if n > MAX_EVENTS {
                MAX_EVENTS
            } else {
                n
            },
            None => DEFAULT_EVENTS,
        };
        let mut out: Vec<EventEnvelope> = Vec::new();
        let ghost all = self@.events;
        let ghost keep = |e: EnvelopeView| e.id > after;
        let mut i: usize = 0;
        proof {
            reveal(Seq::filter);
            assert(all.take(0) =~= Seq::<EnvelopeView>::empty());
            assert(envelope_views(out@) =~= all.take(0).filter(keep));
        }
        while i < self.events.len() && out.len() < limit
            invariant
                i <= self.events.len(),
                out.len() <= limit,
                all == envelope_views(self.events@),
                keep == (|e: EnvelopeView| e.id > after),
                envelope_views(out@) == all.take(i as int).filter(keep),
            decreases self.events.len() - i,
        {
            let ghost before = out@;
            proof {
                reveal(Seq::filter);
                assert(all.take(i + 1).drop_last() =~= all.take(i as int));
                assert(all.take(i + 1).last() == self.events@[i as int]@);
            }
            if self.events[i].id > after {
                let envelope = EventEnvelope {
                    id: self.events[i].id,
                    ts_ms: self.events[i].ts_ms,
                    event: self.events[i].event.duplicate(),
                };
                out.push(envelope);
                proof {
                    assert(envelope_views(out@) =~= envelope_views(before).push(envelope@));
                }
            }
            i = i + 1;
        }
        proof {
            lemma_filter_prefix(all, keep, i as int);
            if i == all.len() {
                assert(all.take(i as int) =~= all);
            }
            assert(envelope_views(out@) =~= page(all, after, limit as nat));
        }
        out
    }

    /// The clients that the bridge knows of.
    pub fn clients(&self) -> (r: Vec<(String, Player)>)
        requires
            self.wf(),
        ensures
            world::players_in(r@) == self@.clients,
            r@.len() == self@.clients.dom().len(),
    {
        let mut out: Vec<(String, Player)> = Vec::new();
        let n: usize = self.clients.len();
        let mut i: usize = 0;
        let ghost all = self@.clients;
        proof {
            assert(all.dom() =~= self.clients@.dom());
            assert(world::players_in(out@) == Map::<Seq<char>, PlayerView>::empty());
        }
        while i < n
            invariant
                self.wf(),
                i <= n == self.clients.count(),
                out@.len() == i,
                all == self@.clients,
                forall|id: Seq<char>| #[trigger]
                    world::players_in(out@).contains_key(id) <==> exists|j: int|
                        0 <= j < i && #[trigger] self.clients.key(j) == id,
                forall|id: Seq<char>| #[trigger]
                    world::players_in(out@).contains_key(id) ==> all.contains_key(id)
                        && world::players_in(out@)[id] == all[id],
            decreases n - i,
        {
            proof {
                self.clients.lemma_entries();
                assert(self.clients@.contains_key(self.clients.key(i as int)));
            }
            let ghost before = out@;
            let entry = (self.clients.key_at(i).clone(), copy_player(self.clients.value_at(i)));
            out.push(entry);
            proof {
                assert(out@.drop_last() =~= before);
                let seen = world::players_in(before);
                let now = world::players_in(out@);
                assert(now == seen.insert(entry.0@, entry.1@));
                assert(all[entry.0@] == entry.1@);
                assert forall|id: Seq<char>| #[trigger] now.contains_key(id) <==> exists|j: int|
                    0 <= j < i + 1 && #[trigger] self.clients.key(j) == id by {
                    if now.contains_key(id) {
                        if id == entry.0@ {
                            assert(self.clients.key(i as int) == id);
                        } else {
                            assert(seen.contains_key(id));
                            let j = choose|j: int|
                                0 <= j < i && #[trigger] self.clients.key(j) == id;
                            assert(self.clients.key(j) == id);
                        }
                    }
                    if exists|j: int| 0 <= j < i + 1 && #[trigger] self.clients.key(j) == id {
                        let j = choose|j: int|
                            0 <= j < i + 1 && #[trigger] self.clients.key(j) == id;
                        if j < i {
                            assert(seen.contains_key(id));
                        }
                    }
                }
            }
            i = i + 1;
        }
        proof {
            self.clients.lemma_entries();
            let got = world::players_in(out@);
            assert forall|id: Seq<char>| #[trigger] got.contains_key(id) == all.contains_key(
                id,
            ) by {
                if all.contains_key(id) {
                    assert(self.clients@.contains_key(id));
                    let j = choose|j: int|
                        0 <= j < self.clients.count() && #[trigger] self.clients.key(j) == id;
                    assert(self.clients.key(j) == id);
                }
            }
            assert(got =~= all);
        }
        out
    }

    /// The chat lines kept, oldest first.
    pub fn last_chat(&self) -> (r: Vec<ChatLine>)
        ensures
            world::line_views(r@) == self@.last_chat,
    {
        let mut out: Vec<ChatLine> = Vec::new();
        let ghost all = self@.last_chat;
        let mut i: usize = 0;
        while i < self.last_chat.len()
            invariant
                i <= self.last_chat.len(),
                all == world::line_views(self.last_chat@),
                world::line_views(out@) == all.take(i as int),
            decreases self.last_chat.len() - i,
        {
            let ghost before = out@;
            let line = self.last_chat[i].duplicate();
            out.push(line);
            proof {
                assert(world::line_views(out@) =~= world::line_views(before).push(line@));
                assert(all.take(i + 1) =~= all.take(i as int).push(all[i as int]));
            }
            i = i + 1;
        }
        proof {
            assert(all.take(all.len() as int) =~= all);
        }
        out
    }
}

/// A player of which nothing is known.
fn nobody() -> (r: Player)
    ensures
        r@ == unknown_player(),
{
    let r = Player {
        position: Vec::new(),
        rotation: Scalar::new(0),
        avatar: String::new(),
        nickname: String::new(),
    };
    proof {
        assert(r.position@ =~= Seq::<Scalar>::empty());
        assert(r.avatar@ =~= Seq::<char>::empty());
        assert(r.nickname@ =~= Seq::<char>::empty());
    }
    r
}

/// What a filter keeps of the front comes first in what it keeps of all.
proof fn lemma_filter_prefix(all: Seq<EnvelopeView>, keep: spec_fn(EnvelopeView) -> bool, i: int)
    requires
        0 <= i <= all.len(),
    ensures
        all.take(i).filter(keep).len() <= all.filter(keep).len(),
        all.filter(keep).take(all.take(i).filter(keep).len() as int) == all.take(i).filter(keep),
    decreases all.len(),
{
    reveal(Seq::filter);
    if i < all.len() {
        let front = all.drop_last();
        lemma_filter_prefix(front, keep, i);
        assert(front.take(i) =~= all.take(i));
        let n = all.take(i).filter(keep).len() as int;
        assert(all.filter(keep).take(n) =~= front.filter(keep).take(n));
    } else {
        assert(all.take(i) =~= all);
        assert(all.filter(keep).take(all.filter(keep).len() as int) =~= all.filter(keep));
    }
}

// ----------------------------------------------------------------------- agents

/// An agent that is driven through the bridge.
#[derive(Debug)]
pub struct AgentInfo {
    pub agent_id: u64,
    pub nickname: String,
    pub avatar: String,
    pub created_ts_ms: u64,
}

/// What is known of an agent.
pub struct AgentView {
    pub agent_id: u64,
    pub nickname: Seq<char>,
    pub avatar: Seq<char>,
    pub created_ts_ms: u64,
}

impl View for AgentInfo {
    type V = AgentView;

    open spec fn view(&self) -> AgentView {
        AgentView {
            agent_id: self.agent_id,
            nickname: self.nickname@,
            avatar: self.avatar@,
            created_ts_ms: self.created_ts_ms,
        }
    }
}

impl AgentInfo {
    /// The same once more.
    pub fn duplicate(&self) -> (r: AgentInfo)
        ensures
            r@ == self@,
    {
        AgentInfo {
            agent_id: self.agent_id,
            nickname: self.nickname.clone(),
            avatar: self.avatar.clone(),
            created_ts_ms: self.created_ts_ms,
        }
    }
}

/// The agents, and the next id.
pub struct Agents {
    infos: Vec<AgentInfo>,
    next_agent_id: u64,
}

/// The agents of a list, by what is known of them.
pub open spec fn agent_views(v: Seq<AgentInfo>) -> Seq<AgentView> {
    v.map_values(|a: AgentInfo| a@)
}

/// Whether the ids of a list grow.
pub open spec fn ids_grow(v: Seq<AgentView>) -> bool {
    forall|i: int, j: int|
        0 <= i < j < v.len() ==> (#[trigger] v[i]).agent_id < (#[trigger] v[j]).agent_id
}

/// Whether a list has an agent of the given id.
pub open spec fn has_agent(v: Seq<AgentView>, id: u64) -> bool {
    exists|i: int| 0 <= i < v.len() && (#[trigger] v[i]).agent_id == id
}

/// A refused command: its status and why.
pub type Refused = (u16, String);

impl Agents {
    /// The agents, by their ids.
    pub closed spec fn list_view(&self) -> Seq<AgentView> {
        agent_views(self.infos@)
    }

    /// The id of the next agent.
    pub closed spec fn next_id(&self) -> u64 {
        self.next_agent_id
    }

    pub closed spec fn wf(&self) -> bool {
        ids_grow(self.list_view())
    }

    /// No agents. The first one will be number 1.
    pub fn new() -> (r: Agents)
        ensures
            r.wf(),
            r.list_view() == Seq::<AgentView>::empty(),
            r.next_id() == 1,
    {
        let r = Agents { infos: Vec::new(), next_agent_id: 1 };
        proof {
            assert(r.list_view() =~= Seq::<AgentView>::empty());
        }
        r
    }

    /// Gives an id to an agent that is about to connect, and its name without
    /// the white space around it. One without a name is refused.
    pub fn enroll(&mut self, nickname: &str) -> (r: Result<(u64, String), Refused>)
        requires
            old(self).wf(),
        ensures
            final(self).wf(),
            final(self).list_view() == old(self).list_view(),
            if text::trimmed(nickname@).len() == 0 {
                r matches Err(refused) && refused.0 == 400 && refused.1@ == "nickname is empty"@
                    && final(self).next_id() == old(self).next_id()
            } else {
                r matches Ok(enrolled) && enrolled.0 == old(self).next_id() && enrolled.1@
                    == text::trimmed(nickname@) && final(self).next_id() == world::counted(
                    old(self).next_id(),
                )
            },
    {
        let nickname = text::trim(nickname);
        if nickname.as_str().is_empty() {
            return Err((400, "nickname is empty".to_owned()));
        }
        let id: u64 = self.next_agent_id;
        self.next_agent_id = id.saturating_add(1);
        Ok((id, nickname))
    }

    /// The place of an agent in the list, or where it would stand.
    fn find(&self, id: u64) -> (r: Result<usize, usize>)
        requires
            self.wf(),
        ensures
            match r {
                Ok(i) => i < self.infos.len() && self.infos@[i as int].agent_id == id,
                Err(i) => {
                    &&& i <= self.infos.len()
                    &&& forall|k: int| 0 <= k < i ==> (#[trigger] self.infos@[k]).agent_id < id
                    &&& forall|k: int|
                        i <= k < self.infos.len() ==> (#[trigger] self.infos@[k]).agent_id > id
                },
            },
    {
        let mut i: usize = 0;
        while i < self.infos.len() && self.infos[i].agent_id < id
            invariant
                i <= self.infos.len(),
                forall|k: int| 0 <= k < i ==> (#[trigger] self.infos@[k]).agent_id < id,
            decreases self.infos.len() - i,
        {
            i = i + 1;
        }
        if i < self.infos.len() && self.infos[i].agent_id == id {
            Ok(i)
        } else {
            proof {
                assert forall|k: int| i <= k < self.infos.len() implies (
                #[trigger] self.infos@[k]).agent_id > id by {
                    assert(self.list_view()[i as int].agent_id > id);
                    if k > i {
                        assert(self.list_view()[i as int].agent_id
                            < self.list_view()[k].agent_id);
                    }
                }
            }
            Err(i)
        }
    }

    /// Takes in an agent that has connected, in place of one of the same id.
    pub fn register(&mut self, info: AgentInfo)
        requires
            old(self).wf(),
        ensures
            final(self).wf(),
            final(self).next_id() == old(self).next_id(),
            forall|id: u64| #[trigger]
                has_agent(final(self).list_view(), id) <==> id == info.agent_id || has_agent(
                    old(self).list_view(),
                    id,
                ),
            forall|a: AgentView| #[trigger]
                final(self).list_view().contains(a) <==> (a == info@ || (
                old(self).list_view().contains(a) && a.agent_id != info.agent_id)),
    {
        let ghost before = self.list_view();
        let ghost view = info@;
        match self.find(info.agent_id) {
            Ok(i) => {
                proof {
                    assert(before[i as int].agent_id == info.agent_id);
                }
                self.infos.set(i, info);
                proof {
                    let after = self.list_view();
                    assert(after =~= before.update(i as int, view));
                    lemma_replaced(before, i as int, view);
                }
            },
            Err(i) => {
                proof {
                    assert forall|k: int| 0 <= k < before.len() implies (#[trigger] before[k]).agent_id
                        != info.agent_id by {
                        assert(before[k].agent_id == self.infos@[k].agent_id);
                    }
                    assert forall|k: int| 0 <= k < i implies (#[trigger] before[k]).agent_id
                        < info.agent_id by {
                        assert(before[k].agent_id == self.infos@[k].agent_id);
                    }
                    assert forall|k: int| i <= k < before.len() implies (
                    #[trigger] before[k]).agent_id > info.agent_id by {
                        assert(before[k].agent_id == self.infos@[k].agent_id);
                    }
                }
                self.infos.insert(i, info);
                proof {
                    let after = self.list_view();
                    assert(after =~= before.insert(i as int, view));
                    lemma_inserted(before, i as int, view);
                }
            },
        }
    }

    /// All agents, by their ids.
    pub fn list(&self) -> (r: Vec<AgentInfo>)
        requires
            self.wf(),
        ensures
            agent_views(r@) == self.list_view(),
            ids_grow(agent_views(r@)),
    {
        let mut out: Vec<AgentInfo> = Vec::new();
        let ghost all = self.list_view();
        let mut i: usize = 0;
        while i < self.infos.len()
            invariant
                i <= self.infos.len(),
                all == agent_views(self.infos@),
                agent_views(out@) == all.take(i as int),
            decreases self.infos.len() - i,
        {
            let ghost before = out@;
            let info = self.infos[i].duplicate();
            out.push(info);
            proof {
                assert(agent_views(out@) =~= agent_views(before).push(info@));
                assert(all.take(i + 1) =~= all.take(i as int).push(all[i as int]));
            }
            i = i + 1;
        }
        proof {
            assert(all.take(all.len() as int) =~= all);
        }
        out
    }

    /// What is known of an agent.
    pub fn get(&self, id: u64) -> (r: Result<AgentInfo, Refused>)
        requires
            self.wf(),
        ensures
            match r {
                Ok(info) => info.agent_id == id && self.list_view().contains(info@),
                Err(refused) => !has_agent(self.list_view(), id) && refused.0 == 404 && refused.1@
                    == "agent not found"@,
            },
    {
        match self.find(id) {
            Ok(i) => {
                proof {
                    assert(self.list_view()[i as int] == self.infos@[i as int]@);
                }
                Ok(self.infos[i].duplicate())
            },
            Err(_) => {
                proof {
                    assert forall|k: int| 0 <= k < self.list_view().len() implies (
                    #[trigger] self.list_view()[k]).agent_id != id by {
                        assert(self.list_view()[k].agent_id == self.infos@[k].agent_id);
                    }
                }
                Err((404, "agent not found".to_owned()))
            },
        }
    }

    /// Takes an agent out.
    pub fn remove(&mut self, id: u64) -> (r: Result<AgentInfo, Refused>)
        requires
            old(self).wf(),
        ensures
            final(self).wf(),
            final(self).next_id() == old(self).next_id(),
            match r {
                Ok(info) => {
                    &&& info.agent_id == id
                    &&& old(self).list_view().contains(info@)
                    &&& !has_agent(final(self).list_view(), id)
                    &&& forall|a: AgentView| #[trigger]
                        final(self).list_view().contains(a) <==> (old(self).list_view().contains(a)
                            && a.agent_id != id)
                },
                Err(refused) => {
                    &&& !has_agent(old(self).list_view(), id)
                    &&& final(self).list_view() == old(self).list_view()
                    &&& refused.0 == 404
                    &&& refused.1@ == "agent not found"@
                },
            },
    {
        let ghost before = self.list_view();
        match self.find(id) {
            Ok(i) => {
                proof {
                    assert(before[i as int] == self.infos@[i as int]@);
                }
                let info = self.infos.remove(i);
                proof {
                    let after = self.list_view();
                    assert(after =~= before.remove(i as int));
                    lemma_removed(before, i as int);
                }
                Ok(info)
            },
            Err(_) => {
                proof {
                    assert forall|k: int| 0 <= k < before.len() implies (
                    #[trigger] before[k]).agent_id != id by {
                        assert(before[k].agent_id == self.infos@[k].agent_id);
                    }
                }
                Err((404, "agent not found".to_owned()))
            },
        }
    }
}

proof fn lemma_replaced(before: Seq<AgentView>, i: int, a: AgentView)
    requires
        ids_grow(before),
        0 <= i < before.len(),
        before[i].agent_id == a.agent_id,
    ensures
        ids_grow(before.update(i, a)),
        forall|id: u64| #[trigger]
            has_agent(before.update(i, a), id) <==> id == a.agent_id || has_agent(before, id),
        forall|b: AgentView| #[trigger]
            before.update(i, a).contains(b) <==> (b == a || (before.contains(b) && b.agent_id
                != a.agent_id)),
{
    let after = before.update(i, a);
    assert forall|j: int, k: int| 0 <= j < k < after.len() implies (#[trigger] after[j]).agent_id < (
    #[trigger] after[k]).agent_id by {
        assert(before[j].agent_id < before[k].agent_id);
    }
    assert(after[i] == a);
    assert forall|id: u64| #[trigger] has_agent(after, id) <==> id == a.agent_id || has_agent(
        before,
        id,
    ) by {
        if has_agent(after, id) {
            let k = choose|k: int| 0 <= k < after.len() && (#[trigger] after[k]).agent_id == id;
            assert(before[k].agent_id == id);
        }
        if has_agent(before, id) {
            let k = choose|k: int| 0 <= k < before.len() && (#[trigger] before[k]).agent_id == id;
            assert(after[k].agent_id == id);
        }
    }
    assert forall|b: AgentView| #[trigger]
        after.contains(b) <==> (b == a || (before.contains(b) && b.agent_id != a.agent_id)) by {
        if after.contains(b) {
            let k = choose|k: int| 0 <= k < after.len() && after[k] == b;
            if k != i {
                assert(before[k] == b);
                if k < i {
                    assert(before[k].agent_id < before[i].agent_id);
                } else {
                    assert(before[i].agent_id < before[k].agent_id);
                }
            }
        }
        if before.contains(b) && b.agent_id != a.agent_id {
            let k = choose|k: int| 0 <= k < before.len() && before[k] == b;
            assert(after[k] == b);
        }
    }
}

proof fn lemma_inserted(before: Seq<AgentView>, i: int, a: AgentView)
    requires
        ids_grow(before),
        0 <= i <= before.len(),
        forall|k: int| 0 <= k < i ==> (#[trigger] before[k]).agent_id < a.agent_id,
        forall|k: int| i <= k < before.len() ==> (#[trigger] before[k]).agent_id > a.agent_id,
    ensures
        ids_grow(before.insert(i, a)),
        forall|id: u64| #[trigger]
            has_agent(before.insert(i, a), id) <==> id == a.agent_id || has_agent(before, id),
        forall|b: AgentView| #[trigger]
            before.insert(i, a).contains(b) <==> (b == a || (before.contains(b) && b.agent_id
                != a.agent_id)),
{
    let after = before.insert(i, a);
    assert(after[i] == a);
    assert forall|j: int, k: int| 0 <= j < k < after.len() implies (#[trigger] after[j]).agent_id < (
    #[trigger] after[k]).agent_id by {
        let j2 = if j < i { j } else { j - 1 };
        let k2 = if k < i { k } else { k - 1 };
        if j == i {
            assert(before[k2].agent_id > a.agent_id);
        } else if k == i {
            assert(before[j2].agent_id < a.agent_id);
        } else {
            assert(before[j2].agent_id < before[k2].agent_id);
        }
    }
    assert forall|id: u64| #[trigger] has_agent(after, id) <==> id == a.agent_id || has_agent(
        before,
        id,
    ) by {
        if has_agent(after, id) {
            let k = choose|k: int| 0 <= k < after.len() && (#[trigger] after[k]).agent_id == id;
            if k < i {
                assert(before[k].agent_id == id);
            } else if k > i {
                assert(before[k - 1].agent_id == id);
            }
        }
        if has_agent(before, id) {
            let k = choose|k: int| 0 <= k < before.len() && (#[trigger] before[k]).agent_id == id;
            let k2 = if k < i { k } else { k + 1 };
            assert(after[k2].agent_id == id);
        }
    }
    assert forall|b: AgentView| #[trigger]
        after.contains(b) <==> (b == a || (before.contains(b) && b.agent_id != a.agent_id)) by {
        if after.contains(b) {
            let k = choose|k: int| 0 <= k < after.len() && after[k] == b;
            if k < i {
                assert(before[k] == b);
            } else if k > i {
                assert(before[k - 1] == b);
            }
        }
        if before.contains(b) {
            let k = choose|k: int| 0 <= k < before.len() && before[k] == b;
            let k2 = if k < i { k } else { k + 1 };
            assert(after[k2] == b);
        }
    }
}

proof fn lemma_removed(before: Seq<AgentView>, i: int)
    requires
        ids_grow(before),
        0 <= i < before.len(),
    ensures
        ids_grow(before.remove(i)),
        before.contains(before[i]),
        !has_agent(before.remove(i), before[i].agent_id),
        forall|b: AgentView| #[trigger]
            before.remove(i).contains(b) <==> (before.contains(b) && b.agent_id
                != before[i].agent_id),
{
    let after = before.remove(i);
    assert forall|j: int, k: int| 0 <= j < k < after.len() implies (#[trigger] after[j]).agent_id < (
    #[trigger] after[k]).agent_id by {
        let j2 = if j < i { j } else { j + 1 };
        let k2 = if k < i { k } else { k + 1 };
        assert(before[j2].agent_id < before[k2].agent_id);
    }
    assert forall|k: int| 0 <= k < after.len() implies (#[trigger] after[k]).agent_id
        != before[i].agent_id by {
        let k2 = if k < i { k } else { k + 1 };
        if k2 < i {
            assert(before[k2].agent_id < before[i].agent_id);
        } else {
            assert(before[i].agent_id < before[k2].agent_id);
        }
    }
    assert forall|b: AgentView| #[trigger]
        after.contains(b) <==> (before.contains(b) && b.agent_id != before[i].agent_id) by {
        if after.contains(b) {
            let k = choose|k: int| 0 <= k < after.len() && after[k] == b;
            let k2 = if k < i { k } else { k + 1 };
            assert(before[k2] == b);
            assert(after[k].agent_id != before[i].agent_id);
        }
        if before.contains(b) && b.agent_id != before[i].agent_id {
            let k = choose|k: int| 0 <= k < before.len() && before[k] == b;
            let k2 = if k < i { k } else { k - 1 };
            assert(after[k2] == b);
        }
    }
}

// --------------------------------------------------------------------- commands

/// A text without the white space around it; an empty one is refused with the
/// given words.
fn not_empty(s: &str, why: &str) -> (r: Result<String, Refused>)
    ensures
        if text::trimmed(s@).len() == 0 {
            r matches Err(refused) && refused.0 == 400 && refused.1@ == why@
        } else {
            r matches Ok(t) && t@ == text::trimmed(s@)
        },
{
    let t = text::trim(s);
    if t.as_str().is_empty() {
        Err((400, why.to_owned()))
    } else {
        Ok(t)
    }
}

/// What a command to chat says.
pub fn chat_command(message: &str) -> (r: Result<String, Refused>)
    ensures
        if text::trimmed(message@).len() == 0 {
            r matches Err(refused) && refused.0 == 400 && refused.1@ == "message is empty"@
        } else {
            r matches Ok(t) && t@ == text::trimmed(message@)
        },
{
    not_empty(message, "message is empty")
}

/// The name in a command to set user data.
pub fn user_data_command(nickname: &str) -> (r: Result<String, Refused>)
    ensures
        if text::trimmed(nickname@).len() == 0 {
            r matches Err(refused) && refused.0 == 400 && refused.1@ == "nickname is empty"@
        } else {
            r matches Ok(t) && t@ == text::trimmed(nickname@)
        },
{
    not_empty(nickname, "nickname is empty")
}

/// The event in a command to send one.
pub fn emit_command(event: &str) -> (r: Result<String, Refused>)
    ensures
        if text::trimmed(event@).len() == 0 {
            r matches Err(refused) && refused.0 == 400 && refused.1@ == "event is empty"@
        } else {
            r matches Ok(t) && t@ == text::trimmed(event@)
        },
{
    not_empty(event, "event is empty")
}

/// The rotation in a command to move, zero if there is none.
pub fn move_command(rotation: Option<Scalar>) -> (r: Scalar)
    ensures
        r == match rotation {
            Some(s) => s,
            None => Scalar { bits: 0 },
        },
{
    match rotation {
        Some(s) => s,
        None => Scalar::new(0),
    }
}

// ------------------------------------------------------------------------- laws

/// Every event in a page is one that was kept, is numbered above the one asked
/// after, and there are no more of them than asked for.
pub proof fn pages_hold_later_events(events: Seq<EnvelopeView>, after: u64, max: nat, i: int)
    requires
        0 <= i < page(events, after, max).len(),
    ensures
        page(events, after, max).len() <= max,
        page(events, after, max)[i].id > after,
        events.contains(page(events, after, max)[i]),
{
    let keep = |e: EnvelopeView| e.id > after;
    let later = events.filter(keep);
    let e = page(events, after, max)[i];
    assert(later[i] == e);
    events.lemma_filter_pred(keep, i);
    events.lemma_filter_contains_rev(keep, e);
}

/// A page that is not full holds every event kept that is numbered above the one
/// asked after.
pub proof fn short_pages_are_complete(events: Seq<EnvelopeView>, after: u64, max: nat, i: int)
    requires
        page(events, after, max).len() < max,
        0 <= i < events.len(),
        events[i].id > after,
    ensures
        page(events, after, max).contains(events[i]),
{
    let keep = |e: EnvelopeView| e.id > after;
    events.lemma_filter_contains(keep, i);
}

/// At most 2000 events are kept, and the newest is one of them.
pub proof fn events_are_bounded(b: BridgeView, event: EventView, ts_ms: u64)
    ensures
        recorded(b, event, ts_ms).events.len() <= MAX_EVENTS,
        recorded(b, event, ts_ms).events.last() == (EnvelopeView {
            id: b.next_event_id,
            ts_ms,
            event,
        }),
{
    queue::bounded_lists_stay_bounded(
        b.events,
        EnvelopeView { id: b.next_event_id, ts_ms, event },
        MAX_EVENTS as nat,
    );
}

} // verus!
