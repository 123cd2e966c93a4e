//! A bot that plays through the bridge: it polls what happened and where
//! everyone is, and sends commands back. Times are milliseconds.

use crate::agents::chat::{self, REMEMBERED_LINES};
use crate::agents::conduct::{self, Cause, Utterance};
use crate::agents::llm;
use crate::agents::queue;
use crate::agents::session::{APPROACH_DISTANCE_BITS, GREET_DISTANCE_BITS};
use crate::agents::world;
use crate::json::{self, Json};
use crate::realtime::motion::{self, Point};
use crate::scalar::{self, Scalar};
use crate::text;
use crate::text_map::TextMap;
use std::collections::VecDeque;
use vstd::prelude::*;
use vstd::string::*;

verus! {

// ------------------------------------------------------------------ the bridge

/// Where the bridge says that it is up.
pub fn health_url(base: &str) -> (r: String)
    ensures
        r@ == base@ + "/health"@,
{
    text::join(base, "/health")
}

/// Where the bridge shows the world.
pub fn state_url(base: &str) -> (r: String)
    ensures
        r@ == base@ + "/api/v1/state"@,
{
    text::join(base, "/api/v1/state")
}

/// Where agents are made.
pub fn agents_url(base: &str) -> (r: String)
    ensures
        r@ == base@ + "/api/v1/agents"@,
{
    text::join(base, "/api/v1/agents")
}

/// Where an agent is commanded.
pub fn command_url(base: &str, agent_id: u64, command: &str) -> (r: String)
    ensures
        r@ == base@ + "/api/v1/agents/"@ + text::decimal(agent_id as nat) + "/command/"@ + command@,
{
    let mut out: String = base.to_owned();
    out.append("/api/v1/agents/");
    let id = text::write_decimal(agent_id);
    out.append(id.as_str());
    out.append("/command/");
    out.append(command);
    out
}

/// Where the bridge tells what happened after an event.
pub fn events_url(base: &str, after: u64, limit: u64) -> (r: String)
    ensures
        r@ == base@ + "/api/v1/events?after="@ + text::decimal(after as nat) + "&limit="@
            + text::decimal(limit as nat),
{
    let mut out: String = base.to_owned();
    out.append("/api/v1/events?after=");
    let after = text::write_decimal(after);
    out.append(after.as_str());
    out.append("&limit=");
    let limit = text::write_decimal(limit);
    out.append(limit.as_str());
    out
}

/// The id of the agent that the bridge has made.
pub fn agent_id_in(reply: &Json) -> (r: Result<u64, &'static str>)
    ensures
        match json::field(*reply, "agentId"@) {
            Some(id) => match json::unsigned_of(id) {
                Some(n) => r == Ok::<u64, &'static str>(n),
                None => r matches Err(e) && e@ == "bridge response missing agentId"@,
            },
            None => r matches Err(e) && e@ == "bridge response missing agentId"@,
        },
{
    match reply.get("agentId") {
        Some(id) => match id.as_unsigned() {
            Some(n) => Ok(n),
            None => Err("bridge response missing agentId"),
        },
        None => Err("bridge response missing agentId"),
    }
}

/// The entries of the object under `clients`.
pub open spec fn client_entries(state: Json) -> Seq<(String, Json)> {
    match json::field(state, "clients"@) {
        Some(Json::Object(entries)) => entries@,
        _ => Seq::empty(),
    }
}

/// Whether some client bears the given name.
pub open spec fn name_visible(entries: Seq<(String, Json)>, nickname: Seq<char>) -> bool {
    exists|i: int|
        0 <= i < entries.len() && bears((#[trigger] entries[i]).1, nickname)
}

/// Whether a client bears the given name, but for white space around it.
pub open spec fn bears(info: Json, nickname: Seq<char>) -> bool {
    json::text_field(info, "nickname"@) matches Some(n) && text::trimmed(n) == nickname
}

/// Whether some client bears the bot's name. A bot without a name has nothing to
/// wait for.
pub fn nickname_visible(state: &Json, nickname: &str) -> (r: bool)
    ensures
        r == (text::trimmed(nickname@).len() == 0 || name_visible(
            client_entries(*state),
            text::trimmed(nickname@),
        )),
{
    let own = text::trim(nickname);
    if own.as_str().is_empty() {
        return true;
    }
    match state.get("clients") {
        Some(Json::Object(entries)) => {
            let mut i: usize = 0;
            while i < entries.len()
                invariant
                    i <= entries.len(),
                    own@ == text::trimmed(nickname@),
                    entries@ == client_entries(*state),
                    forall|k: int| 0 <= k < i ==> !bears((#[trigger] entries@[k]).1, own@),
                decreases entries.len() - i,
            {
                if let Some(n) = entries[i].1.text_field("nickname") {
                    let n = text::trim(n.as_str());
                    if text::same(n.as_str(), own.as_str()) {
                        proof {
                            assert(bears(entries@[i as int].1, own@));
                        }
                        return true;
                    }
                }
                i = i + 1;
            }
            false
        },
        _ => false,
    }
}

/// A coordinate: a number, or zero.
pub open spec fn coordinate(doc: Json) -> Scalar {
    match json::single_of(doc) {
        Some(n) => n,
        None => Scalar { bits: 0 },
    }
}

/// A client with its name and place, if it has both.
pub open spec fn client_in(info: Json) -> Option<(Seq<char>, Point)> {
    let nickname = text::trimmed(json::text_field_or_empty(info, "nickname"@));
    match json::field(info, "position"@) {
        Some(Json::Array(p)) => if nickname.len() > 0 && p@.len() == 3 {
            Some(
                (
                    nickname,
                    Point { x: coordinate(p@[0]), y: coordinate(p@[1]), z: coordinate(p@[2]) },
                ),
            )
        } else {
            None
        },
        _ => None,
    }
}

/// The clients with a name and a place, in order.
pub open spec fn clients_in(entries: Seq<(String, Json)>) -> Seq<(Seq<char>, Point)>
    decreases entries.len(),
{
    if entries.len() == 0 {
        seq![]
    } else {
        match client_in(entries.last().1) {
            Some(client) => clients_in(entries.drop_last()).push(client),
            None => clients_in(entries.drop_last()),
        }
    }
}

/// The names and places of a list.
pub open spec fn placed(v: Seq<(String, Point)>) -> Seq<(Seq<char>, Point)> {
    v.map_values(|c: (String, Point)| (c.0@, c.1))
}

fn read_coordinate(doc: &Json) -> (r: Scalar)
    ensures
        r == coordinate(*doc),
{
    match doc.as_single() {
        Some(n) => n,
        None => Scalar::new(0),
    }
}

fn read_client(info: &Json) -> (r: Option<(String, Point)>)
    ensures
        match r {
            Some((nickname, at)) => client_in(*info) == Some((nickname@, at)),
            None => client_in(*info) is None,
        },
{
    let nickname = info.text_field_or_empty("nickname");
    let nickname = text::trim(nickname.as_str());
    match info.get("position") {
        Some(Json::Array(p)) => if !nickname.as_str().is_empty() && p.len() == 3 {
            let x = read_coordinate(&p[0]);
            let y = read_coordinate(&p[1]);
            let z = read_coordinate(&p[2]);
            Some((nickname, Point { x, y, z }))
        } else {
            None
        },
        _ => None,
    }
}

/// The clients with a name and a place.
pub fn extract_clients(state: &Json) -> (r: Vec<(String, Point)>)
    ensures
        placed(r@) == clients_in(client_entries(*state)),
{
    let mut out: Vec<(String, Point)> = Vec::new();
    proof {
        assert(placed(out@) =~= Seq::<(Seq<char>, Point)>::empty());
    }
    match state.get("clients") {
        Some(Json::Object(entries)) => {
            let mut i: usize = 0;
            proof {
                assert(entries@.take(0) =~= Seq::<(String, Json)>::empty());
            }
            while i < entries.len()
                invariant
                    i <= entries.len(),
                    placed(out@) == clients_in(entries@.take(i as int)),
                decreases entries.len() - i,
            {
                let ghost before = out@;
                proof {
                    assert(entries@.take(i + 1).drop_last() =~= entries@.take(i as int));
                }
                if let Some(client) = read_client(&entries[i].1) {
                    out.push(client);
                    proof {
                        assert(placed(out@) =~= placed(before).push((client.0@, client.1)));
                    }
                }
                i = i + 1;
            }
            proof {
                assert(entries@.take(entries@.len() as int) =~= entries@);
            }
            out
        },
        _ => out,
    }
}

/// Where the first client of the bot's name is; the middle if there is none.
pub open spec fn own_spot(clients: Seq<(Seq<char>, Point)>, nickname: Seq<char>) -> Point
    decreases clients.len(),
{
    if clients.len() == 0 {
        motion::origin_point()
    } else if clients[0].0 == nickname {
        clients[0].1
    } else {
        own_spot(clients.drop_first(), nickname)
    }
}

/// The clients of other names, in order.
pub open spec fn strangers(clients: Seq<(Seq<char>, Point)>, nickname: Seq<char>) -> Seq<
    (Seq<char>, Point),
> {
    clients.filter(|c: (Seq<char>, Point)| c.0 != nickname)
}

/// Where the bot is, and the clients of other names.
pub fn look_around(clients: &Vec<(String, Point)>, nickname: &str) -> (r: (
    Point,
    Vec<(String, Point)>,
))
    ensures
        r.0 == own_spot(placed(clients@), nickname@),
        placed(r.1@) == strangers(placed(clients@), nickname@),
{
    let mut own: Option<Point> = None;
    let mut others: Vec<(String, Point)> = Vec::new();
    let ghost all = placed(clients@);
    let ghost keep = |c: (Seq<char>, Point)| c.0 != nickname@;
    let mut i: usize = 0;
    proof {
        assert(all.skip(0) =~= all);
        assert(all.take(0) =~= Seq::<(Seq<char>, Point)>::empty());
        reveal(Seq::filter);
        assert(placed(others@) =~= all.take(0).filter(keep));
    }
    while i < clients.len()
        invariant
            i <= clients.len(),
            all == placed(clients@),
            keep == (|c: (Seq<char>, Point)| c.0 != nickname@),
            match own {
                Some(p) => own_spot(all, nickname@) == p,
                None => own_spot(all, nickname@) == own_spot(all.skip(i as int), nickname@),
            },
            placed(others@) == all.take(i as int).filter(keep),
        decreases clients.len() - i,
    {
        let ghost before = others@;
        proof {
            assert(all.skip(i as int).drop_first() =~= all.skip(i + 1));
            assert(all.skip(i as int)[0] == (clients@[i as int].0@, clients@[i as int].1));
            assert(all.take(i + 1).drop_last() =~= all.take(i as int));
            assert(all.take(i + 1).last() == (clients@[i as int].0@, clients@[i as int].1));
            reveal(Seq::filter);
        }
        if text::same(clients[i].0.as_str(), nickname) {
            if own.is_none() {
                own = Some(clients[i].1);
            }
        } else {
            others.push((clients[i].0.clone(), clients[i].1));
            proof {
                assert(placed(others@) =~= placed(before).push(
                    (clients@[i as int].0@, clients@[i as int].1),
                ));
            }
        }
        i = i + 1;
    }
    proof {
        assert(all.take(all.len() as int) =~= all);
    }
    let own = match own {
        Some(p) => p,
        None => motion::origin(),
    };
    (own, others)
}

// --------------------------------------------------------------------- the bot

/// How a bot behaves.
#[derive(Debug)]
pub struct BotHabits {
    pub nickname: String,
    pub min_chat_interval_ms: u64,
    pub reply_to_all: bool,
    pub auto_approach: bool,
    pub llm_tick_ms: u64,
    pub approach_speed: Scalar,
}

/// What a bot remembers.
pub struct Bot {
    last_event_id: u64,
    recent_chat: VecDeque<(String, String)>,
    last_llm_ms: u64,
    last_move_ms: u64,
    greeted: TextMap<u64>,
    last_sent_chat_ms: u64,
    last_sent_chat_text: String,
}

/// What is remembered by a bot.
pub struct BotView {
    pub last_event_id: u64,
    pub recent_chat: Seq<(Seq<char>, Seq<char>)>,
    pub last_llm_ms: u64,
    pub last_move_ms: u64,
    pub greeted: Map<Seq<char>, u64>,
    pub last_sent_chat_ms: u64,
    pub last_sent_chat_text: Seq<char>,
}

/// The names and words of lines.
pub open spec fn line_texts(v: Seq<(String, String)>) -> Seq<(Seq<char>, Seq<char>)> {
    v.map_values(|l: (String, String)| (l.0@, l.1@))
}

impl View for Bot {
    type V = BotView;

    closed spec fn view(&self) -> BotView {
        BotView {
            last_event_id: self.last_event_id,
            recent_chat: line_texts(self.recent_chat@),
            last_llm_ms: self.last_llm_ms,
            last_move_ms: self.last_move_ms,
            greeted: self.greeted@,
            last_sent_chat_ms: self.last_sent_chat_ms,
            last_sent_chat_text: self.last_sent_chat_text@,
        }
    }
}

/// A bot that remembers nothing.
pub open spec fn newborn() -> BotView {
    BotView {
        last_event_id: 0,
        recent_chat: Seq::empty(),
        last_llm_ms: 0,
        last_move_ms: 0,
        greeted: Map::empty(),
        last_sent_chat_ms: 0,
        last_sent_chat_text: Seq::empty(),
    }
}

/// The chat line in an event, unless it is empty or the bot's own.
pub open spec fn line_in(envelope: Json, nickname: Seq<char>) -> Option<(Seq<char>, Seq<char>)> {
    match json::field(envelope, "event"@) {
        Some(event) => {
            let nick = json::text_field_or_empty(event, "nickname"@);
            let message = json::text_field_or_empty(event, "message"@);
            if json::text_field(event, "type"@) == Some("chat_message"@) && nick.len() > 0
                && message.len() > 0 && nick != nickname {
                Some((nick, message))
            } else {
                None
            }
        },
        None => None,
    }
}

/// The highest event id after one more event.
pub open spec fn id_after(envelope: Json, last: u64) -> u64 {
    match json::field(envelope, "id"@) {
        Some(doc) => match json::unsigned_of(doc) {
            Some(id) => if id > last {
                id
            } else {
                last
            },
            None => last,
        },
        None => last,
    }
}

/// What is remembered after some events.
pub open spec fn having_read(b: BotView, events: Seq<Json>, nickname: Seq<char>) -> BotView
    decreases events.len(),
{
    if events.len() == 0 {
        b
    } else {
        let before = having_read(b, events.drop_last(), nickname);
        BotView {
            last_event_id: id_after(events.last(), before.last_event_id),
            recent_chat: match line_in(events.last(), nickname) {
                Some(line) => queue::newest(
                    before.recent_chat.push(line),
                    REMEMBERED_LINES as nat,
                ),
                None => before.recent_chat,
            },
            ..before
        }
    }
}

/// The last chat line among some events.
pub open spec fn last_line_in(events: Seq<Json>, nickname: Seq<char>) -> Option<
    (Seq<char>, Seq<char>),
>
    decreases events.len(),
{
    if events.len() == 0 {
        None
    } else {
        match line_in(events.last(), nickname) {
            Some(line) => Some(line),
            None => last_line_in(events.drop_last(), nickname),
        }
    }
}

fn read_line(envelope: &Json, nickname: &str) -> (r: Option<(String, String)>)
    ensures
        match r {
            Some((nick, message)) => line_in(*envelope, nickname@) == Some((nick@, message@)),
            None => line_in(*envelope, nickname@) is None,
        },
{
    match envelope.get("event") {
        None => None,
        Some(event) => {
            let chat: bool = match event.text_field("type") {
                Some(t) => text::same(t.as_str(), "chat_message"),
                None => false,
            };
            if !chat {
                return None;
            }
            let nick = event.text_field_or_empty("nickname");
            let message = event.text_field_or_empty("message");
            if !nick.as_str().is_empty() && !message.as_str().is_empty() && !text::same(
                nick.as_str(),
                nickname,
            ) {
                Some((nick, message))
            } else {
                None
            }
        },
    }
}

/// Whether the bot may say something by now.
pub open spec fn bot_may_speak(b: BotView, h: BotHabits, now: u64) -> bool {
    chat::waited(now, b.last_sent_chat_ms, h.min_chat_interval_ms)
}

/// The greeting to a player nearby, while it is due: once per name.
pub open spec fn bot_greeting_due(
    b: BotView,
    h: BotHabits,
    nearest: Option<(Seq<char>, Scalar)>,
    now: u64,
) -> Option<Seq<char>> {
    match nearest {
        Some((nickname, dist)) => if scalar::at_most(dist, Scalar { bits: GREET_DISTANCE_BITS })
            && !b.greeted.contains_key(nickname) && bot_may_speak(b, h, now) {
            Some(chat::greeting_for(nickname))
        } else {
            None
        },
        None => None,
    }
}

/// Whether the language model is asked: on chat, or when it is time.
pub open spec fn bot_asks(
    b: BotView,
    h: BotHabits,
    last_line: Option<(Seq<char>, Seq<char>)>,
    now: u64,
) -> bool {
    let called = last_line matches Some((_, message)) && chat::calls_bot(
        chat::plain(h.nickname@),
        chat::plain(message),
    );
    ||| last_line is Some && chat::waited_longer(now, b.last_llm_ms, 1_500) && (h.reply_to_all
        || called)
    ||| h.llm_tick_ms > 0 && chat::waited_longer(now, b.last_llm_ms, h.llm_tick_ms)
}

/// What is said on behalf of the language model: nothing empty, nothing that was
/// just said, and nothing too soon.
pub open spec fn bot_says(b: BotView, h: BotHabits, action: Json, now: u64) -> Option<Seq<char>> {
    match json::text_field(action, "say"@) {
        Some(say) => {
            let message = text::trimmed(say);
            if message.len() > 0 && chat::plain(message) != chat::plain(b.last_sent_chat_text)
                && bot_may_speak(b, h, now) {
                Some(message)
            } else {
                None
            }
        },
        None => None,
    }
}

/// Whom the bot approaches of its own accord: the nearest player, if that one is
/// more than 2 away and the model wants nothing else.
pub open spec fn bot_approaches(
    b: BotView,
    h: BotHabits,
    llm_walks: bool,
    nearest: Option<(Point, Scalar)>,
    now: u64,
) -> Option<Point> {
    match nearest {
        Some((at, dist)) => if h.auto_approach && !llm_walks && scalar::below(
            Scalar { bits: APPROACH_DISTANCE_BITS },
            dist,
        ) && chat::waited_longer(now, b.last_move_ms, 2_000) {
            Some(at)
        } else {
            None
        },
        None => None,
    }
}

/// The memory after something was said.
pub open spec fn bot_having_said(b: BotView, message: Seq<char>, now: u64) -> BotView {
    BotView { last_sent_chat_ms: now, last_sent_chat_text: message, ..b }
}

/// The nearest of some players, by the distances that were measured to them.
pub fn pick_nearest(others: &Vec<(String, Point)>, dists: &Vec<Scalar>) -> (r: Option<usize>)
    requires
        others.len() == dists.len(),
    ensures
        match r {
            Some(i) => i < others.len() && world::nearest_index(dists@) == Some(i as int),
            None => others.len() == 0,
        },
{
    world::nearest(dists)
}

impl Bot {
    pub closed spec fn wf(&self) -> bool {
        self.greeted.wf()
    }

    /// A bot that remembers nothing.
    pub fn new() -> (r: Bot)
        ensures
            r.wf(),
            r@ == newborn(),
    {
        let r = Bot {
            last_event_id: 0,
            recent_chat: VecDeque::new(),
            last_llm_ms: 0,
            last_move_ms: 0,
            greeted: TextMap::new(),
            last_sent_chat_ms: 0,
            last_sent_chat_text: String::new(),
        };
        proof {
            assert(r@.recent_chat =~= Seq::<(Seq<char>, Seq<char>)>::empty());
            assert(r@.last_sent_chat_text =~= Seq::<char>::empty());
        }
        r
    }

    /// The last event that was read.
    pub fn last_event_id(&self) -> (r: u64)
        ensures
            r == self@.last_event_id,
    {
        self.last_event_id
    }

    /// Reads what happened, and gives the last chat line among it.
    pub fn read_events(&mut self, events: &Vec<Json>, nickname: &str) -> (r: Option<
        (String, String),
    >)
        requires
            old(self).wf(),
        ensures
            final(self).wf(),
            final(self)@ == having_read(old(self)@, events@, nickname@),
            match r {
                Some((nick, message)) => last_line_in(events@, nickname@) == Some(
                    (nick@, message@),
                ),
                None => last_line_in(events@, nickname@) is None,
            },
    {
        let mut last: Option<(String, String)> = None;
        let mut i: usize = 0;
        proof {
            assert(events@.take(0) =~= Seq::<Json>::empty());
        }
        while i < events.len()
            invariant
                self.wf(),
                i <= events.len(),
                self@ == having_read(old(self)@, events@.take(i as int), nickname@),
                match last {
                    Some((nick, message)) => last_line_in(events@.take(i as int), nickname@)
                        == Some((nick@, message@)),
                    None => last_line_in(events@.take(i as int), nickname@) is None,
                },
            decreases events.len() - i,
        {
            proof {
                assert(events@.take(i + 1).drop_last() =~= events@.take(i as int));
            }
            if let Some(doc) = events[i].get("id") {
                if let Some(id) = doc.as_unsigned() {
                    if id > self.last_event_id {
                        self.last_event_id = id;
                    }
                }
            }
            if let Some((nick, message)) = read_line(&events[i], nickname) {
                let ghost before = self.recent_chat@;
                let ghost line = (nick@, message@);
                let kept = (nick.clone(), message.clone());
                queue::push_bounded(&mut self.recent_chat, kept, REMEMBERED_LINES);
                proof {
                    assert(line_texts(before.push(kept)) =~= line_texts(before).push(line));
                    assert(line_texts(self.recent_chat@) =~= queue::newest(
                        line_texts(before).push(line),
                        REMEMBERED_LINES as nat,
                    ));
                }
                last = Some((nick, message));
            }
            i = i + 1;
        }
        proof {
            assert(events@.take(events@.len() as int) =~= events@);
        }
        last
    }

    /// The lines remembered, as they are shown to the language model.
    pub fn chat_text(&self) -> (r: String)
        ensures
            r@ == chat::stacked(
                self@.recent_chat.map_values(
                    |l: (Seq<char>, Seq<char>)| chat::quoted(l.0, l.1),
                ),
            ),
    {
        let mut lines: Vec<String> = Vec::new();
        let ghost all = self@.recent_chat.map_values(
            |l: (Seq<char>, Seq<char>)| chat::quoted(l.0, l.1),
        );
        let mut i: usize = 0;
        while i < self.recent_chat.len()
            invariant
                i <= self.recent_chat.len(),
                all == self@.recent_chat.map_values(
                    |l: (Seq<char>, Seq<char>)| chat::quoted(l.0, l.1),
                ),
                text::texts(lines@) == all.take(i as int),
            decreases self.recent_chat.len() - i,
        {
            let ghost before = lines@;
            let line = chat::quote(
                self.recent_chat[i].0.as_str(),
                self.recent_chat[i].1.as_str(),
            );
            lines.push(line);
            proof {
                assert(text::texts(lines@) =~= text::texts(before).push(line@));
                assert(all.take(i + 1) =~= all.take(i as int).push(all[i as int]));
            }
            i = i + 1;
        }
        proof {
            assert(all.take(all.len() as int) =~= all);
        }
        chat::stack(&lines)
    }

    /// Greets a player nearby, if that is due. Whether the greeting arrives does
    /// not matter: it counts as said.
    pub fn greet(
        &mut self,
        habits: &BotHabits,
        nearest: &Option<(String, Scalar)>,
        now: u64,
    ) -> (r: Option<String>)
        requires
            old(self).wf(),
        ensures
            final(self).wf(),
            text::opt_text(r) == bot_greeting_due(
                old(self)@,
                *habits,
                match nearest {
                    Some((nickname, dist)) => Some((nickname@, *dist)),
                    None => None,
                },
                now,
            ),
            final(self)@ == match r {
                Some(message) => BotView {
                    greeted: old(self)@.greeted.insert((nearest->0).0@, now),
                    ..bot_having_said(old(self)@, message@, now)
                },
                None => old(self)@,
            },
    {
        match nearest {
            None => None,
            Some((nickname, dist)) => {
                if dist.at_most(Scalar::new(GREET_DISTANCE_BITS)) && self.greeted.get(
                    nickname.as_str(),
                ).is_none() && chat::has_waited(
                    now,
                    self.last_sent_chat_ms,
                    habits.min_chat_interval_ms,
                ) {
                    let message = chat::greet(nickname.as_str());
                    self.last_sent_chat_ms = now;
                    self.last_sent_chat_text = message.clone();
                    self.greeted.insert(nickname.clone(), now);
                    Some(message)
                } else {
                    None
                }
            },
        }
    }

    /// Whether to ask the language model.
    pub fn wants_llm(
        &self,
        habits: &BotHabits,
        last_line: &Option<(String, String)>,
        now: u64,
    ) -> (r: bool)
        ensures
            r == bot_asks(
                self@,
                *habits,
                match last_line {
                    Some((nick, message)) => Some((nick@, message@)),
                    None => None,
                },
                now,
            ),
    {
        let called: bool = match last_line {
            Some((_, message)) => chat::bot_addressed(
                habits.nickname.as_str(),
                message.as_str(),
            ),
            None => false,
        };
        (last_line.is_some() && chat::has_waited_longer(now, self.last_llm_ms, 1_500) && (
        habits.reply_to_all || called)) || (habits.llm_tick_ms > 0 && chat::has_waited_longer(
            now,
            self.last_llm_ms,
            habits.llm_tick_ms,
        ))
    }

    /// Takes in that the language model has failed to answer.
    pub fn llm_failed(&mut self, now: u64)
        requires
            old(self).wf(),
        ensures
            final(self).wf(),
            final(self)@ == (BotView { last_llm_ms: now, ..old(self)@ }),
    {
        self.last_llm_ms = now;
    }

    /// Takes in the language model's wishes: what to say, where to go, and whom to
    /// approach if it wants to go nowhere. What is to be said counts as said.
    pub fn take_answer(
        &mut self,
        habits: &BotHabits,
        action: &Json,
        nearest: &Option<(Point, Scalar)>,
        now: u64,
    ) -> (r: BotPlan)
        requires
            old(self).wf(),
        ensures
            final(self).wf(),
            text::opt_text(r.say) == bot_says(old(self)@, *habits, *action, now),
            r.walk == llm::walk_in(*action, habits.approach_speed),
            r.approach == bot_approaches(old(self)@, *habits, r.walk is Some, *nearest, now),
            final(self)@ == match r.say {
                Some(message) => BotView {
                    last_llm_ms: now,
                    ..bot_having_said(old(self)@, message@, now)
                },
                None => BotView { last_llm_ms: now, ..old(self)@ },
            },
    {
        self.last_llm_ms = now;
        let say: Option<String> = match llm::say_in(action) {
            None => None,
            Some(say) => {
                let message = text::trim(say.as_str());
                let a = chat::norm_ascii(message.as_str());
                let b = chat::norm_ascii(self.last_sent_chat_text.as_str());
                if chat::is_new(message.as_str(), a.as_str(), b.as_str()) && chat::has_waited(
                    now,
                    self.last_sent_chat_ms,
                    habits.min_chat_interval_ms,
                ) {
                    Some(message)
                } else {
                    None
                }
            },
        };
        if let Some(message) = &say {
            self.last_sent_chat_ms = now;
            self.last_sent_chat_text = message.clone();
        }
        let walk = llm::goto_in(action, habits.approach_speed);
        let approach: Option<Point> = match nearest {
            Some((at, dist)) => if habits.auto_approach && walk.is_none() && Scalar::new(
                APPROACH_DISTANCE_BITS,
            ).below(*dist) && chat::has_waited_longer(now, self.last_move_ms, 2_000) {
                Some(*at)
            } else {
                None
            },
            None => None,
        };
        BotPlan { say, walk, approach }
    }

    /// Takes in that the bot set out towards a player.
    pub fn walked(&mut self, now: u64)
        requires
            old(self).wf(),
        ensures
            final(self).wf(),
            final(self)@ == (BotView { last_move_ms: now, ..old(self)@ }),
    {
        self.last_move_ms = now;
    }
}

/// What a bot does about the language model's answer.
#[derive(Debug)]
pub struct BotPlan {
    pub say: Option<String>,
    /// Where the model wants to go, and how fast.
    pub walk: Option<(Point, Scalar)>,
    /// Whom to approach instead.
    pub approach: Option<Point>,
}

// ------------------------------------------------------------------------ laws

/// Reading events never goes back: the last id only grows, and covers every
/// event that was read.
pub proof fn events_are_read_once(b: BotView, events: Seq<Json>, nickname: Seq<char>, i: int)
    requires
        0 <= i < events.len(),
    ensures
        having_read(b, events, nickname).last_event_id >= b.last_event_id,
        json::field(events[i], "id"@) matches Some(doc) ==> json::unsigned_of(doc) matches Some(
            id,
        ) ==> having_read(b, events, nickname).last_event_id >= id,
    decreases events.len(),
{
    let front = events.drop_last();
    if front.len() > 0 {
        if i < front.len() {
            events_are_read_once(b, front, nickname, i);
        } else {
            events_are_read_once(b, front, nickname, 0);
        }
    } else {
        assert(having_read(b, front, nickname) == b);
    }
}

/// A bot speaks no sooner than its interval after it last spoke, and greets a
/// name once.
pub proof fn bots_do_not_spam(
    b: BotView,
    h: BotHabits,
    message: Seq<char>,
    said_at: u64,
    nickname: Seq<char>,
    dist: Scalar,
    action: Json,
    now: u64,
)
    requires
        said_at <= now,
    ensures
        ({
            let after = bot_having_said(b, message, said_at);
            &&& bot_greeting_due(after, h, Some((nickname, dist)), now) is Some ==> now - said_at
                >= h.min_chat_interval_ms
            &&& bot_says(after, h, action, now) is Some ==> now - said_at >= h.min_chat_interval_ms
            &&& bot_greeting_due(
                BotView { greeted: b.greeted.insert(nickname, said_at), ..after },
                h,
                Some((nickname, dist)),
                now,
            ) is None
        }),
{
}

// ----------------------------------------------------------------- a whole run

/// One step of a bot: what a method of it is given.
pub enum BotStep {
    Read { events: Seq<Json> },
    Greeted { nearest: Option<(Seq<char>, Scalar)>, now: u64 },
    Answered { action: Json, now: u64 },
    Failed { now: u64 },
    Walked { now: u64 },
}

/// A bot's run so far, and what it said in it, oldest first.
pub struct BotCourse {
    pub bot: BotView,
    pub said: Seq<Utterance>,
    /// When the last step was taken.
    pub clock: u64,
}

/// The run after one more step.
pub open spec fn after_bot_step(h: BotHabits, c: BotCourse, step: BotStep) -> BotCourse {
    match step {
        BotStep::Read { events } => BotCourse {
            bot: having_read(c.bot, events, h.nickname@),
            ..c
        },
        BotStep::Greeted { nearest, now } => match bot_greeting_due(c.bot, h, nearest, now) {
            Some(message) => BotCourse {
                bot: BotView {
                    greeted: c.bot.greeted.insert((nearest->0).0, now),
                    ..bot_having_said(c.bot, message, now)
                },
                said: c.said.push(
                    Utterance { cause: Cause::Nearby((nearest->0).0), text: message, at: now },
                ),
                clock: now,
            },
            None => BotCourse { clock: now, ..c },
        },
        BotStep::Answered { action, now } => match bot_says(c.bot, h, action, now) {
            Some(message) => BotCourse {
                bot: BotView { last_llm_ms: now, ..bot_having_said(c.bot, message, now) },
                said: c.said.push(Utterance { cause: Cause::Model, text: message, at: now }),
                clock: now,
            },
            None => BotCourse { bot: BotView { last_llm_ms: now, ..c.bot }, clock: now, ..c },
        },
        BotStep::Failed { now } => BotCourse {
            bot: BotView { last_llm_ms: now, ..c.bot },
            clock: now,
            ..c
        },
        BotStep::Walked { now } => BotCourse {
            bot: BotView { last_move_ms: now, ..c.bot },
            clock: now,
            ..c
        },
    }
}

/// Whether a step is not taken before the one ahead of it.
pub open spec fn bot_in_time(c: BotCourse, step: BotStep) -> bool {
    match step {
        BotStep::Read { .. } => true,
        BotStep::Greeted { now, .. } => c.clock <= now,
        BotStep::Answered { now, .. } => c.clock <= now,
        BotStep::Failed { now } => c.clock <= now,
        BotStep::Walked { now } => c.clock <= now,
    }
}

/// The run of a bot that takes these steps.
pub open spec fn bot_course_of(h: BotHabits, steps: Seq<BotStep>) -> BotCourse
    decreases steps.len(),
{
    if steps.len() == 0 {
        BotCourse { bot: newborn(), said: Seq::empty(), clock: 0 }
    } else {
        after_bot_step(h, bot_course_of(h, steps.drop_last()), steps.last())
    }
}

/// Whether the clock does not run backwards while a bot takes these steps.
pub open spec fn bot_clock_runs_on(h: BotHabits, steps: Seq<BotStep>) -> bool {
    forall|i: int|
        0 <= i < steps.len() ==> bot_in_time(
            bot_course_of(h, steps.take(i)),
            #[trigger] steps[i],
        )
}

/// Whether an utterance comes well after the one ahead of it: no sooner than the
/// interval, and, on behalf of the language model, with other words.
pub open spec fn bot_in_turn(h: BotHabits, said: Seq<Utterance>, i: int) -> bool {
    &&& said[i].at - said[i - 1].at >= h.min_chat_interval_ms
    &&& said[i].cause is Model ==> chat::plain(said[i].text) != chat::plain(said[i - 1].text)
}

/// Whether everything a bot said had words, came in its turn, and greeted nobody
/// again.
pub open spec fn bot_behaves(h: BotHabits, c: BotCourse) -> bool {
    &&& forall|i: int| 0 <= i < c.said.len() ==> (#[trigger] c.said[i]).text.len() > 0
    &&& forall|i: int| 1 <= i < c.said.len() ==> #[trigger] bot_in_turn(h, c.said, i)
    &&& forall|i: int, j: int|
        0 <= i < j < c.said.len() ==> !#[trigger] conduct::greet_alike(c.said[i], c.said[j])
}

/// Whether a bot remembers what it said and whom it greeted.
spec fn bot_remembers(c: BotCourse) -> bool {
    &&& c.said.len() > 0 ==> {
        &&& c.bot.last_sent_chat_ms == c.said.last().at
        &&& c.bot.last_sent_chat_text == c.said.last().text
        &&& c.said.last().at <= c.clock
    }
    &&& forall|i: int|
        0 <= i < c.said.len() ==> match (#[trigger] c.said[i]).cause {
            Cause::Nearby(name) => c.bot.greeted.contains_key(name),
            Cause::Model => true,
            _ => false,
        }
}

/// Reading changes nothing of what a bot remembers of its own words.
proof fn lemma_reading_keeps_words(b: BotView, events: Seq<Json>, nickname: Seq<char>)
    ensures
        having_read(b, events, nickname).last_sent_chat_ms == b.last_sent_chat_ms,
        having_read(b, events, nickname).last_sent_chat_text == b.last_sent_chat_text,
        having_read(b, events, nickname).greeted == b.greeted,
    decreases events.len(),
{
    if events.len() > 0 {
        lemma_reading_keeps_words(b, events.drop_last(), nickname);
    }
}

/// Every step keeps a bot well behaved.
proof fn lemma_bot_step(h: BotHabits, c: BotCourse, step: BotStep)
    requires
        bot_behaves(h, c),
        bot_remembers(c),
        bot_in_time(c, step),
    ensures
        bot_behaves(h, after_bot_step(h, c, step)),
        bot_remembers(after_bot_step(h, c, step)),
{
    let after = after_bot_step(h, c, step);
    if let BotStep::Read { events } = step {
        lemma_reading_keeps_words(c.bot, events, h.nickname@);
    }
    if let BotStep::Greeted { nearest, .. } = step {
        if nearest is Some {
            reveal_strlit("hey ");
            assert(chat::greeting_for((nearest->0).0).len() > 0);
        }
    }
    if after.said.len() > c.said.len() {
        assert forall|i: int| 1 <= i < after.said.len() implies #[trigger] bot_in_turn(
            h,
            after.said,
            i,
        ) by {
            if i < c.said.len() {
                assert(bot_in_turn(h, c.said, i));
            }
        }
        assert forall|i: int, j: int|
            0 <= i < j < after.said.len() implies !#[trigger] conduct::greet_alike(
            after.said[i],
            after.said[j],
        ) by {
            assert(after.said[i] == c.said[i]);
            if j < c.said.len() {
                assert(!conduct::greet_alike(c.said[i], c.said[j]));
            }
        }
    } else {
        assert(after.said == c.said);
    }
}

proof fn lemma_bot_course(h: BotHabits, steps: Seq<BotStep>)
    requires
        bot_clock_runs_on(h, steps),
    ensures
        bot_behaves(h, bot_course_of(h, steps)),
        bot_remembers(bot_course_of(h, steps)),
    decreases steps.len(),
{
    if steps.len() > 0 {
        let front = steps.drop_last();
        let n = steps.len() - 1;
        assert(steps.take(n) =~= front);
        assert(bot_in_time(bot_course_of(h, steps.take(n)), steps[n]));
        assert forall|i: int| 0 <= i < front.len() implies bot_in_time(
            bot_course_of(h, front.take(i)),
            #[trigger] front[i],
        ) by {
            assert(front.take(i) =~= steps.take(i));
            assert(steps[i] == front[i]);
        }
        lemma_bot_course(h, front);
        lemma_bot_step(h, bot_course_of(h, front), steps.last());
    }
}

/// Whatever happens while a bot runs, as long as the clock does not run backwards:
/// all that it says has words; whatever it says next comes no sooner than its
/// interval; what the language model proposes is not said when it is what was
/// said last, but for ASCII case and the white space around it; and it greets a
/// name at most once.
pub proof fn bots_behave_all_along(h: BotHabits, steps: Seq<BotStep>)
    requires
        bot_clock_runs_on(h, steps),
    ensures
        ({
            let c = bot_course_of(h, steps);
            &&& forall|i: int| 0 <= i < c.said.len() ==> (#[trigger] c.said[i]).text.len() > 0
            &&& forall|i: int| 1 <= i < c.said.len() ==> #[trigger] bot_in_turn(h, c.said, i)
            &&& forall|i: int, j: int|
                0 <= i < j < c.said.len() ==> !#[trigger] conduct::greet_alike(
                    c.said[i],
                    c.said[j],
                )
        }),
{
    lemma_bot_course(h, steps);
}

} // verus!
