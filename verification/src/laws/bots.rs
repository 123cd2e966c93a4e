//! What a bridged bot does, and how agents are set up.

use crate::agents::bot::{self, Bot, BotHabits, BotPlan, BotView};
use crate::agents::chat;
use crate::agents::llm;
use crate::agents::settings::{self, Pace};
use crate::agents::world;
use crate::json::{self, Json};
use crate::laws::agents::lines_stand_in_order;
use crate::laws::documents::{self, has_entry, has_no_entry};
use crate::laws::numbers::{self, is_less, is_number};
use crate::laws::texts;
use crate::realtime::motion::Point;
use crate::scalar::Scalar;
use crate::text;
use vstd::prelude::*;
use vstd::string::*;

verus! {

// ---------------------------------------------------------------------- reading

/// Whether a document has a text under a name.
pub open spec fn has_text(doc: Json, name: Seq<char>, t: Seq<char>) -> bool {
    exists|s: String| #[trigger] has_entry(doc, name, Json::Text(s)) && s@ == t
}

proof fn lemma_entry(doc: Json, name: Seq<char>, value: Json)
    ensures
        has_entry(doc, name, value) <==> json::field(doc, name) == Some(value),
{
    documents::lemma_field(doc, name);
    if has_entry(doc, name, value) {
        if let Json::Object(entries) = doc {
            let i = choose|i: int|
                #![trigger entries@[i]]
                0 <= i < entries@.len() && entries@[i].0@ == name && entries@[i].1 == value
                    && forall|j: int| 0 <= j < i ==> (#[trigger] entries@[j]).0@ != name;
            match json::field(doc, name) {
                Some(v) => {
                    let k = choose|k: int|
                        #![trigger entries@[k]]
                        0 <= k < entries@.len() && entries@[k].0@ == name && entries@[k].1 == v
                            && forall|j: int| 0 <= j < k ==> (#[trigger] entries@[j]).0@ != name;
                    assert(!(i < k));
                    assert(!(k < i));
                },
                None => {
                    assert(entries@[i].0@ != name);
                },
            }
        }
    }
}

proof fn lemma_text(doc: Json, name: Seq<char>, t: Seq<char>)
    ensures
        has_text(doc, name, t) <==> json::text_field(doc, name) == Some(t),
{
    if has_text(doc, name, t) {
        let s = choose|s: String| #[trigger] has_entry(doc, name, Json::Text(s)) && s@ == t;
        lemma_entry(doc, name, Json::Text(s));
    }
    if json::text_field(doc, name) == Some(t) {
        let s = json::field(doc, name)->0->Text_0;
        lemma_entry(doc, name, Json::Text(s));
    }
}

/// Whether an event is a chat message of someone else, with words and an author.
pub open spec fn is_message(
    envelope: Json,
    own: Seq<char>,
    nickname: Seq<char>,
    message: Seq<char>,
) -> bool {
    &&& nickname.len() > 0 && message.len() > 0 && nickname != own
    &&& exists|event: Json| #[trigger]
        has_entry(envelope, "event"@, event) && has_text(event, "type"@, "chat_message"@)
            && has_text(event, "nickname"@, nickname) && has_text(event, "message"@, message)
}

proof fn lemma_message(envelope: Json, own: Seq<char>, nickname: Seq<char>, message: Seq<char>)
    ensures
        is_message(envelope, own, nickname, message) <==> bot::line_in(envelope, own) == Some(
            (nickname, message),
        ),
{
    if is_message(envelope, own, nickname, message) {
        let event = choose|event: Json| #[trigger]
            has_entry(envelope, "event"@, event) && has_text(event, "type"@, "chat_message"@)
                && has_text(event, "nickname"@, nickname) && has_text(event, "message"@, message);
        lemma_entry(envelope, "event"@, event);
        lemma_text(event, "type"@, "chat_message"@);
        lemma_text(event, "nickname"@, nickname);
        lemma_text(event, "message"@, message);
    }
    if bot::line_in(envelope, own) == Some((nickname, message)) {
        let event = json::field(envelope, "event"@)->0;
        lemma_entry(envelope, "event"@, event);
        lemma_text(event, "type"@, "chat_message"@);
        lemma_text(event, "nickname"@, nickname);
        lemma_text(event, "message"@, message);
    }
}

/// Whether nobody else says anything in an event.
pub open spec fn is_silent(envelope: Json, own: Seq<char>) -> bool {
    forall|nickname: Seq<char>, message: Seq<char>|
        !#[trigger] is_message(envelope, own, nickname, message)
}

proof fn lemma_silent(envelope: Json, own: Seq<char>)
    ensures
        is_silent(envelope, own) <==> bot::line_in(envelope, own) is None,
{
    match bot::line_in(envelope, own) {
        Some((nickname, message)) => {
            lemma_message(envelope, own, nickname, message);
        },
        None => {
            assert forall|nickname: Seq<char>, message: Seq<char>|
                !#[trigger] is_message(envelope, own, nickname, message) by {
                lemma_message(envelope, own, nickname, message);
            }
        },
    }
}

proof fn lemma_last_line(events: Seq<Json>, own: Seq<char>, i: int)
    requires
        0 <= i < events.len(),
        forall|j: int| i < j < events.len() ==> bot::line_in(#[trigger] events[j], own) is None,
        bot::line_in(events[i], own) is Some,
    ensures
        bot::last_line_in(events, own) == bot::line_in(events[i], own),
    decreases events.len(),
{
    if i < events.len() - 1 {
        let front = events.drop_last();
        assert(bot::line_in(events[events.len() - 1], own) is None);
        assert forall|j: int| i < j < front.len() implies bot::line_in(
            #[trigger] front[j],
            own,
        ) is None by {
            assert(front[j] == events[j]);
        }
        lemma_last_line(front, own, i);
    }
}

proof fn lemma_no_line(events: Seq<Json>, own: Seq<char>)
    requires
        forall|j: int| 0 <= j < events.len() ==> bot::line_in(#[trigger] events[j], own) is None,
    ensures
        bot::last_line_in(events, own) is None,
    decreases events.len(),
{
    if events.len() > 0 {
        let front = events.drop_last();
        assert(bot::line_in(events[events.len() - 1], own) is None);
        assert forall|j: int| 0 <= j < front.len() implies bot::line_in(
            #[trigger] front[j],
            own,
        ) is None by {
            assert(front[j] == events[j]);
        }
        lemma_no_line(front, own);
    }
}

/// The last message of someone else is the one to answer.
pub proof fn the_last_message_is_answered(
    b: &mut Bot,
    events: &Vec<Json>,
    nickname: &str,
    r: Option<(String, String)>,
    i: int,
    from: Seq<char>,
    message: Seq<char>,
)
    requires
        call_ensures(Bot::read_events, (b, events, nickname), r),
    ensures
        0 <= i < events@.len() && is_message(events@[i], nickname@, from, message) && (forall|
            j: int,
        |
            i < j < events@.len() ==> is_silent(#[trigger] events@[j], nickname@)) ==> (
        r matches Some((nick, said)) && nick@ == from && said@ == message),
        (forall|j: int| 0 <= j < events@.len() ==> is_silent(#[trigger] events@[j], nickname@))
            ==> r is None,
{
    let own = nickname@;
    if 0 <= i < events@.len() && is_message(events@[i], own, from, message) && (forall|j: int|
        i < j < events@.len() ==> is_silent(#[trigger] events@[j], own)) {
        lemma_message(events@[i], own, from, message);
        assert forall|j: int| i < j < events@.len() implies bot::line_in(
            #[trigger] events@[j],
            own,
        ) is None by {
            lemma_silent(events@[j], own);
        }
        lemma_last_line(events@, own, i);
    }
    if forall|j: int| 0 <= j < events@.len() ==> is_silent(#[trigger] events@[j], own) {
        assert forall|j: int| 0 <= j < events@.len() implies bot::line_in(
            #[trigger] events@[j],
            own,
        ) is None by {
            lemma_silent(events@[j], own);
        }
        lemma_no_line(events@, own);
    }
}

/// One event read: its number is the last one, if it is above those before, and a
/// message of someone else is the newest of the lines kept, of which there are 20.
/// Nothing else changes.
pub proof fn events_are_taken_in(
    b: &mut Bot,
    events: &Vec<Json>,
    nickname: &str,
    r: Option<(String, String)>,
    last: u64,
)
    requires
        events@.len() == 1,
        call_ensures(Bot::read_events, (b, events, nickname), r),
        call_ensures(Bot::last_event_id, (&*final(b),), last),
    ensures
        last >= old(b)@.last_event_id,
        json::field(events@[0], "id"@) matches Some(Json::Number(n)) ==> n.unsigned matches Some(
            id,
        ) ==> last == if id > old(b)@.last_event_id {
            id
        } else {
            old(b)@.last_event_id
        },
        has_no_entry(events@[0], "id"@) ==> last == old(b)@.last_event_id,
        final(b)@ == (BotView {
            last_event_id: last,
            recent_chat: final(b)@.recent_chat,
            ..old(b)@
        }),
        is_silent(events@[0], nickname@) ==> final(b)@.recent_chat == old(b)@.recent_chat,
        r matches Some((from, message)) ==> {
            let was = old(b)@.recent_chat;
            let now = final(b)@.recent_chat;
            &&& is_message(events@[0], nickname@, from@, message@)
            &&& now.last() == (from@, message@)
            &&& was.len() < 20 ==> now.len() == was.len() + 1
            &&& was.len() >= 20 ==> now.len() == 20
            &&& forall|k: int|
                1 <= k < now.len() ==> #[trigger] now[now.len() - 1 - k] == was[was.len() - k]
        },
{
    let front = events@.drop_last();
    assert(bot::having_read(old(b)@, front, nickname@) == old(b)@);
    assert(bot::last_line_in(front, nickname@) is None);
    lemma_silent(events@[0], nickname@);
    documents::lemma_field(events@[0], "id"@);
    if has_no_entry(events@[0], "id"@) {
        if let Some(v) = json::field(events@[0], "id"@) {
            lemma_entry(events@[0], "id"@, v);
        }
    }
    if let Some((from, message)) = r {
        lemma_message(events@[0], nickname@, from@, message@);
    }
}

proof fn lemma_having_read(b: BotView, x: Seq<Json>, y: Seq<Json>, own: Seq<char>)
    ensures
        bot::having_read(b, x + y, own) == bot::having_read(bot::having_read(b, x, own), y, own),
    decreases y.len(),
{
    if y.len() == 0 {
        assert(x + y =~= x);
    } else {
        assert((x + y).drop_last() =~= x + y.drop_last());
        lemma_having_read(b, x, y.drop_last(), own);
    }
}

/// Events read in two goes leave the bot as if read in one.
pub proof fn events_may_be_read_piece_by_piece(
    whole: &mut Bot,
    all: &Vec<Json>,
    nickname: &str,
    r: Option<(String, String)>,
    first: &mut Bot,
    x: &Vec<Json>,
    r1: Option<(String, String)>,
    second: &mut Bot,
    y: &Vec<Json>,
    r2: Option<(String, String)>,
)
    requires
        all@ == x@ + y@,
        call_ensures(Bot::read_events, (whole, all, nickname), r),
        *old(first) == *old(whole),
        call_ensures(Bot::read_events, (first, x, nickname), r1),
        *old(second) == *final(first),
        call_ensures(Bot::read_events, (second, y, nickname), r2),
    ensures
        final(whole)@ == final(second)@,
{
    lemma_having_read(old(whole)@, x@, y@, nickname@);
}

/// A bot starts with nothing read, said or greeted.
pub proof fn bots_start_fresh(b: Bot, last: u64)
    requires
        call_ensures(Bot::new, (), b),
        call_ensures(Bot::last_event_id, (&b,), last),
    ensures
        last == 0,
        b@.recent_chat.len() == 0,
        b@.last_llm_ms == 0 && b@.last_move_ms == 0 && b@.last_sent_chat_ms == 0,
        b@.last_sent_chat_text.len() == 0,
        forall|name: Seq<char>| !#[trigger] b@.greeted.contains_key(name),
{
}

/// The lines kept are shown oldest first, each with its author.
pub proof fn kept_lines_are_shown(b: &Bot, r: String, lines: &Vec<String>, stacked: String)
    requires
        call_ensures(Bot::chat_text, (b,), r),
        lines@.len() == b@.recent_chat.len(),
        forall|i: int|
            0 <= i < lines@.len() ==> (#[trigger] lines@[i])@ == b@.recent_chat[i].0 + ": "@
                + b@.recent_chat[i].1,
        call_ensures(chat::stack, (lines,), stacked),
    ensures
        r@ == texts::joined(text::texts(lines@), '\n'),
{
    let shown = b@.recent_chat.map_values(|l: (Seq<char>, Seq<char>)| chat::quoted(l.0, l.1));
    assert forall|i: int| 0 <= i < lines@.len() implies shown[i] == text::texts(lines@)[i] by {
        assert(lines@[i]@ == shown[i]);
    }
    assert(shown =~= text::texts(lines@));
    lines_stand_in_order(lines, stacked);
}

// ----------------------------------------------------------------------- acting

/// Whether the bot may speak: its interval has passed since it last spoke.
pub open spec fn may_speak(b: BotView, h: BotHabits, now: u64) -> bool {
    h.min_chat_interval_ms == 0 || b.last_sent_chat_ms + h.min_chat_interval_ms <= now
}

/// Whoever comes within three is greeted by name, if the bot may speak, and once.
pub proof fn neighbours_are_greeted_once(
    b: &mut Bot,
    h: &BotHabits,
    nearest: &Option<(String, Scalar)>,
    now: u64,
    r: Option<String>,
    c: &mut Bot,
    other: &Option<(String, Scalar)>,
    later: u64,
    again: Option<String>,
)
    requires
        call_ensures(Bot::greet, (b, h, nearest, now), r),
        *old(c) == *final(b),
        call_ensures(Bot::greet, (c, h, other, later), again),
    ensures
        r is Some <==> (*nearest matches Some((name, dist)) && is_number(dist) && !is_less(
            Scalar { bits: 0x4040_0000 },
            dist,
        ) && !old(b)@.greeted.contains_key(name@)) && may_speak(old(b)@, *h, now),
        r matches Some(m) ==> m@ == "hey "@ + (nearest->0).0@ + " :)"@,
        r is Some && *other is Some && (other->0).0@ == (nearest->0).0@ ==> again is None,
        r matches Some(m) ==> final(b)@ == (BotView {
            greeted: old(b)@.greeted.insert((nearest->0).0@, now),
            last_sent_chat_ms: now,
            last_sent_chat_text: m@,
            ..old(b)@
        }),
        r is None ==> final(b)@ == old(b)@,
{
    if let Some((name, dist)) = *nearest {
        numbers::lemma_is_less(dist, Scalar { bits: 0x4040_0000 });
    }
}

/// The model is asked more than a second and a half after the last answer, if a
/// message came that calls the bot, or any if it replies to all; and when the bot's
/// own tick has passed.
pub proof fn models_are_asked_when_there_is_cause(
    b: &Bot,
    h: &BotHabits,
    last_line: &Option<(String, String)>,
    now: u64,
    r: bool,
    name: &str,
    message: &str,
    addressed: bool,
)
    requires
        call_ensures(Bot::wants_llm, (b, h, last_line, now), r),
        name@ == h.nickname@,
        *last_line matches Some((_, m)) ==> message@ == m@,
        call_ensures(chat::bot_addressed, (name, message), addressed),
    ensures
        r <==> (*last_line is Some && now > b@.last_llm_ms + 1_500 && (h.reply_to_all || addressed))
            || (h.llm_tick_ms > 0 && now > b@.last_llm_ms + h.llm_tick_ms),
{
}

/// What the model wants said is said, without white space around it, if there are
/// words in it, the bot may speak, and it differs from the last thing said in more
/// than case. The model walks where it says; if it does not walk, a bot that
/// approaches goes to the nearest who is more than two away, if it has not moved
/// for more than two seconds.
pub proof fn answers_are_acted_on(
    b: &mut Bot,
    h: &BotHabits,
    action: &Json,
    nearest: &Option<(Point, Scalar)>,
    now: u64,
    r: BotPlan,
    wanted: Option<String>,
    walk: Option<(Point, Scalar)>,
    m: &str,
    last: &str,
    small: String,
    small_last: String,
    place: Point,
)
    requires
        call_ensures(Bot::take_answer, (b, h, action, nearest, now), r),
        call_ensures(llm::say_in, (action,), wanted),
        call_ensures(llm::goto_in, (action, h.approach_speed), walk),
        wanted matches Some(t) ==> texts::is_core(t@, m@),
        last@ == old(b)@.last_sent_chat_text,
        call_ensures(chat::norm_ascii, (m,), small),
        call_ensures(chat::norm_ascii, (last,), small_last),
    ensures
        r.walk == walk,
        r.say is Some <==> wanted is Some && m@.len() > 0 && small@ != small_last@ && may_speak(
            old(b)@,
            *h,
            now,
        ),
        r.say matches Some(t) ==> t@ == m@,
        r.approach == Some(place) <==> h.auto_approach && walk is None && now
            > old(b)@.last_move_ms + 2_000 && (*nearest matches Some((at, dist)) && at == place
            && is_less(Scalar { bits: 0x4000_0000 }, dist)),
        r.say matches Some(t) ==> final(b)@ == (BotView {
            last_llm_ms: now,
            last_sent_chat_ms: now,
            last_sent_chat_text: t@,
            ..old(b)@
        }),
        r.say is None ==> final(b)@ == (BotView { last_llm_ms: now, ..old(b)@ }),
{
    if let Some(t) = wanted {
        texts::lemma_trimmed_is_core(t@);
        texts::lemma_one_core(t@, m@, text::trimmed(t@));
    }
    if let Some((at, dist)) = *nearest {
        numbers::lemma_is_less(Scalar { bits: 0x4000_0000 }, dist);
    }
}

/// A failed question and a walk are remembered with their time.
pub proof fn failures_and_walks_are_remembered(b: &mut Bot, now: u64, c: &mut Bot)
    requires
        call_ensures(Bot::llm_failed, (b, now), ()),
        call_ensures(Bot::walked, (c, now), ()),
    ensures
        final(b)@ == (BotView { last_llm_ms: now, ..old(b)@ }),
        final(c)@ == (BotView { last_move_ms: now, ..old(c)@ }),
{
}

// ----------------------------------------------------------------------- looking

/// The addresses of the bridge: what is asked stands behind its own.
pub proof fn bridges_are_reached_at_their_address(
    base: &str,
    agent_id: u64,
    command: &str,
    after: u64,
    limit: u64,
    health: String,
    state: String,
    agents: String,
    to_command: String,
    events: String,
)
    requires
        call_ensures(bot::health_url, (base,), health),
        call_ensures(bot::state_url, (base,), state),
        call_ensures(bot::agents_url, (base,), agents),
        call_ensures(bot::command_url, (base, agent_id, command), to_command),
        call_ensures(bot::events_url, (base, after, limit), events),
    ensures
        health@ == base@ + "/health"@,
        state@ == base@ + "/api/v1/state"@,
        agents@ == base@ + "/api/v1/agents"@,
        to_command@ == base@ + "/api/v1/agents/"@ + text::decimal(agent_id as nat) + "/command/"@
            + command@,
        events@ == base@ + "/api/v1/events?after="@ + text::decimal(after as nat) + "&limit="@
            + text::decimal(limit as nat),
{
}

/// The number of an agent is the one under `agentId`, and a reply without one is
/// refused.
pub proof fn agent_numbers_are_read(reply: &Json, r: Result<u64, &'static str>, n: u64, value: Json)
    requires
        call_ensures(bot::agent_id_in, (reply,), r),
    ensures
        has_entry(*reply, "agentId"@, value) ==> match value {
            Json::Number(number) => match number.unsigned {
                Some(id) => r == Ok::<u64, &'static str>(id),
                None => r is Err,
            },
            _ => r is Err,
        },
        has_no_entry(*reply, "agentId"@) ==> r is Err,
        r matches Err(e) ==> e@ == "bridge response missing agentId"@,
{
    lemma_entry(*reply, "agentId"@, value);
    documents::lemma_field(*reply, "agentId"@);
    if has_no_entry(*reply, "agentId"@) {
        if let Some(v) = json::field(*reply, "agentId"@) {
            lemma_entry(*reply, "agentId"@, v);
        }
    }
}

/// Whether a client's document bears a name, but for the white space around it.
pub open spec fn is_named(info: Json, name: Seq<char>) -> bool {
    exists|t: Seq<char>| #[trigger] has_text(info, "nickname"@, t) && texts::is_core(t, name)
}

proof fn lemma_named(info: Json, name: Seq<char>)
    ensures
        is_named(info, name) <==> bot::bears(info, name),
        name.len() > 0 ==> (is_named(info, name) <==> text::trimmed(
            json::text_field_or_empty(info, "nickname"@),
        ) == name),
{
    if is_named(info, name) {
        let t = choose|t: Seq<char>| #[trigger]
            has_text(info, "nickname"@, t) && texts::is_core(t, name);
        lemma_text(info, "nickname"@, t);
        texts::lemma_trimmed_is_core(t);
        texts::lemma_one_core(t, name, text::trimmed(t));
    }
    if bot::bears(info, name) {
        let t = json::text_field(info, "nickname"@)->0;
        lemma_text(info, "nickname"@, t);
        texts::lemma_trimmed_is_core(t);
        assert(has_text(info, "nickname"@, t) && texts::is_core(t, name));
    }
    texts::lemma_trimmed_is_core(Seq::<char>::empty());
}

/// A bot sees itself exactly if one of the clients bears its name; one without a
/// name always does.
pub proof fn bots_see_their_name(
    state: &Json,
    nickname: &str,
    name: Seq<char>,
    clients: Vec<(String, Json)>,
    r: bool,
)
    requires
        call_ensures(bot::nickname_visible, (state, nickname), r),
        texts::is_core(nickname@, name),
        has_entry(*state, "clients"@, Json::Object(clients)),
    ensures
        r <==> name.len() == 0 || exists|i: int|
            0 <= i < clients@.len() && is_named((#[trigger] clients@[i]).1, name),
{
    texts::lemma_trimmed_is_core(nickname@);
    texts::lemma_one_core(nickname@, name, text::trimmed(nickname@));
    lemma_entry(*state, "clients"@, Json::Object(clients));
    assert forall|i: int| 0 <= i < clients@.len() implies (is_named(
        (#[trigger] clients@[i]).1,
        name,
    ) <==> bot::bears(clients@[i].1, name)) by {
        lemma_named(clients@[i].1, name);
    }
}

/// The number that a document is, or zero.
pub open spec fn reads_as(doc: Json, s: Scalar) -> bool {
    match doc {
        Json::Number(n) => s == n.single,
        _ => s.bits == 0,
    }
}

/// Whether a client's document names someone and three coordinates.
pub open spec fn is_client(info: Json, name: Seq<char>, at: Point) -> bool {
    &&& name.len() > 0
    &&& is_named(info, name)
    &&& exists|p: Vec<Json>| #[trigger]
        has_entry(info, "position"@, Json::Array(p)) && p@.len() == 3 && reads_as(p@[0], at.x)
            && reads_as(p@[1], at.y) && reads_as(p@[2], at.z)
}

proof fn lemma_client(info: Json, name: Seq<char>, at: Point)
    ensures
        is_client(info, name, at) <==> bot::client_in(info) == Some((name, at)),
{
    lemma_named(info, name);
    if is_client(info, name, at) {
        let p = choose|p: Vec<Json>| #[trigger]
            has_entry(info, "position"@, Json::Array(p)) && p@.len() == 3 && reads_as(p@[0], at.x)
                && reads_as(p@[1], at.y) && reads_as(p@[2], at.z);
        lemma_entry(info, "position"@, Json::Array(p));
        assert(at == (bot::client_in(info)->0).1);
    }
    if bot::client_in(info) == Some((name, at)) {
        let p = json::field(info, "position"@)->0->Array_0;
        lemma_entry(info, "position"@, Json::Array(p));
    }
}

proof fn lemma_clients(entries: Seq<(String, Json)>, name: Seq<char>, at: Point)
    ensures
        bot::clients_in(entries).contains((name, at)) <==> exists|i: int|
            0 <= i < entries.len() && is_client((#[trigger] entries[i]).1, name, at),
    decreases entries.len(),
{
    if entries.len() > 0 {
        let front = entries.drop_last();
        let before = bot::clients_in(front);
        let all = bot::clients_in(entries);
        lemma_clients(front, name, at);
        lemma_client(entries.last().1, name, at);
        if before.contains((name, at)) {
            let k = choose|k: int| 0 <= k < before.len() && before[k] == (name, at);
            assert(all[k] == (name, at));
            let i = choose|i: int|
                0 <= i < front.len() && is_client((#[trigger] front[i]).1, name, at);
            assert(entries[i] == front[i]);
        }
        if bot::client_in(entries.last().1) == Some((name, at)) {
            assert(all[all.len() - 1] == (name, at));
            assert(is_client(entries[entries.len() - 1].1, name, at));
        }
        if all.contains((name, at)) && !before.contains((name, at)) {
            let k = choose|k: int| 0 <= k < all.len() && all[k] == (name, at);
            assert(k == before.len());
        }
        if exists|i: int| 0 <= i < entries.len() && is_client((#[trigger] entries[i]).1, name, at) {
            let i = choose|i: int|
                0 <= i < entries.len() && is_client((#[trigger] entries[i]).1, name, at);
            if i < front.len() {
                assert(front[i] == entries[i]);
            }
        }
    }
}

/// Whether a list has someone at a place.
pub open spec fn has_at(list: Seq<(String, Point)>, name: Seq<char>, at: Point) -> bool {
    exists|k: int| 0 <= k < list.len() && (#[trigger] list[k]).0@ == name && list[k].1 == at
}

proof fn lemma_has_at(list: Seq<(String, Point)>, name: Seq<char>, at: Point)
    ensures
        has_at(list, name, at) <==> bot::placed(list).contains((name, at)),
{
    let all = bot::placed(list);
    if has_at(list, name, at) {
        let k = choose|k: int|
            0 <= k < list.len() && (#[trigger] list[k]).0@ == name && list[k].1 == at;
        assert(all[k] == (name, at));
    }
    if all.contains((name, at)) {
        let k = choose|k: int| 0 <= k < all.len() && all[k] == (name, at);
        assert(list[k].0@ == name && list[k].1 == at);
    }
}

/// The clients are those of the state that have a name and three coordinates, and
/// nobody else; a state without clients has none.
pub proof fn clients_are_read_from_the_state(
    state: &Json,
    clients: Vec<(String, Json)>,
    r: Vec<(String, Point)>,
    name: Seq<char>,
    at: Point,
)
    requires
        call_ensures(bot::extract_clients, (state,), r),
    ensures
        has_entry(*state, "clients"@, Json::Object(clients)) ==> (has_at(r@, name, at)
            <==> exists|i: int|
            0 <= i < clients@.len() && is_client((#[trigger] clients@[i]).1, name, at)),
        has_no_entry(*state, "clients"@) ==> r@.len() == 0,
{
    lemma_has_at(r@, name, at);
    lemma_entry(*state, "clients"@, Json::Object(clients));
    lemma_clients(clients@, name, at);
    assert(bot::placed(r@).len() == r@.len());
    if has_no_entry(*state, "clients"@) {
        if let Some(v) = json::field(*state, "clients"@) {
            lemma_entry(*state, "clients"@, v);
        }
    }
}

/// Clients stand in the order of the state: one more entry comes last, if it is a
/// client.
pub proof fn clients_stay_in_order(
    state: &Json,
    longer: &Json,
    clients: Vec<(String, Json)>,
    more: Vec<(String, Json)>,
    entry: (String, Json),
    r: Vec<(String, Point)>,
    r_longer: Vec<(String, Point)>,
    name: Seq<char>,
    at: Point,
)
    requires
        call_ensures(bot::extract_clients, (state,), r),
        call_ensures(bot::extract_clients, (longer,), r_longer),
        has_entry(*state, "clients"@, Json::Object(clients)),
        has_entry(*longer, "clients"@, Json::Object(more)),
        more@ == clients@.push(entry),
    ensures
        is_client(entry.1, name, at) ==> r_longer@.len() == r@.len() + 1 && r_longer@.last().0@
            == name && r_longer@.last().1 == at,
        (forall|n: Seq<char>, p: Point| !#[trigger] is_client(entry.1, n, p)) ==> r_longer@.len()
            == r@.len(),
        forall|k: int|
            0 <= k < r@.len() ==> k < r_longer@.len() && (#[trigger] r_longer@[k]).0@ == r@[k].0@
                && r_longer@[k].1 == r@[k].1,
{
    lemma_entry(*state, "clients"@, Json::Object(clients));
    lemma_entry(*longer, "clients"@, Json::Object(more));
    assert(more@.drop_last() =~= clients@);
    lemma_client(entry.1, name, at);
    let a = bot::placed(r@);
    let b = bot::placed(r_longer@);
    assert(a.len() == r@.len() && b.len() == r_longer@.len());
    if let Some((n, p)) = bot::client_in(entry.1) {
        lemma_client(entry.1, n, p);
        assert(b.last() == (r_longer@.last().0@, r_longer@.last().1));
    }
    assert forall|k: int| 0 <= k < r@.len() implies k < r_longer@.len() && (
    #[trigger] r_longer@[k]).0@ == r@[k].0@ && r_longer@[k].1 == r@[k].1 by {
        assert(a[k] == b[k]);
        assert(a[k] == (r@[k].0@, r@[k].1));
        assert(b[k] == (r_longer@[k].0@, r_longer@[k].1));
    }
}

proof fn lemma_own_spot(list: Seq<(Seq<char>, Point)>, name: Seq<char>, i: int)
    requires
        0 <= i < list.len(),
        list[i].0 == name,
        forall|j: int| 0 <= j < i ==> (#[trigger] list[j]).0 != name,
    ensures
        bot::own_spot(list, name) == list[i].1,
    decreases list.len(),
{
    if i > 0 {
        let rest = list.drop_first();
        assert(list[0].0 != name);
        assert(rest[i - 1] == list[i]);
        assert forall|j: int| 0 <= j < i - 1 implies (#[trigger] rest[j]).0 != name by {
            assert(rest[j] == list[j + 1]);
        }
        lemma_own_spot(rest, name, i - 1);
    }
}

proof fn lemma_no_spot(list: Seq<(Seq<char>, Point)>, name: Seq<char>)
    requires
        forall|j: int| 0 <= j < list.len() ==> (#[trigger] list[j]).0 != name,
    ensures
        bot::own_spot(list, name) == (Point {
            x: Scalar { bits: 0 },
            y: Scalar { bits: 0 },
            z: Scalar { bits: 0 },
        }),
    decreases list.len(),
{
    if list.len() > 0 {
        let rest = list.drop_first();
        assert(list[0].0 != name);
        assert forall|j: int| 0 <= j < rest.len() implies (#[trigger] rest[j]).0 != name by {
            assert(rest[j] == list[j + 1]);
        }
        lemma_no_spot(rest, name);
    }
}

/// A bot is where the first client of its name is, or in the middle of the space if
/// there is none; the others are the clients of any other name, and nobody else.
pub proof fn bots_tell_themselves_from_others(
    clients: &Vec<(String, Point)>,
    nickname: &str,
    r: (Point, Vec<(String, Point)>),
    i: int,
    name: Seq<char>,
    at: Point,
)
    requires
        call_ensures(bot::look_around, (clients, nickname), r),
    ensures
        0 <= i < clients@.len() && clients@[i].0@ == nickname@ && (forall|j: int|
            0 <= j < i ==> (#[trigger] clients@[j]).0@ != nickname@) ==> r.0 == clients@[i].1,
        (forall|j: int| 0 <= j < clients@.len() ==> (#[trigger] clients@[j]).0@ != nickname@)
            ==> r.0.x.bits == 0 && r.0.y.bits == 0 && r.0.z.bits == 0,
        has_at(r.1@, name, at) <==> has_at(clients@, name, at) && name != nickname@,
{
    let all = bot::placed(clients@);
    let keep = |c: (Seq<char>, Point)| c.0 != nickname@;
    assert forall|j: int| 0 <= j < clients@.len() implies all[j] == (
        (#[trigger] clients@[j]).0@,
        clients@[j].1,
    ) by {}
    if 0 <= i < clients@.len() && clients@[i].0@ == nickname@ && (forall|j: int|
        0 <= j < i ==> (#[trigger] clients@[j]).0@ != nickname@) {
        assert forall|j: int| 0 <= j < i implies (#[trigger] all[j]).0 != nickname@ by {
            assert(clients@[j].0@ != nickname@);
        }
        lemma_own_spot(all, nickname@, i);
    }
    if forall|j: int| 0 <= j < clients@.len() ==> (#[trigger] clients@[j]).0@ != nickname@ {
        assert forall|j: int| 0 <= j < all.len() implies (#[trigger] all[j]).0 != nickname@ by {
            assert(clients@[j].0@ != nickname@);
        }
        lemma_no_spot(all, nickname@);
    }
    lemma_has_at(r.1@, name, at);
    lemma_has_at(clients@, name, at);
    let kept = all.filter(keep);
    if kept.contains((name, at)) {
        let k = choose|k: int| 0 <= k < kept.len() && kept[k] == (name, at);
        all.lemma_filter_pred(keep, k);
        all.lemma_filter_contains_rev(keep, (name, at));
    }
    if all.contains((name, at)) && name != nickname@ {
        let k = choose|k: int| 0 <= k < all.len() && all[k] == (name, at);
        all.lemma_filter_contains(keep, k);
    }
}

/// Of the others, the one at the least distance is picked.
pub proof fn the_nearest_is_picked(
    others: &Vec<(String, Point)>,
    dists: &Vec<Scalar>,
    r: Option<usize>,
    i: Option<usize>,
)
    requires
        others@.len() == dists@.len(),
        call_ensures(bot::pick_nearest, (others, dists), r),
        call_ensures(world::nearest, (dists,), i),
    ensures
        r == i,
        r is Some <==> others@.len() > 0,
{
}

// --------------------------------------------------------------------- settings

proof fn lemma_option(args: Seq<Seq<char>>, key: Seq<char>, from: int, i: int)
    requires
        0 <= from <= i < args.len(),
        forall|j: int|
            from <= j < i ==> #[trigger] args[j] != "--"@ + key && !("--"@ + key
                + "="@).is_prefix_of(args[j]),
    ensures
        settings::option_in(args, key, from) == settings::option_in(args, key, i),
    decreases i - from,
{
    if from < i {
        assert(args[from] != "--"@ + key);
        lemma_option(args, key, from + 1, i);
    }
}

proof fn lemma_no_option(args: Seq<Seq<char>>, key: Seq<char>, from: int)
    requires
        0 <= from <= args.len(),
        forall|j: int|
            from <= j < args.len() ==> #[trigger] args[j] != "--"@ + key && !("--"@ + key
                + "="@).is_prefix_of(args[j]),
    ensures
        settings::option_in(args, key, from) is None,
    decreases args.len() - from,
{
    if from < args.len() {
        assert(args[from] != "--"@ + key);
        lemma_no_option(args, key, from + 1);
    }
}

/// Whether an argument gives an option.
pub open spec fn gives(arg: Seq<char>, key: Seq<char>) -> bool {
    arg == "--"@ + key || exists|v: Seq<char>| arg == #[trigger] ("--"@ + key + "="@ + v)
}

proof fn lemma_gives(arg: Seq<char>, key: Seq<char>)
    ensures
        gives(arg, key) <==> arg == "--"@ + key || ("--"@ + key + "="@).is_prefix_of(arg),
{
    let long = "--"@ + key + "="@;
    if long.is_prefix_of(arg) {
        assert(arg =~= long + arg.skip(long.len() as int));
    }
    if exists|v: Seq<char>| arg == #[trigger] ("--"@ + key + "="@ + v) {
        assert(long =~= arg.subrange(0, long.len() as int));
    }
}

/// An option is read from the first argument that gives it: what stands behind its
/// equals sign, or the next argument; without one there is none.
pub proof fn options_are_read(
    args: &Vec<String>,
    key: &str,
    r: Option<String>,
    i: int,
    v: Seq<char>,
)
    requires
        call_ensures(settings::get_arg_value, (args, key), r),
        0 <= i < args@.len(),
        gives(args@[i]@, key@),
        forall|j: int| 0 <= j < i ==> !gives((#[trigger] args@[j])@, key@),
    ensures
        args@[i]@ == "--"@ + key@ + "="@ + v ==> (r matches Some(t) && t@ == v),
        args@[i]@ == "--"@ + key@ && i + 1 < args@.len() ==> (r matches Some(t) && t@ == args@[i
            + 1]@),
        args@[i]@ == "--"@ + key@ && i + 1 == args@.len() ==> r is None,
{
    let all = text::texts(args@);
    let long = "--"@ + key@ + "="@;
    assert forall|j: int| 0 <= j < i implies #[trigger] all[j] != "--"@ + key@
        && !long.is_prefix_of(all[j]) by {
        lemma_gives(args@[j]@, key@);
        assert(!gives(args@[j]@, key@));
    }
    lemma_option(all, key@, 0, i);
    lemma_gives(args@[i]@, key@);
    reveal_strlit("=");
    if args@[i]@ == "--"@ + key@ + "="@ + v {
        assert(args@[i]@.skip(long.len() as int) =~= v);
        assert(args@[i]@.len() > ("--"@ + key@).len());
    }
}

/// An option that no argument gives is not set.
pub proof fn missing_options_are_not_set(args: &Vec<String>, key: &str, r: Option<String>)
    requires
        call_ensures(settings::get_arg_value, (args, key), r),
        forall|j: int| 0 <= j < args@.len() ==> !gives((#[trigger] args@[j])@, key@),
    ensures
        r is None,
{
    let all = text::texts(args@);
    assert forall|j: int| 0 <= j < all.len() implies #[trigger] all[j] != "--"@ + key@ && !("--"@
        + key@ + "="@).is_prefix_of(all[j]) by {
        lemma_gives(args@[j]@, key@);
        assert(!gives(args@[j]@, key@));
    }
    lemma_no_option(all, key@, 0);
}

/// A switch is on exactly if it says `1`, `true`, `yes`, `y` or `on`, but for case
/// and the white space around it; one that says nothing is as by default.
pub proof fn switches_say_yes(
    value: Option<String>,
    default: bool,
    r: bool,
    core: &str,
    small: String,
)
    requires
        call_ensures(settings::env_bool, (value, default), r),
        value matches Some(v) ==> texts::is_core(v@, core@),
        call_ensures(text::to_ascii_lowercase, (core,), small),
    ensures
        value is None ==> r == default,
        value is Some && core@.len() == 0 ==> r == default,
        value is Some && core@.len() > 0 ==> r == (small@ == "1"@ || small@ == "true"@ || small@
            == "yes"@ || small@ == "y"@ || small@ == "on"@),
{
    texts::lemma_trimmed_is_core(Seq::<char>::empty());
    if let Some(v) = value {
        texts::lemma_trimmed_is_core(v@);
        texts::lemma_one_core(v@, core@, text::trimmed(v@));
    }
}

/// Whether a variable is set to something else than white space.
pub open spec fn is_set(value: Option<String>) -> bool {
    value matches Some(v) && !texts::is_core(v@, Seq::<char>::empty())
}

proof fn lemma_set(v: Seq<char>)
    ensures
        texts::is_core(v, Seq::<char>::empty()) <==> text::trimmed(v).len() == 0,
{
    texts::lemma_trimmed_is_core(v);
    if texts::is_core(v, Seq::<char>::empty()) {
        texts::lemma_one_core(v, Seq::<char>::empty(), text::trimmed(v));
    }
    if text::trimmed(v).len() == 0 {
        assert(text::trimmed(v) =~= Seq::<char>::empty());
    }
}

proof fn lemma_first_set(values: Seq<Option<String>>, i: int)
    requires
        0 <= i < values.len(),
        is_set(values[i]),
        forall|j: int| 0 <= j < i ==> !is_set(#[trigger] values[j]),
    ensures
        settings::first_set(settings::opt_texts(values)) == Some(values[i]->0@),
    decreases values.len(),
{
    let all = settings::opt_texts(values);
    if let Some(v) = values[0] {
        lemma_set(v@);
    }
    assert(all[0] == text::opt_text(values[0]));
    if i > 0 {
        assert(!is_set(values[0]));
        let rest = values.drop_first();
        assert(all.drop_first() =~= settings::opt_texts(rest));
        assert(rest[i - 1] == values[i]);
        assert forall|j: int| 0 <= j < i - 1 implies !is_set(#[trigger] rest[j]) by {
            assert(rest[j] == values[j + 1]);
        }
        lemma_first_set(rest, i - 1);
    }
}

proof fn lemma_none_set(values: Seq<Option<String>>)
    requires
        forall|j: int| 0 <= j < values.len() ==> !is_set(#[trigger] values[j]),
    ensures
        settings::first_set(settings::opt_texts(values)) is None,
    decreases values.len(),
{
    let all = settings::opt_texts(values);
    if values.len() > 0 {
        if let Some(v) = values[0] {
            lemma_set(v@);
        }
        assert(all[0] == text::opt_text(values[0]));
        assert(!is_set(values[0]));
        let rest = values.drop_first();
        assert(all.drop_first() =~= settings::opt_texts(rest));
        assert forall|j: int| 0 <= j < rest.len() implies !is_set(#[trigger] rest[j]) by {
            assert(rest[j] == values[j + 1]);
        }
        lemma_none_set(rest);
    }
}

/// Of some variables the first that is set counts, as it was set; where none is, an
/// error names them.
pub proof fn the_first_variable_set_counts(
    names: &Vec<String>,
    values: &Vec<Option<String>>,
    r: Result<String, String>,
    i: int,
)
    requires
        call_ensures(settings::env_required_any, (names, values), r),
    ensures
        0 <= i < values@.len() && is_set(values@[i]) && (forall|j: int|
            0 <= j < i ==> !is_set(#[trigger] values@[j])) ==> (r matches Ok(v) && v@
            == values@[i]->0@),
        (forall|j: int| 0 <= j < values@.len() ==> !is_set(#[trigger] values@[j])) ==> r is Err,
        r matches Err(m) ==> exists|rest: Seq<char>|
            m@ == #[trigger] ("missing required env var (one of): "@ + rest),
        r matches Err(m) ==> names@.len() == 1 ==> m@ == "missing required env var (one of): "@
            + names@[0]@,
        r matches Err(m) ==> names@.len() == 2 ==> m@ == "missing required env var (one of): "@ + (
        names@[0]@ + ", "@ + names@[1]@),
{
    if 0 <= i < values@.len() && is_set(values@[i]) && (forall|j: int|
        0 <= j < i ==> !is_set(#[trigger] values@[j])) {
        lemma_first_set(values@, i);
    }
    if forall|j: int| 0 <= j < values@.len() ==> !is_set(#[trigger] values@[j]) {
        lemma_none_set(values@);
    }
    let all = text::texts(names@);
    if r is Err {
        assert(r->Err_0@ == "missing required env var (one of): "@ + settings::listed(all));
        if names@.len() == 2 {
            assert(all.drop_last().len() == 1);
            assert(settings::listed(all.drop_last()) == all[0]);
        }
    }
}

/// A number is read if it is one, and a text taken if it is there; else the default
/// stands.
pub proof fn defaults_stand_in(
    value: Option<String>,
    default: u64,
    n: u64,
    text_default: &str,
    t: String,
    number: nat,
)
    requires
        call_ensures(settings::parse_u64, (value, default), n),
        call_ensures(settings::or_default, (value, text_default), t),
    ensures
        value is None ==> n == default && t@ == text_default@,
        value matches Some(v) ==> t@ == v@ && (text::number(v@, u64::MAX as nat) == Some(number)
            ==> n == number) && (text::number(v@, u64::MAX as nat) is None ==> n == default),
{
}

/// A tick of the model is the argument if given, else the variable, else the
/// default.
pub proof fn arguments_come_before_variables(
    arg: Option<String>,
    env: Option<String>,
    default: u64,
    r: u64,
    by_arg: u64,
    by_env: u64,
)
    requires
        call_ensures(settings::llm_tick, (arg, env, default), r),
        call_ensures(settings::parse_u64, (arg, default), by_arg),
        call_ensures(settings::parse_u64, (env, default), by_env),
    ensures
        arg is Some ==> r == by_arg,
        arg is None ==> r == by_env,
{
}

/// The pace is what was asked for within its limits: ticks of 50 to 2000
/// milliseconds, 200 by default; a first wait of 100 to 30000, 500 by default; and
/// a longest wait from that up to 120000, 10000 by default.
pub proof fn paces_are_kept_within_limits(
    tick_ms: Option<String>,
    reconnect_base_ms: Option<String>,
    reconnect_max_ms: Option<String>,
    r: Pace,
    tick: u64,
    base: u64,
    max: u64,
)
    requires
        call_ensures(settings::read_pace, (tick_ms, reconnect_base_ms, reconnect_max_ms), r),
        call_ensures(settings::parse_u64, (tick_ms, 200u64), tick),
        call_ensures(settings::parse_u64, (reconnect_base_ms, 500u64), base),
        call_ensures(settings::parse_u64, (reconnect_max_ms, 10_000u64), max),
    ensures
        50 <= r.tick_ms <= 2_000,
        50 <= tick <= 2_000 ==> r.tick_ms == tick,
        tick < 50 ==> r.tick_ms == 50,
        tick > 2_000 ==> r.tick_ms == 2_000,
        100 <= r.reconnect_base_ms <= 30_000,
        100 <= base <= 30_000 ==> r.reconnect_base_ms == base,
        base < 100 ==> r.reconnect_base_ms == 100,
        base > 30_000 ==> r.reconnect_base_ms == 30_000,
        r.reconnect_base_ms <= r.reconnect_max_ms <= 120_000,
        r.reconnect_base_ms <= max <= 120_000 ==> r.reconnect_max_ms == max,
        max < r.reconnect_base_ms ==> r.reconnect_max_ms == r.reconnect_base_ms,
        max > 120_000 ==> r.reconnect_max_ms == 120_000,
{
}

/// A number is limited to the nearest within the limits.
pub proof fn limits_are_kept(n: u64, low: u64, high: u64, r: u64)
    requires
        low <= high,
        call_ensures(settings::limit, (n, low, high), r),
    ensures
        low <= n <= high ==> r == n,
        n < low ==> r == low,
        n > high ==> r == high,
{
}

/// Each failed attempt doubles the wait up to the longest; success starts it anew.
pub proof fn waits_double_up_to_the_longest(p: &Pace, last_ms: u64, failed: bool, r: u64)
    requires
        last_ms <= 120_000,
        p.reconnect_base_ms <= p.reconnect_max_ms <= 120_000,
        call_ensures(Pace::backoff, (p, last_ms, failed), r),
    ensures
        !failed ==> r == p.reconnect_base_ms,
        failed && 2 * last_ms <= p.reconnect_max_ms ==> r == 2 * last_ms,
        failed && 2 * last_ms > p.reconnect_max_ms ==> r == p.reconnect_max_ms,
{
}

/// A value counts without the white space around it, and not if nothing is left of
/// it; a key that still is the placeholder counts as none.
pub proof fn blank_values_do_not_count(
    value: Option<String>,
    r: Option<String>,
    found: Result<String, String>,
    key: Option<String>,
)
    requires
        call_ensures(settings::non_blank, (value,), r),
        call_ensures(settings::api_key, (found,), key),
    ensures
        r is Some <==> is_set(value),
        r matches Some(t) ==> texts::is_core(value->0@, t@),
        key matches Some(k) ==> (found matches Ok(t) && texts::is_core(t@, k@) && k@.len() > 0 && k@
            != "REPLACE_ME"@),
        found matches Ok(t) ==> key is None ==> texts::is_core(t@, Seq::<char>::empty())
            || texts::is_core(t@, "REPLACE_ME"@),
{
    if let Some(v) = value {
        lemma_set(v@);
        texts::lemma_trimmed_is_core(v@);
    }
    if let Ok(t) = found {
        lemma_set(t@);
        texts::lemma_trimmed_is_core(t@);
    }
}

} // verus!
