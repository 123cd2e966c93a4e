//! What a world agent does, and when.

use crate::agents::chat;
use crate::agents::llm;
use crate::agents::rng::SimpleRng;
use crate::agents::session::{
    self, Closing, Habits, LlmDecision, Opening, Session, SessionView, Walk,
};
use crate::agents::world::{self, ChatLine, Other, World, WorldView};
use crate::json::Json;
use crate::laws::agents::{
    bears, is_listed, lemma_bears, lemma_same_others, lemma_taken, may_be_taken, stands_at,
};
use crate::laws::numbers::{self, is_less, is_number};
use crate::laws::texts;
use crate::realtime::motion::Point;
use crate::scalar::Scalar;
use crate::text;
use vstd::prelude::*;
use vstd::string::*;

verus! {

/// Whether someone in the world bears the agent's name.
pub open spec fn sees_itself(w: WorldView, nickname: Seq<char>) -> bool {
    exists|name: Seq<char>, id: Seq<char>|
        #![trigger texts::is_core(nickname, name), w.players.contains_key(id)]
        texts::is_core(nickname, name) && name.len() > 0 && w.players.contains_key(id) && bears(
            w.players[id],
            name,
        )
}

pub proof fn lemma_sees_itself(w: WorldView, nickname: Seq<char>)
    ensures
        world::self_seen(w.players, nickname) <==> sees_itself(w, nickname),
{
    let own = text::trimmed(nickname);
    texts::lemma_trimmed_is_core(nickname);
    if world::self_seen(w.players, nickname) {
        let id = choose|id: Seq<char>| #[trigger]
            w.players.contains_key(id) && world::is_called(w.players[id], own);
        lemma_bears(w.players[id], own);
        assert(texts::is_core(nickname, own) && w.players.contains_key(id));
    }
    if sees_itself(w, nickname) {
        let (name, id) = choose|name: Seq<char>, id: Seq<char>|
            #![trigger texts::is_core(nickname, name), w.players.contains_key(id)]
            texts::is_core(nickname, name) && name.len() > 0 && w.players.contains_key(id) && bears(
                w.players[id],
                name,
            );
        texts::lemma_one_core(nickname, name, own);
        lemma_bears(w.players[id], own);
    }
}

/// Whether a session is another but for what its author keeps of chat and clocks:
/// who it is, what it has greeted, and how it started.
pub open spec fn same_self(a: SessionView, b: SessionView) -> bool {
    &&& a.self_id == b.self_id
    &&& a.started_at_ms == b.started_at_ms
}

/// A session starts with nothing said, seen or greeted, not knowing who it is; it
/// first strolls after 10 to 30 seconds.
pub proof fn sessions_start_fresh(
    now: u64,
    g: &mut SimpleRng,
    s: Session,
    h: &mut SimpleRng,
    wait: u64,
)
    requires
        now <= u64::MAX - 30_000,
        call_ensures(Session::new, (now, g), s),
        *old(h) == *old(g),
        call_ensures(SimpleRng::gen_range_u64, (h, 10_000u64, 30_000u64), wait),
    ensures
        s@.started_at_ms == now,
        s@.self_id is None,
        !s@.resent_user_data && !s@.spawned && !s@.greeting_sent && !s@.llm_in_flight,
        forall|id: Seq<char>| !#[trigger] s@.greeted.contains_key(id),
        s@.last_sent_chat_ms == 0 && s@.last_move_ms == 0 && s@.last_llm_ms == 0,
        s@.last_chat_seq_seen == 0 && s@.last_incoming_chat is None,
        s@.last_incoming_chat_at_ms == 0,
        s@.last_sent_chat_text.len() == 0,
        s@.next_idle_move_ms == now + wait,
        now + 10_000 <= s@.next_idle_move_ms <= now + 30_000,
        final(g).state == final(h).state,
{
}

/// An agent keeps the first id that it is told, and nothing else changes.
pub proof fn first_ids_stay(s: &mut Session, id: String, r: &Option<String>)
    requires
        call_ensures(Session::identified, (s, id), ()),
        call_ensures(Session::self_id, (&*final(s),), r),
    ensures
        r is Some,
        old(s)@.self_id is None ==> r->0@ == id@,
        old(s)@.self_id matches Some(own) ==> r->0@ == own,
        final(s)@ == (SessionView { self_id: final(s)@.self_id, ..old(s)@ }),
{
}

/// An agent that does not know its id takes that of the one it may take for itself;
/// one that knows it, or sees nobody of its name, goes on as it was.
pub proof fn agents_find_themselves(
    s: &mut Session,
    w: &World,
    h: &Habits,
    name: Seq<char>,
    look: Seq<char>,
)
    requires
        call_ensures(Session::look_for_self, (s, w, h), ()),
        texts::is_core(h.nickname@, name),
        texts::is_core(h.avatar@, look),
    ensures
        old(s)@.self_id is Some || !sees_itself(w@, h.nickname@) ==> final(s)@ == old(s)@,
        old(s)@.self_id is None && sees_itself(w@, h.nickname@) ==> (
        final(s)@.self_id matches Some(id) && may_be_taken(w@.players, name, look, id)),
        final(s)@ == (SessionView { self_id: final(s)@.self_id, ..old(s)@ }),
{
    lemma_sees_itself(w@, h.nickname@);
    lemma_cores(h.nickname@, name, h.avatar@, look);
    if old(s)@.self_id is None && sees_itself(w@, h.nickname@) {
        lemma_taken(w@.players, h.nickname@, h.avatar@, final(s)@.self_id->0);
    }
}

proof fn lemma_cores(nickname: Seq<char>, name: Seq<char>, avatar: Seq<char>, look: Seq<char>)
    requires
        texts::is_core(nickname, name),
        texts::is_core(avatar, look),
    ensures
        name == text::trimmed(nickname),
        look == text::trimmed(avatar),
{
    texts::lemma_trimmed_is_core(nickname);
    texts::lemma_one_core(nickname, name, text::trimmed(nickname));
    texts::lemma_trimmed_is_core(avatar);
    texts::lemma_one_core(avatar, look, text::trimmed(avatar));
}

/// An agent that does not see itself introduces itself again, once, when more than
/// a second and a half have passed since the start.
pub proof fn the_unseen_introduce_themselves_once(
    s: &mut Session,
    w: &World,
    h: &Habits,
    now: u64,
    r: bool,
    t: &mut Session,
    later_w: &World,
    later: u64,
    again: bool,
)
    requires
        call_ensures(Session::introduce_again, (s, w, h, now), r),
        *old(t) == *final(s),
        call_ensures(Session::introduce_again, (t, later_w, h, later), again),
    ensures
        r <==> !old(s)@.resent_user_data && !sees_itself(w@, h.nickname@) && now
            > old(s)@.started_at_ms + 1_500,
        r ==> !again,
        final(s)@ == (SessionView { resent_user_data: final(s)@.resent_user_data, ..old(s)@ }),
{
    lemma_sees_itself(w@, h.nickname@);
}

/// New lines are noticed once: the last of them is then the one to answer, and it
/// came now.
pub proof fn new_lines_are_noticed_once(
    s: &mut Session,
    w: &World,
    now: u64,
    r: bool,
    last: Option<ChatLine>,
    t: &mut Session,
    later: u64,
    again: bool,
)
    requires
        call_ensures(Session::listen, (s, w, now), r),
        call_ensures(World::last_line, (w,), last),
        *old(t) == *final(s),
        call_ensures(Session::listen, (t, w, later), again),
    ensures
        r <==> old(s)@.last_chat_seq_seen < w@.chat_seq,
        !again,
        r ==> final(s)@.last_incoming_chat_at_ms == now && final(s)@.last_chat_seq_seen
            == w@.chat_seq,
        r ==> match last {
            Some(line) => final(s)@.last_incoming_chat matches Some(kept) && kept.from_id
                == line.from_id@ && kept.nickname == line.nickname@ && kept.message
                == line.message@,
            None => final(s)@.last_incoming_chat is None,
        },
        !r ==> final(s)@ == old(s)@,
        same_self(final(s)@, old(s)@),
        final(s)@.greeted == old(s)@.greeted,
{
}

/// An agent rises above ground once, when it is first seen.
pub proof fn agents_appear_once(
    s: &mut Session,
    visible: bool,
    r: bool,
    t: &mut Session,
    later: bool,
    again: bool,
)
    requires
        call_ensures(Session::appear, (s, visible), r),
        *old(t) == *final(s),
        call_ensures(Session::appear, (t, later), again),
    ensures
        r <==> visible && !old(s)@.spawned,
        r ==> !again,
        visible ==> !again,
        final(s)@ == (SessionView { spawned: final(s)@.spawned, ..old(s)@ }),
{
}

/// Whether the agent may speak: its interval has passed since it last spoke.
pub open spec fn may_speak(s: SessionView, h: Habits, now: u64) -> bool {
    h.min_chat_interval_ms == 0 || s.last_sent_chat_ms + h.min_chat_interval_ms <= now
}

/// The greeting is said exactly if there is one with words, the agent is seen and
/// may speak, and it was not said before: the first 200 characters of it, without
/// white space around.
pub proof fn greetings_are_said_once(
    s: &mut Session,
    h: &Habits,
    visible: bool,
    now: u64,
    r: Option<String>,
    t: &mut Session,
    said: String,
    at: u64,
    u: &mut Session,
    later: u64,
    again: Option<String>,
)
    requires
        call_ensures(Session::greeting, (s, h, visible, now), r),
        *old(t) == *final(s),
        call_ensures(Session::greeting_said, (t, said, at), ()),
        *old(u) == *final(t),
        call_ensures(Session::greeting, (u, h, visible, later), again),
    ensures
        r is Some <==> visible && !old(s)@.greeting_sent && may_speak(old(s)@, *h, now) && (
        h.greeting matches Some(g) && exists|i: int|
            0 <= i < g@.len() && !texts::blank(#[trigger] g@[i])),
        r matches Some(m) ==> (h.greeting matches Some(g) && texts::is_shown(g@, 200, m@)),
        again is None,
        final(t)@.last_sent_chat_ms == at,
        final(t)@.last_sent_chat_text == said@,
        final(s)@ == (SessionView { greeting_sent: final(s)@.greeting_sent, ..old(s)@ }),
        h.greeting is Some ==> final(s)@ == old(s)@,
{
    if let Some(g) = h.greeting {
        texts::lemma_shown(g@, 200);
        texts::lemma_shown_has_words(g@, 200, session::utterance(g@));
    }
}

/// What was said is remembered with its time.
pub proof fn what_was_said_is_remembered(s: &mut Session, message: String, now: u64)
    requires
        call_ensures(Session::said, (s, message, now), ()),
    ensures
        final(s)@.last_sent_chat_ms == now,
        final(s)@.last_sent_chat_text == message@,
        final(s)@ == (SessionView {
            last_sent_chat_ms: now,
            last_sent_chat_text: message@,
            ..old(s)@
        }),
{
}

/// Whoever comes within three of the agent is greeted by name, if the agent is
/// seen and may speak, and was not greeted before; after that, never again.
pub proof fn neighbours_are_greeted_once(
    s: &Session,
    h: &Habits,
    nearest: &Option<(Other, Scalar)>,
    visible: bool,
    now: u64,
    r: Option<String>,
    t: &mut Session,
    id: String,
    said: String,
    at: u64,
    later: u64,
    again: Option<String>,
)
    requires
        call_ensures(Session::nearby_greeting, (s, h, nearest, visible, now), r),
        call_ensures(Session::player_greeted, (t, id, said, at), ()),
        call_ensures(Session::nearby_greeting, (&*final(t), h, nearest, visible, later), again),
    ensures
        r is Some <==> (*nearest matches Some((other, dist)) && is_number(dist) && !is_less(
            Scalar { bits: 0x4040_0000 },
            dist,
        ) && !s@.greeted.contains_key(other.id@)) && visible && may_speak(s@, *h, now),
        r matches Some(m) ==> texts::is_shown(
            "hey "@ + (nearest->0).0.nickname@ + " :)"@,
            200,
            m@,
        ),
        nearest matches Some((other, _)) ==> other.id@ == id@ ==> again is None,
        final(t)@.last_sent_chat_ms == at && final(t)@.last_sent_chat_text == said@,
        forall|other: Seq<char>|
            other != id@ ==> (#[trigger] final(t)@.greeted.contains_key(other)
                <==> old(t)@.greeted.contains_key(other)),
        same_self(final(t)@, old(t)@),
{
    if let Some((other, dist)) = *nearest {
        numbers::lemma_is_less(dist, Scalar { bits: 0x4040_0000 });
        texts::lemma_shown(chat::greeting_for(other.nickname@), 200);
    }
}

/// An agent that is called in a new line comes to where the caller stands, if it
/// is seen and has not moved for more than a second.
pub proof fn agents_come_when_called(
    s: &mut Session,
    w: &World,
    h: &Habits,
    saw_new_chat: bool,
    visible: bool,
    now: u64,
    r: Option<Point>,
    name: &str,
    message: &str,
    addressed: bool,
    at: Point,
)
    requires
        call_ensures(Session::come_when_called, (s, w, h, saw_new_chat, visible, now), r),
        name@ == h.nickname@,
        old(s)@.last_incoming_chat matches Some(line) ==> message@ == line.message,
        call_ensures(chat::is_addressed_to_bot, (name, message), addressed),
    ensures
        r == Some(at) <==> saw_new_chat && visible && now > old(s)@.last_move_ms + 1_000
            && addressed && (old(s)@.last_incoming_chat matches Some(line) && stands_at(
            w@.players,
            line.from_id,
            at,
        )),
        r is Some ==> final(s)@ == (SessionView { last_move_ms: now, ..old(s)@ }),
        r is None ==> final(s)@ == old(s)@,
{
}

/// An agent strolls when it knows where it is, its time has come, and it has not
/// moved for more than two seconds; the next time comes 10 to 30 seconds later.
pub proof fn agents_stroll_now_and_then(
    s: &Session,
    own: &Option<Point>,
    now: u64,
    r: bool,
    t: &mut Session,
    g: &mut SimpleRng,
    at: u64,
    h: &mut SimpleRng,
    wait: u64,
)
    requires
        call_ensures(Session::wants_idle_move, (s, own, now), r),
        at <= u64::MAX - 30_000,
        call_ensures(Session::idled, (t, at, g), ()),
        *old(h) == *old(g),
        call_ensures(SimpleRng::gen_range_u64, (h, 10_000u64, 30_000u64), wait),
    ensures
        r <==> *own is Some && s@.next_idle_move_ms <= now && now > s@.last_move_ms + 2_000,
        final(t)@.next_idle_move_ms == at + wait,
        at + 10_000 <= final(t)@.next_idle_move_ms <= at + 30_000,
        final(g).state == final(h).state,
        final(t)@.last_move_ms == at,
        final(t)@ == (SessionView {
            last_move_ms: at,
            next_idle_move_ms: final(t)@.next_idle_move_ms,
            ..old(t)@
        }),
{
}

/// The model is asked, if there is one and no answer is awaited, when the agent is
/// seen and either a new line calls it (or any line, if it replies to all) more
/// than a second and a half after the last answer, or its own tick has passed.
/// Without a model, an agent that is called repeats what was said, if it may speak.
pub proof fn models_are_asked_when_there_is_cause(
    s: &mut Session,
    h: &Habits,
    saw_new_chat: bool,
    visible: bool,
    now: u64,
    r: LlmDecision,
    name: &str,
    message: &str,
    addressed: bool,
    cause: bool,
    on_chat: bool,
)
    requires
        call_ensures(Session::decide_llm, (s, h, saw_new_chat, visible, now), r),
        name@ == h.nickname@,
        old(s)@.last_incoming_chat matches Some(line) ==> message@ == line.message,
        call_ensures(chat::is_addressed_to_bot, (name, message), addressed),
        on_chat == (saw_new_chat && now > old(s)@.last_llm_ms + 1_500 && (h.reply_to_all || (
        addressed && old(s)@.last_incoming_chat is Some))),
        cause == (on_chat || (h.llm_tick_ms > 0 && now > old(s)@.last_llm_ms + h.llm_tick_ms)),
    ensures
        r is Ask <==> visible && cause && h.has_llm && !old(s)@.llm_in_flight,
        r is Ask ==> final(s)@ == (SessionView {
            llm_in_flight: true,
            last_llm_ms: now,
            ..old(s)@
        }),
        !(r is Ask) ==> final(s)@ == old(s)@,
        r is Reply <==> visible && !h.has_llm && on_chat && addressed
            && old(s)@.last_incoming_chat is Some && may_speak(old(s)@, *h, now),
        r matches LlmDecision::Reply(t) ==> (old(s)@.last_incoming_chat matches Some(line)
            && texts::is_shown(
            "ok "@ + line.nickname + ", you said: "@ + line.message,
            200,
            t@,
        )),
{
    if let Some(line) = old(s)@.last_incoming_chat {
        texts::lemma_shown(chat::echo_for(line.nickname, line.message), 200);
    }
}

/// An answer ends the wait for it, and the clock of the model starts anew.
pub proof fn answers_end_the_wait(s: &mut Session, now: u64)
    requires
        call_ensures(Session::llm_answered, (s, now), ()),
    ensures
        final(s)@ == (SessionView { llm_in_flight: false, last_llm_ms: now, ..old(s)@ }),
{
}

/// What the model wants said is said, its first 200 characters without white space
/// around, if there are words in it, the agent may speak, and it differs from the
/// last thing said in more than case. The model walks where it says.
pub proof fn answers_are_acted_on(
    s: &mut Session,
    h: &Habits,
    action: &Json,
    now: u64,
    r: (Option<String>, Option<(Point, Scalar)>),
    alone: Option<String>,
    wanted: Option<String>,
    walk: Option<(Point, Scalar)>,
    m: &str,
    last: &str,
    small: String,
    small_last: String,
)
    requires
        call_ensures(Session::take_answer, (s, h, action, now), r),
        call_ensures(Session::say_for_llm, (&*old(s), h, action, now), alone),
        call_ensures(llm::say_in, (action,), wanted),
        call_ensures(llm::goto_in, (action, h.approach_speed), walk),
        wanted matches Some(t) ==> m@ == text::truncated(text::trimmed(t@), 200),
        last@ == old(s)@.last_sent_chat_text,
        call_ensures(chat::norm, (m,), small),
        call_ensures(chat::norm, (last,), small_last),
    ensures
        r.1 == walk,
        r.0 is Some <==> alone is Some,
        r.0 matches Some(t) ==> t@ == alone->0@,
        r.0 is Some <==> wanted is Some && m@.len() > 0 && small@ != small_last@ && may_speak(
            old(s)@,
            *h,
            now,
        ),
        r.0 matches Some(t) ==> (wanted matches Some(said) && t@.len() > 0 && texts::is_shown(
            said@,
            200,
            t@,
        )),
        final(s)@ == (SessionView { llm_in_flight: false, last_llm_ms: now, ..old(s)@ }),
{
    if let Some(t) = wanted {
        texts::lemma_shown(t@, 200);
    }
}

/// A walk is remembered with its time.
pub proof fn walks_are_remembered(s: &mut Session, now: u64)
    requires
        call_ensures(Session::walked, (s, now), ()),
    ensures
        final(s)@ == (SessionView { last_move_ms: now, ..old(s)@ }),
{
}

/// An agent that approaches of its own accord does so when the model does not walk
/// and it has not moved for more than two seconds; it goes to the nearest other
/// who is more than two away, and not to itself.
pub proof fn agents_approach_those_further_off(
    s: &Session,
    h: &Habits,
    llm_walks: bool,
    now: u64,
    wants: bool,
    t: &mut Session,
    own: &Option<Point>,
    nearest: &Option<(Other, Scalar)>,
    at: u64,
    r: Option<Point>,
    place: Point,
)
    requires
        call_ensures(Session::wants_approach, (s, h, llm_walks, now), wants),
        call_ensures(Session::approach, (t, own, nearest, at), r),
    ensures
        wants <==> h.auto_approach && !llm_walks && now > s@.last_move_ms + 2_000,
        r == Some(place) <==> *own is Some && (*nearest matches Some((other, dist)) && other.at
            == place && is_less(Scalar { bits: 0x4000_0000 }, dist) && old(t)@.self_id != Some(
            other.id@,
        )),
        r is Some ==> final(t)@ == (SessionView { last_move_ms: at, ..old(t)@ }),
        r is None ==> final(t)@ == old(t)@,
{
    if let Some((other, dist)) = *nearest {
        numbers::lemma_is_less(Scalar { bits: 0x4000_0000 }, dist);
    }
}

/// The time of the last line is forgotten half a minute after it came.
pub proof fn old_lines_lose_their_time(s: &mut Session, now: u64)
    requires
        call_ensures(Session::forget_old_chat, (s, now), ()),
    ensures
        now > old(s)@.last_incoming_chat_at_ms + 30_000 ==> final(s)@.last_incoming_chat_at_ms == 0,
        now <= old(s)@.last_incoming_chat_at_ms + 30_000 ==> final(s)@ == old(s)@,
        final(s)@ == (SessionView {
            last_incoming_chat_at_ms: final(s)@.last_incoming_chat_at_ms,
            ..old(s)@
        }),
{
}

/// A tick opens with what its parts do one after the other: the agent finds itself,
/// introduces itself, listens, appears, and greets.
pub proof fn ticks_open_as_their_parts_do(
    s: &mut Session,
    w: &World,
    h: &Habits,
    now: u64,
    r: Opening,
    a: &mut Session,
    introduce: bool,
    b: &mut Session,
    saw: bool,
    c: &mut Session,
    appear: bool,
    d: &mut Session,
    greeting: Option<String>,
    name: Seq<char>,
    look: Seq<char>,
)
    requires
        texts::is_core(h.nickname@, name),
        texts::is_core(h.avatar@, look),
        call_ensures(Session::open_tick, (s, w, h, now), r),
        old(a)@ == (SessionView { self_id: final(s)@.self_id, ..old(s)@ }),
        call_ensures(Session::introduce_again, (a, w, h, now), introduce),
        *old(b) == *final(a),
        call_ensures(Session::listen, (b, w, now), saw),
        *old(c) == *final(b),
        call_ensures(Session::appear, (c, r.visible), appear),
        *old(d) == *final(c),
        call_ensures(Session::greeting, (d, h, r.visible, now), greeting),
    ensures
        r.visible <==> sees_itself(w@, h.nickname@),
        r.introduce == introduce,
        r.saw_new_chat == saw,
        r.appear == appear,
        r.greeting is Some <==> greeting is Some,
        r.greeting matches Some(t) ==> t@ == greeting->0@,
        final(s)@ == final(d)@,
        old(s)@.self_id is Some ==> final(s)@.self_id == old(s)@.self_id,
        old(s)@.self_id is None && sees_itself(w@, h.nickname@) ==> (
        final(s)@.self_id matches Some(id) && may_be_taken(w@.players, name, look, id)),
        old(s)@.self_id is None && !sees_itself(w@, h.nickname@) ==> final(s)@.self_id is None,
{
    lemma_sees_itself(w@, h.nickname@);
    lemma_cores(h.nickname@, name, h.avatar@, look);
    if old(s)@.self_id is None && sees_itself(w@, h.nickname@) {
        lemma_taken(w@.players, h.nickname@, h.avatar@, final(s)@.self_id->0);
    }
}

/// A tick closes with what its parts do: the agent comes when called, or else
/// strolls if its time has come; and the model is asked, or answered for.
pub proof fn ticks_close_as_their_parts_do(
    s: &mut Session,
    w: &World,
    h: &Habits,
    saw_new_chat: bool,
    visible: bool,
    own: &Option<Point>,
    now: u64,
    r: Closing,
    a: &mut Session,
    called: Option<Point>,
    idle: bool,
    b: &mut Session,
    llm: LlmDecision,
)
    requires
        call_ensures(Session::close_tick, (s, w, h, saw_new_chat, visible, own, now), r),
        *old(a) == *old(s),
        call_ensures(Session::come_when_called, (a, w, h, saw_new_chat, visible, now), called),
        call_ensures(Session::wants_idle_move, (&*old(s), own, now), idle),
        *old(b) == *old(s),
        call_ensures(Session::decide_llm, (b, h, saw_new_chat, visible, now), llm),
    ensures
        called matches Some(at) ==> r.walk == Walk::Near(at),
        called is None && idle ==> r.walk == Walk::Stroll(own->0),
        called is None && !idle ==> r.walk is Stay,
        r.llm is Ask <==> llm is Ask,
        r.llm is Reply <==> llm is Reply,
        r.llm matches LlmDecision::Reply(t) ==> (llm matches LlmDecision::Reply(u) && t@ == u@),
        final(s)@.last_move_ms == final(a)@.last_move_ms,
        final(s)@.llm_in_flight == final(b)@.llm_in_flight,
        final(s)@.last_llm_ms == final(b)@.last_llm_ms,
        final(s)@ == (SessionView {
            last_move_ms: final(s)@.last_move_ms,
            llm_in_flight: final(s)@.llm_in_flight,
            last_llm_ms: final(s)@.last_llm_ms,
            last_incoming_chat_at_ms: final(s)@.last_incoming_chat_at_ms,
            ..old(s)@
        }),
        now > old(s)@.last_incoming_chat_at_ms + 30_000 ==> final(s)@.last_incoming_chat_at_ms == 0,
        now <= old(s)@.last_incoming_chat_at_ms + 30_000 ==> final(s)@.last_incoming_chat_at_ms
            == old(s)@.last_incoming_chat_at_ms,
{
}

/// An agent that looks around sees where it is and who else is there, as the world
/// tells; one that does not know where it is sees nobody.
pub proof fn agents_look_around(
    s: &Session,
    w: &World,
    h: &Habits,
    r: (Option<Point>, Vec<Other>),
    at: Point,
    name: Seq<char>,
    look: Seq<char>,
    self_id: &Option<String>,
    nickname: &str,
    others: Vec<Other>,
    id: Seq<char>,
)
    requires
        call_ensures(Session::look_around, (s, w, h), r),
        texts::is_core(h.nickname@, name),
        texts::is_core(h.avatar@, look),
        call_ensures(Session::self_id, (s,), self_id),
        nickname@ == h.nickname@,
        call_ensures(World::others, (w, self_id, nickname), others),
    ensures
        r.0 is None ==> r.1@.len() == 0,
        r.0 is Some ==> (is_listed(w@.players, r.1@, id) <==> is_listed(
            w@.players,
            others@,
            id,
        )),
        s@.self_id matches Some(own) ==> stands_at(w@.players, own, at) ==> r.0 == Some(at),
        s@.self_id is None && !sees_itself(w@, h.nickname@) ==> r.0 is None,
        r.0 matches Some(p) ==> (s@.self_id matches Some(own) && stands_at(w@.players, own, p)) || (
        exists|taken: Seq<char>| #[trigger]
            stands_at(w@.players, taken, p) && may_be_taken(w@.players, name, look, taken)),
        r.0 is None && sees_itself(w@, h.nickname@) ==> exists|taken: Seq<char>| #[trigger]
            may_be_taken(w@.players, name, look, taken) && w@.players[taken].position.len() != 3,
{
    lemma_sees_itself(w@, h.nickname@);
    lemma_cores(h.nickname@, name, h.avatar@, look);
    let known = s@.self_id is Some && world::known_place(w@.players, s@.self_id->0) is Some;
    if !known && sees_itself(w@, h.nickname@) {
        let taken = choose|taken: Seq<char>| #[trigger]
            world::taken_for_self(w@.players, h.nickname@, h.avatar@, taken) && r.0
                == world::known_place(w@.players, taken);
        lemma_taken(w@.players, h.nickname@, h.avatar@, taken);
        if let Some(p) = r.0 {
            assert(stands_at(w@.players, taken, p));
        }
    }
    if r.0 is Some {
        lemma_same_others(w@.players, s@.self_id, h.nickname@, r.1@, others@, id);
    }
}

/// Of the others, the one at the least distance is picked, with its distance; of
/// nobody, nobody.
pub proof fn the_nearest_is_picked(
    others: Vec<Other>,
    dists: &Vec<Scalar>,
    r: Option<(Other, Scalar)>,
    i: Option<usize>,
)
    requires
        others@.len() == dists@.len(),
        call_ensures(session::pick_nearest, (others, dists), r),
        call_ensures(world::nearest, (dists,), i),
    ensures
        r is Some <==> i is Some,
        r is Some <==> others@.len() > 0,
        r matches Some((other, dist)) ==> (i matches Some(k) && other == others@[k as int] && dist
            == dists@[k as int]),
{
}

} // verus!
