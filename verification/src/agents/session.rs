//! What a world agent does, tick by tick.
//!
//! Each function takes one decision. Sending lies outside; what matters of it
//! (whether it worked) is told back. Times are milliseconds.

use crate::agents::chat::{self, MAX_SAY_LEN};
use crate::agents::llm;
use crate::agents::rng::{self, SimpleRng};
use crate::agents::world::{self, ChatLine, LineView, Other, PlayerView, World, WorldView};
use crate::json::{self, Json};
use crate::realtime::motion::Point;
use crate::scalar::{self, Scalar};
use crate::text;
use crate::text_map::TextMap;
use vstd::prelude::*;
use vstd::string::*;

verus! {

/// The bits of `3.0`: how near a player is greeted.
pub const GREET_DISTANCE_BITS: u32 = 0x4040_0000;

/// The bits of `2.0`: how far a player may be before the agent comes closer.
pub const APPROACH_DISTANCE_BITS: u32 = 0x4000_0000;

/// The shortest and longest pause before an idle move.
pub const IDLE_MIN_MS: u64 = 10_000;

pub const IDLE_MAX_MS: u64 = 30_000;

/// How an agent behaves.
#[derive(Debug)]
pub struct Habits {
    pub nickname: String,
    pub avatar: String,
    pub greeting: Option<String>,
    pub min_chat_interval_ms: u64,
    pub reply_to_all: bool,
    pub auto_approach: bool,
    pub llm_tick_ms: u64,
    pub approach_speed: Scalar,
    /// Whether there is a language model to ask.
    pub has_llm: bool,
}

/// What an agent remembers of its session.
pub struct Session {
    started_at_ms: u64,
    resent_user_data: bool,
    self_id: Option<String>,
    spawned: bool,
    greeting_sent: bool,
    greeted: TextMap<u64>,
    last_sent_chat_ms: u64,
    last_sent_chat_text: String,
    last_move_ms: u64,
    last_llm_ms: u64,
    llm_in_flight: bool,
    last_chat_seq_seen: u64,
    last_incoming_chat: Option<ChatLine>,
    last_incoming_chat_at_ms: u64,
    next_idle_move_ms: u64,
}

/// What is remembered of a session.
pub struct SessionView {
    pub started_at_ms: u64,
    pub resent_user_data: bool,
    pub self_id: Option<Seq<char>>,
    pub spawned: bool,
    pub greeting_sent: bool,
    pub greeted: Map<Seq<char>, u64>,
    pub last_sent_chat_ms: u64,
    pub last_sent_chat_text: Seq<char>,
    pub last_move_ms: u64,
    pub last_llm_ms: u64,
    pub llm_in_flight: bool,
    pub last_chat_seq_seen: u64,
    pub last_incoming_chat: Option<LineView>,
    pub last_incoming_chat_at_ms: u64,
    pub next_idle_move_ms: u64,
}

/// What an optional line says.
pub open spec fn opt_line(line: Option<ChatLine>) -> Option<LineView> {
    match line {
        Some(l) => Some(l@),
        None => None,
    }
}

impl View for Session {
    type V = SessionView;

    closed spec fn view(&self) -> SessionView {
        SessionView {
            started_at_ms: self.started_at_ms,
            resent_user_data: self.resent_user_data,
            self_id: text::opt_text(self.self_id),
            spawned: self.spawned,
            greeting_sent: self.greeting_sent,
            greeted: self.greeted@,
            last_sent_chat_ms: self.last_sent_chat_ms,
            last_sent_chat_text: self.last_sent_chat_text@,
            last_move_ms: self.last_move_ms,
            last_llm_ms: self.last_llm_ms,
            llm_in_flight: self.llm_in_flight,
            last_chat_seq_seen: self.last_chat_seq_seen,
            last_incoming_chat: opt_line(self.last_incoming_chat),
            last_incoming_chat_at_ms: self.last_incoming_chat_at_ms,
            next_idle_move_ms: self.next_idle_move_ms,
        }
    }
}

/// A session that has just begun.
pub open spec fn begun(now: u64, first_idle_ms: u64) -> SessionView {
    SessionView {
        started_at_ms: now,
        resent_user_data: false,
        self_id: None,
        spawned: false,
        greeting_sent: false,
        greeted: Map::empty(),
        last_sent_chat_ms: 0,
        last_sent_chat_text: Seq::empty(),
        last_move_ms: 0,
        last_llm_ms: 0,
        llm_in_flight: false,
        last_chat_seq_seen: 0,
        last_incoming_chat: None,
        last_incoming_chat_at_ms: 0,
        next_idle_move_ms: first_idle_ms,
    }
}

/// The time of the next idle move, by a drawn number.
pub open spec fn idle_time(now: u64, drawn: u64) -> int {
    now + rng::in_range(drawn, IDLE_MIN_MS, IDLE_MAX_MS)
}

/// Whether the agent has to say once more who it is: it has not done so yet, and
/// cannot see itself after one and a half seconds.
pub open spec fn unseen(s: SessionView, w: WorldView, h: Habits, now: u64) -> bool {
    !s.resent_user_data && !world::self_seen(w.players, h.nickname@) && chat::waited_longer(
        now,
        s.started_at_ms,
        1_500,
    )
}

/// The session after listening: the newest line, if there is a new one.
pub open spec fn listened(s: SessionView, w: WorldView, now: u64) -> SessionView {
    if w.chat_seq > s.last_chat_seq_seen {
        SessionView {
            last_chat_seq_seen: w.chat_seq,
            last_incoming_chat: if w.recent_chat.len() > 0 {
                Some(w.recent_chat.last())
            } else {
                None
            },
            last_incoming_chat_at_ms: now,
            ..s
        }
    } else {
        s
    }
}

/// Whether the agent may say something by now.
pub open spec fn may_speak(s: SessionView, h: Habits, now: u64) -> bool {
    chat::waited(now, s.last_sent_chat_ms, h.min_chat_interval_ms)
}

/// A text as the agent says it: trimmed, and cut to 200 characters.
pub open spec fn utterance(s: Seq<char>) -> Seq<char> {
    text::truncated(text::trimmed(s), MAX_SAY_LEN as nat)
}

/// The session after something was said.
pub open spec fn having_said(s: SessionView, message: Seq<char>, now: u64) -> SessionView {
    SessionView { last_sent_chat_ms: now, last_sent_chat_text: message, ..s }
}

/// The greeting to all, while it is due: once, when the agent is seen.
pub open spec fn greeting_due(s: SessionView, h: Habits, visible: bool, now: u64) -> Option<
    Seq<char>,
> {
    match h.greeting {
        Some(g) => if visible && !s.greeting_sent && may_speak(s, h, now) && utterance(g@).len()
            > 0 {
            Some(utterance(g@))
        } else {
            None
        },
        None => None,
    }
}

/// The greeting to a player nearby, while it is due: once per player.
pub open spec fn nearby_greeting_due(
    s: SessionView,
    h: Habits,
    nearest: Option<(Seq<char>, Seq<char>, Scalar)>,
    visible: bool,
    now: u64,
) -> Option<Seq<char>> {
    match nearest {
        Some((id, nickname, dist)) => if scalar::at_most(dist, Scalar { bits: GREET_DISTANCE_BITS })
            && !s.greeted.contains_key(id) && visible && may_speak(s, h, now) {
            Some(utterance(chat::greeting_for(nickname)))
        } else {
            None
        },
        None => None,
    }
}

/// The id, name and distance of the nearest player.
pub open spec fn nearest_view(nearest: Option<(Other, Scalar)>) -> Option<
    (Seq<char>, Seq<char>, Scalar),
> {
    match nearest {
        Some((other, dist)) => Some((other.id@, other.nickname@, dist)),
        None => None,
    }
}

/// Whether a line calls the agent.
pub open spec fn calls_me(line: Option<LineView>, h: Habits) -> bool {
    match line {
        Some(l) => chat::calls_agent(chat::folded(h.nickname@), chat::folded(l.message)),
        None => false,
    }
}

/// Where the one who has just called the agent is, if the agent sets out there.
pub open spec fn called_to(
    s: SessionView,
    w: WorldView,
    h: Habits,
    saw_new_chat: bool,
    visible: bool,
    now: u64,
) -> Option<Point> {
    if saw_new_chat && visible && calls_me(s.last_incoming_chat, h) && chat::waited_longer(
        now,
        s.last_move_ms,
        1_000,
    ) {
        world::known_place(w.players, s.last_incoming_chat->0.from_id)
    } else {
        None
    }
}

/// Whether it is time for an idle move.
pub open spec fn idle_due(s: SessionView, own_place: Option<Point>, now: u64) -> bool {
    own_place is Some && now >= s.next_idle_move_ms && chat::waited_longer(
        now,
        s.last_move_ms,
        2_000,
    )
}

/// Whether chat is a reason to ask the language model.
pub open spec fn chat_calls_for_llm(s: SessionView, h: Habits, saw_new_chat: bool, now: u64) -> bool {
    saw_new_chat && chat::waited_longer(now, s.last_llm_ms, 1_500) && (h.reply_to_all || calls_me(
        s.last_incoming_chat,
        h,
    ))
}

/// Whether it is time to ask the language model unprompted.
pub open spec fn llm_due(s: SessionView, h: Habits, now: u64) -> bool {
    h.llm_tick_ms > 0 && chat::waited_longer(now, s.last_llm_ms, h.llm_tick_ms)
}

/// What to do about the language model.
#[derive(Debug)]
pub enum LlmDecision {
    Nothing,
    /// Ask it.
    Ask,
    /// There is none: say this instead.
    Reply(String),
}

/// What to do about the language model.
pub enum DecisionView {
    Nothing,
    Ask,
    Reply(Seq<char>),
}

impl View for LlmDecision {
    type V = DecisionView;

    open spec fn view(&self) -> DecisionView {
        match self {
            LlmDecision::Nothing => DecisionView::Nothing,
            LlmDecision::Ask => DecisionView::Ask,
            LlmDecision::Reply(t) => DecisionView::Reply(t@),
        }
    }
}

/// What to do about the language model: ask it on chat or when it is time, one
/// question at a time; without one, answer whoever called.
pub open spec fn llm_decision(
    s: SessionView,
    h: Habits,
    saw_new_chat: bool,
    visible: bool,
    now: u64,
) -> DecisionView {
    let on_chat = chat_calls_for_llm(s, h, saw_new_chat, now);
    if !visible || !(on_chat || llm_due(s, h, now)) {
        DecisionView::Nothing
    } else if h.has_llm {
        if s.llm_in_flight {
            DecisionView::Nothing
        } else {
            DecisionView::Ask
        }
    } else if on_chat && calls_me(s.last_incoming_chat, h) && may_speak(s, h, now) {
        let line = s.last_incoming_chat->0;
        DecisionView::Reply(utterance(chat::echo_for(line.nickname, line.message)))
    } else {
        DecisionView::Nothing
    }
}

/// What is said on behalf of the language model: nothing empty, nothing that was
/// just said, and nothing too soon.
pub open spec fn llm_says(s: SessionView, h: Habits, action: Json, now: u64) -> Option<Seq<char>> {
    match json::text_field(action, "say"@) {
        Some(say) => {
            let message = utterance(say);
            if message.len() > 0 && chat::folded(message) != chat::folded(s.last_sent_chat_text)
                && may_speak(s, h, now) {
                Some(message)
            } else {
                None
            }
        },
        None => None,
    }
}

/// Whether the agent approaches the nearest player of its own accord.
pub open spec fn approach_due(s: SessionView, h: Habits, llm_walks: bool, now: u64) -> bool {
    h.auto_approach && !llm_walks && chat::waited_longer(now, s.last_move_ms, 2_000)
}

/// Where the agent goes of its own accord: near the nearest player, if that one
/// is more than 2 away and not the agent.
pub open spec fn approached(
    s: SessionView,
    own_place: Option<Point>,
    nearest: Option<(Seq<char>, Point, Scalar)>,
) -> Option<Point> {
    match (own_place, nearest) {
        (Some(_), Some((id, at, dist))) => if s.self_id != Some(id) && scalar::below(
            Scalar { bits: APPROACH_DISTANCE_BITS },
            dist,
        ) {
            Some(at)
        } else {
            None
        },
        _ => None,
    }
}

/// The id, place and distance of the nearest player.
pub open spec fn nearest_place(nearest: Option<(Other, Scalar)>) -> Option<
    (Seq<char>, Point, Scalar),
> {
    match nearest {
        Some((other, dist)) => Some((other.id@, other.at, dist)),
        None => None,
    }
}

impl Session {
    pub closed spec fn wf(&self) -> bool {
        self.greeted.wf()
    }

    /// A session that has just begun.
    pub fn new(now: u64, rng: &mut SimpleRng) -> (r: Session)
        requires
            now <= u64::MAX - IDLE_MAX_MS,
        ensures
            r.wf(),
            r@ == begun(now, idle_time(now, rng::next(old(rng).state)) as u64),
            final(rng).state == rng::next(old(rng).state),
    {
        let pause: u64 = rng.gen_range_u64(IDLE_MIN_MS, IDLE_MAX_MS);
        let r = Session {
            started_at_ms: now,
            resent_user_data: false,
            self_id: None,
            spawned: false,
            greeting_sent: false,
            greeted: TextMap::new(),
            last_sent_chat_ms: 0,
            last_sent_chat_text: String::new(),
            last_move_ms: 0,
            last_llm_ms: 0,
            llm_in_flight: false,
            last_chat_seq_seen: 0,
            last_incoming_chat: None,
            last_incoming_chat_at_ms: 0,
            next_idle_move_ms: now + pause,
        };
        proof {
            assert(r.last_sent_chat_text@ =~= Seq::<char>::empty());
        }
        r
    }

    /// The agent's own id, once it is known.
    pub fn self_id(&self) -> (r: &Option<String>)
        ensures
            text::opt_text(*r) == self@.self_id,
    {
        &self.self_id
    }

    /// Takes in that the agent was seen under an id. The first one counts.
    pub fn identified(&mut self, id: String)
        requires
            old(self).wf(),
        ensures
            final(self).wf(),
            final(self)@ == if old(self)@.self_id is None {
                SessionView { self_id: Some(id@), ..old(self)@ }
            } else {
                old(self)@
            },
    {
        if self.self_id.is_none() {
            self.self_id = Some(id);
        }
    }

    /// Looks for the agent among the players, as long as its id is not known.
    pub fn look_for_self(&mut self, world: &World, habits: &Habits)
        requires
            old(self).wf(),
            world.wf(),
        ensures
            final(self).wf(),
            if old(self)@.self_id is None && world::self_seen(
                world@.players,
                habits.nickname@,
            ) {
                exists|id: Seq<char>| #[trigger]
                    world::taken_for_self(
                        world@.players,
                        habits.nickname@,
                        habits.avatar@,
                        id,
                    ) && final(self)@ == (SessionView { self_id: Some(id), ..old(self)@ })
            } else {
                final(self)@ == old(self)@
            },
    {
        if self.self_id.is_none() {
            if let Some(id) = world.find_self_client(
                habits.nickname.as_str(),
                habits.avatar.as_str(),
            ) {
                proof {
                    assert(world::taken_for_self(
                        world@.players,
                        habits.nickname@,
                        habits.avatar@,
                        id@,
                    ));
                }
                self.self_id = Some(id);
            }
        }
    }

    /// Whether the agent has to say once more who it is; it then does.
    pub fn introduce_again(&mut self, world: &World, habits: &Habits, now: u64) -> (r: bool)
        requires
            old(self).wf(),
            world.wf(),
        ensures
            final(self).wf(),
            r == unseen(old(self)@, world@, *habits, now),
            final(self)@ == (SessionView {
                resent_user_data: old(self)@.resent_user_data || r,
                ..old(self)@
            }),
    {
        if !self.resent_user_data && world.find_self_client(
            habits.nickname.as_str(),
            habits.avatar.as_str(),
        ).is_none() && chat::has_waited_longer(now, self.started_at_ms, 1_500) {
            self.resent_user_data = true;
            true
        } else {
            false
        }
    }

    /// Listens for something new in chat.
    pub fn listen(&mut self, world: &World, now: u64) -> (r: bool)
        requires
            old(self).wf(),
        ensures
            final(self).wf(),
            r == (world@.chat_seq > old(self)@.last_chat_seq_seen),
            final(self)@ == listened(old(self)@, world@, now),
    {
        if world.chat_seq() > self.last_chat_seq_seen {
            self.last_chat_seq_seen = world.chat_seq();
            self.last_incoming_chat = world.last_line();
            self.last_incoming_chat_at_ms = now;
            true
        } else {
            false
        }
    }

    /// Whether the agent has to appear above ground: once, when it is seen.
    pub fn appear(&mut self, visible: bool) -> (r: bool)
        requires
            old(self).wf(),
        ensures
            final(self).wf(),
            r == (visible && !old(self)@.spawned),
            final(self)@ == (SessionView { spawned: old(self)@.spawned || r, ..old(self)@ }),
    {
        if visible && !self.spawned {
            self.spawned = true;
            true
        } else {
            false
        }
    }

    /// The greeting to all, while it is due. Without one there is nothing to wait
    /// for.
    pub fn greeting(&mut self, habits: &Habits, visible: bool, now: u64) -> (r: Option<String>)
        requires
            old(self).wf(),
        ensures
            final(self).wf(),
            text::opt_text(r) == greeting_due(old(self)@, *habits, visible, now),
            final(self)@ == (SessionView {
                greeting_sent: old(self)@.greeting_sent || (visible && habits.greeting is None),
                ..old(self)@
            }),
    {
        if !visible || self.greeting_sent {
            return None;
        }
        match &habits.greeting {
            None => {
                self.greeting_sent = true;
                None
            },
            Some(g) => {
                if !chat::has_waited(now, self.last_sent_chat_ms, habits.min_chat_interval_ms) {
                    return None;
                }
                let message = text::truncate_chat(g.as_str(), MAX_SAY_LEN);
                if message.as_str().is_empty() {
                    None
                } else {
                    Some(message)
                }
            },
        }
    }

    /// Takes in that something was said.
    pub fn said(&mut self, message: String, now: u64)
        requires
            old(self).wf(),
        ensures
            final(self).wf(),
            final(self)@ == having_said(old(self)@, message@, now),
    {
        self.last_sent_chat_ms = now;
        self.last_sent_chat_text = message;
    }

    /// Takes in that the greeting to all was said.
    pub fn greeting_said(&mut self, message: String, now: u64)
        requires
            old(self).wf(),
        ensures
            final(self).wf(),
            final(self)@ == (SessionView {
                greeting_sent: true,
                ..having_said(old(self)@, message@, now)
            }),
    {
        self.said(message, now);
        self.greeting_sent = true;
    }

    /// The greeting to a player nearby, while it is due.
    pub fn nearby_greeting(
        &self,
        habits: &Habits,
        nearest: &Option<(Other, Scalar)>,
        visible: bool,
        now: u64,
    ) -> (r: Option<String>)
        requires
            self.wf(),
        ensures
            text::opt_text(r) == nearby_greeting_due(
                self@,
                *habits,
                nearest_view(*nearest),
                visible,
                now,
            ),
    {
        match nearest {
            None => None,
            Some((other, dist)) => {
                if dist.at_most(Scalar::new(GREET_DISTANCE_BITS)) && self.greeted.get(
                    other.id.as_str(),
                ).is_none() && visible && chat::has_waited(
                    now,
                    self.last_sent_chat_ms,
                    habits.min_chat_interval_ms,
                ) {
                    let hello = chat::greet(other.nickname.as_str());
                    Some(text::truncate_chat(hello.as_str(), MAX_SAY_LEN))
                } else {
                    None
                }
            },
        }
    }

    /// Takes in that a player nearby was greeted.
    pub fn player_greeted(&mut self, id: String, message: String, now: u64)
        requires
            old(self).wf(),
        ensures
            final(self).wf(),
            final(self)@ == (SessionView {
                greeted: old(self)@.greeted.insert(id@, now),
                ..having_said(old(self)@, message@, now)
            }),
    {
        self.said(message, now);
        self.greeted.insert(id, now);
    }

    /// Where the one who has just called the agent is. The agent then sets out.
    pub fn come_when_called(
        &mut self,
        world: &World,
        habits: &Habits,
        saw_new_chat: bool,
        visible: bool,
        now: u64,
    ) -> (r: Option<Point>)
        requires
            old(self).wf(),
            world.wf(),
        ensures
            final(self).wf(),
            r == called_to(old(self)@, world@, *habits, saw_new_chat, visible, now),
            final(self)@ == if r is Some {
                SessionView { last_move_ms: now, ..old(self)@ }
            } else {
                old(self)@
            },
    {
        if !saw_new_chat || !visible {
            return None;
        }
        let place: Option<Point> = match &self.last_incoming_chat {
            None => None,
            Some(line) => if chat::is_addressed_to_bot(
                habits.nickname.as_str(),
                line.message.as_str(),
            ) && chat::has_waited_longer(now, self.last_move_ms, 1_000) {
                world.place_of_player(line.from_id.as_str())
            } else {
                None
            },
        };
        if place.is_some() {
            self.last_move_ms = now;
        }
        place
    }

    /// Whether it is time for an idle move.
    pub fn wants_idle_move(&self, own_place: &Option<Point>, now: u64) -> (r: bool)
        ensures
            r == idle_due(self@, *own_place, now),
    {
        own_place.is_some() && now >= self.next_idle_move_ms && chat::has_waited_longer(
            now,
            self.last_move_ms,
            2_000,
        )
    }

    /// Takes in an idle move, and puts the next one off.
    pub fn idled(&mut self, now: u64, rng: &mut SimpleRng)
        requires
            old(self).wf(),
            now <= u64::MAX - IDLE_MAX_MS,
        ensures
            final(self).wf(),
            final(self)@ == (SessionView {
                last_move_ms: now,
                next_idle_move_ms: idle_time(now, rng::next(old(rng).state)) as u64,
                ..old(self)@
            }),
            final(rng).state == rng::next(old(rng).state),
    {
        let pause: u64 = rng.gen_range_u64(IDLE_MIN_MS, IDLE_MAX_MS);
        self.last_move_ms = now;
        self.next_idle_move_ms = now + pause;
    }

    /// Decides about the language model.
    pub fn decide_llm(
        &mut self,
        habits: &Habits,
        saw_new_chat: bool,
        visible: bool,
        now: u64,
    ) -> (r: LlmDecision)
        requires
            old(self).wf(),
        ensures
            final(self).wf(),
            r@ == llm_decision(old(self)@, *habits, saw_new_chat, visible, now),
            final(self)@ == if r is Ask {
                SessionView { llm_in_flight: true, last_llm_ms: now, ..old(self)@ }
            } else {
                old(self)@
            },
    {
        let called: bool = match &self.last_incoming_chat {
            Some(line) => chat::is_addressed_to_bot(
                habits.nickname.as_str(),
                line.message.as_str(),
            ),
            None => false,
        };
        let on_chat: bool = saw_new_chat && chat::has_waited_longer(now, self.last_llm_ms, 1_500)
            && (habits.reply_to_all || called);
        let due: bool = habits.llm_tick_ms > 0 && chat::has_waited_longer(
            now,
            self.last_llm_ms,
            habits.llm_tick_ms,
        );
        if !visible || !(on_chat || due) {
            return LlmDecision::Nothing;
        }
        if habits.has_llm {
            if self.llm_in_flight {
                return LlmDecision::Nothing;
            }
            self.llm_in_flight = true;
            self.last_llm_ms = now;
            return LlmDecision::Ask;
        }
        if on_chat && called && chat::has_waited(
            now,
            self.last_sent_chat_ms,
            habits.min_chat_interval_ms,
        ) {
            if let Some(line) = &self.last_incoming_chat {
                let reply = chat::echo_back(line.nickname.as_str(), line.message.as_str());
                return LlmDecision::Reply(text::truncate_chat(reply.as_str(), MAX_SAY_LEN));
            }
        }
        LlmDecision::Nothing
    }

    /// Takes in that the language model has answered, or failed to.
    pub fn llm_answered(&mut self, now: u64)
        requires
            old(self).wf(),
        ensures
            final(self).wf(),
            final(self)@ == (SessionView { llm_in_flight: false, last_llm_ms: now, ..old(self)@ }),
    {
        self.llm_in_flight = false;
        self.last_llm_ms = now;
    }

    /// What to say on behalf of the language model.
    pub fn say_for_llm(&self, habits: &Habits, action: &Json, now: u64) -> (r: Option<String>)
        ensures
            text::opt_text(r) == llm_says(self@, *habits, *action, now),
    {
        match llm::say_in(action) {
            None => None,
            Some(say) => {
                let message = text::truncate_chat(say.as_str(), MAX_SAY_LEN);
                let a = chat::norm(message.as_str());
                let b = chat::norm(self.last_sent_chat_text.as_str());
                if chat::is_new(message.as_str(), a.as_str(), b.as_str()) && chat::has_waited(
                    now,
                    self.last_sent_chat_ms,
                    habits.min_chat_interval_ms,
                ) {
                    Some(message)
                } else {
                    None
                }
            },
        }
    }

    /// Takes in that the agent set out somewhere.
    pub fn walked(&mut self, now: u64)
        requires
            old(self).wf(),
        ensures
            final(self).wf(),
            final(self)@ == (SessionView { last_move_ms: now, ..old(self)@ }),
    {
        self.last_move_ms = now;
    }

    /// Whether the agent approaches the nearest player of its own accord.
    pub fn wants_approach(&self, habits: &Habits, llm_walks: bool, now: u64) -> (r: bool)
        ensures
            r == approach_due(self@, *habits, llm_walks, now),
    {
        habits.auto_approach && !llm_walks && chat::has_waited_longer(
            now,
            self.last_move_ms,
            2_000,
        )
    }

    /// The player that the agent approaches of its own accord. It then sets out.
    pub fn approach(
        &mut self,
        own_place: &Option<Point>,
        nearest: &Option<(Other, Scalar)>,
        now: u64,
    ) -> (r: Option<Point>)
        requires
            old(self).wf(),
        ensures
            final(self).wf(),
            r == approached(old(self)@, *own_place, nearest_place(*nearest)),
            final(self)@ == if r is Some {
                SessionView { last_move_ms: now, ..old(self)@ }
            } else {
                old(self)@
            },
    {
        match (own_place, nearest) {
            (Some(_), Some((other, dist))) => {
                let own_self: bool = match &self.self_id {
                    Some(id) => text::same(id.as_str(), other.id.as_str()),
                    None => false,
                };
                if !own_self && Scalar::new(APPROACH_DISTANCE_BITS).below(*dist) {
                    self.last_move_ms = now;
                    Some(other.at)
                } else {
                    None
                }
            },
            _ => None,
        }
    }

    /// Forgets when the last line came, once it is half a minute ago.
    pub fn forget_old_chat(&mut self, now: u64)
        requires
            old(self).wf(),
        ensures
            final(self).wf(),
            final(self)@ == if old(self)@.last_incoming_chat_at_ms > 0 && chat::waited_longer(
                now,
                old(self)@.last_incoming_chat_at_ms,
                30_000,
            ) {
                SessionView { last_incoming_chat_at_ms: 0, ..old(self)@ }
            } else {
                old(self)@
            },
    {
        if self.last_incoming_chat_at_ms > 0 && chat::has_waited_longer(
            now,
            self.last_incoming_chat_at_ms,
            30_000,
        ) {
            self.last_incoming_chat_at_ms = 0;
        }
    }

    /// The first part of a tick: the agent looks for itself, introduces itself
    /// once more if it has to, listens, appears, and greets.
    pub fn open_tick(&mut self, world: &World, habits: &Habits, now: u64) -> (r: Opening)
        requires
            old(self).wf(),
            world.wf(),
        ensures
            final(self).wf(),
            recognized(
                old(self)@.self_id,
                final(self)@.self_id,
                world@.players,
                *habits,
            ),
            ({
                let s = SessionView { self_id: final(self)@.self_id, ..old(self)@ };
                &&& opening_of(s, world@, *habits, now, r)
                &&& final(self)@ == opened(s, world@, *habits, now)
            }),
    {
        self.look_for_self(world, habits);
        let introduce = self.introduce_again(world, habits, now);
        let saw_new_chat = self.listen(world, now);
        let visible = world.find_self_client(
            habits.nickname.as_str(),
            habits.avatar.as_str(),
        ).is_some();
        let appear = self.appear(visible);
        let greeting = self.greeting(habits, visible, now);
        Opening { introduce, saw_new_chat, visible, appear, greeting }
    }

    /// The second part of a tick: where the agent is, and whom it could approach.
    /// Without a place of its own it approaches nobody.
    pub fn look_around(&self, world: &World, habits: &Habits) -> (r: (Option<Point>, Vec<Other>))
        requires
            self.wf(),
            world.wf(),
        ensures
            world::own_place_of(
                world@.players,
                self@.self_id,
                habits.nickname@,
                habits.avatar@,
                r.0,
            ),
            if r.0 is Some {
                world::others_of(world@.players, self@.self_id, habits.nickname@, r.1@)
            } else {
                r.1@.len() == 0
            },
    {
        let place = world.own_place(
            &self.self_id,
            habits.nickname.as_str(),
            habits.avatar.as_str(),
        );
        if place.is_some() {
            (place, world.others(&self.self_id, habits.nickname.as_str()))
        } else {
            (place, Vec::new())
        }
    }

    /// The last part of a tick: the agent comes when it was called, or else may
    /// stroll; it decides about the language model; and it forgets.
    pub fn close_tick(
        &mut self,
        world: &World,
        habits: &Habits,
        saw_new_chat: bool,
        visible: bool,
        own_place: &Option<Point>,
        now: u64,
    ) -> (r: Closing)
        requires
            old(self).wf(),
            world.wf(),
        ensures
            final(self).wf(),
            r.walk == walk_of(
                old(self)@,
                world@,
                *habits,
                saw_new_chat,
                visible,
                *own_place,
                now,
            ),
            r.llm@ == llm_decision(old(self)@, *habits, saw_new_chat, visible, now),
            final(self)@ == closed_tick(
                old(self)@,
                world@,
                *habits,
                saw_new_chat,
                visible,
                now,
            ),
    {
        let called = self.come_when_called(world, habits, saw_new_chat, visible, now);
        let walk = match called {
            Some(place) => Walk::Near(place),
            None => if self.wants_idle_move(own_place, now) {
                match own_place {
                    Some(place) => Walk::Stroll(*place),
                    None => Walk::Stay,
                }
            } else {
                Walk::Stay
            },
        };
        let llm = self.decide_llm(habits, saw_new_chat, visible, now);
        self.forget_old_chat(now);
        Closing { walk, llm }
    }

    /// Takes in the language model's wishes: what to say, and where to go.
    pub fn take_answer(&mut self, habits: &Habits, action: &Json, now: u64) -> (r: (
        Option<String>,
        Option<(Point, Scalar)>,
    ))
        requires
            old(self).wf(),
        ensures
            final(self).wf(),
            final(self)@ == (SessionView { llm_in_flight: false, last_llm_ms: now, ..old(self)@ }),
            text::opt_text(r.0) == llm_says(old(self)@, *habits, *action, now),
            r.1 == llm::walk_in(*action, habits.approach_speed),
    {
        self.llm_answered(now);
        let say = self.say_for_llm(habits, action, now);
        (say, llm::goto_in(action, habits.approach_speed))
    }
}

/// What the first part of a tick calls for.
#[derive(Debug)]
pub struct Opening {
    /// Say once more who the agent is.
    pub introduce: bool,
    pub saw_new_chat: bool,
    /// The agent sees itself.
    pub visible: bool,
    /// Move above ground.
    pub appear: bool,
    pub greeting: Option<String>,
}

/// Where the last part of a tick leads.
#[derive(Clone, Copy, Debug, PartialEq, Eq, Structural)]
pub enum Walk {
    Stay,
    /// Somewhere near a place.
    Near(Point),
    /// A few steps from a place.
    Stroll(Point),
}

/// What the last part of a tick calls for.
#[derive(Debug)]
pub struct Closing {
    pub walk: Walk,
    pub llm: LlmDecision,
}

/// Whether the agent's id is what it was, or one of its looks if it was unknown
/// and the agent is seen.
pub open spec fn recognized(
    before: Option<Seq<char>>,
    after: Option<Seq<char>>,
    players: Map<Seq<char>, PlayerView>,
    h: Habits,
) -> bool {
    if before is None && world::self_seen(players, h.nickname@) {
        after is Some && world::taken_for_self(players, h.nickname@, h.avatar@, after->0)
    } else {
        after == before
    }
}

/// The session after the agent introduced itself, listened and appeared.
pub open spec fn settled_in(s: SessionView, w: WorldView, h: Habits, now: u64) -> SessionView {
    let introduced = SessionView {
        resent_user_data: s.resent_user_data || unseen(s, w, h, now),
        ..s
    };
    let l = listened(introduced, w, now);
    SessionView { spawned: l.spawned || world::self_seen(w.players, h.nickname@), ..l }
}

/// The session after the first part of a tick.
pub open spec fn opened(s: SessionView, w: WorldView, h: Habits, now: u64) -> SessionView {
    let t = settled_in(s, w, h, now);
    SessionView {
        greeting_sent: t.greeting_sent || (world::self_seen(w.players, h.nickname@) && h.greeting is None),
        ..t
    }
}

/// What the first part of a tick calls for.
pub open spec fn opening_of(
    s: SessionView,
    w: WorldView,
    h: Habits,
    now: u64,
    r: Opening,
) -> bool {
    let visible = world::self_seen(w.players, h.nickname@);
    &&& r.introduce == unseen(s, w, h, now)
    &&& r.saw_new_chat == (w.chat_seq > s.last_chat_seq_seen)
    &&& r.visible == visible
    &&& r.appear == (visible && !s.spawned)
    &&& text::opt_text(r.greeting) == greeting_due(settled_in(s, w, h, now), h, visible, now)
}

/// Where the last part of a tick leads.
pub open spec fn walk_of(
    s: SessionView,
    w: WorldView,
    h: Habits,
    saw_new_chat: bool,
    visible: bool,
    own_place: Option<Point>,
    now: u64,
) -> Walk {
    match called_to(s, w, h, saw_new_chat, visible, now) {
        Some(place) => Walk::Near(place),
        None => if idle_due(s, own_place, now) {
            Walk::Stroll(own_place->0)
        } else {
            Walk::Stay
        },
    }
}

/// The session after the last part of a tick.
pub open spec fn closed_tick(
    s: SessionView,
    w: WorldView,
    h: Habits,
    saw_new_chat: bool,
    visible: bool,
    now: u64,
) -> SessionView {
    let asked = llm_decision(s, h, saw_new_chat, visible, now) is Ask;
    SessionView {
        last_move_ms: if called_to(s, w, h, saw_new_chat, visible, now) is Some {
            now
        } else {
            s.last_move_ms
        },
        llm_in_flight: s.llm_in_flight || asked,
        last_llm_ms: if asked {
            now
        } else {
            s.last_llm_ms
        },
        last_incoming_chat_at_ms: if chat::waited_longer(now, s.last_incoming_chat_at_ms, 30_000) {
            0
        } else {
            s.last_incoming_chat_at_ms
        },
        ..s
    }
}

/// The nearest of some players, by the distances that were measured to them.
pub fn pick_nearest(others: Vec<Other>, dists: &Vec<Scalar>) -> (r: Option<(Other, Scalar)>)
    requires
        others.len() == dists.len(),
    ensures
        match r {
            Some((other, dist)) => {
                &&& world::nearest_index(dists@) matches Some(i)
                &&& 0 <= i < others@.len()
                &&& other == others@[i]
                &&& dist == dists@[i]
            },
            None => others@.len() == 0,
        },
{
    match world::nearest(dists) {
        Some(i) => {
            let mut others = others;
            let other = others.swap_remove(i);
            Some((other, dists[i]))
        },
        None => None,
    }
}

// ------------------------------------------------------------------------ laws

/// Whatever an agent says is at most 200 characters long, and comes no sooner
/// than its interval after the last thing it said.
pub proof fn agents_do_not_spam(
    s: SessionView,
    h: Habits,
    message: Seq<char>,
    said_at: u64,
    nearest: Option<(Seq<char>, Seq<char>, Scalar)>,
    action: Json,
    saw_new_chat: bool,
    visible: bool,
    now: u64,
)
    requires
        said_at <= now,
    ensures
        ({
            let after = having_said(s, message, said_at);
            &&& greeting_due(after, h, visible, now) matches Some(t) ==> t.len() <= MAX_SAY_LEN
                && now - said_at >= h.min_chat_interval_ms
            &&& nearby_greeting_due(after, h, nearest, visible, now) matches Some(t) ==> t.len()
                <= MAX_SAY_LEN && now - said_at >= h.min_chat_interval_ms
            &&& llm_says(after, h, action, now) matches Some(t) ==> t.len() <= MAX_SAY_LEN && now
                - said_at >= h.min_chat_interval_ms
            &&& llm_decision(after, h, saw_new_chat, visible, now) matches DecisionView::Reply(t)
                ==> t.len() <= MAX_SAY_LEN && now - said_at >= h.min_chat_interval_ms
        }),
{
}

/// A player is greeted once.
pub proof fn players_are_greeted_once(
    s: SessionView,
    h: Habits,
    id: Seq<char>,
    nickname: Seq<char>,
    greeted_at: u64,
    message: Seq<char>,
    dist: Scalar,
    visible: bool,
    now: u64,
)
    ensures
        nearby_greeting_due(
            SessionView {
                greeted: s.greeted.insert(id, greeted_at),
                ..having_said(s, message, greeted_at)
            },
            h,
            Some((id, nickname, dist)),
            visible,
            now,
        ) is None,
{
}

/// While a question is on its way no other is asked, and after an answer none for
/// a second and a half unless the agent's own clock asks for it.
pub proof fn questions_come_one_at_a_time(
    s: SessionView,
    h: Habits,
    saw_new_chat: bool,
    visible: bool,
    now: u64,
)
    ensures
        s.llm_in_flight ==> llm_decision(s, h, saw_new_chat, visible, now) !is Ask,
        llm_decision(s, h, saw_new_chat, visible, now) is Ask ==> chat::waited_longer(
            now,
            s.last_llm_ms,
            1_500,
        ) || (h.llm_tick_ms > 0 && chat::waited_longer(now, s.last_llm_ms, h.llm_tick_ms)),
{
}

/// An agent that cannot see itself keeps quiet and stays where it is.
pub proof fn unseen_agents_keep_quiet(
    s: SessionView,
    w: WorldView,
    h: Habits,
    nearest: Option<(Seq<char>, Seq<char>, Scalar)>,
    saw_new_chat: bool,
    now: u64,
)
    ensures
        greeting_due(s, h, false, now) is None,
        nearby_greeting_due(s, h, nearest, false, now) is None,
        called_to(s, w, h, saw_new_chat, false, now) is None,
        llm_decision(s, h, saw_new_chat, false, now) is Nothing,
{
}

} // verus!
