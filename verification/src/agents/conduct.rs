//! What holds of a whole session of a world agent, whatever happens in it.

use crate::agents::chat::{self, MAX_SAY_LEN};
use crate::agents::session::{self, DecisionView, Habits, SessionView};
use crate::agents::world::{self, WorldView};
use crate::json::Json;
use crate::realtime::motion::Point;
use crate::scalar::Scalar;
use crate::text;
use vstd::prelude::*;
use vstd::string::*;

verus! {

/// On what account something is said.
pub enum Cause {
    /// The greeting to all.
    Greeting,
    /// The greeting to the player nearby with this id.
    Nearby(Seq<char>),
    /// The answer of an agent without a language model.
    Reply,
    /// The wish of the language model.
    Model,
}

/// Something said, and the time of the decision to say it.
pub struct Utterance {
    pub cause: Cause,
    pub text: Seq<char>,
    pub at: u64,
}

/// A session so far, and what came of it.
pub struct Course {
    pub session: SessionView,
    /// What was sent to chat, oldest first.
    pub said: Seq<Utterance>,
    /// How often the agent moved above ground.
    pub appearances: nat,
    /// When the last step was taken.
    pub clock: u64,
}

/// One step of a session: what a method of the session is given, and whether
/// what it called for was then sent.
pub enum Step {
    /// The agent was seen under an id.
    Identified { id: Seq<char> },
    /// The first part of a tick; `self_id` is the agent's id after it.
    Opened { world: WorldView, self_id: Option<Seq<char>>, now: u64, sent: bool },
    /// The greeting to the nearest player.
    Neared {
        nearest: Option<(Seq<char>, Seq<char>, Scalar)>,
        visible: bool,
        now: u64,
        sent: bool,
    },
    /// The last part of a tick; a stroll puts the next one off.
    Closed {
        world: WorldView,
        saw_new_chat: bool,
        visible: bool,
        own_place: Option<Point>,
        next_idle_move_ms: u64,
        now: u64,
        sent: bool,
    },
    /// The language model has answered; the agent may set out on that account.
    Answered { action: Json, now: u64, sent: bool, set_out: bool },
    /// The language model has failed to answer.
    Failed { now: u64 },
}

/// The course of a session that has just begun.
pub open spec fn course_begun(now: u64, first_idle_ms: u64) -> Course {
    Course {
        session: session::begun(now, first_idle_ms),
        said: Seq::empty(),
        appearances: 0,
        clock: now,
    }
}

/// The course once something was sent to chat, with the session after that.
pub open spec fn having_spoken(
    c: Course,
    session: SessionView,
    cause: Cause,
    message: Seq<char>,
    now: u64,
) -> Course {
    Course { session, said: c.said.push(Utterance { cause, text: message, at: now }), ..c }
}

/// The first part of a tick.
pub open spec fn course_opened(
    h: Habits,
    c: Course,
    w: WorldView,
    self_id: Option<Seq<char>>,
    now: u64,
    sent: bool,
) -> Course {
    let s = SessionView { self_id, ..c.session };
    let visible = world::self_seen(w.players, h.nickname@);
    let opened = session::opened(s, w, h, now);
    let after = Course {
        session: opened,
        appearances: c.appearances + if visible && !s.spawned {
            1nat
        } else {
            0
        },
        clock: now,
        ..c
    };
    match session::greeting_due(session::settled_in(s, w, h, now), h, visible, now) {
        Some(message) => if sent {
            having_spoken(
                after,
                SessionView {
                    greeting_sent: true,
                    ..session::having_said(opened, message, now)
                },
                Cause::Greeting,
                message,
                now,
            )
        } else {
            after
        },
        None => after,
    }
}

/// The greeting to the nearest player.
pub open spec fn course_neared(
    h: Habits,
    c: Course,
    nearest: Option<(Seq<char>, Seq<char>, Scalar)>,
    visible: bool,
    now: u64,
    sent: bool,
) -> Course {
    let after = Course { clock: now, ..c };
    match session::nearby_greeting_due(c.session, h, nearest, visible, now) {
        Some(message) => if sent {
            let id = (nearest->0).0;
            having_spoken(
                after,
                SessionView {
                    greeted: c.session.greeted.insert(id, now),
                    ..session::having_said(c.session, message, now)
                },
                Cause::Nearby(id),
                message,
                now,
            )
        } else {
            after
        },
        None => after,
    }
}

/// The last part of a tick.
pub open spec fn course_closed(
    h: Habits,
    c: Course,
    w: WorldView,
    saw_new_chat: bool,
    visible: bool,
    own_place: Option<Point>,
    next_idle_move_ms: u64,
    now: u64,
    sent: bool,
) -> Course {
    let s = c.session;
    let closed = session::closed_tick(s, w, h, saw_new_chat, visible, now);
    let walked = if session::walk_of(s, w, h, saw_new_chat, visible, own_place, now) is Stroll {
        SessionView { last_move_ms: now, next_idle_move_ms, ..closed }
    } else {
        closed
    };
    let after = Course { session: walked, clock: now, ..c };
    match session::llm_decision(s, h, saw_new_chat, visible, now) {
        DecisionView::Reply(message) => if sent {
            having_spoken(
                after,
                session::having_said(walked, message, now),
                Cause::Reply,
                message,
                now,
            )
        } else {
            after
        },
        _ => after,
    }
}

/// An answer of the language model.
pub open spec fn course_answered(
    h: Habits,
    c: Course,
    action: Json,
    now: u64,
    sent: bool,
    set_out: bool,
) -> Course {
    let walked = SessionView {
        llm_in_flight: false,
        last_llm_ms: now,
        last_move_ms: if set_out {
            now
        } else {
            c.session.last_move_ms
        },
        ..c.session
    };
    let after = Course { session: walked, clock: now, ..c };
    match session::llm_says(c.session, h, action, now) {
        Some(message) => if sent {
            having_spoken(
                after,
                session::having_said(walked, message, now),
                Cause::Model,
                message,
                now,
            )
        } else {
            after
        },
        None => after,
    }
}

/// The course after one more step.
pub open spec fn after_step(h: Habits, c: Course, step: Step) -> Course {
    match step {
        Step::Identified { id } => Course {
            session: SessionView {
                self_id: if c.session.self_id is None {
                    Some(id)
                } else {
                    c.session.self_id
                },
                ..c.session
            },
            ..c
        },
        Step::Opened { world, self_id, now, sent } => course_opened(
            h,
            c,
            world,
            self_id,
            now,
            sent,
        ),
        Step::Neared { nearest, visible, now, sent } => course_neared(
            h,
            c,
            nearest,
            visible,
            now,
            sent,
        ),
        Step::Closed {
            world,
            saw_new_chat,
            visible,
            own_place,
            next_idle_move_ms,
            now,
            sent,
        } => course_closed(
            h,
            c,
            world,
            saw_new_chat,
            visible,
            own_place,
            next_idle_move_ms,
            now,
            sent,
        ),
        Step::Answered { action, now, sent, set_out } => course_answered(
            h,
            c,
            action,
            now,
            sent,
            set_out,
        ),
        Step::Failed { now } => Course {
            session: SessionView { llm_in_flight: false, last_llm_ms: now, ..c.session },
            clock: now,
            ..c
        },
    }
}

/// Whether a step is not taken before the one ahead of it.
pub open spec fn in_time(c: Course, step: Step) -> bool {
    match step {
        Step::Identified { .. } => true,
        Step::Opened { now, .. } => c.clock <= now,
        Step::Neared { now, .. } => c.clock <= now,
        Step::Closed { now, .. } => c.clock <= now,
        Step::Answered { now, .. } => c.clock <= now,
        Step::Failed { now } => c.clock <= now,
    }
}

/// The course of a session that takes these steps.
pub open spec fn course_of(h: Habits, now: u64, first_idle_ms: u64, steps: Seq<Step>) -> Course
    decreases steps.len(),
{
    if steps.len() == 0 {
        course_begun(now, first_idle_ms)
    } else {
        after_step(h, course_of(h, now, first_idle_ms, steps.drop_last()), steps.last())
    }
}

/// Whether the clock does not run backwards while a session takes these steps.
pub open spec fn clock_runs_on(
    h: Habits,
    now: u64,
    first_idle_ms: u64,
    steps: Seq<Step>,
) -> bool {
    forall|i: int|
        0 <= i < steps.len() ==> in_time(
            course_of(h, now, first_idle_ms, steps.take(i)),
            #[trigger] steps[i],
        )
}

// ------------------------------------------------------------------- conduct

/// Whether a text has words, and not too many.
pub open spec fn is_sayable(message: Seq<char>) -> bool {
    0 < message.len() <= MAX_SAY_LEN
}

/// Whether an utterance comes well after the one ahead of it: no sooner than the
/// interval, and, on behalf of the language model, with other words.
pub open spec fn in_turn(h: Habits, said: Seq<Utterance>, i: int) -> bool {
    &&& said[i].at - said[i - 1].at >= h.min_chat_interval_ms
    &&& said[i].cause is Model ==> chat::folded(said[i].text) != chat::folded(said[i - 1].text)
}

/// Whether two utterances greet the same: all, or one player.
pub open spec fn greet_alike(a: Utterance, b: Utterance) -> bool {
    match (a.cause, b.cause) {
        (Cause::Greeting, Cause::Greeting) => true,
        (Cause::Nearby(x), Cause::Nearby(y)) => x == y,
        _ => false,
    }
}

/// Whether everything said in a session was sayable, in its turn, and greeted
/// nobody again, and the agent appeared at most once.
pub open spec fn well_behaved(h: Habits, c: Course) -> bool {
    &&& forall|i: int| 0 <= i < c.said.len() ==> is_sayable((#[trigger] c.said[i]).text)
    &&& forall|i: int| 1 <= i < c.said.len() ==> #[trigger] in_turn(h, c.said, i)
    &&& forall|i: int, j: int|
        0 <= i < j < c.said.len() ==> !#[trigger] greet_alike(c.said[i], c.said[j])
    &&& c.appearances <= 1
}

/// Whether a session remembers what it said and whom it greeted.
spec fn remembers(c: Course) -> bool {
    &&& c.said.len() > 0 ==> {
        &&& c.session.last_sent_chat_ms == c.said.last().at
        &&& c.session.last_sent_chat_text == c.said.last().text
        &&& c.said.last().at <= c.clock
    }
    &&& forall|i: int|
        0 <= i < c.said.len() ==> match (#[trigger] c.said[i]).cause {
            Cause::Greeting => c.session.greeting_sent,
            Cause::Nearby(id) => c.session.greeted.contains_key(id),
            _ => true,
        }
    &&& c.appearances == if c.session.spawned {
        1nat
    } else {
        0
    }
}

/// Speaking in turn keeps a session well behaved.
proof fn lemma_spoken(
    h: Habits,
    c: Course,
    session: SessionView,
    cause: Cause,
    message: Seq<char>,
    now: u64,
)
    requires
        well_behaved(h, c),
        remembers(c),
        c.clock == now,
        is_sayable(message),
        c.said.len() > 0 ==> now - c.said.last().at >= h.min_chat_interval_ms,
        c.said.len() > 0 && cause is Model ==> chat::folded(message) != chat::folded(
            c.said.last().text,
        ),
        forall|i: int|
            0 <= i < c.said.len() ==> !greet_alike(
                #[trigger] c.said[i],
                Utterance { cause, text: message, at: now },
            ),
        session.last_sent_chat_ms == now,
        session.last_sent_chat_text == message,
        c.session.greeting_sent ==> session.greeting_sent,
        forall|id: Seq<char>| #[trigger]
            c.session.greeted.contains_key(id) ==> session.greeted.contains_key(id),
        cause is Greeting ==> session.greeting_sent,
        cause matches Cause::Nearby(id) ==> session.greeted.contains_key(id),
        session.spawned == c.session.spawned,
    ensures
        well_behaved(h, having_spoken(c, session, cause, message, now)),
        remembers(having_spoken(c, session, cause, message, now)),
{
    let after = having_spoken(c, session, cause, message, now);
    assert forall|i: int| 1 <= i < after.said.len() implies #[trigger] in_turn(
        h,
        after.said,
        i,
    ) by {
        if i < c.said.len() {
            assert(in_turn(h, c.said, i));
        }
    }
    assert forall|i: int, j: int| 0 <= i < j < after.said.len() implies !#[trigger] greet_alike(
        after.said[i],
        after.said[j],
    ) by {
        if j < c.said.len() {
            assert(!greet_alike(c.said[i], c.said[j]));
        }
    }
}

/// The greeting to a player nearby, and the answer of an agent without a language
/// model, always have words, and at most 200 characters.
pub proof fn greetings_and_replies_have_words(nickname: Seq<char>, message: Seq<char>)
    ensures
        is_sayable(session::utterance(chat::greeting_for(nickname))),
        is_sayable(session::utterance(chat::echo_for(nickname, message))),
{
    reveal_strlit("hey ");
    reveal_strlit("ok ");
    assert(chat::greeting_for(nickname)[0] == 'h');
    assert(chat::echo_for(nickname, message)[0] == 'o');
    text::lemma_words_outlive_trimming(chat::greeting_for(nickname));
    text::lemma_words_outlive_trimming(chat::echo_for(nickname, message));
}

/// Every step keeps a session well behaved.
proof fn lemma_step(h: Habits, c: Course, step: Step)
    requires
        well_behaved(h, c),
        remembers(c),
        in_time(c, step),
    ensures
        well_behaved(h, after_step(h, c, step)),
        remembers(after_step(h, c, step)),
{
    match step {
        Step::Identified { id } => {
            let after = after_step(h, c, step);
            assert(after.said == c.said);
        },
        Step::Opened { world: w, self_id, now, sent } => {
            let s = SessionView { self_id, ..c.session };
            let visible = world::self_seen(w.players, h.nickname@);
            let after = course_opened(h, c, w, self_id, now, false);
            assert(after.said == c.said);
            assert(well_behaved(h, after) && remembers(after));
            let due = session::greeting_due(session::settled_in(s, w, h, now), h, visible, now);
            if sent && due is Some {
                let said = SessionView {
                    greeting_sent: true,
                    ..session::having_said(after.session, due->0, now)
                };
                lemma_spoken(h, after, said, Cause::Greeting, due->0, now);
            }
        },
        Step::Neared { nearest, visible, now, sent } => {
            let after = Course { clock: now, ..c };
            assert(after.said == c.said);
            assert(well_behaved(h, after) && remembers(after));
            let due = session::nearby_greeting_due(c.session, h, nearest, visible, now);
            if sent && due is Some {
                let (id, nickname, _) = nearest->0;
                let said = SessionView {
                    greeted: c.session.greeted.insert(id, now),
                    ..session::having_said(c.session, due->0, now)
                };
                greetings_and_replies_have_words(nickname, Seq::empty());
                lemma_spoken(h, after, said, Cause::Nearby(id), due->0, now);
            }
        },
        Step::Closed {
            world: w,
            saw_new_chat,
            visible,
            own_place,
            next_idle_move_ms,
            now,
            sent,
        } => {
            let after = course_closed(
                h,
                c,
                w,
                saw_new_chat,
                visible,
                own_place,
                next_idle_move_ms,
                now,
                false,
            );
            assert(after.said == c.said);
            assert(well_behaved(h, after) && remembers(after));
            match session::llm_decision(c.session, h, saw_new_chat, visible, now) {
                DecisionView::Reply(message) => {
                    if sent {
                        let line = c.session.last_incoming_chat->0;
                        greetings_and_replies_have_words(line.nickname, line.message);
                        let said = session::having_said(after.session, message, now);
                        lemma_spoken(h, after, said, Cause::Reply, message, now);
                    }
                },
                _ => {},
            }
        },
        Step::Answered { action, now, sent, set_out } => {
            let after = course_answered(h, c, action, now, false, set_out);
            assert(after.said == c.said);
            assert(well_behaved(h, after) && remembers(after));
            let due = session::llm_says(c.session, h, action, now);
            if sent && due is Some {
                let said = session::having_said(after.session, due->0, now);
                lemma_spoken(h, after, said, Cause::Model, due->0, now);
            }
        },
        Step::Failed { now } => {
            let after = after_step(h, c, step);
            assert(after.said == c.said);
        },
    }
}

proof fn lemma_course(h: Habits, now: u64, first_idle_ms: u64, steps: Seq<Step>)
    requires
        clock_runs_on(h, now, first_idle_ms, steps),
    ensures
        well_behaved(h, course_of(h, now, first_idle_ms, steps)),
        remembers(course_of(h, now, first_idle_ms, steps)),
    decreases steps.len(),
{
    if steps.len() > 0 {
        let front = steps.drop_last();
        let n = steps.len() - 1;
        assert(steps.take(n) =~= front);
        assert(in_time(course_of(h, now, first_idle_ms, steps.take(n)), steps[n]));
        assert forall|i: int| 0 <= i < front.len() implies in_time(
            course_of(h, now, first_idle_ms, front.take(i)),
            #[trigger] front[i],
        ) by {
            assert(front.take(i) =~= steps.take(i));
            assert(steps[i] == front[i]);
        }
        lemma_course(h, now, first_idle_ms, front);
        lemma_step(h, course_of(h, now, first_idle_ms, front), steps.last());
    }
}

/// Whatever happens in a session, as long as the clock does not run backwards:
/// all that the agent says has words and at most 200 characters; whatever it says
/// next comes no sooner than its interval; what the language model proposes is
/// not said when it is what was said last, but for case and the white space
/// around it; the greeting to all is said at most once, as is the greeting to any
/// one player; and the agent moves above ground at most once.
pub proof fn agents_behave_all_session_long(
    h: Habits,
    now: u64,
    first_idle_ms: u64,
    steps: Seq<Step>,
)
    requires
        clock_runs_on(h, now, first_idle_ms, steps),
    ensures
        ({
            let c = course_of(h, now, first_idle_ms, steps);
            &&& forall|i: int|
                0 <= i < c.said.len() ==> is_sayable((#[trigger] c.said[i]).text)
            &&& forall|i: int| 1 <= i < c.said.len() ==> #[trigger] in_turn(h, c.said, i)
            &&& forall|i: int, j: int|
                0 <= i < j < c.said.len() ==> !#[trigger] greet_alike(c.said[i], c.said[j])
            &&& c.appearances <= 1
        }),
{
    lemma_course(h, now, first_idle_ms, steps);
}

} // verus!
