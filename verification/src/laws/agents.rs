//! What an agent sees and hears of the world.

use crate::agents::chat;
use crate::agents::llm;
use crate::agents::world::{self, ChatLine, Other, Player, PlayerView, World};
use crate::json::Json;
use crate::laws::numbers::{self, is_less, is_number};
use crate::laws::setup;
use crate::laws::texts;
use crate::realtime::motion::Point;
use crate::scalar::{self, Scalar};
use crate::text;
use vstd::prelude::*;
use vstd::string::*;

verus! {

// ------------------------------------------------------------------------- chat

/// Whether a text occurs in another.
pub open spec fn occurs(part: Seq<char>, s: Seq<char>) -> bool {
    exists|before: Seq<char>, after: Seq<char>| s == #[trigger] (before + part + after)
}

proof fn lemma_occurs(part: Seq<char>, s: Seq<char>)
    ensures
        text::has_part(s, part) <==> occurs(part, s),
{
    if text::has_part(s, part) {
        let i = choose|i: int|
            0 <= i <= s.len() - part.len() && #[trigger] s.subrange(i, i + part.len()) == part;
        assert(s =~= s.take(i) + part + s.skip(i + part.len()));
    }
    if occurs(part, s) {
        let (before, after) = choose|before: Seq<char>, after: Seq<char>|
            s == #[trigger] (before + part + after);
        let i = before.len() as int;
        assert(s.subrange(i, i + part.len()) =~= part);
    }
}

/// A message is for a bridged bot exactly if the bot has a name and the message
/// has words, and the name or the word `agent` is in it; white space around either
/// and the case of ASCII letters do not matter.
pub proof fn bots_are_called_by_name(
    name: &str,
    message: &str,
    n: String,
    m: String,
    small_name: String,
    small_message: String,
    r: bool,
)
    requires
        call_ensures(text::trim, (name,), n),
        call_ensures(text::trim, (message,), m),
        call_ensures(chat::norm_ascii, (name,), small_name),
        call_ensures(chat::norm_ascii, (message,), small_message),
        call_ensures(chat::bot_addressed, (name, message), r),
    ensures
        r <==> n@.len() > 0 && m@.len() > 0 && (occurs(small_name@, small_message@) || occurs(
            "agent"@,
            small_message@,
        )),
        setup::same_but_for_case(small_name@, n@),
        setup::same_but_for_case(small_message@, m@),
        forall|i: int|
            0 <= i < small_message@.len() ==> !('A' <= #[trigger] small_message@[i] <= 'Z'),
{
    lemma_occurs(small_name@, small_message@);
    lemma_occurs("agent"@, small_message@);
    assert forall|i: int| 0 <= i < n@.len() implies small_name@[i] == text::ascii_lower(
        #[trigger] n@[i],
    ) by {}
    assert forall|i: int| 0 <= i < m@.len() implies small_message@[i] == text::ascii_lower(
        #[trigger] m@[i],
    ) by {}
}

/// A message is for a world agent exactly if the agent has a name and the message
/// has words in lower case, and the name or one of the words `agent`, `бот` and
/// `@bot` is in it.
pub proof fn agents_are_called_by_name(
    name: &str,
    message: &str,
    small_name: String,
    small_message: String,
    r: bool,
    folded: bool,
    a: &str,
    b: &str,
)
    requires
        call_ensures(chat::norm, (name,), small_name),
        call_ensures(chat::norm, (message,), small_message),
        call_ensures(chat::is_addressed_to_bot, (name, message), r),
        a@ == small_name@,
        b@ == small_message@,
        call_ensures(chat::calls, (a, b), folded),
    ensures
        r == folded,
        r <==> small_name@.len() > 0 && small_message@.len() > 0 && (occurs(
            small_name@,
            small_message@,
        ) || occurs("agent"@, small_message@) || occurs("бот"@, small_message@) || occurs(
            "@bot"@,
            small_message@,
        )),
        exists|core: Seq<char>| #[trigger]
            texts::is_core(name@, core) && small_name@ == text::unicode_lowercase(core),
{
    lemma_occurs(small_name@, small_message@);
    lemma_occurs("agent"@, small_message@);
    lemma_occurs("бот"@, small_message@);
    lemma_occurs("@bot"@, small_message@);
    texts::lemma_trimmed_is_core(name@);
    assert(texts::is_core(name@, text::trimmed(name@)));
}

/// Names are alike and messages new as their lower case says; an empty name has
/// no namesake, and an empty message is never new.
pub proof fn likeness_goes_by_lower_case(
    own: &str,
    folded_own: &str,
    folded_theirs: &str,
    same: bool,
    new: bool,
)
    requires
        call_ensures(chat::is_same_name, (own, folded_own, folded_theirs), same),
        call_ensures(chat::is_new, (own, folded_own, folded_theirs), new),
    ensures
        own@.len() == 0 ==> !same && !new,
        own@.len() > 0 ==> same == (folded_own@ == folded_theirs@) && new == !same,
{
}

/// Time has been waited out exactly if at least that much has passed, and longer
/// exactly if more has; a clock that ran backwards shows no time passed.
pub proof fn waiting_is_measured(now: u64, last: u64, interval: u64, r: bool, longer: bool)
    requires
        call_ensures(chat::has_waited, (now, last, interval), r),
        call_ensures(chat::has_waited_longer, (now, last, interval), longer),
    ensures
        last <= now ==> r == (interval <= now - last) && longer == (interval < now - last),
        now < last ==> r == (interval == 0) && !longer,
{
}

/// A greeting names the one greeted, and an echo names its author and repeats the
/// message; a line is quoted with its author.
pub proof fn words_are_put_as_meant(
    nickname: &str,
    message: &str,
    greeting: String,
    echo: String,
    line: String,
)
    requires
        call_ensures(chat::greet, (nickname,), greeting),
        call_ensures(chat::echo_back, (nickname, message), echo),
        call_ensures(chat::quote, (nickname, message), line),
    ensures
        greeting@ == "hey "@ + nickname@ + " :)"@,
        echo@ == "ok "@ + nickname@ + ", you said: "@ + message@,
        line@ == nickname@ + ": "@ + message@,
{
}

proof fn lemma_stacked(lines: Seq<Seq<char>>)
    ensures
        chat::stacked(lines) == texts::joined(lines, '\n'),
    decreases lines.len(),
{
    reveal_strlit("\n");
    if lines.len() > 1 {
        lemma_stacked(lines.drop_last());
        lemma_joined(lines);
        assert(seq!['\n'] =~= "\n"@);
    }
}

proof fn lemma_joined(lines: Seq<Seq<char>>)
    requires
        lines.len() > 1,
    ensures
        texts::joined(lines, '\n') == texts::joined(lines.drop_last(), '\n') + seq!['\n']
            + lines.last(),
    decreases lines.len(),
{
    let rest = lines.drop_first();
    if lines.len() > 2 {
        lemma_joined(rest);
        assert(lines.drop_last().drop_first() =~= rest.drop_last());
        assert(texts::joined(lines, '\n') =~= texts::joined(lines.drop_last(), '\n') + seq!['\n']
            + lines.last());
    } else {
        assert(texts::joined(rest, '\n') == lines.last());
        assert(texts::joined(lines.drop_last(), '\n') == lines[0]);
        assert(texts::joined(lines, '\n') =~= lines[0] + seq!['\n'] + lines.last());
    }
}

/// Lines stand one below the other, in their order.
pub proof fn lines_stand_in_order(lines: &Vec<String>, r: String)
    requires
        call_ensures(chat::stack, (lines,), r),
    ensures
        r@ == texts::joined(text::texts(lines@), '\n'),
{
    lemma_stacked(text::texts(lines@));
}

// --------------------------------------------------------------------- the model

/// The address of the model is the base without slashes at its end, and the path.
pub proof fn models_are_asked_at_their_address(url: &str, base: String, b: &str, r: String)
    requires
        call_ensures(llm::base_url, (url,), base),
        call_ensures(llm::completions_url, (b,), r),
        b@ == base@,
    ensures
        setup::is_stem(url@, base@),
        r@ == base@ + "/chat/completions"@,
{
    setup::lemma_stem(url@);
}

/// An HTTP answer is refused exactly if its status is no success, and the refusal
/// names the status and the body.
pub proof fn refusals_say_why(success: bool, status: &str, body: &str, r: Option<String>)
    requires
        call_ensures(llm::reply_refused, (success, status, body), r),
    ensures
        r is None <==> success,
        r matches Some(t) ==> t@ == "Kimi HTTP "@ + status@ + " response: "@ + body@,
{
}

/// The answer is the text under `content` in the `message` of the first of the
/// `choices`, without the white space around it; where there is none it is empty.
pub proof fn answers_stand_in_the_first_choice(
    reply: &Json,
    choices: Option<&Json>,
    first: Option<&Json>,
    message: Option<&Json>,
    content: String,
    r: String,
)
    requires
        call_ensures(Json::get, (reply, "choices"), choices),
        choices matches Some(c) ==> call_ensures(Json::at, (c, 0usize), first),
        first matches Some(f) ==> call_ensures(Json::get, (f, "message"), message),
        message matches Some(m) ==> call_ensures(
            Json::text_field_or_empty,
            (m, "content"),
            content,
        ),
        call_ensures(llm::content, (reply,), r),
    ensures
        choices is Some && first is Some && message is Some ==> texts::is_core(content@, r@),
        choices is None || (choices is Some && first is None) || (choices is Some && first is Some
            && message is None) ==> r@.len() == 0,
{
    texts::lemma_trimmed_is_core(content@);
    assert(text::trimmed(Seq::<char>::empty()).len() == 0) by {
        texts::lemma_trimmed_is_core(Seq::<char>::empty());
    }
}

/// What the model wants said is the text under `say`, and there is none without it.
pub proof fn sayings_stand_under_say(action: &Json, found: Option<&String>, r: Option<String>)
    requires
        call_ensures(Json::text_field, (action, "say"), found),
        call_ensures(llm::say_in, (action,), r),
    ensures
        r is Some <==> found is Some,
        r matches Some(t) ==> t@ == found->0@,
{
}

/// The model goes where the object under `goto` says, with missing coordinates
/// zero, at the speed it says or else at the agent's own, but never below 0.1 nor
/// above 50; without such an object it goes nowhere.
pub proof fn walks_stand_under_goto(
    action: &Json,
    own_speed: Scalar,
    goto: Option<&Json>,
    zero: Scalar,
    x: Scalar,
    y: Scalar,
    z: Scalar,
    speed: Scalar,
    r: Option<(Point, Scalar)>,
)
    requires
        call_ensures(Json::get, (action, "goto"), goto),
        zero.bits == 0,
        goto matches Some(g) ==> call_ensures(Json::single_field_or, (g, "x", zero), x),
        goto matches Some(g) ==> call_ensures(Json::single_field_or, (g, "y", zero), y),
        goto matches Some(g) ==> call_ensures(Json::single_field_or, (g, "z", zero), z),
        goto matches Some(g) ==> call_ensures(
            Json::single_field_or,
            (g, "speed", own_speed),
            speed,
        ),
        call_ensures(llm::goto_in, (action, own_speed), r),
    ensures
        r is Some <==> (goto matches Some(Json::Object(_))),
        r matches Some((at, v)) ==> {
            &&& at.x == x && at.y == y && at.z == z
            &&& is_number(speed) ==> is_number(v) && !is_less(v, Scalar { bits: 0x3dcc_cccd })
                && !is_less(Scalar { bits: 0x4248_0000 }, v)
            &&& !is_less(speed, Scalar { bits: 0x3dcc_cccd }) && !is_less(
                Scalar { bits: 0x4248_0000 },
                speed,
            ) ==> v == speed
            &&& is_less(speed, Scalar { bits: 0x3dcc_cccd }) ==> v.bits == 0x3dcc_cccd
            &&& is_less(Scalar { bits: 0x4248_0000 }, speed) ==> v.bits == 0x4248_0000
        },
{
    let low = Scalar { bits: 0x3dcc_cccd };
    let high = Scalar { bits: 0x4248_0000 };
    assert(zero == Scalar { bits: 0 });
    numbers::lemma_is_less(speed, low);
    numbers::lemma_is_less(high, speed);
}

/// The question tells the model its name, where it is, who is nearest and where
/// everyone is, and what was said, in that order, and ends as told.
pub proof fn questions_tell_what_is_known(
    nickname: &str,
    position: &str,
    nearest: &str,
    players: &str,
    chat: &str,
    ending: &str,
    r: String,
)
    requires
        call_ensures(llm::ask, (nickname, position, nearest, players, chat, ending), r),
    ensures
        r@ == "You are '"@ + nickname@ + "'. Your position is "@ + position@
            + ".\nNearest player: "@ + nearest@ + "\n\nPlayers:\n"@ + players@
            + "\n\nRecent chat (may be empty):\n"@ + chat@ + "\n\n"@ + ending@,
{
}

// -------------------------------------------------------------------- the world

/// Whether a player is known as it is.
pub open spec fn is_known(players: Map<Seq<char>, PlayerView>, id: Seq<char>, p: Player) -> bool {
    &&& players.contains_key(id)
    &&& players[id].position == p.position@
    &&& players[id].rotation == p.rotation
    &&& players[id].avatar == p.avatar@
    &&& players[id].nickname == p.nickname@
}

/// Whether everyone but one is known as before.
pub open spec fn others_known(
    before: Map<Seq<char>, PlayerView>,
    after: Map<Seq<char>, PlayerView>,
    id: Seq<char>,
) -> bool {
    forall|other: Seq<char>| #![trigger after.contains_key(other)]
        other != id ==> (after.contains_key(other) <==> before.contains_key(other)) && (
        before.contains_key(other) ==> after[other] == before[other])
}

/// A newcomer is known as it is, and everyone else as before; it is told apart
/// from the agent by its name, but for case. What was said stays.
pub proof fn newcomers_are_seen(
    w: &mut World,
    id: String,
    player: Player,
    bot: &str,
    r: bool,
    at: Option<Point>,
    id_text: &str,
    own: String,
    small_own: String,
    nick: &str,
    small_nick: String,
)
    requires
        call_ensures(World::new_user, (w, id, player, bot), r),
        id_text@ == id@,
        call_ensures(World::place_of_player, (&*final(w), id_text), at),
        call_ensures(text::trim, (bot,), own),
        call_ensures(chat::norm, (bot,), small_own),
        nick@ == player.nickname@,
        call_ensures(chat::norm, (nick,), small_nick),
    ensures
        is_known(final(w)@.players, id@, player),
        others_known(old(w)@.players, final(w)@.players, id@),
        final(w)@.recent_chat == old(w)@.recent_chat,
        final(w)@.chat_seq == old(w)@.chat_seq,
        player.position@.len() == 3 ==> (at matches Some(p) && p.x == player.position@[0] && p.y
            == player.position@[1] && p.z == player.position@[2]),
        player.position@.len() != 3 ==> at is None,
        r <==> own@.len() > 0 && small_nick@ == small_own@,
{
    lemma_trimmed_once(bot@);
    lemma_trimmed_once(player.nickname@);
}

/// There is no white space left around a trimmed text.
proof fn lemma_trimmed_once(s: Seq<char>)
    ensures
        text::trimmed(text::trimmed(s)) == text::trimmed(s),
{
    let core = text::trimmed(s);
    texts::lemma_trimmed_is_core(s);
    texts::lemma_trimmed_is_core(core);
    assert(core =~= core.subrange(0, core.len() as int));
    assert(texts::core_at(core, core, 0, core.len() as int));
    texts::lemma_one_core(core, core, text::trimmed(core));
}

/// Who moved is known to be where it went, and everyone else as before.
pub proof fn movers_are_seen(
    w: &mut World,
    id: String,
    player: Player,
    id_text: &str,
    at: Option<Point>,
)
    requires
        call_ensures(World::moved, (w, id, player), ()),
        id_text@ == id@,
        call_ensures(World::place_of_player, (&*final(w), id_text), at),
    ensures
        is_known(final(w)@.players, id@, player),
        others_known(old(w)@.players, final(w)@.players, id@),
        final(w)@.recent_chat == old(w)@.recent_chat,
        final(w)@.chat_seq == old(w)@.chat_seq,
        player.position@.len() == 3 ==> (at matches Some(p) && p.x == player.position@[0] && p.y
            == player.position@[1] && p.z == player.position@[2]),
        player.position@.len() != 3 ==> at is None,
{
}

/// Who left is known no more, and everyone else as before.
pub proof fn leavers_are_not_seen(w: &mut World, id: &str, at: Option<Point>)
    requires
        call_ensures(World::delete, (w, id), ()),
        call_ensures(World::place_of_player, (&*final(w), id), at),
    ensures
        id@.len() > 0 ==> !final(w)@.players.contains_key(id@) && at is None,
        id@.len() == 0 ==> final(w)@.players == old(w)@.players,
        others_known(old(w)@.players, final(w)@.players, id@),
        final(w)@.recent_chat == old(w)@.recent_chat,
        final(w)@.chat_seq == old(w)@.chat_seq,
{
}

proof fn lemma_players_in(v: Seq<(String, Player)>, i: int)
    requires
        0 <= i < v.len(),
        forall|j: int| i < j < v.len() ==> (#[trigger] v[j]).0@ != v[i].0@,
    ensures
        is_known(world::players_in(v), v[i].0@, v[i].1),
    decreases v.len(),
{
    if i < v.len() - 1 {
        let front = v.drop_last();
        assert(v[v.len() - 1].0@ != v[i].0@);
        assert(front[i] == v[i]);
        assert forall|j: int| i < j < front.len() implies (#[trigger] front[j]).0@
            != front[i].0@ by {
            assert(front[j] == v[j]);
        }
        lemma_players_in(front, i);
    }
}

proof fn lemma_only_players_in(v: Seq<(String, Player)>, id: Seq<char>)
    requires
        world::players_in(v).contains_key(id),
    ensures
        exists|i: int| 0 <= i < v.len() && (#[trigger] v[i]).0@ == id,
    decreases v.len(),
{
    if v.len() > 0 {
        if v.last().0@ == id {
            assert(v[v.len() - 1].0@ == id);
        } else {
            let front = v.drop_last();
            lemma_only_players_in(front, id);
            let i = choose|i: int| 0 <= i < front.len() && (#[trigger] front[i]).0@ == id;
            assert(v[i] == front[i]);
        }
    }
}

/// After a list of everyone, those and nobody else are known, the later of two of
/// the same id.
pub proof fn lists_tell_of_everyone(
    w: &mut World,
    players: Vec<(String, Player)>,
    i: int,
    id: Seq<char>,
)
    requires
        call_ensures(World::existing_clients, (w, players), ()),
        0 <= i < players@.len(),
        forall|j: int| i < j < players@.len() ==> (#[trigger] players@[j]).0@ != players@[i].0@,
    ensures
        is_known(final(w)@.players, players@[i].0@, players@[i].1),
        final(w)@.players.contains_key(id) ==> exists|k: int|
            0 <= k < players@.len() && (#[trigger] players@[k]).0@ == id,
        final(w)@.recent_chat == old(w)@.recent_chat,
        final(w)@.chat_seq == old(w)@.chat_seq,
{
    lemma_players_in(players@, i);
    if final(w)@.players.contains_key(id) {
        lemma_only_players_in(players@, id);
    }
}

/// A line with an author and words that does not bear the agent's own name is the
/// last one heard, without the white space around it, and is counted; of those
/// before it the newest 19 stay. Any other line changes nothing.
pub proof fn lines_are_heard(
    w: &mut World,
    line: ChatLine,
    bot: &str,
    own: Seq<char>,
    nickname: Seq<char>,
    message: Seq<char>,
    last: Option<ChatLine>,
    seq: u64,
)
    requires
        call_ensures(World::heard, (w, line, bot), ()),
        texts::is_core(bot@, own),
        texts::is_core(line.nickname@, nickname),
        texts::is_core(line.message@, message),
        call_ensures(World::last_line, (&*final(w),), last),
        call_ensures(World::chat_seq, (&*final(w),), seq),
    ensures
        final(w)@.players == old(w)@.players,
        if nickname.len() > 0 && message.len() > 0 && nickname != own {
            let was = old(w)@.recent_chat;
            let now = final(w)@.recent_chat;
            &&& last matches Some(l) && l.from_id@ == line.from_id@ && l.nickname@ == nickname
                && l.message@ == message
            &&& old(w)@.chat_seq < u64::MAX ==> seq == old(w)@.chat_seq + 1
            &&& now.len() == if was.len() < 20 {
                was.len() + 1
            } else {
                20
            }
            &&& forall|k: int|
                1 <= k < now.len() ==> #[trigger] now[now.len() - 1 - k] == was[was.len() - k]
        } else {
            final(w)@ == old(w)@
        },
{
    texts::lemma_trimmed_is_core(bot@);
    texts::lemma_trimmed_is_core(line.nickname@);
    texts::lemma_trimmed_is_core(line.message@);
    texts::lemma_one_core(bot@, own, text::trimmed(bot@));
    texts::lemma_one_core(line.nickname@, nickname, text::trimmed(line.nickname@));
    texts::lemma_one_core(line.message@, message, text::trimmed(line.message@));
}

/// A world starts unseen and unheard.
pub proof fn worlds_start_empty(
    w: World,
    last: Option<ChatLine>,
    seq: u64,
    id: &str,
    at: Option<Point>,
)
    requires
        call_ensures(World::new, (), w),
        call_ensures(World::last_line, (&w,), last),
        call_ensures(World::chat_seq, (&w,), seq),
        call_ensures(World::place_of_player, (&w, id), at),
    ensures
        last is None,
        seq == 0,
        at is None,
        !w@.players.contains_key(id@),
{
}

/// A copy of a world shows and tells the same.
pub proof fn copies_of_worlds_tell_the_same(
    w: &World,
    copy: World,
    id: &str,
    at: Option<Point>,
    there: Option<Point>,
    last: Option<ChatLine>,
    same: Option<ChatLine>,
    seq: u64,
    counted: u64,
)
    requires
        call_ensures(World::duplicate, (w,), copy),
        call_ensures(World::place_of_player, (w, id), at),
        call_ensures(World::place_of_player, (&copy, id), there),
        call_ensures(World::last_line, (w,), last),
        call_ensures(World::last_line, (&copy,), same),
        call_ensures(World::chat_seq, (w,), seq),
        call_ensures(World::chat_seq, (&copy,), counted),
    ensures
        at == there,
        seq == counted,
        last is Some <==> same is Some,
        last matches Some(l) ==> (same matches Some(m) && m.from_id@ == l.from_id@ && m.nickname@
            == l.nickname@ && m.message@ == l.message@),
        copy@.players == w@.players && copy@.recent_chat == w@.recent_chat,
{
}

/// The lines remembered are shown oldest first, each with its author.
pub proof fn remembered_lines_are_shown(w: &World, r: String, lines: Seq<Seq<char>>)
    requires
        call_ensures(World::chat_text, (w,), r),
        lines.len() == w@.recent_chat.len(),
        forall|i: int|
            0 <= i < lines.len() ==> #[trigger] lines[i] == w@.recent_chat[i].nickname + ": "@
                + w@.recent_chat[i].message,
    ensures
        r@ == texts::joined(lines, '\n'),
{
    let shown = w@.recent_chat.map_values(
        |l: world::LineView| chat::quoted(l.nickname, l.message),
    );
    assert(shown =~= lines);
    lemma_stacked(lines);
}

/// Whether a player bears a name, but for the white space around it.
pub open spec fn bears(p: PlayerView, name: Seq<char>) -> bool {
    texts::is_core(p.nickname, name)
}

pub proof fn lemma_bears(p: PlayerView, name: Seq<char>)
    ensures
        bears(p, name) <==> world::is_called(p, name),
{
    texts::lemma_trimmed_is_core(p.nickname);
    if bears(p, name) {
        texts::lemma_one_core(p.nickname, name, text::trimmed(p.nickname));
    }
}

/// An agent with a name sees itself exactly if someone bears that name. Where it
/// has a look and someone bears both, the one taken for it does.
pub proof fn agents_know_themselves_by_name_and_look(
    w: &World,
    nickname: &str,
    avatar: &str,
    name: Seq<char>,
    look: Seq<char>,
    r: Option<String>,
    other: Seq<char>,
)
    requires
        call_ensures(World::find_self_client, (w, nickname, avatar), r),
        texts::is_core(nickname@, name),
        texts::is_core(avatar@, look),
    ensures
        r matches Some(id) ==> may_be_taken(w@.players, name, look, id@),
        r is None && name.len() > 0 ==> !(w@.players.contains_key(other) && bears(
            w@.players[other],
            name,
        )),
{
    texts::lemma_trimmed_is_core(nickname@);
    texts::lemma_trimmed_is_core(avatar@);
    texts::lemma_one_core(nickname@, name, text::trimmed(nickname@));
    texts::lemma_one_core(avatar@, look, text::trimmed(avatar@));
    lemma_bears(w@.players[other], name);
    if let Some(id) = r {
        lemma_taken(w@.players, nickname@, avatar@, id@);
    }
}

/// Whether a player is one that an agent may take for itself: it bears the agent's
/// name, and the agent's look too if anyone bears both.
pub open spec fn may_be_taken(
    players: Map<Seq<char>, PlayerView>,
    name: Seq<char>,
    look: Seq<char>,
    id: Seq<char>,
) -> bool {
    &&& name.len() > 0
    &&& players.contains_key(id)
    &&& bears(players[id], name)
    &&& look.len() > 0 && (exists|other: Seq<char>| #[trigger]
        players.contains_key(other) && bears(players[other], name) && texts::is_core(
            players[other].avatar,
            look,
        )) ==> texts::is_core(players[id].avatar, look)
}

proof fn lemma_looks(p: PlayerView, name: Seq<char>, look: Seq<char>)
    ensures
        world::looks_like(p, name, look) <==> bears(p, name) && texts::is_core(p.avatar, look),
{
    lemma_bears(p, name);
    texts::lemma_trimmed_is_core(p.avatar);
    if texts::is_core(p.avatar, look) {
        texts::lemma_one_core(p.avatar, look, text::trimmed(p.avatar));
    }
}

pub proof fn lemma_taken(
    players: Map<Seq<char>, PlayerView>,
    nickname: Seq<char>,
    avatar: Seq<char>,
    id: Seq<char>,
)
    ensures
        world::taken_for_self(players, nickname, avatar, id) <==> may_be_taken(
            players,
            text::trimmed(nickname),
            text::trimmed(avatar),
            id,
        ),
        texts::is_core(nickname, text::trimmed(nickname)),
        texts::is_core(avatar, text::trimmed(avatar)),
{
    let name = text::trimmed(nickname);
    let look = text::trimmed(avatar);
    texts::lemma_trimmed_is_core(nickname);
    texts::lemma_trimmed_is_core(avatar);
    lemma_bears(players[id], name);
    lemma_looks(players[id], name, look);
    if exists|other: Seq<char>| #[trigger]
        players.contains_key(other) && bears(players[other], name) && texts::is_core(
            players[other].avatar,
            look,
        ) {
        let other = choose|other: Seq<char>| #[trigger]
            players.contains_key(other) && bears(players[other], name) && texts::is_core(
                players[other].avatar,
                look,
            );
        lemma_looks(players[other], name, look);
    }
    if exists|other: Seq<char>| #[trigger]
        players.contains_key(other) && world::looks_like(players[other], name, look) {
        let other = choose|other: Seq<char>| #[trigger]
            players.contains_key(other) && world::looks_like(players[other], name, look);
        lemma_looks(players[other], name, look);
    }
}

/// Whether a place is that of a player known to have three coordinates.
pub open spec fn stands_at(
    players: Map<Seq<char>, PlayerView>,
    id: Seq<char>,
    at: Point,
) -> bool {
    &&& players.contains_key(id)
    &&& players[id].position.len() == 3
    &&& at.x == players[id].position[0]
    &&& at.y == players[id].position[1]
    &&& at.z == players[id].position[2]
}

/// A list names a place exactly if it is three numbers: those.
pub proof fn three_numbers_name_a_place(v: &Vec<Scalar>, r: Option<Point>)
    requires
        call_ensures(world::to_vec3, (v,), r),
    ensures
        r is Some <==> v@.len() == 3,
        r matches Some(p) ==> p.x == v@[0] && p.y == v@[1] && p.z == v@[2],
{
}

/// Where a player is known to stand is where it is found.
pub proof fn players_are_found_where_they_stand(w: &World, id: &str, r: Option<Point>, at: Point)
    requires
        call_ensures(World::place_of_player, (w, id), r),
    ensures
        r == Some(at) <==> stands_at(w@.players, id@, at),
{
}

/// Where the agent is: where the player of its own id stands, else where the one
/// taken for it stands. It is nowhere only if none of them stands anywhere.
pub proof fn agents_know_where_they_are(
    w: &World,
    self_id: &Option<String>,
    nickname: &str,
    avatar: &str,
    name: Seq<char>,
    look: Seq<char>,
    r: Option<Point>,
    by_name: Option<Point>,
    at: Point,
    id: Seq<char>,
)
    requires
        call_ensures(World::own_place, (w, self_id, nickname, avatar), r),
        call_ensures(World::own_place_by_name, (w, self_id, nickname), by_name),
        texts::is_core(nickname@, name),
        texts::is_core(avatar@, look),
    ensures
        self_id matches Some(own) ==> stands_at(w@.players, own@, at) ==> r == Some(at) && by_name
            == Some(at),
        self_id matches Some(own) ==> by_name matches Some(p) ==> stands_at(w@.players, own@, p),
        r matches Some(p) ==> (self_id matches Some(own) && stands_at(w@.players, own@, p)) || (
        exists|taken: Seq<char>| #[trigger]
            stands_at(w@.players, taken, p) && may_be_taken(w@.players, name, look, taken)),
        by_name matches Some(p) ==> self_id is None ==> exists|named: Seq<char>| #[trigger]
            stands_at(w@.players, named, p) && bears(w@.players[named], name),
        r is None && name.len() > 0 && w@.players.contains_key(id) && bears(w@.players[id], name)
            ==> exists|taken: Seq<char>| #[trigger]
            may_be_taken(w@.players, name, look, taken) && w@.players[taken].position.len() != 3,
        by_name is None && self_id is None && w@.players.contains_key(id) && bears(
            w@.players[id],
            name,
        ) ==> exists|named: Seq<char>| #[trigger]
            w@.players.contains_key(named) && bears(w@.players[named], name)
                && w@.players[named].position.len() != 3,
{
    texts::lemma_trimmed_is_core(nickname@);
    texts::lemma_one_core(nickname@, name, text::trimmed(nickname@));
    texts::lemma_trimmed_is_core(avatar@);
    texts::lemma_one_core(avatar@, look, text::trimmed(avatar@));
    lemma_bears(w@.players[id], name);
    let known = self_id is Some && world::known_place(w@.players, self_id->0@) is Some;
    if !known && world::self_seen(w@.players, nickname@) {
        let taken = choose|taken: Seq<char>| #[trigger]
            world::taken_for_self(w@.players, nickname@, avatar@, taken) && r
                == world::known_place(w@.players, taken);
        lemma_taken(w@.players, nickname@, avatar@, taken);
        if let Some(p) = r {
            assert(stands_at(w@.players, taken, p));
        }
    }
    if self_id is None && exists|named: Seq<char>| #[trigger]
        w@.players.contains_key(named) && world::is_called(w@.players[named], name) {
        let named = choose|named: Seq<char>| #[trigger]
            w@.players.contains_key(named) && world::is_called(w@.players[named], name) && by_name
                == world::place_of(w@.players[named].position);
        lemma_bears(w@.players[named], name);
        if let Some(p) = by_name {
            assert(stands_at(w@.players, named, p));
        }
    }
}

/// Whether someone in the list is a player with its place and name.
pub open spec fn is_listed(
    players: Map<Seq<char>, PlayerView>,
    found: Seq<Other>,
    id: Seq<char>,
) -> bool {
    exists|k: int|
        0 <= k < found.len() && (#[trigger] found[k]).id@ == id && stands_at(
            players,
            id,
            found[k].at,
        ) && bears(players[id], found[k].nickname@)
}

proof fn lemma_listed(players: Map<Seq<char>, PlayerView>, found: Seq<Other>, k: int)
    requires
        0 <= k < found.len(),
        players.contains_key(found[k].id@),
        world::place_of(players[found[k].id@].position) == Some(found[k].at),
        found[k].nickname@ == text::trimmed(players[found[k].id@].nickname),
    ensures
        is_listed(players, found, found[k].id@),
{
    lemma_bears(players[found[k].id@], found[k].nickname@);
    assert(stands_at(players, found[k].id@, found[k].at));
}

/// The others are those with a name and a place who are not the agent: not by its
/// id, and not by its name as long as it does not know its id. Each is listed once,
/// with its place and name, and nobody else is.
pub proof fn others_are_everyone_else(
    w: &World,
    self_id: &Option<String>,
    nickname: &str,
    name: Seq<char>,
    r: Vec<Other>,
    id: Seq<char>,
    at: Point,
    called: Seq<char>,
)
    requires
        call_ensures(World::others, (w, self_id, nickname), r),
        texts::is_core(nickname@, name),
        stands_at(w@.players, id, at),
        bears(w@.players[id], called),
    ensures
        is_listed(w@.players, r@, id) <==> called.len() > 0 && (self_id matches Some(own) ==> own@
            != id) && (self_id is None ==> called != name),
        forall|k: int, l: int|
            0 <= k < l < r@.len() ==> (#[trigger] r@[k]).id@ != (#[trigger] r@[l]).id@,
        forall|k: int| 0 <= k < r@.len() ==> is_listed(w@.players, r@, (#[trigger] r@[k]).id@),
{
    texts::lemma_trimmed_is_core(nickname@);
    texts::lemma_one_core(nickname@, name, text::trimmed(nickname@));
    lemma_bears(w@.players[id], called);
    lemma_bears(w@.players[id], name);
    let own = text::opt_text(*self_id);
    assert forall|k: int| 0 <= k < r@.len() implies is_listed(
        w@.players,
        r@,
        (#[trigger] r@[k]).id@,
    ) by {
        lemma_listed(w@.players, r@, k);
    }
    assert(world::place_of(w@.players[id].position) == Some(at));
    if world::is_other(w@.players, own, nickname@, id) {
        let k = choose|k: int| 0 <= k < r@.len() && (#[trigger] r@[k]).id@ == id;
        lemma_listed(w@.players, r@, k);
    }
    if is_listed(w@.players, r@, id) {
        let k = choose|k: int| 0 <= k < r@.len() && (#[trigger] r@[k]).id@ == id;
        assert(world::is_other(w@.players, own, nickname@, r@[k].id@));
    }
}

/// Those with a name and a place are shown, each once, with its place and name, and
/// nobody else is.
pub proof fn everyone_with_a_name_is_shown(
    w: &World,
    r: Vec<Other>,
    id: Seq<char>,
    at: Point,
    called: Seq<char>,
)
    requires
        call_ensures(World::named_players, (w,), r),
        stands_at(w@.players, id, at),
        bears(w@.players[id], called),
    ensures
        is_listed(w@.players, r@, id) <==> called.len() > 0,
        forall|k: int, l: int|
            0 <= k < l < r@.len() ==> (#[trigger] r@[k]).id@ != (#[trigger] r@[l]).id@,
        forall|k: int| 0 <= k < r@.len() ==> is_listed(w@.players, r@, (#[trigger] r@[k]).id@),
{
    lemma_bears(w@.players[id], called);
    assert forall|k: int| 0 <= k < r@.len() implies is_listed(
        w@.players,
        r@,
        (#[trigger] r@[k]).id@,
    ) by {
        lemma_listed(w@.players, r@, k);
    }
    assert(world::place_of(w@.players[id].position) == Some(at));
    if world::is_shown(w@.players, id) {
        let k = choose|k: int| 0 <= k < r@.len() && (#[trigger] r@[k]).id@ == id;
        lemma_listed(w@.players, r@, k);
    }
    if is_listed(w@.players, r@, id) {
        let k = choose|k: int| 0 <= k < r@.len() && (#[trigger] r@[k]).id@ == id;
        assert(world::is_shown(w@.players, r@[k].id@));
    }
}

/// An agent that knows where it is sees the others, and one that does not sees
/// nobody.
pub proof fn snapshots_hold_oneself_and_the_others(
    w: &World,
    self_id: &Option<String>,
    nickname: &str,
    place: Option<Point>,
    others: Vec<Other>,
    r: (Option<Point>, Vec<Other>),
    id: Seq<char>,
)
    requires
        call_ensures(World::own_place_by_name, (w, self_id, nickname), place),
        call_ensures(World::others, (w, self_id, nickname), others),
        call_ensures(World::snapshot_self_and_others, (w, self_id, nickname), r),
    ensures
        self_id is Some ==> r.0 == place,
        r.0 is None ==> r.1@.len() == 0,
        r.0 is Some ==> (is_listed(w@.players, r.1@, id) <==> is_listed(
            w@.players,
            others@,
            id,
        )),
{
    if r.0 is Some {
        lemma_same_others(w@.players, text::opt_text(*self_id), nickname@, r.1@, others@, id);
    }
}

/// Two lists of the others list the same.
pub proof fn lemma_same_others(
    players: Map<Seq<char>, PlayerView>,
    own: Option<Seq<char>>,
    nickname: Seq<char>,
    a: Seq<Other>,
    b: Seq<Other>,
    id: Seq<char>,
)
    requires
        world::others_of(players, own, nickname, a),
        world::others_of(players, own, nickname, b),
    ensures
        is_listed(players, a, id) <==> is_listed(players, b, id),
{
    if is_listed(players, a, id) {
        let k = choose|k: int| 0 <= k < a.len() && (#[trigger] a[k]).id@ == id;
        assert(world::is_other(players, own, nickname, a[k].id@));
        let l = choose|l: int| 0 <= l < b.len() && (#[trigger] b[l]).id@ == id;
        lemma_listed(players, b, l);
    }
    if is_listed(players, b, id) {
        let k = choose|k: int| 0 <= k < b.len() && (#[trigger] b[k]).id@ == id;
        assert(world::is_other(players, own, nickname, b[k].id@));
        let l = choose|l: int| 0 <= l < a.len() && (#[trigger] a[l]).id@ == id;
        lemma_listed(players, a, l);
    }
}

proof fn lemma_nearest(dists: Seq<Scalar>)
    requires
        dists.len() > 0,
    ensures
        world::nearest_index(dists) matches Some(i) && 0 <= i < dists.len() && (forall|j: int|
            0 <= j < dists.len() ==> !scalar::below(#[trigger] dists[j], dists[i])) && (forall|
            j: int,
        |
            0 <= j < i ==> !scalar::at_most(#[trigger] dists[j], dists[i])),
    decreases dists.len(),
{
    let front = dists.drop_last();
    if front.len() > 0 {
        lemma_nearest(front);
        let b = world::nearest_index(front)->0;
        let n = dists.len() - 1;
        if scalar::below(dists[n], dists[b]) {
            assert forall|j: int| 0 <= j < n implies !scalar::at_most(
                #[trigger] dists[j],
                dists[n],
            ) by {
                assert(front[j] == dists[j]);
                assert(!scalar::below(front[j], front[b]));
            }
        }
        let i = world::nearest_index(dists)->0;
        assert forall|j: int| 0 <= j < dists.len() implies !scalar::below(
            #[trigger] dists[j],
            dists[i],
        ) by {
            if j < n {
                assert(front[j] == dists[j]);
                assert(!scalar::below(front[j], front[b]));
            }
        }
        assert forall|j: int| 0 <= j < i implies !scalar::at_most(
            #[trigger] dists[j],
            dists[i],
        ) by {
            if i == b {
                assert(front[j] == dists[j]);
            }
        }
    } else {
        assert(world::nearest_index(front) is None);
    }
}

/// Where there is anyone, the nearest is found: nobody is nearer, and of those
/// equally near it is the first.
pub proof fn nobody_is_nearer(dists: &Vec<Scalar>, r: Option<usize>, j: int)
    requires
        call_ensures(world::nearest, (dists,), r),
        0 <= j < dists@.len(),
    ensures
        r matches Some(i) && i < dists@.len() && !is_less(dists@[j], dists@[i as int]) && (j < i
            && is_number(dists@[j]) && is_number(dists@[i as int]) ==> is_less(
            dists@[i as int],
            dists@[j],
        )),
{
    lemma_nearest(dists@);
    let i = r->0 as int;
    numbers::lemma_is_less(dists@[j], dists@[i]);
    numbers::lemma_is_less(dists@[i], dists@[j]);
}

} // verus!
