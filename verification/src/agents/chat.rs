//! What an agent makes of the things said in chat.

use crate::text;
use vstd::prelude::*;
use vstd::string::*;

verus! {

/// The longest thing an agent says.
pub const MAX_SAY_LEN: usize = 200;

/// How many lines of chat an agent remembers.
pub const REMEMBERED_LINES: usize = 20;

/// A text trimmed, with its ASCII letters in lower case.
pub open spec fn plain(s: Seq<char>) -> Seq<char> {
    text::ascii_lowercase(text::trimmed(s))
}

/// A text trimmed, with its letters in lower case. Chat is often not ASCII.
pub open spec fn folded(s: Seq<char>) -> Seq<char> {
    text::unicode_lowercase(text::trimmed(s))
}

/// Whether a message in lower case calls a bridged bot by its name in lower case,
/// or any agent.
pub open spec fn calls_bot(bot: Seq<char>, message: Seq<char>) -> bool {
    bot.len() > 0 && message.len() > 0 && (text::has_part(message, bot) || text::has_part(
        message,
        "agent"@,
    ))
}

/// Whether a message in lower case calls a world agent by its name in lower case,
/// or any agent or bot.
pub open spec fn calls_agent(bot: Seq<char>, message: Seq<char>) -> bool {
    bot.len() > 0 && message.len() > 0 && (text::has_part(message, bot) || text::has_part(
        message,
        "agent"@,
    ) || text::has_part(message, "бот"@) || text::has_part(message, "@bot"@))
}

/// A text trimmed, with its ASCII letters in lower case.
pub fn norm_ascii(s: &str) -> (r: String)
    ensures
        r@ == plain(s@),
{
    let t = text::trim(s);
    text::to_ascii_lowercase(t.as_str())
}

/// A text trimmed, with its letters in lower case.
pub fn norm(s: &str) -> (r: String)
    ensures
        r@ == folded(s@),
{
    text::normalized(s)
}

/// Whether a message calls a bridged bot.
pub fn bot_addressed(bot_nickname: &str, message: &str) -> (r: bool)
    ensures
        r == calls_bot(plain(bot_nickname@), plain(message@)),
{
    let bot = norm_ascii(bot_nickname);
    let m = norm_ascii(message);
    if bot.as_str().is_empty() || m.as_str().is_empty() {
        return false;
    }
    text::contains(m.as_str(), bot.as_str()) || text::contains(m.as_str(), "agent")
}

/// Whether a message in lower case calls a world agent by its name in lower case,
/// or any agent or bot.
pub fn calls(bot: &str, message: &str) -> (r: bool)
    ensures
        r == calls_agent(bot@, message@),
{
    if bot.is_empty() || message.is_empty() {
        return false;
    }
    text::contains(message, bot) || text::contains(message, "agent") || text::contains(
        message,
        "бот",
    ) || text::contains(message, "@bot")
}

/// Whether a message calls a world agent.
pub fn is_addressed_to_bot(bot_nickname: &str, message: &str) -> (r: bool)
    ensures
        r == calls_agent(folded(bot_nickname@), folded(message@)),
{
    let bot = norm(bot_nickname);
    let m = norm(message);
    calls(bot.as_str(), m.as_str())
}

/// Whether a name is the agent's own, but for case. An agent without a name has no
/// namesakes. The names come in lower case too.
pub fn is_same_name(own: &str, folded_own: &str, folded_theirs: &str) -> (r: bool)
    ensures
        r == (own@.len() > 0 && folded_theirs@ == folded_own@),
{
    !own.is_empty() && text::same(folded_theirs, folded_own)
}

/// Whether a message is worth saying: it has words, and differs from the last one
/// in more than case. Both come in lower case too.
pub fn is_new(message: &str, folded_message: &str, folded_last: &str) -> (r: bool)
    ensures
        r == (message@.len() > 0 && folded_message@ != folded_last@),
{
    !message.is_empty() && !text::same(folded_message, folded_last)
}

/// Whether `interval` milliseconds have passed since `last`.
pub open spec fn waited(now: u64, last: u64, interval: u64) -> bool {
    now >= last && now - last >= interval || now < last && interval == 0
}

/// Whether more than `interval` milliseconds have passed since `last`.
pub open spec fn waited_longer(now: u64, last: u64, interval: u64) -> bool {
    now >= last && now - last > interval
}

/// Whether `interval` milliseconds have passed since `last`.
pub fn has_waited(now: u64, last: u64, interval: u64) -> (r: bool)
    ensures
        r == waited(now, last, interval),
{
    now.saturating_sub(last) >= interval
}

/// Whether more than `interval` milliseconds have passed since `last`.
pub fn has_waited_longer(now: u64, last: u64, interval: u64) -> (r: bool)
    ensures
        r == waited_longer(now, last, interval),
{
    now.saturating_sub(last) > interval
}

/// A line as it is shown to the language model.
pub open spec fn quoted(nickname: Seq<char>, message: Seq<char>) -> Seq<char> {
    nickname + ": "@ + message
}

/// A line as it is shown to the language model.
pub fn quote(nickname: &str, message: &str) -> (r: String)
    ensures
        r@ == quoted(nickname@, message@),
{
    let mut out: String = nickname.to_owned();
    out.append(": ");
    out.append(message);
    out
}

/// Lines one below the other.
pub open spec fn stacked(lines: Seq<Seq<char>>) -> Seq<char>
    decreases lines.len(),
{
    if lines.len() == 0 {
        Seq::empty()
    } else if lines.len() == 1 {
        lines[0]
    } else {
        stacked(lines.drop_last()) + "\n"@ + lines.last()
    }
}

/// Puts lines one below the other.
pub fn stack(lines: &Vec<String>) -> (r: String)
    ensures
        r@ == stacked(text::texts(lines@)),
{
    let mut out: String = String::new();
    let ghost all = text::texts(lines@);
    let mut i: usize = 0;
    proof {
        assert(out@ =~= stacked(all.take(0)));
    }
    while i < lines.len()
        invariant
            i <= lines.len(),
            all == text::texts(lines@),
            out@ == stacked(all.take(i as int)),
        decreases lines.len() - i,
    {
        proof {
            assert(all.take(i + 1).drop_last() =~= all.take(i as int));
            assert(all.take(i + 1).last() == lines@[i as int]@);
        }
        if i > 0 {
            out.append("\n");
        }
        out.append(lines[i].as_str());
        proof {
            assert(out@ =~= stacked(all.take(i + 1)));
        }
        i = i + 1;
    }
    proof {
        assert(all.take(all.len() as int) =~= all);
    }
    out
}

/// How an agent greets a player nearby.
pub open spec fn greeting_for(nickname: Seq<char>) -> Seq<char> {
    "hey "@ + nickname + " :)"@
}

/// How an agent greets a player nearby.
pub fn greet(nickname: &str) -> (r: String)
    ensures
        r@ == greeting_for(nickname@),
{
    let mut out: String = "hey ".to_owned();
    out.append(nickname);
    out.append(" :)");
    out
}

/// How an agent without a language model answers.
pub open spec fn echo_for(nickname: Seq<char>, message: Seq<char>) -> Seq<char> {
    "ok "@ + nickname + ", you said: "@ + message
}

/// How an agent without a language model answers.
pub fn echo_back(nickname: &str, message: &str) -> (r: String)
    ensures
        r@ == echo_for(nickname@, message@),
{
    let mut out: String = "ok ".to_owned();
    out.append(nickname);
    out.append(", you said: ");
    out.append(message);
    out
}

} // verus!
