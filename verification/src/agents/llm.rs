//! Talking to the language model: what is asked, and what is read from the
//! answer.

use crate::json::{self, Json};
use crate::realtime::motion::{self, Point};
use crate::scalar::{self, Scalar};
use crate::text;
use vstd::prelude::*;
use vstd::string::*;

verus! {

/// A base address without the slashes at its end.
pub fn base_url(url: &str) -> (r: String)
    ensures
        r@ == text::without_trailing(url@, '/'),
{
    text::trim_end_slashes(url)
}

/// Where questions are sent.
pub fn completions_url(base_url: &str) -> (r: String)
    ensures
        r@ == base_url@ + "/chat/completions"@,
{
    text::join(base_url, "/chat/completions")
}

/// Why an HTTP answer is no answer of the model, if its status is no success.
/// The body is named too: it tells what is wrong with a key or a setting.
pub fn reply_refused(success: bool, status: &str, body: &str) -> (r: Option<String>)
    ensures
        success ==> r is None,
        !success ==> (r matches Some(t) && t@ == "Kimi HTTP "@ + status@ + " response: "@ + body@),
{
    if success {
        return None;
    }
    let mut out: String = "Kimi HTTP ".to_owned();
    out.append(status);
    out.append(" response: ");
    out.append(body);
    Some(out)
}

/// The text under `choices[0].message.content`, empty if there is none.
pub open spec fn content_of(reply: Json) -> Seq<char> {
    match json::field(reply, "choices"@) {
        Some(choices) => match json::item(choices, 0) {
            Some(first) => match json::field(first, "message"@) {
                Some(message) => json::text_field_or_empty(message, "content"@),
                None => Seq::empty(),
            },
            None => Seq::empty(),
        },
        None => Seq::empty(),
    }
}

/// What the model answered, without the white space around it.
pub fn content(reply: &Json) -> (r: String)
    ensures
        r@ == text::trimmed(content_of(*reply)),
{
    let found: String = match reply.get("choices") {
        Some(choices) => match choices.at(0) {
            Some(first) => match first.get("message") {
                Some(message) => message.text_field_or_empty("content"),
                None => String::new(),
            },
            None => String::new(),
        },
        None => String::new(),
    };
    proof {
        assert(found@ =~= content_of(*reply));
    }
    text::trim(found.as_str())
}

/// What the model wants said, if anything.
pub fn say_in(action: &Json) -> (r: Option<String>)
    ensures
        text::opt_text(r) == json::text_field(*action, "say"@),
{
    match action.text_field("say") {
        Some(s) => Some(s.clone()),
        None => None,
    }
}

/// Where the model wants to go, and how fast; a speed that it does not name is
/// the agent's own.
pub open spec fn walk_in(action: Json, own_speed: Scalar) -> Option<(Point, Scalar)> {
    match json::field(action, "goto"@) {
        Some(Json::Object(entries)) => {
            let goto = Json::Object(entries);
            let zero = Scalar { bits: 0 };
            Some(
                (
                    Point {
                        x: json::single_field_or(goto, "x"@, zero),
                        y: json::single_field_or(goto, "y"@, zero),
                        z: json::single_field_or(goto, "z"@, zero),
                    },
                    scalar::clamped(
                        json::single_field_or(goto, "speed"@, own_speed),
                        Scalar { bits: motion::MIN_SPEED_BITS },
                        Scalar { bits: motion::MAX_SPEED_BITS },
                    ),
                ),
            )
        },
        _ => None,
    }
}

/// Where the model wants to go, and how fast.
pub fn goto_in(action: &Json, own_speed: Scalar) -> (r: Option<(Point, Scalar)>)
    ensures
        r == walk_in(*action, own_speed),
{
    match action.get("goto") {
        Some(goto) => match goto {
            Json::Object(_) => {
                let zero = Scalar::new(0);
                let x = goto.single_field_or("x", zero);
                let y = goto.single_field_or("y", zero);
                let z = goto.single_field_or("z", zero);
                let speed = goto.single_field_or("speed", own_speed).clamp(
                    Scalar::new(motion::MIN_SPEED_BITS),
                    Scalar::new(motion::MAX_SPEED_BITS),
                );
                Some((Point { x, y, z }, speed))
            },
            _ => None,
        },
        None => None,
    }
}

/// The question put to the model. The positions come written out.
pub open spec fn question(
    nickname: Seq<char>,
    position: Seq<char>,
    nearest: Seq<char>,
    players: Seq<char>,
    chat: Seq<char>,
    ending: Seq<char>,
) -> Seq<char> {
    "You are '"@ + nickname + "'. Your position is "@ + position + ".\nNearest player: "@ + nearest
        + "\n\nPlayers:\n"@ + players + "\n\nRecent chat (may be empty):\n"@ + chat + "\n\n"@
        + ending
}

/// Words the question put to the model.
pub fn ask(
    nickname: &str,
    position: &str,
    nearest: &str,
    players: &str,
    chat: &str,
    ending: &str,
) -> (r: String)
    ensures
        r@ == question(nickname@, position@, nearest@, players@, chat@, ending@),
{
    let mut out: String = "You are '".to_owned();
    out.append(nickname);
    out.append("'. Your position is ");
    out.append(position);
    out.append(".\nNearest player: ");
    out.append(nearest);
    out.append("\n\nPlayers:\n");
    out.append(players);
    out.append("\n\nRecent chat (may be empty):\n");
    out.append(chat);
    out.append("\n\n");
    out.append(ending);
    out
}

} // verus!
