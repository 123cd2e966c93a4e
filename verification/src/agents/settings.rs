//! Reading the settings of an agent from its arguments and environment.

use crate::text;
use vstd::prelude::*;
use vstd::string::*;

verus! {

/// What stands for a key that was never filled in.
pub const PLACEHOLDER_KEY: &'static str = "REPLACE_ME";

/// How often the language model is asked unprompted by a bridged bot, in
/// milliseconds, unless told otherwise.
pub const BOT_LLM_TICK_MS: u64 = 8_000;

/// How often the language model is asked unprompted by a world agent, unless
/// told otherwise: never.
pub const WORLD_LLM_TICK_MS: u64 = 0;

/// The value of the option `--key` among arguments: what follows `--key=`, or
/// the argument after a bare `--key`, whichever comes first.
pub open spec fn option_in(args: Seq<Seq<char>>, key: Seq<char>, from: int) -> Option<Seq<char>>
    decreases args.len() - from,
{
    let long = "--"@ + key;
    if from < 0 || from >= args.len() {
        None
    } else if args[from] == long {
        if from + 1 < args.len() {
            Some(args[from + 1])
        } else {
            None
        }
    } else if (long + "="@).is_prefix_of(args[from]) {
        Some(args[from].skip((long + "="@).len() as int))
    } else {
        option_in(args, key, from + 1)
    }
}

/// The value of the option `--key` among arguments.
pub fn get_arg_value(args: &Vec<String>, key: &str) -> (r: Option<String>)
    ensures
        text::opt_text(r) == option_in(text::texts(args@), key@, 0),
{
    let long = text::join("--", key);
    let prefix = text::join(long.as_str(), "=");
    let mut i: usize = 0;
    while i < args.len()
        invariant
            i <= args.len(),
            long@ == "--"@ + key@,
            prefix@ == long@ + "="@,
            option_in(text::texts(args@), key@, 0) == option_in(
                text::texts(args@),
                key@,
                i as int,
            ),
        decreases args.len() - i,
    {
        if text::same(args[i].as_str(), long.as_str()) {
            return if i + 1 < args.len() {
                Some(args[i + 1].clone())
            } else {
                None
            };
        }
        if let Some(rest) = text::strip_prefix(args[i].as_str(), prefix.as_str()) {
            proof {
                assert(args@[i as int]@.skip(prefix@.len() as int) =~= rest@);
                assert(prefix@.is_prefix_of(args@[i as int]@));
            }
            return Some(rest);
        }
        i = i + 1;
    }
    None
}

/// A value, or `default` if there is none.
pub fn or_default(value: Option<String>, default: &str) -> (r: String)
    ensures
        r@ == match value {
            Some(v) => v@,
            None => default@,
        },
{
    match value {
        Some(v) => v,
        None => default.to_owned(),
    }
}

/// Whether a text says yes.
pub open spec fn says_yes(s: Seq<char>) -> bool {
    let t = text::ascii_lowercase(text::trimmed(s));
    ||| t == "1"@
    ||| t == "true"@
    ||| t == "yes"@
    ||| t == "y"@
    ||| t == "on"@
}

/// A switch: `default` if it is not set or blank, else whether it says yes.
pub fn env_bool(value: Option<String>, default: bool) -> (r: bool)
    ensures
        r == {
            let s = text::text_or_empty(value);
            if text::trimmed(s).len() == 0 {
                default
            } else {
                says_yes(s)
            }
        },
{
    let v = match value {
        Some(v) => v,
        None => String::new(),
    };
    proof {
        assert(v@ =~= text::text_or_empty(value));
    }
    let t = text::trim(v.as_str());
    if t.as_str().is_empty() {
        return default;
    }
    let t = text::to_ascii_lowercase(t.as_str());
    let t = t.as_str();
    text::same(t, "1") || text::same(t, "true") || text::same(t, "yes") || text::same(t, "y")
        || text::same(t, "on")
}

/// The first of some variables that is set and not blank.
pub open spec fn first_set(values: Seq<Option<Seq<char>>>) -> Option<Seq<char>>
    decreases values.len(),
{
    if values.len() == 0 {
        None
    } else {
        match values[0] {
            Some(v) => if text::trimmed(v).len() > 0 {
                Some(v)
            } else {
                first_set(values.drop_first())
            },
            None => first_set(values.drop_first()),
        }
    }
}

/// Names one after another with commas between them.
pub open spec fn listed(names: Seq<Seq<char>>) -> Seq<char>
    decreases names.len(),
{
    if names.len() == 0 {
        Seq::empty()
    } else if names.len() == 1 {
        names[0]
    } else {
        listed(names.drop_last()) + ", "@ + names.last()
    }
}

/// The texts of optional values.
pub open spec fn opt_texts(values: Seq<Option<String>>) -> Seq<Option<Seq<char>>> {
    values.map_values(|v: Option<String>| text::opt_text(v))
}

fn list_names(names: &Vec<String>) -> (r: String)
    ensures
        r@ == listed(text::texts(names@)),
{
    let mut out: String = String::new();
    let ghost all = text::texts(names@);
    let mut i: usize = 0;
    proof {
        assert(out@ =~= listed(all.take(0)));
    }
    while i < names.len()
        invariant
            i <= names.len(),
            all == text::texts(names@),
            out@ == listed(all.take(i as int)),
        decreases names.len() - i,
    {
        proof {
            assert(all.take(i + 1).drop_last() =~= all.take(i as int));
            assert(all.take(i + 1).last() == names@[i as int]@);
        }
        if i > 0 {
            out.append(", ");
        }
        out.append(names[i].as_str());
        proof {
            assert(out@ =~= listed(all.take(i + 1)));
        }
        i = i + 1;
    }
    proof {
        assert(all.take(all.len() as int) =~= all);
    }
    out
}

/// The first of some variables that is set and not blank. The error names them
/// all.
pub fn env_required_any(names: &Vec<String>, values: &Vec<Option<String>>) -> (r: Result<
    String,
    String,
>)
    ensures
        match r {
            Ok(v) => first_set(opt_texts(values@)) == Some(v@),
            Err(message) => first_set(opt_texts(values@)) is None && message@
                == "missing required env var (one of): "@ + listed(text::texts(names@)),
        },
{
    let ghost all = opt_texts(values@);
    let mut i: usize = 0;
    proof {
        assert(all.skip(0) =~= all);
    }
    while i < values.len()
        invariant
            i <= values.len(),
            all == opt_texts(values@),
            first_set(all) == first_set(all.skip(i as int)),
        decreases values.len() - i,
    {
        proof {
            assert(all.skip(i as int).drop_first() =~= all.skip(i + 1));
            assert(all.skip(i as int)[0] == text::opt_text(values@[i as int]));
        }
        if let Some(v) = &values[i] {
            let t = text::trim(v.as_str());
            if !t.as_str().is_empty() {
                return Ok(v.clone());
            }
        }
        i = i + 1;
    }
    let listed_names = list_names(names);
    Err(text::join("missing required env var (one of): ", listed_names.as_str()))
}

/// A number, or `default` if there is none or it is not one.
pub open spec fn number_or(value: Option<Seq<char>>, default: u64) -> u64 {
    match value {
        Some(v) => match text::number(v, u64::MAX as nat) {
            Some(n) => n as u64,
            None => default,
        },
        None => default,
    }
}

/// A number, or `default` if there is none or it is not one.
pub fn parse_u64(value: Option<String>, default: u64) -> (r: u64)
    ensures
        r == number_or(text::opt_text(value), default),
{
    match value {
        Some(v) => match text::parse_number(v.as_str(), u64::MAX) {
            Some(n) => n,
            None => default,
        },
        None => default,
    }
}

/// A number moved into `low..=high`.
pub open spec fn limited(n: u64, low: u64, high: u64) -> u64 {
    if n < low {
        low
    } else if n > high {
        high
    } else {
        n
    }
}

/// A number moved into `low..=high`.
pub fn limit(n: u64, low: u64, high: u64) -> (r: u64)
    requires
        low <= high,
    ensures
        r == limited(n, low, high),
        low <= r <= high,
{
    if n < low {
        low
    } else if n > high {
        high
    } else {
        n
    }
}

/// How fast an agent ticks, and how long it waits before it connects again.
#[derive(Clone, Copy, Debug)]
pub struct Pace {
    pub tick_ms: u64,
    pub reconnect_base_ms: u64,
    pub reconnect_max_ms: u64,
}

/// The pace that a world agent was told to keep: a tick of 50 to 2000 ms (200
/// if not told), and waits from 100 to 30000 ms (500) up to at most 120000 ms
/// (10000).
pub fn read_pace(
    tick_ms: Option<String>,
    reconnect_base_ms: Option<String>,
    reconnect_max_ms: Option<String>,
) -> (r: Pace)
    ensures
        r.tick_ms == limited(number_or(text::opt_text(tick_ms), 200), 50, 2_000),
        r.reconnect_base_ms == limited(
            number_or(text::opt_text(reconnect_base_ms), 500),
            100,
            30_000,
        ),
        r.reconnect_max_ms == limited(
            number_or(text::opt_text(reconnect_max_ms), 10_000),
            r.reconnect_base_ms,
            120_000,
        ),
{
    let tick_ms: u64 = limit(parse_u64(tick_ms, 200), 50, 2_000);
    let reconnect_base_ms: u64 = limit(parse_u64(reconnect_base_ms, 500), 100, 30_000);
    let reconnect_max_ms: u64 = limit(
        parse_u64(reconnect_max_ms, 10_000),
        reconnect_base_ms,
        120_000,
    );
    Pace { tick_ms, reconnect_base_ms, reconnect_max_ms }
}

impl Pace {
    /// The wait before connecting again: the base after a session that got
    /// through, twice the last wait after one that failed, up to the most.
    pub fn backoff(&self, last_ms: u64, failed: bool) -> (r: u64)
        requires
            last_ms <= 120_000,
            self.reconnect_base_ms <= self.reconnect_max_ms <= 120_000,
        ensures
            r == if failed {
                if 2 * last_ms <= self.reconnect_max_ms {
                    2 * last_ms
                } else {
                    self.reconnect_max_ms as int
                }
            } else {
                self.reconnect_base_ms as int
            },
            r <= 120_000,
    {
        if failed {
            let twice: u64 = last_ms * 2;
            if twice <= self.reconnect_max_ms {
                twice
            } else {
                self.reconnect_max_ms
            }
        } else {
            self.reconnect_base_ms
        }
    }
}

/// How often the language model is asked unprompted: by the argument, else by
/// the environment, else `default`.
pub fn llm_tick(arg: Option<String>, env: Option<String>, default: u64) -> (r: u64)
    ensures
        r == number_or(
            if arg is Some {
                text::opt_text(arg)
            } else {
                text::opt_text(env)
            },
            default,
        ),
{
    match arg {
        Some(v) => parse_u64(Some(v), default),
        None => parse_u64(env, default),
    }
}

/// A text without the white space around it, unless nothing is left.
pub fn non_blank(value: Option<String>) -> (r: Option<String>)
    ensures
        text::opt_text(r) == match value {
            Some(v) => if text::trimmed(v@).len() > 0 {
                Some(text::trimmed(v@))
            } else {
                None
            },
            None => None,
        },
{
    match value {
        Some(v) => {
            let t = text::trim(v.as_str());
            if t.as_str().is_empty() {
                None
            } else {
                Some(t)
            }
        },
        None => None,
    }
}

/// The key for the language model, unless it was never filled in.
pub fn api_key(found: Result<String, String>) -> (r: Option<String>)
    ensures
        text::opt_text(r) == match found {
            Ok(key) => if text::trimmed(key@).len() == 0 || text::trimmed(key@)
                == PLACEHOLDER_KEY@ {
                None
            } else {
                Some(text::trimmed(key@))
            },
            Err(_) => None,
        },
{
    match found {
        Ok(key) => {
            let t = text::trim(key.as_str());
            if t.as_str().is_empty() || text::same(t.as_str(), PLACEHOLDER_KEY) {
                None
            } else {
                Some(t)
            }
        },
        Err(_) => None,
    }
}

} // verus!
