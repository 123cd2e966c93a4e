use server::agents::bot::{
    agent_id_in, agents_url, command_url, events_url, extract_clients, health_url, look_around,
    nickname_visible, pick_nearest as bot_nearest, state_url, Bot, BotHabits,
};
use server::agents::bridge::{
    chat_command, emit_command, move_command, user_data_command, AgentInfo, Agents, Bridge,
    BridgeEvent,
};
use server::agents::chat::{
    bot_addressed, calls, has_waited, has_waited_longer, is_addressed_to_bot, is_new,
    is_same_name, norm, norm_ascii,
};
use server::agents::llm::{
    ask, base_url, completions_url, content, goto_in, reply_refused, say_in,
};
use server::agents::queue::push_bounded;
use server::agents::rng::SimpleRng;
use server::agents::session::{pick_nearest, Habits, LlmDecision, Session, Walk};
use server::agents::settings::{
    api_key, env_bool, env_required_any, get_arg_value, llm_tick, non_blank, or_default, parse_u64,
    read_pace, BOT_LLM_TICK_MS,
};
use server::agents::world::{nearest, ChatLine, Player, World};
use server::json::{Json, JsonNumber};
use server::realtime::motion::Point;
use server::scalar::Scalar;
use std::collections::VecDeque;

fn f(x: f32) -> Scalar {
    Scalar::new(x.to_bits())
}

fn point(x: f32, y: f32, z: f32) -> Point {
    Point {
        x: f(x),
        y: f(y),
        z: f(z),
    }
}

fn s(t: &str) -> String {
    t.to_string()
}

fn some(t: &str) -> Option<String> {
    Some(t.to_string())
}

fn text(t: &str) -> Json {
    Json::Text(t.to_string())
}

fn num(x: f32) -> Json {
    Json::Number(JsonNumber {
        unsigned: if x >= 0.0 && x.fract() == 0.0 {
            Some(x as u64)
        } else {
            None
        },
        single: f(x),
    })
}

fn object(entries: Vec<(&str, Json)>) -> Json {
    Json::Object(entries.into_iter().map(|(k, v)| (k.to_string(), v)).collect())
}

fn player(nickname: &str, avatar: &str, at: &[f32]) -> Player {
    Player {
        position: at.iter().map(|x| f(*x)).collect(),
        rotation: f(0.0),
        avatar: s(avatar),
        nickname: s(nickname),
    }
}

fn line(from: &str, nickname: &str, message: &str) -> ChatLine {
    ChatLine {
        from_id: s(from),
        nickname: s(nickname),
        message: s(message),
    }
}

fn habits() -> Habits {
    Habits {
        nickname: s("Agent1"),
        avatar: s(""),
        greeting: None,
        min_chat_interval_ms: 5_000,
        reply_to_all: false,
        auto_approach: true,
        llm_tick_ms: 0,
        approach_speed: f(3.0),
        has_llm: false,
    }
}

// ------------------------------------------------------------------- settings

#[test]
fn options_are_found_among_arguments() {
    let args = vec![s("bin"), s("--a=1"), s("--b"), s("2"), s("--c")];
    assert_eq!(get_arg_value(&args, "a"), some("1"));
    assert_eq!(get_arg_value(&args, "b"), some("2"));
    assert_eq!(get_arg_value(&args, "c"), None);
    assert_eq!(get_arg_value(&args, "d"), None);
    // The first mention counts, even if nothing follows it.
    let args = vec![s("--x=1"), s("--x"), s("2")];
    assert_eq!(get_arg_value(&args, "x"), some("1"));
    assert_eq!(get_arg_value(&vec![s("--x=")], "x"), some(""));
}

#[test]
fn switches_say_yes_in_five_ways() {
    for yes in ["1", "true", "YES", " y ", "On"] {
        assert!(env_bool(some(yes), false));
    }
    for no in ["0", "false", "no", "enabled"] {
        assert!(!env_bool(some(no), true));
    }
    for unset in [None, some(""), some("  ")] {
        assert!(env_bool(unset.clone(), true));
        assert!(!env_bool(unset, false));
    }
}

#[test]
fn required_variables_name_themselves() {
    let names = vec![s("A"), s("B")];
    assert_eq!(
        env_required_any(&names, &vec![some(" "), some(" k ")]),
        Ok(s(" k "))
    );
    assert_eq!(
        env_required_any(&names, &vec![None, some("")]),
        Err(s("missing required env var (one of): A, B"))
    );
    assert_eq!(api_key(Ok(s(" k "))), some("k"));
    assert_eq!(api_key(Ok(s(" REPLACE_ME "))), None);
    assert_eq!(api_key(Err(s("x"))), None);
}

#[test]
fn numbers_fall_back() {
    assert_eq!(parse_u64(some("7"), 1), 7);
    assert_eq!(parse_u64(some(" 7"), 1), 1);
    assert_eq!(parse_u64(None, 1), 1);
    assert_eq!(llm_tick(some("5"), some("6"), 7), 5);
    assert_eq!(llm_tick(None, some("6"), 7), 6);
    assert_eq!(llm_tick(some("x"), some("6"), 7), 7);
    assert_eq!(llm_tick(None, None, BOT_LLM_TICK_MS), 8_000);
    assert_eq!(or_default(None, "d"), "d");
    assert_eq!(or_default(some("v"), "d"), "v");
    assert_eq!(non_blank(some("  x ")), some("x"));
    assert_eq!(non_blank(some("  ")), None);
}

#[test]
fn the_pace_is_kept_within_bounds() {
    let p = read_pace(None, None, None);
    assert_eq!(
        (p.tick_ms, p.reconnect_base_ms, p.reconnect_max_ms),
        (200, 500, 10_000)
    );
    let p = read_pace(some("1"), some("99999"), some("1"));
    assert_eq!(
        (p.tick_ms, p.reconnect_base_ms, p.reconnect_max_ms),
        (50, 30_000, 30_000)
    );
    let p = read_pace(None, None, None);
    assert_eq!(p.backoff(500, true), 1_000);
    assert_eq!(p.backoff(8_000, true), 10_000);
    assert_eq!(p.backoff(8_000, false), 500);
}

#[test]
fn drawn_numbers_are_what_they_should_be() {
    let mut r = SimpleRng::new(0);
    assert_eq!(r.next_u64(), 1442695040888963407);
    assert_eq!(r.next_u64(), 1876011003808476466);
    let mut a = SimpleRng::new(42);
    for _ in 0..100 {
        let n = a.gen_range_u64(10, 20);
        assert!((10..=20).contains(&n));
    }
    let mut b = SimpleRng::new(5);
    assert_eq!(b.gen_range_u64(9, 9), 9);
    assert_eq!(b.gen_range_u64(9, 3), 9);
    assert_eq!(b.state, 5);
}

#[test]
fn bounded_lists_drop_the_oldest() {
    let mut v: VecDeque<u32> = VecDeque::new();
    for i in 0..5 {
        push_bounded(&mut v, i, 3);
    }
    assert_eq!(v, vec![2, 3, 4]);
    push_bounded(&mut v, 9, 0);
    assert!(v.is_empty());
}

// ----------------------------------------------------------------------- chat

#[test]
fn agents_know_when_they_are_called() {
    assert!(is_addressed_to_bot("Agent1", "hey AGENT1!"));
    assert!(is_addressed_to_bot("Зоя", "привет, ЗОЯ"));
    assert!(is_addressed_to_bot("Zoe", "эй, Бот"));
    assert!(is_addressed_to_bot("Zoe", "@BOT come"));
    assert!(is_addressed_to_bot("Zoe", "any agent here?"));
    assert!(!is_addressed_to_bot("Zoe", "hello"));
    assert!(!is_addressed_to_bot(" ", "agent"));
    assert!(!is_addressed_to_bot("Zoe", "  "));
    assert!(calls("zoe", "zoe?"));
    assert!(!calls("zoe", "ZOE?"));
    assert!(bot_addressed("Zoe", "ZOE?"));
    assert!(!bot_addressed("Zoe", "@bot"));
    assert!(is_same_name("Zoe", "zoe", "zoe"));
    assert!(!is_same_name("Zoe", "zoe", "ann"));
    assert!(!is_same_name("", "", ""));
    assert!(is_new("Hi", "hi", "bye"));
    assert!(!is_new("Hi", "hi", "hi"));
    assert!(!is_new("", "", "bye"));
    assert_eq!(norm(" É "), "é");
    assert_eq!(norm_ascii(" É "), "É");
}

#[test]
fn waiting_is_counted_from_the_last_time() {
    assert!(has_waited(10, 5, 5));
    assert!(!has_waited(9, 5, 5));
    assert!(!has_waited_longer(10, 5, 5));
    assert!(has_waited_longer(11, 5, 5));
    assert!(has_waited(1, 5, 0));
    assert!(!has_waited_longer(1, 5, 0));
}

// ------------------------------------------------------------ language model

#[test]
fn refused_questions_carry_status_and_body() {
    assert_eq!(reply_refused(true, "200 OK", "{}"), None);
    assert_eq!(
        reply_refused(false, "401 Unauthorized", "no key"),
        some("Kimi HTTP 401 Unauthorized response: no key")
    );
}

#[test]
fn answers_are_read_from_the_first_choice() {
    let reply = object(vec![(
        "choices",
        Json::Array(vec![object(vec![(
            "message",
            object(vec![("content", text("  {\"say\":null} "))]),
        )])]),
    )]);
    assert_eq!(content(&reply), "{\"say\":null}");
    assert_eq!(content(&Json::Null), "");
    assert_eq!(content(&object(vec![("choices", Json::Array(vec![]))])), "");
    assert_eq!(base_url("https://x/v1//"), "https://x/v1");
    assert_eq!(completions_url("https://x/v1"), "https://x/v1/chat/completions");
}

#[test]
fn wishes_are_read_from_an_answer() {
    let action = object(vec![
        ("say", text("hi")),
        (
            "goto",
            object(vec![("x", num(1.5)), ("z", num(-2.0)), ("speed", num(99.0))]),
        ),
    ]);
    assert_eq!(say_in(&action), some("hi"));
    assert_eq!(
        goto_in(&action, f(3.0)),
        Some((point(1.5, 0.0, -2.0), f(50.0)))
    );
    let action = object(vec![("say", Json::Null), ("goto", object(vec![]))]);
    assert_eq!(say_in(&action), None);
    assert_eq!(
        goto_in(&action, f(3.0)),
        Some((point(0.0, 0.0, 0.0), f(3.0)))
    );
    assert_eq!(goto_in(&object(vec![("goto", Json::Null)]), f(3.0)), None);
}

#[test]
fn questions_are_worded() {
    assert_eq!(
        ask("Zoe", "[0.0, 0.0, 0.0]", "none", "a\nb", "x: y", "Decide."),
        "You are 'Zoe'. Your position is [0.0, 0.0, 0.0].\nNearest player: none\n\nPlayers:\na\nb\n\nRecent chat (may be empty):\nx: y\n\nDecide."
    );
}

// ---------------------------------------------------------------------- world

#[test]
fn the_world_is_kept_up_to_date() {
    let mut w = World::new();
    w.existing_clients(vec![
        (s("1"), player("Ann", "", &[0.0, 0.0, 0.0])),
        (s("2"), player("Bob", "", &[5.0, 0.0, 0.0])),
    ]);
    assert!(!w.new_user(s("3"), player("Cid", "", &[]), "Agent1"));
    assert!(w.new_user(s("4"), player(" aGENT1 ", "", &[1.0, 1.0, 1.0]), "Agent1"));
    assert!(!w.new_user(s("5"), player("", "", &[]), ""));
    w.delete("2");
    w.delete("");
    w.moved(s("1"), player("Ann", "", &[2.0, 0.0, 0.0]));
    assert_eq!(w.place_of_player("1"), Some(point(2.0, 0.0, 0.0)));
    assert_eq!(w.place_of_player("2"), None);
    assert_eq!(w.place_of_player("3"), None);
    let mut names: Vec<String> = w.named_players().into_iter().map(|o| o.nickname).collect();
    names.sort();
    assert_eq!(names, vec!["Ann", "aGENT1"]);
    // A full list replaces everything.
    w.existing_clients(vec![(s("9"), player("Zed", "", &[0.0, 0.0, 0.0]))]);
    assert_eq!(w.place_of_player("1"), None);
    assert!(w.place_of_player("9").is_some());
}

#[test]
fn twenty_lines_are_remembered_and_none_of_ones_own() {
    let mut w = World::new();
    w.heard(line("1", " Agent1 ", "me"), "Agent1");
    w.heard(line("1", "Ann", "  "), "Agent1");
    w.heard(line("1", " ", "hi"), "Agent1");
    assert_eq!(w.chat_seq(), 0);
    assert!(w.last_line().is_none());
    for i in 0..25 {
        w.heard(line("1", " Ann ", &format!(" m{i} ")), "Agent1");
    }
    assert_eq!(w.chat_seq(), 25);
    let last = w.last_line().unwrap();
    assert_eq!((last.nickname.as_str(), last.message.as_str()), ("Ann", "m24"));
    let chat = w.chat_text();
    assert_eq!(chat.lines().count(), 20);
    assert!(chat.starts_with("Ann: m5\n"));
    assert!(chat.ends_with("Ann: m24"));
}

#[test]
fn a_copy_of_the_world_stays_as_it_was() {
    let mut w = seen_world();
    w.heard(line("ann", "Ann", "hi"), "Agent1");
    let copy = w.duplicate();
    w.heard(line("ann", "Ann", "bye"), "Agent1");
    w.existing_clients(vec![]);
    assert_eq!(copy.chat_seq(), 1);
    assert_eq!(copy.chat_text(), "Ann: hi");
    assert_eq!(copy.find_self_client("Agent1", ""), some("me"));
    assert_eq!(copy.place_of_player("ann"), Some(point(2.0, 0.0, 0.0)));
    assert_eq!(w.place_of_player("ann"), None);
}

#[test]
fn an_agent_finds_itself_by_name_and_looks() {
    let mut w = World::new();
    w.existing_clients(vec![
        (s("1"), player("Agent1", "other", &[0.0, 0.0, 0.0])),
        (s("2"), player("Agent1", " mine ", &[5.0, 0.0, 0.0])),
    ]);
    assert_eq!(w.find_self_client("Agent1", "mine"), some("2"));
    let by_name = w.find_self_client(" Agent1 ", "none of these").unwrap();
    assert!(by_name == "1" || by_name == "2");
    assert_eq!(w.find_self_client("agent1", ""), None);
    assert_eq!(w.find_self_client("", "mine"), None);
    assert_eq!(
        w.own_place(&None, "Agent1", "mine"),
        Some(point(5.0, 0.0, 0.0))
    );
    assert_eq!(
        w.own_place(&some("1"), "Agent1", "mine"),
        Some(point(0.0, 0.0, 0.0))
    );
    // An id without a place falls back to the looks.
    assert_eq!(
        w.own_place(&some("9"), "Agent1", "mine"),
        Some(point(5.0, 0.0, 0.0))
    );
    assert_eq!(w.own_place_by_name(&some("9"), "Agent1"), None);
    assert!(w.own_place_by_name(&None, "Agent1").is_some());
}

#[test]
fn others_are_everyone_else_with_name_and_place() {
    let mut w = World::new();
    w.existing_clients(vec![
        (s("me"), player("Agent1", "", &[0.0, 0.0, 0.0])),
        (s("a"), player(" Ann ", "", &[1.0, 0.0, 0.0])),
        (s("b"), player("", "", &[1.0, 0.0, 0.0])),
        (s("c"), player("Cid", "", &[1.0])),
        (s("twin"), player("Agent1", "", &[9.0, 0.0, 0.0])),
    ]);
    let mut ids: Vec<String> = w
        .others(&some("me"), "Agent1")
        .into_iter()
        .map(|o| o.id)
        .collect();
    ids.sort();
    assert_eq!(ids, vec!["a", "twin"]);
    let ids: Vec<String> = w.others(&None, "Agent1").into_iter().map(|o| o.id).collect();
    assert_eq!(ids, vec!["a"]);
    let (own, others) = w.snapshot_self_and_others(&some("me"), "Agent1");
    assert_eq!((own, others.len()), (Some(point(0.0, 0.0, 0.0)), 2));
    let (own, others) = w.snapshot_self_and_others(&some("gone"), "Agent1");
    assert_eq!((own, others.len()), (None, 0));
}

#[test]
fn the_nearest_is_the_first_of_the_smallest() {
    assert_eq!(nearest(&vec![]), None);
    assert_eq!(nearest(&vec![f(3.0), f(1.0), f(1.0), f(2.0)]), Some(1));
    assert_eq!(nearest(&vec![f(f32::NAN), f(1.0)]), Some(0));
}

// -------------------------------------------------------------------- session

fn seen_world() -> World {
    let mut w = World::new();
    w.existing_clients(vec![
        (s("me"), player("Agent1", "", &[0.0, 0.0, 0.0])),
        (s("ann"), player("Ann", "", &[2.0, 0.0, 0.0])),
    ]);
    w
}

#[test]
fn a_session_opens_once() {
    let mut rng = SimpleRng::new(1);
    let mut x = Session::new(1_000, &mut rng);
    let mut h = habits();
    h.greeting = some("  hello all ");
    let empty = World::new();
    let o = x.open_tick(&empty, &h, 2_500);
    assert!(!o.introduce && !o.visible && !o.appear && !o.saw_new_chat);
    // Out of sight for more than a second and a half: say it again, once.
    assert!(x.open_tick(&empty, &h, 2_501).introduce);
    assert!(!x.open_tick(&empty, &h, 9_000).introduce);

    let w = seen_world();
    let o = x.open_tick(&w, &h, 10_000);
    assert!(o.visible && o.appear && !o.introduce);
    assert_eq!(o.greeting, some("hello all"));
    assert_eq!(x.self_id(), &some("me"));
    // Not sent yet: it stays due.
    let o = x.open_tick(&w, &h, 10_200);
    assert!(!o.appear);
    assert_eq!(o.greeting, some("hello all"));
    x.greeting_said(s("hello all"), 10_200);
    assert_eq!(x.open_tick(&w, &h, 99_000).greeting, None);
}

#[test]
fn the_first_identity_counts() {
    let mut rng = SimpleRng::new(1);
    let mut x = Session::new(0, &mut rng);
    x.identified(s("a"));
    x.identified(s("b"));
    assert_eq!(x.self_id(), &some("a"));
}

#[test]
fn players_nearby_are_greeted_once() {
    let mut rng = SimpleRng::new(1);
    let mut x = Session::new(0, &mut rng);
    let h = habits();
    let w = seen_world();
    let o = x.open_tick(&w, &h, 10_000);
    let (place, others) = x.look_around(&w, &h);
    assert_eq!(place, Some(point(0.0, 0.0, 0.0)));
    assert_eq!(others.len(), 1);
    let near = pick_nearest(others, &vec![f(3.0)]);
    assert_eq!(
        x.nearby_greeting(&h, &near, o.visible, 10_000),
        some("hey Ann :)")
    );
    assert_eq!(x.nearby_greeting(&h, &near, false, 10_000), None);
    x.player_greeted(s("ann"), s("hey Ann :)"), 10_000);
    assert_eq!(x.nearby_greeting(&h, &near, true, 99_000), None);
    // Too far.
    let (_, others) = x.look_around(&w, &h);
    let far = pick_nearest(others, &vec![f(3.1)]);
    assert_eq!(x.nearby_greeting(&h, &far, true, 99_000), None);
    assert!(pick_nearest(Vec::new(), &vec![]).is_none());
}

#[test]
fn a_called_agent_comes_and_answers() {
    let mut rng = SimpleRng::new(1);
    let mut x = Session::new(0, &mut rng);
    let h = habits();
    let mut w = seen_world();
    w.heard(line("ann", "Ann", "agent1, here!"), "Agent1");
    let o = x.open_tick(&w, &h, 10_000);
    assert!(o.saw_new_chat);
    let (place, _) = x.look_around(&w, &h);
    let c = x.close_tick(&w, &h, o.saw_new_chat, o.visible, &place, 10_000);
    assert_eq!(c.walk, Walk::Near(point(2.0, 0.0, 0.0)));
    match c.llm {
        LlmDecision::Reply(t) => assert_eq!(t, "ok Ann, you said: agent1, here!"),
        other => panic!("{other:?}"),
    }
    x.said(s("ok"), 10_000);
    // Nothing new: nothing to do.
    let o = x.open_tick(&w, &h, 10_200);
    assert!(!o.saw_new_chat);
    let c = x.close_tick(&w, &h, false, true, &place, 10_200);
    assert_eq!(c.walk, Walk::Stay);
    assert!(matches!(c.llm, LlmDecision::Nothing));
}

#[test]
fn a_model_is_asked_one_question_at_a_time() {
    let mut rng = SimpleRng::new(1);
    let mut x = Session::new(0, &mut rng);
    let mut h = habits();
    h.has_llm = true;
    h.reply_to_all = true;
    let mut w = seen_world();
    w.heard(line("ann", "Ann", "nice weather"), "Agent1");
    let o = x.open_tick(&w, &h, 10_000);
    let c = x.close_tick(&w, &h, o.saw_new_chat, o.visible, &None, 10_000);
    assert_eq!(c.walk, Walk::Stay);
    assert!(matches!(c.llm, LlmDecision::Ask));
    w.heard(line("ann", "Ann", "hello?"), "Agent1");
    let o = x.open_tick(&w, &h, 20_000);
    assert!(o.saw_new_chat);
    let c = x.close_tick(&w, &h, true, true, &None, 20_000);
    assert!(matches!(c.llm, LlmDecision::Nothing));
    x.llm_answered(20_000);
    w.heard(line("ann", "Ann", "hello??"), "Agent1");
    let _ = x.open_tick(&w, &h, 21_500);
    let c = x.close_tick(&w, &h, true, true, &None, 21_500);
    assert!(matches!(c.llm, LlmDecision::Nothing));
    let c = x.close_tick(&w, &h, true, true, &None, 21_501);
    assert!(matches!(c.llm, LlmDecision::Ask));
}

#[test]
fn the_clock_asks_the_model_too() {
    let mut rng = SimpleRng::new(1);
    let mut x = Session::new(0, &mut rng);
    let mut h = habits();
    h.has_llm = true;
    h.llm_tick_ms = 8_000;
    assert!(matches!(
        x.decide_llm(&h, false, true, 8_000),
        LlmDecision::Nothing
    ));
    assert!(matches!(
        x.decide_llm(&h, false, false, 8_001),
        LlmDecision::Nothing
    ));
    assert!(matches!(
        x.decide_llm(&h, false, true, 8_001),
        LlmDecision::Ask
    ));
}

#[test]
fn idle_moves_wait_for_their_time() {
    let mut rng = SimpleRng::new(1);
    let mut probe = SimpleRng::new(1);
    let pause = probe.gen_range_u64(10_000, 30_000);
    let mut x = Session::new(0, &mut rng);
    let here = Some(point(0.0, 0.0, 0.0));
    assert!(!x.wants_idle_move(&here, pause - 1));
    assert!(x.wants_idle_move(&here, pause));
    assert!(!x.wants_idle_move(&None, pause));
    x.idled(pause, &mut rng);
    assert!(!x.wants_idle_move(&here, pause + 9_999));
    assert!(x.wants_idle_move(&here, pause + 30_000));
    x.walked(pause + 29_000);
    assert!(!x.wants_idle_move(&here, pause + 31_000));
    assert!(x.wants_idle_move(&here, pause + 31_001));
}

#[test]
fn a_model_is_not_let_to_repeat_itself_or_spam() {
    let mut rng = SimpleRng::new(1);
    let mut x = Session::new(0, &mut rng);
    let h = habits();
    let hello = object(vec![
        ("say", text("  Hello ")),
        ("goto", object(vec![("x", num(1.0))])),
    ]);
    let (say, walk) = x.take_answer(&h, &hello, 10_000);
    assert_eq!(say, some("Hello"));
    assert_eq!(walk, Some((point(1.0, 0.0, 0.0), f(3.0))));
    x.said(s("Hello"), 10_000);
    let again = object(vec![("say", text("HELLO"))]);
    assert_eq!(x.take_answer(&h, &again, 99_000).0, None);
    let other = object(vec![("say", text("bye"))]);
    assert_eq!(x.take_answer(&h, &other, 14_999).0, None);
    assert_eq!(x.take_answer(&h, &other, 15_000).0, some("bye"));
    let long = object(vec![("say", text(&"x".repeat(300)))]);
    assert_eq!(x.take_answer(&h, &long, 15_000).0, Some("x".repeat(200)));
    let blank = object(vec![("say", text("  "))]);
    assert_eq!(x.take_answer(&h, &blank, 15_000).0, None);
}

#[test]
fn an_agent_behaves_all_session_long() {
    let mut rng = SimpleRng::new(1);
    let mut x = Session::new(0, &mut rng);
    let mut h = habits();
    h.greeting = some("hello all");
    let mut w = seen_world();
    let wish = object(vec![("say", text("HELLO all "))]);
    let mut said: Vec<(String, u64)> = Vec::new();
    let mut appearances = 0;
    for tick in 0..60u64 {
        let now = 10_000 + tick * 1_000;
        if tick % 7 == 0 {
            w.heard(line("ann", "Ann", "agent1?"), "Agent1");
        }
        if tick % 10 == 0 {
            if let (Some(t), _) = x.take_answer(&h, &wish, now) {
                x.said(t.clone(), now);
                said.push((t, now));
            }
        }
        let o = x.open_tick(&w, &h, now);
        if o.appear {
            appearances += 1;
        }
        if let Some(t) = o.greeting {
            x.greeting_said(t.clone(), now);
            said.push((t, now));
        }
        let (place, others) = x.look_around(&w, &h);
        let near = pick_nearest(others, &vec![f(2.0)]);
        if let Some(t) = x.nearby_greeting(&h, &near, o.visible, now) {
            x.player_greeted(s("ann"), t.clone(), now);
            said.push((t, now));
        }
        let c = x.close_tick(&w, &h, o.saw_new_chat, o.visible, &place, now);
        if let LlmDecision::Reply(t) = c.llm {
            x.said(t.clone(), now);
            said.push((t, now));
        }
    }
    assert_eq!(appearances, 1);
    let reply = "ok Ann, you said: agent1?";
    let expected = [
        ("HELLO all", 10_000),
        ("hello all", 15_000),
        ("hey Ann :)", 20_000),
        ("HELLO all", 30_000),
        (reply, 38_000),
        (reply, 45_000),
        ("HELLO all", 50_000),
        (reply, 59_000),
        (reply, 66_000),
    ];
    let expected: Vec<(String, u64)> = expected.iter().map(|u| (s(u.0), u.1)).collect();
    assert_eq!(said, expected);
}

#[test]
fn a_bot_behaves_all_along() {
    let mut bot = Bot::new();
    let h = bot_habits();
    let wish = object(vec![("say", text("hey ANN :)"))]);
    let mut said: Vec<(String, u64)> = Vec::new();
    for tick in 0..60u64 {
        let now = 10_000 + tick * 500;
        let name = if tick % 2 == 0 { "Ann" } else { "Bob" };
        if let Some(t) = bot.greet(&h, &Some((s(name), f(1.0))), now) {
            said.push((t, now));
        }
        if let Some(t) = bot.take_answer(&h, &wish, &None, now).say {
            said.push((t, now));
        }
    }
    assert_eq!(said.iter().filter(|u| u.0 == "hey Ann :)").count(), 1);
    assert_eq!(said.iter().filter(|u| u.0 == "hey Bob :)").count(), 1);
    for pair in said.windows(2) {
        assert!(pair[1].1 - pair[0].1 >= h.min_chat_interval_ms);
        assert!(pair[1].0 != "hey ANN :)" || norm_ascii(&pair[0].0) != "hey ann :)");
    }
}

#[test]
fn an_agent_approaches_whoever_is_far() {
    let mut rng = SimpleRng::new(1);
    let mut x = Session::new(0, &mut rng);
    let mut h = habits();
    let w = seen_world();
    let _ = x.open_tick(&w, &h, 10_000);
    assert!(x.wants_approach(&h, false, 10_000));
    assert!(!x.wants_approach(&h, true, 10_000));
    let (place, others) = x.look_around(&w, &h);
    let near = pick_nearest(others, &vec![f(2.0)]);
    assert_eq!(x.approach(&place, &near, 10_000), None);
    let (place, others) = x.look_around(&w, &h);
    let far = pick_nearest(others, &vec![f(2.5)]);
    assert_eq!(x.approach(&None, &far, 10_000), None);
    assert_eq!(
        x.approach(&place, &far, 10_000),
        Some(point(2.0, 0.0, 0.0))
    );
    assert!(!x.wants_approach(&h, false, 12_000));
    assert!(x.wants_approach(&h, false, 12_001));
    h.auto_approach = false;
    assert!(!x.wants_approach(&h, false, 99_000));
}

// ------------------------------------------------------------------------ bot

fn bot_habits() -> BotHabits {
    BotHabits {
        nickname: s("Zoe"),
        min_chat_interval_ms: 5_000,
        reply_to_all: false,
        auto_approach: true,
        llm_tick_ms: 0,
        approach_speed: f(3.0),
    }
}

fn said(id: f32, nickname: &str, message: &str) -> Json {
    object(vec![
        ("id", num(id)),
        (
            "event",
            object(vec![
                ("type", text("chat_message")),
                ("nickname", text(nickname)),
                ("message", text(message)),
            ]),
        ),
    ])
}

#[test]
fn bridge_addresses() {
    assert_eq!(health_url("b"), "b/health");
    assert_eq!(state_url("b"), "b/api/v1/state");
    assert_eq!(agents_url("b"), "b/api/v1/agents");
    assert_eq!(command_url("b", 12, "goto"), "b/api/v1/agents/12/command/goto");
    assert_eq!(
        events_url("b", 7, 200),
        "b/api/v1/events?after=7&limit=200"
    );
    assert_eq!(agent_id_in(&object(vec![("agentId", num(4.0))])), Ok(4));
    assert_eq!(
        agent_id_in(&object(vec![("agentId", text("4"))])),
        Err("bridge response missing agentId")
    );
}

#[test]
fn events_are_read_once_and_own_lines_skipped() {
    let mut b = Bot::new();
    let events = vec![
        said(3.0, "Ann", "hi"),
        said(4.0, "Zoe", "me"),
        said(2.0, "Bob", "old"),
        object(vec![("id", num(9.0)), ("event", object(vec![("type", text("move"))]))]),
        said(5.0, "", "x"),
    ];
    let last = b.read_events(&events, "Zoe").unwrap();
    assert_eq!(last, (s("Bob"), s("old")));
    assert_eq!(b.last_event_id(), 9);
    assert_eq!(b.chat_text(), "Ann: hi\nBob: old");
    assert_eq!(b.read_events(&vec![], "Zoe"), None);
    let many: Vec<Json> = (0..30).map(|i| said(10.0 + i as f32, "Ann", "m")).collect();
    let _ = b.read_events(&many, "Zoe");
    assert_eq!(b.chat_text().lines().count(), 20);
}

fn shown(nickname: &str, at: &[f32]) -> Json {
    object(vec![
        ("nickname", text(nickname)),
        ("position", Json::Array(at.iter().map(|x| num(*x)).collect())),
    ])
}

#[test]
fn clients_are_read_from_the_state() {
    let state = object(vec![(
        "clients",
        object(vec![
            ("1", shown(" Zoe ", &[1.0, 2.0, 3.0])),
            ("2", shown("Ann", &[4.0, 5.0, 6.0])),
            ("3", shown("", &[0.0, 0.0, 0.0])),
            ("4", shown("Bob", &[0.0])),
            ("5", object(vec![("nickname", text("Cid"))])),
            (
                "6",
                object(vec![
                    ("nickname", text("Dan")),
                    ("position", Json::Array(vec![num(1.0), text("x"), Json::Null])),
                ]),
            ),
        ]),
    )]);
    let clients = extract_clients(&state);
    assert_eq!(
        clients,
        vec![
            (s("Zoe"), point(1.0, 2.0, 3.0)),
            (s("Ann"), point(4.0, 5.0, 6.0)),
            (s("Dan"), point(1.0, 0.0, 0.0)),
        ]
    );
    let (own, others) = look_around(&clients, "Zoe");
    assert_eq!(own, point(1.0, 2.0, 3.0));
    assert_eq!(others.len(), 2);
    assert_eq!(bot_nearest(&others, &vec![f(5.0), f(4.0)]), Some(1));
    let (own, others) = look_around(&clients, "Nobody");
    assert_eq!(own, point(0.0, 0.0, 0.0));
    assert_eq!(others.len(), 3);
    assert!(nickname_visible(&state, "Zoe"));
    assert!(nickname_visible(&state, " "));
    assert!(!nickname_visible(&state, "zoe"));
    assert!(!nickname_visible(&Json::Null, "Zoe"));
    assert!(extract_clients(&Json::Null).is_empty());
}

#[test]
fn bots_greet_once_and_speak_sparingly() {
    let mut b = Bot::new();
    let h = bot_habits();
    let near = Some((s("Ann"), f(3.0)));
    assert_eq!(b.greet(&h, &Some((s("Ann"), f(3.5))), 10_000), None);
    assert_eq!(b.greet(&h, &near, 10_000), some("hey Ann :)"));
    assert_eq!(b.greet(&h, &near, 99_000), None);
    assert_eq!(b.greet(&h, &Some((s("Bob"), f(1.0))), 14_999), None);
    assert_eq!(
        b.greet(&h, &Some((s("Bob"), f(1.0))), 15_000),
        some("hey Bob :)")
    );
    assert_eq!(b.greet(&h, &None, 99_000), None);
}

#[test]
fn bots_ask_on_chat_or_by_the_clock() {
    let mut b = Bot::new();
    let mut h = bot_habits();
    let called = Some((s("Ann"), s("zoe!")));
    let other = Some((s("Ann"), s("hello")));
    assert!(b.wants_llm(&h, &called, 2_000));
    assert!(!b.wants_llm(&h, &other, 2_000));
    assert!(!b.wants_llm(&h, &None, 2_000));
    b.llm_failed(2_000);
    assert!(!b.wants_llm(&h, &called, 3_500));
    assert!(b.wants_llm(&h, &called, 3_501));
    h.llm_tick_ms = 8_000;
    assert!(!b.wants_llm(&h, &None, 10_000));
    assert!(b.wants_llm(&h, &None, 10_001));
    h.llm_tick_ms = 0;
    h.reply_to_all = true;
    assert!(b.wants_llm(&h, &other, 9_000));
}

#[test]
fn bots_follow_the_model_or_approach() {
    let mut b = Bot::new();
    let h = bot_habits();
    let far = Some((point(9.0, 0.0, 0.0), f(2.1)));
    let p = b.take_answer(&h, &object(vec![("say", text(" hi "))]), &far, 10_000);
    assert_eq!(p.say, some("hi"));
    assert_eq!(p.walk, None);
    assert_eq!(p.approach, Some(point(9.0, 0.0, 0.0)));
    b.walked(10_000);
    let p = b.take_answer(&h, &object(vec![("say", text("HI"))]), &far, 12_000);
    assert_eq!((p.say, p.approach), (None, None));
    let walk = object(vec![("goto", object(vec![("y", num(2.0))]))]);
    let p = b.take_answer(&h, &walk, &far, 30_000);
    assert_eq!(p.walk, Some((point(0.0, 2.0, 0.0), f(3.0))));
    assert_eq!(p.approach, None);
    let near = Some((point(9.0, 0.0, 0.0), f(2.0)));
    assert_eq!(b.take_answer(&h, &Json::Null, &near, 30_000).approach, None);
}

// --------------------------------------------------------------------- bridge

#[test]
fn the_bridge_numbers_events_and_pages_them() {
    let mut b = Bridge::new();
    b.push_event(
        BridgeEvent::Raw {
            event: s("bridge_started"),
            data: s("{}"),
        },
        1,
    );
    b.delete(&text("x"), s("\"x\""), 2);
    b.delete(&Json::Null, s("null"), 3);
    let all = b.get_events(None, None);
    assert_eq!(all.iter().map(|e| e.id).collect::<Vec<_>>(), vec![1, 2, 3]);
    assert!(matches!(&all[1].event, BridgeEvent::Delete(id) if id == "x"));
    assert!(
        matches!(&all[2].event, BridgeEvent::Raw { event, data } if event == "delete" && data == "null")
    );
    assert_eq!(all[2].ts_ms, 3);
    let page = b.get_events(Some(1), Some(1));
    assert_eq!(page.iter().map(|e| e.id).collect::<Vec<_>>(), vec![2]);
    assert_eq!(b.get_events(Some(0), Some(0)).len(), 1);
    assert!(b.get_events(Some(3), None).is_empty());
}

#[test]
fn the_bridge_keeps_two_thousand_events() {
    let mut b = Bridge::new();
    for i in 0..2_010u64 {
        b.delete(&Json::Null, String::new(), i);
    }
    let all = b.get_events(None, Some(9_999));
    assert_eq!(all.len(), 2_000);
    assert_eq!(all[0].id, 11);
    assert_eq!(b.get_events(None, None).len(), 200);
}

#[test]
fn the_bridge_follows_the_players() {
    let mut b = Bridge::new();
    b.existing_clients(
        Some(vec![(s("1"), player("Ann", "av", &[0.0, 0.0, 0.0]))]),
        s("{}"),
        0,
    );
    b.existing_clients(None, s("[]"), 0);
    b.new_user(
        &object(vec![("id", text("2"))]),
        Some(player("Bob", "", &[1.0, 1.0, 1.0])),
        s("{}"),
        0,
    );
    b.new_user(&object(vec![("id", text("3"))]), None, s("{}"), 0);
    b.new_user(&object(vec![]), None, s("{}"), 0);
    assert_eq!(b.clients().len(), 3);
    // A move without a name keeps the one that is known.
    b.moved(
        &object(vec![("id", text("1")), ("rotation", num(2.5))]),
        Some(vec![f(7.0), f(8.0), f(9.0)]),
        s("{}"),
        0,
    );
    let ann = b.clients().into_iter().find(|(id, _)| id == "1").unwrap().1;
    assert_eq!((ann.nickname.as_str(), ann.avatar.as_str()), ("Ann", "av"));
    assert_eq!(ann.position, vec![f(7.0), f(8.0), f(9.0)]);
    assert_eq!(ann.rotation, f(2.5));
    // Not a move at all.
    b.moved(&object(vec![("id", text("1"))]), None, s("{}"), 0);
    b.delete(&text("2"), s("\"2\""), 0);
    assert_eq!(b.clients().len(), 2);
    let kinds: Vec<String> = b
        .get_events(None, None)
        .into_iter()
        .map(|e| match e.event {
            BridgeEvent::ExistingClients(_) => s("existing"),
            BridgeEvent::NewUser { id, .. } => format!("new {id}"),
            BridgeEvent::Delete(id) => format!("delete {id}"),
            BridgeEvent::Move { id, .. } => format!("move {id}"),
            BridgeEvent::ChatMessage(_) => s("chat"),
            BridgeEvent::Raw { event, .. } => format!("raw {event}"),
        })
        .collect();
    assert_eq!(
        kinds,
        vec![
            "existing",
            "raw existing clients",
            "new 2",
            "new 3",
            "raw new user",
            "move 1",
            "raw move",
            "delete 2"
        ]
    );
}

#[test]
fn the_bridge_keeps_two_hundred_lines() {
    let mut b = Bridge::new();
    b.heard(&object(vec![("message", text(""))]), s("{}"), 0);
    assert!(b.last_chat().is_empty());
    for i in 0..205 {
        let doc = object(vec![
            ("id", text("1")),
            ("nickname", text("Ann")),
            ("message", text(&format!("m{i}"))),
        ]);
        b.heard(&doc, s("{}"), 0);
    }
    let chat = b.last_chat();
    assert_eq!(chat.len(), 200);
    assert_eq!(chat[0].message, "m5");
    assert!(matches!(
        &b.get_events(None, Some(2))[0].event,
        BridgeEvent::Raw { event, .. } if event == "chat message"
    ));
}

fn agent(id: u64) -> AgentInfo {
    AgentInfo {
        agent_id: id,
        nickname: s("n"),
        avatar: s("a"),
        created_ts_ms: 1,
    }
}

#[test]
fn agents_are_numbered_listed_and_removed() {
    let mut a = Agents::new();
    assert_eq!(a.enroll("  "), Err((400, s("nickname is empty"))));
    assert_eq!(a.enroll(" Zoe "), Ok((1, s("Zoe"))));
    assert_eq!(a.enroll("Ann"), Ok((2, s("Ann"))));
    a.register(agent(2));
    a.register(agent(1));
    a.register(agent(5));
    let ids: Vec<u64> = a.list().into_iter().map(|i| i.agent_id).collect();
    assert_eq!(ids, vec![1, 2, 5]);
    assert_eq!(a.get(2).unwrap().agent_id, 2);
    assert_eq!(a.get(3).unwrap_err(), (404, s("agent not found")));
    assert_eq!(a.remove(2).unwrap().agent_id, 2);
    assert_eq!(a.remove(2).unwrap_err(), (404, s("agent not found")));
    assert_eq!(a.list().len(), 2);
    let mut renamed = agent(5);
    renamed.nickname = s("new");
    a.register(renamed);
    assert_eq!(a.list().len(), 2);
    assert_eq!(a.get(5).unwrap().nickname, "new");
}

#[test]
fn commands_need_words() {
    assert_eq!(chat_command(" hi "), Ok(s("hi")));
    assert_eq!(chat_command(" "), Err((400, s("message is empty"))));
    assert_eq!(user_data_command(" z "), Ok(s("z")));
    assert_eq!(user_data_command(""), Err((400, s("nickname is empty"))));
    assert_eq!(emit_command(" move"), Ok(s("move")));
    assert_eq!(emit_command("\n"), Err((400, s("event is empty"))));
    assert_eq!(move_command(None), f(0.0));
    assert_eq!(move_command(Some(f(2.0))), f(2.0));
}
