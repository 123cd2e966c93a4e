use server::config::{
    collect_moderators, parse_moderators, parse_origins, read_plain, Config, ConfigError, EnvVars,
};
use server::error::AppError;
use server::origin_guard::{cors_policy, handshake_refused, CorsPolicy};
use server::pubkey::Pubkey;
use server::routes::{echo, health, EchoRequest};
use server::services::{EchoService, Services};
use server::state::AppState;

fn unset() -> EnvVars {
    EnvVars {
        host: None,
        port: None,
        log_level: None,
        cors_allowed_origins: None,
        static_dir: None,
        data_dir: None,
        solana_rpc_url: None,
        space_program_id: None,
        ownership_cache_secs: None,
        moderator_wallets: None,
    }
}

fn with_origins(origins: &str) -> Config {
    let mut vars = unset();
    vars.cors_allowed_origins = Some(origins.to_string());
    Config::from_env(vars).ok().unwrap()
}

fn failure(vars: EnvVars) -> ConfigError {
    Config::from_env(vars).err().unwrap()
}

#[test]
fn defaults_are_filled_in() {
    let c = Config::from_env(unset()).ok().unwrap();
    assert_eq!(c.host, "0.0.0.0");
    assert_eq!(c.port, 3001);
    assert_eq!(c.log_level, "info");
    assert_eq!(c.cors_allowed_origins, vec!["https://space.ekza.io"]);
    assert_eq!(c.static_dir, "build");
    assert_eq!(c.data_dir, "data");
    assert_eq!(c.solana_rpc_url, "https://api.mainnet-beta.solana.com");
    assert_eq!(
        c.space_program_id.to_text(),
        "2WtuXG6AX3erRp6eK5WiSTEEBec5zprQ7qLyLENfMQEH"
    );
    assert_eq!(c.ownership_cache_secs, 30);
    assert!(c.moderators.is_empty());
    assert_eq!(c.bind_addr(), "0.0.0.0:3001");
    assert_eq!(c.index_file(), "build/index.html");
    assert!(!c.cors_allow_any());
}

#[test]
fn each_bad_variable_is_reported() {
    let mut v = unset();
    v.host = Some("  ".to_string());
    assert!(matches!(failure(v), ConfigError::EmptyHost));

    for port in ["0", "65536", "abc", "", " 80"] {
        let mut v = unset();
        v.port = Some(port.to_string());
        assert!(matches!(failure(v), ConfigError::InvalidPort(p) if p == port));
    }

    let mut v = unset();
    v.cors_allowed_origins = Some(" , / ,".to_string());
    assert!(matches!(failure(v), ConfigError::EmptyCorsOrigins));

    let mut v = unset();
    v.space_program_id = Some("nope".to_string());
    assert!(
        matches!(failure(v), ConfigError::InvalidPubkey("SPACE_PROGRAM_ID", p) if p == "nope")
    );

    let mut v = unset();
    v.moderator_wallets = Some(" x , ".to_string());
    assert!(matches!(failure(v), ConfigError::InvalidPubkey("MODERATOR_WALLETS", p) if p == "x"));
}

#[test]
fn the_first_bad_variable_counts() {
    let mut v = unset();
    v.host = Some(String::new());
    v.port = Some("x".to_string());
    assert!(matches!(failure(v), ConfigError::EmptyHost));
}

#[test]
fn unreadable_cache_times_are_thirty() {
    let mut v = unset();
    v.ownership_cache_secs = Some("-1".to_string());
    assert_eq!(Config::from_env(v).ok().unwrap().ownership_cache_secs, 30);
    let mut v = unset();
    v.ownership_cache_secs = Some("0".to_string());
    assert_eq!(Config::from_env(v).ok().unwrap().ownership_cache_secs, 0);
}

#[test]
fn program_ids_may_stand_in_white_space() {
    let key = Pubkey { bytes: [3; 32] };
    let mut v = unset();
    v.space_program_id = Some(format!(" {} ", key.to_text()));
    assert_eq!(Config::from_env(v).ok().unwrap().space_program_id, key);
}

#[test]
fn config_errors_in_words() {
    assert_eq!(ConfigError::EmptyHost.message(), "HOST must not be empty");
    assert_eq!(
        ConfigError::InvalidPort("x".to_string()).message(),
        "invalid PORT value: x"
    );
    assert_eq!(
        ConfigError::EmptyCorsOrigins.message(),
        "CORS_ALLOWED_ORIGINS must not be empty"
    );
    assert_eq!(
        ConfigError::InvalidPubkey("N", "v".to_string()).message(),
        "invalid pubkey in N: v"
    );
}

#[test]
fn origins_are_cleaned() {
    assert_eq!(
        parse_origins(" https://a// ,,https://b").ok().unwrap(),
        vec!["https://a", "https://b"]
    );
}

#[test]
fn moderators_are_read_in_order() {
    let a = Pubkey { bytes: [1; 32] };
    let b = Pubkey { bytes: [2; 32] };
    let raw = format!("{}, ,{} ", a.to_text(), b.to_text());
    assert_eq!(parse_moderators(&raw).ok().unwrap(), vec![a, b]);
    assert!(parse_moderators("").ok().unwrap().is_empty());
}

#[test]
fn keys_are_put_together_from_what_was_read() {
    let key = Pubkey { bytes: [1; 32] };
    let names = vec!["a".to_string(), "b".to_string()];
    assert_eq!(
        collect_moderators(&names, &vec![Some(key), Some(key)])
            .ok()
            .unwrap(),
        vec![key, key]
    );
    let e = collect_moderators(&names, &vec![Some(key), None]).err().unwrap();
    assert!(matches!(e, ConfigError::InvalidPubkey("MODERATOR_WALLETS", n) if n == "b"));

    let plain = || read_plain(unset()).ok().unwrap();
    let c = Config::assemble(plain(), Some(key), Ok(vec![key])).ok().unwrap();
    assert_eq!((c.space_program_id, c.moderators), (key, vec![key]));
    let e = Config::assemble(plain(), None, Err(ConfigError::EmptyHost))
        .err()
        .unwrap();
    assert!(matches!(e, ConfigError::InvalidPubkey("SPACE_PROGRAM_ID", _)));
    let e = Config::assemble(plain(), Some(key), Err(ConfigError::EmptyHost))
        .err()
        .unwrap();
    assert!(matches!(e, ConfigError::EmptyHost));
}

#[test]
fn origins_match_but_for_case_and_slashes() {
    let c = with_origins("https://Space.ekza.io/");
    assert!(c.origin_allowed("https://space.EKZA.io"));
    assert!(c.origin_allowed("https://space.ekza.io//"));
    assert!(!c.origin_allowed("https://evil.example"));
    assert!(!c.origin_allowed("http://space.ekza.io"));
    let any = with_origins("https://a,*");
    assert!(any.cors_allow_any());
    assert!(any.origin_allowed("https://evil.example"));
}

#[test]
fn handshakes_from_foreign_origins_are_refused() {
    let c = with_origins("https://a");
    assert!(handshake_refused(&c, "/socket.io/?x", Some(b"https://b")));
    assert!(!handshake_refused(&c, "/socket.io/?x", Some(b"https://a/")));
    assert!(!handshake_refused(&c, "/socket.io/", None));
    assert!(!handshake_refused(&c, "/health", Some(b"https://b")));
}

#[test]
fn unreadable_origins_are_refused() {
    let c = with_origins("https://a");
    assert!(handshake_refused(&c, "/socket.io/", Some(b"https://a\xff")));
    assert!(handshake_refused(&c, "/socket.io/", Some(b"\x80")));
    assert!(handshake_refused(&c, "/socket.io/", Some("https://\u{e4}".as_bytes())));
    assert!(handshake_refused(&c, "/socket.io/", Some(b"")));
    assert!(!handshake_refused(&c, "/health", Some(b"\xff")));
    let any = with_origins("https://a,*");
    assert!(!handshake_refused(&any, "/socket.io/", Some(b"\xff")));
    assert!(!handshake_refused(&any, "/socket.io/", Some(b"https://b")));
}

#[test]
fn cors_lists_what_can_be_sent() {
    let c = with_origins("https://a,bad\u{1}origin,https://b\tc");
    match cors_policy(&c) {
        CorsPolicy::List(origins) => {
            assert_eq!(origins, vec!["https://a".to_string(), "https://b\tc".to_string()])
        }
        CorsPolicy::Any => panic!("any"),
    }
    assert!(matches!(cors_policy(&with_origins("*")), CorsPolicy::Any));
}

#[test]
fn rest_answers() {
    let r = health(5, 5 + 61_999_999_999);
    assert_eq!(r.status, "ok");
    assert_eq!(r.uptime_secs, 61);
    assert_eq!(health(9, 3).uptime_secs, 0);
    let services = Services::new();
    let request = EchoRequest {
        message: "hi".to_string(),
    };
    assert_eq!(echo(&services, request).message, "hi");
    assert_eq!(EchoService::default().echo("x".to_string()), "x");
    let state = AppState::new(Config::from_env(unset()).ok().unwrap(), 4);
    assert_eq!(state.started_at, 4);
}

#[test]
fn rest_errors() {
    assert_eq!(
        AppError::BadRequest("why".to_string()).message(),
        "bad request: why"
    );
    assert_eq!(
        AppError::BadRequest("why".to_string()).into_answer(),
        (400, "why".to_string())
    );
    assert_eq!(
        AppError::NotFound.into_answer(),
        (404, "not found".to_string())
    );
    assert_eq!(AppError::NotFound.message(), "not found");
    assert_eq!(
        AppError::Internal("disk".to_string()).into_answer(),
        (500, "disk".to_string())
    );
    assert_eq!(
        AppError::Internal("disk".to_string()).message(),
        "internal error"
    );
}
