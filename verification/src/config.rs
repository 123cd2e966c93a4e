//! Settings: read from environment variables, with defaults.

use crate::pubkey::{self, Pubkey};
use crate::text;
use vstd::prelude::*;
use vstd::string::*;
use vstd::utf8::*;

verus! {

/// The variables as they were found, `None` where one is not set.
pub struct EnvVars {
    pub host: Option<String>,
    pub port: Option<String>,
    pub log_level: Option<String>,
    pub cors_allowed_origins: Option<String>,
    pub static_dir: Option<String>,
    pub data_dir: Option<String>,
    pub solana_rpc_url: Option<String>,
    pub space_program_id: Option<String>,
    pub ownership_cache_secs: Option<String>,
    pub moderator_wallets: Option<String>,
}

pub struct Config {
    pub host: String,
    pub port: u16,
    pub log_level: String,
    /// Browser origins that are let in, over REST and the Socket.IO handshake.
    pub cors_allowed_origins: Vec<String>,
    pub static_dir: String,
    /// Directory of the persisted rooms.
    pub data_dir: String,
    /// Solana JSON-RPC endpoint.
    pub solana_rpc_url: String,
    /// The space program.
    pub space_program_id: Pubkey,
    /// For how long a resolved holder and editor set is trusted.
    pub ownership_cache_secs: u64,
    /// Wallets that may edit any room. Empty by default.
    pub moderators: Vec<Pubkey>,
}

#[derive(Debug)]
pub enum ConfigError {
    EmptyHost,
    InvalidPort(String),
    EmptyCorsOrigins,
    InvalidPubkey(&'static str, String),
}

/// What an error says.
pub enum ConfigErrorView {
    EmptyHost,
    InvalidPort(Seq<char>),
    EmptyCorsOrigins,
    InvalidPubkey(Seq<char>, Seq<char>),
}

impl View for ConfigError {
    type V = ConfigErrorView;

    open spec fn view(&self) -> ConfigErrorView {
        match self {
            ConfigError::EmptyHost => ConfigErrorView::EmptyHost,
            ConfigError::InvalidPort(raw) => ConfigErrorView::InvalidPort(raw@),
            ConfigError::EmptyCorsOrigins => ConfigErrorView::EmptyCorsOrigins,
            ConfigError::InvalidPubkey(name, raw) => ConfigErrorView::InvalidPubkey(name@, raw@),
        }
    }
}

impl ConfigError {
    /// The error in words.
    pub fn message(&self) -> (r: String)
        ensures
            r@ == match self@ {
                ConfigErrorView::EmptyHost => "HOST must not be empty"@,
                ConfigErrorView::InvalidPort(raw) => "invalid PORT value: "@ + raw,
                ConfigErrorView::EmptyCorsOrigins => "CORS_ALLOWED_ORIGINS must not be empty"@,
                ConfigErrorView::InvalidPubkey(name, raw) => "invalid pubkey in "@ + name + ": "@
                    + raw,
            },
    {
        match self {
            ConfigError::EmptyHost => "HOST must not be empty".to_owned(),
            ConfigError::InvalidPort(raw) => text::join("invalid PORT value: ", raw.as_str()),
            ConfigError::EmptyCorsOrigins => "CORS_ALLOWED_ORIGINS must not be empty".to_owned(),
            ConfigError::InvalidPubkey(name, raw) => {
                let mut out: String = "invalid pubkey in ".to_owned();
                out.append(name);
                out.append(": ");
                out.append(raw.as_str());
                out
            },
        }
    }
}

// ------------------------------------------------------------------- origins

/// An origin as it is compared: without white space around it and without
/// slashes at its end.
pub open spec fn origin_text(piece: Seq<char>) -> Seq<char> {
    text::without_trailing(text::trimmed(piece), '/')
}

/// The pieces that are left when each is cleaned and the empty ones dropped.
pub open spec fn nonempty_origins(pieces: Seq<Seq<char>>) -> Seq<Seq<char>>
    decreases pieces.len(),
{
    if pieces.len() == 0 {
        Seq::empty()
    } else {
        let before = nonempty_origins(pieces.drop_last());
        let last = origin_text(pieces.last());
        if last.len() == 0 {
            before
        } else {
            before.push(last)
        }
    }
}

/// The origins in a comma-separated list.
pub open spec fn origins_of(raw: Seq<char>) -> Seq<Seq<char>> {
    nonempty_origins(text::split(raw, ','))
}

/// Reads a comma-separated list of origins; it must name at least one.
pub fn parse_origins(raw: &str) -> (r: Result<Vec<String>, ConfigError>)
    ensures
        match r {
            Ok(origins) => text::texts(origins@) == origins_of(raw@) && origins@.len() > 0,
            Err(e) => origins_of(raw@).len() == 0 && e is EmptyCorsOrigins,
        },
{
    let pieces = text::split_at_each(raw, ',');
    let mut origins: Vec<String> = Vec::new();
    let mut i: usize = 0;
    let ghost all = text::texts(pieces@);
    while i < pieces.len()
        invariant
            i <= pieces.len(),
            all == text::texts(pieces@),
            text::texts(origins@) == nonempty_origins(all.take(i as int)),
        decreases pieces.len() - i,
    {
        let kept = text::trim(pieces[i].as_str());
        let kept = text::trim_end_slashes(kept.as_str());
        proof {
            assert(all.take(i + 1).drop_last() =~= all.take(i as int));
            assert(all.take(i + 1).last() == pieces@[i as int]@);
        }
        if !kept.as_str().is_empty() {
            let ghost before = text::texts(origins@);
            origins.push(kept);
            proof {
                assert(text::texts(origins@) =~= before.push(kept@));
            }
        }
        i = i + 1;
    }
    proof {
        assert(all.take(all.len() as int) =~= all);
        assert(text::texts(origins@).len() == origins@.len());
    }
    if origins.len() == 0 {
        return Err(ConfigError::EmptyCorsOrigins);
    }
    Ok(origins)
}

// ---------------------------------------------------------------- moderators

/// The trimmed pieces that are not empty.
pub open spec fn nonempty_trimmed(pieces: Seq<Seq<char>>) -> Seq<Seq<char>>
    decreases pieces.len(),
{
    if pieces.len() == 0 {
        Seq::empty()
    } else {
        let before = nonempty_trimmed(pieces.drop_last());
        let last = text::trimmed(pieces.last());
        if last.len() == 0 {
            before
        } else {
            before.push(last)
        }
    }
}

/// The wallet names in a comma-separated list.
pub open spec fn wallet_names(raw: Seq<char>) -> Seq<Seq<char>> {
    nonempty_trimmed(text::split(raw, ','))
}

/// Splits a comma-separated list of wallets into its names.
pub fn split_wallets(raw: &str) -> (r: Vec<String>)
    ensures
        text::texts(r@) == wallet_names(raw@),
{
    let pieces = text::split_at_each(raw, ',');
    let mut names: Vec<String> = Vec::new();
    let mut i: usize = 0;
    let ghost all = text::texts(pieces@);
    while i < pieces.len()
        invariant
            i <= pieces.len(),
            all == text::texts(pieces@),
            text::texts(names@) == nonempty_trimmed(all.take(i as int)),
        decreases pieces.len() - i,
    {
        let kept = text::trim(pieces[i].as_str());
        proof {
            assert(all.take(i + 1).drop_last() =~= all.take(i as int));
            assert(all.take(i + 1).last() == pieces@[i as int]@);
        }
        if !kept.as_str().is_empty() {
            let ghost before = text::texts(names@);
            names.push(kept);
            proof {
                assert(text::texts(names@) =~= before.push(kept@));
            }
        }
        i = i + 1;
    }
    proof {
        assert(all.take(all.len() as int) =~= all);
    }
    names
}

/// Whether the keys are those that the names stand for, one for one.
pub open spec fn keys_named(keys: Seq<Pubkey>, names: Seq<Seq<char>>) -> bool {
    &&& keys.len() == names.len()
    &&& forall|i: int|
        0 <= i < names.len() ==> pubkey::pubkey_from_text(#[trigger] names[i]) == Some(
            keys[i].bytes@,
        )
}

/// Whether name `i` is the first that is no key.
pub open spec fn first_bad(names: Seq<Seq<char>>, i: int) -> bool {
    &&& 0 <= i < names.len()
    &&& pubkey::pubkey_from_text(names[i]) is None
    &&& forall|k: int| 0 <= k < i ==> pubkey::pubkey_from_text(#[trigger] names[k]) is Some
}

/// Whether name `i` is the first that was not read as a key.
pub open spec fn first_unread(keys: Seq<Option<Pubkey>>, i: int) -> bool {
    &&& 0 <= i < keys.len()
    &&& keys[i] is None
    &&& forall|k: int| 0 <= k < i ==> (#[trigger] keys[k]) is Some
}

/// Puts together what each name of a wallet was read as. The error names the first
/// that is no key.
pub fn collect_moderators(names: &Vec<String>, read: &Vec<Option<Pubkey>>) -> (r: Result<
    Vec<Pubkey>,
    ConfigError,
>)
    requires
        names.len() == read.len(),
    ensures
        match r {
            Ok(keys) => keys@.len() == read@.len() && forall|i: int|
                0 <= i < read@.len() ==> #[trigger] read@[i] == Some(keys@[i]),
            Err(e) => exists|i: int| #[trigger]
                first_unread(read@, i) && e@ == ConfigErrorView::InvalidPubkey(
                    "MODERATOR_WALLETS"@,
                    names@[i]@,
                ),
        },
{
    let mut keys: Vec<Pubkey> = Vec::new();
    let mut i: usize = 0;
    while i < read.len()
        invariant
            i <= read.len() == names.len(),
            keys.len() == i,
            forall|k: int| 0 <= k < i ==> #[trigger] read@[k] == Some(keys@[k]),
        decreases read.len() - i,
    {
        match read[i] {
            Some(key) => {
                keys.push(key);
            },
            None => {
                let e = ConfigError::InvalidPubkey("MODERATOR_WALLETS", names[i].clone());
                proof {
                    assert(first_unread(read@, i as int));
                }
                return Err(e);
            },
        }
        i = i + 1;
    }
    Ok(keys)
}

/// Reads a comma-separated list of wallets. The error names the first that is
/// no key.
pub fn parse_moderators(raw: &str) -> (r: Result<Vec<Pubkey>, ConfigError>)
    ensures
        match r {
            Ok(keys) => keys_named(keys@, wallet_names(raw@)),
            Err(e) => exists|i: int|
                first_bad(wallet_names(raw@), i) && e@ == ConfigErrorView::InvalidPubkey(
                    "MODERATOR_WALLETS"@,
                    #[trigger] wallet_names(raw@)[i],
                ),
        },
{
    let names = split_wallets(raw);
    let ghost all = wallet_names(raw@);
    let mut read: Vec<Option<Pubkey>> = Vec::new();
    let mut i: usize = 0;
    while i < names.len()
        invariant
            i <= names.len(),
            text::texts(names@) == all,
            read.len() == i,
            forall|k: int|
                0 <= k < i ==> pubkey::pubkey_from_text(#[trigger] all[k]) == match read@[k] {
                    Some(key) => Some(key.bytes@),
                    None => None,
                },
        decreases names.len() - i,
    {
        proof {
            assert(all[i as int] == names@[i as int]@);
        }
        read.push(Pubkey::parse(names[i].as_str()));
        i = i + 1;
    }
    let r = collect_moderators(&names, &read);
    proof {
        assert(all.len() == names@.len());
        match &r {
            Ok(keys) => {
                assert forall|k: int| 0 <= k < all.len() implies pubkey::pubkey_from_text(
                    #[trigger] all[k],
                ) == Some(keys@[k].bytes@) by {
                    assert(read@[k] == Some(keys@[k]));
                }
            },
            Err(e) => {
                let i = choose|i: int| #[trigger]
                    first_unread(read@, i) && e@ == ConfigErrorView::InvalidPubkey(
                        "MODERATOR_WALLETS"@,
                        names@[i]@,
                    );
                assert forall|k: int| 0 <= k < i implies pubkey::pubkey_from_text(
                    #[trigger] all[k],
                ) is Some by {
                    assert(read@[k] is Some);
                }
                assert(all[i] == names@[i]@);
                assert(first_bad(all, i));
            },
        }
    }
    r
}

// ------------------------------------------------------------------- reading

/// A variable's text, or its default.
pub open spec fn text_or(var: Option<String>, default: Seq<char>) -> Seq<char> {
    match var {
        Some(s) => s@,
        None => default,
    }
}

fn or_default(var: Option<String>, default: &str) -> (r: String)
    ensures
        r@ == text_or(var, default@),
{
    match var {
        Some(s) => s,
        None => default.to_owned(),
    }
}

/// The port written in a text: any but zero.
pub open spec fn port_of(raw: Seq<char>) -> Option<nat> {
    match text::number(raw, 0xffff) {
        Some(n) => if n == 0 {
            None
        } else {
            Some(n)
        },
        None => None,
    }
}

/// For how many seconds to trust ownership: the variable where it is a number,
/// else 30.
pub open spec fn cache_secs_of(var: Option<String>) -> nat {
    match var {
        Some(s) => match text::number(s@, u64::MAX as nat) {
            Some(n) => n,
            None => 30,
        },
        None => 30,
    }
}

/// The settings that need no key to be read, each checked in turn.
pub struct PlainConfig {
    pub host: String,
    pub port: u16,
    pub log_level: String,
    pub cors_allowed_origins: Vec<String>,
    pub static_dir: String,
    pub data_dir: String,
    pub solana_rpc_url: String,
    pub space_program_id: String,
    pub ownership_cache_secs: u64,
    pub moderator_wallets: String,
}

pub open spec fn host_text(vars: EnvVars) -> Seq<char> {
    text_or(vars.host, "0.0.0.0"@)
}

pub open spec fn port_text(vars: EnvVars) -> Seq<char> {
    text_or(vars.port, "3001"@)
}

pub open spec fn origins_text(vars: EnvVars) -> Seq<char> {
    text_or(vars.cors_allowed_origins, "https://space.ekza.io"@)
}

pub open spec fn program_text(vars: EnvVars) -> Seq<char> {
    text_or(vars.space_program_id, "2WtuXG6AX3erRp6eK5WiSTEEBec5zprQ7qLyLENfMQEH"@)
}

pub open spec fn moderators_text(vars: EnvVars) -> Seq<char> {
    text_or(vars.moderator_wallets, Seq::empty())
}

/// The first thing wrong with the plain settings.
pub open spec fn plain_problem(vars: EnvVars) -> Option<ConfigErrorView> {
    if text::trimmed(host_text(vars)).len() == 0 {
        Some(ConfigErrorView::EmptyHost)
    } else if port_of(port_text(vars)) is None {
        Some(ConfigErrorView::InvalidPort(port_text(vars)))
    } else if origins_of(origins_text(vars)).len() == 0 {
        Some(ConfigErrorView::EmptyCorsOrigins)
    } else {
        None
    }
}

/// Whether the plain settings are what the variables say.
pub open spec fn plain_matches(vars: EnvVars, c: PlainConfig) -> bool {
    &&& c.host@ == host_text(vars)
    &&& port_of(port_text(vars)) == Some(c.port as nat)
    &&& c.log_level@ == text_or(vars.log_level, "info"@)
    &&& text::texts(c.cors_allowed_origins@) == origins_of(origins_text(vars))
    &&& c.static_dir@ == text_or(vars.static_dir, "build"@)
    &&& c.data_dir@ == text_or(vars.data_dir, "data"@)
    &&& c.solana_rpc_url@ == text_or(
        vars.solana_rpc_url,
        "https://api.mainnet-beta.solana.com"@,
    )
    &&& c.space_program_id@ == program_text(vars)
    &&& c.ownership_cache_secs == cache_secs_of(vars.ownership_cache_secs)
    &&& c.moderator_wallets@ == moderators_text(vars)
}

/// Reads the settings that need no key.
pub fn read_plain(vars: EnvVars) -> (r: Result<PlainConfig, ConfigError>)
    ensures
        match r {
            Ok(c) => plain_problem(vars) is None && plain_matches(vars, c),
            Err(e) => plain_problem(vars) == Some(e@),
        },
{
    let host = or_default(vars.host, "0.0.0.0");
    if text::trim(host.as_str()).as_str().is_empty() {
        return Err(ConfigError::EmptyHost);
    }
    let port_raw = or_default(vars.port, "3001");
    let port: u64 = match text::parse_number(port_raw.as_str(), 0xffff) {
        Some(n) => n,
        None => {
            return Err(ConfigError::InvalidPort(port_raw));
        },
    };
    if port == 0 {
        return Err(ConfigError::InvalidPort(port_raw));
    }
    let log_level = or_default(vars.log_level, "info");
    let raw_origins = or_default(vars.cors_allowed_origins, "https://space.ekza.io");
    let cors_allowed_origins = match parse_origins(raw_origins.as_str()) {
        Ok(origins) => origins,
        Err(_) => {
            return Err(ConfigError::EmptyCorsOrigins);
        },
    };
    proof {
        assert(text::texts(cors_allowed_origins@).len() == cors_allowed_origins@.len());
    }
    let static_dir = or_default(vars.static_dir, "build");
    let data_dir = or_default(vars.data_dir, "data");
    let solana_rpc_url = or_default(vars.solana_rpc_url, "https://api.mainnet-beta.solana.com");
    let space_program_id = or_default(
        vars.space_program_id,
        "2WtuXG6AX3erRp6eK5WiSTEEBec5zprQ7qLyLENfMQEH",
    );
    let ownership_cache_secs: u64 = match &vars.ownership_cache_secs {
        Some(s) => match text::parse_number(s.as_str(), u64::MAX) {
            Some(n) => n,
            None => 30,
        },
        None => 30,
    };
    let moderator_wallets = match vars.moderator_wallets {
        Some(s) => s,
        None => String::new(),
    };
    Ok(
        PlainConfig {
            host,
            port: port as u16,
            log_level,
            cors_allowed_origins,
            static_dir,
            data_dir,
            solana_rpc_url,
            space_program_id,
            ownership_cache_secs,
            moderator_wallets,
        },
    )
}

/// Whether the settings are what the variables say.
pub open spec fn config_matches(vars: EnvVars, c: Config) -> bool {
    &&& c.host@ == host_text(vars)
    &&& port_of(port_text(vars)) == Some(c.port as nat)
    &&& c.log_level@ == text_or(vars.log_level, "info"@)
    &&& text::texts(c.cors_allowed_origins@) == origins_of(origins_text(vars))
    &&& c.static_dir@ == text_or(vars.static_dir, "build"@)
    &&& c.data_dir@ == text_or(vars.data_dir, "data"@)
    &&& c.solana_rpc_url@ == text_or(
        vars.solana_rpc_url,
        "https://api.mainnet-beta.solana.com"@,
    )
    &&& pubkey::pubkey_from_text(text::trimmed(program_text(vars))) == Some(
        c.space_program_id.bytes@,
    )
    &&& c.ownership_cache_secs == cache_secs_of(vars.ownership_cache_secs)
    &&& keys_named(c.moderators@, wallet_names(moderators_text(vars)))
}

/// Whether an error is the first thing wrong with the variables.
pub open spec fn config_problem(vars: EnvVars, e: ConfigErrorView) -> bool {
    match plain_problem(vars) {
        Some(p) => e == p,
        None => if pubkey::pubkey_from_text(text::trimmed(program_text(vars))) is None {
            e == ConfigErrorView::InvalidPubkey("SPACE_PROGRAM_ID"@, program_text(vars))
        } else {
            let names = wallet_names(moderators_text(vars));
            exists|i: int|
                first_bad(names, i) && e == ConfigErrorView::InvalidPubkey(
                    "MODERATOR_WALLETS"@,
                    #[trigger] names[i],
                )
        },
    }
}

impl Config {
    /// Reads the settings from the environment's variables.
    pub fn from_env(vars: EnvVars) -> (r: Result<Config, ConfigError>)
        ensures
            match r {
                Ok(c) => plain_problem(vars) is None && config_matches(vars, c),
                Err(e) => config_problem(vars, e@),
            },
    {
        let plain = match read_plain(vars) {
            Ok(plain) => plain,
            Err(e) => {
                return Err(e);
            },
        };
        let id_text = text::trim(plain.space_program_id.as_str());
        let program = Pubkey::parse(id_text.as_str());
        let moderators = parse_moderators(plain.moderator_wallets.as_str());
        Config::assemble(plain, program, moderators)
    }

    /// Puts the settings together from the plain ones and the keys that were read.
    pub fn assemble(
        plain: PlainConfig,
        program: Option<Pubkey>,
        moderators: Result<Vec<Pubkey>, ConfigError>,
    ) -> (r: Result<Config, ConfigError>)
        ensures
            match program {
                None => r matches Err(e) && e@ == ConfigErrorView::InvalidPubkey(
                    "SPACE_PROGRAM_ID"@,
                    plain.space_program_id@,
                ),
                Some(key) => match moderators {
                    Err(e) => r == Err::<Config, ConfigError>(e),
                    Ok(keys) => r == Ok::<Config, ConfigError>(
                        Config {
                            host: plain.host,
                            port: plain.port,
                            log_level: plain.log_level,
                            cors_allowed_origins: plain.cors_allowed_origins,
                            static_dir: plain.static_dir,
                            data_dir: plain.data_dir,
                            solana_rpc_url: plain.solana_rpc_url,
                            space_program_id: key,
                            ownership_cache_secs: plain.ownership_cache_secs,
                            moderators: keys,
                        },
                    ),
                },
            },
    {
        let space_program_id = match program {
            Some(key) => key,
            None => {
                return Err(ConfigError::InvalidPubkey("SPACE_PROGRAM_ID", plain.space_program_id));
            },
        };
        let moderators = match moderators {
            Ok(keys) => keys,
            Err(e) => {
                return Err(e);
            },
        };
        Ok(
            Config {
                host: plain.host,
                port: plain.port,
                log_level: plain.log_level,
                cors_allowed_origins: plain.cors_allowed_origins,
                static_dir: plain.static_dir,
                data_dir: plain.data_dir,
                solana_rpc_url: plain.solana_rpc_url,
                space_program_id,
                ownership_cache_secs: plain.ownership_cache_secs,
                moderators,
            },
        )
    }

    /// The address to listen on: `host:port`.
    pub fn bind_addr(&self) -> (r: String)
        ensures
            r@ == self.host@ + ":"@ + text::decimal(self.port as nat),
    {
        let mut out: String = self.host.clone();
        out.append(":");
        let port = text::write_decimal(self.port as u64);
        out.append(port.as_str());
        out
    }

    /// The page that is served where no file is found.
    pub fn index_file(&self) -> (r: String)
        ensures
            r@ == self.static_dir@ + "/index.html"@,
    {
        text::join(self.static_dir.as_str(), "/index.html")
    }

    /// Whether `*` is among the origins, which lets everyone in.
    pub open spec fn allows_any(&self) -> bool {
        text::texts(self.cors_allowed_origins@).contains("*"@)
    }

    /// Whether a browser on `origin` is let in: the wildcard, or an entry that
    /// agrees with it but for ASCII case and slashes at its end.
    pub open spec fn allows(&self, origin: Seq<char>) -> bool {
        self.allows_any() || exists|i: int|
            0 <= i < self.cors_allowed_origins@.len() && text::ascii_lowercase(
                #[trigger] self.cors_allowed_origins@[i]@,
            ) == text::ascii_lowercase(text::without_trailing(origin, '/'))
    }

    pub fn cors_allow_any(&self) -> (r: bool)
        ensures
            r == self.allows_any(),
    {
        let mut i: usize = 0;
        while i < self.cors_allowed_origins.len()
            invariant
                i <= self.cors_allowed_origins.len(),
                forall|k: int| 0 <= k < i ==> #[trigger] self.cors_allowed_origins@[k]@ != "*"@,
            decreases self.cors_allowed_origins.len() - i,
        {
            if text::same(self.cors_allowed_origins[i].as_str(), "*") {
                proof {
                    assert(text::texts(self.cors_allowed_origins@)[i as int] == "*"@);
                }
                return true;
            }
            i = i + 1;
        }
        false
    }

    pub fn origin_allowed(&self, origin: &str) -> (r: bool)
        ensures
            r == self.allows(origin@),
    {
        if self.cors_allow_any() {
            return true;
        }
        let wanted = text::trim_end_slashes(origin);
        let mut i: usize = 0;
        while i < self.cors_allowed_origins.len()
            invariant
                i <= self.cors_allowed_origins.len(),
                !self.allows_any(),
                wanted@ == text::without_trailing(origin@, '/'),
                forall|k: int|
                    0 <= k < i ==> text::ascii_lowercase(
                        #[trigger] self.cors_allowed_origins@[k]@,
                    ) != text::ascii_lowercase(wanted@),
            decreases self.cors_allowed_origins.len() - i,
        {
            if text::eq_ignore_ascii_case(self.cors_allowed_origins[i].as_str(), wanted.as_str()) {
                return true;
            }
            i = i + 1;
        }
        false
    }
}

} // verus!
