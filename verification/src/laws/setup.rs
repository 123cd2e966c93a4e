//! What the settings are, which browsers are let in, and where layouts lie.

use crate::config::{self, Config, ConfigError, EnvVars, PlainConfig};
use crate::error::AppError;
use crate::laws::presence::has_words;
use crate::laws::texts;
use crate::origin_guard::{self, CorsPolicy};
use crate::pubkey::{self, Pubkey};
use crate::realtime::messages;
use crate::routes::{self, EchoRequest, EchoResponse, HealthResponse};
use crate::services::{EchoService, Services};
use crate::state::AppState;
use crate::store::{self, RoomStore};
use crate::text;
use vstd::prelude::*;
use vstd::string::*;
use vstd::utf8::*;

verus! {

/// A variable's text, or what stands for it when it is not set.
pub open spec fn set_or(var: Option<String>, default: Seq<char>) -> Seq<char> {
    match var {
        Some(s) => s@,
        None => default,
    }
}

// ---------------------------------------------------------------------- origins

/// Whether `stem` is `s` without the slashes at its end.
pub open spec fn is_stem(s: Seq<char>, stem: Seq<char>) -> bool {
    &&& stem.is_prefix_of(s)
    &&& forall|i: int| stem.len() <= i < s.len() ==> #[trigger] s[i] == '/'
    &&& stem.len() > 0 ==> stem.last() != '/'
}

pub proof fn lemma_stem(s: Seq<char>)
    ensures
        is_stem(s, text::without_trailing(s, '/')),
    decreases s.len(),
{
    if s.len() > 0 && s.last() == '/' {
        let front = s.drop_last();
        lemma_stem(front);
        let stem = text::without_trailing(s, '/');
        assert(stem =~= s.subrange(0, stem.len() as int));
        assert forall|i: int| stem.len() <= i < s.len() implies #[trigger] s[i] == '/' by {
            if i < front.len() {
                assert(front[i] == s[i]);
            }
        }
    } else {
        assert(s =~= s.subrange(0, s.len() as int));
    }
}

proof fn lemma_one_stem(s: Seq<char>, a: Seq<char>, b: Seq<char>)
    requires
        is_stem(s, a),
        is_stem(s, b),
    ensures
        a == b,
{
    if a.len() < b.len() {
        assert(s[b.len() - 1] == b.last());
    } else if b.len() < a.len() {
        assert(s[a.len() - 1] == a.last());
    }
    assert(a =~= b);
}

/// Whether an origin is what a piece of a list names: the piece without the white
/// space around it and the slashes at its end.
pub open spec fn names_origin(piece: Seq<char>, origin: Seq<char>) -> bool {
    exists|core: Seq<char>| #[trigger] texts::is_core(piece, core) && is_stem(core, origin)
}

proof fn lemma_names_origin(piece: Seq<char>)
    ensures
        names_origin(piece, config::origin_text(piece)),
        forall|o: Seq<char>| names_origin(piece, o) ==> o == config::origin_text(piece),
{
    texts::lemma_trimmed_is_core(piece);
    lemma_stem(text::trimmed(piece));
    assert forall|o: Seq<char>| names_origin(piece, o) implies o == config::origin_text(piece) by {
        let core = choose|core: Seq<char>| #[trigger]
            texts::is_core(piece, core) && is_stem(core, o);
        texts::lemma_one_core(piece, core, text::trimmed(piece));
        lemma_one_stem(core, o, config::origin_text(piece));
    }
}

proof fn lemma_origins(pieces: Seq<Seq<char>>, o: Seq<char>)
    ensures
        config::nonempty_origins(pieces).contains(o) <==> o.len() > 0 && exists|j: int|
            0 <= j < pieces.len() && names_origin(#[trigger] pieces[j], o),
        config::nonempty_origins(pieces).len() <= pieces.len(),
    decreases pieces.len(),
{
    if pieces.len() > 0 {
        let front = pieces.drop_last();
        let before = config::nonempty_origins(front);
        let all = config::nonempty_origins(pieces);
        lemma_origins(front, o);
        lemma_names_origin(pieces.last());
        let last = config::origin_text(pieces.last());
        if before.contains(o) {
            let i = choose|i: int| 0 <= i < before.len() && before[i] == o;
            assert(all[i] == o);
            let j = choose|j: int| 0 <= j < front.len() && names_origin(#[trigger] front[j], o);
            assert(names_origin(pieces[j], o));
        }
        if o == last && o.len() > 0 {
            assert(all[all.len() - 1] == o);
            assert(names_origin(pieces[pieces.len() - 1], o));
        }
        if all.contains(o) && !before.contains(o) {
            let i = choose|i: int| 0 <= i < all.len() && all[i] == o;
            assert(i == before.len());
            assert(o == last);
        }
        if o.len() > 0 && exists|j: int|
            0 <= j < pieces.len() && names_origin(#[trigger] pieces[j], o) {
            let j = choose|j: int| 0 <= j < pieces.len() && names_origin(#[trigger] pieces[j], o);
            if j < front.len() {
                assert(names_origin(front[j], o));
            }
        }
    }
}

/// A list of origins holds exactly those that its pieces between commas name; one
/// that names none is refused.
pub proof fn origin_lists_hold_what_they_name(
    raw: &str,
    pieces: Vec<String>,
    r: Result<Vec<String>, ConfigError>,
    o: Seq<char>,
)
    requires
        call_ensures(config::parse_origins, (raw,), r),
        call_ensures(text::split_at_each, (raw, ','), pieces),
    ensures
        r matches Ok(origins) ==> (text::texts(origins@).contains(o) <==> o.len() > 0 && exists|
            j: int,
        |
            0 <= j < pieces@.len() && names_origin((#[trigger] pieces@[j])@, o)),
        r is Err ==> r->Err_0 is EmptyCorsOrigins && !(o.len() > 0 && exists|j: int|
            0 <= j < pieces@.len() && names_origin((#[trigger] pieces@[j])@, o)),
        r matches Ok(origins) ==> origins@.len() > 0,
{
    let all = text::texts(pieces@);
    lemma_origins(all, o);
    if exists|j: int| 0 <= j < all.len() && names_origin(#[trigger] all[j], o) {
        let j = choose|j: int| 0 <= j < all.len() && names_origin(#[trigger] all[j], o);
        assert(names_origin(pieces@[j]@, o));
    }
    if exists|j: int| 0 <= j < pieces@.len() && names_origin((#[trigger] pieces@[j])@, o) {
        let j = choose|j: int|
            0 <= j < pieces@.len() && names_origin((#[trigger] pieces@[j])@, o);
        assert(names_origin(all[j], o));
    }
}

/// Origins stand in the order in which they are named: what a piece names comes
/// behind what stands ahead of its comma, and a piece that names nothing adds
/// nothing.
pub proof fn origins_stay_in_order(
    raw: &str,
    longer: &str,
    piece: Seq<char>,
    origin: Seq<char>,
    r: Result<Vec<String>, ConfigError>,
    r_longer: Result<Vec<String>, ConfigError>,
)
    requires
        !piece.contains(','),
        names_origin(piece, origin),
        longer@ == raw@ + seq![','] + piece || (raw@.len() == 0 && longer@ == piece),
        call_ensures(config::parse_origins, (raw,), r),
        call_ensures(config::parse_origins, (longer,), r_longer),
    ensures
        r_longer matches Ok(origins) ==> text::texts(origins@) == (match r {
            Ok(before) => text::texts(before@),
            Err(_) => Seq::empty(),
        }) + (if origin.len() > 0 {
            seq![origin]
        } else {
            Seq::empty()
        }),
{
    lemma_names_origin(piece);
    let none = Seq::<char>::empty();
    assert(!none.contains(','));
    texts::lemma_split_one(none, ',');
    lemma_names_origin(none);
    texts::lemma_trimmed_is_core(none);
    if raw@.len() == 0 {
        assert(raw@ =~= none);
        assert(seq![none].drop_last() =~= Seq::<Seq<char>>::empty());
        assert(config::nonempty_origins(Seq::<Seq<char>>::empty()) =~= Seq::<Seq<char>>::empty());
        assert(config::origin_text(none).len() == 0);
    }
    let before = text::split(raw@, ',');
    if longer@ == raw@ + seq![','] + piece {
        texts::lemma_split_push(raw@, ',', piece);
        assert(before.push(piece).drop_last() =~= before);
    } else {
        texts::lemma_split_one(piece, ',');
        assert(seq![piece].drop_last() =~= Seq::<Seq<char>>::empty());
    }
    if let Ok(origins) = r_longer {
        assert(text::texts(origins@) =~= (match r {
            Ok(before) => text::texts(before@),
            Err(_) => Seq::empty(),
        }) + (if origin.len() > 0 {
            seq![origin]
        } else {
            Seq::empty()
        }));
    }
}

/// Whether two texts differ in nothing but the case of the letters `A` to `Z`.
pub open spec fn same_but_for_case(a: Seq<char>, b: Seq<char>) -> bool {
    &&& a.len() == b.len()
    &&& forall|i: int|
        0 <= i < a.len() ==> {
            ||| #[trigger] a[i] == b[i]
            ||| 'A' <= a[i] <= 'Z' && b[i] as u32 == a[i] as u32 + 32
            ||| 'A' <= b[i] <= 'Z' && a[i] as u32 == b[i] as u32 + 32
        }
}

proof fn lemma_case(a: Seq<char>, b: Seq<char>)
    ensures
        text::ascii_lowercase(a) == text::ascii_lowercase(b) <==> same_but_for_case(a, b),
{
    let x = text::ascii_lowercase(a);
    let y = text::ascii_lowercase(b);
    if x == y {
        assert(x.len() == a.len() && y.len() == b.len());
        assert forall|i: int| 0 <= i < a.len() implies {
            ||| #[trigger] a[i] == b[i]
            ||| 'A' <= a[i] <= 'Z' && b[i] as u32 == a[i] as u32 + 32
            ||| 'A' <= b[i] <= 'Z' && a[i] as u32 == b[i] as u32 + 32
        } by {
            assert(x[i] == text::ascii_lower(a[i]));
            assert(y[i] == text::ascii_lower(b[i]));
        }
    }
    if same_but_for_case(a, b) {
        assert forall|i: int| 0 <= i < a.len() implies x[i] == y[i] by {
            assert(x[i] == text::ascii_lower(a[i]));
            assert(y[i] == text::ascii_lower(b[i]));
            assert(a[i] == a[i]);
        }
        assert(x =~= y);
    }
}

/// Whether a browser is let in: everyone is, or its origin is listed, up to the
/// slashes at its end and the case of its letters.
pub open spec fn lets_in(config: Config, origin: Seq<char>) -> bool {
    ||| exists|i: int|
        0 <= i < config.cors_allowed_origins@.len() && (
        #[trigger] config.cors_allowed_origins@[i])@ == "*"@
    ||| exists|i: int, stem: Seq<char>|
        0 <= i < config.cors_allowed_origins@.len() && #[trigger] is_stem(origin, stem)
            && same_but_for_case((#[trigger] config.cors_allowed_origins@[i])@, stem)
}

proof fn lemma_lets_in(config: Config, origin: Seq<char>)
    ensures
        config.allows(origin) <==> lets_in(config, origin),
        config.allows_any() <==> exists|i: int|
            0 <= i < config.cors_allowed_origins@.len() && (
            #[trigger] config.cors_allowed_origins@[i])@ == "*"@,
{
    let listed = config.cors_allowed_origins@;
    let stem = text::without_trailing(origin, '/');
    lemma_stem(origin);
    if config.allows_any() {
        let i = choose|i: int| 0 <= i < text::texts(listed).len() && text::texts(listed)[i] == "*"@;
        assert(listed[i]@ == "*"@);
    }
    if exists|i: int| 0 <= i < listed.len() && (#[trigger] listed[i])@ == "*"@ {
        let i = choose|i: int| 0 <= i < listed.len() && (#[trigger] listed[i])@ == "*"@;
        assert(text::texts(listed)[i] == "*"@);
    }
    assert forall|i: int| 0 <= i < listed.len() implies (text::ascii_lowercase(
        (#[trigger] listed[i])@,
    ) == text::ascii_lowercase(stem) <==> same_but_for_case(listed[i]@, stem)) by {
        lemma_case(listed[i]@, stem);
    }
    if exists|i: int, s: Seq<char>|
        0 <= i < listed.len() && #[trigger] is_stem(origin, s) && same_but_for_case(
            (#[trigger] listed[i])@,
            s,
        ) {
        let (i, s) = choose|i: int, s: Seq<char>|
            0 <= i < listed.len() && #[trigger] is_stem(origin, s) && same_but_for_case(
                (#[trigger] listed[i])@,
                s,
            );
        lemma_one_stem(origin, s, stem);
    }
}

/// A browser is let in exactly if everyone is, or its origin is listed.
pub proof fn listed_origins_are_let_in(config: &Config, origin: &str, r: bool, any: bool)
    requires
        call_ensures(Config::origin_allowed, (config, origin), r),
        call_ensures(Config::cors_allow_any, (config,), any),
    ensures
        r <==> lets_in(*config, origin@),
        any <==> exists|i: int|
            0 <= i < config.cors_allowed_origins@.len() && (
            #[trigger] config.cors_allowed_origins@[i])@ == "*"@,
{
    lemma_lets_in(*config, origin@);
}

/// A request is refused exactly if it goes to the Socket.IO endpoint and carries an
/// origin that is not let in. One that carries none passes, and so does one that
/// goes elsewhere.
pub proof fn foreign_handshakes_are_refused(
    config: &Config,
    path: &str,
    origin: Option<&[u8]>,
    r: bool,
    written: Seq<char>,
)
    requires
        call_ensures(origin_guard::handshake_refused, (config, path, origin), r),
    ensures
        r ==> origin is Some && exists|rest: Seq<char>| path@ == #[trigger] ("/socket.io"@ + rest),
        (exists|rest: Seq<char>| path@ == #[trigger] ("/socket.io"@ + rest)) ==> (
        origin matches Some(bytes) ==> bytes@ == encode_utf8(written) ==> r == !lets_in(
            *config,
            written,
        )),
        (exists|rest: Seq<char>| path@ == #[trigger] ("/socket.io"@ + rest)) ==> (
        origin matches Some(bytes) ==> !valid_utf8(bytes@) ==> r == !exists|i: int|
            0 <= i < config.cors_allowed_origins@.len() && (
            #[trigger] config.cors_allowed_origins@[i])@ == "*"@),
{
    lemma_lets_in(*config, written);
    encode_utf8_decode_utf8(written);
    encode_utf8_valid_utf8(written);
    let n = "/socket.io"@.len() as int;
    if "/socket.io"@.is_prefix_of(path@) {
        assert(path@ =~= "/socket.io"@ + path@.skip(n));
    }
    if exists|rest: Seq<char>| path@ == #[trigger] ("/socket.io"@ + rest) {
        let rest = choose|rest: Seq<char>| path@ == #[trigger] ("/socket.io"@ + rest);
        assert("/socket.io"@ =~= path@.subrange(0, n));
    }
}

proof fn lemma_sendable(origins: Seq<Seq<char>>, o: Seq<char>)
    ensures
        origin_guard::sendable(origins).contains(o) <==> origins.contains(o)
            && origin_guard::header_text(o),
    decreases origins.len(),
{
    if origins.len() > 0 {
        let front = origins.drop_last();
        let before = origin_guard::sendable(front);
        let all = origin_guard::sendable(origins);
        lemma_sendable(front, o);
        if before.contains(o) {
            let i = choose|i: int| 0 <= i < before.len() && before[i] == o;
            assert(all[i] == o);
            let j = choose|j: int| 0 <= j < front.len() && front[j] == o;
            assert(origins[j] == o);
        }
        if o == origins.last() && origin_guard::header_text(o) {
            assert(all[all.len() - 1] == o);
            assert(origins[origins.len() - 1] == o);
        }
        if all.contains(o) && !before.contains(o) {
            let i = choose|i: int| 0 <= i < all.len() && all[i] == o;
            assert(i == before.len());
            assert(origins[origins.len() - 1] == o);
        }
        if origins.contains(o) && o != origins.last() {
            let j = choose|j: int| 0 <= j < origins.len() && origins[j] == o;
            assert(front[j] == o);
        }
    }
}

/// REST answers are for any origin exactly with the wildcard; else for each listed
/// origin that a header can carry, and no other.
pub proof fn rest_is_for_the_listed(config: &Config, any: bool, r: CorsPolicy, o: Seq<char>)
    requires
        call_ensures(Config::cors_allow_any, (config,), any),
        call_ensures(origin_guard::cors_policy, (config,), r),
    ensures
        r is Any <==> any,
        r matches CorsPolicy::List(origins) ==> (text::texts(origins@).contains(o)
            <==> text::texts(config.cors_allowed_origins@).contains(o) && forall|i: int|
            0 <= i < encode_utf8(o).len() ==> {
                let b = #[trigger] encode_utf8(o)[i];
                b == 9 || (32 <= b && b != 127)
            }),
{
    lemma_sendable(text::texts(config.cors_allowed_origins@), o);
    if origin_guard::header_text(o) {
        assert forall|i: int| 0 <= i < encode_utf8(o).len() implies ({
            let b = #[trigger] encode_utf8(o)[i];
            b == 9 || (32 <= b && b != 127)
        }) by {
            assert(origin_guard::header_byte(encode_utf8(o)[i]));
        }
    }
    if forall|i: int|
        0 <= i < encode_utf8(o).len() ==> {
            let b = #[trigger] encode_utf8(o)[i];
            b == 9 || (32 <= b && b != 127)
        } {
        assert forall|i: int| 0 <= i < encode_utf8(o).len() implies origin_guard::header_byte(
            #[trigger] encode_utf8(o)[i],
        ) by {}
    }
}

// --------------------------------------------------------------------- settings

proof fn lemma_wallets(pieces: Seq<Seq<char>>, name: Seq<char>)
    ensures
        config::nonempty_trimmed(pieces).contains(name) <==> name.len() > 0 && exists|j: int|
            0 <= j < pieces.len() && texts::is_core(#[trigger] pieces[j], name),
    decreases pieces.len(),
{
    if pieces.len() > 0 {
        let front = pieces.drop_last();
        let before = config::nonempty_trimmed(front);
        let all = config::nonempty_trimmed(pieces);
        lemma_wallets(front, name);
        let last = text::trimmed(pieces.last());
        texts::lemma_trimmed_is_core(pieces.last());
        if before.contains(name) {
            let i = choose|i: int| 0 <= i < before.len() && before[i] == name;
            assert(all[i] == name);
            let j = choose|j: int|
                0 <= j < front.len() && texts::is_core(#[trigger] front[j], name);
            assert(texts::is_core(pieces[j], name));
        }
        if name == last && name.len() > 0 {
            assert(all[all.len() - 1] == name);
            assert(texts::is_core(pieces[pieces.len() - 1], name));
        }
        if all.contains(name) && !before.contains(name) {
            let i = choose|i: int| 0 <= i < all.len() && all[i] == name;
            assert(i == before.len());
        }
        if name.len() > 0 && exists|j: int|
            0 <= j < pieces.len() && texts::is_core(#[trigger] pieces[j], name) {
            let j = choose|j: int|
                0 <= j < pieces.len() && texts::is_core(#[trigger] pieces[j], name);
            if j < front.len() {
                assert(texts::is_core(front[j], name));
            } else {
                texts::lemma_one_core(pieces.last(), name, last);
            }
        }
    }
}

/// The names in a list of wallets are what stands between its commas, without the
/// white space around it and without empty ones.
pub proof fn wallet_lists_hold_what_they_name(
    raw: &str,
    pieces: Vec<String>,
    names: Vec<String>,
    name: Seq<char>,
)
    requires
        call_ensures(config::split_wallets, (raw,), names),
        call_ensures(text::split_at_each, (raw, ','), pieces),
    ensures
        text::texts(names@).contains(name) <==> name.len() > 0 && exists|j: int|
            0 <= j < pieces@.len() && texts::is_core((#[trigger] pieces@[j])@, name),
{
    let all = text::texts(pieces@);
    lemma_wallets(all, name);
    if exists|j: int| 0 <= j < all.len() && texts::is_core(#[trigger] all[j], name) {
        let j = choose|j: int| 0 <= j < all.len() && texts::is_core(#[trigger] all[j], name);
        assert(texts::is_core(pieces@[j]@, name));
    }
    if exists|j: int| 0 <= j < pieces@.len() && texts::is_core((#[trigger] pieces@[j])@, name) {
        let j = choose|j: int|
            0 <= j < pieces@.len() && texts::is_core((#[trigger] pieces@[j])@, name);
        assert(texts::is_core(all[j], name));
    }
}

/// Wallets stand in the order in which they are named.
pub proof fn wallets_stay_in_order(
    raw: &str,
    longer: &str,
    piece: Seq<char>,
    name: Seq<char>,
    names: Vec<String>,
    more: Vec<String>,
)
    requires
        !piece.contains(','),
        texts::is_core(piece, name),
        longer@ == raw@ + seq![','] + piece || (raw@.len() == 0 && longer@ == piece),
        call_ensures(config::split_wallets, (raw,), names),
        call_ensures(config::split_wallets, (longer,), more),
    ensures
        text::texts(more@) == text::texts(names@) + (if name.len() > 0 {
            seq![name]
        } else {
            Seq::empty()
        }),
{
    texts::lemma_trimmed_is_core(piece);
    texts::lemma_one_core(piece, name, text::trimmed(piece));
    let none = Seq::<char>::empty();
    assert(!none.contains(','));
    texts::lemma_split_one(none, ',');
    texts::lemma_trimmed_is_core(none);
    if raw@.len() == 0 {
        assert(raw@ =~= none);
        assert(seq![none].drop_last() =~= Seq::<Seq<char>>::empty());
    }
    let before = text::split(raw@, ',');
    if longer@ == raw@ + seq![','] + piece {
        texts::lemma_split_push(raw@, ',', piece);
        assert(before.push(piece).drop_last() =~= before);
    } else {
        texts::lemma_split_one(piece, ',');
        assert(seq![piece].drop_last() =~= Seq::<Seq<char>>::empty());
    }
    assert(text::texts(more@) =~= text::texts(names@) + (if name.len() > 0 {
        seq![name]
    } else {
        Seq::empty()
    }));
}

/// Whether a text is a port: a number from 1 to 65535.
pub open spec fn is_port(raw: Seq<char>, port: nat) -> bool {
    text::number(raw, 65535) == Some(port) && port > 0
}

/// Every setting is the variable as it was set, or its default: `0.0.0.0`, `3001`,
/// `info`, `https://space.ekza.io`, `build`, `data`, the main network, the space
/// program, 30 seconds, and no moderators.
pub proof fn settings_are_what_was_set(
    vars: EnvVars,
    listed: &str,
    origins: Result<Vec<String>, ConfigError>,
    wallets: &str,
    names: Vec<String>,
    c: Config,
)
    requires
        call_ensures(Config::from_env, (vars,), Ok::<Config, ConfigError>(c)),
        listed@ == set_or(vars.cors_allowed_origins, "https://space.ekza.io"@),
        call_ensures(config::parse_origins, (listed,), origins),
        wallets@ == set_or(vars.moderator_wallets, Seq::empty()),
        call_ensures(config::split_wallets, (wallets,), names),
    ensures
        c.host@ == set_or(vars.host, "0.0.0.0"@),
        has_words(c.host@),
        is_port(set_or(vars.port, "3001"@), c.port as nat),
        c.log_level@ == set_or(vars.log_level, "info"@),
        origins matches Ok(list) && text::texts(list@) == text::texts(c.cors_allowed_origins@),
        c.static_dir@ == set_or(vars.static_dir, "build"@),
        c.data_dir@ == set_or(vars.data_dir, "data"@),
        c.solana_rpc_url@ == set_or(
            vars.solana_rpc_url,
            "https://api.mainnet-beta.solana.com"@,
        ),
        exists|core: Seq<char>| #[trigger]
            texts::is_core(
                set_or(vars.space_program_id, "2WtuXG6AX3erRp6eK5WiSTEEBec5zprQ7qLyLENfMQEH"@),
                core,
            ) && pubkey::pubkey_from_text(core) == Some(c.space_program_id.bytes@),
        c.ownership_cache_secs == match vars.ownership_cache_secs {
            Some(s) => match text::number(s@, u64::MAX as nat) {
                Some(n) => n,
                None => 30nat,
            },
            None => 30nat,
        },
        c.moderators@.len() == names@.len(),
        forall|i: int|
            0 <= i < names@.len() ==> pubkey::pubkey_from_text((#[trigger] names@[i])@) == Some(
                c.moderators@[i].bytes@,
            ),
{
    let program = set_or(
        vars.space_program_id,
        "2WtuXG6AX3erRp6eK5WiSTEEBec5zprQ7qLyLENfMQEH"@,
    );
    texts::lemma_trimmed_is_core(program);
    assert(texts::is_core(program, text::trimmed(program)));
    lemma_words(c.host@);
    let all = text::texts(names@);
    assert(all.len() == names@.len());
    assert forall|i: int| 0 <= i < names@.len() implies pubkey::pubkey_from_text(
        (#[trigger] names@[i])@,
    ) == Some(c.moderators@[i].bytes@) by {
        assert(all[i] == names@[i]@);
    }
}

proof fn lemma_words(s: Seq<char>)
    ensures
        text::trimmed(s).len() > 0 <==> has_words(s),
{
    texts::lemma_shown(s, s.len() + 1);
    let core = text::trimmed(s);
    texts::lemma_trimmed_is_core(s);
    let (a, b) = choose|a: int, b: int| #[trigger] texts::core_at(s, core, a, b);
    assert(text::truncated(core, s.len() + 1) == core);
    texts::lemma_shown_has_words(s, s.len() + 1, core);
}

/// The settings are refused exactly if the host is blank, the port is none, no
/// origin is named, or the program or a moderator is no key; and the error is about
/// the first of these that holds.
pub proof fn settings_fail_on_the_first_fault(
    vars: EnvVars,
    listed: &str,
    origins: Result<Vec<String>, ConfigError>,
    wallets: &str,
    names: Vec<String>,
    program: Seq<char>,
    r: Result<Config, ConfigError>,
)
    requires
        call_ensures(Config::from_env, (vars,), r),
        listed@ == set_or(vars.cors_allowed_origins, "https://space.ekza.io"@),
        call_ensures(config::parse_origins, (listed,), origins),
        wallets@ == set_or(vars.moderator_wallets, Seq::empty()),
        call_ensures(config::split_wallets, (wallets,), names),
        texts::is_core(
            set_or(vars.space_program_id, "2WtuXG6AX3erRp6eK5WiSTEEBec5zprQ7qLyLENfMQEH"@),
            program,
        ),
    ensures
        ({
            let host = set_or(vars.host, "0.0.0.0"@);
            let port = set_or(vars.port, "3001"@);
            if !has_words(host) {
                r matches Err(ConfigError::EmptyHost)
            } else if forall|n: nat| !is_port(port, n) {
                r matches Err(ConfigError::InvalidPort(raw)) && raw@ == port
            } else if origins is Err {
                r matches Err(ConfigError::EmptyCorsOrigins)
            } else if pubkey::pubkey_from_text(program) is None {
                r matches Err(ConfigError::InvalidPubkey(var, raw)) && var@ == "SPACE_PROGRAM_ID"@
                    && raw@ == set_or(
                    vars.space_program_id,
                    "2WtuXG6AX3erRp6eK5WiSTEEBec5zprQ7qLyLENfMQEH"@,
                )
            } else if exists|i: int|
                0 <= i < names@.len() && pubkey::pubkey_from_text((#[trigger] names@[i])@)
                    is None {
                &&& r matches Err(ConfigError::InvalidPubkey(var, raw))
                &&& var@ == "MODERATOR_WALLETS"@
                &&& exists|i: int|
                    0 <= i < names@.len() && raw@ == (#[trigger] names@[i])@
                        && pubkey::pubkey_from_text(raw@) is None && forall|k: int|
                        0 <= k < i ==> pubkey::pubkey_from_text((#[trigger] names@[k])@) is Some
            } else {
                r is Ok
            }
        }),
{
    let host = set_or(vars.host, "0.0.0.0"@);
    let port = set_or(vars.port, "3001"@);
    let raw_program = set_or(
        vars.space_program_id,
        "2WtuXG6AX3erRp6eK5WiSTEEBec5zprQ7qLyLENfMQEH"@,
    );
    lemma_words(host);
    texts::lemma_trimmed_is_core(raw_program);
    texts::lemma_one_core(raw_program, program, text::trimmed(raw_program));
    match config::port_of(port) {
        Some(n) => {
            assert(is_port(port, n));
        },
        None => {},
    }
    let all = text::texts(names@);
    assert(all.len() == names@.len());
    assert forall|i: int| 0 <= i < all.len() implies #[trigger] all[i] == names@[i]@ by {}
    if let Ok(c) = r {
        assert forall|i: int| 0 <= i < names@.len() implies pubkey::pubkey_from_text(
            (#[trigger] names@[i])@,
        ) is Some by {
            assert(all[i] == names@[i]@);
        }
    }
    if let Err(e) = r {
        if config::plain_problem(vars) is None && pubkey::pubkey_from_text(program) is Some {
            let i = choose|i: int|
                config::first_bad(all, i) && e@ == config::ConfigErrorView::InvalidPubkey(
                    "MODERATOR_WALLETS"@,
                    #[trigger] all[i],
                );
            assert(names@[i]@ == all[i]);
            assert forall|k: int| 0 <= k < i implies pubkey::pubkey_from_text(
                (#[trigger] names@[k])@,
            ) is Some by {
                assert(all[k] == names@[k]@);
            }
        }
    }
}

/// The plain settings and the keys are put together as they are; the program comes
/// first if neither was read.
pub proof fn settings_are_put_together(
    plain: PlainConfig,
    program: Option<Pubkey>,
    moderators: Result<Vec<Pubkey>, ConfigError>,
    r: Result<Config, ConfigError>,
)
    requires
        call_ensures(Config::assemble, (plain, program, moderators), r),
    ensures
        r is Ok <==> program is Some && moderators is Ok,
        r matches Ok(c) ==> {
            &&& c.host == plain.host && c.port == plain.port && c.log_level == plain.log_level
            &&& c.cors_allowed_origins == plain.cors_allowed_origins
            &&& c.static_dir == plain.static_dir && c.data_dir == plain.data_dir
            &&& c.solana_rpc_url == plain.solana_rpc_url
            &&& c.ownership_cache_secs == plain.ownership_cache_secs
            &&& Some(c.space_program_id) == program && c.moderators == moderators->Ok_0
        },
        r matches Err(e) ==> program is Some ==> moderators == Err::<Vec<Pubkey>, ConfigError>(e),
        r matches Err(e) ==> program is None ==> (e matches ConfigError::InvalidPubkey(var, raw)
            && var@ == "SPACE_PROGRAM_ID"@ && raw@ == plain.space_program_id@),
{
}

/// The server listens on host and port, and falls back on the page in the static
/// directory.
pub proof fn addresses_are_put_together(config: &Config, bind: String, index: String)
    requires
        call_ensures(Config::bind_addr, (config,), bind),
        call_ensures(Config::index_file, (config,), index),
    ensures
        bind@ == config.host@ + ":"@ + text::decimal(config.port as nat),
        index@ == config.static_dir@ + "/index.html"@,
{
}

/// An error in the settings says in words which one it is about.
pub proof fn setting_errors_are_put_in_words(e: &ConfigError, r: String)
    requires
        call_ensures(ConfigError::message, (e,), r),
    ensures
        e is EmptyHost ==> r@ == "HOST must not be empty"@,
        e matches ConfigError::InvalidPort(raw) ==> r@ == "invalid PORT value: "@ + raw@,
        e is EmptyCorsOrigins ==> r@ == "CORS_ALLOWED_ORIGINS must not be empty"@,
        e matches ConfigError::InvalidPubkey(var, raw) ==> r@ == "invalid pubkey in "@ + var@
            + ": "@ + raw@,
{
}

// ------------------------------------------------------------------------ files

/// A room's file lies in `rooms` below the data directory, under its id; while it
/// is written it has a name of its own. Both lie in the directory that is listed.
pub proof fn files_lie_below_the_data(
    data_dir: &str,
    room_id: u32,
    made: RoomStore,
    root: &String,
    path: String,
    temporary: String,
)
    requires
        call_ensures(RoomStore::new, (data_dir,), made),
        call_ensures(RoomStore::root, (&made,), root),
        call_ensures(RoomStore::path_for, (&made, room_id), path),
        call_ensures(RoomStore::temporary_path_for, (&made, room_id), temporary),
    ensures
        data_dir@.len() == 0 ==> root@ == "rooms"@,
        data_dir@.len() > 0 && data_dir@.last() != '/' ==> root@ == data_dir@ + "/rooms"@,
        data_dir@.len() > 0 && data_dir@.last() == '/' ==> root@ == data_dir@ + "rooms"@,
        path@ == root@ + "/"@ + text::decimal(room_id as nat) + ".json"@,
        temporary@ == root@ + "/"@ + text::decimal(room_id as nat) + ".json.tmp"@,
{
    reveal_strlit("rooms");
    reveal_strlit("/");
    reveal_strlit("/rooms");
    assert("/"@ + "rooms"@ =~= "/rooms"@);
    assert(data_dir@ + "/"@ + "rooms"@ =~= data_dir@ + "/rooms"@);
    assert(root@.last() == "rooms"@.last());
    let id = text::decimal(room_id as nat);
    assert(root@ + "/"@ + (id + ".json"@) =~= root@ + "/"@ + id + ".json"@);
    assert(root@ + "/"@ + (id + ".json.tmp"@) =~= root@ + "/"@ + id + ".json.tmp"@);
}

/// A file is a room's exactly if its name is a number and `.json`; the name that a
/// room's file has leads back to the room, and a file still being written is none.
pub proof fn file_names_lead_back(
    name: &str,
    r: Option<u32>,
    stem: Seq<char>,
    room_id: u32,
)
    requires
        call_ensures(store::room_of_file, (name,), r),
    ensures
        name@ == stem + ".json"@ ==> match text::number(stem, u32::MAX as nat) {
            Some(n) => r == Some(n as u32),
            None => r is None,
        },
        name@ == text::decimal(room_id as nat) + ".json"@ ==> r == Some(room_id),
        name@ == text::decimal(room_id as nat) + ".json.tmp"@ ==> r is None,
        r matches Some(n) ==> exists|s: Seq<char>|
            name@ == #[trigger] (s + ".json"@) && text::number(s, u32::MAX as nat) == Some(
                n as nat,
            ),
{
    reveal_strlit(".json");
    reveal_strlit(".json.tmp");
    let n = name@.len() as int;
    if name@ == stem + ".json"@ {
        assert(name@.subrange(n - 5, n) =~= ".json"@);
        assert(name@.take(n - 5) =~= stem);
    }
    let id = text::decimal(room_id as nat);
    text::decimal_reads_back(room_id as nat, u32::MAX as nat);
    if name@ == id + ".json"@ {
        assert(name@.subrange(n - 5, n) =~= ".json"@);
        assert(name@.take(n - 5) =~= id);
    }
    if name@ == id + ".json.tmp"@ {
        assert(name@.last() == 'p');
        if text::ends_with(name@, ".json"@) {
            assert(name@.subrange(n - 5, n).last() == 'n');
        }
    }
    if r is Some {
        let s = name@.take(n - 5);
        assert(name@ =~= s + ".json"@);
    }
}

proof fn lemma_rooms_in(names: Seq<Seq<char>>, id: u32)
    ensures
        store::rooms_in(names).contains(id) <==> exists|j: int|
            0 <= j < names.len() && store::room_in(#[trigger] names[j]) == Some(id),
    decreases names.len(),
{
    if names.len() > 0 {
        let front = names.drop_last();
        let before = store::rooms_in(front);
        let all = store::rooms_in(names);
        lemma_rooms_in(front, id);
        if before.contains(id) {
            let i = choose|i: int| 0 <= i < before.len() && before[i] == id;
            assert(all[i] == id);
            let j = choose|j: int|
                0 <= j < front.len() && store::room_in(#[trigger] front[j]) == Some(id);
            assert(store::room_in(names[j]) == Some(id));
        }
        if store::room_in(names.last()) == Some(id) {
            assert(all[all.len() - 1] == id);
            assert(store::room_in(names[names.len() - 1]) == Some(id));
        }
        if all.contains(id) && !before.contains(id) {
            let i = choose|i: int| 0 <= i < all.len() && all[i] == id;
            assert(i == before.len());
        }
        if exists|j: int| 0 <= j < names.len() && store::room_in(#[trigger] names[j]) == Some(id) {
            let j = choose|j: int|
                0 <= j < names.len() && store::room_in(#[trigger] names[j]) == Some(id);
            if j < front.len() {
                assert(store::room_in(front[j]) == Some(id));
            }
        }
    }
}

/// A room is listed exactly if a file of it is among the names, and the list does
/// not decrease.
pub proof fn listings_hold_the_rooms_on_disk(names: &Vec<String>, r: Vec<u32>, id: u32)
    requires
        call_ensures(RoomStore::list, (names,), r),
    ensures
        r@.contains(id) <==> exists|j: int|
            0 <= j < names@.len() && store::room_in((#[trigger] names@[j])@) == Some(id),
        forall|i: int, j: int| 0 <= i <= j < r@.len() ==> r@[i] <= r@[j],
{
    broadcast use vstd::seq_lib::group_to_multiset_ensures;

    let all = text::texts(names@);
    let found = store::rooms_in(all);
    lemma_rooms_in(all, id);
    assert(r@.contains(id) <==> r@.to_multiset().count(id) > 0);
    assert(found.contains(id) <==> found.to_multiset().count(id) > 0);
    if exists|j: int| 0 <= j < all.len() && store::room_in(#[trigger] all[j]) == Some(id) {
        let j = choose|j: int| 0 <= j < all.len() && store::room_in(#[trigger] all[j]) == Some(id);
        assert(store::room_in(names@[j]@) == Some(id));
    }
    if exists|j: int| 0 <= j < names@.len() && store::room_in((#[trigger] names@[j])@) == Some(id) {
        let j = choose|j: int|
            0 <= j < names@.len() && store::room_in((#[trigger] names@[j])@) == Some(id);
        assert(store::room_in(all[j]) == Some(id));
    }
}

/// Each further file of a room is listed once more, and any other file is not.
pub proof fn every_file_is_listed_once(
    names: &Vec<String>,
    more: &Vec<String>,
    r: Vec<u32>,
    r_more: Vec<u32>,
    name: &str,
    room: Option<u32>,
)
    requires
        more@.len() == names@.len() + 1,
        more@.drop_last() == names@,
        more@.last()@ == name@,
        call_ensures(RoomStore::list, (names,), r),
        call_ensures(RoomStore::list, (more,), r_more),
        call_ensures(store::room_of_file, (name,), room),
    ensures
        room is Some ==> r_more@.len() == r@.len() + 1,
        room is None ==> r_more@.len() == r@.len(),
        names@.len() == 0 ==> r@.len() == 0,
{
    broadcast use vstd::seq_lib::group_to_multiset_ensures;

    let all = text::texts(more@);
    assert(all.drop_last() =~= text::texts(names@));
    assert(all.last() == name@);
    assert(r@.to_multiset().len() == r@.len());
    assert(r_more@.to_multiset().len() == r_more@.len());
    assert(store::rooms_in(all).to_multiset().len() == store::rooms_in(all).len());
    assert(store::rooms_in(text::texts(names@)).to_multiset().len() == store::rooms_in(
        text::texts(names@),
    ).len());
}

// ------------------------------------------------------------------------- REST

/// The server says that it is up, and for how many whole seconds.
pub proof fn uptime_is_counted_in_seconds(started_at: u128, now: u128, r: HealthResponse)
    requires
        call_ensures(routes::health, (started_at, now), r),
    ensures
        r.status@ == "ok"@,
        started_at <= now ==> r.uptime_secs * 1_000_000_000 <= now - started_at < (r.uptime_secs
            + 1) * 1_000_000_000,
        now < started_at ==> r.uptime_secs == 0,
{
}

/// The state of the server is what it was started with.
pub proof fn servers_know_their_start(
    config: Config,
    started_at: u128,
    r: AppState,
    services: Services,
    message: String,
    echoed: String,
)
    requires
        call_ensures(AppState::new, (config, started_at), r),
        call_ensures(Services::new, (), services),
        call_ensures(EchoService::echo, (&services.echo, message), echoed),
    ensures
        r.config == config,
        r.started_at == started_at,
        echoed@ == message@,
{
}

/// An echo is the message that came.
pub proof fn echoes_are_the_message(services: &Services, request: EchoRequest, r: EchoResponse)
    requires
        call_ensures(routes::echo, (services, request), r),
    ensures
        r.message@ == request.message@,
{
}

/// A failed request is answered with its status and words.
pub proof fn failures_have_their_status(e: AppError, answer: (u16, String), words: String)
    requires
        call_ensures(AppError::into_answer, (e,), answer),
        call_ensures(AppError::message, (&e,), words),
    ensures
        e matches AppError::BadRequest(m) ==> answer.0 == 400 && answer.1@ == m@ && words@
            == "bad request: "@ + m@,
        e is NotFound ==> answer.0 == 404 && answer.1@ == "not found"@ && words@ == "not found"@,
        e matches AppError::Internal(m) ==> answer.0 == 500 && answer.1@ == m@ && words@
            == "internal error"@,
{
}

/// A clock is read as it shows, as far as 64 bits go, and as zero before the epoch.
pub proof fn clocks_are_read_as_they_show(shown: Option<u128>, r: u64)
    requires
        call_ensures(messages::now_millis, (shown,), r),
    ensures
        shown is None ==> r == 0,
        shown matches Some(ms) ==> (ms <= u64::MAX ==> r == ms) && (ms > u64::MAX ==> r
            == u64::MAX),
{
}

} // verus!
