//! Which browsers are let in.
//!
//! CORS headers alone do not protect WebSockets: the browser performs the
//! upgrade regardless and only the server can refuse. Requests without an
//! `Origin` header (native clients, curl) pass: authentication, not origin, is
//! what protects writes.

use crate::chain::decode;
use crate::config::{self, Config, EnvVars};
use crate::text;
use vstd::prelude::*;
use vstd::string::*;
use vstd::utf8::*;

verus! {

/// The bytes that a header value may hold.
pub open spec fn header_byte(b: u8) -> bool {
    (b >= 32 && b != 127) || b == 9
}

/// Whether a text can be sent as the value of a header.
pub open spec fn header_text(s: Seq<char>) -> bool {
    forall|i: int| 0 <= i < encode_utf8(s).len() ==> header_byte(#[trigger] encode_utf8(s)[i])
}

/// `axum::http::HeaderValue::from_str`: succeeds exactly on texts all of whose
/// bytes are at least 32 and not 127, or a tab.
#[verifier::external_body]
fn http_header_value(s: &str) -> (r: bool)
    ensures
        r == header_text(s@),
{
    axum::http::HeaderValue::from_str(s).is_ok()
}

/// Whether the bytes of an `Origin` header spell an origin that is let in.
pub open spec fn spells_allowed(config: Config, origin: Seq<u8>) -> bool {
    valid_utf8(origin) && config.allows(decode_utf8(origin))
}

/// Whether a request is refused for its origin: it goes to the Socket.IO
/// endpoint, not everyone is let in, and its `Origin` header spells none that is.
pub open spec fn refused(config: Config, path: Seq<char>, origin: Option<Seq<u8>>) -> bool {
    "/socket.io"@.is_prefix_of(path) && origin is Some && !config.allows_any() && !spells_allowed(
        config,
        origin->0,
    )
}

/// Whether a request is refused for its origin. `origin` holds the bytes of its
/// `Origin` header; bytes that are no text are let in by the wildcard alone.
pub fn handshake_refused(config: &Config, path: &str, origin: Option<&[u8]>) -> (r: bool)
    ensures
        r == refused(
            *config,
            path@,
            match origin {
                Some(o) => Some(o@),
                None => None,
            },
        ),
{
    if text::starts_with(path, "/socket.io") && !config.cors_allow_any() {
        match origin {
            Some(origin) => match decode::std_from_utf8(vstd::slice::slice_to_vec(origin)) {
                Some(origin) => {
                    proof {
                        encode_utf8_decode_utf8(origin@);
                    }
                    !config.origin_allowed(origin.as_str())
                },
                None => true,
            },
            None => false,
        }
    } else {
        false
    }
}

/// Which origins REST answers carry CORS headers for.
pub enum CorsPolicy {
    Any,
    List(Vec<String>),
}

/// The origins among `origins` that can be sent as a header's value.
pub open spec fn sendable(origins: Seq<Seq<char>>) -> Seq<Seq<char>>
    decreases origins.len(),
{
    if origins.len() == 0 {
        Seq::empty()
    } else {
        let before = sendable(origins.drop_last());
        if header_text(origins.last()) {
            before.push(origins.last())
        } else {
            before
        }
    }
}

/// Whatever is sendable was among the origins.
proof fn lemma_sendable(origins: Seq<Seq<char>>, s: Seq<char>)
    requires
        sendable(origins).contains(s),
    ensures
        origins.contains(s),
        header_text(s),
    decreases origins.len(),
{
    if origins.len() > 0 {
        let before = sendable(origins.drop_last());
        let i = choose|i: int| 0 <= i < sendable(origins).len() && sendable(origins)[i] == s;
        if i < before.len() {
            assert(before[i] == s);
            lemma_sendable(origins.drop_last(), s);
            let j = choose|j: int|
                0 <= j < origins.drop_last().len() && origins.drop_last()[j] == s;
            assert(origins[j] == s);
        } else {
            assert(s == origins.last());
        }
    }
}

/// The CORS policy of the settings: any origin with the wildcard, else the
/// origins that can be sent. A list never holds the wildcard.
pub fn cors_policy(config: &Config) -> (r: CorsPolicy)
    ensures
        match r {
            CorsPolicy::Any => config.allows_any(),
            CorsPolicy::List(origins) => !config.allows_any() && text::texts(origins@) == sendable(
                text::texts(config.cors_allowed_origins@),
            ) && !text::texts(origins@).contains("*"@),
        },
{
    if config.cors_allow_any() {
        return CorsPolicy::Any;
    }
    let mut kept: Vec<String> = Vec::new();
    let ghost all = text::texts(config.cors_allowed_origins@);
    let mut i: usize = 0;
    while i < config.cors_allowed_origins.len()
        invariant
            i <= config.cors_allowed_origins.len(),
            all == text::texts(config.cors_allowed_origins@),
            text::texts(kept@) == sendable(all.take(i as int)),
        decreases config.cors_allowed_origins.len() - i,
    {
        let origin = &config.cors_allowed_origins[i];
        proof {
            assert(all.take(i + 1).drop_last() =~= all.take(i as int));
            assert(all.take(i + 1).last() == origin@);
        }
        if http_header_value(origin.as_str()) {
            let ghost before = text::texts(kept@);
            kept.push(origin.clone());
            proof {
                assert(text::texts(kept@) =~= before.push(origin@));
            }
        }
        i = i + 1;
    }
    proof {
        assert(all.take(all.len() as int) =~= all);
        if text::texts(kept@).contains("*"@) {
            lemma_sendable(all, "*"@);
        }
    }
    CorsPolicy::List(kept)
}

// -------------------------------------------------------------------- laws

/// A request that carries no origin is never refused.
pub proof fn no_origin_passes(config: Config, path: Seq<char>)
    ensures
        !refused(config, path, None),
{
}

/// With the wildcard among the origins no request is refused, whatever its
/// `Origin` header holds.
pub proof fn wildcard_lets_everyone_in(config: Config, path: Seq<char>, origin: Option<Seq<u8>>)
    requires
        config.allows_any(),
    ensures
        !refused(config, path, origin),
{
}

/// A foreign origin never gets through to the Socket.IO endpoint: neither the
/// text of one that is not let in, nor, without the wildcard, bytes that are no
/// text.
pub proof fn foreign_origins_are_refused(
    config: Config,
    path: Seq<char>,
    origin: Seq<char>,
    bytes: Seq<u8>,
)
    requires
        "/socket.io"@.is_prefix_of(path),
    ensures
        refused(config, path, Some(encode_utf8(origin))) == !config.allows(origin),
        !valid_utf8(bytes) ==> refused(config, path, Some(bytes)) == !config.allows_any(),
{
    encode_utf8_decode_utf8(origin);
    encode_utf8_valid_utf8(origin);
}

/// An origin and the same origin with slashes at its end, or in other ASCII
/// case, fare alike.
pub proof fn case_and_slashes_do_not_matter(config: Config, a: Seq<char>, b: Seq<char>)
    requires
        text::ascii_lowercase(text::without_trailing(a, '/')) == text::ascii_lowercase(
            text::without_trailing(b, '/'),
        ),
    ensures
        config.allows(a) == config.allows(b),
{
}

proof fn lemma_split_without_separator(s: Seq<char>, separator: char)
    requires
        !s.contains(separator),
    ensures
        text::split(s, separator) == seq![s],
    decreases s.len(),
{
    if s.len() > 0 {
        let front = s.drop_last();
        assert(s.contains(s.last()));
        assert forall|c: char| front.contains(c) implies s.contains(c) by {
            let i = choose|i: int| 0 <= i < front.len() && front[i] == c;
            assert(s[i] == c);
        }
        lemma_split_without_separator(front, separator);
        assert(front.push(s.last()) =~= s);
        assert(seq![front].drop_last().push(front.push(s.last())) =~= seq![s]);
    }
}

/// A list that names one origin, written plainly, holds that origin.
pub proof fn one_origin(s: Seq<char>)
    requires
        s.len() > 0,
        !s.contains(','),
        !text::white_space(s[0]),
        !text::white_space(s.last()),
        s.last() != '/',
    ensures
        config::origins_of(s) == seq![s],
{
    lemma_split_without_separator(s, ',');
    assert(seq![s].drop_last() =~= Seq::<Seq<char>>::empty());
    assert(config::nonempty_origins(Seq::<Seq<char>>::empty()) =~= Seq::empty());
    assert(config::nonempty_origins(seq![s]) =~= seq![s]);
}

/// There is no wildcard by default: with no origins set, only the one default
/// origin is let in.
pub proof fn no_wildcard_default(vars: EnvVars, config: Config)
    requires
        vars.cors_allowed_origins is None,
        config::config_matches(vars, config),
    ensures
        text::texts(config.cors_allowed_origins@) == seq!["https://space.ekza.io"@],
        !config.allows_any(),
{
    reveal_strlit("https://space.ekza.io");
    reveal_strlit("*");
    let s = "https://space.ekza.io"@;
    one_origin(s);
    assert(seq![s][0] == s);
    assert("*"@.len() != s.len());
}

} // verus!
