use server::chain::client::{ChainClient, NANOS_PER_SEC};
use server::chain::decode::{decode_config, decode_space};
use server::chain::lookup::{
    account_data, account_text, config_reply, holding_account, token_owner, RpcQuery, RpcReply,
    SpaceLookup,
};
use server::chain::{ChainConfig, ChainError, SpaceAccess};
use server::json::Json;
use server::pubkey::Pubkey;

fn pk(n: u8) -> Pubkey {
    Pubkey { bytes: [n; 32] }
}

fn encode_space(owner: Pubkey, editors: &[Pubkey]) -> Vec<u8> {
    let mut v = vec![0u8; 8];
    v.extend_from_slice(&7u32.to_le_bytes());
    v.extend_from_slice(&pk(9).bytes);
    v.extend_from_slice(&owner.bytes);
    for s in ["name", "ipfs://x"] {
        v.extend_from_slice(&(s.len() as u32).to_le_bytes());
        v.extend_from_slice(s.as_bytes());
    }
    v.push(1);
    v.extend_from_slice(&(editors.len() as u32).to_le_bytes());
    for e in editors {
        v.extend_from_slice(&e.bytes);
    }
    v.push(255);
    v.extend_from_slice(&[0u8; 32]);
    v
}

fn encode_config(total: u32, minted: u32) -> Vec<u8> {
    let mut v = vec![0u8; 8 + 32 * 4];
    v.extend_from_slice(&total.to_le_bytes());
    v.extend_from_slice(&minted.to_le_bytes());
    v.extend_from_slice(&[0u8; 64]);
    v
}

fn text(s: &str) -> Json {
    Json::Text(s.to_string())
}

fn object(entries: Vec<(&str, Json)>) -> Json {
    Json::Object(entries.into_iter().map(|(k, v)| (k.to_string(), v)).collect())
}

fn reply(body: Json) -> RpcReply {
    RpcReply {
        body,
        error_text: String::new(),
    }
}

fn b64(bytes: &[u8]) -> String {
    base64::Engine::encode(&base64::engine::general_purpose::STANDARD, bytes)
}

fn account(bytes: &[u8]) -> RpcReply {
    let data = Json::Array(vec![text(&b64(bytes)), text("base64")]);
    reply(object(vec![(
        "result",
        object(vec![("value", object(vec![("data", data)]))]),
    )]))
}

fn largest(accounts: Vec<(&str, &str)>) -> RpcReply {
    let list = accounts
        .into_iter()
        .map(|(address, amount)| object(vec![("address", text(address)), ("amount", text(amount))]))
        .collect();
    reply(object(vec![(
        "result",
        object(vec![("value", Json::Array(list))]),
    )]))
}

#[test]
fn decodes_space_and_applies_editor_rule() {
    let owner = pk(1);
    let editor = pk(2);
    let buyer = pk(3);
    let mut access = decode_space(&encode_space(owner, &[editor])).unwrap();
    assert_eq!(access.space_id, 7);
    assert_eq!(access.recorded_owner, owner);
    assert_eq!(access.editors, vec![editor]);

    access.holder = Some(owner);
    assert!(access.can_edit(&owner));
    assert!(access.can_edit(&editor));
    assert!(!access.can_edit(&buyer));

    // NFT sold: recorded owner lags behind. Buyer edits, seller + stale editor do not.
    access.holder = Some(buyer);
    assert!(access.can_edit(&buyer));
    assert!(!access.can_edit(&owner));
    assert!(!access.can_edit(&editor));

    access.holder = None;
    assert!(!access.can_edit(&owner));
}

#[test]
fn decodes_config_total() {
    let mut v = vec![0u8; 8 + 32 * 4];
    v.extend_from_slice(&256u32.to_le_bytes());
    v.extend_from_slice(&12u32.to_le_bytes());
    v.extend_from_slice(&[0u8; 64]);
    let c = decode_config(&v).unwrap();
    assert_eq!(c.total_spaces, 256);
    assert_eq!(c.minted_spaces, 12);
    assert!(decode_config(&v[..20]).is_err());
}

#[test]
fn config_needs_144_bytes() {
    let v = encode_config(0x0102_0304, 5);
    assert!(decode_config(&v[..143]).is_err());
    let c = decode_config(&v[..144]).unwrap();
    assert_eq!(c.total_spaces, 0x0102_0304);
    assert_eq!(c.minted_spaces, 5);
}

#[test]
fn space_fields_are_read_in_order() {
    let access = decode_space(&encode_space(pk(1), &[])).unwrap();
    assert_eq!(access.mint, pk(9));
    assert!(access.is_open);
    assert!(access.holder.is_none());
    assert!(access.editors.is_empty());
}

#[test]
fn truncated_or_odd_spaces_are_malformed() {
    let v = encode_space(pk(1), &[pk(2)]);
    // Everything up to the last editor is needed; the tail is not.
    let needed = v.len() - 33;
    for n in 0..needed {
        assert!(matches!(decode_space(&v[..n]), Err(ChainError::Malformed)));
    }
    assert!(decode_space(&v[..needed]).is_ok());

    // Not UTF-8 in the name.
    let mut bad = v.clone();
    bad[8 + 4 + 32 + 32 + 4] = 0xff;
    assert!(matches!(decode_space(&bad), Err(ChainError::Malformed)));

    // A flag of 2 is not "open".
    let mut closed = v.clone();
    let flag = 8 + 4 + 32 + 32 + (4 + 4) + (4 + 8);
    closed[flag] = 2;
    assert!(!decode_space(&closed).unwrap().is_open);

    // More than 64 editors.
    let many: Vec<Pubkey> = (0..65).map(|_| pk(4)).collect();
    assert!(matches!(
        decode_space(&encode_space(pk(1), &many)),
        Err(ChainError::Malformed)
    ));
    assert!(decode_space(&encode_space(pk(1), &many[..64])).is_ok());
}

#[test]
fn addresses_are_derived_like_the_program_does() {
    let program = Pubkey::parse("2WtuXG6AX3erRp6eK5WiSTEEBec5zprQ7qLyLENfMQEH").unwrap();
    let client = ChainClient::new("http://x".to_string(), program, 30).unwrap();
    let id = solana_pubkey::Pubkey::new_from_array(program.bytes);
    let (config, _) = solana_pubkey::Pubkey::find_program_address(&[b"config"], &id);
    assert_eq!(client.config_pda().bytes, config.to_bytes());
    let (space, _) = solana_pubkey::Pubkey::find_program_address(
        &[b"space_v1", config.as_ref(), &258u32.to_le_bytes()],
        &id,
    );
    assert_eq!(client.space_pda(258).unwrap().bytes, space.to_bytes());
    assert_ne!(client.space_pda(259), client.space_pda(258));
    assert_eq!(client.rpc_url(), "http://x");
}

fn client(ttl: u64) -> ChainClient {
    ChainClient::new("u".to_string(), pk(5), ttl).unwrap()
}

fn supply(total: u32) -> ChainConfig {
    ChainConfig {
        total_spaces: total,
        minted_spaces: 0,
    }
}

fn record(id: u32) -> SpaceAccess {
    SpaceAccess {
        space_id: id,
        mint: pk(9),
        recorded_owner: pk(1),
        holder: Some(pk(1)),
        editors: vec![],
        is_open: true,
    }
}

#[test]
fn supply_is_trusted_for_the_ttl() {
    let mut c = client(30);
    assert!(c.cached_config(0).is_none());
    let got = c.config(100, Ok(supply(8))).unwrap();
    assert_eq!(got.total_spaces, 8);
    let ttl = 30 * NANOS_PER_SEC;
    assert_eq!(c.cached_config(100 + ttl - 1).unwrap().total_spaces, 8);
    assert!(c.cached_config(100 + ttl).is_none());
    // A failed refresh serves the old value.
    let stale = c.config(100 + ttl, Err(ChainError::Malformed)).unwrap();
    assert_eq!(stale.total_spaces, 8);
    assert!(c.cached_config(100 + ttl).is_none());
}

#[test]
fn failures_without_a_known_value_pass_through() {
    let mut c = client(30);
    assert!(matches!(
        c.config(0, Err(ChainError::NotFound)),
        Err(ChainError::NotFound)
    ));
    assert!(matches!(
        c.space_access(3, 0, Err(ChainError::Rpc("x".to_string()))),
        Err(ChainError::Rpc(_))
    ));
}

#[test]
fn spaces_are_cached_one_by_one_and_forgotten_on_demand() {
    let mut c = client(30);
    assert!(c.space_access(3, 0, Ok(record(3))).is_ok());
    assert!(c.space_access(4, 0, Ok(record(4))).is_ok());
    assert_eq!(c.cached_space(3, 1).unwrap().space_id, 3);
    c.invalidate(3);
    assert!(c.cached_space(3, 1).is_none());
    assert_eq!(c.cached_space(4, 1).unwrap().space_id, 4);
    // Stale, but served on failure.
    let later = 31 * NANOS_PER_SEC;
    assert!(c.cached_space(4, later).is_none());
    assert_eq!(
        c.space_access(4, later, Err(ChainError::Malformed))
            .unwrap()
            .space_id,
        4
    );
}

#[test]
fn unminted_spaces_are_not_found_whatever_is_known() {
    let mut c = client(30);
    assert!(matches!(
        c.space_access(5, 0, Err(ChainError::NotFound)),
        Err(ChainError::NotFound)
    ));
    assert!(c.cached_space(5, 0).is_none());
    assert!(c.space_access(5, 0, Ok(record(5))).is_ok());
    let later = 31 * NANOS_PER_SEC;
    assert!(matches!(
        c.space_access(5, later, Err(ChainError::NotFound)),
        Err(ChainError::NotFound)
    ));
    assert!(c.cached_space(5, later).is_none());
    // Other failures still serve the old record.
    for failure in [
        ChainError::Transport("t".to_string()),
        ChainError::Rpc("r".to_string()),
        ChainError::Malformed,
    ] {
        assert_eq!(c.space_access(5, later, Err(failure)).unwrap().space_id, 5);
    }
}

#[test]
fn a_ttl_of_zero_trusts_nothing() {
    let mut c = client(0);
    assert!(c.config(5, Ok(supply(1))).is_ok());
    assert!(c.cached_config(5).is_none());
}

#[test]
fn account_replies_are_told_apart() {
    assert_eq!(account_data(&account(&[1, 2, 3])).unwrap(), vec![1, 2, 3]);
    assert_eq!(account_text(&account(b"hi")).unwrap(), "aGk=");

    let missing = reply(object(vec![("result", object(vec![("value", Json::Null)]))]));
    assert!(matches!(account_data(&missing), Err(ChainError::NotFound)));

    let failed = RpcReply {
        body: object(vec![("error", text("boom"))]),
        error_text: "\"boom\"".to_string(),
    };
    assert!(matches!(account_data(&failed), Err(ChainError::Rpc(t)) if t == "\"boom\""));

    assert!(matches!(
        account_data(&reply(object(vec![]))),
        Err(ChainError::Malformed)
    ));
    let not_base64 = reply(object(vec![(
        "result",
        object(vec![(
            "value",
            object(vec![("data", Json::Array(vec![text("***")]))]),
        )]),
    )]));
    assert!(matches!(
        account_data(&not_base64),
        Err(ChainError::Malformed)
    ));
}

#[test]
fn the_first_account_with_one_token_holds_the_nft() {
    let found = holding_account(&largest(vec![("a", "0"), ("b", "1"), ("c", "1")])).unwrap();
    assert_eq!(found, Some("b".to_string()));
    assert_eq!(holding_account(&largest(vec![("a", "0")])).unwrap(), None);
    // No list at all is an empty one.
    let none = reply(object(vec![("result", object(vec![]))]));
    assert_eq!(holding_account(&none).unwrap(), None);
    // One bad entry spoils the list, wherever it stands.
    let bad = reply(object(vec![(
        "result",
        object(vec![(
            "value",
            Json::Array(vec![
                object(vec![("address", text("a")), ("amount", text("1"))]),
                object(vec![("address", text("b"))]),
            ]),
        )]),
    )]));
    assert!(matches!(holding_account(&bad), Err(ChainError::Malformed)));
}

#[test]
fn token_accounts_name_their_owner_second() {
    let mut data = vec![1u8; 32];
    data.extend_from_slice(&[2u8; 32]);
    assert_eq!(token_owner(&data).unwrap(), pk(2));
    assert!(matches!(token_owner(&data[..63]), Err(ChainError::Malformed)));
}

#[test]
fn supply_is_read_from_the_reply() {
    let c = config_reply(Ok(account(&encode_config(256, 12)))).unwrap();
    assert_eq!((c.total_spaces, c.minted_spaces), (256, 12));
    assert!(matches!(
        config_reply(Ok(account(&[0; 10]))),
        Err(ChainError::Malformed)
    ));
    assert!(matches!(
        config_reply(Err(ChainError::Transport("down".to_string()))),
        Err(ChainError::Transport(_))
    ));
}

#[test]
fn a_lookup_asks_three_questions() {
    let holder_account = pk(40).to_text();
    let (state, query) =
        SpaceLookup::begin().advance(Ok(account(&encode_space(pk(1), &[pk(2)]))));
    assert_eq!(query, Some(RpcQuery::LargestAccounts(pk(9))));
    assert_eq!(query.unwrap().method(), "getTokenLargestAccounts");
    assert_eq!(query.unwrap().address(), pk(9).to_text());

    let (state, query) = state.advance(Ok(largest(vec![(&holder_account, "1")])));
    assert_eq!(query, Some(RpcQuery::Account(pk(40))));
    assert_eq!(query.unwrap().method(), "getAccountInfo");

    let mut token = vec![9u8; 32];
    token.extend_from_slice(&[1u8; 32]);
    token.extend_from_slice(&[0u8; 101]);
    let (state, query) = state.advance(Ok(account(&token)));
    assert_eq!(query, None);
    match state {
        SpaceLookup::Done(Ok(access)) => {
            assert_eq!(access.holder, Some(pk(1)));
            assert!(access.can_edit(&pk(2)));
        }
        other => panic!("{other:?}"),
    }
}

#[test]
fn a_lookup_ends_early_without_a_holder_or_on_failure() {
    let (state, _) = SpaceLookup::begin().advance(Ok(account(&encode_space(pk(1), &[]))));
    let (state, query) = state.advance(Ok(largest(vec![])));
    assert_eq!(query, None);
    assert!(matches!(state, SpaceLookup::Done(Ok(a)) if a.holder.is_none()));

    let (state, query) = SpaceLookup::begin().advance(Err(ChainError::Transport("x".to_string())));
    assert_eq!(query, None);
    assert!(matches!(
        state,
        SpaceLookup::Done(Err(ChainError::Transport(_)))
    ));

    let (state, _) = SpaceLookup::begin().advance(Ok(account(&encode_space(pk(1), &[]))));
    let (state, query) = state.advance(Ok(largest(vec![("not a key", "1")])));
    assert_eq!(query, None);
    assert!(matches!(
        state,
        SpaceLookup::Done(Err(ChainError::Malformed))
    ));
}

#[test]
fn a_missing_token_account_does_not_unmint_a_space() {
    let holder_account = pk(40).to_text();
    let missing = || Ok(reply(object(vec![("result", object(vec![("value", Json::Null)]))])));
    // The space's own account is not there.
    let (state, query) = SpaceLookup::begin().advance(missing());
    assert_eq!(query, None);
    assert!(matches!(
        state,
        SpaceLookup::Done(Err(ChainError::NotFound))
    ));
    // The token account is not there.
    let (state, _) = SpaceLookup::begin().advance(Ok(account(&encode_space(pk(1), &[]))));
    let (state, _) = state.advance(Ok(largest(vec![(&holder_account, "1")])));
    let (state, query) = state.advance(missing());
    assert_eq!(query, None);
    let mut c = client(30);
    assert!(c.space_access(5, 0, Ok(record(5))).is_ok());
    match state {
        SpaceLookup::Done(outcome) => {
            assert!(matches!(outcome, Err(ChainError::Malformed)));
            let later = 31 * NANOS_PER_SEC;
            assert_eq!(c.space_access(5, later, outcome).unwrap().space_id, 5);
        }
        other => panic!("{other:?}"),
    }
}

#[test]
fn chain_errors_in_words() {
    assert_eq!(
        ChainError::Transport("t".to_string()).message(),
        "rpc transport: t"
    );
    assert_eq!(ChainError::Rpc("r".to_string()).message(), "rpc error: r");
    assert_eq!(ChainError::NotFound.message(), "account not found");
    assert_eq!(ChainError::Malformed.message(), "account data malformed");
}
