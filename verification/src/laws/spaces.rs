//! What is read of the chain, and how long it is trusted.

use crate::chain::client::{self, ChainClient};
use crate::chain::decode;
use crate::chain::lookup::{self, RpcQuery, RpcReply, SpaceLookup};
use crate::chain::{ChainConfig, ChainError, SpaceAccess};
use crate::json::{self, Json};
use crate::pubkey::{self, Pubkey};
use vstd::prelude::*;
use vstd::string::*;
use vstd::utf8::*;

verus! {

/// Whether two records say the same, field by field.
pub open spec fn same_access(a: SpaceAccess, b: SpaceAccess) -> bool {
    &&& a.space_id == b.space_id
    &&& a.mint == b.mint
    &&& a.recorded_owner == b.recorded_owner
    &&& a.holder == b.holder
    &&& a.editors@ == b.editors@
    &&& a.is_open == b.is_open
}

proof fn lemma_same_access(a: SpaceAccess, b: SpaceAccess)
    ensures
        a@ == b@ <==> same_access(a, b),
{
}

/// A copy of a record is the record, field by field.
pub proof fn copies_of_records_are_the_record(access: &SpaceAccess, copy: SpaceAccess)
    requires
        call_ensures(SpaceAccess::duplicate, (access,), copy),
    ensures
        same_access(copy, *access),
{
}

// --------------------------------------------------------------------- accounts

/// The four bytes in which the program writes a number stand for it, lowest first.
pub proof fn numbers_are_written_lowest_byte_first(n: int)
    requires
        0 <= n < 0x1_0000_0000,
    ensures
        decode::le32_bytes(n).len() == 4,
        decode::le32_bytes(n)[0] + 256 * decode::le32_bytes(n)[1] + 65536 * decode::le32_bytes(
            n,
        )[2] + 16777216 * decode::le32_bytes(n)[3] == n,
{
    assert(n / 0x100 / 0x100 == n / 0x1_0000);
    assert(n / 0x1_0000 / 0x100 == n / 0x100_0000);
}

/// What the program writes into the account of a space is what is read from it:
/// discriminator, id, mint, owner, name, uri, open flag, editors, and whatever
/// follows. There is no holder in it.
pub proof fn spaces_are_read_as_written(
    data: &[u8],
    written: SpaceAccess,
    disc: Seq<u8>,
    name: Seq<char>,
    uri: Seq<char>,
    flag: u8,
    rest: Seq<u8>,
    r: Result<SpaceAccess, ChainError>,
    i: int,
)
    requires
        call_ensures(decode::decode_space, (data,), r),
        disc.len() == 8,
        written.holder is None,
        written.is_open == (flag == 1),
        written.editors@.len() <= 64,
        encode_utf8(name).len() < 0x1_0000_0000,
        encode_utf8(uri).len() < 0x1_0000_0000,
        data@ == disc + decode::le32_bytes(written.space_id as int) + written.mint.bytes@
            + written.recorded_owner.bytes@ + (decode::le32_bytes(encode_utf8(name).len() as int)
            + encode_utf8(name)) + (decode::le32_bytes(encode_utf8(uri).len() as int)
            + encode_utf8(uri)) + seq![flag] + decode::le32_bytes(
            written.editors@.len() as int,
        ) + decode::keys_bytes(written.editors@) + rest,
    ensures
        r matches Ok(read) && {
            &&& read.space_id == written.space_id
            &&& read.mint.bytes@ == written.mint.bytes@
            &&& read.recorded_owner.bytes@ == written.recorded_owner.bytes@
            &&& read.holder is None
            &&& read.is_open == (flag == 1)
            &&& read.editors@.len() == written.editors@.len()
            &&& 0 <= i < written.editors@.len() ==> read.editors@[i].bytes@
                == written.editors@[i].bytes@
        },
{
    decode::space_reads_back(disc, written@, name, uri, flag, rest);
    assert(data@ == decode::space_bytes(disc, written@, name, uri, flag, rest));
    if r is Ok && 0 <= i < written.editors@.len() {
        assert(r->Ok_0@.editors[i].bytes@ == decode::key_bytes(
            data@,
            decode::editors_at(data@) + 32 * i,
        ));
        assert(written@.editors[i].bytes@ == decode::key_bytes(
            data@,
            decode::editors_at(data@) + 32 * i,
        ));
    }
}

/// An account that names more than 64 editors, or is cut off before its last one,
/// is malformed.
pub proof fn cut_off_spaces_are_malformed(
    data: &[u8],
    written: SpaceAccess,
    disc: Seq<u8>,
    name: Seq<char>,
    uri: Seq<char>,
    flag: u8,
    whole: Seq<u8>,
    r: Result<SpaceAccess, ChainError>,
)
    requires
        call_ensures(decode::decode_space, (data,), r),
        disc.len() == 8,
        encode_utf8(name).len() < 0x1_0000_0000,
        encode_utf8(uri).len() < 0x1_0000_0000,
        written.editors@.len() < 0x1_0000_0000,
        whole == disc + decode::le32_bytes(written.space_id as int) + written.mint.bytes@
            + written.recorded_owner.bytes@ + (decode::le32_bytes(encode_utf8(name).len() as int)
            + encode_utf8(name)) + (decode::le32_bytes(encode_utf8(uri).len() as int)
            + encode_utf8(uri)) + seq![flag] + decode::le32_bytes(
            written.editors@.len() as int,
        ) + decode::keys_bytes(written.editors@),
        data@.is_prefix_of(whole),
        data@.len() < whole.len() || written.editors@.len() > 64,
    ensures
        r matches Err(e) && e is Malformed,
{
    let none = Seq::<u8>::empty();
    decode::lemma_space_offsets(disc, written@, name, uri, flag, none);
    assert(whole =~= decode::space_bytes(disc, written@, name, uri, flag, none));
    let d = data@;
    let n = encode_utf8(name).len() as int;
    let u = encode_utf8(uri).len() as int;
    assert(d =~= whole.subrange(0, d.len() as int));
    if decode::is_space(d) {
        assert(decode::le32(d, 76) == decode::le32(whole, 76));
        assert(decode::le32(d, 80 + n) == decode::le32(whole, 80 + n));
        assert(decode::le32(d, 85 + n + u) == decode::le32(whole, 85 + n + u));
    }
}

/// Keys stand one after the other, 32 bytes each.
pub proof fn keys_stand_in_a_row(keys: Seq<Pubkey>, key: Pubkey)
    ensures
        decode::keys_bytes(Seq::empty()) == Seq::<u8>::empty(),
        decode::keys_bytes(keys.push(key)) == decode::keys_bytes(keys) + key.bytes@,
{
    assert(keys.push(key).drop_last() =~= keys);
}

/// What the program writes as its supply, behind 136 bytes, is what is read.
pub proof fn supplies_are_read_as_written(
    data: &[u8],
    front: Seq<u8>,
    total: u32,
    minted: u32,
    rest: Seq<u8>,
    r: Result<ChainConfig, ChainError>,
)
    requires
        call_ensures(decode::decode_config, (data,), r),
        front.len() == 136,
        data@ == front + decode::le32_bytes(total as int) + decode::le32_bytes(minted as int)
            + rest,
    ensures
        r matches Ok(config) && config.total_spaces == total && config.minted_spaces == minted,
{
    decode::config_reads_back(front, total, minted, rest);
}

/// A supply of fewer than 144 bytes and a token account of fewer than 64 are
/// malformed.
pub proof fn short_accounts_are_malformed(
    data: &[u8],
    supply: Result<ChainConfig, ChainError>,
    owner: Result<Pubkey, ChainError>,
)
    requires
        call_ensures(decode::decode_config, (data,), supply),
        call_ensures(lookup::token_owner, (data,), owner),
    ensures
        supply is Ok <==> data@.len() >= 144,
        owner is Ok <==> data@.len() >= 64,
        supply matches Err(e) ==> e is Malformed,
        owner matches Err(e) ==> e is Malformed,
{
}

/// The owner of a token account stands behind its mint.
pub proof fn owners_stand_behind_the_mint(
    data: &[u8],
    mint: Seq<u8>,
    owner: Seq<u8>,
    rest: Seq<u8>,
    r: Result<Pubkey, ChainError>,
)
    requires
        call_ensures(lookup::token_owner, (data,), r),
        mint.len() == 32,
        owner.len() == 32,
        data@ == mint + owner + rest,
    ensures
        r matches Ok(key) && key.bytes@ == owner,
{
    assert(decode::key_bytes(data@, 32) =~= owner);
}

// ---------------------------------------------------------------------- answers

/// Whether an answer carries an account's data, as base64 text under
/// `result.value.data[0]`.
pub open spec fn carries(reply: RpcReply, text: Seq<char>) -> bool {
    &&& json::field(reply.body, "error"@) is None
    &&& json::field(reply.body, "result"@) matches Some(result)
    &&& json::field(result, "value"@) matches Some(value)
    &&& json::field(value, "data"@) matches Some(Json::Array(items))
    &&& items@.len() > 0
    &&& items@[0] matches Json::Text(t)
    &&& t@ == text
}

/// Whether an answer says that there is no such account.
pub open spec fn says_nothing_there(reply: RpcReply) -> bool {
    &&& json::field(reply.body, "error"@) is None
    &&& json::field(reply.body, "result"@) matches Some(result)
    &&& json::field(result, "value"@) matches Some(value)
    &&& value is Null
}

/// The data that an answer carries is what is read from it. An answer with an
/// error gives that error, a null account is not found, and any other answer is
/// malformed.
pub proof fn answers_are_read_as_they_are(
    reply: &RpcReply,
    text: Seq<char>,
    r: Result<Vec<u8>, ChainError>,
)
    requires
        call_ensures(lookup::account_data, (reply,), r),
    ensures
        carries(*reply, text) ==> match lookup::base64_bytes(text) {
            Some(bytes) => r matches Ok(data) && data@ == bytes,
            None => r matches Err(e) && e is Malformed,
        },
        r matches Ok(data) ==> exists|t: Seq<char>| #[trigger]
            carries(*reply, t) && lookup::base64_bytes(t) == Some(data@),
        (r matches Err(e) && e is NotFound) <==> says_nothing_there(*reply),
        json::field(reply.body, "error"@) is Some ==> (r matches Err(ChainError::Rpc(t)) && t@
            == reply.error_text@),
        r matches Err(e) ==> !(e is Transport) && (e is Rpc ==> json::field(
            reply.body,
            "error"@,
        ) is Some),
{
    if let Ok(data) = r {
        let result = json::field(reply.body, "result"@)->0;
        let value = json::field(result, "value"@)->0;
        let items = json::field(value, "data"@)->0;
        let t = json::text_of(json::item(items, 0)->0)->0;
        assert(carries(*reply, t));
    }
}

/// Whether an answer lists token accounts, by their addresses and amounts.
pub open spec fn lists_accounts(reply: RpcReply, accounts: Seq<(Seq<char>, Seq<char>)>) -> bool {
    &&& json::field(reply.body, "error"@) is None
    &&& json::field(reply.body, "result"@) matches Some(result)
    &&& json::field(result, "value"@) matches Some(Json::Array(items))
    &&& items@.len() == accounts.len()
    &&& forall|i: int|
        0 <= i < items@.len() ==> {
            &&& (#[trigger] items@[i]) is Object
            &&& json::field(items@[i], "address"@) matches Some(Json::Text(address))
            &&& address@ == accounts[i].0
            &&& json::field(items@[i], "amount"@) matches Some(Json::Text(amount))
            &&& amount@ == accounts[i].1
        }
}

proof fn lemma_holding(items: Seq<Json>, accounts: Seq<(Seq<char>, Seq<char>)>)
    requires
        items.len() == accounts.len(),
        forall|i: int|
            0 <= i < items.len() ==> lookup::token_account(#[trigger] items[i]) == Some(
                accounts[i],
            ),
    ensures
        match lookup::first_holding(items) {
            Some(address) => exists|i: int|
                0 <= i < accounts.len() && (#[trigger] accounts[i]) == (address, "1"@) && forall|j:
                    int|
                    0 <= j < i ==> (#[trigger] accounts[j]).1 != "1"@,
            None => forall|i: int|
                0 <= i < accounts.len() ==> (#[trigger] accounts[i]).1 != "1"@,
        },
    decreases items.len(),
{
    if items.len() > 0 {
        assert(lookup::token_account(items[0]) == Some(accounts[0]));
        let rest = items.drop_first();
        let others = accounts.drop_first();
        if accounts[0].1 == "1"@ {
            assert(accounts[0] == (accounts[0].0, "1"@));
        } else {
            assert forall|i: int| 0 <= i < rest.len() implies lookup::token_account(
                #[trigger] rest[i],
            ) == Some(others[i]) by {
                assert(rest[i] == items[i + 1]);
            }
            lemma_holding(rest, others);
            match lookup::first_holding(rest) {
                Some(address) => {
                    let i = choose|i: int|
                        0 <= i < others.len() && (#[trigger] others[i]) == (address, "1"@)
                            && forall|j: int| 0 <= j < i ==> (#[trigger] others[j]).1 != "1"@;
                    assert(accounts[i + 1] == others[i]);
                    assert forall|j: int| 0 <= j < i + 1 implies (#[trigger] accounts[j]).1
                        != "1"@ by {
                        if j > 0 {
                            assert(accounts[j] == others[j - 1]);
                        }
                    }
                },
                None => {
                    assert forall|i: int| 0 <= i < accounts.len() implies (
                    #[trigger] accounts[i]).1 != "1"@ by {
                        if i > 0 {
                            assert(accounts[i] == others[i - 1]);
                        }
                    }
                },
            }
        }
    }
}

/// The first listed token account with exactly one token holds the NFT; where none
/// has, nobody does.
pub proof fn one_token_is_the_nft(
    reply: &RpcReply,
    accounts: Seq<(Seq<char>, Seq<char>)>,
    r: Result<Option<String>, ChainError>,
)
    requires
        call_ensures(lookup::holding_account, (reply,), r),
        lists_accounts(*reply, accounts),
    ensures
        r matches Ok(found) && match found {
            Some(address) => exists|i: int|
                0 <= i < accounts.len() && (#[trigger] accounts[i]) == (address@, "1"@) && forall|
                    j: int,
                |
                    0 <= j < i ==> (#[trigger] accounts[j]).1 != "1"@,
            None => forall|i: int|
                0 <= i < accounts.len() ==> (#[trigger] accounts[i]).1 != "1"@,
        },
{
    let result = json::field(reply.body, "result"@)->0;
    let value = json::field(result, "value"@)->0;
    if let Json::Array(items) = value {
        assert forall|i: int| 0 <= i < items@.len() implies lookup::token_account(
            #[trigger] items@[i],
        ) == Some(accounts[i]) by {
            assert(items@[i] is Object);
        }
        lemma_holding(items@, accounts);
    }
}

/// An answer with an error gives that error; one without accounts lists none; and
/// where anything else stands in their place it is malformed.
pub proof fn odd_listings_are_refused(reply: &RpcReply, r: Result<Option<String>, ChainError>)
    requires
        call_ensures(lookup::holding_account, (reply,), r),
    ensures
        json::field(reply.body, "error"@) is Some <==> (r matches Err(e) && e is Rpc),
        r matches Err(ChainError::Rpc(t)) ==> t@ == reply.error_text@,
        json::field(reply.body, "error"@) is None && json::field(reply.body, "result"@) is None
            ==> (r matches Ok(None)),
        json::field(reply.body, "result"@) matches Some(result) ==> json::field(
            reply.body,
            "error"@,
        ) is None ==> match json::field(result, "value"@) {
            None => r matches Ok(None),
            Some(Json::Array(_)) => true,
            Some(_) => r matches Err(e) && e is Malformed,
        },
        r matches Err(e) ==> e is Rpc || e is Malformed,
{
}

/// A supply is read from the account in an answer; every failure on the way is
/// given as it came.
pub proof fn supplies_are_read_from_answers(
    reply: Result<RpcReply, ChainError>,
    data: &[u8],
    read: Result<Vec<u8>, ChainError>,
    decoded: Result<ChainConfig, ChainError>,
    r: Result<ChainConfig, ChainError>,
)
    requires
        call_ensures(lookup::config_reply, (reply,), r),
        reply matches Ok(answer) ==> call_ensures(lookup::account_data, (&answer,), read),
        call_ensures(decode::decode_config, (data,), decoded),
    ensures
        reply is Err ==> r == Err::<ChainConfig, ChainError>(reply->Err_0),
        reply is Ok && read is Err ==> (r matches Err(e) && e@ == read->Err_0@),
        reply is Ok && (read matches Ok(bytes) && bytes@ == data@) ==> (r is Ok <==> decoded is Ok)
            && (r matches Ok(config) ==> config.total_spaces == decoded->Ok_0.total_spaces
            && config.minted_spaces == decoded->Ok_0.minted_spaces) && (r matches Err(e)
            ==> e is Malformed),
{
}

// ----------------------------------------------------------------------- lookup

/// A lookup asks for the space's account, then for the accounts of the mint named
/// in it, then for the one that holds the NFT; it ends with the space's record and
/// the owner of that account as its holder, or with no holder where none holds it.
/// Whatever fails ends it; only the space's own account can be not found.
pub proof fn lookups_follow_the_nft(
    begun: SpaceLookup,
    state: SpaceLookup,
    answer: Result<RpcReply, ChainError>,
    r: (SpaceLookup, Option<RpcQuery>),
    read: Result<Vec<u8>, ChainError>,
    bytes: &[u8],
    decoded: Result<SpaceAccess, ChainError>,
    held: Result<Option<String>, ChainError>,
    owner: Result<Pubkey, ChainError>,
)
    requires
        call_ensures(SpaceLookup::begin, (), begun),
        call_ensures(SpaceLookup::advance, (state, answer), r),
        answer matches Ok(reply) ==> call_ensures(lookup::account_data, (&reply,), read),
        answer matches Ok(reply) ==> call_ensures(lookup::holding_account, (&reply,), held),
        read matches Ok(data) ==> data@ == bytes@,
        call_ensures(decode::decode_space, (bytes,), decoded),
        call_ensures(lookup::token_owner, (bytes,), owner),
    ensures
        begun is Space,
        r.1 is Some <==> !(r.0 is Done),
        state is Space && answer is Ok && read is Ok && decoded is Ok ==> {
            &&& r.0 matches SpaceLookup::Mint(access)
            &&& same_access(access, decoded->Ok_0)
            &&& r.1 == Some(RpcQuery::LargestAccounts(access.mint))
        },
        state is Space && answer is Ok && read is Ok && decoded is Err ==> (
        r.0 matches SpaceLookup::Done(Err(e)) && e is Malformed),
        state is Space && answer is Ok && read is Err ==> (r.0 matches SpaceLookup::Done(Err(e))
            && e@ == read->Err_0@),
        state is Space && answer is Err ==> (r.0 matches SpaceLookup::Done(Err(e)) && e@
            == answer->Err_0@),
        state is Mint && answer is Ok && (held matches Ok(None)) ==> (
        r.0 matches SpaceLookup::Done(Ok(access)) && same_access(
            access,
            SpaceAccess { holder: None, ..state->Mint_0 },
        )),
        state is Mint && answer is Ok && (held matches Ok(Some(_))) ==> {
            let address = held->Ok_0->0@;
            match pubkey::pubkey_from_text(address) {
                Some(key) => {
                    &&& r.0 matches SpaceLookup::Token(access)
                    &&& same_access(access, state->Mint_0)
                    &&& r.1 matches Some(RpcQuery::Account(account))
                    &&& account.bytes@ == key
                },
                None => r.0 matches SpaceLookup::Done(Err(e)) && e is Malformed,
            }
        },
        state is Mint && answer is Ok && held is Err ==> (r.0 matches SpaceLookup::Done(Err(e))
            && e@ == held->Err_0@),
        state is Token && answer is Ok && read is Ok && owner is Ok ==> (
        r.0 matches SpaceLookup::Done(Ok(access)) && access.holder is Some
            && access.holder->0.bytes@ == owner->Ok_0.bytes@ && same_access(
            access,
            SpaceAccess { holder: access.holder, ..state->Token_0 },
        )),
        state is Token && answer is Ok && read is Ok && owner is Err ==> (
        r.0 matches SpaceLookup::Done(Err(e)) && e is Malformed),
        (state is Mint || state is Token) && answer is Err ==> (
        r.0 matches SpaceLookup::Done(Err(e)) && if answer->Err_0 is NotFound {
            e is Malformed
        } else {
            e@ == answer->Err_0@
        }),
        state is Token && answer is Ok && read is Err ==> (r.0 matches SpaceLookup::Done(Err(e))
            && if read->Err_0 is NotFound {
            e is Malformed
        } else {
            e@ == read->Err_0@
        }),
        state is Done ==> r.0 == state,
{
    if let SpaceLookup::Mint(access) = state {
        lemma_same_access(access, access);
    }
    if state is Space && answer is Ok && read is Ok && decoded is Ok {
        lemma_one_space(bytes@, r.0->Mint_0, decoded->Ok_0);
    }
}

/// Two records read from the same bytes are the same.
proof fn lemma_one_space(data: Seq<u8>, a: SpaceAccess, b: SpaceAccess)
    requires
        decode::holds_space(data, a@),
        decode::holds_space(data, b@),
    ensures
        same_access(a, b),
{
    lemma_one_key(a.mint, b.mint);
    lemma_one_key(a.recorded_owner, b.recorded_owner);
    assert forall|i: int| 0 <= i < a.editors@.len() implies a.editors@[i] == b.editors@[i] by {
        assert(a@.editors[i].bytes@ == b@.editors[i].bytes@);
        lemma_one_key(a.editors@[i], b.editors@[i]);
    }
    assert(a.editors@ =~= b.editors@);
}

proof fn lemma_one_key(a: Pubkey, b: Pubkey)
    requires
        a.bytes@ == b.bytes@,
    ensures
        a == b,
{
    assert(a.bytes =~= b.bytes);
}

/// A query names the method and the address that it is about.
pub proof fn queries_name_their_account(
    key: Pubkey,
    account: &'static str,
    mint: &'static str,
    a: String,
    b: String,
)
    requires
        call_ensures(RpcQuery::method, (&RpcQuery::Account(key),), account),
        call_ensures(RpcQuery::method, (&RpcQuery::LargestAccounts(key),), mint),
        call_ensures(RpcQuery::address, (&RpcQuery::Account(key),), a),
        call_ensures(RpcQuery::address, (&RpcQuery::LargestAccounts(key),), b),
    ensures
        account@ == "getAccountInfo"@,
        mint@ == "getTokenLargestAccounts"@,
        a@ == pubkey::pubkey_text(key.bytes@),
        b@ == pubkey::pubkey_text(key.bytes@),
{
}

// ------------------------------------------------------------------------ trust

/// A client knows nothing at first, and asks at addresses derived from `config` and
/// `space_v1`, the config's address and the four bytes of the id.
pub proof fn addresses_are_derived(
    url: String,
    program: Pubkey,
    ttl_secs: u64,
    r: Option<ChainClient>,
    space_id: u32,
    pda: Option<Pubkey>,
    config_pda: Pubkey,
    now: u128,
    config: Option<ChainConfig>,
    space: Option<SpaceAccess>,
    rpc: &String,
)
    requires
        call_ensures(ChainClient::new, (url, program, ttl_secs), r),
        r is Some,
        call_ensures(ChainClient::rpc_url, (&r->0,), rpc),
        call_ensures(ChainClient::config_pda, (&r->0,), config_pda),
        call_ensures(ChainClient::space_pda, (&r->0, space_id), pda),
        call_ensures(ChainClient::cached_config, (&r->0, now), config),
        call_ensures(ChainClient::cached_space, (&r->0, space_id, now), space),
    ensures
        client::program_address(seq![seq![99u8, 111, 110, 102, 105, 103]], program.bytes@) == Some(
            config_pda.bytes@,
        ),
        client::program_address(
            seq![
                seq![115u8, 112, 97, 99, 101, 95, 118, 49],
                config_pda.bytes@,
                decode::le32_bytes(space_id as int),
            ],
            program.bytes@,
        ) == match pda {
            Some(key) => Some(key.bytes@),
            None => None,
        },
        rpc@ == url@,
        config is None,
        space is None,
{
    assert(client::config_seed() =~= seq![99u8, 111, 110, 102, 105, 103]);
    assert(client::space_seed_root() =~= seq![115u8, 112, 97, 99, 101, 95, 118, 49]);
}

/// There is a client exactly if the address of the supply can be derived.
pub proof fn clients_need_an_address(
    url: String,
    program: Pubkey,
    ttl_secs: u64,
    r: Option<ChainClient>,
)
    requires
        call_ensures(ChainClient::new, (url, program, ttl_secs), r),
    ensures
        r is None <==> client::program_address(
            seq![seq![99u8, 111, 110, 102, 105, 103]],
            program.bytes@,
        ) is None,
{
    assert(client::config_seed() =~= seq![99u8, 111, 110, 102, 105, 103]);
}

/// A record that was fetched is given, and given again without asking for as many
/// seconds as the client was made for, and then no more; other spaces and the
/// supply are as they were. Where a later fetch fails, the record is still given,
/// unless the space is not there.
pub proof fn records_are_trusted_for_their_time(
    url: String,
    program: Pubkey,
    ttl_secs: u64,
    made: Option<ChainClient>,
    c: &mut ChainClient,
    space_id: u32,
    at: u128,
    access: SpaceAccess,
    r: Result<SpaceAccess, ChainError>,
    now: u128,
    again: Option<SpaceAccess>,
    d: &mut ChainClient,
    failure: ChainError,
    later: Result<SpaceAccess, ChainError>,
    other: u32,
)
    requires
        call_ensures(ChainClient::new, (url, program, ttl_secs), made),
        made is Some,
        old(c).ttl() == made->0.ttl(),
        call_ensures(
            ChainClient::space_access,
            (c, space_id, at, Ok::<SpaceAccess, ChainError>(access)),
            r,
        ),
        call_ensures(ChainClient::cached_space, (&*final(c), space_id, now), again),
        *old(d) == *final(c),
        call_ensures(
            ChainClient::space_access,
            (d, space_id, now, Err::<SpaceAccess, ChainError>(failure)),
            later,
        ),
    ensures
        r matches Ok(given) && same_access(given, access),
        ttl_secs > 0 && now < at + ttl_secs * 1_000_000_000 ==> (again matches Some(given)
            && same_access(given, access)),
        ttl_secs == 0 || now >= at + ttl_secs * 1_000_000_000 ==> again is None,
        !(failure is NotFound) ==> (later matches Ok(given) && same_access(given, access)),
        failure is NotFound ==> (later matches Err(e) && e is NotFound),
        other != space_id ==> client::known_at(final(c).known_spaces(), other)
            == client::known_at(old(c).known_spaces(), other),
        final(c).known_config() == old(c).known_config(),
        final(d).known_spaces() == old(d).known_spaces(),
        final(c).ttl() == old(c).ttl(),
{
    if let Ok(given) = r {
        lemma_same_access(given, access);
    }
    if let Some(given) = again {
        lemma_same_access(given, access);
    }
    if let Ok(given) = later {
        lemma_same_access(given, access);
    }
}

/// Where nothing is known of a space, a failed fetch is what is given.
pub proof fn unknown_spaces_fail_as_they_do(
    c: &mut ChainClient,
    space_id: u32,
    now: u128,
    failure: ChainError,
    r: Result<SpaceAccess, ChainError>,
)
    requires
        !old(c).known_spaces().contains_key(space_id),
        call_ensures(
            ChainClient::space_access,
            (c, space_id, now, Err::<SpaceAccess, ChainError>(failure)),
            r,
        ),
    ensures
        r matches Err(e) && e@ == failure@,
        !final(c).known_spaces().contains_key(space_id),
{
}

/// A supply that was fetched is given, and given again without asking for as many
/// seconds as the client was made for, and then no more; where a later fetch fails
/// it is still given. Without any the failure is.
pub proof fn supplies_are_trusted_for_their_time(
    url: String,
    program: Pubkey,
    ttl_secs: u64,
    made: Option<ChainClient>,
    c: &mut ChainClient,
    at: u128,
    supply: ChainConfig,
    r: Result<ChainConfig, ChainError>,
    now: u128,
    again: Option<ChainConfig>,
    d: &mut ChainClient,
    failure: ChainError,
    later: Result<ChainConfig, ChainError>,
    e: &mut ChainClient,
    first: Result<ChainConfig, ChainError>,
)
    requires
        call_ensures(ChainClient::new, (url, program, ttl_secs), made),
        made is Some,
        old(c).ttl() == made->0.ttl(),
        call_ensures(ChainClient::config, (c, at, Ok::<ChainConfig, ChainError>(supply)), r),
        call_ensures(ChainClient::cached_config, (&*final(c), now), again),
        *old(d) == *final(c),
        call_ensures(ChainClient::config, (d, now, Err::<ChainConfig, ChainError>(failure)), later),
        *old(e) == made->0,
        call_ensures(ChainClient::config, (e, now, Err::<ChainConfig, ChainError>(failure)), first),
    ensures
        r == Ok::<ChainConfig, ChainError>(supply),
        ttl_secs > 0 && now < at + ttl_secs * 1_000_000_000 ==> again == Some(supply),
        ttl_secs == 0 || now >= at + ttl_secs * 1_000_000_000 ==> again is None,
        later == Ok::<ChainConfig, ChainError>(supply),
        first == Err::<ChainConfig, ChainError>(failure),
        final(c).known_spaces() == old(c).known_spaces(),
{
}

/// After a reported transfer a space is asked for anew; the others are not.
pub proof fn transfers_are_asked_for_anew(
    c: &mut ChainClient,
    space_id: u32,
    other: u32,
    now: u128,
    gone: Option<SpaceAccess>,
    kept: Option<SpaceAccess>,
    before: Option<SpaceAccess>,
)
    requires
        call_ensures(ChainClient::invalidate, (c, space_id), ()),
        other != space_id,
        call_ensures(ChainClient::cached_space, (&*old(c), other, now), before),
        call_ensures(ChainClient::cached_space, (&*final(c), space_id, now), gone),
        call_ensures(ChainClient::cached_space, (&*final(c), other, now), kept),
    ensures
        gone is None,
        kept is Some <==> before is Some,
        kept matches Some(a) ==> (before matches Some(b) && same_access(a, b)),
        final(c).known_config() == old(c).known_config(),
{
    if kept is Some && before is Some {
        lemma_same_access(kept->0, before->0);
    }
}

/// An error says in words what went wrong.
pub proof fn errors_are_put_in_words(e: &ChainError, r: String)
    requires
        call_ensures(ChainError::message, (e,), r),
    ensures
        e matches ChainError::Transport(t) ==> r@ == "rpc transport: "@ + t@,
        e matches ChainError::Rpc(t) ==> r@ == "rpc error: "@ + t@,
        e is NotFound ==> r@ == "account not found"@,
        e is Malformed ==> r@ == "account data malformed"@,
{
}

/// A key is found in a list exactly if it is there, and is read back from its text.
pub proof fn keys_are_found_and_read_back(
    keys: &Vec<Pubkey>,
    key: &Pubkey,
    found: bool,
    written: String,
    seen: &str,
    read: Option<Pubkey>,
)
    requires
        call_ensures(pubkey::contains_key, (keys, key), found),
        call_ensures(Pubkey::to_text, (key,), written),
        seen@ == written@,
        call_ensures(Pubkey::parse, (seen,), read),
    ensures
        found <==> exists|i: int| 0 <= i < keys@.len() && #[trigger] keys@[i] == *key,
        read matches Some(k) && k.bytes@ == key.bytes@,
{
}

} // verus!
