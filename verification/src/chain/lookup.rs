//! Reading the chain through JSON-RPC: what to ask, and what to make of the
//! answers.

use crate::chain::{
    self, client, decode, AccessView, ChainConfig, ChainError, ErrorView, SpaceAccess,
};
use crate::json::{self, Json};
use crate::pubkey::{self, Pubkey};
use crate::text;
use vstd::prelude::*;
use vstd::string::*;

verus! {

/// The bytes that `base64`'s standard engine decodes from a text, if it is one.
pub uninterp spec fn base64_bytes(s: Seq<char>) -> Option<Seq<u8>>;

/// `base64`'s `STANDARD.decode`, known by the name [`base64_bytes`].
#[verifier::external_body]
fn base64_decode(s: &str) -> (r: Option<Vec<u8>>)
    ensures
        match r {
            Some(bytes) => base64_bytes(s@) == Some(bytes@),
            None => base64_bytes(s@) is None,
        },
{
    base64::Engine::decode(&base64::engine::general_purpose::STANDARD, s).ok()
}

/// An answer of the endpoint: the document, and how its `error` entry prints,
/// where it has one.
#[derive(Debug)]
pub struct RpcReply {
    pub body: Json,
    pub error_text: String,
}

/// What to ask of the endpoint next.
#[derive(Clone, Copy, Debug, PartialEq, Eq)]
pub enum RpcQuery {
    /// `getAccountInfo` of an account, in base64.
    Account(Pubkey),
    /// `getTokenLargestAccounts` of a mint.
    LargestAccounts(Pubkey),
}

impl RpcQuery {
    /// The method to call.
    pub fn method(&self) -> (r: &'static str)
        ensures
            r@ == match self {
                RpcQuery::Account(_) => "getAccountInfo"@,
                RpcQuery::LargestAccounts(_) => "getTokenLargestAccounts"@,
            },
    {
        match self {
            RpcQuery::Account(_) => "getAccountInfo",
            RpcQuery::LargestAccounts(_) => "getTokenLargestAccounts",
        }
    }

    /// The address to ask about, as text.
    pub fn address(&self) -> (r: String)
        ensures
            r@ == match self {
                RpcQuery::Account(key) => pubkey::pubkey_text(key.bytes@),
                RpcQuery::LargestAccounts(key) => pubkey::pubkey_text(key.bytes@),
            },
    {
        match self {
            RpcQuery::Account(key) => key.to_text(),
            RpcQuery::LargestAccounts(key) => key.to_text(),
        }
    }
}

/// The `result` of an answer, unless it is an error; `None` stands for null.
pub open spec fn rpc_outcome(reply: RpcReply) -> Result<Option<Json>, ErrorView> {
    if json::field(reply.body, "error"@) is Some {
        Err(ErrorView::Rpc(reply.error_text@))
    } else {
        Ok(json::field(reply.body, "result"@))
    }
}

/// The entry `name` of a document that may be missing.
pub open spec fn opt_field(doc: Option<Json>, name: Seq<char>) -> Option<Json> {
    match doc {
        Some(d) => json::field(d, name),
        None => None,
    }
}

/// The `result` of an answer.
pub fn rpc_result<'a>(reply: &'a RpcReply) -> (r: Result<Option<&'a Json>, ChainError>)
    ensures
        match r {
            Ok(Some(doc)) => rpc_outcome(*reply) == Ok::<Option<Json>, ErrorView>(Some(*doc)),
            Ok(None) => rpc_outcome(*reply) == Ok::<Option<Json>, ErrorView>(None),
            Err(e) => rpc_outcome(*reply) == Err::<Option<Json>, ErrorView>(e@),
        },
{
    if reply.body.get("error").is_some() {
        Err(ChainError::Rpc(reply.error_text.clone()))
    } else {
        Ok(reply.body.get("result"))
    }
}

fn field_of<'a>(doc: Option<&'a Json>, name: &str) -> (r: Option<&'a Json>)
    ensures
        match doc {
            Some(d) => match r {
                Some(v) => json::field(*d, name@) == Some(*v),
                None => json::field(*d, name@) is None,
            },
            None => r is None,
        },
{
    match doc {
        Some(d) => d.get(name),
        None => None,
    }
}

/// The base64 text of an account's data: `result.value.data[0]`. A null value
/// means that there is no such account.
pub open spec fn account_text_outcome(reply: RpcReply) -> Result<Seq<char>, ErrorView> {
    match rpc_outcome(reply) {
        Err(e) => Err(e),
        Ok(result) => match opt_field(result, "value"@) {
            None => Err(ErrorView::Malformed),
            Some(value) => if value is Null {
                Err(ErrorView::NotFound)
            } else {
                match opt_field(Some(value), "data"@) {
                    None => Err(ErrorView::Malformed),
                    Some(data) => match json::item(data, 0) {
                        None => Err(ErrorView::Malformed),
                        Some(first) => match json::text_of(first) {
                            None => Err(ErrorView::Malformed),
                            Some(t) => Ok(t),
                        },
                    },
                }
            },
        },
    }
}

/// Finds the base64 text of an account's data in an answer.
pub fn account_text(reply: &RpcReply) -> (r: Result<String, ChainError>)
    ensures
        match r {
            Ok(t) => account_text_outcome(*reply) == Ok::<Seq<char>, ErrorView>(t@),
            Err(e) => account_text_outcome(*reply) == Err::<Seq<char>, ErrorView>(e@),
        },
{
    match rpc_result(reply) {
        Err(e) => Err(e),
        Ok(result) => match field_of(result, "value") {
            None => Err(ChainError::Malformed),
            Some(value) => if value.is_null() {
                Err(ChainError::NotFound)
            } else {
                match value.get("data") {
                    None => Err(ChainError::Malformed),
                    Some(data) => match data.at(0) {
                        None => Err(ChainError::Malformed),
                        Some(first) => match first.as_text() {
                            None => Err(ChainError::Malformed),
                            Some(t) => Ok(t.clone()),
                        },
                    },
                }
            },
        },
    }
}

/// An account's data in an answer.
pub open spec fn account_outcome(reply: RpcReply) -> Result<Seq<u8>, ErrorView> {
    match account_text_outcome(reply) {
        Err(e) => Err(e),
        Ok(t) => match base64_bytes(t) {
            Some(bytes) => Ok(bytes),
            None => Err(ErrorView::Malformed),
        },
    }
}

/// Reads an account's data from an answer.
pub fn account_data(reply: &RpcReply) -> (r: Result<Vec<u8>, ChainError>)
    ensures
        match r {
            Ok(data) => account_outcome(*reply) == Ok::<Seq<u8>, ErrorView>(data@),
            Err(e) => account_outcome(*reply) == Err::<Seq<u8>, ErrorView>(e@),
        },
{
    match account_text(reply) {
        Err(e) => Err(e),
        Ok(t) => match base64_decode(t.as_str()) {
            Some(bytes) => Ok(bytes),
            None => Err(ChainError::Malformed),
        },
    }
}

// ------------------------------------------------------------------- holder

/// The address and amount of one token account: an object with both texts, or
/// a list of just the two.
pub open spec fn token_account(doc: Json) -> Option<(Seq<char>, Seq<char>)> {
    match doc {
        Json::Object(_) => match (
            json::text_field(doc, "address"@),
            json::text_field(doc, "amount"@),
        ) {
            (Some(address), Some(amount)) => Some((address, amount)),
            _ => None,
        },
        Json::Array(items) => if items@.len() == 2 {
            match (json::text_of(items@[0]), json::text_of(items@[1])) {
                (Some(address), Some(amount)) => Some((address, amount)),
                _ => None,
            }
        } else {
            None
        },
        _ => None,
    }
}

/// The address of the first token account that holds exactly one token.
pub open spec fn first_holding(items: Seq<Json>) -> Option<Seq<char>>
    decreases items.len(),
{
    if items.len() == 0 {
        None
    } else {
        match token_account(items[0]) {
            Some((address, amount)) => if amount == "1"@ {
                Some(address)
            } else {
                first_holding(items.drop_first())
            },
            None => None,
        }
    }
}

/// The token account that holds the NFT, by its address: `result.value` lists
/// the mint's token accounts, and an absent list is an empty one.
pub open spec fn holding_outcome(reply: RpcReply) -> Result<Option<Seq<char>>, ErrorView> {
    match rpc_outcome(reply) {
        Err(e) => Err(e),
        Ok(result) => match opt_field(result, "value"@) {
            None => Ok(None),
            Some(Json::Array(items)) => if forall|i: int|
                0 <= i < items@.len() ==> token_account(#[trigger] items@[i]) is Some {
                Ok(first_holding(items@))
            } else {
                Err(ErrorView::Malformed)
            },
            Some(_) => Err(ErrorView::Malformed),
        },
    }
}

fn read_token_account(doc: &Json) -> (r: Option<(&String, &String)>)
    ensures
        match r {
            Some((address, amount)) => token_account(*doc) == Some((address@, amount@)),
            None => token_account(*doc) is None,
        },
{
    match doc {
        Json::Object(_) => match (doc.text_field("address"), doc.text_field("amount")) {
            (Some(address), Some(amount)) => Some((address, amount)),
            _ => None,
        },
        Json::Array(items) => if items.len() == 2 {
            match (items[0].as_text(), items[1].as_text()) {
                (Some(address), Some(amount)) => Some((address, amount)),
                _ => None,
            }
        } else {
            None
        },
        _ => None,
    }
}

/// Finds the token account that holds the NFT.
pub fn holding_account(reply: &RpcReply) -> (r: Result<Option<String>, ChainError>)
    ensures
        match r {
            Ok(Some(t)) => holding_outcome(*reply) == Ok::<Option<Seq<char>>, ErrorView>(Some(t@)),
            Ok(None) => holding_outcome(*reply) == Ok::<Option<Seq<char>>, ErrorView>(None),
            Err(e) => holding_outcome(*reply) == Err::<Option<Seq<char>>, ErrorView>(e@),
        },
{
    match rpc_result(reply) {
        Err(e) => Err(e),
        Ok(result) => match field_of(result, "value") {
            None => Ok(None),
            Some(Json::Array(items)) => {
                let mut found: Option<String> = None;
                let mut i: usize = 0;
                proof {
                    assert(items@.skip(0) =~= items@);
                }
                while i < items.len()
                    invariant
                        i <= items.len(),
                        forall|k: int| 0 <= k < i ==> token_account(#[trigger] items@[k]) is Some,
                        match found {
                            Some(t) => first_holding(items@) == Some(t@),
                            None => first_holding(items@) == first_holding(items@.skip(i as int)),
                        },
                        holding_outcome(*reply) == if forall|i: int|
                            0 <= i < items@.len() ==> token_account(#[trigger] items@[i]) is Some {
                            Ok::<Option<Seq<char>>, ErrorView>(first_holding(items@))
                        } else {
                            Err::<Option<Seq<char>>, ErrorView>(ErrorView::Malformed)
                        },
                    decreases items.len() - i,
                {
                    proof {
                        assert(items@.skip(i as int).drop_first() =~= items@.skip(i + 1));
                    }
                    match read_token_account(&items[i]) {
                        Some((address, amount)) => if found.is_none() && text::same(
                            amount.as_str(),
                            "1",
                        ) {
                            found = Some(address.clone());
                        },
                        None => {
                            return Err(ChainError::Malformed);
                        },
                    }
                    i = i + 1;
                }
                Ok(found)
            },
            Some(_) => Err(ChainError::Malformed),
        },
    }
}

/// The owner in the data of a token account: mint (32), owner (32), ...
pub fn token_owner(data: &[u8]) -> (r: Result<Pubkey, ChainError>)
    ensures
        match r {
            Ok(owner) => data@.len() >= 64 && owner.bytes@ == decode::key_bytes(data@, 32),
            Err(e) => data@.len() < 64 && e is Malformed,
        },
{
    if data.len() < 64 {
        return Err(ChainError::Malformed);
    }
    Ok(decode::key_from(data, 32))
}

/// Reads the supply from the answer to a query for the config's account.
pub fn config_reply(reply: Result<RpcReply, ChainError>) -> (r: Result<ChainConfig, ChainError>)
    ensures
        match reply {
            Err(e) => r == Err::<ChainConfig, ChainError>(e),
            Ok(reply) => match account_outcome(reply) {
                Err(e) => chain::config_outcome(r) == Err::<ChainConfig, ErrorView>(e),
                Ok(data) => match r {
                    Ok(config) => decode::is_config(data) && config.total_spaces == decode::le32(
                        data,
                        136,
                    ) && config.minted_spaces == decode::le32(data, 140),
                    Err(e) => !decode::is_config(data) && e is Malformed,
                },
            },
        },
{
    match reply {
        Err(e) => Err(e),
        Ok(reply) => match account_data(&reply) {
            Err(e) => Err(e),
            Ok(data) => decode::decode_config(data.as_slice()),
        },
    }
}

// ------------------------------------------------------------ space lookup

/// How far a lookup of a space's access record has come.
#[derive(Debug)]
pub enum SpaceLookup {
    /// Waiting for the space's account.
    Space,
    /// Waiting for the token accounts of the space's mint.
    Mint(SpaceAccess),
    /// Waiting for the token account that holds the NFT.
    Token(SpaceAccess),
    /// Over.
    Done(Result<SpaceAccess, ChainError>),
}

/// The record with its holder filled in.
pub open spec fn held_by(access: AccessView, holder: Option<Pubkey>) -> AccessView {
    AccessView { holder, ..access }
}

impl SpaceLookup {
    /// A new lookup, whose first query is for the space's account.
    pub fn begin() -> (r: SpaceLookup)
        ensures
            r is Space,
    {
        SpaceLookup::Space
    }

    /// Takes in the answer to the last query: the next state, and the next
    /// query while there is one.
    pub fn advance(self, reply: Result<RpcReply, ChainError>) -> (r: (
        SpaceLookup,
        Option<RpcQuery>,
    ))
        ensures
            advanced(self, reply, r.0, r.1),
    {
        match self {
            SpaceLookup::Done(outcome) => (SpaceLookup::Done(outcome), None),
            SpaceLookup::Space => match reply {
                Err(e) => (SpaceLookup::Done(Err(e)), None),
                Ok(reply) => match account_data(&reply) {
                    Err(e) => (SpaceLookup::Done(Err(e)), None),
                    Ok(data) => match decode::decode_space(data.as_slice()) {
                        Err(e) => (SpaceLookup::Done(Err(e)), None),
                        Ok(access) => {
                            let mint = access.mint;
                            (SpaceLookup::Mint(access), Some(RpcQuery::LargestAccounts(mint)))
                        },
                    },
                },
            },
            SpaceLookup::Mint(access) => match reply {
                Err(e) => (SpaceLookup::Done(Err(later_failure(e))), None),
                Ok(reply) => match holding_account(&reply) {
                    Err(e) => (SpaceLookup::Done(Err(e)), None),
                    Ok(None) => {
                        let mut access = access;
                        access.holder = None;
                        (SpaceLookup::Done(Ok(access)), None)
                    },
                    Ok(Some(address)) => match Pubkey::parse(address.as_str()) {
                        None => (SpaceLookup::Done(Err(ChainError::Malformed)), None),
                        Some(account) => (
                            SpaceLookup::Token(access),
                            Some(RpcQuery::Account(account)),
                        ),
                    },
                },
            },
            SpaceLookup::Token(access) => match reply {
                Err(e) => (SpaceLookup::Done(Err(later_failure(e))), None),
                Ok(reply) => match account_data(&reply) {
                    Err(e) => (SpaceLookup::Done(Err(later_failure(e))), None),
                    Ok(data) => match token_owner(data.as_slice()) {
                        Err(e) => (SpaceLookup::Done(Err(e)), None),
                        Ok(owner) => {
                            let mut access = access;
                            access.holder = Some(owner);
                            (SpaceLookup::Done(Ok(access)), None)
                        },
                    },
                },
            },
        }
    }
}

/// A failure after the space's own account was found: whatever is missing then,
/// the space is minted.
pub open spec fn failed_later(e: ErrorView) -> ErrorView {
    match e {
        ErrorView::NotFound => ErrorView::Malformed,
        _ => e,
    }
}

fn later_failure(e: ChainError) -> (r: ChainError)
    ensures
        r@ == failed_later(e@),
{
    match e {
        ChainError::NotFound => ChainError::Malformed,
        _ => e,
    }
}

/// What the answer to the last query makes of a lookup.
pub open spec fn advanced(
    before: SpaceLookup,
    reply: Result<RpcReply, ChainError>,
    next: SpaceLookup,
    query: Option<RpcQuery>,
) -> bool {
    &&& query is None <==> next is Done
    &&& match (before, reply) {
        (SpaceLookup::Done(outcome), _) => next == SpaceLookup::Done(outcome),
        (SpaceLookup::Space, Err(e)) => ended_with(next, Err(e@)),
        (_, Err(e)) => ended_with(next, Err(failed_later(e@))),
        (SpaceLookup::Space, Ok(reply)) => after_space(reply, next, query),
        (SpaceLookup::Mint(access), Ok(reply)) => after_mint(access@, reply, next, query),
        (SpaceLookup::Token(access), Ok(reply)) => after_token(access@, reply, next),
    }
}

/// A lookup that ended, and with what.
pub open spec fn ended_with(next: SpaceLookup, outcome: Result<AccessView, ErrorView>) -> bool {
    next matches SpaceLookup::Done(r) && chain::access_outcome(r) == outcome
}

/// After the space's account: its record is decoded, and the mint's token
/// accounts are asked for.
pub open spec fn after_space(
    reply: RpcReply,
    next: SpaceLookup,
    query: Option<RpcQuery>,
) -> bool {
    match account_outcome(reply) {
        Err(e) => ended_with(next, Err(e)),
        Ok(data) => if decode::is_space(data) {
            &&& next matches SpaceLookup::Mint(access)
            &&& decode::holds_space(data, access@)
            &&& query == Some(RpcQuery::LargestAccounts(access@.mint))
        } else {
            ended_with(next, Err(ErrorView::Malformed))
        },
    }
}

/// After the mint's token accounts: without one that holds the NFT there is no
/// holder; else that account is asked for.
pub open spec fn after_mint(
    access: AccessView,
    reply: RpcReply,
    next: SpaceLookup,
    query: Option<RpcQuery>,
) -> bool {
    match holding_outcome(reply) {
        Err(e) => ended_with(next, Err(e)),
        Ok(None) => ended_with(next, Ok(held_by(access, None))),
        Ok(Some(address)) => match pubkey::pubkey_from_text(address) {
            None => ended_with(next, Err(ErrorView::Malformed)),
            Some(bytes) => {
                &&& next matches SpaceLookup::Token(kept)
                &&& kept@ == access
                &&& query matches Some(RpcQuery::Account(key))
                &&& key.bytes@ == bytes
            },
        },
    }
}

/// After the token account: its owner is the holder. That there is no such account
/// does not mean that the space is not minted.
pub open spec fn after_token(access: AccessView, reply: RpcReply, next: SpaceLookup) -> bool {
    match account_outcome(reply) {
        Err(e) => ended_with(next, Err(failed_later(e))),
        Ok(data) => if data.len() < 64 {
            ended_with(next, Err(ErrorView::Malformed))
        } else {
            &&& next matches SpaceLookup::Done(Ok(found))
            &&& found@.holder matches Some(owner)
            &&& owner.bytes@ == decode::key_bytes(data, 32)
            &&& found@ == held_by(access, Some(owner))
        },
    }
}

/// A lookup that gets through its three answers ends with the record in the
/// space's account, held by the owner of the token account that holds the NFT of
/// that very space.
pub proof fn lookups_find_the_holder(
    space: RpcReply,
    after_first: SpaceLookup,
    first_query: Option<RpcQuery>,
    tokens: RpcReply,
    after_second: SpaceLookup,
    second_query: Option<RpcQuery>,
    token: RpcReply,
    end: SpaceLookup,
)
    requires
        after_space(space, after_first, first_query),
        after_first is Mint,
        after_mint(after_first->Mint_0@, tokens, after_second, second_query),
        after_second is Token,
        after_token(after_second->Token_0@, token, end),
        end matches SpaceLookup::Done(Ok(_)),
    ensures
        end matches SpaceLookup::Done(Ok(found)) && {
            let account = account_outcome(space)->Ok_0;
            &&& first_query == Some(RpcQuery::LargestAccounts(found@.mint))
            &&& decode::holds_space(account, held_by(found@, None))
            &&& found@.holder matches Some(owner)
            &&& owner.bytes@ == decode::key_bytes(account_outcome(token)->Ok_0, 32)
        },
{
}

/// A lookup ends with `NotFound` exactly if the space's own account is what was
/// not found.
pub proof fn only_unminted_spaces_are_not_found(
    before: SpaceLookup,
    reply: Result<RpcReply, ChainError>,
    next: SpaceLookup,
    query: Option<RpcQuery>,
)
    requires
        !(before is Done),
        advanced(before, reply, next, query),
    ensures
        ended_with(next, Err(ErrorView::NotFound)) <==> before is Space && match reply {
            Ok(reply) => account_outcome(reply) == Err::<Seq<u8>, ErrorView>(ErrorView::NotFound),
            Err(e) => e is NotFound,
        },
{
}

/// Once the space's own account was found, whoever asks is given a record if one
/// is known: that of the lookup, or, where the lookup fails, the last known one.
/// While the space's account is not there, nobody is given any.
pub proof fn minted_spaces_keep_their_record(
    known: AccessView,
    before: SpaceLookup,
    reply: RpcReply,
    next: SpaceLookup,
    query: Option<RpcQuery>,
)
    requires
        advanced(before, Ok(reply), next, query),
        next is Done,
    ensures
        before is Mint || before is Token ==> match chain::access_outcome(next->Done_0) {
            Ok(found) => client::served(Some(known), Ok(found)) == Ok::<AccessView, ErrorView>(
                found,
            ),
            Err(e) => client::served(Some(known), Err(e)) == Ok::<AccessView, ErrorView>(known),
        },
        before is Space && account_outcome(reply) == Err::<Seq<u8>, ErrorView>(
            ErrorView::NotFound,
        ) ==> client::served(Some(known), chain::access_outcome(next->Done_0)) == Err::<
            AccessView,
            ErrorView,
        >(ErrorView::NotFound),
{
}

} // verus!
