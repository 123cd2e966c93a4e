//! Read-only Solana access: who may edit a given space right now.
//!
//! Authorization comes from the chain, not from the client:
//! - `Config.total_spaces` bounds the valid room ids.
//! - The current holder of the space's NFT may edit.
//! - `Space.editors` may edit only while `Space.owner` still equals the holder,
//!   so editors named by a seller are out as soon as the NFT is sold.

pub mod client;
pub mod decode;
pub mod lookup;

use crate::pubkey::{self, Pubkey};
use crate::text;
use vstd::prelude::*;
use vstd::string::*;

verus! {

/// The access record of one space.
#[derive(Debug)]
pub struct SpaceAccess {
    pub space_id: u32,
    pub mint: Pubkey,
    /// Last owner recorded on chain (may lag behind a transfer).
    pub recorded_owner: Pubkey,
    /// Wallet currently holding the NFT.
    pub holder: Option<Pubkey>,
    pub editors: Vec<Pubkey>,
    pub is_open: bool,
}

/// What an access record says.
pub struct AccessView {
    pub space_id: u32,
    pub mint: Pubkey,
    pub recorded_owner: Pubkey,
    pub holder: Option<Pubkey>,
    pub editors: Seq<Pubkey>,
    pub is_open: bool,
}

impl View for SpaceAccess {
    type V = AccessView;

    open spec fn view(&self) -> AccessView {
        AccessView {
            space_id: self.space_id,
            mint: self.mint,
            recorded_owner: self.recorded_owner,
            holder: self.holder,
            editors: self.editors@,
            is_open: self.is_open,
        }
    }
}

/// The supply of spaces.
#[derive(Clone, Copy, Debug)]
pub struct ChainConfig {
    pub total_spaces: u32,
    pub minted_spaces: u32,
}

#[derive(Debug)]
pub enum ChainError {
    /// The request did not get through; the transport's own words.
    Transport(String),
    /// The endpoint answered with an error; its own words.
    Rpc(String),
    NotFound,
    Malformed,
}

/// What an error says.
pub enum ErrorView {
    Transport(Seq<char>),
    Rpc(Seq<char>),
    NotFound,
    Malformed,
}

impl View for ChainError {
    type V = ErrorView;

    open spec fn view(&self) -> ErrorView {
        match self {
            ChainError::Transport(s) => ErrorView::Transport(s@),
            ChainError::Rpc(s) => ErrorView::Rpc(s@),
            ChainError::NotFound => ErrorView::NotFound,
            ChainError::Malformed => ErrorView::Malformed,
        }
    }
}

impl ChainError {
    /// The error in words.
    pub fn message(&self) -> (r: String)
        ensures
            r@ == match self@ {
                ErrorView::Transport(t) => "rpc transport: "@ + t,
                ErrorView::Rpc(t) => "rpc error: "@ + t,
                ErrorView::NotFound => "account not found"@,
                ErrorView::Malformed => "account data malformed"@,
            },
    {
        match self {
            ChainError::Transport(t) => text::join("rpc transport: ", t.as_str()),
            ChainError::Rpc(t) => text::join("rpc error: ", t.as_str()),
            ChainError::NotFound => "account not found".to_owned(),
            ChainError::Malformed => "account data malformed".to_owned(),
        }
    }
}

/// What a lookup of an access record came to.
pub open spec fn access_outcome(r: Result<SpaceAccess, ChainError>) -> Result<
    AccessView,
    ErrorView,
> {
    match r {
        Ok(a) => Ok(a@),
        Err(e) => Err(e@),
    }
}

/// What a lookup of the supply came to.
pub open spec fn config_outcome(r: Result<ChainConfig, ChainError>) -> Result<
    ChainConfig,
    ErrorView,
> {
    match r {
        Ok(c) => Ok(c),
        Err(e) => Err(e@),
    }
}

/// Whether `wallet` may edit the space: it holds the NFT, or it is an editor
/// named by an owner who still holds the NFT.
pub open spec fn may_edit(access: AccessView, wallet: Pubkey) -> bool {
    match access.holder {
        Some(holder) => holder == wallet || (access.recorded_owner == holder
            && access.editors.contains(wallet)),
        None => false,
    }
}

impl SpaceAccess {
    pub fn can_edit(&self, wallet: &Pubkey) -> (r: bool)
        ensures
            r == may_edit(self@, *wallet),
    {
        match self.holder {
            Some(holder) => holder == *wallet || (self.recorded_owner == holder
                && pubkey::contains_key(&self.editors, wallet)),
            None => false,
        }
    }

    /// The same record once more.
    pub fn duplicate(&self) -> (r: SpaceAccess)
        ensures
            r@ == self@,
    {
        let mut editors: Vec<Pubkey> = Vec::new();
        let mut i: usize = 0;
        while i < self.editors.len()
            invariant
                i <= self.editors.len(),
                editors@ == self.editors@.take(i as int),
            decreases self.editors.len() - i,
        {
            editors.push(self.editors[i]);
            i = i + 1;
        }
        proof {
            assert(self.editors@.take(self.editors@.len() as int) =~= self.editors@);
        }
        SpaceAccess {
            space_id: self.space_id,
            mint: self.mint,
            recorded_owner: self.recorded_owner,
            holder: self.holder,
            editors,
            is_open: self.is_open,
        }
    }
}

/// The holder of the NFT may always edit.
pub proof fn holder_may_edit(access: AccessView, wallet: Pubkey)
    requires
        access.holder == Some(wallet),
    ensures
        may_edit(access, wallet),
{
}

/// Once the NFT has left the recorded owner, its new holder edits and nobody
/// else does: not the seller, and not the editors that the seller had named.
pub proof fn sale_ends_old_rights(access: AccessView, buyer: Pubkey, wallet: Pubkey)
    requires
        access.holder == Some(buyer),
        access.recorded_owner != buyer,
    ensures
        may_edit(access, wallet) <==> wallet == buyer,
{
}

/// While nobody holds the NFT, nobody edits.
pub proof fn nobody_edits_without_holder(access: AccessView, wallet: Pubkey)
    requires
        access.holder is None,
    ensures
        !may_edit(access, wallet),
{
}

/// While the recorded owner holds the NFT, exactly the owner and the named
/// editors may edit.
pub proof fn editors_serve_their_owner(access: AccessView, owner: Pubkey, wallet: Pubkey)
    requires
        access.holder == Some(owner),
        access.recorded_owner == owner,
    ensures
        may_edit(access, wallet) <==> wallet == owner || access.editors.contains(wallet),
{
}

} // verus!
