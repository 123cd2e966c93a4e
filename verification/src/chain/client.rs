//! Which accounts to read, and how long what was read is trusted.
//!
//! Times are nanoseconds on a clock that does not go back.

use crate::chain::{self, decode, AccessView, ChainConfig, ChainError, ErrorView, SpaceAccess};
use crate::pubkey::Pubkey;
use std::collections::HashMap;
use vstd::prelude::*;
use vstd::string::*;

verus! {

pub const NANOS_PER_SEC: u128 = 1_000_000_000;

/// The address that `solana_pubkey::Pubkey::try_find_program_address` derives
/// from seeds and a program, if it finds one.
pub uninterp spec fn program_address(seeds: Seq<Seq<u8>>, program: Seq<u8>) -> Option<Seq<u8>>;

/// The bytes of each seed.
pub open spec fn seed_bytes(seeds: Seq<Vec<u8>>) -> Seq<Seq<u8>> {
    seeds.map_values(|s: Vec<u8>| s@)
}

/// `solana_pubkey::Pubkey::try_find_program_address`, known by the name
/// [`program_address`]. (`find_program_address` is the same but panics where
/// this finds nothing.)
#[verifier::external_body]
fn solana_find_address(seeds: &Vec<Vec<u8>>, program: &[u8; 32]) -> (r: Option<[u8; 32]>)
    ensures
        match r {
            Some(bytes) => program_address(seed_bytes(seeds@), program@) == Some(bytes@),
            None => program_address(seed_bytes(seeds@), program@) is None,
        },
{
    let program = solana_pubkey::Pubkey::new_from_array(*program);
    let seeds: Vec<&[u8]> = seeds.iter().map(|seed| seed.as_slice()).collect();
    solana_pubkey::Pubkey::try_find_program_address(&seeds, &program).map(|found| found.0.to_bytes())
}

/// `b"config"`.
pub open spec fn config_seed() -> Seq<u8> {
    seq![0x63, 0x6f, 0x6e, 0x66, 0x69, 0x67]
}

/// `b"space_v1"`.
pub open spec fn space_seed_root() -> Seq<u8> {
    seq![0x73, 0x70, 0x61, 0x63, 0x65, 0x5f, 0x76, 0x31]
}

/// The address of the program's `Config` account.
pub open spec fn config_address(program: Pubkey) -> Option<Seq<u8>> {
    program_address(seq![config_seed()], program.bytes@)
}

/// The address of a `Space` account: derived from the config's address and the
/// id, lowest byte first.
pub open spec fn space_address(program: Pubkey, config_pda: Pubkey, space_id: u32) -> Option<
    Seq<u8>,
> {
    program_address(
        seq![space_seed_root(), config_pda.bytes@, decode::le32_bytes(space_id as int)],
        program.bytes@,
    )
}

/// A value and when it was fetched.
pub struct Cached<T> {
    pub value: T,
    pub fetched_at: u128,
}

/// Whether something fetched at `fetched_at` is still trusted at `now`.
pub open spec fn fresh(fetched_at: u128, now: u128, ttl: u128) -> bool {
    if now >= fetched_at {
        now - fetched_at < ttl
    } else {
        ttl > 0
    }
}

/// What is still trusted at `now` of something fetched.
pub open spec fn trusted<T>(known: Option<(T, u128)>, now: u128, ttl: u128) -> Option<T> {
    match known {
        Some((value, at)) => if fresh(at, now, ttl) {
            Some(value)
        } else {
            None
        },
        None => None,
    }
}

/// What is known under a key.
pub open spec fn known_at<T>(known: Map<u32, T>, key: u32) -> Option<T> {
    if known.contains_key(key) {
        Some(known[key])
    } else {
        None
    }
}

/// What is served once a fetch of an access record came to something: the record
/// fetched; `NotFound` as it came, since the space is not minted; and after any
/// other failure the last known record, if there is one.
pub open spec fn served(
    known: Option<AccessView>,
    fetched: Result<AccessView, ErrorView>,
) -> Result<AccessView, ErrorView> {
    match (fetched, known) {
        (Err(ErrorView::NotFound), _) => fetched,
        (Err(_), Some(access)) => Ok(access),
        _ => fetched,
    }
}

fn is_fresh(fetched_at: u128, now: u128, ttl: u128) -> (r: bool)
    ensures
        r == fresh(fetched_at, now, ttl),
{
    if now >= fetched_at {
        now - fetched_at < ttl
    } else {
        ttl > 0
    }
}

/// What is known of the chain, and where to look for more.
pub struct ChainClient {
    rpc_url: String,
    program_id: Pubkey,
    config_pda: Pubkey,
    ttl: u128,
    config_cache: Option<Cached<ChainConfig>>,
    space_cache: HashMap<u32, Cached<SpaceAccess>>,
}

impl ChainClient {
    pub closed spec fn url(&self) -> Seq<char> {
        self.rpc_url@
    }

    pub closed spec fn program(&self) -> Pubkey {
        self.program_id
    }

    pub closed spec fn config_key(&self) -> Pubkey {
        self.config_pda
    }

    /// For how many nanoseconds a fetched value is trusted.
    pub closed spec fn ttl(&self) -> u128 {
        self.ttl
    }

    /// The supply last fetched, and when.
    pub closed spec fn known_config(&self) -> Option<(ChainConfig, u128)> {
        match self.config_cache {
            Some(c) => Some((c.value, c.fetched_at)),
            None => None,
        }
    }

    /// The access records last fetched, and when.
    pub closed spec fn known_spaces(&self) -> Map<u32, (AccessView, u128)> {
        self.space_cache@.map_values(|c: Cached<SpaceAccess>| (c.value@, c.fetched_at))
    }

    /// What no operation but the construction sets.
    pub open spec fn same_setup(&self, other: &ChainClient) -> bool {
        &&& self.url() == other.url()
        &&& self.program() == other.program()
        &&& self.config_key() == other.config_key()
        &&& self.ttl() == other.ttl()
    }

    /// A client that knows nothing yet. There is none when no address can be
    /// derived for the program's config.
    pub fn new(rpc_url: String, program_id: Pubkey, ttl_secs: u64) -> (r: Option<ChainClient>)
        ensures
            match r {
                Some(c) => {
                    &&& config_address(program_id) == Some(c.config_key().bytes@)
                    &&& c.url() == rpc_url@
                    &&& c.program() == program_id
                    &&& c.ttl() == ttl_secs * NANOS_PER_SEC
                    &&& c.known_config() is None
                    &&& c.known_spaces() == Map::<u32, (AccessView, u128)>::empty()
                },
                None => config_address(program_id) is None,
            },
    {
        broadcast use vstd::std_specs::hash::group_hash_axioms;

        let seed: Vec<u8> = vec![0x63, 0x6f, 0x6e, 0x66, 0x69, 0x67];
        let seeds: Vec<Vec<u8>> = vec![seed];
        proof {
            assert(seeds@[0]@ =~= config_seed());
            assert(seed_bytes(seeds@) =~= seq![config_seed()]);
        }
        match solana_find_address(&seeds, &program_id.bytes) {
            Some(bytes) => {
                let c = ChainClient {
                    rpc_url,
                    program_id,
                    config_pda: Pubkey { bytes },
                    ttl: ttl_secs as u128 * NANOS_PER_SEC,
                    config_cache: None,
                    space_cache: HashMap::new(),
                };
                proof {
                    assert(c.known_spaces() =~= Map::<u32, (AccessView, u128)>::empty());
                }
                Some(c)
            },
            None => None,
        }
    }

    pub fn rpc_url(&self) -> (r: &String)
        ensures
            r@ == self.url(),
    {
        &self.rpc_url
    }

    pub fn config_pda(&self) -> (r: Pubkey)
        ensures
            r == self.config_key(),
    {
        self.config_pda
    }

    /// The address of a space's account, unless none can be derived.
    pub fn space_pda(&self, space_id: u32) -> (r: Option<Pubkey>)
        ensures
            match r {
                Some(key) => space_address(self.program(), self.config_key(), space_id) == Some(
                    key.bytes@,
                ),
                None => space_address(self.program(), self.config_key(), space_id) is None,
            },
    {
        let root: Vec<u8> = vec![0x73, 0x70, 0x61, 0x63, 0x65, 0x5f, 0x76, 0x31];
        let config: Vec<u8> = vstd::slice::slice_to_vec(self.config_pda.bytes.as_slice());
        let id: Vec<u8> = vec![
            (space_id % 0x100) as u8,
            (space_id / 0x100 % 0x100) as u8,
            (space_id / 0x1_0000 % 0x100) as u8,
            (space_id / 0x100_0000 % 0x100) as u8,
        ];
        let seeds: Vec<Vec<u8>> = vec![root, config, id];
        proof {
            assert(seeds@[0]@ =~= space_seed_root());
            assert(seeds@[2]@ =~= decode::le32_bytes(space_id as int));
            assert(seed_bytes(seeds@) =~= seq![
                space_seed_root(),
                self.config_pda.bytes@,
                decode::le32_bytes(space_id as int),
            ]);
        }
        match solana_find_address(&seeds, &self.program_id.bytes) {
            Some(bytes) => Some(Pubkey { bytes }),
            None => None,
        }
    }

    /// The supply, if it is known and still trusted.
    pub fn cached_config(&self, now: u128) -> (r: Option<ChainConfig>)
        ensures
            r == trusted(self.known_config(), now, self.ttl()),
    {
        match &self.config_cache {
            Some(c) => if is_fresh(c.fetched_at, now, self.ttl) {
                Some(c.value)
            } else {
                None
            },
            None => None,
        }
    }

    /// Takes in what a fetch of the supply came to. A value is kept and given;
    /// after a failure the last known value is given, however old, so that a
    /// flaky endpoint does not lock everyone out of rooms.
    pub fn config(&mut self, now: u128, fetched: Result<ChainConfig, ChainError>) -> (r: Result<
        ChainConfig,
        ChainError,
    >)
        ensures
            final(self).same_setup(old(self)),
            final(self).known_spaces() == old(self).known_spaces(),
            match fetched {
                Ok(config) => r == Ok::<ChainConfig, ChainError>(config) && final(self).known_config() == Some((config, now)),
                Err(e) => final(self).known_config() == old(self).known_config() && match old(self).known_config() {
                    Some((config, _)) => r == Ok::<ChainConfig, ChainError>(config),
                    None => r == Err::<ChainConfig, ChainError>(e),
                },
            },
    {
        match fetched {
            Ok(config) => {
                self.config_cache = Some(Cached { value: config, fetched_at: now });
                Ok(config)
            },
            Err(e) => match &self.config_cache {
                Some(c) => Ok(c.value),
                None => Err(e),
            },
        }
    }

    /// The access record of a space, if it is known and still trusted.
    pub fn cached_space(&self, space_id: u32, now: u128) -> (r: Option<SpaceAccess>)
        ensures
            ({
                let hit = trusted(known_at(self.known_spaces(), space_id), now, self.ttl());
                match r {
                    Some(access) => hit == Some(access@),
                    None => hit is None,
                }
            }),
    {
        broadcast use vstd::std_specs::hash::group_hash_axioms;

        match self.space_cache.get(&space_id) {
            Some(c) => if is_fresh(c.fetched_at, now, self.ttl) {
                Some(c.value.duplicate())
            } else {
                None
            },
            None => None,
        }
    }

    /// Takes in what a fetch of an access record came to. A record is kept and
    /// given. `NotFound` is given as it came, since the space is not minted; after
    /// any other failure the last known record is given, however old.
    pub fn space_access(
        &mut self,
        space_id: u32,
        now: u128,
        fetched: Result<SpaceAccess, ChainError>,
    ) -> (r: Result<SpaceAccess, ChainError>)
        ensures
            final(self).same_setup(old(self)),
            final(self).known_config() == old(self).known_config(),
            chain::access_outcome(r) == served(
                match known_at(old(self).known_spaces(), space_id) {
                    Some((access, _)) => Some(access),
                    None => None,
                },
                chain::access_outcome(fetched),
            ),
            final(self).known_spaces() == match fetched {
                Ok(access) => old(self).known_spaces().insert(space_id, (access@, now)),
                Err(_) => old(self).known_spaces(),
            },
    {
        broadcast use vstd::std_specs::hash::group_hash_axioms;

        match fetched {
            Ok(access) => {
                let kept = access.duplicate();
                self.space_cache.insert(space_id, Cached { value: kept, fetched_at: now });
                proof {
                    assert(self.known_spaces() =~= old(self).known_spaces().insert(
                        space_id,
                        (access@, now),
                    ));
                }
                Ok(access)
            },
            Err(ChainError::NotFound) => Err(ChainError::NotFound),
            Err(e) => match self.space_cache.get(&space_id) {
                Some(c) => Ok(c.value.duplicate()),
                None => Err(e),
            },
        }
    }

    /// Forgets the record of a space, right after a reported transfer.
    pub fn invalidate(&mut self, space_id: u32)
        ensures
            final(self).same_setup(old(self)),
            final(self).known_config() == old(self).known_config(),
            final(self).known_spaces() == old(self).known_spaces().remove(space_id),
    {
        broadcast use vstd::std_specs::hash::group_hash_axioms;

        self.space_cache.remove(&space_id);
        proof {
            assert(self.known_spaces() =~= old(self).known_spaces().remove(space_id));
        }
    }
}

/// What was fetched is trusted for exactly the time to live: until then the
/// chain is not asked again, and from then on it is.
pub proof fn trust_lasts_for_the_ttl<T>(value: T, at: u128, now: u128, ttl: u128)
    requires
        at <= now,
    ensures
        trusted(Some((value, at)), now, ttl) == if now < at + ttl {
            Some(value)
        } else {
            None
        },
{
}

/// After a reported transfer nothing is trusted of that space, and what is known
/// of the others stays.
pub proof fn invalidation_forgets_one_space<T>(
    known: Map<u32, (T, u128)>,
    space_id: u32,
    other: u32,
    now: u128,
    ttl: u128,
)
    requires
        other != space_id,
    ensures
        trusted(known_at(known.remove(space_id), space_id), now, ttl) is None,
        known_at(known.remove(space_id), other) == known_at(known, other),
{
}

} // verus!
