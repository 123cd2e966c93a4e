//! The accounts of the space program, as bytes.

use crate::chain::{AccessView, ChainConfig, ChainError, SpaceAccess};
use crate::pubkey::Pubkey;
use vstd::prelude::*;
use vstd::slice::*;
use vstd::string::*;
use vstd::utf8::*;

verus! {

/// How many editors a space may name.
pub const MAX_EDITORS: u32 = 64;

/// `String::from_utf8`: succeeds on valid UTF-8 alone, and then gives the text
/// with these bytes.
#[verifier::external_body]
pub(crate) fn std_from_utf8(bytes: Vec<u8>) -> (r: Option<String>)
    ensures
        r is Some <==> valid_utf8(bytes@),
        r matches Some(s) ==> encode_utf8(s@) == bytes@,
{
    String::from_utf8(bytes).ok()
}

// ------------------------------------------------------------------ layout

/// The number written in the four bytes at `at`, lowest byte first.
pub open spec fn le32(data: Seq<u8>, at: int) -> int {
    data[at] + data[at + 1] * 0x100 + data[at + 2] * 0x1_0000 + data[at + 3] * 0x100_0000
}

/// The four bytes of a number, lowest first.
pub open spec fn le32_bytes(n: int) -> Seq<u8> {
    seq![
        (n % 0x100) as u8,
        (n / 0x100 % 0x100) as u8,
        (n / 0x1_0000 % 0x100) as u8,
        (n / 0x100_0000 % 0x100) as u8,
    ]
}

/// The 32 bytes at `at`.
pub open spec fn key_bytes(data: Seq<u8>, at: int) -> Seq<u8> {
    data.subrange(at, at + 32)
}

/// Where the length of the uri stands: after the name.
pub open spec fn uri_at(data: Seq<u8>) -> int {
    80 + le32(data, 76)
}

/// Where the open flag stands: after the uri.
pub open spec fn flag_at(data: Seq<u8>) -> int {
    uri_at(data) + 4 + le32(data, uri_at(data))
}

/// Where the first editor stands: after the flag and the number of editors.
pub open spec fn editors_at(data: Seq<u8>) -> int {
    flag_at(data) + 5
}

/// How many editors there are.
pub open spec fn editor_count(data: Seq<u8>) -> int {
    le32(data, flag_at(data) + 1)
}

/// Whether the bytes hold a whole `Space` account: disc(8) space_id u32 mint
/// owner name string uri string is_open u8 editors vec<pubkey>.
pub open spec fn is_space(data: Seq<u8>) -> bool {
    &&& 80 <= data.len()
    &&& uri_at(data) <= data.len()
    &&& valid_utf8(data.subrange(80, uri_at(data)))
    &&& uri_at(data) + 4 <= data.len()
    &&& flag_at(data) <= data.len()
    &&& valid_utf8(data.subrange(uri_at(data) + 4, flag_at(data)))
    &&& editors_at(data) <= data.len()
    &&& editor_count(data) <= MAX_EDITORS
    &&& editors_at(data) + 32 * editor_count(data) <= data.len()
}

/// Whether a record is the one that the account's bytes hold, with no holder.
pub open spec fn holds_space(data: Seq<u8>, access: AccessView) -> bool {
    &&& access.space_id == le32(data, 8)
    &&& access.mint.bytes@ == key_bytes(data, 12)
    &&& access.recorded_owner.bytes@ == key_bytes(data, 44)
    &&& access.holder is None
    &&& access.is_open == (data[flag_at(data)] == 1)
    &&& access.editors.len() == editor_count(data)
    &&& forall|i: int|
        0 <= i < editor_count(data) ==> #[trigger] access.editors[i].bytes@ == key_bytes(
            data,
            editors_at(data) + 32 * i,
        )
}

/// Whether the bytes hold the front of a `Config` account: disc(8) authority
/// pending treasury collection_mint total u32 minted u32.
pub open spec fn is_config(data: Seq<u8>) -> bool {
    144 <= data.len()
}

// ------------------------------------------------------------------ reading

/// Reads bytes front to back.
pub struct Reader<'a> {
    data: &'a [u8],
    pos: usize,
}

impl<'a> Reader<'a> {
    /// The bytes being read.
    pub closed spec fn data(&self) -> Seq<u8> {
        self.data@
    }

    /// How many bytes have been read.
    pub closed spec fn pos(&self) -> int {
        self.pos as int
    }

    /// The position is inside the data or at its end.
    pub closed spec fn wf(&self) -> bool {
        self.pos <= self.data@.len()
    }

    pub fn new(data: &'a [u8]) -> (r: Reader<'a>)
        ensures
            r.wf(),
            r.data() == data@,
            r.pos() == 0,
    {
        Reader { data, pos: 0 }
    }

    /// The next `n` bytes. When there are fewer, nothing is read.
    pub fn take(&mut self, n: usize) -> (r: Result<&'a [u8], ChainError>)
        requires
            old(self).wf(),
        ensures
            final(self).wf(),
            final(self).data() == old(self).data(),
            match r {
                Ok(bytes) => old(self).pos() + n <= old(self).data().len() && bytes@ == old(self).data().subrange(old(self).pos(), old(self).pos() + n) && final(self).pos() == old(self).pos() + n,
                Err(e) => e is Malformed && old(self).pos() + n > old(self).data().len() && final(self).pos() == old(self).pos(),
            },
    {
        if n > self.data.len() - self.pos {
            return Err(ChainError::Malformed);
        }
        let end: usize = self.pos + n;
        let bytes = slice_subrange(self.data, self.pos, end);
        self.pos = end;
        Ok(bytes)
    }

    pub fn u8(&mut self) -> (r: Result<u8, ChainError>)
        requires
            old(self).wf(),
        ensures
            final(self).wf(),
            final(self).data() == old(self).data(),
            match r {
                Ok(byte) => old(self).pos() + 1 <= old(self).data().len() && byte == old(self).data()[old(self).pos()] && final(self).pos() == old(self).pos() + 1,
                Err(e) => e is Malformed && old(self).pos() + 1 > old(self).data().len() && final(self).pos() == old(self).pos(),
            },
    {
        match self.take(1) {
            Ok(bytes) => Ok(bytes[0]),
            Err(e) => Err(e),
        }
    }

    /// The next four bytes as a number, lowest byte first.
    pub fn u32(&mut self) -> (r: Result<u32, ChainError>)
        requires
            old(self).wf(),
        ensures
            final(self).wf(),
            final(self).data() == old(self).data(),
            match r {
                Ok(n) => old(self).pos() + 4 <= old(self).data().len() && n == le32(
                    old(self).data(),
                    old(self).pos(),
                ) && final(self).pos() == old(self).pos() + 4,
                Err(e) => e is Malformed && old(self).pos() + 4 > old(self).data().len() && final(self).pos() == old(self).pos(),
            },
    {
        match self.take(4) {
            Ok(b) => Ok(
                b[0] as u32 + b[1] as u32 * 0x100 + b[2] as u32 * 0x1_0000 + b[3] as u32
                    * 0x100_0000,
            ),
            Err(e) => Err(e),
        }
    }

    /// The next 32 bytes as a key.
    pub fn pubkey(&mut self) -> (r: Result<Pubkey, ChainError>)
        requires
            old(self).wf(),
        ensures
            final(self).wf(),
            final(self).data() == old(self).data(),
            match r {
                Ok(key) => old(self).pos() + 32 <= old(self).data().len() && key.bytes@
                    == key_bytes(old(self).data(), old(self).pos()) && final(self).pos() == old(self).pos() + 32,
                Err(e) => e is Malformed && old(self).pos() + 32 > old(self).data().len()
                    && final(self).pos() == old(self).pos(),
            },
    {
        match self.take(32) {
            Ok(bytes) => Ok(key_from(bytes, 0)),
            Err(e) => Err(e),
        }
    }

    /// A length, then that many bytes of UTF-8.
    pub fn string(&mut self) -> (r: Result<String, ChainError>)
        requires
            old(self).wf(),
        ensures
            final(self).wf(),
            final(self).data() == old(self).data(),
            ({
                let data = old(self).data();
                let at = old(self).pos();
                let end = at + 4 + le32(data, at);
                let whole = at + 4 <= data.len() && end <= data.len() && valid_utf8(
                    data.subrange(at + 4, end),
                );
                match r {
                    Ok(s) => whole && encode_utf8(s@) == data.subrange(at + 4, end) && final(self).pos() == end,
                    Err(e) => !whole && e is Malformed,
                }
            }),
    {
        let len: u32 = match self.u32() {
            Ok(len) => len,
            Err(e) => {
                return Err(e);
            },
        };
        match self.take(len as usize) {
            Ok(bytes) => {
                let owned = slice_to_vec(bytes);
                match std_from_utf8(owned) {
                    Some(s) => Ok(s),
                    None => Err(ChainError::Malformed),
                }
            },
            Err(e) => Err(e),
        }
    }
}

/// The key made of the 32 bytes at `at`.
pub fn key_from(data: &[u8], at: usize) -> (r: Pubkey)
    requires
        at + 32 <= data@.len(),
    ensures
        r.bytes@ == key_bytes(data@, at as int),
{
    let len: usize = data.len();
    let mut bytes: [u8; 32] = [0; 32];
    let mut i: usize = 0;
    while i < 32
        invariant
            i <= 32,
            at + 32 <= len == data@.len(),
            forall|k: int| 0 <= k < i ==> bytes@[k] == data@[at + k],
        decreases 32 - i,
    {
        bytes[i] = data[at + i];
        i = i + 1;
    }
    proof {
        assert(bytes@ =~= key_bytes(data@, at as int));
    }
    Pubkey { bytes }
}

/// Reads the supply from a `Config` account.
pub fn decode_config(data: &[u8]) -> (r: Result<ChainConfig, ChainError>)
    ensures
        match r {
            Ok(config) => is_config(data@) && config.total_spaces == le32(data@, 136)
                && config.minted_spaces == le32(data@, 140),
            Err(e) => !is_config(data@) && e is Malformed,
        },
{
    let mut r = Reader::new(data);
    r.take(8)?;
    r.take(32 * 4)?;
    let total_spaces: u32 = r.u32()?;
    let minted_spaces: u32 = r.u32()?;
    Ok(ChainConfig { total_spaces, minted_spaces })
}

/// Reads the access record from a `Space` account.
pub fn decode_space(data: &[u8]) -> (r: Result<SpaceAccess, ChainError>)
    ensures
        match r {
            Ok(access) => is_space(data@) && holds_space(data@, access@),
            Err(e) => !is_space(data@) && e is Malformed,
        },
{
    let mut r = Reader::new(data);
    r.take(8)?;
    let space_id: u32 = r.u32()?;
    let mint = r.pubkey()?;
    let recorded_owner = r.pubkey()?;
    let _name = r.string()?;
    let _uri = r.string()?;
    let is_open: bool = r.u8()? == 1;
    let n: u32 = r.u32()?;
    if n > MAX_EDITORS {
        return Err(ChainError::Malformed);
    }
    let mut editors: Vec<Pubkey> = Vec::new();
    let mut i: u32 = 0;
    while i < n
        invariant
            i <= n,
            n == editor_count(data@),
            n <= MAX_EDITORS,
            r.wf(),
            r.data() == data@,
            r.pos() == editors_at(data@) + 32 * i,
            editors.len() == i,
            forall|k: int|
                0 <= k < i ==> #[trigger] editors@[k].bytes@ == key_bytes(
                    data@,
                    editors_at(data@) + 32 * k,
                ),
        decreases n - i,
    {
        editors.push(r.pubkey()?);
        i = i + 1;
    }
    Ok(SpaceAccess { space_id, mint, recorded_owner, holder: None, editors, is_open })
}

// -------------------------------------------------------------------- laws

/// Keys one after the other.
pub open spec fn keys_bytes(keys: Seq<Pubkey>) -> Seq<u8>
    decreases keys.len(),
{
    if keys.len() == 0 {
        Seq::empty()
    } else {
        keys_bytes(keys.drop_last()) + keys.last().bytes@
    }
}

/// A text as its length in bytes and the bytes.
pub open spec fn string_bytes(s: Seq<char>) -> Seq<u8> {
    le32_bytes(encode_utf8(s).len() as int) + encode_utf8(s)
}

/// The bytes of a `Space` account up to the flag.
pub open spec fn space_head(
    disc: Seq<u8>,
    access: AccessView,
    name: Seq<char>,
    uri: Seq<char>,
) -> Seq<u8> {
    disc + le32_bytes(access.space_id as int) + access.mint.bytes@ + access.recorded_owner.bytes@
        + string_bytes(name) + string_bytes(uri)
}

/// The bytes of a `Space` account, with whatever follows the editors.
pub open spec fn space_bytes(
    disc: Seq<u8>,
    access: AccessView,
    name: Seq<char>,
    uri: Seq<char>,
    flag: u8,
    rest: Seq<u8>,
) -> Seq<u8> {
    space_head(disc, access, name, uri) + seq![flag] + le32_bytes(access.editors.len() as int)
        + keys_bytes(access.editors) + rest
}

/// The four bytes of a number read back as the number, wherever they stand.
pub proof fn lemma_le32_reads_back(data: Seq<u8>, at: int, n: int)
    requires
        0 <= n < 0x1_0000_0000,
        0 <= at,
        at + 4 <= data.len(),
        data.subrange(at, at + 4) == le32_bytes(n),
    ensures
        le32(data, at) == n,
{
    let part = data.subrange(at, at + 4);
    assert(data[at] == part[0]);
    assert(data[at + 1] == part[1]);
    assert(data[at + 2] == part[2]);
    assert(data[at + 3] == part[3]);
    assert(n / 0x100 / 0x100 == n / 0x1_0000);
    assert(n / 0x1_0000 / 0x100 == n / 0x100_0000);
}

/// The supply that the program writes into its `Config` account is the supply
/// that is read from it.
pub proof fn config_reads_back(front: Seq<u8>, total: u32, minted: u32, rest: Seq<u8>)
    requires
        front.len() == 136,
    ensures
        ({
            let data = front + le32_bytes(total as int) + le32_bytes(minted as int) + rest;
            &&& is_config(data)
            &&& le32(data, 136) == total
            &&& le32(data, 140) == minted
        }),
{
    let data = front + le32_bytes(total as int) + le32_bytes(minted as int) + rest;
    assert(data.subrange(136, 140) =~= le32_bytes(total as int));
    assert(data.subrange(140, 144) =~= le32_bytes(minted as int));
    lemma_le32_reads_back(data, 136, total as int);
    lemma_le32_reads_back(data, 140, minted as int);
}

proof fn lemma_keys_bytes(keys: Seq<Pubkey>)
    ensures
        keys_bytes(keys).len() == 32 * keys.len(),
        forall|i: int|
            0 <= i < keys.len() ==> #[trigger] keys[i].bytes@ == keys_bytes(keys).subrange(
                32 * i,
                32 * i + 32,
            ),
    decreases keys.len(),
{
    if keys.len() > 0 {
        let front = keys.drop_last();
        lemma_keys_bytes(front);
        let all = keys_bytes(keys);
        assert forall|i: int| 0 <= i < keys.len() implies #[trigger] keys[i].bytes@ == all.subrange(
            32 * i,
            32 * i + 32,
        ) by {
            if i < front.len() {
                assert(front[i].bytes@ == keys_bytes(front).subrange(32 * i, 32 * i + 32));
                assert(all.subrange(32 * i, 32 * i + 32) =~= keys_bytes(front).subrange(
                    32 * i,
                    32 * i + 32,
                ));
            } else {
                assert(all.subrange(32 * i, 32 * i + 32) =~= keys.last().bytes@);
            }
        }
    }
}

/// The program writes its accounts in this layout, and reading one gives back
/// what was written: whatever the discriminator, the name, the uri and the
/// bytes after the editors.
pub proof fn space_reads_back(
    disc: Seq<u8>,
    access: AccessView,
    name: Seq<char>,
    uri: Seq<char>,
    flag: u8,
    rest: Seq<u8>,
)
    requires
        disc.len() == 8,
        access.holder is None,
        access.is_open == (flag == 1),
        access.editors.len() <= MAX_EDITORS,
        encode_utf8(name).len() < 0x1_0000_0000,
        encode_utf8(uri).len() < 0x1_0000_0000,
    ensures
        is_space(space_bytes(disc, access, name, uri, flag, rest)),
        holds_space(space_bytes(disc, access, name, uri, flag, rest), access),
{
    lemma_space_offsets(disc, access, name, uri, flag, rest);
    encode_utf8_valid_utf8(name);
    encode_utf8_valid_utf8(uri);
    lemma_offsets_make_a_space(
        space_bytes(disc, access, name, uri, flag, rest),
        access,
        encode_utf8(name),
        encode_utf8(uri),
        encode_utf8(name).len() as int,
        encode_utf8(uri).len() as int,
    );
}

/// An account whose parts stand where they should is a space.
proof fn lemma_offsets_make_a_space(
    data: Seq<u8>,
    access: AccessView,
    name: Seq<u8>,
    uri: Seq<u8>,
    n: int,
    u: int,
)
    requires
        n == name.len(),
        u == uri.len(),
        access.holder is None,
        access.editors.len() <= MAX_EDITORS,
        valid_utf8(name),
        valid_utf8(uri),
        data.len() >= 89 + n + u + 32 * access.editors.len(),
        le32(data, 8) == access.space_id,
        key_bytes(data, 12) == access.mint.bytes@,
        key_bytes(data, 44) == access.recorded_owner.bytes@,
        le32(data, 76) == n,
        data.subrange(80, 80 + n) == name,
        le32(data, 80 + n) == u,
        data.subrange(84 + n, 84 + n + u) == uri,
        access.is_open == (data[84 + n + u] == 1),
        le32(data, 85 + n + u) == access.editors.len(),
        forall|i: int|
            0 <= i < access.editors.len() ==> #[trigger] access.editors[i].bytes@ == key_bytes(
                data,
                89 + n + u + 32 * i,
            ),
    ensures
        is_space(data),
        holds_space(data, access),
{
    assert(uri_at(data) == 80 + n);
    assert(flag_at(data) == 84 + n + u);
    assert(editors_at(data) == 89 + n + u);
}

/// Where each part of a space's account stands, however many editors there are.
#[verifier::rlimit(60)]
pub proof fn lemma_space_offsets(
    disc: Seq<u8>,
    access: AccessView,
    name: Seq<char>,
    uri: Seq<char>,
    flag: u8,
    rest: Seq<u8>,
)
    requires
        disc.len() == 8,
        access.editors.len() < 0x1_0000_0000,
        encode_utf8(name).len() < 0x1_0000_0000,
        encode_utf8(uri).len() < 0x1_0000_0000,
    ensures
        ({
            let data = space_bytes(disc, access, name, uri, flag, rest);
            let n = encode_utf8(name).len() as int;
            let u = encode_utf8(uri).len() as int;
            let k = access.editors.len() as int;
            &&& data.len() == 89 + n + u + 32 * k + rest.len()
            &&& le32(data, 8) == access.space_id
            &&& key_bytes(data, 12) == access.mint.bytes@
            &&& key_bytes(data, 44) == access.recorded_owner.bytes@
            &&& le32(data, 76) == n
            &&& data.subrange(80, 80 + n) == encode_utf8(name)
            &&& le32(data, 80 + n) == u
            &&& data.subrange(84 + n, 84 + n + u) == encode_utf8(uri)
            &&& data[84 + n + u] == flag
            &&& le32(data, 85 + n + u) == k
            &&& forall|i: int|
                0 <= i < k ==> #[trigger] access.editors[i].bytes@ == key_bytes(
                    data,
                    89 + n + u + 32 * i,
                )
        }),
{
    let data = space_bytes(disc, access, name, uri, flag, rest);
    let nb = encode_utf8(name);
    let ub = encode_utf8(uri);
    let n = nb.len() as int;
    let u = ub.len() as int;
    let k = access.editors.len() as int;
    lemma_keys_bytes(access.editors);
    let front = disc + le32_bytes(access.space_id as int) + access.mint.bytes@
        + access.recorded_owner.bytes@;
    assert(front.len() == 76);
    assert(data.subrange(8, 12) =~= le32_bytes(access.space_id as int));
    lemma_le32_reads_back(data, 8, access.space_id as int);
    assert(key_bytes(data, 12) =~= access.mint.bytes@);
    assert(key_bytes(data, 44) =~= access.recorded_owner.bytes@);
    assert(data.subrange(76, 80) =~= le32_bytes(n));
    lemma_le32_reads_back(data, 76, n);
    assert(data.subrange(80, 80 + n) =~= nb);
    assert(data.subrange(80 + n, 84 + n) =~= le32_bytes(u));
    lemma_le32_reads_back(data, 80 + n, u);
    assert(data.subrange(84 + n, 84 + n + u) =~= ub);
    assert(data[84 + n + u] == flag);
    assert(data.subrange(85 + n + u, 89 + n + u) =~= le32_bytes(k));
    lemma_le32_reads_back(data, 85 + n + u, k);
    assert forall|i: int| 0 <= i < k implies #[trigger] access.editors[i].bytes@ == key_bytes(
        data,
        89 + n + u + 32 * i,
    ) by {
        assert(access.editors[i].bytes@ == keys_bytes(access.editors).subrange(
            32 * i,
            32 * i + 32,
        ));
        assert(key_bytes(data, 89 + n + u + 32 * i) =~= keys_bytes(access.editors).subrange(
            32 * i,
            32 * i + 32,
        ));
    }
}

} // verus!
