//! Where the layouts of the rooms lie: one JSON file per room under
//! `DATA_DIR/rooms/`.
//!
//! A file is written under a temporary name and then renamed, so that a crash
//! never leaves a truncated room behind.

use crate::text;
use vstd::prelude::*;
use vstd::string::*;

verus! {

/// The directory of the rooms.
#[derive(Debug)]
pub struct RoomStore {
    root: String,
}

/// A name below a directory.
pub open spec fn below(dir: Seq<char>, name: Seq<char>) -> Seq<char> {
    if dir.len() == 0 {
        name
    } else if dir.last() == '/' {
        dir + name
    } else {
        dir + "/"@ + name
    }
}

/// The name of a room's file.
pub open spec fn file_name(room_id: u32) -> Seq<char> {
    text::decimal(room_id as nat) + ".json"@
}

/// The name of a room's file while it is being written.
pub open spec fn temporary_name(room_id: u32) -> Seq<char> {
    text::decimal(room_id as nat) + ".json.tmp"@
}

/// The room whose file has the given name, if any has.
pub open spec fn room_in(name: Seq<char>) -> Option<u32> {
    if text::ends_with(name, ".json"@) {
        match text::number(name.take(name.len() - 5), u32::MAX as nat) {
            Some(n) => Some(n as u32),
            None => None,
        }
    } else {
        None
    }
}

/// The rooms whose files are among the given names, in the order of the names.
pub open spec fn rooms_in(names: Seq<Seq<char>>) -> Seq<u32>
    decreases names.len(),
{
    if names.len() == 0 {
        seq![]
    } else {
        match room_in(names.last()) {
            Some(id) => rooms_in(names.drop_last()).push(id),
            None => rooms_in(names.drop_last()),
        }
    }
}

/// Whether numbers do not decrease.
pub open spec fn ascending(ids: Seq<u32>) -> bool {
    forall|i: int, j: int| 0 <= i <= j < ids.len() ==> ids[i] <= ids[j]
}

fn join_path(dir: &str, name: &str) -> (r: String)
    ensures
        r@ == below(dir@, name@),
{
    let chars = text::to_chars(dir);
    if chars.len() == 0 {
        return name.to_owned();
    }
    let mut out: String = dir.to_owned();
    if chars[chars.len() - 1] != '/' {
        out.append("/");
    }
    out.append(name);
    out
}

/// Which room's file a name is.
pub fn room_of_file(name: &str) -> (r: Option<u32>)
    ensures
        r == room_in(name@),
{
    proof {
        reveal_strlit(".json");
    }
    match text::strip_suffix(name, ".json") {
        None => None,
        Some(stem) => {
            proof {
                assert(name@.subrange(name@.len() - 5, name@.len() as int) =~= ".json"@);
                assert(name@.take(name@.len() - 5) =~= stem@);
            }
            match text::parse_number(stem.as_str(), u32::MAX as u64) {
                Some(n) => Some(n as u32),
                None => None,
            }
        },
    }
}

/// Puts a number into a list that does not decrease, where it belongs.
fn insert_sorted(ids: &mut Vec<u32>, id: u32)
    requires
        ascending(old(ids)@),
    ensures
        ascending(final(ids)@),
        final(ids)@.to_multiset() == old(ids)@.to_multiset().insert(id),
{
    let mut at: usize = ids.len();
    while at > 0 && ids[at - 1] > id
        invariant
            at <= ids.len(),
            ids@ == old(ids)@,
            ascending(ids@),
            forall|k: int| at <= k < ids@.len() ==> ids@[k] > id,
        decreases at,
    {
        at = at - 1;
    }
    ids.insert(at, id);
    proof {
        broadcast use vstd::seq_lib::group_to_multiset_ensures;

        assert(ids@ == old(ids)@.insert(at as int, id));
        assert(ids@.to_multiset() =~= old(ids)@.to_multiset().insert(id));
        assert forall|i: int, j: int| 0 <= i <= j < ids@.len() implies ids@[i] <= ids@[j] by {
            if i < at && at <= j {
                assert(ids@[at - 1] <= id);
                assert(old(ids)@[i] <= old(ids)@[at - 1]);
            }
        }
    }
}

impl RoomStore {
    pub closed spec fn dir(&self) -> Seq<char> {
        self.root@
    }

    /// The rooms' directory below the data directory.
    pub fn new(data_dir: &str) -> (r: RoomStore)
        ensures
            r.dir() == below(data_dir@, "rooms"@),
    {
        RoomStore { root: join_path(data_dir, "rooms") }
    }

    pub fn root(&self) -> (r: &String)
        ensures
            r@ == self.dir(),
    {
        &self.root
    }

    /// Where a room's file lies.
    pub fn path_for(&self, room_id: u32) -> (r: String)
        ensures
            r@ == below(self.dir(), file_name(room_id)),
    {
        let id = text::write_decimal(room_id as u64);
        let name = text::join(id.as_str(), ".json");
        join_path(self.root.as_str(), name.as_str())
    }

    /// Where a room's file is written before it takes its place.
    pub fn temporary_path_for(&self, room_id: u32) -> (r: String)
        ensures
            r@ == below(self.dir(), temporary_name(room_id)),
    {
        let id = text::write_decimal(room_id as u64);
        let name = text::join(id.as_str(), ".json.tmp");
        join_path(self.root.as_str(), name.as_str())
    }

    /// The rooms whose files are in the directory, in ascending order.
    pub fn list(names: &Vec<String>) -> (r: Vec<u32>)
        ensures
            ascending(r@),
            r@.to_multiset() == rooms_in(text::texts(names@)).to_multiset(),
    {
        let mut ids: Vec<u32> = Vec::new();
        let ghost all = text::texts(names@);
        let mut i: usize = 0;
        proof {
            assert(all.take(0) =~= Seq::<Seq<char>>::empty());
        }
        while i < names.len()
            invariant
                i <= names.len(),
                all == text::texts(names@),
                ascending(ids@),
                ids@.to_multiset() == rooms_in(all.take(i as int)).to_multiset(),
            decreases names.len() - i,
        {
            proof {
                broadcast use vstd::seq_lib::group_to_multiset_ensures;

                assert(all.take(i + 1).drop_last() =~= all.take(i as int));
                assert(all.take(i + 1).last() == names@[i as int]@);
            }
            if let Some(id) = room_of_file(names[i].as_str()) {
                insert_sorted(&mut ids, id);
                proof {
                    broadcast use vstd::seq_lib::group_to_multiset_ensures;

                    assert(rooms_in(all.take(i + 1)) == rooms_in(all.take(i as int)).push(id));
                }
            }
            i = i + 1;
        }
        proof {
            assert(all.take(all.len() as int) =~= all);
        }
        ids
    }
}

/// No two rooms share a file, whatever the directory.
pub proof fn rooms_have_their_own_files(dir: Seq<char>, a: u32, b: u32)
    requires
        a != b,
    ensures
        below(dir, file_name(a)) != below(dir, file_name(b)),
{
    files_lead_back(a);
    files_lead_back(b);
    let x = below(dir, file_name(a));
    let y = below(dir, file_name(b));
    let n = if dir.len() == 0 {
        0int
    } else if dir.last() == '/' {
        dir.len() as int
    } else {
        (dir + "/"@).len() as int
    };
    assert(x.skip(n) =~= file_name(a));
    assert(y.skip(n) =~= file_name(b));
}

/// The name of a room's file leads back to the room.
pub proof fn files_lead_back(room_id: u32)
    ensures
        room_in(file_name(room_id)) == Some(room_id),
{
    reveal_strlit(".json");
    let name = file_name(room_id);
    let stem = text::decimal(room_id as nat);
    assert(name.take(name.len() - 5) =~= stem);
    assert(name.subrange(name.len() - 5, name.len() as int) =~= ".json"@);
    text::decimal_reads_back(room_id as nat, u32::MAX as nat);
}

/// A file that is still being written is never taken for a room's, and never
/// stands in the way of one.
pub proof fn unfinished_files_are_ignored(room_id: u32, other: u32)
    ensures
        room_in(temporary_name(room_id)) is None,
        temporary_name(room_id) != file_name(other),
{
    reveal_strlit(".json");
    reveal_strlit(".json.tmp");
    let name = temporary_name(room_id);
    assert(name.last() == 'p');
    if text::ends_with(name, ".json"@) {
        assert(name.subrange(name.len() - 5, name.len() as int).last() == ".json"@.last());
    }
    assert(file_name(other).last() == 'n');
}

} // verus!
