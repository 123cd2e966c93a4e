//! What a world agent knows of the world: who is there, and what was said.

use crate::agents::chat::{self, REMEMBERED_LINES};
use crate::agents::queue;
use crate::realtime::motion::Point;
use crate::scalar::{self, Scalar};
use crate::text;
use crate::text_map::TextMap;
use std::collections::VecDeque;
use vstd::prelude::*;
use vstd::string::*;

verus! {

/// A player as the server shows it.
#[derive(Debug)]
pub struct Player {
    pub position: Vec<Scalar>,
    pub rotation: Scalar,
    pub avatar: String,
    pub nickname: String,
}

/// What is known of a player.
pub struct PlayerView {
    pub position: Seq<Scalar>,
    pub rotation: Scalar,
    pub avatar: Seq<char>,
    pub nickname: Seq<char>,
}

impl View for Player {
    type V = PlayerView;

    open spec fn view(&self) -> PlayerView {
        PlayerView {
            position: self.position@,
            rotation: self.rotation,
            avatar: self.avatar@,
            nickname: self.nickname@,
        }
    }
}

impl Player {
    /// The same player once more.
    pub fn duplicate(&self) -> (r: Player)
        ensures
            r@ == self@,
    {
        Player {
            position: vstd::slice::slice_to_vec(self.position.as_slice()),
            rotation: self.rotation,
            avatar: self.avatar.clone(),
            nickname: self.nickname.clone(),
        }
    }
}

/// The place that a list of three numbers names.
pub open spec fn place_of(v: Seq<Scalar>) -> Option<Point> {
    if v.len() == 3 {
        Some(Point { x: v[0], y: v[1], z: v[2] })
    } else {
        None
    }
}

/// Reads a place from a list of three numbers.
pub fn to_vec3(v: &Vec<Scalar>) -> (r: Option<Point>)
    ensures
        r == place_of(v@),
{
    if v.len() == 3 {
        Some(Point { x: v[0], y: v[1], z: v[2] })
    } else {
        None
    }
}

/// Something said in chat.
#[derive(Debug)]
pub struct ChatLine {
    pub from_id: String,
    pub nickname: String,
    pub message: String,
}

/// What a chat line says.
pub struct LineView {
    pub from_id: Seq<char>,
    pub nickname: Seq<char>,
    pub message: Seq<char>,
}

impl View for ChatLine {
    type V = LineView;

    open spec fn view(&self) -> LineView {
        LineView { from_id: self.from_id@, nickname: self.nickname@, message: self.message@ }
    }
}

impl ChatLine {
    /// The same line once more.
    pub fn duplicate(&self) -> (r: ChatLine)
        ensures
            r@ == self@,
    {
        ChatLine {
            from_id: self.from_id.clone(),
            nickname: self.nickname.clone(),
            message: self.message.clone(),
        }
    }
}

/// The lines of a list, by what they say.
pub open spec fn line_views(v: Seq<ChatLine>) -> Seq<LineView> {
    v.map_values(|l: ChatLine| l@)
}

/// The world as an agent has seen it so far.
pub struct World {
    players: TextMap<Player>,
    recent_chat: VecDeque<ChatLine>,
    chat_seq: u64,
}

/// What an agent knows of the world.
pub struct WorldView {
    pub players: Map<Seq<char>, PlayerView>,
    pub recent_chat: Seq<LineView>,
    pub chat_seq: u64,
}

impl View for World {
    type V = WorldView;

    closed spec fn view(&self) -> WorldView {
        WorldView {
            players: self.players@.map_values(|p: Player| p@),
            recent_chat: line_views(self.recent_chat@),
            chat_seq: self.chat_seq,
        }
    }
}

/// The players in a list of entries; a later one replaces an earlier one of the
/// same id.
pub open spec fn players_in(entries: Seq<(String, Player)>) -> Map<Seq<char>, PlayerView>
    decreases entries.len(),
{
    if entries.len() == 0 {
        Map::empty()
    } else {
        players_in(entries.drop_last()).insert(entries.last().0@, entries.last().1@)
    }
}

/// Whether a line is the agent's own: it bears its name.
pub open spec fn own_line(nickname: Seq<char>, bot_nickname: Seq<char>) -> bool {
    text::trimmed(bot_nickname).len() > 0 && text::trimmed(nickname) == text::trimmed(bot_nickname)
}

/// What is remembered of a line: nothing of the agent's own, and nothing of one
/// without words or author.
pub open spec fn remembered(line: LineView, bot_nickname: Seq<char>) -> Option<LineView> {
    let nickname = text::trimmed(line.nickname);
    let message = text::trimmed(line.message);
    if own_line(line.nickname, bot_nickname) || message.len() == 0 || nickname.len() == 0 {
        None
    } else {
        Some(LineView { from_id: line.from_id, nickname, message })
    }
}

/// The number after `n`, as far as there is one.
pub open spec fn counted(n: u64) -> u64 {
    if n == u64::MAX {
        n
    } else {
        (n + 1) as u64
    }
}

/// Whether a player bears the given name.
pub open spec fn is_called(p: PlayerView, nick: Seq<char>) -> bool {
    text::trimmed(p.nickname) == nick
}

/// Whether a player bears the given name and avatar.
pub open spec fn looks_like(p: PlayerView, nick: Seq<char>, avatar: Seq<char>) -> bool {
    is_called(p, nick) && text::trimmed(p.avatar) == avatar
}

/// Whether the player `id` is taken for the agent itself: it bears the agent's
/// name, and its avatar too where the agent has one and some player bears both.
pub open spec fn taken_for_self(
    players: Map<Seq<char>, PlayerView>,
    nickname: Seq<char>,
    avatar: Seq<char>,
    id: Seq<char>,
) -> bool {
    let nick = text::trimmed(nickname);
    let look = text::trimmed(avatar);
    &&& nick.len() > 0
    &&& players.contains_key(id)
    &&& is_called(players[id], nick)
    &&& look.len() > 0 && (exists|other: Seq<char>| #[trigger]
        players.contains_key(other) && looks_like(players[other], nick, look)) ==> looks_like(
        players[id],
        nick,
        look,
    )
}

/// Whether anyone bears the agent's name.
pub open spec fn self_seen(players: Map<Seq<char>, PlayerView>, nickname: Seq<char>) -> bool {
    text::trimmed(nickname).len() > 0 && exists|id: Seq<char>| #[trigger]
        players.contains_key(id) && is_called(players[id], text::trimmed(nickname))
}

/// Another player that can be approached.
#[derive(Debug)]
pub struct Other {
    pub id: String,
    pub at: Point,
    pub nickname: String,
}

/// Whether the player `id` is someone else: not the agent by id, nor by name as
/// long as the agent does not know its id, and with a name and a place.
pub open spec fn is_other(
    players: Map<Seq<char>, PlayerView>,
    self_id: Option<Seq<char>>,
    nickname: Seq<char>,
    id: Seq<char>,
) -> bool {
    &&& players.contains_key(id)
    &&& self_id != Some(id)
    &&& self_id is None ==> !is_called(players[id], text::trimmed(nickname))
    &&& text::trimmed(players[id].nickname).len() > 0
    &&& place_of(players[id].position) is Some
}

/// The others: each once, and nobody else.
pub open spec fn others_of(
    players: Map<Seq<char>, PlayerView>,
    self_id: Option<Seq<char>>,
    nickname: Seq<char>,
    found: Seq<Other>,
) -> bool {
    &&& forall|k: int|
        0 <= k < found.len() ==> is_other(players, self_id, nickname, (#[trigger] found[k]).id@)
            && place_of(players[found[k].id@].position) == Some(found[k].at) && found[k].nickname@
            == text::trimmed(players[found[k].id@].nickname)
    &&& forall|id: Seq<char>| #[trigger]
        is_other(players, self_id, nickname, id) ==> exists|k: int|
            0 <= k < found.len() && (#[trigger] found[k]).id@ == id
    &&& forall|k: int, l: int|
        0 <= k < l < found.len() ==> (#[trigger] found[k]).id@ != (#[trigger] found[l]).id@
}

/// The first of the smallest distances: the one that no later distance is below,
/// taken from left to right.
pub open spec fn nearest_index(dists: Seq<Scalar>) -> Option<int>
    decreases dists.len(),
{
    if dists.len() == 0 {
        None
    } else {
        match nearest_index(dists.drop_last()) {
            None => Some(0),
            Some(best) => if scalar::below(dists.last(), dists[best]) {
                Some(dists.len() - 1)
            } else {
                Some(best)
            },
        }
    }
}

/// Finds the nearest of some distances.
pub fn nearest(dists: &Vec<Scalar>) -> (r: Option<usize>)
    ensures
        match r {
            Some(i) => i < dists.len() && nearest_index(dists@) == Some(i as int),
            None => dists.len() == 0,
        },
{
    let mut best: Option<usize> = None;
    let mut i: usize = 0;
    proof {
        assert(dists@.take(0) =~= Seq::<Scalar>::empty());
    }
    while i < dists.len()
        invariant
            i <= dists.len(),
            match best {
                Some(b) => b < i && nearest_index(dists@.take(i as int)) == Some(b as int),
                None => i == 0,
            },
        decreases dists.len() - i,
    {
        proof {
            assert(dists@.take(i + 1).drop_last() =~= dists@.take(i as int));
        }
        match best {
            None => {
                proof {
                    assert(dists@.take(0) =~= Seq::<Scalar>::empty());
                }
                best = Some(0);
            },
            Some(b) => if dists[i].below(dists[b]) {
                best = Some(i);
            },
        }
        i = i + 1;
    }
    proof {
        assert(dists@.take(dists@.len() as int) =~= dists@);
    }
    best
}

impl World {
    pub closed spec fn wf(&self) -> bool {
        self.players.wf()
    }

    /// A world of which nothing has been seen.
    pub fn new() -> (r: World)
        ensures
            r.wf(),
            r@.players == Map::<Seq<char>, PlayerView>::empty(),
            r@.recent_chat == Seq::<LineView>::empty(),
            r@.chat_seq == 0,
    {
        let r = World { players: TextMap::new(), recent_chat: VecDeque::new(), chat_seq: 0 };
        proof {
            assert(r@.players =~= Map::<Seq<char>, PlayerView>::empty());
            assert(r@.recent_chat =~= Seq::<LineView>::empty());
        }
        r
    }

    /// The same world once more.
    pub fn duplicate(&self) -> (r: World)
        requires
            self.wf(),
        ensures
            r.wf(),
            r@ == self@,
    {
        let mut players: TextMap<Player> = TextMap::new();
        let n: usize = self.players.len();
        let mut i: usize = 0;
        proof {
            self.players.lemma_entries();
        }
        while i < n
            invariant
                i <= n == self.players.count(),
                self.players.wf(),
                players.wf(),
                forall|k: int|
                    0 <= k < i ==> players@.contains_key(#[trigger] self.players.key(k))
                        && players@[self.players.key(k)]@ == self.players.value(k)@,
                forall|key: Seq<char>| #[trigger]
                    players@.contains_key(key) ==> exists|k: int|
                        0 <= k < i && #[trigger] self.players.key(k) == key,
                forall|k: int, l: int|
                    0 <= k < l < n ==> #[trigger] self.players.key(k) != #[trigger] self.players.key(
                        l,
                    ),
            decreases n - i,
        {
            let ghost before = players@;
            let key = self.players.key_at(i).clone();
            let player = self.players.value_at(i).duplicate();
            players.insert(key, player);
            proof {
                assert forall|k: int| 0 <= k < i + 1 implies players@.contains_key(
                    #[trigger] self.players.key(k),
                ) && players@[self.players.key(k)]@ == self.players.value(k)@ by {
                    if k < i {
                        assert(self.players.key(k) != self.players.key(i as int));
                    }
                }
                assert forall|key: Seq<char>| #[trigger]
                    players@.contains_key(key) implies exists|k: int|
                    0 <= k < i + 1 && #[trigger] self.players.key(k) == key by {
                    if !before.contains_key(key) {
                        assert(self.players.key(i as int) == key);
                    }
                }
            }
            i = i + 1;
        }
        let mut recent_chat: VecDeque<ChatLine> = VecDeque::new();
        let ghost all = self@.recent_chat;
        let mut j: usize = 0;
        proof {
            assert(line_views(recent_chat@) =~= all.take(0));
        }
        while j < self.recent_chat.len()
            invariant
                j <= self.recent_chat.len(),
                all == line_views(self.recent_chat@),
                line_views(recent_chat@) == all.take(j as int),
            decreases self.recent_chat.len() - j,
        {
            let ghost before = recent_chat@;
            let line = self.recent_chat[j].duplicate();
            recent_chat.push_back(line);
            proof {
                assert(line_views(recent_chat@) =~= line_views(before).push(line@));
                assert(all.take(j + 1) =~= all.take(j as int).push(all[j as int]));
            }
            j = j + 1;
        }
        let r = World { players, recent_chat, chat_seq: self.chat_seq };
        proof {
            assert(all.take(all.len() as int) =~= all);
            self.players.lemma_entries();
            assert(r@.players =~= self@.players);
        }
        r
    }

    /// Takes in a full list of the players in place of what was known of them.
    pub fn existing_clients(&mut self, players: Vec<(String, Player)>)
        requires
            old(self).wf(),
        ensures
            final(self).wf(),
            final(self)@ == (WorldView { players: players_in(players@), ..old(self)@ }),
    {
        let mut map: TextMap<Player> = TextMap::new();
        let ghost all = players@;
        let mut rest = players;
        let mut i: usize = 0;
        let n: usize = rest.len();
        proof {
            assert(map@.map_values(|p: Player| p@) =~= players_in(all.take(0)));
            assert(all.skip(0) =~= all);
        }
        while i < n
            invariant
                i <= n == all.len(),
                rest@ == all.skip(i as int),
                map.wf(),
                map@.map_values(|p: Player| p@) == players_in(all.take(i as int)),
            decreases n - i,
        {
            let (id, player) = rest.remove(0);
            let ghost before = map@;
            proof {
                assert(rest@ =~= all.skip(i + 1));
                assert(all.take(i + 1).drop_last() =~= all.take(i as int));
                assert(all.take(i + 1).last() == all[i as int]);
            }
            map.insert(id, player);
            proof {
                assert(map@.map_values(|p: Player| p@) =~= before.map_values(
                    |p: Player| p@,
                ).insert(id@, player@));
            }
            i = i + 1;
        }
        proof {
            assert(all.take(n as int) =~= all);
        }
        self.players = map;
    }

    /// Takes in the news of a player. The result is whether it bears the agent's
    /// own name.
    pub fn new_user(&mut self, id: String, player: Player, bot_nickname: &str) -> (r: bool)
        requires
            old(self).wf(),
        ensures
            final(self).wf(),
            final(self)@ == (WorldView {
                players: old(self)@.players.insert(id@, player@),
                ..old(self)@
            }),
            r == own_name(player.nickname@, bot_nickname@),
    {
        let own = text::trim(bot_nickname);
        let theirs = text::trim(player.nickname.as_str());
        let folded_theirs = chat::norm(theirs.as_str());
        let folded_own = chat::norm(own.as_str());
        let r = chat::is_same_name(own.as_str(), folded_own.as_str(), folded_theirs.as_str());
        let ghost view = player@;
        self.players.insert(id, player);
        proof {
            assert(self@.players =~= old(self)@.players.insert(id@, view));
        }
        r
    }

    /// Takes in that a player is gone; an empty id is nobody's.
    pub fn delete(&mut self, id: &str)
        requires
            old(self).wf(),
        ensures
            final(self).wf(),
            final(self)@ == (WorldView {
                players: if id@.len() == 0 {
                    old(self)@.players
                } else {
                    old(self)@.players.remove(id@)
                },
                ..old(self)@
            }),
    {
        if !id.is_empty() {
            let _ = self.players.remove(id);
            proof {
                assert(self@.players =~= old(self)@.players.remove(id@));
            }
        }
    }

    /// Takes in a move of a player.
    pub fn moved(&mut self, id: String, player: Player)
        requires
            old(self).wf(),
        ensures
            final(self).wf(),
            final(self)@ == (WorldView {
                players: old(self)@.players.insert(id@, player@),
                ..old(self)@
            }),
    {
        let ghost view = player@;
        self.players.insert(id, player);
        proof {
            assert(self@.players =~= old(self)@.players.insert(id@, view));
        }
    }

    /// Takes in something said in chat; the last 20 lines are remembered.
    pub fn heard(&mut self, line: ChatLine, bot_nickname: &str)
        requires
            old(self).wf(),
        ensures
            final(self).wf(),
            final(self)@ == match remembered(line@, bot_nickname@) {
                Some(kept) => WorldView {
                    recent_chat: queue::newest(
                        old(self)@.recent_chat.push(kept),
                        REMEMBERED_LINES as nat,
                    ),
                    chat_seq: counted(old(self)@.chat_seq),
                    ..old(self)@
                },
                None => old(self)@,
            },
    {
        let own = text::trim(bot_nickname);
        let nickname = text::trim(line.nickname.as_str());
        let message = text::trim(line.message.as_str());
        if !own.as_str().is_empty() && text::same(nickname.as_str(), own.as_str()) {
            return;
        }
        if message.as_str().is_empty() || nickname.as_str().is_empty() {
            return;
        }
        let kept = ChatLine { from_id: line.from_id, nickname, message };
        let ghost before = self.recent_chat@;
        queue::push_bounded(&mut self.recent_chat, kept, REMEMBERED_LINES);
        self.chat_seq = self.chat_seq.saturating_add(1);
        proof {
            assert(line_views(before.push(kept)) =~= line_views(before).push(kept@));
            assert(self@.recent_chat =~= queue::newest(
                old(self)@.recent_chat.push(kept@),
                REMEMBERED_LINES as nat,
            ));
        }
    }

    /// How many lines have been heard.
    pub fn chat_seq(&self) -> (r: u64)
        ensures
            r == self@.chat_seq,
    {
        self.chat_seq
    }

    /// The last line heard.
    pub fn last_line(&self) -> (r: Option<ChatLine>)
        ensures
            match r {
                Some(line) => self@.recent_chat.len() > 0 && line@ == self@.recent_chat.last(),
                None => self@.recent_chat.len() == 0,
            },
    {
        let n: usize = self.recent_chat.len();
        if n == 0 {
            None
        } else {
            Some(self.recent_chat[n - 1].duplicate())
        }
    }

    /// The lines remembered, as they are shown to the language model.
    pub fn chat_text(&self) -> (r: String)
        ensures
            r@ == chat::stacked(
                self@.recent_chat.map_values(|l: LineView| chat::quoted(l.nickname, l.message)),
            ),
    {
        let mut lines: Vec<String> = Vec::new();
        let ghost all = self@.recent_chat.map_values(
            |l: LineView| chat::quoted(l.nickname, l.message),
        );
        let mut i: usize = 0;
        while i < self.recent_chat.len()
            invariant
                i <= self.recent_chat.len(),
                all == self@.recent_chat.map_values(
                    |l: LineView| chat::quoted(l.nickname, l.message),
                ),
                text::texts(lines@) == all.take(i as int),
            decreases self.recent_chat.len() - i,
        {
            let ghost before = lines@;
            let line = chat::quote(
                self.recent_chat[i].nickname.as_str(),
                self.recent_chat[i].message.as_str(),
            );
            lines.push(line);
            proof {
                assert(text::texts(lines@) =~= text::texts(before).push(line@));
                assert(all.take(i + 1) =~= all.take(i as int).push(all[i as int]));
            }
            i = i + 1;
        }
        proof {
            assert(all.take(all.len() as int) =~= all);
        }
        chat::stack(&lines)
    }

    /// The index of some player of the given name and, if one is given, avatar.
    fn find(&self, nick: &str, avatar: Option<&str>) -> (r: Option<usize>)
        requires
            self.wf(),
        ensures
            match r {
                Some(i) => {
                    &&& i < self.players.count()
                    &&& self@.players.contains_key(self.players.key(i as int))
                    &&& self@.players[self.players.key(i as int)] == self.players.value(i as int)@
                    &&& is_called(self.players.value(i as int)@, nick@)
                    &&& avatar matches Some(a) ==> looks_like(
                        self.players.value(i as int)@,
                        nick@,
                        a@,
                    )
                },
                None => forall|id: Seq<char>| #[trigger]
                    self@.players.contains_key(id) ==> !(is_called(self@.players[id], nick@) && (
                    avatar matches Some(a) ==> looks_like(self@.players[id], nick@, a@))),
            },
    {
        let n: usize = self.players.len();
        let mut i: usize = 0;
        while i < n
            invariant
                self.wf(),
                i <= n == self.players.count(),
                forall|j: int|
                    0 <= j < i ==> !(is_called((#[trigger] self.players.value(j))@, nick@) && (
                    avatar matches Some(a) ==> looks_like(self.players.value(j)@, nick@, a@))),
            decreases n - i,
        {
            let player = self.players.value_at(i);
            let theirs = text::trim(player.nickname.as_str());
            if text::same(theirs.as_str(), nick) {
                let fits: bool = match avatar {
                    Some(a) => {
                        let look = text::trim(player.avatar.as_str());
                        text::same(look.as_str(), a)
                    },
                    None => true,
                };
                if fits {
                    proof {
                        self.players.lemma_entries();
                        assert(self.players@.contains_key(self.players.key(i as int)));
                    }
                    return Some(i);
                }
            }
            i = i + 1;
        }
        proof {
            self.players.lemma_entries();
            assert forall|id: Seq<char>| #[trigger] self@.players.contains_key(id) implies !(
            is_called(self@.players[id], nick@) && (avatar matches Some(a) ==> looks_like(
                self@.players[id],
                nick@,
                a@,
            ))) by {
                assert(self.players@.contains_key(id));
                let j = choose|j: int|
                    0 <= j < self.players.count() && #[trigger] self.players.key(j) == id;
                assert(self@.players[id] == self.players.value(j)@);
            }
        }
        None
    }

    /// The index of the player that is taken for the agent itself.
    fn find_self(&self, nickname: &str, avatar: &str) -> (r: Option<usize>)
        requires
            self.wf(),
        ensures
            match r {
                Some(i) => {
                    &&& i < self.players.count()
                    &&& taken_for_self(
                        self@.players,
                        nickname@,
                        avatar@,
                        self.players.key(i as int),
                    )
                    &&& self@.players[self.players.key(i as int)] == self.players.value(i as int)@
                },
                None => !self_seen(self@.players, nickname@),
            },
    {
        let nick = text::trim(nickname);
        if nick.as_str().is_empty() {
            return None;
        }
        let look = text::trim(avatar);
        if !look.as_str().is_empty() {
            if let Some(i) = self.find(nick.as_str(), Some(look.as_str())) {
                return Some(i);
            }
        }
        self.find(nick.as_str(), None)
    }

    /// The id of the player that is taken for the agent itself.
    pub fn find_self_client(&self, nickname: &str, avatar: &str) -> (r: Option<String>)
        requires
            self.wf(),
        ensures
            match r {
                Some(id) => taken_for_self(self@.players, nickname@, avatar@, id@),
                None => !self_seen(self@.players, nickname@),
            },
    {
        match self.find_self(nickname, avatar) {
            Some(i) => Some(self.players.key_at(i).clone()),
            None => None,
        }
    }

    /// Where the player `id` is.
    pub fn place_of_player(&self, id: &str) -> (r: Option<Point>)
        requires
            self.wf(),
        ensures
            r == known_place(self@.players, id@),
    {
        match self.players.get(id) {
            Some(player) => {
                proof {
                    assert(self@.players[id@] == player@);
                }
                to_vec3(&player.position)
            },
            None => None,
        }
    }

    /// Where the agent itself is: by its id if that is known and has a place, else
    /// by its looks.
    pub fn own_place(&self, self_id: &Option<String>, nickname: &str, avatar: &str) -> (r: Option<
        Point,
    >)
        requires
            self.wf(),
        ensures
            own_place_of(self@.players, text::opt_text(*self_id), nickname@, avatar@, r),
    {
        let by_id: Option<Point> = match self_id {
            Some(id) => self.place_of_player(id.as_str()),
            None => None,
        };
        if by_id.is_some() {
            return by_id;
        }
        match self.find_self(nickname, avatar) {
            Some(i) => to_vec3(&self.players.value_at(i).position),
            None => None,
        }
    }

    /// Where the agent itself is, by its id if that is known, else by its name.
    pub fn own_place_by_name(&self, self_id: &Option<String>, nickname: &str) -> (r: Option<Point>)
        requires
            self.wf(),
        ensures
            own_place_by_name_of(self@.players, text::opt_text(*self_id), nickname@, r),
    {
        match self_id {
            Some(id) => self.place_of_player(id.as_str()),
            None => {
                let nick = text::trim(nickname);
                match self.find(nick.as_str(), None) {
                    Some(i) => to_vec3(&self.players.value_at(i).position),
                    None => None,
                }
            },
        }
    }

    /// The other players that can be approached.
    pub fn others(&self, self_id: &Option<String>, nickname: &str) -> (r: Vec<Other>)
        requires
            self.wf(),
        ensures
            others_of(self@.players, text::opt_text(*self_id), nickname@, r@),
    {
        let mut out: Vec<Other> = Vec::new();
        let own = text::trim(nickname);
        let n: usize = self.players.len();
        let ghost players = self@.players;
        let ghost own_id = text::opt_text(*self_id);
        let mut i: usize = 0;
        while i < n
            invariant
                self.wf(),
                i <= n == self.players.count(),
                players == self@.players,
                own@ == text::trimmed(nickname@),
                own_id == text::opt_text(*self_id),
                forall|k: int|
                    0 <= k < out@.len() ==> {
                        let o = #[trigger] out@[k];
                        &&& exists|j: int| 0 <= j < i && #[trigger] self.players.key(j) == o.id@
                        &&& is_other(players, own_id, nickname@, o.id@)
                        &&& place_of(players[o.id@].position) == Some(o.at)
                        &&& o.nickname@ == text::trimmed(players[o.id@].nickname)
                    },
                forall|j: int|
                    0 <= j < i && is_other(
                        players,
                        own_id,
                        nickname@,
                        #[trigger] self.players.key(j),
                    ) ==> exists|k: int|
                        0 <= k < out@.len() && (#[trigger] out@[k]).id@ == self.players.key(j),
                forall|k: int, l: int|
                    0 <= k < l < out@.len() ==> (#[trigger] out@[k]).id@ != (#[trigger] out@[l]).id@,
            decreases n - i,
        {
            proof {
                self.players.lemma_entries();
                assert(self.players@.contains_key(self.players.key(i as int)));
                assert(players[self.players.key(i as int)] == self.players.value(i as int)@);
            }
            let ghost before = out@;
            let id = self.players.key_at(i);
            let player = self.players.value_at(i);
            let nick = text::trim(player.nickname.as_str());
            let own_self: bool = match self_id {
                Some(own_id) => text::same(own_id.as_str(), id.as_str()),
                None => text::same(nick.as_str(), own.as_str()),
            };
            if !own_self && !nick.as_str().is_empty() {
                if let Some(at) = to_vec3(&player.position) {
                    out.push(Other { id: id.clone(), at, nickname: nick });
                }
            }
            proof {
                assert forall|j: int|
                    0 <= j < i + 1 && is_other(
                        players,
                        own_id,
                        nickname@,
                        #[trigger] self.players.key(j),
                    ) implies exists|k: int|
                    0 <= k < out@.len() && (#[trigger] out@[k]).id@ == self.players.key(j) by {
                    if j < i {
                        let k = choose|k: int|
                            0 <= k < before.len() && (#[trigger] before[k]).id@
                                == self.players.key(j);
                        assert(out@[k] == before[k]);
                    } else {
                        assert(out@[before.len() as int].id@ == self.players.key(j));
                    }
                }
            }
            i = i + 1;
        }
        proof {
            self.players.lemma_entries();
            assert forall|id: Seq<char>| #[trigger]
                is_other(players, own_id, nickname@, id) implies exists|k: int|
                0 <= k < out@.len() && (#[trigger] out@[k]).id@ == id by {
                assert(self.players@.contains_key(id));
                let j = choose|j: int|
                    0 <= j < self.players.count() && #[trigger] self.players.key(j) == id;
                assert(is_other(players, own_id, nickname@, self.players.key(j)));
            }
        }
        out
    }

    /// Where the agent itself is, by its id if that is known, else by its name, and
    /// whom it could approach. Without a place of its own it approaches nobody.
    pub fn snapshot_self_and_others(&self, self_id: &Option<String>, nickname: &str) -> (r: (
        Option<Point>,
        Vec<Other>,
    ))
        requires
            self.wf(),
        ensures
            own_place_by_name_of(self@.players, text::opt_text(*self_id), nickname@, r.0),
            if r.0 is Some {
                others_of(self@.players, text::opt_text(*self_id), nickname@, r.1@)
            } else {
                r.1@.len() == 0
            },
    {
        let place = self.own_place_by_name(self_id, nickname);
        if place.is_some() {
            (place, self.others(self_id, nickname))
        } else {
            (place, Vec::new())
        }
    }

    /// The players that have a name and a place, for the language model.
    pub fn named_players(&self) -> (r: Vec<Other>)
        requires
            self.wf(),
        ensures
            shown_of(self@.players, r@),
    {
        let mut out: Vec<Other> = Vec::new();
        let n: usize = self.players.len();
        let ghost players = self@.players;
        let mut i: usize = 0;
        while i < n
            invariant
                self.wf(),
                i <= n == self.players.count(),
                players == self@.players,
                forall|k: int|
                    0 <= k < out@.len() ==> {
                        let o = #[trigger] out@[k];
                        &&& exists|j: int| 0 <= j < i && #[trigger] self.players.key(j) == o.id@
                        &&& is_shown(players, o.id@)
                        &&& place_of(players[o.id@].position) == Some(o.at)
                        &&& o.nickname@ == text::trimmed(players[o.id@].nickname)
                    },
                forall|j: int|
                    0 <= j < i && is_shown(players, #[trigger] self.players.key(j)) ==> exists|
                        k: int,
                    |
                        0 <= k < out@.len() && (#[trigger] out@[k]).id@ == self.players.key(j),
                forall|k: int, l: int|
                    0 <= k < l < out@.len() ==> (#[trigger] out@[k]).id@ != (#[trigger] out@[l]).id@,
            decreases n - i,
        {
            proof {
                self.players.lemma_entries();
                assert(self.players@.contains_key(self.players.key(i as int)));
                assert(players[self.players.key(i as int)] == self.players.value(i as int)@);
            }
            let ghost before = out@;
            let player = self.players.value_at(i);
            let nick = text::trim(player.nickname.as_str());
            if !nick.as_str().is_empty() {
                if let Some(at) = to_vec3(&player.position) {
                    out.push(Other { id: self.players.key_at(i).clone(), at, nickname: nick });
                }
            }
            proof {
                assert forall|j: int|
                    0 <= j < i + 1 && is_shown(players, #[trigger] self.players.key(j)) implies exists|
                    k: int,
                | 0 <= k < out@.len() && (#[trigger] out@[k]).id@ == self.players.key(j) by {
                    if j < i {
                        let k = choose|k: int|
                            0 <= k < before.len() && (#[trigger] before[k]).id@
                                == self.players.key(j);
                        assert(out@[k] == before[k]);
                    } else {
                        assert(out@[before.len() as int].id@ == self.players.key(j));
                    }
                }
            }
            i = i + 1;
        }
        proof {
            self.players.lemma_entries();
            assert forall|id: Seq<char>| #[trigger] is_shown(players, id) implies exists|k: int|
                0 <= k < out@.len() && (#[trigger] out@[k]).id@ == id by {
                assert(self.players@.contains_key(id));
                let j = choose|j: int|
                    0 <= j < self.players.count() && #[trigger] self.players.key(j) == id;
                assert(is_shown(players, self.players.key(j)));
            }
        }
        out
    }
}

/// Whether a player's name is the agent's own, but for case and white space.
pub open spec fn own_name(nickname: Seq<char>, bot_nickname: Seq<char>) -> bool {
    text::trimmed(bot_nickname).len() > 0 && chat::folded(text::trimmed(nickname)) == chat::folded(
        text::trimmed(bot_nickname),
    )
}

/// Where the player `id` is, as far as that is known.
pub open spec fn known_place(players: Map<Seq<char>, PlayerView>, id: Seq<char>) -> Option<Point> {
    if players.contains_key(id) {
        place_of(players[id].position)
    } else {
        None
    }
}

/// Where the agent itself is: by its id if that is known and has a place, else by
/// its looks.
pub open spec fn own_place_of(
    players: Map<Seq<char>, PlayerView>,
    self_id: Option<Seq<char>>,
    nickname: Seq<char>,
    avatar: Seq<char>,
    place: Option<Point>,
) -> bool {
    if self_id is Some && known_place(players, self_id->0) is Some {
        place == known_place(players, self_id->0)
    } else if self_seen(players, nickname) {
        exists|id: Seq<char>| #[trigger]
            taken_for_self(players, nickname, avatar, id) && place == known_place(players, id)
    } else {
        place is None
    }
}

/// Where the agent itself is, by its id if that is known, else by its name.
pub open spec fn own_place_by_name_of(
    players: Map<Seq<char>, PlayerView>,
    self_id: Option<Seq<char>>,
    nickname: Seq<char>,
    place: Option<Point>,
) -> bool {
    match self_id {
        Some(id) => place == known_place(players, id),
        None => if exists|id: Seq<char>| #[trigger]
            players.contains_key(id) && is_called(players[id], text::trimmed(nickname)) {
            exists|id: Seq<char>| #[trigger]
                players.contains_key(id) && is_called(players[id], text::trimmed(nickname))
                    && place == place_of(players[id].position)
        } else {
            place is None
        },
    }
}

/// Whether the player `id` is shown to the language model: it has a name and a
/// place.
pub open spec fn is_shown(players: Map<Seq<char>, PlayerView>, id: Seq<char>) -> bool {
    &&& players.contains_key(id)
    &&& text::trimmed(players[id].nickname).len() > 0
    &&& place_of(players[id].position) is Some
}

/// The players that are shown to the language model: each once, and nobody else.
pub open spec fn shown_of(players: Map<Seq<char>, PlayerView>, found: Seq<Other>) -> bool {
    &&& forall|k: int|
        0 <= k < found.len() ==> is_shown(players, (#[trigger] found[k]).id@) && place_of(
            players[found[k].id@].position,
        ) == Some(found[k].at) && found[k].nickname@ == text::trimmed(
            players[found[k].id@].nickname,
        )
    &&& forall|id: Seq<char>| #[trigger]
        is_shown(players, id) ==> exists|k: int|
            0 <= k < found.len() && (#[trigger] found[k]).id@ == id
    &&& forall|k: int, l: int|
        0 <= k < l < found.len() ==> (#[trigger] found[k]).id@ != (#[trigger] found[l]).id@
}

// ------------------------------------------------------------------------ laws

/// Nobody is nearer than the nearest, as long as every distance is a number.
pub proof fn nearest_is_nearest(dists: Seq<Scalar>, i: int)
    requires
        0 <= i < dists.len(),
        forall|j: int| 0 <= j < dists.len() ==> !scalar::is_nan(#[trigger] dists[j]),
    ensures
        nearest_index(dists) matches Some(best) && 0 <= best < dists.len() && scalar::at_most(
            dists[best],
            dists[i],
        ),
    decreases dists.len(),
{
    let front = dists.drop_last();
    if front.len() > 0 {
        assert forall|j: int| 0 <= j < front.len() implies !scalar::is_nan(
            #[trigger] front[j],
        ) by {
            assert(front[j] == dists[j]);
        }
        if i < front.len() {
            nearest_is_nearest(front, i);
        } else {
            nearest_is_nearest(front, 0);
        }
    } else {
        assert(nearest_index(front) is None);
    }
}

/// An agent that knows its id never picks itself out to approach; one that does
/// not picks nobody of its own name.
pub proof fn agents_do_not_approach_themselves(
    players: Map<Seq<char>, PlayerView>,
    self_id: Option<Seq<char>>,
    nickname: Seq<char>,
    found: Seq<Other>,
    k: int,
)
    requires
        others_of(players, self_id, nickname, found),
        0 <= k < found.len(),
    ensures
        self_id != Some(found[k].id@),
        self_id is None ==> found[k].nickname@ != text::trimmed(nickname),
        found[k].nickname@.len() > 0,
{
}

/// An agent does not hear itself, and what it remembers has an author and words.
pub proof fn agents_do_not_hear_themselves(line: LineView, bot_nickname: Seq<char>)
    ensures
        own_line(line.nickname, bot_nickname) ==> remembered(line, bot_nickname) is None,
        remembered(line, bot_nickname) matches Some(kept) ==> kept.nickname.len() > 0
            && kept.message.len() > 0,
{
}

} // verus!
