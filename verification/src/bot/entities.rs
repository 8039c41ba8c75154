//! Active-object decoding and observed remote-player state.

use super::chat::{normalize_player_name, normalized};
use crate::codec::{long_bytes_in, text_in, ByteReader};
use crate::json::str_view;
use crate::network::inbound::{number_in_a_row, numbers_be};
use crate::network::wire::{
    be16, be32, bytes_field, bytes_in, numbers_come_back, part_between, short_bytes_are_whole,
    u32_at, u32_in, u8_in, v3f32_in,
};
use crate::text::utf8_lossy;
use crate::types::Vec3;
use vstd::prelude::*;

verus! {

/// Another player in view.
#[derive(Clone, Debug)]
pub struct RemotePlayer {
    pub name: String,
    pub pos: Vec3,
}

/// The value of a [`RemotePlayer`].
pub ghost struct RemoteView {
    pub name: Seq<char>,
    pub pos: Vec3,
}

impl View for RemotePlayer {
    type V = RemoteView;

    open spec fn view(&self) -> RemoteView {
        RemoteView { name: self.name@, pos: self.pos }
    }
}

/// The players in view, by the ids of their objects, in the order in which they
/// came into view.
pub struct Players {
    entries: Vec<(u16, RemotePlayer)>,
}

pub open spec fn player_views(entries: Seq<(u16, RemotePlayer)>) -> Seq<(u16, RemoteView)> {
    entries.map_values(|e: (u16, RemotePlayer)| (e.0, e.1@))
}

impl View for Players {
    type V = Seq<(u16, RemoteView)>;

    closed spec fn view(&self) -> Seq<(u16, RemoteView)> {
        player_views(self.entries@)
    }
}

/// Where the player with the given id is, from `at` on.
pub open spec fn place_of(players: Seq<(u16, RemoteView)>, id: u16, at: int) -> Option<int>
    decreases players.len() - at,
{
    if at < 0 || at >= players.len() {
        None
    } else if players[at].0 == id {
        Some(at)
    } else {
        place_of(players, id, at + 1)
    }
}

pub open spec fn player_with_id(players: Seq<(u16, RemoteView)>, id: u16) -> Option<RemoteView> {
    match place_of(players, id, 0) {
        Some(i) => Some(players[i].1),
        None => None,
    }
}

/// The players with one that has come into view, or is there anew.
pub open spec fn with_player(players: Seq<(u16, RemoteView)>, id: u16, p: RemoteView) -> Seq<
    (u16, RemoteView),
> {
    match place_of(players, id, 0) {
        Some(i) => players.update(i, (id, p)),
        None => players.push((id, p)),
    }
}

/// The players without one that has left.
pub open spec fn without_player(players: Seq<(u16, RemoteView)>, id: u16) -> Seq<(u16, RemoteView)> {
    match place_of(players, id, 0) {
        Some(i) => players.remove(i),
        None => players,
    }
}

/// The players with one that has moved; only one that is in view can.
pub open spec fn player_moved(players: Seq<(u16, RemoteView)>, id: u16, pos: Vec3) -> Seq<
    (u16, RemoteView),
> {
    match place_of(players, id, 0) {
        Some(i) => players.update(i, (id, RemoteView { pos, ..players[i].1 })),
        None => players,
    }
}

/// The first player from `at` on whose name is `name` once normalized.
pub open spec fn id_named(players: Seq<(u16, RemoteView)>, name: Seq<char>, at: int) -> Option<u16>
    decreases players.len() - at,
{
    if at < 0 || at >= players.len() {
        None
    } else if normalized(players[at].1.name) == name {
        Some(players[at].0)
    } else {
        id_named(players, name, at + 1)
    }
}

/// The id of the player with the given name.
pub open spec fn target_id(players: Seq<(u16, RemoteView)>, name: Option<Seq<char>>) -> Option<u16> {
    match name {
        Some(name) => id_named(players, normalized(name), 0),
        None => None,
    }
}

impl Players {
    pub fn new() -> (p: Self)
        ensures
            p@ == Seq::<(u16, RemoteView)>::empty(),
    {
        let p = Players { entries: Vec::new() };
        assert(p@ =~= Seq::<(u16, RemoteView)>::empty());
        p
    }

    /// The number of players in view.
    pub fn len(&self) -> (n: usize)
        ensures
            n == self@.len(),
    {
        self.entries.len()
    }

    /// The id and the state of a player, in the order in which they came into view.
    pub fn entry(&self, i: usize) -> (e: (u16, &RemotePlayer))
        requires
            i < self@.len(),
        ensures
            (e.0, e.1@) == self@[i as int],
    {
        (self.entries[i].0, &self.entries[i].1)
    }

    fn place(&self, id: u16) -> (at: Option<usize>)
        ensures
            match at {
                Some(i) => place_of(self@, id, 0) == Some(i as int) && i < self@.len(),
                None => place_of(self@, id, 0) is None,
            },
    {
        let mut i: usize = 0;
        while i < self.entries.len()
            invariant
                i <= self.entries.len(),
                place_of(self@, id, 0) == place_of(self@, id, i as int),
            decreases self.entries.len() - i,
        {
            assert(self@[i as int].0 == self.entries@[i as int].0);
            if self.entries[i].0 == id {
                return Some(i);
            }
            i = i + 1;
        }
        None
    }

    pub fn get(&self, id: u16) -> (p: Option<&RemotePlayer>)
        ensures
            match p {
                Some(p) => player_with_id(self@, id) == Some(p@),
                None => player_with_id(self@, id) is None,
            },
    {
        match self.place(id) {
            Some(i) => Some(&self.entries[i].1),
            None => None,
        }
    }

    pub fn insert(&mut self, id: u16, player: RemotePlayer)
        ensures
            final(self)@ == with_player(old(self)@, id, player@),
    {
        match self.place(id) {
            Some(i) => {
                self.entries[i] = (id, player);
                assert(self@ =~= old(self)@.update(i as int, (id, player@)));
            },
            None => {
                self.entries.push((id, player));
                assert(self@ =~= old(self)@.push((id, player@)));
            },
        }
    }

    pub fn remove(&mut self, id: u16)
        ensures
            final(self)@ == without_player(old(self)@, id),
    {
        if let Some(i) = self.place(id) {
            self.entries.remove(i);
            assert(self@ =~= old(self)@.remove(i as int));
        }
    }

    /// Notes where a player is, if it is in view.
    pub fn set_pos(&mut self, id: u16, pos: Vec3)
        ensures
            final(self)@ == player_moved(old(self)@, id, pos),
    {
        if let Some(i) = self.place(id) {
            let name = self.entries[i].1.name.clone();
            self.entries[i] = (id, RemotePlayer { name, pos });
            proof {
                place_is_first(old(self)@, id, 0);
                assert(self@ =~= old(self)@.update(
                    i as int,
                    (id, RemoteView { pos, ..old(self)@[i as int].1 }),
                ));
            }
        }
    }
}

/// The place of an id is the first where it is found.
pub proof fn place_is_first(players: Seq<(u16, RemoteView)>, id: u16, at: int)
    requires
        at >= 0,
    ensures
        match place_of(players, id, at) {
            Some(i) => at <= i < players.len() && players[i].0 == id && (forall|k: int|
                at <= k < i ==> (#[trigger] players[k]).0 != id),
            None => forall|k: int| at <= k < players.len() ==> (#[trigger] players[k]).0 != id,
        },
    decreases players.len() - at,
{
    if at < players.len() && players[at].0 != id {
        place_is_first(players, id, at + 1);
    }
}

/// Finds the player with the given name.
pub fn find_target_id(players: &Players, name: Option<&str>) -> (id: Option<u16>)
    ensures
        id == target_id(players@, str_view(name)),
{
    let target = normalize_player_name(name?);
    let mut i: usize = 0;
    while i < players.entries.len()
        invariant
            i <= players.entries.len(),
            target_id(players@, str_view(name)) == id_named(players@, target@, 0),
            id_named(players@, target@, 0) == id_named(players@, target@, i as int),
        decreases players.entries.len() - i,
    {
        assert(players@[i as int] == (players.entries@[i as int].0, players.entries@[i as int].1@));
        if normalize_player_name(players.entries[i].1.name.as_str()) == target {
            return Some(players.entries[i].0);
        }
        i = i + 1;
    }
    None
}

/// What an active object says of itself when it comes into view.
#[derive(Clone, Debug)]
pub struct ActiveObjectInitInfo {
    pub name: String,
    pub is_player: bool,
    pub pos: Vec3,
}

/// The value of an [`ActiveObjectInitInfo`].
pub ghost struct InitInfoView {
    pub name: Seq<char>,
    pub is_player: bool,
    pub pos: Vec3,
}

impl View for ActiveObjectInitInfo {
    type V = InitInfoView;

    open spec fn view(&self) -> InitInfoView {
        InitInfoView { name: self.name@, is_player: self.is_player, pos: self.pos }
    }
}

/// Why an object's data was not understood.
#[derive(Clone, Copy, Debug, PartialEq, Eq, Structural)]
pub enum ObjectFault {
    /// The data ends too early.
    OutOfBounds,
    /// The version of the data is not supported.
    Version(u8),
}

/// Where `count` long strings end.
pub open spec fn long_strings_end(b: Seq<u8>, at: int, count: nat) -> Option<int>
    decreases count,
{
    if count == 0 {
        Some(at)
    } else {
        match long_bytes_in(b, at) {
            None => None,
            Some((_, next)) => long_strings_end(b, next, (count - 1) as nat),
        }
    }
}

/// The data that an object comes into view with: a version, a name, whether it is
/// a player, its id, position, rotation and health, and counted messages.
pub open spec fn init_info_in(b: Seq<u8>) -> Result<InitInfoView, ObjectFault> {
    match u8_in(b, 0) {
        None => Err(ObjectFault::OutOfBounds),
        Some((version, start)) => if version < 1 {
            Err(ObjectFault::Version(version))
        } else {
            match text_in(b, start) {
                None => Err(ObjectFault::OutOfBounds),
                Some((name, p)) => if p + 30 > b.len() {
                    Err(ObjectFault::OutOfBounds)
                } else {
                    match (v3f32_in(b, p + 3), long_strings_end(b, p + 30, b[p + 29] as nat)) {
                        (Some((pos, _)), Some(_)) => Ok(
                            InitInfoView { name: normalized(name), is_player: b[p] != 0, pos },
                        ),
                        _ => Err(ObjectFault::OutOfBounds),
                    }
                },
            }
        },
    }
}

pub open spec fn init_info_result(r: Result<ActiveObjectInitInfo, ObjectFault>) -> Result<
    InitInfoView,
    ObjectFault,
> {
    match r {
        Ok(info) => Ok(info@),
        Err(e) => Err(e),
    }
}

fn read_init_fields(reader: &mut ByteReader) -> (r: Option<(String, bool, Vec3, u8)>)
    ensures
        final(reader).bytes() == old(reader).bytes(),
        match text_in(old(reader).bytes(), old(reader).at()) {
            None => r is None,
            Some((name, p)) => if p + 30 > old(reader).bytes().len() {
                r is None
            } else {
                match r {
                    Some((n, is_player, pos, count)) => {
                        &&& n@ == name
                        &&& is_player == (old(reader).bytes()[p] != 0)
                        &&& v3f32_in(old(reader).bytes(), p + 3) == Some((pos, p + 15))
                        &&& count == old(reader).bytes()[p + 29]
                        &&& final(reader).at() == p + 30
                    },
                    None => false,
                }
            },
        },
{
    let name = reader.read_string16().ok()?;
    let is_player = reader.read_u8().ok()? != 0;
    let _id: u16 = reader.read_u16().ok()?;
    let pos = reader.read_vec3_f32().ok()?;
    let _rot = reader.read_vec3_f32().ok()?;
    let _hp: u16 = reader.read_u16().ok()?;
    let count: u8 = reader.read_u8().ok()?;
    Some((name, is_player, pos, count))
}

pub fn parse_active_object_init(data: &[u8]) -> (r: Result<ActiveObjectInitInfo, ObjectFault>)
    ensures
        init_info_result(r) == init_info_in(data@),
{
    let mut reader = ByteReader::new(data);
    let version: u8 = match reader.read_u8() {
        Ok(v) => v,
        Err(_) => return Err(ObjectFault::OutOfBounds),
    };
    if version < 1 {
        return Err(ObjectFault::Version(version));
    }
    let (name, is_player, pos, count) = match read_init_fields(&mut reader) {
        Some(f) => f,
        None => return Err(ObjectFault::OutOfBounds),
    };
    let ghost start = reader.at();
    let ghost whole = init_info_in(data@);
    let mut i: u8 = 0;
    while i < count
        invariant
            i <= count,
            reader.bytes() == data@,
            long_strings_end(data@, start, count as nat) is None ==> whole == Err::<
                InitInfoView,
                ObjectFault,
            >(ObjectFault::OutOfBounds),
            whole == init_info_in(data@),
            long_strings_end(data@, start, count as nat) == long_strings_end(
                data@,
                reader.at(),
                (count - i) as nat,
            ),
        decreases count - i,
    {
        match reader.read_string32() {
            Ok(_) => {},
            Err(_) => return Err(ObjectFault::OutOfBounds),
        }
        i = i + 1;
    }
    Ok(
        ActiveObjectInitInfo {
            name: normalize_player_name(name.as_str()),
            is_player,
            pos,
        },
    )
}

/// The position in an object's message; none where the message is about something
/// else. Behind the position stand velocity, acceleration, rotation, two flags and
/// the update interval.
pub open spec fn updated_position(b: Seq<u8>) -> Result<Option<Vec3>, ObjectFault> {
    if b.len() == 0 {
        Err(ObjectFault::OutOfBounds)
    } else if b[0] != 1 {
        Ok(None)
    } else {
        match v3f32_in(b, 1) {
            Some((pos, _)) if b.len() >= 55 => Ok(Some(pos)),
            _ => Err(ObjectFault::OutOfBounds),
        }
    }
}

pub fn parse_active_object_update_position(data: &[u8]) -> (r: Result<Option<Vec3>, ObjectFault>)
    ensures
        r == updated_position(data@),
{
    let mut reader = ByteReader::new(data);
    let cmd: u8 = match reader.read_u8() {
        Ok(v) => v,
        Err(_) => return Err(ObjectFault::OutOfBounds),
    };
    if cmd != 1 {
        return Ok(None);
    }
    let pos = match reader.read_vec3_f32() {
        Ok(v) => v,
        Err(_) => return Err(ObjectFault::OutOfBounds),
    };
    match reader.skip(42) {
        Ok(()) => Ok(Some(pos)),
        Err(_) => Err(ObjectFault::OutOfBounds),
    }
}

/// A player is found by its name, whatever prefix the name has, and no player is
/// found where none has it.
pub proof fn found_player_has_the_name(players: Seq<(u16, RemoteView)>, name: Seq<char>, at: int)
    requires
        at >= 0,
    ensures
        match id_named(players, name, at) {
            Some(id) => exists|i: int|
                at <= i < players.len() && (#[trigger] players[i]).0 == id && normalized(
                    players[i].1.name,
                ) == name,
            None => forall|i: int|
                at <= i < players.len() ==> normalized((#[trigger] players[i]).1.name) != name,
        },
    decreases players.len() - at,
{
    if at < players.len() && normalized(players[at].1.name) != name {
        found_player_has_the_name(players, name, at + 1);
    } else if at < players.len() {
        assert(players[at].0 == id_named(players, name, at)->0);
    }
}

/// Messages as they are written, each behind its length.
pub open spec fn long_strings_be(messages: Seq<Seq<u8>>) -> Seq<u8>
    decreases messages.len(),
{
    if messages.len() == 0 {
        seq![]
    } else {
        be32(messages[0].len() as u32) + messages[0] + long_strings_be(messages.drop_first())
    }
}

#[verifier::rlimit(50)]
proof fn long_strings_are_skipped(before: Seq<u8>, messages: Seq<Seq<u8>>, after: Seq<u8>)
    requires
        forall|i: int| 0 <= i < messages.len() ==> (#[trigger] messages[i]).len() <= u32::MAX,
    ensures
        long_strings_end(
            before + long_strings_be(messages) + after,
            before.len() as int,
            messages.len(),
        ) == Some(before.len() as int + long_strings_be(messages).len()),
    decreases messages.len(),
{
    if messages.len() > 0 {
        let m = messages[0];
        let rest = messages.drop_first();
        let x = be32(m.len() as u32);
        let y = long_strings_be(rest);
        let p = before + long_strings_be(messages) + after;
        let at = before.len() as int;
        assert(x.len() == 4);
        long_parts(before, x, m, y, after);
        assert(u32_in(p, at) == Some((m.len() as u32, at + 4))) by {
            numbers_come_back(before, 0, m.len() as u32, m + y + after);
        }
        assert(p.subrange(at + 4, at + 4 + m.len()) == m) by {
            part_between(before + x, m, y + after);
        }
        assert forall|i: int| 0 <= i < rest.len() implies (#[trigger] rest[i]).len()
            <= u32::MAX by {
            assert(rest[i] == messages[i + 1]);
        }
        long_strings_are_skipped(before + x + m, rest, after);
    }
}

proof fn long_parts(before: Seq<u8>, x: Seq<u8>, m: Seq<u8>, y: Seq<u8>, after: Seq<u8>)
    ensures
        ({
            let p = before + (x + m + y) + after;
            &&& p == before + x + (m + y + after)
            &&& p == before + x + m + (y + after)
            &&& p == before + x + m + y + after
            &&& p.len() == before.len() + x.len() + m.len() + y.len() + after.len()
        }),
{
    let p = before + (x + m + y) + after;
    assert(p =~= before + x + (m + y + after));
    assert(p =~= before + x + m + (y + after));
    assert(p =~= before + x + m + y + after);
}

/// What an object says of itself is read as it was written: its name, whether it is a player,
/// and where it is, whatever its number, rotation and health are and whatever messages
/// follow.
#[verifier::rlimit(50)]
pub proof fn object_is_read_as_written(
    version: u8,
    name: Seq<u8>,
    is_player: u8,
    id: u16,
    ns: Seq<u32>,
    health: u16,
    messages: Seq<Seq<u8>>,
    after: Seq<u8>,
)
    requires
        version >= 1,
        name.len() <= 65535,
        ns.len() == 6,
        messages.len() <= 255,
        forall|i: int| 0 <= i < messages.len() ==> (#[trigger] messages[i]).len() <= u32::MAX,
    ensures
        init_info_in(
            seq![version] + bytes_field(name) + (seq![is_player] + be16(id)) + numbers_be(ns) + (
            be16(health) + seq![messages.len() as u8]) + long_strings_be(messages) + after,
        ) == Ok::<InitInfoView, ObjectFault>(
            InitInfoView {
                name: normalized(utf8_lossy(name)),
                is_player: is_player != 0,
                pos: Vec3 { x: ns[0], y: ns[1], z: ns[2] },
            },
        ),
{
    let a = seq![version];
    let b = bytes_field(name);
    let c = seq![is_player] + be16(id);
    let d = numbers_be(ns);
    let e = be16(health) + seq![messages.len() as u8];
    let f = long_strings_be(messages);
    let p = a + b + c + d + e + f + after;
    let at = 3 + name.len() as int;
    assert(b.len() == 2 + name.len());
    assert(d.len() == 24);
    object_parts(a, b, c, d, e, f, after);
    assert(bytes_in(p, 1) == Some((name, at))) by {
        short_bytes_are_whole(a, name, c + d + e + f + after);
    }
    assert(u32_at(p, at + 3) == ns[0] && u32_at(p, at + 7) == ns[1] && u32_at(p, at + 11)
        == ns[2]) by {
        number_in_a_row(ns, a + b + c, e + f + after, 0);
        number_in_a_row(ns, a + b + c, e + f + after, 1);
        number_in_a_row(ns, a + b + c, e + f + after, 2);
    }
    long_strings_are_skipped(a + b + c + d + e, messages, after);
    assert(c[0] == is_player && e[2] == messages.len());
    object_from_parts(p, name, at, Vec3 { x: ns[0], y: ns[1], z: ns[2] }, messages.len());
}

proof fn object_from_parts(p: Seq<u8>, name: Seq<u8>, at: int, pos: Vec3, count: nat)
    requires
        at >= 1,
        p.len() >= at + 30,
        p[0] >= 1,
        bytes_in(p, 1) == Some((name, at)),
        v3f32_in(p, at + 3) == Some((pos, at + 15)),
        p[at + 29] == count,
        long_strings_end(p, at + 30, count) is Some,
    ensures
        init_info_in(p) == Ok::<InitInfoView, ObjectFault>(
            InitInfoView { name: normalized(utf8_lossy(name)), is_player: p[at] != 0, pos },
        ),
{
}

#[verifier::rlimit(50)]
proof fn object_parts(
    a: Seq<u8>,
    b: Seq<u8>,
    c: Seq<u8>,
    d: Seq<u8>,
    e: Seq<u8>,
    f: Seq<u8>,
    after: Seq<u8>,
)
    requires
        a.len() == 1,
        b.len() >= 2,
        c.len() == 3,
        d.len() == 24,
        e.len() == 3,
    ensures
        ({
            let p = a + b + c + d + e + f + after;
            let at = 1 + b.len() as int;
            &&& p == a + b + (c + d + e + f + after)
            &&& p == a + b + c + d + (e + f + after)
            &&& p[0] == a[0]
            &&& p[at] == c[0]
            &&& p[at + 29] == e[2]
            &&& p.len() == at + 30 + f.len() + after.len()
            &&& (a + b + c).len() == at + 3
            &&& (a + b + c + d + e).len() == at + 30
        }),
{
    let p = a + b + c + d + e + f + after;
    assert(p =~= a + b + (c + d + e + f + after));
    assert(p =~= a + b + c + d + (e + f + after));
}

/// A message that moves an object is read as it was written: the new position stands behind
/// the message's number. Other messages move nothing.
#[verifier::rlimit(50)]
pub proof fn moves_are_read_as_written(ns: Seq<u32>, rest: Seq<u8>, other: u8)
    requires
        ns.len() == 3,
        rest.len() >= 42,
        other != 1,
    ensures
        updated_position(seq![1u8] + numbers_be(ns) + rest) == Ok::<Option<Vec3>, ObjectFault>(
            Some(Vec3 { x: ns[0], y: ns[1], z: ns[2] }),
        ),
        updated_position(seq![other] + rest) == Ok::<Option<Vec3>, ObjectFault>(None),
{
    let p = seq![1u8] + numbers_be(ns) + rest;
    assert(p[0] == 1);
    number_in_a_row(ns, seq![1u8], rest, 0);
    number_in_a_row(ns, seq![1u8], rest, 1);
    number_in_a_row(ns, seq![1u8], rest, 2);
    assert((seq![other] + rest)[0] == other);
}

/// A player who comes into view, or moves, is known by its number from then on, and all others
/// stay as they are.
pub proof fn players_are_known_by_their_number(
    players: Seq<(u16, RemoteView)>,
    id: u16,
    p: RemoteView,
    pos: Vec3,
    other: u16,
)
    requires
        other != id,
    ensures
        player_with_id(with_player(players, id, p), id) == Some(p),
        player_with_id(with_player(players, id, p), other) == player_with_id(players, other),
        player_with_id(player_moved(players, id, pos), id) == match player_with_id(players, id) {
            Some(q) => Some(RemoteView { name: q.name, pos }),
            None => None,
        },
        player_with_id(player_moved(players, id, pos), other) == player_with_id(players, other),
        player_moved(players, id, pos).len() == players.len(),
{
    place_is_first(players, id, 0);
    place_is_first(players, other, 0);
    let added = with_player(players, id, p);
    let moved = player_moved(players, id, pos);
    place_is_first(added, id, 0);
    place_is_first(added, other, 0);
    place_is_first(moved, id, 0);
    place_is_first(moved, other, 0);
    if let Some(i) = place_of(players, id, 0) {
        assert(added[i].0 == id);
        assert(moved[i].0 == id);
        if let Some(j) = place_of(added, id, 0) {
            if j < i {
                assert(added[j] == players[j]);
            }
        }
        if let Some(j) = place_of(moved, id, 0) {
            if j < i {
                assert(moved[j] == players[j]);
            }
        }
    } else {
        assert(added[players.len() as int].0 == id);
        if let Some(j) = place_of(added, id, 0) {
            if j < players.len() {
                assert(added[j] == players[j]);
            }
        }
    }
    same_place(players, added, other);
    same_place(players, moved, other);
}

proof fn same_place(a: Seq<(u16, RemoteView)>, b: Seq<(u16, RemoteView)>, id: u16)
    requires
        a.len() <= b.len(),
        forall|k: int|
            0 <= k < a.len() ==> (#[trigger] a[k]).0 == b[k].0 && (a[k].0 == id ==> a[k] == b[k]),
        forall|k: int| a.len() <= k < b.len() ==> (#[trigger] b[k]).0 != id,
    ensures
        player_with_id(a, id) == player_with_id(b, id),
{
    place_is_first(a, id, 0);
    place_is_first(b, id, 0);
    match (place_of(a, id, 0), place_of(b, id, 0)) {
        (Some(i), Some(j)) => {
            assert(b[i].0 == id);
            if j < i {
                assert(a[j].0 == id);
            }
        },
        (Some(i), None) => {
            assert(b[i].0 == id);
        },
        (None, Some(j)) => {
            if j < a.len() {
                assert(a[j].0 == id);
            }
        },
        (None, None) => {},
    }
}

} // verus!
