use vstd::prelude::*;

use crate::enemy::{EnemyType, Enemy};
use crate::item::Item;
use crate::keyed::{unique_keys, keyed_map, put_keyed};

verus! {

/// A large data structure representing an entire map, like a dungeon or town. This is NOT a
/// literal, grid-based map; rather, it's just a collection of rooms without the notion of spatial
/// position.
pub struct DungeonMap {
    /// The title of this map.
    pub name: String,
    /// A short description or overview of what's in this map.
    pub summary: String,
    /// All the rooms in this map, in the order of their keys (none twice). The key is
    /// conventionally the room number, but it could be anything really.
    pub rooms: Vec<(String, Room)>,
    /// The connections between rooms, each under its id (none twice).
    pub connections: Vec<(String, RoomConnection)>,
}

impl DungeonMap {
    pub fn new() -> (m: Self)
        ensures
            m.name@.len() == 0,
            m.summary@.len() == 0,
            m.rooms@.len() == 0,
            m.connections@.len() == 0,
    {
        Self { name: String::new(), summary: String::new(), rooms: Vec::new(), connections: Vec::new() }
    }
}

/// A connection `from` one room `to` another as it is first made: no description, not passable,
/// not locked and without a trap.
pub open spec fn fresh_connection(c: RoomConnection, from: Seq<char>, to: Seq<char>, one_way: bool) -> bool {
    &&& c.from@ == from
    &&& c.to@ == to
    &&& c.one_way == one_way
    &&& c.description@.len() == 0
    &&& !c.passable
    &&& !c.locked
    &&& c.trapped is None
}

/// Which side of a new connection the room named `room` is on: the "from" side (`true`), the
/// "to" side of a two-way connection (`false`), or neither. A room joined to itself both ways ends
/// on the "to" side.
pub open spec fn connection_side(room: Seq<char>, from: Seq<char>, to: Seq<char>, one_way: bool) -> Option<bool> {
    if !one_way && room == to {
        Some(false)
    } else if room == from {
        Some(true)
    } else {
        None
    }
}

/// Room `b` is room `a` with the connection `id` marked on `side` (when there is a side).
pub open spec fn room_marked(a: Room, b: Room, id: Seq<char>, side: Option<bool>) -> bool {
    match side {
        None => b == a,
        Some(s) => {
            &&& b.name == a.name
            &&& b.description == a.description
            &&& b.enemies == a.enemies
            &&& b.items == a.items
            &&& unique_keys(b.connections@)
            &&& keyed_map(b.connections@) == keyed_map(a.connections@).insert(id, s)
        },
    }
}

impl DungeonMap {
    /// Makes a connection `from` one room `to` another under the id `id`, and marks it in the
    /// room it leaves from and, when it goes both ways, in the room it leads to.
    pub fn connect(&mut self, id: String, from: String, to: String, one_way: bool)
        requires
            unique_keys(old(self).connections@),
            forall|i: int| 0 <= i < old(self).rooms@.len() ==> unique_keys(#[trigger] old(self).rooms@[i].1.connections@),
        ensures
            unique_keys(final(self).connections@),
            fresh_connection(keyed_map(final(self).connections@)[id@], from@, to@, one_way),
            keyed_map(final(self).connections@)
                == keyed_map(old(self).connections@).insert(id@, keyed_map(final(self).connections@)[id@]),
            final(self).rooms@.len() == old(self).rooms@.len(),
            forall|i: int| 0 <= i < old(self).rooms@.len() ==> (#[trigger] final(self).rooms@[i]).0 == old(self).rooms@[i].0
                && room_marked(old(self).rooms@[i].1, final(self).rooms@[i].1, id@,
                    connection_side(old(self).rooms@[i].0@, from@, to@, one_way)),
            final(self).name == old(self).name,
            final(self).summary == old(self).summary,
    {
        let n = self.rooms.len();
        for i in 0..n
            invariant
                n == self.rooms@.len(),
                n == old(self).rooms@.len(),
                self.connections == old(self).connections,
                self.name == old(self).name,
                self.summary == old(self).summary,
                forall|j: int| 0 <= j < n ==> unique_keys(#[trigger] old(self).rooms@[j].1.connections@),
                forall|j: int| 0 <= j < i ==> (#[trigger] self.rooms@[j]).0 == old(self).rooms@[j].0
                    && room_marked(old(self).rooms@[j].1, self.rooms@[j].1, id@,
                        connection_side(old(self).rooms@[j].0@, from@, to@, one_way)),
                forall|j: int| i <= j < n ==> #[trigger] self.rooms@[j] == old(self).rooms@[j],
        {
            let is_to = !one_way && self.rooms[i].0 == to;
            let is_from = self.rooms[i].0 == from;
            if is_to || is_from {
                let ghost before = self.rooms@;
                let (name, mut room) = self.rooms.remove(i);
                put_keyed(&mut room.connections, id.clone(), !is_to);
                self.rooms.insert(i, (name, room));
                assert(self.rooms@ == before.update(i as int, self.rooms@[i as int]));
            }
        }
        let mut c = RoomConnection::new();
        c.from = from;
        c.to = to;
        c.one_way = one_way;
        put_keyed(&mut self.connections, id, c);
    }
}

/// A room in a map.
pub struct Room {
    pub name: String,
    /// A description of the room, for the DM.
    pub description: String,
    /// All the enemies in this room: each kind under its id (none twice), with the enemies of it.
    pub enemies: Vec<(String, (EnemyType, Vec<Enemy>))>,
    /// All the items in this room.
    pub items: RoomItems,
    /// All this room's connections, each under its id (none twice): true on the "from" side,
    /// false on the "to" side.
    pub connections: Vec<(String, bool)>,
}

impl Room {
    pub fn new() -> (r: Self)
        ensures
            r.name@.len() == 0,
            r.description@.len() == 0,
            r.enemies@.len() == 0,
            r.items.loose_items@.len() == 0,
            r.items.containers@.len() == 0,
            r.connections@.len() == 0,
    {
        Self {
            name: String::new(),
            description: String::new(),
            enemies: Vec::new(),
            items: RoomItems::new(),
            connections: Vec::new(),
        }
    }
}

/// A connection between two rooms.
pub struct RoomConnection {
    pub from: String,
    pub to: String,
    pub one_way: bool,
    /// A description of this door/whatever.
    pub description: String,
    /// Whether this connection is currently passable or blocked.
    pub passable: bool,
    /// Whether the connection/door is locked.
    pub locked: bool,
    /// Stores the trap state, if any.
    pub trapped: Option<RoomTrap>,
}

impl RoomConnection {
    pub fn new() -> (c: Self)
        ensures
            c.from@.len() == 0,
            c.to@.len() == 0,
            !c.one_way,
            c.description@.len() == 0,
            !c.passable,
            !c.locked,
            c.trapped is None,
    {
        Self {
            from: String::new(),
            to: String::new(),
            one_way: false,
            description: String::new(),
            passable: false,
            locked: false,
            trapped: None,
        }
    }
}

/// All of the items that are in this room.
pub struct RoomItems {
    /// All of the items that are not in any particular container, whether that's on the floor or
    /// otherwise not contained by anything.
    pub loose_items: Vec<Item>,
    /// All of the containers in this room.
    pub containers: Vec<RoomContainer>,
}

impl RoomItems {
    pub fn new() -> (r: Self)
        ensures
            r.loose_items@.len() == 0,
            r.containers@.len() == 0,
    {
        Self { loose_items: Vec::new(), containers: Vec::new() }
    }
}

/// A container of some variety placed in a room. This could be a chest, bookcase, hidden
/// compartment, or even something like the surface of a table.
pub struct RoomContainer {
    /// What this container should be called. Does not have to be unique.
    pub name: String,
    /// If trapped, stores what the trap does and whether it's been triggered.
    pub trapped: Option<RoomTrap>,
    /// Whether the container is locked or not.
    pub locked: bool,
    /// The different sections of the container, each under its name (none twice), holding
    /// items, like the shelves of a bookcase or a hidden chamber within a chest.
    pub sections: Vec<(String, Vec<Item>)>,
}

impl RoomContainer {
    pub fn new() -> (c: Self)
        ensures
            c.name@.len() == 0,
            c.trapped is None,
            !c.locked,
            c.sections@.len() == 0,
    {
        Self { name: String::new(), trapped: None, locked: false, sections: Vec::new() }
    }
}

pub struct RoomTrap {
    /// A description of what this trap does and how it works.
    pub description: String,
    /// Whether this trap is active.
    pub active: bool,
}

impl RoomTrap {
    pub fn new() -> (t: Self)
        ensures
            t.description@.len() == 0,
            t.active,
    {
        Self { description: String::new(), active: true }
    }
}

} // verus!
