//! The values that travel between the server and its clients.

use vstd::prelude::*;

verus! {

/// Identifies one connection for as long as it lasts.
pub type PlayerId = u64;

/// A handle the server's world gave to an avatar. Clients never change one.
pub type ServerEntityId = u64;

/// A handle a client's own world gave to its picture of an avatar.
pub type LocalEntityId = u64;

/// A world position, held as the bit patterns of three IEEE-754
/// single-precision numbers so that it crosses the wire unchanged.
#[derive(Debug, Clone, Copy, PartialEq, Eq, Structural)]
pub struct Translation {
    pub x: u32,
    pub y: u32,
    pub z: u32,
}

/// Marks an avatar with the connection that steers it.
#[derive(Debug, Clone, Copy, PartialEq, Eq, Structural)]
pub struct Player {
    pub id: PlayerId,
}

/// One avatar as the server's world reports it: its handle, its owner and
/// where it stands.
#[derive(Debug, Clone, Copy, PartialEq, Eq, Structural)]
pub struct Avatar {
    pub entity: ServerEntityId,
    pub player: Player,
    pub translation: Translation,
}

/// Control messages from the server, sent reliably and in order.
#[derive(Debug, Clone, Copy, PartialEq, Eq, Structural)]
pub enum ServerMessage {
    /// A player exists: its avatar's handle on the server, its id, and where
    /// the avatar stands.
    PlayerCreate { entity: ServerEntityId, id: PlayerId, translation: Translation },
    /// A player asked to leave and is gone.
    PlayerRemove { id: PlayerId },
    /// The transport lost a player's connection and the player is gone.
    ClientDisconnected { client_id: PlayerId },
}

/// Control messages from a client, sent reliably and in order.
#[derive(Debug, Clone, Copy, PartialEq, Eq, Structural)]
pub enum ClientMessage {
    Join {},
    Disconnect {},
}

/// The positions of all avatars at one tick: two columns, row `i` of
/// `translations` belonging to row `i` of `entities`.
#[derive(Debug, PartialEq, Eq)]
pub struct NetworkedEntities {
    pub entities: Vec<ServerEntityId>,
    pub translations: Vec<Translation>,
}

/// What a [`NetworkedEntities`] holds, as two sequences.
pub struct SnapshotView {
    pub entities: Seq<ServerEntityId>,
    pub translations: Seq<Translation>,
}

impl SnapshotView {
    /// Both columns have the same number of rows.
    pub open spec fn aligned(self) -> bool {
        self.entities.len() == self.translations.len()
    }

    /// This snapshot with one more row.
    pub open spec fn with_row(self, entity: ServerEntityId, translation: Translation) -> SnapshotView {
        SnapshotView {
            entities: self.entities.push(entity),
            translations: self.translations.push(translation),
        }
    }

    /// The snapshot of a list of avatars: one row each, in the list's order.
    pub open spec fn of_avatars(avatars: Seq<Avatar>) -> SnapshotView {
        SnapshotView {
            entities: Seq::new(avatars.len(), |i: int| avatars[i].entity),
            translations: Seq::new(avatars.len(), |i: int| avatars[i].translation),
        }
    }
}

impl View for NetworkedEntities {
    type V = SnapshotView;

    open spec fn view(&self) -> SnapshotView {
        SnapshotView { entities: self.entities@, translations: self.translations@ }
    }
}

impl NetworkedEntities {
    /// A snapshot without rows.
    pub fn new() -> (s: NetworkedEntities)
        ensures
            s@.entities.len() == 0,
            s@.translations.len() == 0,
    {
        NetworkedEntities { entities: Vec::new(), translations: Vec::new() }
    }

    /// Whether both columns have the same number of rows.
    pub fn is_aligned(&self) -> (b: bool)
        ensures
            b == self@.aligned(),
    {
        self.entities.len() == self.translations.len()
    }

    /// Builds this tick's snapshot from every avatar the world holds.
    pub fn capture(avatars: &Vec<Avatar>) -> (s: NetworkedEntities)
        ensures
            s@ == SnapshotView::of_avatars(avatars@),
            s@.aligned(),
    {
        let mut entities: Vec<ServerEntityId> = Vec::new();
        let mut translations: Vec<Translation> = Vec::new();
        let mut i: usize = 0;
        while i < avatars.len()
            invariant
                i <= avatars.len(),
                entities@.len() == i,
                translations@.len() == i,
                forall|k: int| 0 <= k < i ==> entities@[k] == avatars@[k].entity,
                forall|k: int| 0 <= k < i ==> translations@[k] == avatars@[k].translation,
            decreases avatars.len() - i,
        {
            entities.push(avatars[i].entity);
            translations.push(avatars[i].translation);
            i = i + 1;
        }
        let s = NetworkedEntities { entities, translations };
        assert(s@.entities =~= SnapshotView::of_avatars(avatars@).entities);
        assert(s@.translations =~= SnapshotView::of_avatars(avatars@).translations);
        s
    }
}

impl Default for NetworkedEntities {
    fn default() -> (s: NetworkedEntities)
        ensures
            s@.entities.len() == 0,
            s@.translations.len() == 0,
    {
        NetworkedEntities::new()
    }
}

} // verus!
