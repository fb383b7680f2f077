//! Which entities of two snapshots a client blends between.
use crate::snapshot::{PickupSnapshot, PlayerSnapshot, Snapshot};
use vstd::prelude::*;

verus! {

/// The first position in `ids` holding `id`.
pub open spec fn first_index_of(ids: Seq<u8>, id: u8) -> Option<int>
    decreases ids.len(),
{
    if ids.len() == 0 {
        None
    } else if ids[0] == id {
        Some(0)
    } else {
        match first_index_of(ids.drop_first(), id) {
            Some(i) => Some(i + 1),
            None => None,
        }
    }
}

/// The position of the first element of `ids` equal to `id`.
fn find_id(ids: &Vec<u8>, id: u8) -> (r: Option<usize>)
    ensures
        match first_index_of(ids@, id) {
            Some(i) => r == Some(i as usize),
            None => r is None,
        },
{
    let mut i: usize = 0;
    assert(ids@.skip(0) =~= ids@);
    while i < ids.len()
        invariant
            i <= ids@.len(),
            first_index_of(ids@, id) == match first_index_of(ids@.skip(i as int), id) {
                Some(k) => Some(k + i),
                None => None::<int>,
            },
        decreases ids@.len() - i,
    {
        proof {
            assert(ids@.skip(i as int).drop_first() =~= ids@.skip(i + 1));
        }
        if ids[i] == id {
            assert(ids@.skip(i as int)[0] == id);
            return Some(i);
        }
        i = i + 1;
    }
    None
}

/// The ids of a list of players.
pub open spec fn player_id_seq(ps: Seq<PlayerSnapshot>) -> Seq<u8> {
    ps.map_values(|p: PlayerSnapshot| p.id)
}

/// The ids of a list of pickups.
pub open spec fn pickup_id_seq(ps: Seq<PickupSnapshot>) -> Seq<u8> {
    ps.map_values(|p: PickupSnapshot| p.id)
}

impl Snapshot {
    /// For each player of this snapshot, the player of `to` it blends
    /// towards: the first with its id; none for `ignore_player_id`, the
    /// local player, whom prediction moves instead.
    pub fn player_partners(&self, to: &Snapshot, ignore_player_id: u8) -> (r: Vec<Option<usize>>)
        ensures
            r@.len() == self.players@.len(),
            forall|i: int| 0 <= i < r@.len() ==> #[trigger] r@[i] == if self.players@[i].id == ignore_player_id {
                None
            } else {
                match first_index_of(player_id_seq(to.players@), self.players@[i].id) {
                    Some(j) => Some(j as usize),
                    None => None,
                }
            },
    {
        let to_ids = to.player_ids();
        assert(to_ids@ =~= player_id_seq(to.players@));
        let mut out: Vec<Option<usize>> = Vec::new();
        let mut i: usize = 0;
        while i < self.players.len()
            invariant
                i <= self.players@.len(),
                to_ids@ == player_id_seq(to.players@),
                out@.len() == i,
                forall|k: int| 0 <= k < i ==> #[trigger] out@[k] == if self.players@[k].id == ignore_player_id {
                    None
                } else {
                    match first_index_of(player_id_seq(to.players@), self.players@[k].id) {
                        Some(j) => Some(j as usize),
                        None => None,
                    }
                },
            decreases self.players@.len() - i,
        {
            let id = self.players[i].id;
            if id == ignore_player_id {
                out.push(None);
            } else {
                out.push(find_id(&to_ids, id));
            }
            i = i + 1;
        }
        out
    }

    /// For each pickup of this snapshot, the pickup of `to` it blends
    /// towards: the first with its id.
    pub fn pickup_partners(&self, to: &Snapshot) -> (r: Vec<Option<usize>>)
        ensures
            r@.len() == self.pickups@.len(),
            forall|i: int| 0 <= i < r@.len() ==> #[trigger] r@[i] == match first_index_of(
                pickup_id_seq(to.pickups@),
                self.pickups@[i].id,
            ) {
                Some(j) => Some(j as usize),
                None => None,
            },
    {
        let to_ids = to.pickup_ids();
        assert(to_ids@ =~= pickup_id_seq(to.pickups@));
        let mut out: Vec<Option<usize>> = Vec::new();
        let mut i: usize = 0;
        while i < self.pickups.len()
            invariant
                i <= self.pickups@.len(),
                to_ids@ == pickup_id_seq(to.pickups@),
                out@.len() == i,
                forall|k: int| 0 <= k < i ==> #[trigger] out@[k] == match first_index_of(
                    pickup_id_seq(to.pickups@),
                    self.pickups@[k].id,
                ) {
                    Some(j) => Some(j as usize),
                    None => None,
                },
            decreases self.pickups@.len() - i,
        {
            out.push(find_id(&to_ids, self.pickups[i].id));
            i = i + 1;
        }
        out
    }
}

} // verus!
