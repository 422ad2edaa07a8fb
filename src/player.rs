use vstd::prelude::*;

use crate::boat::{Boat, BoatView};

verus! {

/// The fleet of one side.
#[derive(Debug)]
pub struct Player {
    pub boats: Vec<Boat>,
}

/// The models of a sequence of ships.
pub open spec fn fleet_view(boats: Seq<Boat>) -> Seq<BoatView> {
    boats.map_values(|b: Boat| b@)
}

/// Every ship of the fleet is dead.
pub open spec fn fleet_dead(fleet: Seq<BoatView>) -> bool {
    forall|i: int| 0 <= i < fleet.len() ==> #[trigger] fleet[i].is_dead()
}

impl View for Player {
    type V = Seq<BoatView>;

    open spec fn view(&self) -> Seq<BoatView> {
        fleet_view(self.boats@)
    }
}

impl Player {
    pub fn new(boats: Vec<Boat>) -> (r: Player)
        ensures
            r.boats@ == boats@,
    {
        Player { boats }
    }

    /// Whether every ship of the fleet is dead.
    pub fn is_dead(&self) -> (r: bool)
        ensures
            r == fleet_dead(self@),
    {
        let mut i: usize = 0;
        while i < self.boats.len()
            invariant
                i <= self.boats@.len(),
                forall|j: int| 0 <= j < i ==> #[trigger] self@[j].is_dead(),
            decreases self.boats@.len() - i,
        {
            if !self.boats[i].is_dead() {
                assert(!self@[i as int].is_dead());
                return false;
            }
            i = i + 1;
        }
        true
    }
}

} // verus!
