//! Monsters that can see the player.
use vstd::prelude::*;
use crate::components::{Entity, Point};
use crate::world::{World, WorldView};

verus! {

/// Entity `i` is a live monster with a position whose field of view holds
/// the player's tile.
pub open spec fn sees_player(w: WorldView, visible: Seq<Seq<Point>>, player_pos: Point, i: int) -> bool {
    let v = w.entities[i];
    v.alive && v.monster && v.position.is_some() && visible[i].contains(player_pos)
}

/// The monsters among the first `n` entities that see the player, in order.
pub open spec fn watchers_upto(w: WorldView, visible: Seq<Seq<Point>>, player_pos: Point, n: nat) -> Seq<Entity>
    decreases n,
{
    if n == 0 {
        Seq::empty()
    } else {
        let prev = watchers_upto(w, visible, player_pos, (n - 1) as nat);
        if sees_player(w, visible, player_pos, n - 1) {
            prev.push(Entity { id: (n - 1) as usize })
        } else {
            prev
        }
    }
}

/// `p` is one of the tiles of `tiles`.
fn holds_point(tiles: &Vec<Point>, p: Point) -> (r: bool)
    ensures
        r == tiles@.contains(p),
{
    let mut i: usize = 0;
    while i < tiles.len()
        invariant
            0 <= i <= tiles@.len(),
            forall|j: int| 0 <= j < i ==> tiles@[j] != p,
        decreases tiles@.len() - i,
    {
        if tiles[i] == p {
            assert(tiles@[i as int] == p);
            return true;
        }
        i += 1;
    }
    false
}

pub struct MonsterAI {}

impl MonsterAI {
    /// The monsters that see the player standing on `player_pos`, in entity
    /// order; `visible[i]` is the field of view of entity `i`. Each of them
    /// shouts insults at the player.
    pub fn run(&mut self, world: &World, player_pos: Point, visible: &Vec<Vec<Point>>) -> (r: Vec<Entity>)
        requires
            visible@.len() == world@.len(),
        ensures
            r@ == watchers_upto(
                world@,
                visible@.map_values(|t: Vec<Point>| t@),
                player_pos,
                world@.len(),
            ),
    {
        let ghost vis = visible@.map_values(|t: Vec<Point>| t@);
        let n = world.entities.len();
        let mut out: Vec<Entity> = Vec::new();
        let mut i: usize = 0;
        while i < n
            invariant
                n == world@.len(),
                visible@.len() == n,
                vis == visible@.map_values(|t: Vec<Point>| t@),
                0 <= i <= n,
                out@ == watchers_upto(world@, vis, player_pos, i as nat),
            decreases n - i,
        {
            let d = &world.entities[i];
            if d.alive && d.monster && d.position.is_some() && holds_point(&visible[i], player_pos) {
                out.push(Entity { id: i });
            }
            i += 1;
        }
        out
    }
}

} // verus!
