//! The game state and what one frame does to it.
use vstd::prelude::*;
use crate::components::{CombatStats, Entity, Point, Position, WantsToDropItem, WantsToRemoveItem, WantsToUseItem};
use crate::inventory::{
    drop_result, lemma_drops_upto_len, lemma_pickups_upto_len, lemma_removes_upto_len,
    pickup_result, remove_result, ItemCollectionSystem, ItemDropSystem,
    ItemRemoveSystem,
};
use crate::item_use::{lemma_uses_upto_len, use_result, ItemUseSystem};
use crate::map::DungeonMap;
use crate::run_state::{next_state, transition, RunState, TickAction, TickEvent};
use crate::text::{descend_line, descend_text, welcome_line, welcome_text};
use crate::world::{bare_entity, EntityView, World, WorldView};

verus! {

/// One pass of the item systems in their fixed order (pickup, use, drop,
/// unequip), then the removal of every entity marked for deletion.
pub open spec fn systems_result(w: WorldView, m: DungeonMap, blasts: Seq<Seq<Point>>) -> WorldView {
    remove_result(drop_result(use_result(pickup_result(w), m, blasts), m)).maintained()
}

/// An entity that does not follow the player to the next level: anything
/// alive but the player and what the player carries or wears.
pub open spec fn leaves_level(v: EntityView, player: Entity) -> bool {
    &&& v.alive
    &&& !v.player
    &&& !(v.in_backpack.is_some() && v.in_backpack.unwrap().owner == player)
    &&& !(v.equipped.is_some() && v.equipped.unwrap().owner == player)
}

/// The entities among the first `n` that stay behind on a level change, in order.
pub open spec fn level_leavers(w: WorldView, n: nat) -> Seq<Entity>
    decreases n,
{
    if n == 0 {
        Seq::empty()
    } else {
        let prev = level_leavers(w, (n - 1) as nat);
        if leaves_level(w.entities[n - 1], w.player) {
            prev.push(Entity { id: (n - 1) as usize })
        } else {
            prev
        }
    }
}

/// Each entity of `es` marked for deletion, in turn.
pub open spec fn mark_all(w: WorldView, es: Seq<Entity>) -> WorldView
    decreases es.len(),
{
    if es.len() == 0 {
        w
    } else {
        let prev = mark_all(w, es.drop_last());
        let e = es.last();
        if prev.has(e) {
            prev.with(e, EntityView { doomed: true, ..prev.ent(e) })
        } else {
            prev
        }
    }
}

/// Half of `m`, rounded toward zero.
pub open spec fn half(m: i32) -> int {
    if m >= 0 {
        m / 2
    } else {
        -((-m) / 2)
    }
}

/// The player's record on arrival at a new level: moved to `pos` if it has
/// a position, and with at least half of its maximum hit points.
pub open spec fn arrived(v: EntityView, pos: Position) -> EntityView {
    EntityView {
        position: if v.position.is_some() {
            Some(pos)
        } else {
            None
        },
        stats: match v.stats {
            Some(s) => Some(
                CombatStats { hp: if s.hp >= half(s.max_hp) { s.hp } else { half(s.max_hp) as i32 }, ..s },
            ),
            None => None,
        },
        ..v
    }
}

/// The world after a level change that puts the player on `pos`.
pub open spec fn next_level_world(w: WorldView, pos: Position) -> WorldView {
    let cleared = mark_all(w, level_leavers(w, w.len())).maintained();
    let moved = if cleared.has(w.player) {
        cleared.with(w.player, arrived(cleared.ent(w.player), pos))
    } else {
        cleared
    };
    moved.logged(descend_line())
}

/// The world of a new game before anything is spawned: every entity
/// removed and the log holding the welcome alone.
pub open spec fn reset_world(w: WorldView) -> WorldView {
    WorldView {
        entities: w.entities.map_values(
            |v: EntityView| if v.alive || v.doomed { bare_entity(v.name) } else { v },
        ),
        log: seq![welcome_line()],
        player: w.player,
    }
}

/// Entity `j` has died: it is alive, not the player, and out of hit points.
pub open spec fn has_died(w: WorldView, j: int) -> bool {
    let v = w.entities[j];
    v.alive && j != w.player.id && v.stats.is_some() && v.stats.unwrap().hp < 1
}

/// The world with every dead entity removed.
pub open spec fn purged(w: WorldView) -> WorldView {
    WorldView {
        entities: Seq::new(
            w.len(),
            |j: int| if has_died(w, j) { EntityView { doomed: true, ..w.entities[j] } } else { w.entities[j] },
        ),
        ..w
    }.maintained()
}

/// What an action that the library itself carries out does to the world.
pub open spec fn act(w: WorldView, m: DungeonMap, blasts: Seq<Seq<Point>>, a: TickAction) -> WorldView {
    match a {
        TickAction::RunSystems => systems_result(w, m, blasts),
        TickAction::UseItem { item, target } => if w.has(w.player) {
            w.with(w.player, EntityView { wants_use: Some(WantsToUseItem { item, target }), ..w.ent(w.player) })
        } else {
            w
        },
        TickAction::DropItem { item } => if w.has(w.player) {
            w.with(w.player, EntityView { wants_drop: Some(WantsToDropItem { item }), ..w.ent(w.player) })
        } else {
            w
        },
        TickAction::RemoveItem { item } => if w.has(w.player) {
            w.with(w.player, EntityView { wants_remove: Some(WantsToRemoveItem { item }), ..w.ent(w.player) })
        } else {
            w
        },
        _ => w,
    }
}

/// Intents last one turn: after each item system has run, no entity holds
/// an intent of the kind it handles, whether carrying it out succeeded or not.
pub proof fn lemma_intents_cleared(w: WorldView, m: DungeonMap, blasts: Seq<Seq<Point>>)
    requires
        w.len() <= usize::MAX,
    ensures
        forall|j: int|
            0 <= j < w.len() ==> (#[trigger] pickup_result(w).entities[j]).wants_pickup.is_none(),
        forall|j: int|
            0 <= j < w.len() ==> (#[trigger] use_result(w, m, blasts).entities[j]).wants_use.is_none(),
        forall|j: int|
            0 <= j < w.len() ==> (#[trigger] drop_result(w, m).entities[j]).wants_drop.is_none(),
        forall|j: int|
            0 <= j < w.len() ==> (#[trigger] remove_result(w).entities[j]).wants_remove.is_none(),
{
    lemma_pickups_upto_len(w, w.len());
    lemma_uses_upto_len(w, m, blasts, w.len());
    lemma_drops_upto_len(w, m, w.len());
    lemma_removes_upto_len(w, w.len());
}

/// The world, its map and the state of the turn state machine.
pub struct State {
    pub ecs: World,
    pub map: DungeonMap,
    pub run_state: RunState,
}

impl State {
    /// Runs the item systems once, `blasts[i]` being the field-of-view
    /// footprint of entity `i`'s use intent, then removes the entities
    /// marked for deletion.
    pub fn run_systems(&mut self, blasts: &Vec<Vec<Point>>)
        requires
            old(self).map.wf(),
            blasts@.len() == old(self).ecs@.len(),
        ensures
            final(self).ecs@ == systems_result(
                old(self).ecs@,
                old(self).map,
                blasts@.map_values(|b: Vec<Point>| b@),
            ),
            final(self).map == old(self).map,
            final(self).run_state == old(self).run_state,
    {
        let mut pickup = ItemCollectionSystem {};
        pickup.run(&mut self.ecs);
        let mut use_items = ItemUseSystem {};
        use_items.run(&mut self.ecs, &self.map, blasts);
        let mut drop_items = ItemDropSystem {};
        drop_items.run(&mut self.ecs, &self.map);
        let mut item_remove = ItemRemoveSystem {};
        item_remove.run(&mut self.ecs);
        self.ecs.maintain();
    }

    /// Every entity that a level change removes: all but the player and
    /// what the player carries or wears.
    pub fn entities_to_remove_on_level_change(&self) -> (r: Vec<Entity>)
        ensures
            r@ == level_leavers(self.ecs@, self.ecs@.len()),
    {
        let n = self.ecs.entities.len();
        let player = self.ecs.player;
        let mut to_delete: Vec<Entity> = Vec::new();
        let mut i: usize = 0;
        while i < n
            invariant
                n == self.ecs@.len(),
                player == self.ecs@.player,
                0 <= i <= n,
                to_delete@ == level_leavers(self.ecs@, i as nat),
            decreases n - i,
        {
            let v = &self.ecs.entities[i];
            let carried = match v.in_backpack {
                Some(b) => b.owner == player,
                None => false,
            };
            let worn = match v.equipped {
                Some(e) => e.owner == player,
                None => false,
            };
            if v.alive && !v.player && !carried && !worn {
                to_delete.push(Entity { id: i });
            }
            i += 1;
        }
        to_delete
    }

    /// Moves the game to the next level: removes what does not follow the
    /// player, installs `new_map`, puts the player on `player_pos`, logs the
    /// descent and restores the player to at least half of its maximum hit
    /// points.
    pub fn goto_next_level(&mut self, new_map: DungeonMap, player_pos: Position)
        ensures
            final(self).ecs@ == next_level_world(old(self).ecs@, player_pos),
            final(self).map == new_map,
            final(self).run_state == old(self).run_state,
    {
        let to_delete = self.entities_to_remove_on_level_change();
        let ghost w0 = self.ecs@;
        let mut k: usize = 0;
        while k < to_delete.len()
            invariant
                0 <= k <= to_delete@.len(),
                self.ecs@ == mark_all(w0, to_delete@.subrange(0, k as int)),
                self.ecs@.player == w0.player,
                w0 == old(self).ecs@,
                self.run_state == old(self).run_state,
            decreases to_delete@.len() - k,
        {
            proof {
                assert(to_delete@.subrange(0, k + 1).drop_last() =~= to_delete@.subrange(0, k as int));
            }
            let e = to_delete[k];
            if e.id < self.ecs.entities.len() {
                self.ecs.delete(e);
            }
            k += 1;
        }
        assert(to_delete@.subrange(0, to_delete@.len() as int) =~= to_delete@);
        self.ecs.maintain();
        self.map = new_map;
        let ghost cleared = self.ecs@;
        let player = self.ecs.player;
        if player.id < self.ecs.entities.len() {
            let stats = self.ecs.entities[player.id].stats;
            if self.ecs.entities[player.id].position.is_some() {
                let bp = self.ecs.entities[player.id].in_backpack;
                let eq = self.ecs.entities[player.id].equipped;
                self.ecs.relocate(player, Some(player_pos), bp, eq);
            }
            if stats.is_some() {
                let s = stats.unwrap();
                let half_hp: i32 = if s.max_hp >= 0 {
                    s.max_hp / 2
                } else {
                    -((-(s.max_hp as i64)) / 2) as i32
                };
                let hp = if s.hp >= half_hp {
                    s.hp
                } else {
                    half_hp
                };
                assert(half_hp == half(s.max_hp));
                self.ecs.set_stats(player, Some(CombatStats { hp, ..s }));
            }
            assert(self.ecs@.entities =~= cleared.with(
                player,
                arrived(cleared.ent(player), player_pos),
            ).entities);
        }
        self.ecs.push_log(descend_text());
    }

    /// Starts a new game: removes every entity, installs `new_map` and
    /// resets the log to the welcome line. Spawning comes after.
    pub fn game_reset(&mut self, new_map: DungeonMap)
        ensures
            final(self).ecs@ == reset_world(old(self).ecs@),
            final(self).map == new_map,
            final(self).run_state == old(self).run_state,
    {
        let n = self.ecs.entities.len();
        let mut i: usize = 0;
        while i < n
            invariant
                n == self.ecs@.len(),
                n == old(self).ecs@.len(),
                0 <= i <= n,
                self.ecs@.log == old(self).ecs@.log,
                self.ecs@.player == old(self).ecs@.player,
                self.run_state == old(self).run_state,
                forall|j: int|
                    0 <= j < i ==> self.ecs@.entities[j] == (if old(self).ecs@.entities[j].alive {
                        EntityView { doomed: true, ..old(self).ecs@.entities[j] }
                    } else {
                        old(self).ecs@.entities[j]
                    }),
                forall|j: int| i <= j < n ==> self.ecs@.entities[j] == old(self).ecs@.entities[j],
            decreases n - i,
        {
            let ghost prev = self.ecs@;
            if self.ecs.entities[i].alive {
                self.ecs.delete(Entity { id: i });
            }
            proof {
                assert forall|j: int| 0 <= j < i implies self.ecs@.entities[j] == (if old(
                    self,
                ).ecs@.entities[j].alive {
                    EntityView { doomed: true, ..old(self).ecs@.entities[j] }
                } else {
                    old(self).ecs@.entities[j]
                }) by {
                    assert(self.ecs@.entities[j] == prev.entities[j]);
                }
            }
            i += 1;
        }
        self.ecs.maintain();
        self.map = new_map;
        self.ecs.log = Vec::new();
        self.ecs.push_log(welcome_text());
        proof {
            assert(self.ecs@.entities =~= reset_world(old(self).ecs@).entities);
            assert(self.ecs@.log =~= seq![welcome_line()]);
        }
    }

    /// Removes every entity other than the player that has run out of hit
    /// points.
    pub fn delete_the_dead(&mut self)
        ensures
            final(self).ecs@ == purged(old(self).ecs@),
            final(self).map == old(self).map,
            final(self).run_state == old(self).run_state,
    {
        let n = self.ecs.entities.len();
        let ghost w0 = self.ecs@;
        let mut i: usize = 0;
        while i < n
            invariant
                n == self.ecs@.len(),
                n == w0.len(),
                w0 == old(self).ecs@,
                0 <= i <= n,
                self.ecs@.log == w0.log,
                self.ecs@.player == w0.player,
                self.map == old(self).map,
                self.run_state == old(self).run_state,
                forall|j: int|
                    0 <= j < i ==> self.ecs@.entities[j] == (if has_died(w0, j) {
                        EntityView { doomed: true, ..w0.entities[j] }
                    } else {
                        w0.entities[j]
                    }),
                forall|j: int| i <= j < n ==> self.ecs@.entities[j] == w0.entities[j],
            decreases n - i,
        {
            let ghost prev = self.ecs@;
            let dies = match self.ecs.entities[i].stats {
                Some(s) => s.hp < 1,
                None => false,
            };
            if self.ecs.entities[i].alive && i != self.ecs.player.id && dies {
                self.ecs.delete(Entity { id: i });
            }
            proof {
                assert forall|j: int| 0 <= j < i implies self.ecs@.entities[j] == (if has_died(
                    w0,
                    j,
                ) {
                    EntityView { doomed: true, ..w0.entities[j] }
                } else {
                    w0.entities[j]
                }) by {
                    assert(self.ecs@.entities[j] == prev.entities[j]);
                }
            }
            i += 1;
        }
        proof {
            let marked = WorldView {
                entities: Seq::new(
                    w0.len(),
                    |j: int| if has_died(w0, j) { EntityView { doomed: true, ..w0.entities[j] } } else { w0.entities[j] },
                ),
                ..w0
            };
            assert(self.ecs@.entities =~= marked.entities);
        }
        self.ecs.maintain();
    }

    /// One frame: decides the next state from the current one and `event`,
    /// carries out what the library can of the resulting action (running
    /// the systems, or giving the player an intent), removes the dead, and
    /// returns the action so that the caller does the rest (a new level, a
    /// new game, saving, loading, quitting).
    pub fn tick(&mut self, event: TickEvent, blasts: &Vec<Vec<Point>>) -> (r: TickAction)
        requires
            old(self).map.wf(),
            blasts@.len() == old(self).ecs@.len(),
        ensures
            r == transition(old(self).run_state, event, old(self).ecs@).1,
            final(self).run_state == transition(old(self).run_state, event, old(self).ecs@).0,
            final(self).ecs@ == purged(
                act(old(self).ecs@, old(self).map, blasts@.map_values(|b: Vec<Point>| b@), r),
            ),
            final(self).map == old(self).map,
    {
        let (next, action) = next_state(self.run_state, event, &self.ecs);
        let player = self.ecs.player;
        let has_player = player.id < self.ecs.entities.len();
        match action {
            TickAction::RunSystems => {
                self.run_systems(blasts);
            },
            TickAction::UseItem { item, target } => {
                if has_player {
                    self.ecs.set_wants_use(player, Some(WantsToUseItem { item, target }));
                }
            },
            TickAction::DropItem { item } => {
                if has_player {
                    self.ecs.set_wants_drop(player, Some(WantsToDropItem { item }));
                }
            },
            TickAction::RemoveItem { item } => {
                if has_player {
                    self.ecs.set_wants_remove(player, Some(WantsToRemoveItem { item }));
                }
            },
            _ => {},
        }
        self.run_state = next;
        self.delete_the_dead();
        action
    }
}

} // verus!
