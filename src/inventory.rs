//! Pickup, drop and unequip: each system turns one kind of intent into moves
//! of items between the map, backpacks and equipment, then clears all
//! intents of that kind.
use vstd::prelude::*;
use crate::components::{Entity, InBackpack, Point, Position, WantsToDropItem};
use crate::map::DungeonMap;
use crate::text::{
    cannot_drop_line, cannot_drop_text, drop_line, drop_text, pickup_line, pickup_text,
};
use crate::world::{EntityView, World, WorldView};

verus! {

/// What the pickup intent of entity `i` does, if it has one.
pub open spec fn pickup_at(w: WorldView, i: nat) -> WorldView {
    let v = w.ent(Entity { id: i as usize });
    match v.wants_pickup {
        Some(pk) => if v.alive && w.has(pk.item) {
            let w2 = w.with(
                pk.item,
                EntityView {
                    position: None,
                    in_backpack: Some(InBackpack { owner: pk.collected_by }),
                    ..w.ent(pk.item)
                },
            );
            if pk.collected_by == w.player {
                w2.logged(pickup_line(w.ent(pk.item).name))
            } else {
                w2
            }
        } else {
            w
        },
        None => w,
    }
}

/// The pickup intents of the first `n` entities carried out in order.
pub open spec fn pickups_upto(w: WorldView, n: nat) -> WorldView
    decreases n,
{
    if n == 0 {
        w
    } else {
        pickup_at(pickups_upto(w, (n - 1) as nat), (n - 1) as nat)
    }
}

/// One turn of the pickup system.
pub open spec fn pickup_result(w: WorldView) -> WorldView {
    pickups_upto(w, w.len()).without_pickup_intents()
}

/// What the unequip intent of entity `i` does, if it has one.
pub open spec fn remove_at(w: WorldView, i: nat) -> WorldView {
    let e = Entity { id: i as usize };
    let v = w.ent(e);
    match v.wants_remove {
        Some(rm) => if v.alive && w.has(rm.item) {
            w.with(
                rm.item,
                EntityView {
                    equipped: None,
                    in_backpack: Some(InBackpack { owner: e }),
                    ..w.ent(rm.item)
                },
            )
        } else {
            w
        },
        None => w,
    }
}

pub open spec fn removes_upto(w: WorldView, n: nat) -> WorldView
    decreases n,
{
    if n == 0 {
        w
    } else {
        remove_at(removes_upto(w, (n - 1) as nat), (n - 1) as nat)
    }
}

/// One turn of the unequip system.
pub open spec fn remove_result(w: WorldView) -> WorldView {
    removes_upto(w, w.len()).without_remove_intents()
}

/// What the drop intent of entity `i` does, if it has one. The item goes to
/// the dropper's tile unless that tile already holds more than one entity;
/// then the item stays where it was and the player is told.
pub open spec fn drop_at(w: WorldView, m: DungeonMap, i: nat) -> WorldView {
    let e = Entity { id: i as usize };
    let v = w.ent(e);
    match v.wants_drop {
        Some(d) => match v.position {
            Some(pos) => if v.alive && w.has(d.item) && m.in_bounds(
                Point { x: pos.x, y: pos.y },
            ) {
                if m.tile(Point { x: pos.x, y: pos.y }).len() > 1 {
                    if e == w.player {
                        w.logged(cannot_drop_line(w.ent(d.item).name))
                    } else {
                        w
                    }
                } else {
                    let w2 = w.with(
                        d.item,
                        EntityView { position: Some(pos), in_backpack: None, ..w.ent(d.item) },
                    );
                    if e == w.player {
                        w2.logged(drop_line(w.ent(d.item).name))
                    } else {
                        w2
                    }
                }
            } else {
                w
            },
            None => w,
        },
        None => w,
    }
}

pub open spec fn drops_upto(w: WorldView, m: DungeonMap, n: nat) -> WorldView
    decreases n,
{
    if n == 0 {
        w
    } else {
        drop_at(drops_upto(w, m, (n - 1) as nat), m, (n - 1) as nat)
    }
}

/// One turn of the drop system.
pub open spec fn drop_result(w: WorldView, m: DungeonMap) -> WorldView {
    drops_upto(w, m, w.len()).without_drop_intents()
}

pub proof fn lemma_pickups_upto_len(w: WorldView, n: nat)
    ensures
        pickups_upto(w, n).len() == w.len(),
    decreases n,
{
    if n > 0 {
        lemma_pickups_upto_len(w, (n - 1) as nat);
    }
}

pub proof fn lemma_removes_upto_len(w: WorldView, n: nat)
    ensures
        removes_upto(w, n).len() == w.len(),
    decreases n,
{
    if n > 0 {
        lemma_removes_upto_len(w, (n - 1) as nat);
    }
}

pub proof fn lemma_drops_upto_len(w: WorldView, m: DungeonMap, n: nat)
    ensures
        drops_upto(w, m, n).len() == w.len(),
    decreases n,
{
    if n > 0 {
        lemma_drops_upto_len(w, m, (n - 1) as nat);
    }
}

/// Dropping onto a tile that already holds two or more entities (the
/// dropper among them) is refused: no entity changes, so the item stays in
/// the backpack, and the log gains the refusal exactly when the dropper is
/// the player.
pub proof fn lemma_drop_refused(
    w: WorldView,
    m: DungeonMap,
    dropper: Entity,
    item: Entity,
    pos: Position,
)
    requires
        w.has(dropper),
        w.has(item),
        dropper.id <= usize::MAX,
        w.ent(dropper).alive,
        w.ent(dropper).wants_drop == Some(WantsToDropItem { item }),
        w.ent(dropper).position == Some(pos),
        m.in_bounds(Point { x: pos.x, y: pos.y }),
        m.tile(Point { x: pos.x, y: pos.y }).len() >= 2,
    ensures
        ({
            let after = drop_at(w, m, dropper.id as nat);
            &&& after.entities == w.entities
            &&& after.ent(item).in_backpack == w.ent(item).in_backpack
            &&& after.log == (if dropper == w.player {
                w.log.push(cannot_drop_line(w.ent(item).name))
            } else {
                w.log
            })
        }),
{
    assert(Entity { id: dropper.id as nat as usize } == dropper);
}

pub struct ItemCollectionSystem {}

impl ItemCollectionSystem {
    /// Carries out every pickup intent: the item leaves the map for the
    /// collector's backpack. Then clears all pickup intents.
    pub fn run(&mut self, world: &mut World)
        ensures
            final(world)@ == pickup_result(old(world)@),
            final(world)@.len() == old(world)@.len(),
    {
        let n = world.entities.len();
        let mut i: usize = 0;
        while i < n
            invariant
                n == old(world)@.len(),
                n == world@.len(),
                0 <= i <= n,
                world@ == pickups_upto(old(world)@, i as nat),
            decreases n - i,
        {
            let ghost before = world@;
            if world.entities[i].alive && world.entities[i].wants_pickup.is_some() {
                let pk = world.entities[i].wants_pickup.unwrap();
                if pk.item.id < n {
                    let equipped = world.entities[pk.item.id].equipped;
                    let line = pickup_text(&world.entities[pk.item.id].name);
                    world.relocate(pk.item, None, Some(InBackpack { owner: pk.collected_by }), equipped);
                    if pk.collected_by == world.player {
                        world.push_log(line);
                    }
                }
            }
            proof {
                assert(world@ == pickup_at(before, i as nat));
            }
            i += 1;
        }
        world.clear_pickup_intents();
    }
}

pub struct ItemRemoveSystem {}

impl ItemRemoveSystem {
    /// Carries out every unequip intent: the item goes from its slot to the
    /// backpack of the entity that asked. Then clears all unequip intents.
    pub fn run(&mut self, world: &mut World)
        ensures
            final(world)@ == remove_result(old(world)@),
            final(world)@.len() == old(world)@.len(),
    {
        let n = world.entities.len();
        let mut i: usize = 0;
        while i < n
            invariant
                n == old(world)@.len(),
                n == world@.len(),
                0 <= i <= n,
                world@ == removes_upto(old(world)@, i as nat),
            decreases n - i,
        {
            let ghost before = world@;
            if world.entities[i].alive && world.entities[i].wants_remove.is_some() {
                let rm = world.entities[i].wants_remove.unwrap();
                if rm.item.id < n {
                    let position = world.entities[rm.item.id].position;
                    world.relocate(rm.item, position, Some(InBackpack { owner: Entity { id: i } }), None);
                }
            }
            proof {
                assert(world@ == remove_at(before, i as nat));
            }
            i += 1;
        }
        world.clear_remove_intents();
    }
}

pub struct ItemDropSystem {}

impl ItemDropSystem {
    /// Carries out every drop intent, refusing those onto a tile that already
    /// holds more than one entity. Then clears all drop intents.
    pub fn run(&mut self, world: &mut World, map: &DungeonMap)
        requires
            map.wf(),
        ensures
            final(world)@ == drop_result(old(world)@, *map),
            final(world)@.len() == old(world)@.len(),
    {
        let n = world.entities.len();
        let mut i: usize = 0;
        while i < n
            invariant
                map.wf(),
                n == old(world)@.len(),
                n == world@.len(),
                0 <= i <= n,
                world@ == drops_upto(old(world)@, *map, i as nat),
            decreases n - i,
        {
            let ghost before = world@;
            let e = Entity { id: i };
            if world.entities[i].alive && world.entities[i].wants_drop.is_some()
                && world.entities[i].position.is_some() {
                let d = world.entities[i].wants_drop.unwrap();
                let pos = world.entities[i].position.unwrap();
                if d.item.id < n && 0 <= pos.x && pos.x < map.width && 0 <= pos.y && pos.y
                    < map.height {
                    let idx = map.xy_idx(pos.x, pos.y);
                    if map.tile_content[idx].len() > 1 {
                        if e == world.player {
                            let line = cannot_drop_text(&world.entities[d.item.id].name);
                            world.push_log(line);
                        }
                    } else {
                        let equipped = world.entities[d.item.id].equipped;
                        let line = drop_text(&world.entities[d.item.id].name);
                        world.relocate(d.item, Some(pos), None, equipped);
                        if e == world.player {
                            world.push_log(line);
                        }
                    }
                }
            }
            proof {
                assert(world@ == drop_at(before, *map, i as nat));
            }
            i += 1;
        }
        world.clear_drop_intents();
    }
}

} // verus!
