//! The component registry: one record per entity, each component optional.
//! Deletion is deferred: `delete` only marks an entity, and `maintain`
//! removes the marked ones at the end of a turn.
use vstd::prelude::*;
use crate::components::{
    AreaOfEffect, CombatStats, Confusion, Consumable, Entity, Equippable, Equipped, InBackpack,
    InflictsDamage, Position, ProvidesHealing, Ranged, WantsToDropItem, WantsToPickupItem,
    WantsToRemoveItem, WantsToUseItem,
};

verus! {

/// Damage queued against an entity during a turn, one amount per hit.
pub struct SufferDamage {
    pub amounts: Vec<i32>,
}

/// Everything attached to one entity.
pub struct EntityData {
    pub alive: bool,
    pub doomed: bool,
    pub name: String,
    pub player: bool,
    pub monster: bool,
    pub position: Option<Position>,
    pub stats: Option<CombatStats>,
    pub consumable: Option<Consumable>,
    pub healing: Option<ProvidesHealing>,
    pub inflicts_damage: Option<InflictsDamage>,
    pub confusion: Option<Confusion>,
    pub area_of_effect: Option<AreaOfEffect>,
    pub ranged: Option<Ranged>,
    pub equippable: Option<Equippable>,
    pub equipped: Option<Equipped>,
    pub in_backpack: Option<InBackpack>,
    pub suffer_damage: Option<SufferDamage>,
    pub wants_pickup: Option<WantsToPickupItem>,
    pub wants_use: Option<WantsToUseItem>,
    pub wants_drop: Option<WantsToDropItem>,
    pub wants_remove: Option<WantsToRemoveItem>,
}

/// The mathematical value of an `EntityData`.
pub struct EntityView {
    pub alive: bool,
    pub doomed: bool,
    pub name: Seq<char>,
    pub player: bool,
    pub monster: bool,
    pub position: Option<Position>,
    pub stats: Option<CombatStats>,
    pub consumable: Option<Consumable>,
    pub healing: Option<ProvidesHealing>,
    pub inflicts_damage: Option<InflictsDamage>,
    pub confusion: Option<Confusion>,
    pub area_of_effect: Option<AreaOfEffect>,
    pub ranged: Option<Ranged>,
    pub equippable: Option<Equippable>,
    pub equipped: Option<Equipped>,
    pub in_backpack: Option<InBackpack>,
    pub suffer_damage: Option<Seq<i32>>,
    pub wants_pickup: Option<WantsToPickupItem>,
    pub wants_use: Option<WantsToUseItem>,
    pub wants_drop: Option<WantsToDropItem>,
    pub wants_remove: Option<WantsToRemoveItem>,
}

impl View for EntityData {
    type V = EntityView;

    open spec fn view(&self) -> EntityView {
        EntityView {
            alive: self.alive,
            doomed: self.doomed,
            name: self.name@,
            player: self.player,
            monster: self.monster,
            position: self.position,
            stats: self.stats,
            consumable: self.consumable,
            healing: self.healing,
            inflicts_damage: self.inflicts_damage,
            confusion: self.confusion,
            area_of_effect: self.area_of_effect,
            ranged: self.ranged,
            equippable: self.equippable,
            equipped: self.equipped,
            in_backpack: self.in_backpack,
            suffer_damage: match self.suffer_damage {
                Some(d) => Some(d.amounts@),
                None => None,
            },
            wants_pickup: self.wants_pickup,
            wants_use: self.wants_use,
            wants_drop: self.wants_drop,
            wants_remove: self.wants_remove,
        }
    }
}

/// The damage queue after one more hit of `amount`.
pub open spec fn queued_damage(q: Option<Seq<i32>>, amount: i32) -> Seq<i32> {
    match q {
        Some(s) => s.push(amount),
        None => seq![amount],
    }
}

/// A record with the given name and no components, not yet alive.
pub open spec fn bare_entity(name: Seq<char>) -> EntityView {
    EntityView {
        alive: false,
        doomed: false,
        name: name,
        player: false,
        monster: false,
        position: None,
        stats: None,
        consumable: None,
        healing: None,
        inflicts_damage: None,
        confusion: None,
        area_of_effect: None,
        ranged: None,
        equippable: None,
        equipped: None,
        in_backpack: None,
        suffer_damage: None,
        wants_pickup: None,
        wants_use: None,
        wants_drop: None,
        wants_remove: None,
    }
}

impl EntityData {
    /// A record with the given name and no components.
    pub fn new(name: String) -> (r: EntityData)
        ensures
            r@ == bare_entity(name@),
    {
        EntityData {
            alive: false,
            doomed: false,
            name,
            player: false,
            monster: false,
            position: None,
            stats: None,
            consumable: None,
            healing: None,
            inflicts_damage: None,
            confusion: None,
            area_of_effect: None,
            ranged: None,
            equippable: None,
            equipped: None,
            in_backpack: None,
            suffer_damage: None,
            wants_pickup: None,
            wants_use: None,
            wants_drop: None,
            wants_remove: None,
        }
    }
}

/// The registry, the message log and the player-controlled entity.
pub struct World {
    pub entities: Vec<EntityData>,
    pub log: Vec<String>,
    pub player: Entity,
}

/// The mathematical value of a `World`.
pub struct WorldView {
    pub entities: Seq<EntityView>,
    pub log: Seq<Seq<char>>,
    pub player: Entity,
}

impl View for World {
    type V = WorldView;

    open spec fn view(&self) -> WorldView {
        WorldView {
            entities: self.entities@.map_values(|d: EntityData| d@),
            log: self.log@.map_values(|s: String| s@),
            player: self.player,
        }
    }
}

impl WorldView {
    pub open spec fn len(self) -> nat {
        self.entities.len()
    }

    pub open spec fn has(self, e: Entity) -> bool {
        e.id < self.entities.len()
    }

    pub open spec fn ent(self, e: Entity) -> EntityView {
        self.entities[e.id as int]
    }

    pub open spec fn is_live(self, e: Entity) -> bool {
        self.has(e) && self.ent(e).alive
    }

    /// The world with entity `e`'s record replaced.
    pub open spec fn with(self, e: Entity, v: EntityView) -> WorldView {
        WorldView { entities: self.entities.update(e.id as int, v), ..self }
    }

    /// The world with one more line at the end of the log.
    pub open spec fn logged(self, line: Seq<char>) -> WorldView {
        WorldView { log: self.log.push(line), ..self }
    }

    /// Every `wants_pickup` intent removed.
    pub open spec fn without_pickup_intents(self) -> WorldView {
        WorldView {
            entities: self.entities.map_values(|v: EntityView| EntityView { wants_pickup: None, ..v }),
            ..self
        }
    }

    /// Every `wants_use` intent removed.
    pub open spec fn without_use_intents(self) -> WorldView {
        WorldView {
            entities: self.entities.map_values(|v: EntityView| EntityView { wants_use: None, ..v }),
            ..self
        }
    }

    /// Every `wants_drop` intent removed.
    pub open spec fn without_drop_intents(self) -> WorldView {
        WorldView {
            entities: self.entities.map_values(|v: EntityView| EntityView { wants_drop: None, ..v }),
            ..self
        }
    }

    /// Every `wants_remove` intent removed.
    pub open spec fn without_remove_intents(self) -> WorldView {
        WorldView {
            entities: self.entities.map_values(|v: EntityView| EntityView { wants_remove: None, ..v }),
            ..self
        }
    }

    /// Every entity marked for deletion removed: its record emptied and no longer alive.
    pub open spec fn maintained(self) -> WorldView {
        WorldView {
            entities: self.entities.map_values(
                |v: EntityView| if v.doomed { bare_entity(v.name) } else { v },
            ),
            ..self
        }
    }
}

impl World {
    /// An empty world whose player entity is yet to be spawned.
    pub fn new() -> (w: World)
        ensures
            w@.entities.len() == 0,
            w@.log.len() == 0,
            w@.player == (Entity { id: 0 }),
    {
        World { entities: Vec::new(), log: Vec::new(), player: Entity { id: 0 } }
    }

    /// Adds a live entity holding the components of `data`.
    pub fn spawn(&mut self, data: EntityData) -> (e: Entity)
        requires
            old(self).entities.len() < usize::MAX,
        ensures
            e.id == old(self)@.len(),
            final(self)@.entities == old(self)@.entities.push(
                EntityView { alive: true, doomed: false, ..data@ },
            ),
            final(self)@.log == old(self)@.log,
            final(self)@.player == old(self)@.player,
    {
        let mut data = data;
        data.alive = true;
        data.doomed = false;
        let e = Entity { id: self.entities.len() };
        self.entities.push(data);
        proof {
            assert(self@.entities =~= old(self)@.entities.push(
                EntityView { alive: true, doomed: false, ..data@ },
            ));
        }
        e
    }

    pub fn len(&self) -> (n: usize)
        ensures
            n == self@.len(),
    {
        self.entities.len()
    }

    pub fn set_stats(&mut self, e: Entity, v: Option<CombatStats>)
        requires
            old(self)@.has(e),
        ensures
            final(self)@ == old(self)@.with(e, EntityView { stats: v, ..old(self)@.ent(e) }),
    {
        self.entities[e.id].stats = v;
        proof {
            assert(self@.entities =~= old(self)@.entities.update(
                e.id as int,
                EntityView { stats: v, ..old(self)@.ent(e) },
            ));
        }
    }

    pub fn set_confusion(&mut self, e: Entity, v: Option<Confusion>)
        requires
            old(self)@.has(e),
        ensures
            final(self)@ == old(self)@.with(e, EntityView { confusion: v, ..old(self)@.ent(e) }),
    {
        self.entities[e.id].confusion = v;
        proof {
            assert(self@.entities =~= old(self)@.entities.update(
                e.id as int,
                EntityView { confusion: v, ..old(self)@.ent(e) },
            ));
        }
    }

    pub fn set_consumable(&mut self, e: Entity, v: Option<Consumable>)
        requires
            old(self)@.has(e),
        ensures
            final(self)@ == old(self)@.with(e, EntityView { consumable: v, ..old(self)@.ent(e) }),
    {
        self.entities[e.id].consumable = v;
        proof {
            assert(self@.entities =~= old(self)@.entities.update(
                e.id as int,
                EntityView { consumable: v, ..old(self)@.ent(e) },
            ));
        }
    }

    /// Queues `amount` of damage against `e`, after any already queued.
    pub fn push_damage(&mut self, e: Entity, amount: i32)
        requires
            old(self)@.has(e),
        ensures
            final(self)@ == old(self)@.with(e, EntityView {
                suffer_damage: Some(queued_damage(old(self)@.ent(e).suffer_damage, amount)),
                ..old(self)@.ent(e)
            }),
    {
        if self.entities[e.id].suffer_damage.is_some() {
            let mut d = self.entities[e.id].suffer_damage.take().unwrap();
            d.amounts.push(amount);
            self.entities[e.id].suffer_damage = Some(d);
        } else {
            let mut v: Vec<i32> = Vec::new();
            v.push(amount);
            self.entities[e.id].suffer_damage = Some(SufferDamage { amounts: v });
            assert(v@ =~= seq![amount]);
        }
        proof {
            assert(self@.entities =~= old(self)@.entities.update(
                e.id as int,
                EntityView {
                    suffer_damage: Some(queued_damage(old(self)@.ent(e).suffer_damage, amount)),
                    ..old(self)@.ent(e)
                },
            ));
        }
    }

    pub fn set_wants_use(&mut self, e: Entity, v: Option<WantsToUseItem>)
        requires
            old(self)@.has(e),
        ensures
            final(self)@ == old(self)@.with(e, EntityView { wants_use: v, ..old(self)@.ent(e) }),
    {
        self.entities[e.id].wants_use = v;
        proof {
            assert(self@.entities =~= old(self)@.entities.update(
                e.id as int,
                EntityView { wants_use: v, ..old(self)@.ent(e) },
            ));
        }
    }

    pub fn set_wants_drop(&mut self, e: Entity, v: Option<WantsToDropItem>)
        requires
            old(self)@.has(e),
        ensures
            final(self)@ == old(self)@.with(e, EntityView { wants_drop: v, ..old(self)@.ent(e) }),
    {
        self.entities[e.id].wants_drop = v;
        proof {
            assert(self@.entities =~= old(self)@.entities.update(
                e.id as int,
                EntityView { wants_drop: v, ..old(self)@.ent(e) },
            ));
        }
    }

    pub fn set_wants_remove(&mut self, e: Entity, v: Option<WantsToRemoveItem>)
        requires
            old(self)@.has(e),
        ensures
            final(self)@ == old(self)@.with(e, EntityView { wants_remove: v, ..old(self)@.ent(e) }),
    {
        self.entities[e.id].wants_remove = v;
        proof {
            assert(self@.entities =~= old(self)@.entities.update(
                e.id as int,
                EntityView { wants_remove: v, ..old(self)@.ent(e) },
            ));
        }
    }

    pub fn set_wants_pickup(&mut self, e: Entity, v: Option<WantsToPickupItem>)
        requires
            old(self)@.has(e),
        ensures
            final(self)@ == old(self)@.with(e, EntityView { wants_pickup: v, ..old(self)@.ent(e) }),
    {
        self.entities[e.id].wants_pickup = v;
        proof {
            assert(self@.entities =~= old(self)@.entities.update(
                e.id as int,
                EntityView { wants_pickup: v, ..old(self)@.ent(e) },
            ));
        }
    }

    /// Sets where `e` lies: on the map, in a backpack, or equipped.
    pub fn relocate(
        &mut self,
        e: Entity,
        position: Option<Position>,
        in_backpack: Option<InBackpack>,
        equipped: Option<Equipped>,
    )
        requires
            old(self)@.has(e),
        ensures
            final(self)@ == old(self)@.with(
                e,
                EntityView { position, in_backpack, equipped, ..old(self)@.ent(e) },
            ),
    {
        self.entities[e.id].position = position;
        self.entities[e.id].in_backpack = in_backpack;
        self.entities[e.id].equipped = equipped;
        proof {
            assert(self@.entities =~= old(self)@.entities.update(
                e.id as int,
                EntityView { position, in_backpack, equipped, ..old(self)@.ent(e) },
            ));
        }
    }

    /// Appends a line to the message log.
    pub fn push_log(&mut self, line: String)
        ensures
            final(self)@ == old(self)@.logged(line@),
    {
        self.log.push(line);
        proof {
            assert(self@.log =~= old(self)@.log.push(line@));
        }
    }

    /// Marks `e` for deletion at the next `maintain`.
    pub fn delete(&mut self, e: Entity)
        requires
            old(self)@.has(e),
        ensures
            final(self)@ == old(self)@.with(e, EntityView { doomed: true, ..old(self)@.ent(e) }),
    {
        self.entities[e.id].doomed = true;
        proof {
            assert(self@.entities =~= old(self)@.entities.update(
                e.id as int,
                EntityView { doomed: true, ..old(self)@.ent(e) },
            ));
        }
    }

    /// Removes every `wants_pickup` intent.
    pub fn clear_pickup_intents(&mut self)
        ensures
            final(self)@ == old(self)@.without_pickup_intents(),
    {
        let n = self.entities.len();
        let mut i: usize = 0;
        while i < n
            invariant
                n == self.entities.len(),
                n == old(self).entities.len(),
                0 <= i <= n,
                self@.log == old(self)@.log,
                self@.player == old(self)@.player,
                forall|j: int|
                    0 <= j < i ==> self@.entities[j] == (EntityView {
                        wants_pickup: None,
                        ..old(self)@.entities[j]
                    }),
                forall|j: int| i <= j < n ==> self@.entities[j] == old(self)@.entities[j],
            decreases n - i,
        {
            let ghost prev = self@;
            self.entities[i].wants_pickup = None;
            proof {
                assert forall|j: int| 0 <= j < i implies self@.entities[j] == (EntityView {
                    wants_pickup: None,
                    ..old(self)@.entities[j]
                }) by {
                    assert(self@.entities[j] == prev.entities[j]);
                }
            }
            i += 1;
        }
        proof {
            assert(self@.entities =~= old(self)@.without_pickup_intents().entities);
        }
    }

    /// Removes every `wants_use` intent.
    pub fn clear_use_intents(&mut self)
        ensures
            final(self)@ == old(self)@.without_use_intents(),
    {
        let n = self.entities.len();
        let mut i: usize = 0;
        while i < n
            invariant
                n == self.entities.len(),
                n == old(self).entities.len(),
                0 <= i <= n,
                self@.log == old(self)@.log,
                self@.player == old(self)@.player,
                forall|j: int|
                    0 <= j < i ==> self@.entities[j] == (EntityView {
                        wants_use: None,
                        ..old(self)@.entities[j]
                    }),
                forall|j: int| i <= j < n ==> self@.entities[j] == old(self)@.entities[j],
            decreases n - i,
        {
            let ghost prev = self@;
            self.entities[i].wants_use = None;
            proof {
                assert forall|j: int| 0 <= j < i implies self@.entities[j] == (EntityView {
                    wants_use: None,
                    ..old(self)@.entities[j]
                }) by {
                    assert(self@.entities[j] == prev.entities[j]);
                }
            }
            i += 1;
        }
        proof {
            assert(self@.entities =~= old(self)@.without_use_intents().entities);
        }
    }

    /// Removes every `wants_drop` intent.
    pub fn clear_drop_intents(&mut self)
        ensures
            final(self)@ == old(self)@.without_drop_intents(),
    {
        let n = self.entities.len();
        let mut i: usize = 0;
        while i < n
            invariant
                n == self.entities.len(),
                n == old(self).entities.len(),
                0 <= i <= n,
                self@.log == old(self)@.log,
                self@.player == old(self)@.player,
                forall|j: int|
                    0 <= j < i ==> self@.entities[j] == (EntityView {
                        wants_drop: None,
                        ..old(self)@.entities[j]
                    }),
                forall|j: int| i <= j < n ==> self@.entities[j] == old(self)@.entities[j],
            decreases n - i,
        {
            let ghost prev = self@;
            self.entities[i].wants_drop = None;
            proof {
                assert forall|j: int| 0 <= j < i implies self@.entities[j] == (EntityView {
                    wants_drop: None,
                    ..old(self)@.entities[j]
                }) by {
                    assert(self@.entities[j] == prev.entities[j]);
                }
            }
            i += 1;
        }
        proof {
            assert(self@.entities =~= old(self)@.without_drop_intents().entities);
        }
    }

    /// Removes every `wants_remove` intent.
    pub fn clear_remove_intents(&mut self)
        ensures
            final(self)@ == old(self)@.without_remove_intents(),
    {
        let n = self.entities.len();
        let mut i: usize = 0;
        while i < n
            invariant
                n == self.entities.len(),
                n == old(self).entities.len(),
                0 <= i <= n,
                self@.log == old(self)@.log,
                self@.player == old(self)@.player,
                forall|j: int|
                    0 <= j < i ==> self@.entities[j] == (EntityView {
                        wants_remove: None,
                        ..old(self)@.entities[j]
                    }),
                forall|j: int| i <= j < n ==> self@.entities[j] == old(self)@.entities[j],
            decreases n - i,
        {
            let ghost prev = self@;
            self.entities[i].wants_remove = None;
            proof {
                assert forall|j: int| 0 <= j < i implies self@.entities[j] == (EntityView {
                    wants_remove: None,
                    ..old(self)@.entities[j]
                }) by {
                    assert(self@.entities[j] == prev.entities[j]);
                }
            }
            i += 1;
        }
        proof {
            assert(self@.entities =~= old(self)@.without_remove_intents().entities);
        }
    }

    /// Removes every entity marked for deletion.
    pub fn maintain(&mut self)
        ensures
            final(self)@ == old(self)@.maintained(),
    {
        let n = self.entities.len();
        let mut i: usize = 0;
        while i < n
            invariant
                n == self.entities.len(),
                n == old(self).entities.len(),
                0 <= i <= n,
                self@.log == old(self)@.log,
                self@.player == old(self)@.player,
                forall|j: int|
                    0 <= j < i ==> self@.entities[j] == (if old(self)@.entities[j].doomed {
                        bare_entity(old(self)@.entities[j].name)
                    } else {
                        old(self)@.entities[j]
                    }),
                forall|j: int| i <= j < n ==> self@.entities[j] == old(self)@.entities[j],
            decreases n - i,
        {
            let ghost prev = self@;
            if self.entities[i].doomed {
                let name = self.entities[i].name.clone();
                let blank = EntityData::new(name);
                self.entities.set(i, blank);
            }
            proof {
                assert forall|j: int| 0 <= j < i implies self@.entities[j] == (if old(
                    self,
                )@.entities[j].doomed {
                    bare_entity(old(self)@.entities[j].name)
                } else {
                    old(self)@.entities[j]
                }) by {
                    assert(self@.entities[j] == prev.entities[j]);
                }
                assert(self@.entities[i as int] == (if old(self)@.entities[i as int].doomed {
                    bare_entity(old(self)@.entities[i as int].name)
                } else {
                    old(self)@.entities[i as int]
                }));
            }
            i += 1;
        }
        proof {
            assert(self@.entities =~= old(self)@.maintained().entities);
        }
    }
}

} // verus!
