use roguelike_core::components::{
    AreaOfEffect, CombatStats, Confusion, Consumable, Entity, EquipmentSlot, Equippable, Equipped,
    InBackpack, InflictsDamage, Point, Position, ProvidesHealing, Ranged, WantsToDropItem,
    WantsToPickupItem, WantsToRemoveItem, WantsToUseItem,
};
use roguelike_core::inventory::{ItemCollectionSystem, ItemDropSystem, ItemRemoveSystem};
use roguelike_core::item_use::ItemUseSystem;
use roguelike_core::map::DungeonMap;
use roguelike_core::targeting::resolve_targets;
use roguelike_core::world::{EntityData, World};

fn named(name: &str) -> EntityData {
    EntityData::new(name.to_string())
}

fn stats(hp: i32, max_hp: i32) -> Option<CombatStats> {
    Some(CombatStats { max_hp, hp, defense: 0, power: 5 })
}

/// A world whose player stands at (5, 5) with the given hit points.
fn world_with_player(hp: i32, max_hp: i32) -> (World, Entity) {
    let mut w = World::new();
    let mut p = named("Player");
    p.player = true;
    p.position = Some(Position { x: 5, y: 5 });
    p.stats = stats(hp, max_hp);
    let player = w.spawn(p);
    w.player = player;
    (w, player)
}

fn carried(w: &mut World, owner: Entity, mut item: EntityData) -> Entity {
    item.in_backpack = Some(InBackpack { owner });
    w.spawn(item)
}

fn no_blasts(w: &World) -> Vec<Vec<Point>> {
    vec![Vec::new(); w.len()]
}

fn square(cx: i32, cy: i32, r: i32) -> Vec<Point> {
    let mut v = Vec::new();
    for y in cy - r..=cy + r {
        for x in cx - r..=cx + r {
            v.push(Point { x, y });
        }
    }
    v
}

fn use_intent(w: &mut World, actor: Entity, item: Entity, target: Option<Point>) {
    w.entities[actor.id].wants_use = Some(WantsToUseItem { item, target });
}

#[test]
fn healing_potion_scenario() {
    let (mut w, player) = world_with_player(10, 20);
    let mut potion = named("Health Potion");
    potion.healing = Some(ProvidesHealing { heal_amount: 8 });
    potion.consumable = Some(Consumable { uses: 1 });
    let potion = carried(&mut w, player, potion);
    use_intent(&mut w, player, potion, None);
    let map = DungeonMap::new(10, 10);
    let blasts = no_blasts(&w);
    ItemUseSystem {}.run(&mut w, &map, &blasts);
    assert_eq!(w.entities[player.id].stats.unwrap().hp, 18);
    assert!(w.entities[potion.id].doomed);
    w.maintain();
    assert!(!w.entities[potion.id].alive);
    assert!(w.log.iter().any(|l| l.contains("healing 8 hp")));
    assert_eq!(w.log, vec!["You use the Health Potion, healing 8 hp.".to_string()]);
    assert!(w.entities[player.id].wants_use.is_none());
}

#[test]
fn area_scroll_hits_both_goblins() {
    let (mut w, player) = world_with_player(20, 20);
    let mut map = DungeonMap::new(20, 20);
    let mut goblins = Vec::new();
    for _ in 0..2 {
        let mut g = named("Goblin");
        g.monster = true;
        g.position = Some(Position { x: 10, y: 10 });
        g.stats = stats(8, 8);
        let g = w.spawn(g);
        map.place(Point { x: 10, y: 10 }, g);
        goblins.push(g);
    }
    let mut scroll = named("Fireball Scroll");
    scroll.inflicts_damage = Some(InflictsDamage { damage: 4 });
    scroll.area_of_effect = Some(AreaOfEffect { radius: 3 });
    scroll.ranged = Some(Ranged { range: 6 });
    scroll.consumable = Some(Consumable { uses: 1 });
    let scroll = carried(&mut w, player, scroll);
    use_intent(&mut w, player, scroll, Some(Point { x: 10, y: 10 }));
    let mut blasts = no_blasts(&w);
    blasts[player.id] = square(10, 10, 3);
    ItemUseSystem {}.run(&mut w, &map, &blasts);
    for g in &goblins {
        assert_eq!(w.entities[g.id].suffer_damage.as_ref().unwrap().amounts, vec![4]);
    }
    assert!(w.entities[scroll.id].doomed);
    assert_eq!(
        w.log,
        vec![
            "You use Fireball Scroll on Goblin, inflicting 4 hp.".to_string(),
            "You use Fireball Scroll on Goblin, inflicting 4 hp.".to_string(),
        ]
    );
}

#[test]
fn equipping_sword_replaces_dagger() {
    let (mut w, player) = world_with_player(20, 20);
    let mut dagger = named("Dagger");
    dagger.equippable = Some(Equippable { slot: EquipmentSlot::Melee });
    dagger.equipped = Some(Equipped { owner: player, slot: EquipmentSlot::Melee });
    let dagger = w.spawn(dagger);
    let mut sword = named("Longsword");
    sword.equippable = Some(Equippable { slot: EquipmentSlot::Melee });
    let sword = carried(&mut w, player, sword);
    use_intent(&mut w, player, sword, None);
    let map = DungeonMap::new(10, 10);
    let blasts = no_blasts(&w);
    ItemUseSystem {}.run(&mut w, &map, &blasts);
    assert_eq!(w.entities[dagger.id].equipped, None);
    assert_eq!(w.entities[dagger.id].in_backpack, Some(InBackpack { owner: player }));
    assert_eq!(
        w.entities[sword.id].equipped,
        Some(Equipped { owner: player, slot: EquipmentSlot::Melee })
    );
    assert_eq!(w.entities[sword.id].in_backpack, None);
    assert_eq!(w.log, vec!["You unequip Dagger.".to_string(), "You equip Longsword".to_string()]);
    let holders = w
        .entities
        .iter()
        .filter(|d| d.equipped == Some(Equipped { owner: player, slot: EquipmentSlot::Melee }))
        .count();
    assert_eq!(holders, 1);
    assert!(!w.entities[sword.id].doomed);
}

#[test]
fn equipment_survives_use_without_consumable() {
    let (mut w, player) = world_with_player(20, 20);
    let mut shield = named("Shield");
    shield.equippable = Some(Equippable { slot: EquipmentSlot::Shield });
    let shield = carried(&mut w, player, shield);
    let map = DungeonMap::new(10, 10);
    for _ in 0..3 {
        use_intent(&mut w, player, shield, None);
        let blasts = no_blasts(&w);
        ItemUseSystem {}.run(&mut w, &map, &blasts);
        w.maintain();
        assert!(w.entities[shield.id].alive);
    }
}

#[test]
fn healing_never_exceeds_maximum() {
    let (mut w, player) = world_with_player(15, 20);
    let mut potion = named("Health Potion");
    potion.healing = Some(ProvidesHealing { heal_amount: 8 });
    let potion = carried(&mut w, player, potion);
    use_intent(&mut w, player, potion, None);
    let map = DungeonMap::new(10, 10);
    let blasts = no_blasts(&w);
    ItemUseSystem {}.run(&mut w, &map, &blasts);
    assert_eq!(w.entities[player.id].stats.unwrap().hp, 20);
    assert!(!w.entities[potion.id].doomed);
}

#[test]
fn consumable_with_uses_left_is_kept() {
    let (mut w, player) = world_with_player(5, 30);
    let mut potion = named("Big Potion");
    potion.healing = Some(ProvidesHealing { heal_amount: 10 });
    potion.consumable = Some(Consumable { uses: 3 });
    let potion = carried(&mut w, player, potion);
    use_intent(&mut w, player, potion, None);
    let map = DungeonMap::new(10, 10);
    let blasts = no_blasts(&w);
    ItemUseSystem {}.run(&mut w, &map, &blasts);
    assert_eq!(w.entities[potion.id].consumable, Some(Consumable { uses: 2 }));
    assert!(!w.entities[potion.id].doomed);
    assert_eq!(w.entities[player.id].stats.unwrap().hp, 15);
}

#[test]
fn effectless_consumable_is_used_up() {
    let (mut w, player) = world_with_player(5, 30);
    let mut rock = named("Rock");
    rock.consumable = Some(Consumable { uses: 1 });
    let rock = carried(&mut w, player, rock);
    use_intent(&mut w, player, rock, None);
    let map = DungeonMap::new(10, 10);
    let blasts = no_blasts(&w);
    ItemUseSystem {}.run(&mut w, &map, &blasts);
    assert!(w.entities[rock.id].doomed);
    assert!(w.log.is_empty());
}

#[test]
fn damage_on_empty_tile_keeps_scroll() {
    let (mut w, player) = world_with_player(20, 20);
    let mut scroll = named("Magic Missile Scroll");
    scroll.inflicts_damage = Some(InflictsDamage { damage: 8 });
    scroll.consumable = Some(Consumable { uses: 1 });
    let scroll = carried(&mut w, player, scroll);
    use_intent(&mut w, player, scroll, Some(Point { x: 3, y: 3 }));
    let map = DungeonMap::new(10, 10);
    let blasts = no_blasts(&w);
    ItemUseSystem {}.run(&mut w, &map, &blasts);
    assert!(!w.entities[scroll.id].doomed);
    assert!(w.log.is_empty());
}

#[test]
fn confusion_scroll_confuses_target() {
    let (mut w, player) = world_with_player(20, 20);
    let mut map = DungeonMap::new(10, 10);
    let mut orc = named("Orc");
    orc.position = Some(Position { x: 2, y: 3 });
    orc.confusion = Some(Confusion { turns: 1 });
    let orc = w.spawn(orc);
    map.place(Point { x: 2, y: 3 }, orc);
    let mut scroll = named("Confusion Scroll");
    scroll.confusion = Some(Confusion { turns: 4 });
    scroll.consumable = Some(Consumable { uses: 1 });
    let scroll = carried(&mut w, player, scroll);
    use_intent(&mut w, player, scroll, Some(Point { x: 2, y: 3 }));
    let blasts = no_blasts(&w);
    ItemUseSystem {}.run(&mut w, &map, &blasts);
    assert_eq!(w.entities[orc.id].confusion, Some(Confusion { turns: 4 }));
    assert!(w.entities[scroll.id].doomed);
    assert_eq!(w.log, vec!["You use Confusion Scroll on Orc, confusing them.".to_string()]);
}

#[test]
fn damage_merges_with_pending_damage() {
    let (mut w, player) = world_with_player(20, 20);
    let mut map = DungeonMap::new(10, 10);
    let mut orc = named("Orc");
    orc.position = Some(Position { x: 4, y: 4 });
    let orc = w.spawn(orc);
    map.place(Point { x: 4, y: 4 }, orc);
    w.push_damage(orc, 2);
    let mut scroll = named("Magic Missile Scroll");
    scroll.inflicts_damage = Some(InflictsDamage { damage: -3 });
    let scroll = carried(&mut w, player, scroll);
    use_intent(&mut w, player, scroll, Some(Point { x: 4, y: 4 }));
    let blasts = no_blasts(&w);
    ItemUseSystem {}.run(&mut w, &map, &blasts);
    assert_eq!(w.entities[orc.id].suffer_damage.as_ref().unwrap().amounts, vec![2, -3]);
    assert_eq!(w.log, vec!["You use Magic Missile Scroll on Orc, inflicting -3 hp.".to_string()]);
}

#[test]
fn monster_use_writes_no_log() {
    let (mut w, _player) = world_with_player(20, 20);
    let mut goblin = named("Goblin");
    goblin.stats = stats(1, 10);
    let goblin = w.spawn(goblin);
    let mut potion = named("Health Potion");
    potion.healing = Some(ProvidesHealing { heal_amount: 8 });
    let potion = carried(&mut w, goblin, potion);
    use_intent(&mut w, goblin, potion, None);
    let map = DungeonMap::new(10, 10);
    let blasts = no_blasts(&w);
    ItemUseSystem {}.run(&mut w, &map, &blasts);
    assert_eq!(w.entities[goblin.id].stats.unwrap().hp, 9);
    assert!(w.log.is_empty());
}

#[test]
fn area_targeting_skips_border_tiles() {
    let (mut w, player) = world_with_player(20, 20);
    let mut map = DungeonMap::new(10, 10);
    let mut on_edge = named("Bat");
    on_edge.position = Some(Position { x: 0, y: 4 });
    let on_edge = w.spawn(on_edge);
    map.place(Point { x: 0, y: 4 }, on_edge);
    let mut inside = named("Rat");
    inside.position = Some(Position { x: 1, y: 4 });
    let inside = w.spawn(inside);
    map.place(Point { x: 1, y: 4 }, inside);
    let mut corner = named("Spider");
    corner.position = Some(Position { x: 9, y: 9 });
    let corner = w.spawn(corner);
    map.place(Point { x: 9, y: 9 }, corner);
    let mut scroll = named("Fireball Scroll");
    scroll.area_of_effect = Some(AreaOfEffect { radius: 2 });
    let scroll = w.spawn(scroll);
    let mut blast = square(1, 4, 1);
    blast.push(Point { x: 9, y: 9 });
    let targets = resolve_targets(&w, &map, player, scroll, Some(Point { x: 1, y: 4 }), &blast);
    assert_eq!(targets, vec![inside]);
}

#[test]
fn resolving_twice_gives_same_targets() {
    let (mut w, player) = world_with_player(20, 20);
    let mut map = DungeonMap::new(10, 10);
    let mut a = named("A");
    a.position = Some(Position { x: 3, y: 3 });
    let a = w.spawn(a);
    map.place(Point { x: 3, y: 3 }, a);
    let mut b = named("B");
    b.position = Some(Position { x: 4, y: 3 });
    let b = w.spawn(b);
    map.place(Point { x: 4, y: 3 }, b);
    let mut scroll = named("Fireball Scroll");
    scroll.area_of_effect = Some(AreaOfEffect { radius: 1 });
    let scroll = w.spawn(scroll);
    let mut blast = square(3, 3, 1);
    blast.extend(square(3, 3, 1));
    let first = resolve_targets(&w, &map, player, scroll, Some(Point { x: 3, y: 3 }), &blast);
    let second = resolve_targets(&w, &map, player, scroll, Some(Point { x: 3, y: 3 }), &blast);
    assert_eq!(first, second);
    assert_eq!(first, vec![a, b]);
}

#[test]
fn single_tile_and_self_targeting() {
    let (mut w, player) = world_with_player(20, 20);
    let mut map = DungeonMap::new(10, 10);
    let mut a = named("A");
    a.position = Some(Position { x: 0, y: 0 });
    let a = w.spawn(a);
    map.place(Point { x: 0, y: 0 }, a);
    let wand = w.spawn(named("Wand"));
    let none: Vec<Point> = Vec::new();
    assert_eq!(resolve_targets(&w, &map, player, wand, None, &none), vec![player]);
    assert_eq!(resolve_targets(&w, &map, player, wand, Some(Point { x: 0, y: 0 }), &none), vec![a]);
    assert!(resolve_targets(&w, &map, player, wand, Some(Point { x: 20, y: 0 }), &none).is_empty());
}

#[test]
fn drop_refused_on_crowded_tile() {
    let (mut w, player) = world_with_player(20, 20);
    let mut map = DungeonMap::new(10, 10);
    map.place(Point { x: 5, y: 5 }, player);
    let other = w.spawn(named("Goblin"));
    map.place(Point { x: 5, y: 5 }, other);
    let sword = carried(&mut w, player, named("Longsword"));
    w.entities[player.id].wants_drop = Some(WantsToDropItem { item: sword });
    ItemDropSystem {}.run(&mut w, &map);
    assert_eq!(w.entities[sword.id].in_backpack, Some(InBackpack { owner: player }));
    assert_eq!(w.entities[sword.id].position, None);
    assert_eq!(w.log, vec!["You can not drop Longsword here.".to_string()]);
    assert!(w.entities[player.id].wants_drop.is_none());
}

#[test]
fn drop_places_item_on_free_tile() {
    let (mut w, player) = world_with_player(20, 20);
    let mut map = DungeonMap::new(10, 10);
    map.place(Point { x: 5, y: 5 }, player);
    let sword = carried(&mut w, player, named("Longsword"));
    w.entities[player.id].wants_drop = Some(WantsToDropItem { item: sword });
    ItemDropSystem {}.run(&mut w, &map);
    assert_eq!(w.entities[sword.id].in_backpack, None);
    assert_eq!(w.entities[sword.id].position, Some(Position { x: 5, y: 5 }));
    assert_eq!(w.log, vec!["You drop the Longsword.".to_string()]);
}

#[test]
fn pickup_moves_item_to_backpack() {
    let (mut w, player) = world_with_player(20, 20);
    let mut potion = named("Health Potion");
    potion.position = Some(Position { x: 5, y: 5 });
    let potion = w.spawn(potion);
    w.entities[player.id].wants_pickup = Some(WantsToPickupItem { collected_by: player, item: potion });
    ItemCollectionSystem {}.run(&mut w);
    assert_eq!(w.entities[potion.id].position, None);
    assert_eq!(w.entities[potion.id].in_backpack, Some(InBackpack { owner: player }));
    assert_eq!(w.log, vec!["You pick up the Health Potion.".to_string()]);
    assert!(w.entities[player.id].wants_pickup.is_none());
}

#[test]
fn remove_unequips_into_backpack() {
    let (mut w, player) = world_with_player(20, 20);
    let mut shield = named("Shield");
    shield.equipped = Some(Equipped { owner: player, slot: EquipmentSlot::Shield });
    let shield = w.spawn(shield);
    w.entities[player.id].wants_remove = Some(WantsToRemoveItem { item: shield });
    ItemRemoveSystem {}.run(&mut w);
    assert_eq!(w.entities[shield.id].equipped, None);
    assert_eq!(w.entities[shield.id].in_backpack, Some(InBackpack { owner: player }));
    assert!(w.entities[player.id].wants_remove.is_none());
    assert!(w.log.is_empty());
}
