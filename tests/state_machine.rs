use roguelike_core::components::{
    AreaOfEffect, CombatStats, Consumable, Entity, EquipmentSlot, Equipped, InBackpack, Point,
    Position, ProvidesHealing, Ranged, WantsToUseItem,
};
use roguelike_core::map::DungeonMap;
use roguelike_core::monster_ai::MonsterAI;
use roguelike_core::run_state::{
    next_state, GameOverResult, ItemMenuResult, MainMenuResult, MainMenuSelection, RunState,
    TargetResult, TickAction, TickEvent,
};
use roguelike_core::state::State;
use roguelike_core::world::{EntityData, World};

fn named(name: &str) -> EntityData {
    EntityData::new(name.to_string())
}

fn new_state(hp: i32, max_hp: i32) -> (State, Entity) {
    let mut w = World::new();
    let mut p = named("Player");
    p.player = true;
    p.position = Some(Position { x: 5, y: 5 });
    p.stats = Some(CombatStats { max_hp, hp, defense: 0, power: 5 });
    let player = w.spawn(p);
    w.player = player;
    let st = State { ecs: w, map: DungeonMap::new(20, 20), run_state: RunState::PreRun };
    (st, player)
}

fn no_blasts(st: &State) -> Vec<Vec<Point>> {
    vec![Vec::new(); st.ecs.len()]
}

#[test]
fn turn_cycle_runs_systems() {
    let (mut st, _) = new_state(10, 10);
    let b = no_blasts(&st);
    assert_eq!(st.tick(TickEvent::Idle, &b), TickAction::RunSystems);
    assert_eq!(st.run_state, RunState::AwaitingInput);
    assert_eq!(st.tick(TickEvent::Idle, &b), TickAction::Nothing);
    assert_eq!(st.run_state, RunState::AwaitingInput);
    st.tick(TickEvent::PlayerInput(RunState::PlayerTurn), &b);
    assert_eq!(st.run_state, RunState::PlayerTurn);
    assert_eq!(st.tick(TickEvent::Idle, &b), TickAction::RunSystems);
    assert_eq!(st.run_state, RunState::MonsterTurn);
    assert_eq!(st.tick(TickEvent::Idle, &b), TickAction::RunSystems);
    assert_eq!(st.run_state, RunState::AwaitingInput);
}

#[test]
fn inventory_potion_then_turn_heals() {
    let (mut st, player) = new_state(10, 20);
    let mut potion = named("Health Potion");
    potion.healing = Some(ProvidesHealing { heal_amount: 8 });
    potion.consumable = Some(Consumable { uses: 1 });
    potion.in_backpack = Some(InBackpack { owner: player });
    let potion = st.ecs.spawn(potion);
    st.run_state = RunState::ShowInventory;
    let b = no_blasts(&st);
    let action = st.tick(TickEvent::ItemMenu(ItemMenuResult::Selected(potion)), &b);
    assert_eq!(action, TickAction::UseItem { item: potion, target: None });
    assert_eq!(st.run_state, RunState::PlayerTurn);
    assert_eq!(
        st.ecs.entities[player.id].wants_use,
        Some(WantsToUseItem { item: potion, target: None })
    );
    st.tick(TickEvent::Idle, &b);
    assert_eq!(st.ecs.entities[player.id].stats.unwrap().hp, 18);
    assert!(!st.ecs.entities[potion.id].alive);
    assert_eq!(st.run_state, RunState::MonsterTurn);
}

#[test]
fn ranged_item_asks_for_target() {
    let (mut st, player) = new_state(10, 20);
    let mut scroll = named("Fireball Scroll");
    scroll.ranged = Some(Ranged { range: 6 });
    scroll.area_of_effect = Some(AreaOfEffect { radius: 3 });
    scroll.in_backpack = Some(InBackpack { owner: player });
    let scroll = st.ecs.spawn(scroll);
    st.run_state = RunState::ShowInventory;
    let b = no_blasts(&st);
    assert_eq!(st.tick(TickEvent::ItemMenu(ItemMenuResult::Selected(scroll)), &b), TickAction::Nothing);
    assert_eq!(st.run_state, RunState::ShowTargeting { range: 6, radius: 3, item: scroll });
    assert_eq!(st.tick(TickEvent::Targeting(TargetResult::NoResponse), &b), TickAction::Nothing);
    assert_eq!(st.run_state, RunState::ShowTargeting { range: 6, radius: 3, item: scroll });
    let target = Point { x: 7, y: 7 };
    assert_eq!(
        st.tick(TickEvent::Targeting(TargetResult::Selected(target)), &b),
        TickAction::UseItem { item: scroll, target: Some(target) }
    );
    assert_eq!(st.run_state, RunState::PlayerTurn);
}

#[test]
fn cancelling_menus_returns_to_input() {
    let w = World::new();
    let cancel = TickEvent::ItemMenu(ItemMenuResult::Cancel);
    for s in [RunState::ShowInventory, RunState::ShowDropItem, RunState::ShowRemoveItem] {
        assert_eq!(next_state(s, cancel, &w), (RunState::AwaitingInput, TickAction::Nothing));
        assert_eq!(
            next_state(s, TickEvent::ItemMenu(ItemMenuResult::NoResponse), &w),
            (s, TickAction::Nothing)
        );
    }
    let targeting = RunState::ShowTargeting { range: 1, radius: 0, item: Entity { id: 0 } };
    assert_eq!(
        next_state(targeting, TickEvent::Targeting(TargetResult::Cancel), &w),
        (RunState::AwaitingInput, TickAction::Nothing)
    );
    let item = Entity { id: 3 };
    assert_eq!(
        next_state(RunState::ShowDropItem, TickEvent::ItemMenu(ItemMenuResult::Selected(item)), &w),
        (RunState::PlayerTurn, TickAction::DropItem { item })
    );
    assert_eq!(
        next_state(RunState::ShowRemoveItem, TickEvent::ItemMenu(ItemMenuResult::Selected(item)), &w),
        (RunState::PlayerTurn, TickAction::RemoveItem { item })
    );
}

#[test]
fn menus_and_game_over() {
    let w = World::new();
    let menu = RunState::MainMenu { menu_selection: MainMenuSelection::NewGame };
    let pick = |sel| TickEvent::MainMenu(MainMenuResult::Selected { selected: sel });
    assert_eq!(next_state(menu, pick(MainMenuSelection::NewGame), &w), (RunState::PreRun, TickAction::NewGame));
    assert_eq!(
        next_state(menu, pick(MainMenuSelection::LoadGame), &w),
        (RunState::AwaitingInput, TickAction::LoadGame)
    );
    assert_eq!(
        next_state(menu, pick(MainMenuSelection::OverwriteSaveGame), &w),
        (RunState::AwaitingInput, TickAction::SaveGame)
    );
    assert_eq!(next_state(menu, pick(MainMenuSelection::Quit), &w), (menu, TickAction::Quit));
    assert_eq!(
        next_state(
            menu,
            TickEvent::MainMenu(MainMenuResult::NoSelection { selected: MainMenuSelection::LoadGame }),
            &w
        ),
        (RunState::MainMenu { menu_selection: MainMenuSelection::LoadGame }, TickAction::Nothing)
    );
    assert_eq!(
        next_state(
            menu,
            TickEvent::MainMenu(MainMenuResult::NoSelection { selected: MainMenuSelection::Cancel }),
            &w
        ),
        (RunState::AwaitingInput, TickAction::Nothing)
    );
    let quit_menu = RunState::MainMenu { menu_selection: MainMenuSelection::Quit };
    assert_eq!(next_state(RunState::SaveGame, TickEvent::SaveExists(false), &w), (quit_menu, TickAction::SaveGame));
    assert_eq!(next_state(RunState::SaveGame, TickEvent::SaveExists(true), &w), (quit_menu, TickAction::Nothing));
    assert_eq!(
        next_state(RunState::GameOver, TickEvent::GameOver(GameOverResult::QuitToMenu), &w),
        (menu, TickAction::Nothing)
    );
    assert_eq!(
        next_state(RunState::GameOver, TickEvent::GameOver(GameOverResult::NoSelection), &w),
        (RunState::GameOver, TickAction::Nothing)
    );
    assert_eq!(next_state(RunState::NextLevel, TickEvent::Idle, &w), (RunState::PreRun, TickAction::GotoNextLevel));
}

#[test]
fn level_change_keeps_player_and_belongings() {
    let (mut st, player) = new_state(3, 20);
    let mut potion = named("Health Potion");
    potion.in_backpack = Some(InBackpack { owner: player });
    let potion = st.ecs.spawn(potion);
    let mut sword = named("Longsword");
    sword.equipped = Some(Equipped { owner: player, slot: EquipmentSlot::Melee });
    let sword = st.ecs.spawn(sword);
    let goblin = st.ecs.spawn(named("Goblin"));
    let mut dropped = named("Dagger");
    dropped.position = Some(Position { x: 1, y: 1 });
    let dropped = st.ecs.spawn(dropped);
    assert_eq!(st.entities_to_remove_on_level_change(), vec![goblin, dropped]);
    st.goto_next_level(DungeonMap::new(30, 30), Position { x: 12, y: 9 });
    assert!(st.ecs.entities[player.id].alive);
    assert!(st.ecs.entities[potion.id].alive);
    assert!(st.ecs.entities[sword.id].alive);
    assert!(!st.ecs.entities[goblin.id].alive);
    assert!(!st.ecs.entities[dropped.id].alive);
    assert_eq!(st.ecs.entities[player.id].position, Some(Position { x: 12, y: 9 }));
    assert_eq!(st.ecs.entities[player.id].stats.unwrap().hp, 10);
    assert_eq!(st.map.width, 30);
    assert_eq!(
        st.ecs.log.last().unwrap(),
        "You descend to the next level, and take a moment to rest."
    );
}

#[test]
fn level_change_keeps_higher_hp() {
    let (mut st, player) = new_state(15, 21);
    st.goto_next_level(DungeonMap::new(10, 10), Position { x: 2, y: 2 });
    assert_eq!(st.ecs.entities[player.id].stats.unwrap().hp, 15);
}

#[test]
fn reset_removes_everything() {
    let (mut st, player) = new_state(3, 20);
    let goblin = st.ecs.spawn(named("Goblin"));
    st.ecs.push_log("old line".to_string());
    st.game_reset(DungeonMap::new(8, 8));
    assert!(!st.ecs.entities[player.id].alive);
    assert!(!st.ecs.entities[goblin.id].alive);
    assert_eq!(st.ecs.log, vec!["Welcome to the Rusty RogueLike".to_string()]);
    assert_eq!(st.map.height, 8);
}

#[test]
fn dead_monsters_are_purged() {
    let (mut st, player) = new_state(0, 20);
    let mut goblin = named("Goblin");
    goblin.stats = Some(CombatStats { max_hp: 8, hp: 0, defense: 0, power: 2 });
    let goblin = st.ecs.spawn(goblin);
    let mut orc = named("Orc");
    orc.stats = Some(CombatStats { max_hp: 8, hp: 1, defense: 0, power: 2 });
    let orc = st.ecs.spawn(orc);
    st.delete_the_dead();
    assert!(!st.ecs.entities[goblin.id].alive);
    assert!(st.ecs.entities[orc.id].alive);
    assert!(st.ecs.entities[player.id].alive);
}

#[test]
fn monsters_that_see_player_shout() {
    let (mut st, _player) = new_state(10, 10);
    let mut watcher = named("Goblin");
    watcher.monster = true;
    watcher.position = Some(Position { x: 6, y: 5 });
    let watcher = st.ecs.spawn(watcher);
    let mut blind = named("Orc");
    blind.monster = true;
    blind.position = Some(Position { x: 15, y: 15 });
    st.ecs.spawn(blind);
    let mut visible = vec![Vec::new(); st.ecs.len()];
    visible[watcher.id] = vec![Point { x: 5, y: 5 }, Point { x: 6, y: 5 }];
    visible[2] = vec![Point { x: 15, y: 15 }];
    let shouting = MonsterAI {}.run(&st.ecs, Point { x: 5, y: 5 }, &visible);
    assert_eq!(shouting, vec![watcher]);
}
