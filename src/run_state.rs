//! The turn state machine: which state the game is in, what the user
//! interface answered in it, and where that leads.
use vstd::prelude::*;
use crate::components::{Entity, Point};
use crate::world::{World, WorldView};

verus! {

#[derive(Clone, Copy, Debug, PartialEq, Eq, Structural)]
pub enum MainMenuSelection {
    NewGame,
    LoadGame,
    OverwriteSaveGame,
    Quit,
    Cancel,
}

#[derive(Clone, Copy, Debug, PartialEq, Eq, Structural)]
pub enum RunState {
    PreRun,
    AwaitingInput,
    PlayerTurn,
    MonsterTurn,
    ShowInventory,
    ShowDropItem,
    ShowRemoveItem,
    ShowTargeting { range: i32, radius: i32, item: Entity },
    NextLevel,
    MainMenu { menu_selection: MainMenuSelection },
    SaveGame,
    GameOver,
}

/// The answer of an item menu.
#[derive(Clone, Copy, Debug, PartialEq, Eq, Structural)]
pub enum ItemMenuResult {
    Cancel,
    NoResponse,
    Selected(Entity),
}

/// The answer of the targeting prompt.
#[derive(Clone, Copy, Debug, PartialEq, Eq, Structural)]
pub enum TargetResult {
    Cancel,
    NoResponse,
    Selected(Point),
}

#[derive(Clone, Copy, Debug, PartialEq, Eq, Structural)]
pub enum MainMenuResult {
    NoSelection { selected: MainMenuSelection },
    Selected { selected: MainMenuSelection },
}

#[derive(Clone, Copy, Debug, PartialEq, Eq, Structural)]
pub enum GameOverResult {
    NoSelection,
    QuitToMenu,
}

/// What the outside world answered during one frame.
#[derive(Clone, Copy, Debug, PartialEq, Eq, Structural)]
pub enum TickEvent {
    /// Nothing was asked of the user.
    Idle,
    /// The state that the player's key press leads to.
    PlayerInput(RunState),
    ItemMenu(ItemMenuResult),
    Targeting(TargetResult),
    MainMenu(MainMenuResult),
    GameOver(GameOverResult),
    /// Whether a saved game exists.
    SaveExists(bool),
}

/// What a frame asks to be done.
#[derive(Clone, Copy, Debug, PartialEq, Eq, Structural)]
pub enum TickAction {
    Nothing,
    RunSystems,
    UseItem { item: Entity, target: Option<Point> },
    DropItem { item: Entity },
    RemoveItem { item: Entity },
    GotoNextLevel,
    NewGame,
    SaveGame,
    LoadGame,
    Quit,
}

/// Where choosing `item` in the inventory leads: a ranged item asks for a
/// target first (with its blast radius, 0 without an area of effect); any
/// other is used on its user at once.
pub open spec fn inventory_choice(w: WorldView, item: Entity) -> (RunState, TickAction) {
    if w.has(item) && w.ent(item).ranged.is_some() {
        (
            RunState::ShowTargeting {
                range: w.ent(item).ranged.unwrap().range,
                radius: match w.ent(item).area_of_effect {
                    Some(a) => a.radius,
                    None => 0,
                },
                item,
            },
            TickAction::Nothing,
        )
    } else {
        (RunState::PlayerTurn, TickAction::UseItem { item, target: None })
    }
}

/// The next state and the action of one frame in state `s` on event `ev`.
/// An event that does not answer the state's question leaves the state as
/// it is and asks for nothing.
pub open spec fn transition(s: RunState, ev: TickEvent, w: WorldView) -> (RunState, TickAction) {
    match s {
        RunState::PreRun => (RunState::AwaitingInput, TickAction::RunSystems),
        RunState::PlayerTurn => (RunState::MonsterTurn, TickAction::RunSystems),
        RunState::MonsterTurn => (RunState::AwaitingInput, TickAction::RunSystems),
        RunState::NextLevel => (RunState::PreRun, TickAction::GotoNextLevel),
        RunState::AwaitingInput => match ev {
            TickEvent::PlayerInput(next) => (next, TickAction::Nothing),
            _ => (s, TickAction::Nothing),
        },
        RunState::ShowInventory => match ev {
            TickEvent::ItemMenu(ItemMenuResult::Cancel) => (RunState::AwaitingInput, TickAction::Nothing),
            TickEvent::ItemMenu(ItemMenuResult::Selected(item)) => inventory_choice(w, item),
            _ => (s, TickAction::Nothing),
        },
        RunState::ShowDropItem => match ev {
            TickEvent::ItemMenu(ItemMenuResult::Cancel) => (RunState::AwaitingInput, TickAction::Nothing),
            TickEvent::ItemMenu(ItemMenuResult::Selected(item)) => (
                RunState::PlayerTurn,
                TickAction::DropItem { item },
            ),
            _ => (s, TickAction::Nothing),
        },
        RunState::ShowRemoveItem => match ev {
            TickEvent::ItemMenu(ItemMenuResult::Cancel) => (RunState::AwaitingInput, TickAction::Nothing),
            TickEvent::ItemMenu(ItemMenuResult::Selected(item)) => (
                RunState::PlayerTurn,
                TickAction::RemoveItem { item },
            ),
            _ => (s, TickAction::Nothing),
        },
        RunState::ShowTargeting { range: _, radius: _, item } => match ev {
            TickEvent::Targeting(TargetResult::Cancel) => (RunState::AwaitingInput, TickAction::Nothing),
            TickEvent::Targeting(TargetResult::Selected(p)) => (
                RunState::PlayerTurn,
                TickAction::UseItem { item, target: Some(p) },
            ),
            _ => (s, TickAction::Nothing),
        },
        RunState::MainMenu { menu_selection: _ } => match ev {
            TickEvent::MainMenu(MainMenuResult::NoSelection { selected }) => if selected
                == MainMenuSelection::Cancel {
                (RunState::AwaitingInput, TickAction::Nothing)
            } else {
                (RunState::MainMenu { menu_selection: selected }, TickAction::Nothing)
            },
            TickEvent::MainMenu(MainMenuResult::Selected { selected }) => match selected {
                MainMenuSelection::NewGame => (RunState::PreRun, TickAction::NewGame),
                MainMenuSelection::OverwriteSaveGame => (
                    RunState::AwaitingInput,
                    TickAction::SaveGame,
                ),
                MainMenuSelection::LoadGame => (RunState::AwaitingInput, TickAction::LoadGame),
                MainMenuSelection::Quit => (s, TickAction::Quit),
                MainMenuSelection::Cancel => (RunState::AwaitingInput, TickAction::Nothing),
            },
            _ => (s, TickAction::Nothing),
        },
        RunState::SaveGame => match ev {
            TickEvent::SaveExists(exists) => (
                RunState::MainMenu { menu_selection: MainMenuSelection::Quit },
                if exists {
                    TickAction::Nothing
                } else {
                    TickAction::SaveGame
                },
            ),
            _ => (s, TickAction::Nothing),
        },
        RunState::GameOver => match ev {
            TickEvent::GameOver(GameOverResult::QuitToMenu) => (
                RunState::MainMenu { menu_selection: MainMenuSelection::NewGame },
                TickAction::Nothing,
            ),
            _ => (s, TickAction::Nothing),
        },
    }
}

/// The next state and the action of one frame in state `s` on event `ev`.
pub fn next_state(s: RunState, ev: TickEvent, world: &World) -> (r: (RunState, TickAction))
    ensures
        r == transition(s, ev, world@),
{
    match s {
        RunState::PreRun => (RunState::AwaitingInput, TickAction::RunSystems),
        RunState::PlayerTurn => (RunState::MonsterTurn, TickAction::RunSystems),
        RunState::MonsterTurn => (RunState::AwaitingInput, TickAction::RunSystems),
        RunState::NextLevel => (RunState::PreRun, TickAction::GotoNextLevel),
        RunState::AwaitingInput => match ev {
            TickEvent::PlayerInput(next) => (next, TickAction::Nothing),
            _ => (s, TickAction::Nothing),
        },
        RunState::ShowInventory => match ev {
            TickEvent::ItemMenu(ItemMenuResult::Cancel) => (RunState::AwaitingInput, TickAction::Nothing),
            TickEvent::ItemMenu(ItemMenuResult::Selected(item)) => {
                if item.id < world.entities.len() && world.entities[item.id].ranged.is_some() {
                    let range = world.entities[item.id].ranged.unwrap().range;
                    let radius = match world.entities[item.id].area_of_effect {
                        Some(a) => a.radius,
                        None => 0,
                    };
                    (RunState::ShowTargeting { range, radius, item }, TickAction::Nothing)
                } else {
                    (RunState::PlayerTurn, TickAction::UseItem { item, target: None })
                }
            },
            _ => (s, TickAction::Nothing),
        },
        RunState::ShowDropItem => match ev {
            TickEvent::ItemMenu(ItemMenuResult::Cancel) => (RunState::AwaitingInput, TickAction::Nothing),
            TickEvent::ItemMenu(ItemMenuResult::Selected(item)) => (
                RunState::PlayerTurn,
                TickAction::DropItem { item },
            ),
            _ => (s, TickAction::Nothing),
        },
        RunState::ShowRemoveItem => match ev {
            TickEvent::ItemMenu(ItemMenuResult::Cancel) => (RunState::AwaitingInput, TickAction::Nothing),
            TickEvent::ItemMenu(ItemMenuResult::Selected(item)) => (
                RunState::PlayerTurn,
                TickAction::RemoveItem { item },
            ),
            _ => (s, TickAction::Nothing),
        },
        RunState::ShowTargeting { range: _, radius: _, item } => match ev {
            TickEvent::Targeting(TargetResult::Cancel) => (RunState::AwaitingInput, TickAction::Nothing),
            TickEvent::Targeting(TargetResult::Selected(p)) => (
                RunState::PlayerTurn,
                TickAction::UseItem { item, target: Some(p) },
            ),
            _ => (s, TickAction::Nothing),
        },
        RunState::MainMenu { menu_selection: _ } => match ev {
            TickEvent::MainMenu(MainMenuResult::NoSelection { selected }) => {
                if selected == MainMenuSelection::Cancel {
                    (RunState::AwaitingInput, TickAction::Nothing)
                } else {
                    (RunState::MainMenu { menu_selection: selected }, TickAction::Nothing)
                }
            },
            TickEvent::MainMenu(MainMenuResult::Selected { selected }) => match selected {
                MainMenuSelection::NewGame => (RunState::PreRun, TickAction::NewGame),
                MainMenuSelection::OverwriteSaveGame => (
                    RunState::AwaitingInput,
                    TickAction::SaveGame,
                ),
                MainMenuSelection::LoadGame => (RunState::AwaitingInput, TickAction::LoadGame),
                MainMenuSelection::Quit => (s, TickAction::Quit),
                MainMenuSelection::Cancel => (RunState::AwaitingInput, TickAction::Nothing),
            },
            _ => (s, TickAction::Nothing),
        },
        RunState::SaveGame => match ev {
            TickEvent::SaveExists(exists) => {
                let action = if exists {
                    TickAction::Nothing
                } else {
                    TickAction::SaveGame
                };
                (RunState::MainMenu { menu_selection: MainMenuSelection::Quit }, action)
            },
            _ => (s, TickAction::Nothing),
        },
        RunState::GameOver => match ev {
            TickEvent::GameOver(GameOverResult::QuitToMenu) => (
                RunState::MainMenu { menu_selection: MainMenuSelection::NewGame },
                TickAction::Nothing,
            ),
            _ => (s, TickAction::Nothing),
        },
    }
}

} // verus!
