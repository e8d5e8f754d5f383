//! From a key to what the player means by it, and on to what it does.

use vstd::prelude::*;
use crate::config::PLAYER;
use crate::fov::Visibility;
use crate::game::{Game, GameState};
use crate::generate::generated;
use crate::inventory::{after_pick_up, pick_item_up};
use crate::object::{Object, ObjectView, views};
use crate::session::{after_descent, descent_fits, rested};
use crate::text::same_text;
use crate::turn::{
    after_player_move,
    is_round,
    monsters_take_turns,
    player_move_fits,
    player_move_or_attack,
    round_fits,
};
use crate::world::{World, world_of};

verus! {

/// The keys that mean something without being a character.
#[derive(Clone, Copy, Debug, PartialEq, Eq, Structural)]
pub enum KeyCode {
    Up,
    Down,
    Left,
    Right,
    Home,
    PageUp,
    End,
    PageDown,
    NumPad1,
    NumPad2,
    NumPad3,
    NumPad4,
    NumPad5,
    NumPad6,
    NumPad7,
    NumPad8,
    NumPad9,
    Enter,
    Escape,
    /// Any other key; `printable` says which character it stands for.
    Other,
}

/// A key that was pressed.
#[derive(Clone, Copy, Debug, PartialEq, Eq, Structural)]
pub struct Key {
    pub code: KeyCode,
    pub printable: char,
    pub alt: bool,
}

/// What the player means by a key.
#[derive(Clone, Copy, Debug, PartialEq, Eq, Structural)]
pub enum Command {
    /// Leave the game.
    Exit,
    /// Switch between a window and the full screen.
    ToggleFullscreen,
    /// Step by the given amount, or attack what stands in the way.
    Move(i32, i32),
    /// Let a turn pass.
    Wait,
    /// Pick up an item from the tile underfoot.
    PickUp,
    /// Choose an item of the inventory and use it.
    UseItem,
    /// Choose an item of the inventory and drop it.
    DropItem,
    /// Show the character's statistics.
    ShowCharacter,
    /// Take the stairs down.
    Descend,
    /// Nothing at all.
    Idle,
}

/// What the turn has come to after a key was handled.
#[derive(Clone, Copy, Debug, PartialEq, Eq, Structural)]
pub enum PlayerAction {
    TookTurn,
    DidntTakeTurn,
    Exit,
}

/// What the key means while the game goes on.
pub open spec fn playing_command(key: Key) -> Command {
    match key.code {
        KeyCode::Up | KeyCode::NumPad8 => Command::Move(0i32, -1i32),
        KeyCode::Down | KeyCode::NumPad2 => Command::Move(0i32, 1i32),
        KeyCode::Left | KeyCode::NumPad4 => Command::Move(-1i32, 0i32),
        KeyCode::Right | KeyCode::NumPad6 => Command::Move(1i32, 0i32),
        KeyCode::Home | KeyCode::NumPad7 => Command::Move(-1i32, -1i32),
        KeyCode::PageUp | KeyCode::NumPad9 => Command::Move(1i32, -1i32),
        KeyCode::End | KeyCode::NumPad1 => Command::Move(-1i32, 1i32),
        KeyCode::PageDown | KeyCode::NumPad3 => Command::Move(1i32, 1i32),
        KeyCode::NumPad5 => Command::Wait,
        _ => if key.printable == 'g' {
            Command::PickUp
        } else if key.printable == 'i' {
            Command::UseItem
        } else if key.printable == 'd' {
            Command::DropItem
        } else if key.printable == 'c' {
            Command::ShowCharacter
        } else if key.printable == '<' {
            Command::Descend
        } else {
            Command::Idle
        },
    }
}

/// What the player means by `key`. The enter key together with the alt
/// key switches to the full screen and back, and the escape key leaves
/// the game, whether the game goes on or not; every other key means
/// something only while it does.
pub open spec fn command_of(key: Option<Key>, state: GameState) -> Command {
    match key {
        Some(key) => if key.code == KeyCode::Enter && key.alt {
            Command::ToggleFullscreen
        } else if key.code == KeyCode::Escape {
            Command::Exit
        } else if state == GameState::Playing {
            playing_command(key)
        } else {
            Command::Idle
        },
        None => Command::Idle,
    }
}

/// What the player means by `key`.
pub fn command_for(key: Option<Key>, state: GameState) -> (command: Command)
    ensures
        command == command_of(key, state),
{
    let key = match key {
        Some(key) => key,
        None => {
            return Command::Idle;
        },
    };
    if key.code == KeyCode::Enter && key.alt {
        return Command::ToggleFullscreen;
    } else if key.code == KeyCode::Escape {
        return Command::Exit;
    }
    if state == GameState::Playing {
        match key.code {
            KeyCode::Up | KeyCode::NumPad8 => Command::Move(0, -1),
            KeyCode::Down | KeyCode::NumPad2 => Command::Move(0, 1),
            KeyCode::Left | KeyCode::NumPad4 => Command::Move(-1, 0),
            KeyCode::Right | KeyCode::NumPad6 => Command::Move(1, 0),
            KeyCode::Home | KeyCode::NumPad7 => Command::Move(-1, -1),
            KeyCode::PageUp | KeyCode::NumPad9 => Command::Move(1, -1),
            KeyCode::End | KeyCode::NumPad1 => Command::Move(-1, 1),
            KeyCode::PageDown | KeyCode::NumPad3 => Command::Move(1, 1),
            KeyCode::NumPad5 => Command::Wait,
            _ => if key.printable == 'g' {
                Command::PickUp
            } else if key.printable == 'i' {
                Command::UseItem
            } else if key.printable == 'd' {
                Command::DropItem
            } else if key.printable == 'c' {
                Command::ShowCharacter
            } else if key.printable == '<' {
                Command::Descend
            } else {
                Command::Idle
            },
        }
    } else {
        Command::Idle
    }
}

/// Whether `object` is an item lying at `(x, y)`.
pub open spec fn item_lies_at(object: ObjectView, x: int, y: int) -> bool {
    object.x == x && object.y == y && object.item is Some
}

/// The first item at or after `from` that lies at `(x, y)`.
pub open spec fn first_item_at(objects: Seq<ObjectView>, x: int, y: int, from: int) -> Option<int>
    decreases objects.len() - from,
{
    if from >= objects.len() {
        None
    } else if item_lies_at(objects[from], x, y) {
        Some(from)
    } else {
        first_item_at(objects, x, y, from + 1)
    }
}

/// Whether `object` is the stairs and stands at `(x, y)`.
pub open spec fn stairs_stand_at(object: ObjectView, x: int, y: int) -> bool {
    object.x == x && object.y == y && object.name == "stairs"@
}

/// Whether the player stands on the stairs.
pub open spec fn on_stairs(objects: Seq<ObjectView>) -> bool {
    exists|i: int|
        0 <= i < objects.len() && stairs_stand_at(
            #[trigger] objects[i],
            objects[PLAYER as int].x as int,
            objects[PLAYER as int].y as int,
        )
}

/// The first item that lies at `(x, y)`.
pub fn item_at(x: i32, y: i32, objects: &Vec<Object>) -> (found: Option<usize>)
    ensures
        match found {
            Some(id) => first_item_at(views(objects@), x as int, y as int, 0) == Some(id as int) && id
                < objects@.len(),
            None => first_item_at(views(objects@), x as int, y as int, 0) is None,
        },
{
    let mut id: usize = 0;
    while id < objects.len()
        invariant
            id <= objects@.len(),
            first_item_at(views(objects@), x as int, y as int, 0) == first_item_at(
                views(objects@),
                x as int,
                y as int,
                id as int,
            ),
        decreases objects@.len() - id,
    {
        if objects[id].x == x && objects[id].y == y && objects[id].item.is_some() {
            return Some(id);
        }
        id = id + 1;
    }
    None
}

/// Whether the player stands on the stairs.
pub fn player_on_stairs(objects: &Vec<Object>) -> (b: bool)
    requires
        objects@.len() > 0,
    ensures
        b == on_stairs(views(objects@)),
{
    let (px, py) = objects[PLAYER].pos();
    let mut id: usize = 0;
    while id < objects.len()
        invariant
            id <= objects@.len(),
            objects@.len() > 0,
            px == objects@[PLAYER as int].x,
            py == objects@[PLAYER as int].y,
            forall|i: int| 0 <= i < id ==> !stairs_stand_at(#[trigger] views(objects@)[i], px as int, py as int),
        decreases objects@.len() - id,
    {
        if objects[id].x == px && objects[id].y == py && same_text(objects[id].name.as_str(), "stairs") {
            assert(stairs_stand_at(views(objects@)[id as int], px as int, py as int));
            return true;
        }
        id = id + 1;
    }
    false
}

/// The world after the player tries to pick something up: the first item
/// underfoot, if there is one.
pub open spec fn after_grab(w: World) -> World {
    match first_item_at(
        w.objects,
        w.objects[PLAYER as int].x as int,
        w.objects[PLAYER as int].y as int,
        0,
    ) {
        Some(id) => after_pick_up(w, id),
        None => w,
    }
}

/// Whether `command` can be carried out.
pub open spec fn command_fits(w: World, command: Command) -> bool {
    &&& w.objects.len() > 0
    &&& match command {
        Command::Move(dx, dy) => player_move_fits(w, dx as int, dy as int),
        Command::Descend => on_stairs(w.objects) ==> descent_fits(w),
        _ => true,
    }
}

/// What carrying out `command` leads from `before` to `after`. Moving,
/// picking up and waiting do what they say. Going down leads, from the
/// stairs, to a new level generated around the rested player, and
/// nowhere from anywhere else. Everything else leaves the world alone,
/// for the caller to follow up.
pub open spec fn command_leads(before: World, after: World, command: Command) -> bool {
    match command {
        Command::Move(dx, dy) => after == after_player_move(before, dx as int, dy as int),
        Command::PickUp => after == after_grab(before),
        Command::Descend => if on_stairs(before.objects) {
            &&& generated(
                rested(before.objects[PLAYER as int], before.game.inventory),
                after.objects,
                after.game.map,
                before.game.dungeon_level + 1,
            )
            &&& after.game == after_descent(before.game, after.game.map)
        } else {
            after == before
        },
        _ => after == before,
    }
}

/// What the turn comes to once `command` is carried out: moving and
/// waiting take the turn, leaving leaves, and nothing else takes a turn.
pub open spec fn action_of(command: Command) -> PlayerAction {
    match command {
        Command::Exit => PlayerAction::Exit,
        Command::Move(dx, dy) => PlayerAction::TookTurn,
        Command::Wait => PlayerAction::TookTurn,
        _ => PlayerAction::DidntTakeTurn,
    }
}

/// Carries out what the player means by a key, as far as the world alone
/// is concerned.
pub fn run_command(command: Command, objects: &mut Vec<Object>, game: &mut Game) -> (action: PlayerAction)
    requires
        command_fits(world_of(old(objects)@, *old(game)), command),
    ensures
        command_leads(world_of(old(objects)@, *old(game)), world_of(final(objects)@, *final(game)), command),
        action == action_of(command),
{
    assert(views(objects@).len() == objects@.len());
    match command {
        Command::Exit => PlayerAction::Exit,
        Command::Move(dx, dy) => {
            player_move_or_attack(dx, dy, objects, game);
            PlayerAction::TookTurn
        },
        Command::Wait => PlayerAction::TookTurn,
        Command::PickUp => {
            let (px, py) = objects[PLAYER].pos();
            match item_at(px, py, objects) {
                Some(item_id) => {
                    pick_item_up(item_id, objects, game);
                },
                None => {},
            }
            PlayerAction::DidntTakeTurn
        },
        Command::Descend => {
            if player_on_stairs(objects) {
                game.next_level(objects);
            }
            PlayerAction::DidntTakeTurn
        },
        _ => PlayerAction::DidntTakeTurn,
    }
}

/// Handles a key: finds out what the player means by it and carries it
/// out as far as the world alone is concerned. Returns what the turn has
/// come to, and the command for the caller to follow up.
pub fn handle_keys(key: Option<Key>, objects: &mut Vec<Object>, game: &mut Game) -> (handled: (
    PlayerAction,
    Command,
))
    requires
        command_fits(world_of(old(objects)@, *old(game)), command_of(key, old(game).state)),
    ensures
        handled.1 == command_of(key, old(game).state),
        command_leads(world_of(old(objects)@, *old(game)), world_of(final(objects)@, *final(game)), handled.1),
        handled.0 == action_of(handled.1),
        world_of(old(objects)@, *old(game)).ok() ==> world_of(final(objects)@, *final(game)).ok(),
{
    let command = command_for(key, game.state);
    let action = run_command(command, objects, game);
    proof {
        if world_of(old(objects)@, *old(game)).ok() {
            crate::play::lemma_command_keeps_play(
                world_of(old(objects)@, *old(game)),
                world_of(objects@, *game),
                key,
            );
        }
    }
    (action, command)
}

/// Whether the monsters get their turns after the player's: only while
/// the game goes on, and only if the player took a turn.
pub open spec fn monsters_due(state: GameState, action: PlayerAction) -> bool {
    state == GameState::Playing && action == PlayerAction::TookTurn
}

/// Ends the turn: where the player took one and the game goes on, every
/// object of the level takes its own, the last one first.
pub fn finish_turn(action: PlayerAction, objects: &mut Vec<Object>, game: &mut Game, fov: &Visibility) -> (ran:
    bool)
    requires
        monsters_due(old(game).state, action) ==> round_fits(world_of(old(objects)@, *old(game))),
    ensures
        ran == monsters_due(old(game).state, action),
        ran ==> exists|trace: Seq<World>| #[trigger]
            is_round(trace, world_of(old(objects)@, *old(game)), world_of(final(objects)@, *final(game)), *fov),
        !ran ==> *final(objects) == *old(objects) && *final(game) == *old(game),
{
    if game.state == GameState::Playing && action == PlayerAction::TookTurn {
        monsters_take_turns(objects, game, fov);
        true
    } else {
        false
    }
}

} // verus!
