//! The HUD's gamepad: the first gamepad that connects is the one the HUD
//! listens to, until it disconnects.
use vstd::prelude::*;

use bevy::ecs::entity::Entity;

use crate::outside::entity_eq;

verus! {

/// The gamepad the HUD listens to.
#[derive(Debug, Clone, Copy)]
pub struct MyGamepad {
    pub gamepad: Entity,
}

impl From<Entity> for MyGamepad {
    /// The gamepad of the given entity.
    fn from(gamepad: Entity) -> (g: Self) {
        MyGamepad { gamepad }
    }
}

impl vstd::std_specs::convert::FromSpecImpl<Entity> for MyGamepad {
    open spec fn obeys_from_spec() -> bool {
        true
    }

    open spec fn from_spec(gamepad: Entity) -> MyGamepad {
        MyGamepad { gamepad }
    }
}

/// A gamepad event, as far as the HUD reads it.
#[derive(Debug, Clone, Copy)]
pub enum GamepadEvent {
    /// The gamepad connected.
    Connected(Entity),
    /// The gamepad disconnected.
    Disconnected(Entity),
    /// Any other gamepad event.
    Other,
}

/// What the HUD does to its gamepad resource.
#[derive(Debug, Clone, Copy)]
pub enum GamepadCommand {
    /// Listen to this gamepad.
    Insert(MyGamepad),
    /// Stop listening.
    Remove,
}

/// The command one event asks for, given the gamepad the HUD listened to
/// when the frame started: a connection is taken when there was none; a
/// disconnection of that very gamepad drops it.
pub open spec fn gamepad_command(my_gamepad: Option<MyGamepad>, event: GamepadEvent) -> Option<GamepadCommand> {
    match event {
        GamepadEvent::Connected(g) => if my_gamepad is None {
            Some(GamepadCommand::Insert(MyGamepad { gamepad: g }))
        } else {
            None
        },
        GamepadEvent::Disconnected(g) => if my_gamepad is Some && my_gamepad->0.gamepad == g {
            Some(GamepadCommand::Remove)
        } else {
            None
        },
        GamepadEvent::Other => None,
    }
}

/// The commands of a sequence of events, in order.
pub open spec fn gamepad_commands(my_gamepad: Option<MyGamepad>, events: Seq<GamepadEvent>) -> Seq<GamepadCommand>
    decreases events.len(),
{
    if events.len() == 0 {
        Seq::empty()
    } else {
        let prev = gamepad_commands(my_gamepad, events.drop_last());
        match gamepad_command(my_gamepad, events.last()) {
            Some(c) => prev.push(c),
            None => prev,
        }
    }
}

/// The commands that the gamepad events of one frame ask for, in order.
/// The resource is read once, as it was when the frame started.
pub fn debug_connections(my_gamepad: &Option<MyGamepad>, events: &Vec<GamepadEvent>) -> (cmds: Vec<GamepadCommand>)
    ensures
        cmds@ == gamepad_commands(*my_gamepad, events@),
{
    let mut cmds: Vec<GamepadCommand> = Vec::new();
    let mut i: usize = 0;
    while i < events.len()
        invariant
            i <= events@.len(),
            cmds@ == gamepad_commands(*my_gamepad, events@.take(i as int)),
        decreases events@.len() - i,
    {
        assert(events@.take(i + 1).drop_last() =~= events@.take(i as int));
        assert(events@.take(i + 1).last() == events@[i as int]);
        match events[i] {
            GamepadEvent::Connected(gamepad) => {
                if my_gamepad.is_none() {
                    cmds.push(GamepadCommand::Insert(MyGamepad::from(gamepad)));
                }
            },
            GamepadEvent::Disconnected(gamepad) => {
                match my_gamepad {
                    Some(mine) => {
                        if entity_eq(&mine.gamepad, &gamepad) {
                            cmds.push(GamepadCommand::Remove);
                        }
                    },
                    None => {},
                }
            },
            GamepadEvent::Other => {},
        }
        i = i + 1;
    }
    assert(events@.take(events@.len() as int) =~= events@);
    cmds
}

/// The gamepad resource after applying commands in order.
pub open spec fn apply_gamepad_commands(my_gamepad: Option<MyGamepad>, cmds: Seq<GamepadCommand>) -> Option<MyGamepad>
    decreases cmds.len(),
{
    if cmds.len() == 0 {
        my_gamepad
    } else {
        match cmds.last() {
            GamepadCommand::Insert(g) => Some(g),
            GamepadCommand::Remove => None,
        }
    }
}

/// A HUD that already listens to a gamepad never switches to another one
/// in a frame: it either keeps its gamepad or drops it.
pub proof fn lemma_listened_gamepad_is_kept_or_dropped(mine: MyGamepad, events: Seq<GamepadEvent>)
    ensures
        ({
            let after = apply_gamepad_commands(Some(mine), gamepad_commands(Some(mine), events));
            after == Some(mine) || after is None
        }),
    decreases events.len(),
{
    if events.len() > 0 {
        lemma_listened_gamepad_is_kept_or_dropped(mine, events.drop_last());
    }
}

} // verus!
