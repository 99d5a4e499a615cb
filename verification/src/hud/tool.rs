//! The HUD's tools: where each user's tool is, and what it draws with.
use vstd::prelude::*;

use bevy::color::Color;
use bevy::math::Vec3;

verus! {

/// Where a user's tool is.
#[derive(Default, Debug, Clone, Copy)]
pub struct Location {
    pub position: Vec3,
}

/// A tool, and the color it draws with.
#[derive(Default, Debug, Clone, Copy)]
pub struct Tool {
    pub color: Color,
}

/// The tools available to the users.
#[derive(Default, Debug)]
pub struct ToolManager {
    pub _tools: Vec<Tool>,
}

/// Moves every tool to each input position in turn: after the events of a
/// frame, every tool is at the position of the last one; without events
/// the tools stay.
pub fn sync_tool_position(input_positions: &Vec<Vec3>, locations: &mut Vec<Location>)
    ensures
        final(locations)@.len() == old(locations)@.len(),
        forall|i: int|
            0 <= i < old(locations)@.len() ==> (#[trigger] final(locations)@[i]).position == if input_positions@.len()
                == 0 {
                old(locations)@[i].position
            } else {
                input_positions@.last()
            },
{
    let mut e: usize = 0;
    while e < input_positions.len()
        invariant
            e <= input_positions@.len(),
            locations@.len() == old(locations)@.len(),
            forall|i: int|
                0 <= i < locations@.len() ==> (#[trigger] locations@[i]).position == if e == 0 {
                    old(locations)@[i].position
                } else {
                    input_positions@[e - 1]
                },
        decreases input_positions@.len() - e,
    {
        let position = input_positions[e];
        let mut i: usize = 0;
        while i < locations.len()
            invariant
                i <= locations@.len(),
                e < input_positions@.len(),
                position == input_positions@[e as int],
                locations@.len() == old(locations)@.len(),
                forall|j: int| 0 <= j < i ==> (#[trigger] locations@[j]).position == position,
                forall|j: int|
                    i <= j < locations@.len() ==> (#[trigger] locations@[j]).position == if e == 0 {
                        old(locations)@[j].position
                    } else {
                        input_positions@[e - 1]
                    },
            decreases locations@.len() - i,
        {
            locations.set(i, Location { position });
            i = i + 1;
        }
        e = e + 1;
    }
}

} // verus!
