//! Per-frame application of resolved adjective effects to a live word
//! object: the target scale its size converges toward, and the impulse a
//! fluttering object receives.  The host animates actual values toward
//! these targets with smoothed interpolation; the targets themselves and
//! the direction of convergence are what this module fixes.

use vstd::prelude::*;

use crate::entity::Entity;
use crate::spawn::{AdjectiveStates, FlutteringDirection, WordObject};

verus! {

/// One row of the host's word-object query: the object and its entity.
#[derive(Copy, Clone, PartialEq, Eq, Structural, Debug)]
pub struct QWordObject {
    pub words: WordObject,
    pub entity: Entity,
}

/// The scale multipliers a word object's size converges toward: a wide
/// object grows four times as wide, a tall object four times as tall.
pub fn apply_scalers(adjectives: &AdjectiveStates) -> (r: (u32, u32))
    ensures
        r.0 == (if adjectives.wide {
            4u32
        } else {
            1u32
        }),
        r.1 == (if adjectives.tall {
            4u32
        } else {
            1u32
        }),
{
    let x: u32 = if adjectives.wide {
        4
    } else {
        1
    };
    let y: u32 = if adjectives.tall {
        4
    } else {
        1
    };
    (x, y)
}

/// The impulse direction a fluttering object receives this frame, or
/// nothing when it already moves fast enough along that direction.  Only
/// the upward and rightward directions are ever produced by the game's
/// fans, and only they are handled.
pub fn apply_fluttering(direction: FlutteringDirection, vel_x: i64, vel_y: i64) -> (r: Option<
    (i64, i64),
>)
    requires
        matches!(direction, FlutteringDirection::Up | FlutteringDirection::Right),
    ensures
        direction == FlutteringDirection::Up ==> r == (if -100 < vel_y < 100 {
            Some((0i64, 4i64))
        } else {
            None::<(i64, i64)>
        }),
        direction == FlutteringDirection::Right ==> r == (if -100 < vel_x < 100 {
            Some((16i64, 0i64))
        } else {
            None::<(i64, i64)>
        }),
{
    match direction {
        FlutteringDirection::Up => {
            if -100 < vel_y && vel_y < 100 {
                Some((0, 4))
            } else {
                None
            }
        },
        FlutteringDirection::Right => {
            if -100 < vel_x && vel_x < 100 {
                Some((16, 0))
            } else {
                None
            }
        },
        _ => None,
    }
}

} // verus!
