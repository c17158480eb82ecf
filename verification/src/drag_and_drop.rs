//! Drag-and-drop bookkeeping for word tokens: when a drag may start, how a
//! dragged token follows the pointer, and which sentence region a released
//! token docks into.
//!
//! Each token is either docked under a region or being dragged under a
//! floating parent.  A press on an unlocked token detaches it and freezes
//! its on-screen position; a release looks for the sentence region that
//! spatially contains the token and falls back to the inventory.

use vstd::prelude::*;

use crate::entity::Entity;
use crate::word_id::WordID;

verus! {

/// A draggable word token of the sentence-builder interface.  `locked`
/// mirrors the lock state of the slot the token is docked in; a locked
/// token cannot be picked up.
#[derive(Copy, Clone, PartialEq, Eq, Structural, Debug)]
pub struct DraggableWord {
    pub word_id: WordID,
    pub locked: bool,
}

/// Marker for a token that is currently being dragged.
#[derive(Copy, Clone, PartialEq, Eq, Structural, Debug)]
pub struct Dragging;

/// Marker for the floating UI node that holds tokens while they drag.
#[derive(Copy, Clone, PartialEq, Eq, Structural, Debug)]
pub struct DraggingParent;

/// Fired when a released token changed a sentence region: which region was
/// affected, which token moved, and the token's horizontal screen position
/// at drop time.
#[derive(Copy, Clone, PartialEq, Eq, Structural, Debug)]
pub struct SentenceUIChanged {
    pub ui_parent: Entity,
    pub word_entity: Entity,
    pub word_pos: u32,
}

/// An axis-aligned rectangle in integer screen coordinates, both borders
/// included.
#[derive(Copy, Clone, PartialEq, Eq, Structural, Debug)]
pub struct UiRect {
    pub min_x: i64,
    pub min_y: i64,
    pub max_x: i64,
    pub max_y: i64,
}

impl UiRect {
    /// Whether the point lies inside the rectangle.
    pub open spec fn spec_contains(self, x: int, y: int) -> bool {
        self.min_x <= x <= self.max_x && self.min_y <= y <= self.max_y
    }

    /// Whether the point lies inside the rectangle.
    pub fn contains(&self, x: i64, y: i64) -> (r: bool)
        ensures
            r == self.spec_contains(x as int, y as int),
    {
        self.min_x <= x && x <= self.max_x && self.min_y <= y && y <= self.max_y
    }
}

/// Whether a press starts a drag: only an unlocked token can be picked up,
/// so a slot inside a lock zone keeps its word.
pub fn do_unsnap(token: &DraggableWord, pressed: bool) -> (r: bool)
    ensures
        r == (pressed && !token.locked),
{
    pressed && !token.locked
}

/// The frozen screen position of a dragged token after one frame of pointer
/// motion: the token follows the pointer exactly.
pub fn do_drag(left: i64, top: i64, delta_x: i64, delta_y: i64) -> (r: (i64, i64))
    requires
        -0x2000_0000_0000_0000 < left + delta_x < 0x2000_0000_0000_0000,
        -0x2000_0000_0000_0000 < top + delta_y < 0x2000_0000_0000_0000,
        -0x2000_0000_0000_0000 < left < 0x2000_0000_0000_0000,
        -0x2000_0000_0000_0000 < top < 0x2000_0000_0000_0000,
        -0x2000_0000_0000_0000 < delta_x < 0x2000_0000_0000_0000,
        -0x2000_0000_0000_0000 < delta_y < 0x2000_0000_0000_0000,
    ensures
        r.0 == left + delta_x,
        r.1 == top + delta_y,
{
    (left + delta_x, top + delta_y)
}

/// The first sentence region whose rectangle contains the point, searching
/// front to back; a token dropped outside every region returns to the
/// inventory.
pub open spec fn spec_snap_target(
    parents: Seq<(Entity, UiRect)>,
    x: int,
    y: int,
    inventory: Entity,
) -> Entity
    decreases parents.len(),
{
    if parents.len() == 0 {
        inventory
    } else if parents[0].1.spec_contains(x, y) {
        parents[0].0
    } else {
        spec_snap_target(parents.subrange(1, parents.len() as int), x, y, inventory)
    }
}

/// Decides where a released token docks: the first sentence region that
/// spatially contains it, or the inventory when none does.
pub fn do_snap(
    token_x: i64,
    token_y: i64,
    parents: &Vec<(Entity, UiRect)>,
    inventory: Entity,
) -> (r: Entity)
    ensures
        r == spec_snap_target(parents@, token_x as int, token_y as int, inventory),
{
    let n = parents.len();
    let mut i: usize = 0;
    proof {
        assert(parents@.subrange(0, n as int) =~= parents@);
    }
    while i < n
        invariant
            i <= n,
            n == parents@.len(),
            spec_snap_target(parents@, token_x as int, token_y as int, inventory)
                == spec_snap_target(
                parents@.subrange(i as int, n as int),
                token_x as int,
                token_y as int,
                inventory,
            ),
        decreases n - i,
    {
        let (e, rect) = parents[i];
        proof {
            assert(parents@.subrange(i as int, n as int)[0] == parents@[i as int]);
            assert(parents@.subrange(i as int, n as int).subrange(
                1,
                n as int - i as int,
            ) =~= parents@.subrange(i as int + 1, n as int));
        }
        if rect.contains(token_x, token_y) {
            return e;
        }
        i = i + 1;
    }
    inventory
}

} // verus!
