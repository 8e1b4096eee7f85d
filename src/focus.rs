use vstd::prelude::*;
use crate::bodies::{BodyStore, Coord};

verus! {

/// Index, in creation order, of the body the camera follows.
#[derive(Clone, Copy, Debug, PartialEq, Eq, Structural)]
pub struct Ordinal(pub usize);

/// Smoothness of the camera's pan towards its target, in hundredths:
/// 0 moves at once, larger values glide.
#[derive(Clone, Copy, Debug, PartialEq, Eq, Structural)]
pub struct PanSoft(pub u32);

/// Smoothness set when the followed body changes, so the camera glides to it.
pub const PANSOFT_ON_SWITCH: u32 = 90;

/// How much smoothness fades per fixed tick.
pub const PANSOFT_DECAY: u32 = 5;

/// The body before `i` in creation order, wrapping from the first to the last.
pub open spec fn previous_index(i: int, count: int) -> int {
    if i == 0 {
        count - 1
    } else {
        i - 1
    }
}

/// The body after `i` in creation order, wrapping from the last to the first.
pub open spec fn next_index(i: int, count: int) -> int {
    if i == count - 1 {
        0
    } else {
        i + 1
    }
}

/// Lets the pan smoothness fade by one step, never below zero.
pub fn update_pansoft(pansoft: &mut PanSoft)
    ensures
        final(pansoft).0 == (if old(pansoft).0 >= PANSOFT_DECAY {
            old(pansoft).0 - PANSOFT_DECAY
        } else {
            0
        }),
{
    if pansoft.0 >= PANSOFT_DECAY {
        pansoft.0 = pansoft.0 - PANSOFT_DECAY;
    } else {
        pansoft.0 = 0;
    }
}

/// Moves the followed body among `count` bodies: `left` steps to the previous
/// one, then `right` to the next one, each wrapping around. Any step resets the
/// pan smoothness so the camera glides to the new body.
pub fn switch_focus_body(
    ordinal: &mut Ordinal,
    pansoft: &mut PanSoft,
    count: usize,
    left: bool,
    right: bool,
)
    requires
        left || right ==> old(ordinal).0 < count,
    ensures
        ({
            let after_left = if left {
                previous_index(old(ordinal).0 as int, count as int)
            } else {
                old(ordinal).0 as int
            };
            final(ordinal).0 == (if right {
                next_index(after_left, count as int)
            } else {
                after_left
            })
        }),
        left || right ==> final(ordinal).0 < count,
        final(pansoft).0 == (if left || right {
            PANSOFT_ON_SWITCH
        } else {
            old(pansoft).0
        }),
{
    if left {
        pansoft.0 = PANSOFT_ON_SWITCH;
        ordinal.0 = if ordinal.0 == 0 {
            count - 1
        } else {
            ordinal.0 - 1
        };
    }
    if right {
        pansoft.0 = PANSOFT_ON_SWITCH;
        ordinal.0 = if ordinal.0 == count - 1 {
            0
        } else {
            ordinal.0 + 1
        };
    }
}

/// Where the camera should aim: the position of the followed body and the
/// current pan smoothness, or `None` when no body has that index.
pub fn look_at_target<V: Copy>(bodies: &BodyStore<V>, ordinal: &Ordinal, pansoft: &PanSoft) -> (r:
    Option<(Coord<V>, PanSoft)>)
    ensures
        r is Some <==> ordinal.0 < bodies@.len(),
        r is Some ==> r->Some_0.0.0 == bodies@[ordinal.0 as int].coord && r->Some_0.1 == *pansoft,
{
    if ordinal.0 < bodies.len() {
        let b = bodies.body(ordinal.0);
        Some((Coord(b.coord.0), *pansoft))
    } else {
        None
    }
}

} // verus!
