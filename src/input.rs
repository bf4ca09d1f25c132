//! The per-frame input snapshot.
use vstd::prelude::*;
use crate::fixed::{fixed_mul, fmul_wide, HALF};
use crate::vec::Vec2;

verus! {

/// What happened to a key.
#[derive(Clone, Copy, Debug, PartialEq, Eq, Structural)]
pub enum Action {
    Press,
    Release,
    Repeat,
}

/// The keys the core recognizes; every other key is `Other`.
#[derive(Clone, Copy, Debug, PartialEq, Eq, Structural)]
pub enum Key {
    W,
    A,
    S,
    D,
    Escape,
    Other,
}

/// The key events observed since the last frame, in order, and the pointer position.
#[derive(Clone, Debug)]
pub struct InputDatas {
    pub keys: Vec<(Action, Key)>,
    pub mouse_position: Vec2,
}

/// Whether the escape key appears in the snapshot, with any action.
pub open spec fn escape_requested(keys: Seq<(Action, Key)>) -> bool {
    exists|i: int| 0 <= i < keys.len() && (#[trigger] keys[i]).1 == Key::Escape
}

/// Whether the session should end: the escape key was seen.
pub fn test_should_close(inputs: &InputDatas) -> (r: bool)
    ensures
        r == escape_requested(inputs.keys@),
{
    let mut i: usize = 0;
    while i < inputs.keys.len()
        invariant
            i <= inputs.keys@.len(),
            forall|j: int| 0 <= j < i ==> (#[trigger] inputs.keys@[j]).1 != Key::Escape,
        decreases inputs.keys@.len() - i,
    {
        if inputs.keys[i].1 == Key::Escape {
            return true;
        }
        i += 1;
    }
    false
}

/// The held movement keys, polled in the order W, D, S, A, as press events.
pub open spec fn held_events(w: bool, d: bool, s: bool, a: bool) -> Seq<(Action, Key)> {
    (if w {
        seq![(Action::Press, Key::W)]
    } else {
        seq![]
    }) + (if d {
        seq![(Action::Press, Key::D)]
    } else {
        seq![]
    }) + (if s {
        seq![(Action::Press, Key::S)]
    } else {
        seq![]
    }) + (if a {
        seq![(Action::Press, Key::A)]
    } else {
        seq![]
    })
}

/// The pointer position, or the window's center where the pointer reads `(0, 0)`,
/// as it does before the window has reported one.
pub open spec fn pointer_or_center(cursor: Vec2, window_size: Vec2) -> Vec2 {
    if cursor.x == 0 && cursor.y == 0 {
        Vec2 {
            x: fixed_mul(window_size.x as int, HALF as int) as i32,
            y: fixed_mul(window_size.y as int, HALF as int) as i32,
        }
    } else {
        cursor
    }
}

/// The snapshot of a frame: the key events received since the last frame, in
/// order, followed by a press for each movement key held down, and the pointer.
pub fn collect_input(
    events: Vec<(Action, Key)>,
    held_w: bool,
    held_d: bool,
    held_s: bool,
    held_a: bool,
    cursor: Vec2,
    window_size: Vec2,
) -> (r: InputDatas)
    ensures
        r.keys@ == events@ + held_events(held_w, held_d, held_s, held_a),
        r.mouse_position == pointer_or_center(cursor, window_size),
{
    let mut keys = events;
    let ghost start = keys@;
    let ghost (w, d, s, a) = (
        if held_w {
            seq![(Action::Press, Key::W)]
        } else {
            seq![]
        },
        if held_d {
            seq![(Action::Press, Key::D)]
        } else {
            seq![]
        },
        if held_s {
            seq![(Action::Press, Key::S)]
        } else {
            seq![]
        },
        if held_a {
            seq![(Action::Press, Key::A)]
        } else {
            seq![]
        },
    );
    if held_w {
        keys.push((Action::Press, Key::W));
    }
    assert(keys@ =~= start + w);
    if held_d {
        keys.push((Action::Press, Key::D));
    }
    assert(keys@ =~= start + w + d);
    if held_s {
        keys.push((Action::Press, Key::S));
    }
    assert(keys@ =~= start + w + d + s);
    if held_a {
        keys.push((Action::Press, Key::A));
    }
    assert(keys@ =~= start + w + d + s + a);
    assert(held_events(held_w, held_d, held_s, held_a) =~= w + d + s + a);
    assert(start + w + d + s + a =~= start + (w + d + s + a));
    let mouse_position = if cursor.x == 0 && cursor.y == 0 {
        proof {
            crate::fixed::lemma_half_bound(window_size.x);
            crate::fixed::lemma_half_bound(window_size.y);
        }
        Vec2 {
            x: fmul_wide(window_size.x, HALF) as i32,
            y: fmul_wide(window_size.y, HALF) as i32,
        }
    } else {
        cursor
    };
    InputDatas { keys, mouse_position }
}

} // verus!
