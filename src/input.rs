use vstd::prelude::*;

verus! {

/// The input events the simulation reads. Cursor positions are in window
/// pixels; only the left mouse button is told apart.
#[derive(Debug, Copy, Clone, PartialEq, Eq, Structural)]
pub enum InputEvent {
    CloseRequested,
    CursorMoved(i32, i32),
    LeftButton(bool),
    Other,
}

/// What one tick learns from the events drained at its start.
#[derive(Debug, Copy, Clone, PartialEq, Eq, Structural)]
pub struct TickInput {
    pub close: bool,
    pub lmb_pressed: bool,
    pub lmb_released: bool,
}

/// The cursor position and tick input after reading `s` in order, starting
/// from `cursor`; nothing after a close request is read.
pub open spec fn read_events(cursor: (i32, i32), s: Seq<InputEvent>) -> ((i32, i32), TickInput)
    decreases s.len(),
{
    if s.len() == 0 {
        (cursor, TickInput { close: false, lmb_pressed: false, lmb_released: false })
    } else {
        let (c, t) = read_events(cursor, s.drop_last());
        if t.close {
            (c, t)
        } else {
            match s.last() {
                InputEvent::CloseRequested => (c, TickInput { close: true, ..t }),
                InputEvent::CursorMoved(x, y) => ((x, y), t),
                InputEvent::LeftButton(pressed) => if pressed {
                    (c, TickInput { lmb_pressed: true, ..t })
                } else {
                    (c, TickInput { lmb_released: true, ..t })
                },
                InputEvent::Other => (c, t),
            }
        }
    }
}

/// Reads the events drained for one tick, in the order they came: the
/// cursor follows the last move, and the tick notes whether the left button
/// went down or up and whether the window asked to close.
pub fn poll_events(cursor: &mut (i32, i32), events: &Vec<InputEvent>) -> (r: TickInput)
    ensures
        (*final(cursor), r) == read_events(*old(cursor), events@),
{
    let mut t = TickInput { close: false, lmb_pressed: false, lmb_released: false };
    let mut i: usize = 0;
    while i < events.len()
        invariant
            i <= events@.len(),
            (*cursor, t) == read_events(*old(cursor), events@.take(i as int)),
        decreases events@.len() - i,
    {
        assert(events@.take(i + 1).drop_last() =~= events@.take(i as int));
        if !t.close {
            match events[i] {
                InputEvent::CloseRequested => {
                    t.close = true;
                },
                InputEvent::CursorMoved(x, y) => {
                    *cursor = (x, y);
                },
                InputEvent::LeftButton(pressed) => {
                    if pressed {
                        t.lmb_pressed = true;
                    } else {
                        t.lmb_released = true;
                    }
                },
                InputEvent::Other => {},
            }
        }
        i = i + 1;
    }
    assert(events@.take(i as int) =~= events@);
    t
}

} // verus!
