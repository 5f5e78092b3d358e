//! Accumulate-then-drain input state.
//!
//! Pointer and wheel events accumulate into deltas; the render loop drains
//! a delta once per frame and zeroes it.  Cursor positions arrive in
//! micro-pixels and are clamped into a fixed window so that every later
//! conversion stays in range; accumulated deltas saturate at the same
//! bounds.

use vstd::prelude::*;

verus! {

/// Largest cursor coordinate and drag delta kept, in micro-pixels (a
/// million pixels from the origin).
pub const INPUT_LIMIT: i64 = 1_000_000_000_000;

/// Largest accumulated scroll delta kept, in micro-units.
pub const SCROLL_LIMIT: i64 = 1_000_000_000_000_000;

#[derive(Clone, Copy, Debug, PartialEq, Eq, Structural)]
pub enum ElementState {
    Pressed,
    Released,
}

#[derive(Clone, Copy, Debug, PartialEq, Eq, Structural)]
pub enum MouseButton {
    Left,
    Right,
    Middle,
    Back,
    Forward,
    Other(u16),
}

/// A wheel movement: whole lines or pixel offsets, both in micro-units.
#[derive(Clone, Copy, Debug, PartialEq)]
pub enum MouseScrollDelta {
    LineDelta(i64, i64),
    PixelDelta((i64, i64)),
}

/// The window events the input state consumes.  Positions are micro-pixels.
#[derive(Clone, Copy, Debug, PartialEq)]
pub enum WindowEvent {
    CursorMoved { position: (i64, i64) },
    MouseInput { state: ElementState, button: MouseButton },
    MouseWheel { delta: MouseScrollDelta },
    KeyboardInput { key: u32, state: ElementState },
    ModifiersChanged(u32),
    Other,
}

pub struct InputState {
    pub mouse_buttons: Vec<MouseButton>,
    pub keys: Vec<u32>,
    pub modifiers: u32,
    pub cursor_position: (i64, i64),
    pub mouse_scroll_delta: i64,
    pub mouse_drag_delta: (i64, i64),
}

pub open spec fn input_wf(s: InputState) -> bool {
    &&& -INPUT_LIMIT <= s.cursor_position.0 <= INPUT_LIMIT
    &&& -INPUT_LIMIT <= s.cursor_position.1 <= INPUT_LIMIT
    &&& -INPUT_LIMIT <= s.mouse_drag_delta.0 <= INPUT_LIMIT
    &&& -INPUT_LIMIT <= s.mouse_drag_delta.1 <= INPUT_LIMIT
    &&& -SCROLL_LIMIT <= s.mouse_scroll_delta <= SCROLL_LIMIT
}

/// `x` clamped into `[-lim, lim]`.
pub open spec fn clamp_to(x: int, lim: int) -> int {
    if x > lim {
        lim
    } else if x < -lim {
        -lim
    } else {
        x
    }
}

/// A sequence with every occurrence of one element removed.
pub open spec fn without<T>(s: Seq<T>, x: T) -> Seq<T>
    decreases s.len(),
{
    if s.len() == 0 {
        s
    } else if s.last() == x {
        without(s.drop_last(), x)
    } else {
        without(s.drop_last(), x).push(s.last())
    }
}

/// A sequence extended by an element unless it is already present.
pub open spec fn inserted<T>(s: Seq<T>, x: T) -> Seq<T> {
    if s.contains(x) {
        s
    } else {
        s.push(x)
    }
}

/// Executable clamp into `[-lim, lim]` on a wide intermediate.
fn clamp_exec(x: i128, lim: i64) -> (r: i64)
    requires
        0 < lim,
    ensures
        r as int == clamp_to(x as int, lim as int),
{
    if x > lim as i128 {
        lim
    } else if x < -(lim as i128) {
        -lim
    } else {
        x as i64
    }
}

impl InputState {
    /// A fresh input state: nothing pressed, all deltas zero.
    pub fn new() -> (s: InputState)
        ensures
            s.mouse_buttons@ == Seq::<MouseButton>::empty(),
            s.keys@ == Seq::<u32>::empty(),
            s.modifiers == 0,
            s.cursor_position == (0i64, 0i64),
            s.mouse_scroll_delta == 0,
            s.mouse_drag_delta == (0i64, 0i64),
            input_wf(s),
    {
        InputState {
            mouse_buttons: Vec::new(),
            keys: Vec::new(),
            modifiers: 0,
            cursor_position: (0, 0),
            mouse_scroll_delta: 0,
            mouse_drag_delta: (0, 0),
        }
    }

    /// The accumulated scroll delta since the last call, zeroing it.
    pub fn consume_scroll_delta(&mut self) -> (delta: i64)
        ensures
            delta == old(self).mouse_scroll_delta,
            *final(self) == (InputState { mouse_scroll_delta: 0i64, ..*old(self) }),
    {
        let delta = self.mouse_scroll_delta;
        self.mouse_scroll_delta = 0;
        delta
    }

    /// The accumulated drag delta since the last call, zeroing it.
    pub fn consume_drag_delta(&mut self) -> (delta: (i64, i64))
        ensures
            delta == old(self).mouse_drag_delta,
            *final(self) == (InputState { mouse_drag_delta: (0i64, 0i64), ..*old(self) }),
    {
        let delta = self.mouse_drag_delta;
        self.mouse_drag_delta = (0, 0);
        delta
    }

    pub fn is_mouse_button_pressed(&self, button: MouseButton) -> (r: bool)
        ensures
            r == self.mouse_buttons@.contains(button),
    {
        let mut i: usize = 0;
        while i < self.mouse_buttons.len()
            invariant
                i <= self.mouse_buttons@.len(),
                forall|t: int| 0 <= t < i ==> self.mouse_buttons@[t] != button,
            decreases self.mouse_buttons@.len() - i,
        {
            if self.mouse_buttons[i] == button {
                return true;
            }
            i = i + 1;
        }
        false
    }

    pub fn is_key_pressed(&self, key: u32) -> (r: bool)
        ensures
            r == self.keys@.contains(key),
    {
        let mut i: usize = 0;
        while i < self.keys.len()
            invariant
                i <= self.keys@.len(),
                forall|t: int| 0 <= t < i ==> self.keys@[t] != key,
            decreases self.keys@.len() - i,
        {
            if self.keys[i] == key {
                return true;
            }
            i = i + 1;
        }
        false
    }

    /// Performs the update an event asks for: accumulate cursor drag while
    /// the left button is held, track pressed buttons and keys, accumulate
    /// wheel scroll, record modifiers.
    pub fn eat_event(&mut self, event: WindowEvent)
        requires
            input_wf(*old(self)),
        ensures
            input_wf(*final(self)),
            event matches WindowEvent::CursorMoved { position } ==> {
                let px = clamp_to(position.0 as int, INPUT_LIMIT as int);
                let py = clamp_to(position.1 as int, INPUT_LIMIT as int);
                &&& final(self).cursor_position.0 == px
                &&& final(self).cursor_position.1 == py
                &&& old(self).mouse_buttons@.contains(MouseButton::Left) ==> {
                    &&& final(self).mouse_drag_delta.0 == clamp_to(
                        old(self).mouse_drag_delta.0 + px - old(self).cursor_position.0,
                        INPUT_LIMIT as int,
                    )
                    &&& final(self).mouse_drag_delta.1 == clamp_to(
                        old(self).mouse_drag_delta.1 + py - old(self).cursor_position.1,
                        INPUT_LIMIT as int,
                    )
                }
                &&& !old(self).mouse_buttons@.contains(MouseButton::Left) ==> final(self).mouse_drag_delta == old(self).mouse_drag_delta
                &&& final(self).mouse_buttons@ == old(self).mouse_buttons@
                &&& final(self).keys@ == old(self).keys@
                &&& final(self).modifiers == old(self).modifiers
                &&& final(self).mouse_scroll_delta == old(self).mouse_scroll_delta
            },
            event matches WindowEvent::MouseInput { state, button } ==> {
                &&& state == ElementState::Pressed ==> final(self).mouse_buttons@ == inserted(
                    old(self).mouse_buttons@,
                    button,
                )
                &&& state == ElementState::Released ==> final(self).mouse_buttons@ == without(
                    old(self).mouse_buttons@,
                    button,
                )
                &&& final(self).keys@ == old(self).keys@
                &&& final(self).cursor_position == old(self).cursor_position
                &&& final(self).mouse_drag_delta == old(self).mouse_drag_delta
                &&& final(self).mouse_scroll_delta == old(self).mouse_scroll_delta
                &&& final(self).modifiers == old(self).modifiers
            },
            event matches WindowEvent::MouseWheel { delta } ==> {
                let add = match delta {
                    MouseScrollDelta::LineDelta(x, y) => 10 * (y as int),
                    MouseScrollDelta::PixelDelta(p) => p.1 as int,
                };
                &&& final(self).mouse_scroll_delta == clamp_to(
                    old(self).mouse_scroll_delta + add,
                    SCROLL_LIMIT as int,
                )
                &&& final(self).mouse_buttons@ == old(self).mouse_buttons@
                &&& final(self).keys@ == old(self).keys@
                &&& final(self).cursor_position == old(self).cursor_position
                &&& final(self).mouse_drag_delta == old(self).mouse_drag_delta
                &&& final(self).modifiers == old(self).modifiers
            },
            event matches WindowEvent::KeyboardInput { key, state } ==> {
                &&& state == ElementState::Pressed ==> final(self).keys@ == inserted(
                    old(self).keys@,
                    key,
                )
                &&& state == ElementState::Released ==> final(self).keys@ == without(
                    old(self).keys@,
                    key,
                )
                &&& final(self).mouse_buttons@ == old(self).mouse_buttons@
                &&& final(self).cursor_position == old(self).cursor_position
                &&& final(self).mouse_drag_delta == old(self).mouse_drag_delta
                &&& final(self).mouse_scroll_delta == old(self).mouse_scroll_delta
                &&& final(self).modifiers == old(self).modifiers
            },
            event matches WindowEvent::ModifiersChanged(m) ==> *final(self) == (InputState {
                modifiers: m,
                ..*old(self)
            }),
            event == WindowEvent::Other ==> *final(self) == *old(self),
    {
        match event {
            WindowEvent::CursorMoved { position } => {
                let px = clamp_exec(position.0 as i128, INPUT_LIMIT);
                let py = clamp_exec(position.1 as i128, INPUT_LIMIT);
                if self.is_mouse_button_pressed(MouseButton::Left) {
                    let dx = clamp_exec(
                        self.mouse_drag_delta.0 as i128 + px as i128 - self.cursor_position.0
                            as i128,
                        INPUT_LIMIT,
                    );
                    let dy = clamp_exec(
                        self.mouse_drag_delta.1 as i128 + py as i128 - self.cursor_position.1
                            as i128,
                        INPUT_LIMIT,
                    );
                    self.mouse_drag_delta = (dx, dy);
                }
                self.cursor_position = (px, py);
            },
            WindowEvent::MouseInput { state, button } => {
                match state {
                    ElementState::Pressed => {
                        if !self.is_mouse_button_pressed(button) {
                            self.mouse_buttons.push(button);
                        }
                    },
                    ElementState::Released => {
                        let mut kept: Vec<MouseButton> = Vec::new();
                        let mut i: usize = 0;
                        while i < self.mouse_buttons.len()
                            invariant
                                i <= self.mouse_buttons@.len(),
                                kept@ == without(self.mouse_buttons@.take(i as int), button),
                            decreases self.mouse_buttons@.len() - i,
                        {
                            let b = self.mouse_buttons[i];
                            proof {
                                assert(self.mouse_buttons@.take(i as int + 1).drop_last()
                                    =~= self.mouse_buttons@.take(i as int));
                            }
                            if b != button {
                                kept.push(b);
                            }
                            i = i + 1;
                        }
                        proof {
                            assert(self.mouse_buttons@.take(self.mouse_buttons@.len() as int)
                                =~= self.mouse_buttons@);
                        }
                        self.mouse_buttons = kept;
                    },
                }
            },
            WindowEvent::MouseWheel { delta } => {
                let add: i128 = match delta {
                    MouseScrollDelta::LineDelta(_x, y) => 10 * (y as i128),
                    MouseScrollDelta::PixelDelta(p) => p.1 as i128,
                };
                self.mouse_scroll_delta = clamp_exec(
                    self.mouse_scroll_delta as i128 + add,
                    SCROLL_LIMIT,
                );
            },
            WindowEvent::KeyboardInput { key, state } => {
                match state {
                    ElementState::Pressed => {
                        if !self.is_key_pressed(key) {
                            self.keys.push(key);
                        }
                    },
                    ElementState::Released => {
                        let mut kept: Vec<u32> = Vec::new();
                        let mut i: usize = 0;
                        while i < self.keys.len()
                            invariant
                                i <= self.keys@.len(),
                                kept@ == without(self.keys@.take(i as int), key),
                            decreases self.keys@.len() - i,
                        {
                            let k = self.keys[i];
                            proof {
                                assert(self.keys@.take(i as int + 1).drop_last() =~= self.keys@.take(
                                    i as int,
                                ));
                            }
                            if k != key {
                                kept.push(k);
                            }
                            i = i + 1;
                        }
                        proof {
                            assert(self.keys@.take(self.keys@.len() as int) =~= self.keys@);
                        }
                        self.keys = kept;
                    },
                }
            },
            WindowEvent::ModifiersChanged(m) => {
                self.modifiers = m;
            },
            WindowEvent::Other => {},
        }
    }
}

} // verus!
