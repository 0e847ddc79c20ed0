//! Player input: the touch controls' shared state, the keyboard, and their merge.
use vstd::prelude::*;

verus! {

/// What the touch controls hold: three held buttons and a one-shot fire flag.
#[derive(Clone, Copy, Debug, PartialEq, Eq, Structural)]
pub struct VirtualInput {
    pub left: bool,
    pub right: bool,
    pub up: bool,
    pub fire: bool,
}

/// One frame's reading of the touch controls.
#[derive(Clone, Copy, Debug, PartialEq, Eq, Structural)]
pub struct MobileInputState {
    pub left: bool,
    pub right: bool,
    pub up: bool,
    pub fire_just_pressed: bool,
}

/// One frame's reading of the keyboard: keys held, and whether fire went down this frame.
#[derive(Clone, Copy, Debug, PartialEq, Eq, Structural)]
pub struct KeyboardState {
    pub left: bool,
    pub right: bool,
    pub up: bool,
    pub fire_just_pressed: bool,
}

/// The signals the ship is driven by in one frame.
#[derive(Clone, Copy, Debug, PartialEq, Eq, Structural)]
pub struct Controls {
    pub left_pressed: bool,
    pub right_pressed: bool,
    pub up_pressed: bool,
    pub fire_just_pressed: bool,
}

impl VirtualInput {
    /// Nothing held, no shot pending.
    pub fn new() -> (r: VirtualInput)
        ensures
            !r.left && !r.right && !r.up && !r.fire,
    {
        VirtualInput { left: false, right: false, up: false, fire: false }
    }

    pub fn set_left(&mut self, held: bool)
        ensures
            *final(self) == (VirtualInput { left: held, ..*old(self) }),
    {
        self.left = held;
    }

    pub fn set_right(&mut self, held: bool)
        ensures
            *final(self) == (VirtualInput { right: held, ..*old(self) }),
    {
        self.right = held;
    }

    pub fn set_up(&mut self, held: bool)
        ensures
            *final(self) == (VirtualInput { up: held, ..*old(self) }),
    {
        self.up = held;
    }

    /// Asks for one shot, fired on the next frame.
    pub fn trigger_fire(&mut self)
        ensures
            *final(self) == (VirtualInput { fire: true, ..*old(self) }),
    {
        self.fire = true;
    }

    /// Reads the controls for this frame and clears the one-shot fire flag.
    pub fn consume(&mut self) -> (r: MobileInputState)
        ensures
            r == (MobileInputState {
                left: old(self).left,
                right: old(self).right,
                up: old(self).up,
                fire_just_pressed: old(self).fire,
            }),
            *final(self) == (VirtualInput { fire: false, ..*old(self) }),
    {
        let r = MobileInputState {
            left: self.left,
            right: self.right,
            up: self.up,
            fire_just_pressed: self.fire,
        };
        self.fire = false;
        r
    }
}

/// Either source can drive each action: the signals are the keyboard's OR the touch controls'.
pub open spec fn merged(keys: KeyboardState, mobile: Option<MobileInputState>) -> Controls {
        match mobile {
            Some(m) => Controls {
                left_pressed: keys.left || m.left,
                right_pressed: keys.right || m.right,
                up_pressed: keys.up || m.up,
                fire_just_pressed: keys.fire_just_pressed || m.fire_just_pressed,
            },
            None => Controls {
                left_pressed: keys.left,
                right_pressed: keys.right,
                up_pressed: keys.up,
                fire_just_pressed: keys.fire_just_pressed,
            },
        }
}

/// Merges the keyboard with the touch controls, where there are any.
pub fn merge_input(keys: KeyboardState, mobile: Option<MobileInputState>) -> (r: Controls)
    ensures
        r == merged(keys, mobile),
{
    match mobile {
        Some(m) => Controls {
            left_pressed: keys.left || m.left,
            right_pressed: keys.right || m.right,
            up_pressed: keys.up || m.up,
            fire_just_pressed: keys.fire_just_pressed || m.fire_just_pressed,
        },
        None => Controls {
            left_pressed: keys.left,
            right_pressed: keys.right,
            up_pressed: keys.up,
            fire_just_pressed: keys.fire_just_pressed,
        },
    }
}

} // verus!
