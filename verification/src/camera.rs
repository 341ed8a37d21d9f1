use vstd::prelude::*;

verus! {

/// A key event as the camera controller sees it: the named keys it reacts
/// to, a key that produces a single character, or anything else.
#[derive(Debug, Clone, Copy, PartialEq, Eq, Structural)]
pub enum KeyInput {
    Space,
    Shift,
    Character(char),
    Other,
}

/// A direction the camera can be moved in.
#[derive(Debug, Clone, Copy, PartialEq, Eq, Structural)]
pub enum Direction {
    Forward,
    Backward,
    Left,
    Right,
    Up,
    Down,
}

/// The direction a key controls: space lifts, shift lowers, and W, S, A, D
/// (in either case) move forward, backward, left and right.
pub open spec fn direction_of(key: KeyInput) -> Option<Direction> {
    match key {
        KeyInput::Space => Some(Direction::Up),
        KeyInput::Shift => Some(Direction::Down),
        KeyInput::Character(c) => if c == 'w' || c == 'W' {
            Some(Direction::Forward)
        } else if c == 's' || c == 'S' {
            Some(Direction::Backward)
        } else if c == 'a' || c == 'A' {
            Some(Direction::Left)
        } else if c == 'd' || c == 'D' {
            Some(Direction::Right)
        } else {
            None
        },
        KeyInput::Other => None,
    }
}

/// Which movement keys are held down: 1 while held, 0 otherwise.
#[derive(Debug, Clone, Copy, PartialEq, Eq, Structural)]
pub struct CameraMovement {
    pub forward: i8,
    pub backward: i8,
    pub left: i8,
    pub right: i8,
    pub up: i8,
    pub down: i8,
}

/// 1 for a pressed key, 0 for a released one.
pub open spec fn key_level(pressed: bool) -> i8 {
    if pressed {
        1
    } else {
        0
    }
}

impl CameraMovement {
    /// Every key is either held (1) or released (0).
    pub open spec fn wf(&self) -> bool {
        &&& 0 <= self.forward <= 1
        &&& 0 <= self.backward <= 1
        &&& 0 <= self.left <= 1
        &&& 0 <= self.right <= 1
        &&& 0 <= self.up <= 1
        &&& 0 <= self.down <= 1
    }

    /// `self` with the key for direction `d` set to `level`.
    pub open spec fn with_level(self, d: Direction, level: i8) -> Self {
        match d {
            Direction::Forward => CameraMovement { forward: level, ..self },
            Direction::Backward => CameraMovement { backward: level, ..self },
            Direction::Left => CameraMovement { left: level, ..self },
            Direction::Right => CameraMovement { right: level, ..self },
            Direction::Up => CameraMovement { up: level, ..self },
            Direction::Down => CameraMovement { down: level, ..self },
        }
    }

    pub fn new() -> (r: Self)
        ensures
            r.wf(),
            r == (CameraMovement { forward: 0, backward: 0, left: 0, right: 0, up: 0, down: 0 }),
    {
        CameraMovement { forward: 0, backward: 0, left: 0, right: 0, up: 0, down: 0 }
    }

    /// Records that `key` was pressed or released. Returns whether the key
    /// moves the camera; other keys leave the state unchanged.
    pub fn process_key(&mut self, key: KeyInput, pressed: bool) -> (r: bool)
        ensures
            r == direction_of(key) is Some,
            *final(self) == match direction_of(key) {
                Some(d) => old(self).with_level(d, key_level(pressed)),
                None => *old(self),
            },
            old(self).wf() ==> final(self).wf(),
            key == KeyInput::Character('w') || key == KeyInput::Character('W') ==> r && final(self).forward
                == (if pressed { 1i8 } else { 0i8 }),
            key == KeyInput::Character('s') || key == KeyInput::Character('S') ==> r && final(self).backward
                == (if pressed { 1i8 } else { 0i8 }),
            key == KeyInput::Character('a') || key == KeyInput::Character('A') ==> r && final(self).left
                == (if pressed { 1i8 } else { 0i8 }),
            key == KeyInput::Character('d') || key == KeyInput::Character('D') ==> r && final(self).right
                == (if pressed { 1i8 } else { 0i8 }),
            key == KeyInput::Space ==> r && final(self).up == (if pressed { 1i8 } else { 0i8 }),
            key == KeyInput::Shift ==> r && final(self).down == (if pressed { 1i8 } else { 0i8 }),
            key == KeyInput::Other ==> !r && *final(self) == *old(self),
            final(self).forward != old(self).forward ==> key == KeyInput::Character('w') || key
                == KeyInput::Character('W'),
            final(self).backward != old(self).backward ==> key == KeyInput::Character('s') || key
                == KeyInput::Character('S'),
            final(self).left != old(self).left ==> key == KeyInput::Character('a') || key
                == KeyInput::Character('A'),
            final(self).right != old(self).right ==> key == KeyInput::Character('d') || key
                == KeyInput::Character('D'),
            final(self).up != old(self).up ==> key == KeyInput::Space,
            final(self).down != old(self).down ==> key == KeyInput::Shift,
    {
        let level: i8 = if pressed { 1 } else { 0 };
        match key {
            KeyInput::Space => {
                self.up = level;
                true
            },
            KeyInput::Shift => {
                self.down = level;
                true
            },
            KeyInput::Character(c) => {
                if c == 'w' || c == 'W' {
                    self.forward = level;
                    true
                } else if c == 's' || c == 'S' {
                    self.backward = level;
                    true
                } else if c == 'a' || c == 'A' {
                    self.left = level;
                    true
                } else if c == 'd' || c == 'D' {
                    self.right = level;
                    true
                } else {
                    false
                }
            },
            KeyInput::Other => false,
        }
    }

    /// The movement along the forward, right and up axes: 1, -1 or 0 for each,
    /// depending on which of the opposing keys are held.
    pub fn axes(&self) -> (r: (i8, i8, i8))
        requires
            self.wf(),
        ensures
            r.0 == self.forward - self.backward,
            r.1 == self.right - self.left,
            r.2 == self.up - self.down,
            -1 <= r.0 <= 1 && -1 <= r.1 <= 1 && -1 <= r.2 <= 1,
    {
        (self.forward - self.backward, self.right - self.left, self.up - self.down)
    }
}

/// A movement letter means the same in either case: `w`/`W` move forward,
/// `s`/`S` backward, `a`/`A` left and `d`/`D` right.
pub proof fn lemma_letter_case_ignored()
    ensures
        direction_of(KeyInput::Character('w')) == Some(Direction::Forward),
        direction_of(KeyInput::Character('W')) == Some(Direction::Forward),
        direction_of(KeyInput::Character('s')) == Some(Direction::Backward),
        direction_of(KeyInput::Character('S')) == Some(Direction::Backward),
        direction_of(KeyInput::Character('a')) == Some(Direction::Left),
        direction_of(KeyInput::Character('A')) == Some(Direction::Left),
        direction_of(KeyInput::Character('d')) == Some(Direction::Right),
        direction_of(KeyInput::Character('D')) == Some(Direction::Right),
{
}

/// Releasing a key after pressing it leaves the controller as if the key had
/// only been released; keys of other directions are untouched.
pub proof fn lemma_press_then_release(m: CameraMovement, d: Direction)
    ensures
        m.with_level(d, 1).with_level(d, 0) == m.with_level(d, 0),
        forall|e: Direction| e != d ==> #[trigger] m.with_level(d, 0).with_level(e, 0)
            == m.with_level(e, 0).with_level(d, 0),
{
}

impl Default for CameraMovement {
    fn default() -> (r: Self)
        ensures
            r.wf(),
            r == (CameraMovement { forward: 0, backward: 0, left: 0, right: 0, up: 0, down: 0 }),
    {
        Self::new()
    }
}

} // verus!
