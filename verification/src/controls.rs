use vstd::prelude::*;

verus! {

/// The letter keys that the camera controls can be bound to.
#[derive(Clone, Copy, Debug, PartialEq, Eq, Structural)]
pub enum Key {
    W,
    A,
    S,
    D,
    Z,
    Q,
}

/// Which key moves the camera in each of the four directions.
#[derive(Clone, Copy, Debug, PartialEq, Eq, Structural)]
pub struct Bindings {
    pub forward: Key,
    pub left: Key,
    pub backward: Key,
    pub right: Key,
}

/// The unit steps of one frame of camera movement: `dz` along the depth
/// axis (`1` forward, `-1` backward) and `dx` along the horizontal axis
/// (`-1` left, `1` right); `0` means no movement on that axis.
#[derive(Clone, Copy, Debug, PartialEq, Eq, Structural)]
pub struct CameraMove {
    pub dz: i8,
    pub dx: i8,
}

/// The QWERTY layout: W, A, S, D.
pub open spec fn qwerty_layout() -> Bindings {
    Bindings { forward: Key::W, left: Key::A, backward: Key::S, right: Key::D }
}

/// The AZERTY layout: Z, Q, S, D.
pub open spec fn azerty_layout() -> Bindings {
    Bindings { forward: Key::Z, left: Key::Q, backward: Key::S, right: Key::D }
}

/// The layout chosen by the AZERTY switch.
pub open spec fn layout(azerty: bool) -> Bindings {
    if azerty {
        azerty_layout()
    } else {
        qwerty_layout()
    }
}

/// No key is bound to two directions.
pub open spec fn distinct_keys(b: Bindings) -> bool {
    &&& b.forward != b.left
    &&& b.forward != b.backward
    &&& b.forward != b.right
    &&& b.left != b.backward
    &&& b.left != b.right
    &&& b.backward != b.right
}

/// The movement for the given held directions: forward wins over backward,
/// left wins over right.
pub open spec fn movement(forward: bool, backward: bool, left: bool, right: bool) -> CameraMove {
    CameraMove {
        dz: if forward {
            1
        } else if backward {
            -1i8
        } else {
            0
        },
        dx: if left {
            -1i8
        } else if right {
            1
        } else {
            0
        },
    }
}

impl Bindings {
    /// Bindings for a QWERTY keyboard.
    pub fn qwerty() -> (b: Self)
        ensures
            b == qwerty_layout(),
    {
        Bindings { forward: Key::W, left: Key::A, backward: Key::S, right: Key::D }
    }

    /// Bindings for an AZERTY keyboard.
    pub fn azerty() -> (b: Self)
        ensures
            b == azerty_layout(),
    {
        Bindings { forward: Key::Z, left: Key::Q, backward: Key::S, right: Key::D }
    }

    /// The bindings selected by the AZERTY switch.
    pub fn for_layout(azerty: bool) -> (b: Self)
        ensures
            b == layout(azerty),
    {
        if azerty {
            Self::azerty()
        } else {
            Self::qwerty()
        }
    }

    /// The camera movement of one frame, given the keys that are held down.
    pub fn camera_move(&self, pressed: &Vec<Key>) -> (m: CameraMove)
        ensures
            m == movement(
                pressed@.contains(self.forward),
                pressed@.contains(self.backward),
                pressed@.contains(self.left),
                pressed@.contains(self.right),
            ),
    {
        let forward = is_pressed(pressed, self.forward);
        let backward = is_pressed(pressed, self.backward);
        let left = is_pressed(pressed, self.left);
        let right = is_pressed(pressed, self.right);
        camera_move(forward, backward, left, right)
    }
}

/// Whether `key` is among the held keys.
pub fn is_pressed(pressed: &Vec<Key>, key: Key) -> (r: bool)
    ensures
        r == pressed@.contains(key),
{
    let mut i: usize = 0;
    while i < pressed.len()
        invariant
            i <= pressed.len(),
            forall|j: int| 0 <= j < i ==> pressed@[j] != key,
        decreases pressed.len() - i,
    {
        if pressed[i] == key {
            assert(pressed@[i as int] == key);
            return true;
        }
        i = i + 1;
    }
    false
}

/// The camera movement of one frame, given which direction keys are held.
pub fn camera_move(forward: bool, backward: bool, left: bool, right: bool) -> (m: CameraMove)
    ensures
        m == movement(forward, backward, left, right),
{
    let dz: i8 = if forward {
        1
    } else if backward {
        -1
    } else {
        0
    };
    let dx: i8 = if left {
        -1
    } else if right {
        1
    } else {
        0
    };
    CameraMove { dz, dx }
}

/// In both layouts each direction has a key of its own, and the two layouts
/// share the backward and right keys.
pub proof fn lemma_layout_keys(azerty: bool)
    ensures
        distinct_keys(layout(azerty)),
        layout(azerty).backward == Key::S,
        layout(azerty).right == Key::D,
{
}

/// Holding both keys of an axis moves forward, or left; holding neither
/// leaves that axis still; every step is a unit step.
pub proof fn lemma_movement_priority(forward: bool, backward: bool, left: bool, right: bool)
    ensures
        forward ==> movement(forward, backward, left, right).dz == 1,
        left ==> movement(forward, backward, left, right).dx == -1,
        !forward && !backward ==> movement(forward, backward, left, right).dz == 0,
        !left && !right ==> movement(forward, backward, left, right).dx == 0,
        -1 <= movement(forward, backward, left, right).dz <= 1,
        -1 <= movement(forward, backward, left, right).dx <= 1,
{
}

/// With distinct bindings, holding only the backward key moves backward and
/// holding only the right key moves right.
pub proof fn lemma_single_key_moves(b: Bindings, key: Key)
    requires
        distinct_keys(b),
    ensures
        key == b.backward ==> movement(
            seq![key].contains(b.forward),
            seq![key].contains(b.backward),
            seq![key].contains(b.left),
            seq![key].contains(b.right),
        ) == (CameraMove { dz: -1i8, dx: 0 }),
        key == b.right ==> movement(
            seq![key].contains(b.forward),
            seq![key].contains(b.backward),
            seq![key].contains(b.left),
            seq![key].contains(b.right),
        ) == (CameraMove { dz: 0, dx: 1 }),
{
    let s = seq![key];
    assert(s[0] == key);
    assert(forall|k: Key| s.contains(k) <==> k == key);
}

} // verus!
