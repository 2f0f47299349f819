//! The sixteen-key hexadecimal keypad and its mapping onto host keyboard keys.
use vstd::prelude::*;

verus! {

/// The host keyboard keys that drive the keypad.
#[derive(Debug, Clone, Copy, PartialEq, Eq, Structural)]
pub enum HostKey {
    X,
    Num1,
    Num2,
    Num3,
    Q,
    W,
    E,
    A,
    S,
    D,
    Z,
    C,
    Num4,
    R,
    F,
    V,
}

/// The host key that drives keypad key `i`: the layout
/// `1 2 3 4 / Q W E R / A S D F / Z X C V` maps onto `1 2 3 C / 4 5 6 D / 7 8 9 E / A 0 B F`.
pub open spec fn host_key_for(i: int) -> HostKey {
    if i == 0x0 {
        HostKey::X
    } else if i == 0x1 {
        HostKey::Num1
    } else if i == 0x2 {
        HostKey::Num2
    } else if i == 0x3 {
        HostKey::Num3
    } else if i == 0x4 {
        HostKey::Q
    } else if i == 0x5 {
        HostKey::W
    } else if i == 0x6 {
        HostKey::E
    } else if i == 0x7 {
        HostKey::A
    } else if i == 0x8 {
        HostKey::S
    } else if i == 0x9 {
        HostKey::D
    } else if i == 0xA {
        HostKey::Z
    } else if i == 0xB {
        HostKey::C
    } else if i == 0xC {
        HostKey::Num4
    } else if i == 0xD {
        HostKey::R
    } else if i == 0xE {
        HostKey::F
    } else {
        HostKey::V
    }
}

/// The lowest pressed key of the keypad, if any.
pub open spec fn first_pressed(keys: Seq<bool>) -> Option<usize> {
    if exists|i: int| 0 <= i < 16 && #[trigger] keys[i] {
        Some((choose|i: int| 0 <= i < 16 && keys[i] && forall|j: int| 0 <= j < i ==> !#[trigger] keys[j]) as usize)
    } else {
        Option::None
    }
}

/// The state of the keypad: `key_list[i]` holds whether key `i` is down.
pub struct Keyboard {
    pub key_list: [bool; 16],
}

/// Whether `k` occurs in `keys`.
fn is_down(keys: &[HostKey], k: HostKey) -> (res: bool)
    ensures
        res == keys@.contains(k),
{
    let mut i: usize = 0;
    while i < keys.len()
        invariant
            i <= keys@.len(),
            forall|j: int| 0 <= j < i ==> keys@[j] != k,
        decreases keys.len() - i,
    {
        if keys[i] == k {
            assert(keys@[i as int] == k);
            return true;
        }
        i = i + 1;
    }
    false
}

/// The host key that drives keypad key `i`.
fn host_key(i: usize) -> (k: HostKey)
    requires
        i < 16,
    ensures
        k == host_key_for(i as int),
{
    match i {
        0x0 => HostKey::X,
        0x1 => HostKey::Num1,
        0x2 => HostKey::Num2,
        0x3 => HostKey::Num3,
        0x4 => HostKey::Q,
        0x5 => HostKey::W,
        0x6 => HostKey::E,
        0x7 => HostKey::A,
        0x8 => HostKey::S,
        0x9 => HostKey::D,
        0xA => HostKey::Z,
        0xB => HostKey::C,
        0xC => HostKey::Num4,
        0xD => HostKey::R,
        0xE => HostKey::F,
        _ => HostKey::V,
    }
}

impl Keyboard {
    /// A keypad with no key down.
    pub fn new() -> (kb: Keyboard)
        ensures
            forall|i: int| 0 <= i < 16 ==> !#[trigger] kb.key_list@[i],
    {
        Keyboard { key_list: [false; 16] }
    }

    /// Sets every keypad key from the host keys that are down.
    pub fn set_keys(&mut self, key_set: &[HostKey])
        ensures
            forall|i: int| 0 <= i < 16 ==> #[trigger] final(self).key_list@[i] == key_set@.contains(host_key_for(i)),
    {
        let mut i: usize = 0;
        while i < 16
            invariant
                i <= 16,
                forall|j: int| 0 <= j < i ==> #[trigger] self.key_list@[j] == key_set@.contains(host_key_for(j)),
            decreases 16 - i,
        {
            self.key_list[i] = is_down(key_set, host_key(i));
            i += 1;
        }
    }

    /// Whether keypad key `key_num` is down.
    pub fn get_key(&self, key_num: usize) -> (down: bool)
        requires
            key_num < 16,
        ensures
            down == self.key_list@[key_num as int],
    {
        self.key_list[key_num]
    }

    /// The lowest keypad key that is down, or `None` when no key is down.
    pub fn get_pressed(&self) -> (res: Option<usize>)
        ensures
            res == first_pressed(self.key_list@),
            res matches Some(k) ==> k < 16 && self.key_list@[k as int]
                && forall|j: int| 0 <= j < k ==> !#[trigger] self.key_list@[j],
            res is None ==> forall|j: int| 0 <= j < 16 ==> !#[trigger] self.key_list@[j],
    {
        let mut i: usize = 0;
        while i < 16 && !self.get_key(i)
            invariant
                i <= 16,
                forall|j: int| 0 <= j < i ==> !#[trigger] self.key_list@[j],
            decreases 16 - i,
        {
            i += 1;
        }
        if i < 16 {
            proof {
                let w = choose|w: int| 0 <= w < 16 && self.key_list@[w] && forall|j: int| 0 <= j < w ==> !#[trigger] self.key_list@[j];
                assert(self.key_list@[i as int]);
                if w < i {
                    assert(!self.key_list@[w]);
                } else if w > i {
                    assert(!self.key_list@[i as int]);
                }
            }
            Some(i)
        } else {
            Option::None
        }
    }
}

} // verus!
