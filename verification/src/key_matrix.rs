use vstd::prelude::*;

verus! {

/// Number of logical keys on the hexadecimal keypad.
pub const KEY_COUNT: usize = 16;

/// One of the sixteen logical keypad keys.
#[derive(Clone, Copy, Debug, PartialEq, Eq, Structural)]
pub enum Chip8Key {
    K0,
    K1,
    K2,
    K3,
    K4,
    K5,
    K6,
    K7,
    K8,
    K9,
    KA,
    KB,
    KC,
    KD,
    KE,
    KF,
}

/// The numeric value of a key, 0 through 15.
pub open spec fn key_index(key: Chip8Key) -> u8 {
    match key {
        Chip8Key::K0 => 0,
        Chip8Key::K1 => 1,
        Chip8Key::K2 => 2,
        Chip8Key::K3 => 3,
        Chip8Key::K4 => 4,
        Chip8Key::K5 => 5,
        Chip8Key::K6 => 6,
        Chip8Key::K7 => 7,
        Chip8Key::K8 => 8,
        Chip8Key::K9 => 9,
        Chip8Key::KA => 10,
        Chip8Key::KB => 11,
        Chip8Key::KC => 12,
        Chip8Key::KD => 13,
        Chip8Key::KE => 14,
        Chip8Key::KF => 15,
    }
}

/// The key whose numeric value is `value`, for `value` below 16.
pub open spec fn spec_key_of(value: u8) -> Chip8Key {
    match value {
        0 => Chip8Key::K0,
        1 => Chip8Key::K1,
        2 => Chip8Key::K2,
        3 => Chip8Key::K3,
        4 => Chip8Key::K4,
        5 => Chip8Key::K5,
        6 => Chip8Key::K6,
        7 => Chip8Key::K7,
        8 => Chip8Key::K8,
        9 => Chip8Key::K9,
        10 => Chip8Key::KA,
        11 => Chip8Key::KB,
        12 => Chip8Key::KC,
        13 => Chip8Key::KD,
        14 => Chip8Key::KE,
        _ => Chip8Key::KF,
    }
}

/// `key_index` inverts `spec_key_of`.
pub proof fn lemma_key_index_of(key: Chip8Key)
    ensures
        spec_key_of(key_index(key)) == key,
        key_index(key) < 16,
{
}

/// `spec_key_of` inverts `key_index` on values below 16.
pub proof fn lemma_key_of_index(value: u8)
    requires
        value < 16,
    ensures
        key_index(spec_key_of(value)) == value,
{
}

impl Chip8Key {
    /// The key's numeric value, 0 through 15.
    pub fn to_index(&self) -> (r: u8)
        ensures
            r == key_index(*self),
            r < 16,
    {
        match self {
            Chip8Key::K0 => 0,
            Chip8Key::K1 => 1,
            Chip8Key::K2 => 2,
            Chip8Key::K3 => 3,
            Chip8Key::K4 => 4,
            Chip8Key::K5 => 5,
            Chip8Key::K6 => 6,
            Chip8Key::K7 => 7,
            Chip8Key::K8 => 8,
            Chip8Key::K9 => 9,
            Chip8Key::KA => 10,
            Chip8Key::KB => 11,
            Chip8Key::KC => 12,
            Chip8Key::KD => 13,
            Chip8Key::KE => 14,
            Chip8Key::KF => 15,
        }
    }

    /// The key for a numeric value: `Some` exactly when the value is below 16.
    pub fn from_index(value: u8) -> (r: Option<Chip8Key>)
        ensures
            value < 16 ==> r == Some(spec_key_of(value)),
            value >= 16 ==> r is None,
    {
        match value {
            0 => Some(Chip8Key::K0),
            1 => Some(Chip8Key::K1),
            2 => Some(Chip8Key::K2),
            3 => Some(Chip8Key::K3),
            4 => Some(Chip8Key::K4),
            5 => Some(Chip8Key::K5),
            6 => Some(Chip8Key::K6),
            7 => Some(Chip8Key::K7),
            8 => Some(Chip8Key::K8),
            9 => Some(Chip8Key::K9),
            10 => Some(Chip8Key::KA),
            11 => Some(Chip8Key::KB),
            12 => Some(Chip8Key::KC),
            13 => Some(Chip8Key::KD),
            14 => Some(Chip8Key::KE),
            15 => Some(Chip8Key::KF),
            _ => None,
        }
    }

    /// A printable one-character name for the key.
    pub fn label(&self) -> (r: &'static str) {
        match self {
            Chip8Key::K0 => "0",
            Chip8Key::K1 => "1",
            Chip8Key::K2 => "2",
            Chip8Key::K3 => "3",
            Chip8Key::K4 => "4",
            Chip8Key::K5 => "5",
            Chip8Key::K6 => "6",
            Chip8Key::K7 => "7",
            Chip8Key::K8 => "8",
            Chip8Key::K9 => "9",
            Chip8Key::KA => "A",
            Chip8Key::KB => "B",
            Chip8Key::KC => "C",
            Chip8Key::KD => "D",
            Chip8Key::KE => "E",
            Chip8Key::KF => "F",
        }
    }
}

/// Pressed/released state of the sixteen keys, one bit per key.
#[derive(Clone, Copy)]
pub struct KeyMatrix {
    bitmask: u16,
}

impl View for KeyMatrix {
    type V = Seq<bool>;

    closed spec fn view(&self) -> Seq<bool> {
        Seq::new(KEY_COUNT as nat, |k: int| (self.bitmask >> (k as u16)) & 1 == 1)
    }
}

/// The key-state view always has one entry per key.
pub broadcast proof fn lemma_key_matrix_len(m: KeyMatrix)
    ensures
        (#[trigger] m@).len() == KEY_COUNT,
{
}

/// Every key up.
pub open spec fn all_keys_up() -> Seq<bool> {
    Seq::new(KEY_COUNT as nat, |k: int| false)
}

impl KeyMatrix {
    /// A matrix with every key released.
    pub fn new() -> (r: KeyMatrix)
        ensures
            r@ == all_keys_up(),
    {
        let r = KeyMatrix { bitmask: 0 };
        proof {
            assert(forall|ku: u16| ku < 16 ==> (#[trigger] (0u16 >> ku)) & 1 != 1) by (bit_vector);
            assert(r@ =~= all_keys_up());
        }
        r
    }

    /// A matrix whose sixteen key states are exactly the given ones.
    pub fn from_states(states: &Vec<bool>) -> (r: KeyMatrix)
        requires
            states@.len() == KEY_COUNT,
        ensures
            r@ == states@,
    {
        let mut r = KeyMatrix::new();
        proof {
            assert(r@ =~= Seq::new(
                KEY_COUNT as nat,
                |j: int|
                    if j < 0 {
                        states@[j]
                    } else {
                        false
                    },
            ));
        }
        let mut k: u8 = 0;
        while k < 16
            invariant
                states@.len() == KEY_COUNT,
                k <= 16,
                r@ == Seq::new(
                    KEY_COUNT as nat,
                    |j: int|
                        if j < k {
                            states@[j]
                        } else {
                            false
                        },
                ),
            decreases 16 - k,
        {
            proof {
                lemma_key_of_index(k);
            }
            let key = match Chip8Key::from_index(k) {
                Some(key) => key,
                None => {
                    proof {
                        assert(false);
                    }
                    Chip8Key::K0
                },
            };
            if states[k as usize] {
                r.press(key);
            } else {
                r.release(key);
            }
            proof {
                assert(r@ =~= Seq::new(
                    KEY_COUNT as nat,
                    |j: int|
                        if j < k + 1 {
                            states@[j]
                        } else {
                            false
                        },
                ));
            }
            k = k + 1;
        }
        proof {
            assert(r@ =~= states@);
        }
        r
    }

    /// Replaces the whole key state with the given one.
    pub fn load(&mut self, key_matrix: KeyMatrix)
        ensures
            final(self)@ == key_matrix@,
    {
        self.bitmask = key_matrix.bitmask;
    }

    /// Whether the given key is currently pressed.
    pub fn is_pressed(&self, key: Chip8Key) -> (r: bool)
        ensures
            r == self@[key_index(key) as int],
    {
        let idx = key.to_index();
        (self.bitmask >> idx as u16) & 1 == 1
    }

    /// Marks the key pressed, leaving every other key as it was.
    pub fn press(&mut self, key: Chip8Key)
        ensures
            final(self)@ == old(self)@.update(key_index(key) as int, true),
    {
        let idx = key.to_index() as u16;
        let ghost m = self.bitmask;
        self.bitmask = self.bitmask | (1u16 << idx);
        proof {
            assert(forall|ku: u16| ku < 16 && idx < 16 ==> ((#[trigger] ((m | (1u16 << idx)) >> ku))
                & 1 == 1 <==> (ku == idx || (m >> ku) & 1 == 1))) by (bit_vector);
            assert(self@ =~= old(self)@.update(key_index(key) as int, true));
        }
    }

    /// Marks the key released, leaving every other key as it was.
    pub fn release(&mut self, key: Chip8Key)
        ensures
            final(self)@ == old(self)@.update(key_index(key) as int, false),
    {
        let idx = key.to_index() as u16;
        let ghost m = self.bitmask;
        self.bitmask = self.bitmask & !(1u16 << idx);
        proof {
            assert(forall|ku: u16| ku < 16 && idx < 16 ==> ((#[trigger] ((m & !(1u16 << idx))
                >> ku)) & 1 == 1 <==> (ku != idx && (m >> ku) & 1 == 1))) by (bit_vector);
            assert(self@ =~= old(self)@.update(key_index(key) as int, false));
        }
    }
}

} // verus!
