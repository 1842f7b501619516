use vstd::prelude::*;

use crate::key_matrix::{key_index, lemma_key_index_of, lemma_key_of_index, spec_key_of, Chip8Key};

verus! {

/// No two logical keys are bound to the same host key.
pub open spec fn injective_slots(s: Seq<Option<u32>>) -> bool {
    forall|a: int, b: int|
        0 <= a < 16 && 0 <= b < 16 && s[a] is Some && s[a] == s[b] ==> a == b
}

/// The built-in default binding, one host key id per logical key, laid out
/// as the 4x4 keypad: host ids 0 through 15 are the host's sixteen default
/// keypad keys, row by row.
pub open spec fn default_slots() -> Seq<Option<u32>> {
    seq![
        Some(13u32),
        Some(0u32),
        Some(1u32),
        Some(2u32),
        Some(4u32),
        Some(5u32),
        Some(6u32),
        Some(8u32),
        Some(9u32),
        Some(10u32),
        Some(12u32),
        Some(14u32),
        Some(3u32),
        Some(7u32),
        Some(11u32),
        Some(15u32),
    ]
}

/// A remappable binding between host key ids and the sixteen logical keys,
/// stored as one host id (or none) per logical key, always injective.
pub struct KeyMapping {
    slots: Vec<Option<u32>>,
}

impl View for KeyMapping {
    type V = Seq<Option<u32>>;

    closed spec fn view(&self) -> Seq<Option<u32>> {
        self.slots@
    }
}

impl KeyMapping {
    pub open spec fn wf(&self) -> bool {
        self@.len() == 16 && injective_slots(self@)
    }

    /// A mapping with the built-in default bindings.
    pub fn new() -> (r: KeyMapping)
        ensures
            r.wf(),
            r@ == default_slots(),
    {
        let slots: Vec<Option<u32>> = vec![
            Some(13u32),
            Some(0u32),
            Some(1u32),
            Some(2u32),
            Some(4u32),
            Some(5u32),
            Some(6u32),
            Some(8u32),
            Some(9u32),
            Some(10u32),
            Some(12u32),
            Some(14u32),
            Some(3u32),
            Some(7u32),
            Some(11u32),
            Some(15u32),
        ];
        proof {
            assert(slots@ =~= default_slots());
        }
        KeyMapping { slots }
    }

    /// Puts the built-in default table back.
    pub fn reset_keymap(&mut self)
        ensures
            final(self).wf(),
            final(self)@ == default_slots(),
    {
        let fresh = KeyMapping::new();
        self.slots = fresh.slots;
        proof {
            assert(self@ =~= default_slots());
        }
    }

    /// The logical key the given host key is bound to, if any; by
    /// injectivity there is at most one.
    pub fn get_chip8_key(&self, host_key: u32) -> (r: Option<Chip8Key>)
        requires
            self.wf(),
        ensures
            r matches Some(key) ==> self@[key_index(key) as int] == Some(host_key),
            r is None ==> forall|k: int| 0 <= k < 16 ==> self@[k] != Some(host_key),
    {
        let mut k: u8 = 0;
        while k < 16
            invariant
                self.wf(),
                k <= 16,
                forall|j: int| 0 <= j < k ==> self@[j] != Some(host_key),
            decreases 16 - k,
        {
            let hit = match self.slots[k as usize] {
                Some(id) => id == host_key,
                None => false,
            };
            if hit {
                proof {
                    lemma_key_of_index(k);
                }
                let key = match Chip8Key::from_index(k) {
                    Some(key) => key,
                    None => {
                        proof {
                            assert(false);
                        }
                        Chip8Key::K0
                    },
                };
                return Some(key);
            }
            k = k + 1;
        }
        None
    }

    /// The host key the given logical key is bound to, if any.
    pub fn get_key(&self, chip8_key: Chip8Key) -> (r: Option<u32>)
        requires
            self.wf(),
        ensures
            r == self@[key_index(chip8_key) as int],
    {
        proof {
            lemma_key_index_of(chip8_key);
        }
        self.slots[chip8_key.to_index() as usize]
    }

    /// Binds the logical key to the host key: any logical key previously
    /// bound to that host key loses its binding, so the table stays
    /// injective.
    pub fn remap(&mut self, chip8_key: Chip8Key, host_key: u32)
        requires
            old(self).wf(),
        ensures
            final(self).wf(),
            final(self)@ == Seq::new(
                16,
                |k: int|
                    if k == key_index(chip8_key) {
                        Some(host_key)
                    } else if old(self)@[k] == Some(host_key) {
                        None::<u32>
                    } else {
                        old(self)@[k]
                    },
            ),
    {
        let ghost pre = self@;
        let mut k: u8 = 0;
        while k < 16
            invariant
                self@.len() == 16,
                k <= 16,
                self@ == Seq::new(
                    16,
                    |j: int|
                        if j < k && pre[j] == Some(host_key) {
                            None::<u32>
                        } else {
                            pre[j]
                        },
                ),
            decreases 16 - k,
        {
            let hit = match self.slots[k as usize] {
                Some(id) => id == host_key,
                None => false,
            };
            if hit {
                self.slots[k as usize] = None;
            }
            proof {
                assert(self@ =~= Seq::new(
                    16,
                    |j: int|
                        if j < k + 1 && pre[j] == Some(host_key) {
                            None::<u32>
                        } else {
                            pre[j]
                        },
                ));
            }
            k = k + 1;
        }
        proof {
            lemma_key_index_of(chip8_key);
        }
        self.slots[chip8_key.to_index() as usize] = Some(host_key);
        proof {
            assert(self@ =~= Seq::new(
                16,
                |k: int|
                    if k == key_index(chip8_key) {
                        Some(host_key)
                    } else if pre[k] == Some(host_key) {
                        None::<u32>
                    } else {
                        pre[k]
                    },
            ));
            assert forall|a: int, b: int|
                0 <= a < 16 && 0 <= b < 16 && self@[a] is Some && self@[a] == self@[b] implies a
                == b by {
                if a != b {
                    assert(self@[a] is Some && self@[b] is Some);
                }
            }
        }
    }
}

} // verus!
