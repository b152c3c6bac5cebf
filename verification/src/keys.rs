//! The keys that are held down, and the commands they stand for.

use vstd::prelude::*;
use crate::direction::Direction;

verus! {

/// A key that means something to the game.
#[derive(Clone, Copy, Debug, PartialEq, Eq, Structural, Hash)]
pub enum Key {
    W,
    A,
    S,
    D,
    Up,
    Left,
    Down,
    Right,
    Space,
    Return,
    Z,
    Backspace,
    H,
}

/// A command of the player.
#[derive(Clone, Copy, Debug, PartialEq, Eq, Structural, Hash)]
pub enum Input {
    Navigate(Direction),
    Accept,
    Reject,
    Help,
}

/// The keys that are down, in the order in which they went down. No key is
/// held twice.
pub struct HeldKeys {
    ordered_keys: Vec<Key>,
}

/// The command that a key stands for.
pub open spec fn input_of(key: Key) -> Input {
    match key {
        Key::W | Key::Up => Input::Navigate(Direction::North),
        Key::A | Key::Left => Input::Navigate(Direction::West),
        Key::S | Key::Down => Input::Navigate(Direction::South),
        Key::D | Key::Right => Input::Navigate(Direction::East),
        Key::Space | Key::Return | Key::Z => Input::Accept,
        Key::Backspace => Input::Reject,
        Key::H => Input::Help,
    }
}

/// Whether a command is given once for each press of its key, however long
/// the key stays down.
pub open spec fn is_tap(input: Input) -> bool {
    input is Accept || input is Reject
}

/// The commands of the keys of `keys` from place `from` on, the newest key
/// first and each command once.
pub open spec fn heard(keys: Seq<Key>, from: int) -> Seq<Input>
    decreases keys.len() - from,
{
    if from < 0 || from >= keys.len() {
        Seq::empty()
    } else {
        let later = heard(keys, from + 1);
        if later.contains(input_of(keys[from])) {
            later
        } else {
            later.push(input_of(keys[from]))
        }
    }
}

/// The keys of `keys` that stay down once their commands were heard: those
/// whose command is no tap.
pub open spec fn still_held(keys: Seq<Key>) -> Seq<Key>
    decreases keys.len(),
{
    if keys.len() == 0 {
        Seq::empty()
    } else if is_tap(input_of(keys[0])) {
        still_held(keys.drop_first())
    } else {
        seq![keys[0]] + still_held(keys.drop_first())
    }
}

/// No key occurs twice in `keys`.
pub open spec fn no_repeats(keys: Seq<Key>) -> bool {
    forall|i: int, j: int| 0 <= i < j < keys.len() ==> keys[i] != keys[j]
}

/// What stays of keys without repeats has no repeats, and holds no key
/// that the keys did not hold.
proof fn lemma_still_held(keys: Seq<Key>)
    requires
        no_repeats(keys),
    ensures
        no_repeats(still_held(keys)),
        forall|k: Key| #[trigger] still_held(keys).contains(k) ==> keys.contains(k),
    decreases keys.len(),
{
    if keys.len() > 0 {
        let rest = keys.drop_first();
        lemma_still_held(rest);
        let kept = still_held(rest);
        assert forall|k: Key| #[trigger] kept.contains(k) implies keys.contains(k) && k != keys[0] by {
            assert(rest.contains(k));
            let i = choose|i: int| 0 <= i < rest.len() && rest[i] == k;
            assert(rest[i] == keys[i + 1]);
            assert(keys[i + 1] == k);
        }
        if !is_tap(input_of(keys[0])) {
            let all = seq![keys[0]] + kept;
            assert forall|i: int, j: int| 0 <= i < j < all.len() implies all[i] != all[j] by {
                if i == 0 {
                    assert(kept.contains(kept[j - 1]));
                } else {
                    assert(all[i] == kept[i - 1] && all[j] == kept[j - 1]);
                }
            }
            assert forall|k: Key| #[trigger] all.contains(k) implies keys.contains(k) by {
                let i = choose|i: int| 0 <= i < all.len() && all[i] == k;
                if i == 0 {
                    assert(keys[0] == k);
                } else {
                    assert(kept.contains(kept[i - 1]));
                }
            }
        }
    }
}

impl View for HeldKeys {
    type V = Seq<Key>;

    closed spec fn view(&self) -> Seq<Key> {
        self.ordered_keys@
    }
}

impl HeldKeys {
    /// The invariant: no key is held twice.
    pub open spec fn wf(&self) -> bool {
        no_repeats(self@)
    }

    /// No key is down.
    pub fn new() -> (keys: HeldKeys)
        ensures
            keys.wf(),
            keys@ == Seq::<Key>::empty(),
    {
        HeldKeys { ordered_keys: Vec::new() }
    }

    /// The place of `key` among the held keys.
    fn position(&self, key: Key) -> (at: Option<usize>)
        ensures
            match at {
                Some(i) => i < self@.len() && self@[i as int] == key,
                None => !self@.contains(key),
            },
    {
        let mut i: usize = 0;
        while i < self.ordered_keys.len()
            invariant
                0 <= i <= self.ordered_keys@.len(),
                forall|j: int| 0 <= j < i ==> self.ordered_keys@[j] != key,
            decreases self.ordered_keys@.len() - i,
        {
            if self.ordered_keys[i] == key {
                return Some(i);
            }
            i = i + 1;
        }
        None
    }

    /// A key went down: it is held from now on, as the newest.
    pub fn hold(&mut self, key: Key)
        requires
            old(self).wf(),
        ensures
            final(self).wf(),
            final(self)@ == (if old(self)@.contains(key) {
                old(self)@
            } else {
                old(self)@.push(key)
            }),
    {
        if self.position(key).is_none() {
            self.ordered_keys.push(key);
        }
    }

    /// A key went up: it is held no longer, and the others keep their order.
    pub fn release(&mut self, key: Key)
        requires
            old(self).wf(),
        ensures
            final(self).wf(),
            !final(self)@.contains(key),
            match old(self)@.index_of_first(key) {
                Some(i) => final(self)@ == old(self)@.remove(i),
                None => final(self)@ == old(self)@,
            },
    {
        proof {
            old(self)@.index_of_first_ensures(key);
        }
        match self.position(key) {
            Some(index) => {
                self.ordered_keys.remove(index);
                proof {
                    let before = old(self)@;
                    let after = self@;
                    before.remove_ensures(index as int);
                    let first = before.index_of_first(key)->0;
                    assert(first == index) by {
                        if first != index as int {
                            assert(before[first] == before[index as int]);
                        }
                    }
                    assert forall|i: int, j: int| 0 <= i < j < after.len() implies after[i] != after[j] by {
                        let oi = if i < index { i } else { i + 1 };
                        let oj = if j < index { j } else { j + 1 };
                        assert(after[i] == before[oi] && after[j] == before[oj]);
                    }
                    if after.contains(key) {
                        let i = choose|i: int| 0 <= i < after.len() && after[i] == key;
                        let oi = if i < index { i } else { i + 1 };
                        assert(after[i] == before[oi]);
                        assert(before[oi] == before[index as int]);
                    }
                }
            },
            None => {},
        }
    }

    /// The commands of the held keys, the newest key first and each command
    /// once. A key whose command is a tap is let go, so that the command is
    /// given once for each press.
    pub fn inputs(&mut self) -> (inputs: Vec<Input>)
        requires
            old(self).wf(),
        ensures
            final(self).wf(),
            inputs@ == heard(old(self)@, 0),
            final(self)@ == still_held(old(self)@),
    {
        let mut inputs: Vec<Input> = Vec::new();
        let mut i: usize = self.ordered_keys.len();
        let ghost all = self.ordered_keys@;
        proof {
            assert(all.subrange(all.len() as int, all.len() as int) =~= Seq::<Key>::empty());
            assert(all.subrange(0, all.len() as int) =~= all);
        }
        while i != 0
            invariant
                0 <= i <= all.len(),
                all == old(self)@,
                inputs@ == heard(all, i as int),
                self.ordered_keys@ == all.subrange(0, i as int) + still_held(all.subrange(i as int, all.len() as int)),
            decreases i,
        {
            i = i - 1;
            let key = self.ordered_keys[i];
            let input = match key {
                Key::W | Key::Up => Input::Navigate(Direction::North),
                Key::A | Key::Left => Input::Navigate(Direction::West),
                Key::S | Key::Down => Input::Navigate(Direction::South),
                Key::D | Key::Right => Input::Navigate(Direction::East),
                Key::Space | Key::Return | Key::Z => Input::Accept,
                Key::Backspace => Input::Reject,
                Key::H => Input::Help,
            };
            let ghost held_before = self.ordered_keys@;
            let ghost tail = all.subrange(i as int, all.len() as int);
            proof {
                assert(key == all[i as int]);
                assert(tail.drop_first() =~= all.subrange(i as int + 1, all.len() as int));
                assert(tail[0] == key);
            }
            // Let go of the keys that stand for a tap
            if matches!(input, Input::Accept | Input::Reject) {
                self.ordered_keys.remove(i);
                proof {
                    assert(self.ordered_keys@ =~= all.subrange(0, i as int) + still_held(tail));
                }
            } else {
                proof {
                    assert(self.ordered_keys@ =~= all.subrange(0, i as int) + still_held(tail));
                }
            }
            if !Self::holds(&inputs, input) {
                inputs.push(input);
            }
        }
        proof {
            assert(all.subrange(0, 0) =~= Seq::<Key>::empty());
            assert(all.subrange(0, all.len() as int) =~= all);
            assert(self.ordered_keys@ =~= still_held(all));
            lemma_still_held(all);
        }
        inputs
    }

    /// Whether `input` is one of `inputs`.
    fn holds(inputs: &Vec<Input>, input: Input) -> (found: bool)
        ensures
            found == inputs@.contains(input),
    {
        let mut i: usize = 0;
        while i < inputs.len()
            invariant
                0 <= i <= inputs@.len(),
                forall|j: int| 0 <= j < i ==> inputs@[j] != input,
            decreases inputs@.len() - i,
        {
            if inputs[i] == input {
                return true;
            }
            i = i + 1;
        }
        false
    }
}

} // verus!
