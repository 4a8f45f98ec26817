//! Keys and buttons that are down on this machine.

use crate::hotkey::ModifierMask;
use crate::mapping;
use crate::mapping_laws;
use crate::protocol::{KeySnapshot, SnapshotView};
use std::collections::BTreeSet;
use vstd::prelude::*;

verus! {

broadcast use vstd::std_specs::btree::group_btree_axioms;

/// Keys and buttons that are down.
#[derive(Debug)]
pub struct PressedState {
    keys: BTreeSet<u16>,
    buttons: BTreeSet<u8>,
}

/// Which keys and buttons are down.
pub struct PressedView {
    pub keys: Set<u16>,
    pub buttons: Set<u8>,
}

impl View for PressedState {
    type V = PressedView;

    closed spec fn view(&self) -> PressedView {
        PressedView { keys: self.keys@, buttons: self.buttons@ }
    }
}

/// Nothing down.
pub open spec fn none_pressed() -> PressedView {
    PressedView { keys: Set::empty(), buttons: Set::empty() }
}

/// What a snapshot lists.
pub open spec fn pressed_in(snapshot: SnapshotView) -> PressedView {
    PressedView { keys: snapshot.usages.to_set(), buttons: snapshot.buttons.to_set() }
}

impl PressedView {
    pub open spec fn nothing(self) -> bool {
        self.keys.is_empty() && self.buttons.is_empty()
    }

    /// After a key event. Repeats change nothing while the key is down.
    pub open spec fn with_key(self, usage: u16, down: bool, repeat: bool) -> PressedView {
        if down && !repeat {
            PressedView { keys: self.keys.insert(usage), buttons: self.buttons }
        } else if !down {
            PressedView { keys: self.keys.remove(usage), buttons: self.buttons }
        } else {
            self
        }
    }

    /// After a button event.
    pub open spec fn with_button(self, button: u8, down: bool) -> PressedView {
        if down {
            PressedView { keys: self.keys, buttons: self.buttons.insert(button) }
        } else {
            PressedView { keys: self.keys, buttons: self.buttons.remove(button) }
        }
    }
}

impl Default for PressedState {
    fn default() -> (r: Self)
        ensures
            r@ == none_pressed(),
    {
        PressedState { keys: BTreeSet::new(), buttons: BTreeSet::new() }
    }
}

impl PressedState {
    /// What a snapshot lists.
    pub fn from_snapshot(snapshot: &KeySnapshot) -> (r: Self)
        ensures
            r@ == pressed_in(snapshot@),
    {
        let mut keys: BTreeSet<u16> = BTreeSet::new();
        let mut i: usize = 0;
        assert(snapshot.usages@.take(0).to_set() =~= Set::<u16>::empty());
        while i < snapshot.usages.len()
            invariant
                i <= snapshot.usages@.len(),
                keys@ == snapshot.usages@.take(i as int).to_set(),
            decreases snapshot.usages@.len() - i,
        {
            proof {
                lemma_take_grows(snapshot.usages@, i as int);
            }
            keys.insert(snapshot.usages[i]);
            i += 1;
        }
        assert(snapshot.usages@.take(i as int) =~= snapshot.usages@);
        let mut buttons: BTreeSet<u8> = BTreeSet::new();
        let mut k: usize = 0;
        assert(snapshot.buttons@.take(0).to_set() =~= Set::<u8>::empty());
        while k < snapshot.buttons.len()
            invariant
                k <= snapshot.buttons@.len(),
                buttons@ == snapshot.buttons@.take(k as int).to_set(),
            decreases snapshot.buttons@.len() - k,
        {
            proof {
                lemma_take_grows(snapshot.buttons@, k as int);
            }
            buttons.insert(snapshot.buttons[k]);
            k += 1;
        }
        assert(snapshot.buttons@.take(k as int) =~= snapshot.buttons@);
        PressedState { keys, buttons }
    }

    pub fn is_empty(&self) -> (r: bool)
        ensures
            r == self@.nothing(),
    {
        self.keys.is_empty() && self.buttons.is_empty()
    }

    pub fn key(&mut self, usage: u16, down: bool, repeat: bool)
        ensures
            final(self)@ == old(self)@.with_key(usage, down, repeat),
    {
        if down && !repeat {
            self.keys.insert(usage);
        } else if !down {
            self.keys.remove(&usage);
        }
    }

    pub fn button(&mut self, button: u8, down: bool)
        ensures
            final(self)@ == old(self)@.with_button(button, down),
    {
        if down {
            self.buttons.insert(button);
        } else {
            self.buttons.remove(&button);
        }
    }
}

pub(crate) proof fn lemma_take_grows<A>(list: Seq<A>, i: int)
    requires
        0 <= i < list.len(),
    ensures
        list.take(i + 1).to_set() == list.take(i).to_set().insert(list[i]),
{
    let before = list.take(i);
    let after = list.take(i + 1);
    assert(after =~= before.push(list[i]));
    assert forall|a: A| #[trigger] after.to_set().contains(a) <==> before.to_set().insert(list[i]).contains(a) by {
        if before.contains(a) {
            let k = choose|k: int| 0 <= k < before.len() && before[k] == a;
            assert(after[k] == a);
        }
        if a == list[i] {
            assert(after[i] == a);
        }
        if after.contains(a) && a != list[i] {
            let k = choose|k: int| 0 <= k < after.len() && after[k] == a;
            assert(before[k] == a);
        }
    }
    assert(after.to_set() =~= before.to_set().insert(list[i]));
}

/// A key that goes down and up again leaves what was down before, if it was not down already.
pub proof fn key_press_and_release_cancel(state: PressedView, usage: u16)
    requires
        !state.keys.contains(usage),
    ensures
        state.with_key(usage, true, false).with_key(usage, false, false) == state,
{
    assert(state.keys.insert(usage).remove(usage) =~= state.keys);
}

/// The members of a set of bytes below `limit`, in order.
pub open spec fn bytes_below(set: Set<u8>, limit: nat) -> Seq<u8>
    decreases limit,
{
    if limit == 0 {
        Seq::empty()
    } else {
        let before = bytes_below(set, (limit - 1) as nat);
        if set.contains((limit - 1) as u8) {
            before.push((limit - 1) as u8)
        } else {
            before
        }
    }
}

/// What is down, listed in order.
pub open spec fn listed(state: PressedView) -> SnapshotView {
    SnapshotView {
        usages: mapping::in_ascending_order(state.keys),
        modifiers: ModifierMask(mapping::modifier_bits(state.keys)),
        buttons: bytes_below(state.buttons, 256),
    }
}

/// Puts a key into a set when it goes down, and takes it out when it goes up.
pub fn update_set(set: &mut BTreeSet<u16>, value: u16, down: bool)
    ensures
        final(set)@ == if down {
            old(set)@.insert(value)
        } else {
            old(set)@.remove(value)
        },
{
    if down {
        set.insert(value);
    } else {
        set.remove(&value);
    }
}

/// The modifiers among some keys.
pub fn current_modifiers(keys: &BTreeSet<u16>) -> (r: ModifierMask)
    ensures
        r == ModifierMask(mapping::modifier_bits(keys@)),
{
    let ctrl: u8 = if keys.contains(&0xe0) || keys.contains(&0xe4) { 1 } else { 0 };
    let shift: u8 = if keys.contains(&0xe1) || keys.contains(&0xe5) { 4 } else { 0 };
    let alt: u8 = if keys.contains(&0xe2) || keys.contains(&0xe6) { 2 } else { 0 };
    let meta: u8 = if keys.contains(&0xe3) || keys.contains(&0xe7) { 8 } else { 0 };
    ModifierMask(ctrl + alt + shift + meta)
}

/// The members of a set of bytes, in order.
pub fn ascending_bytes(set: &BTreeSet<u8>) -> (r: Vec<u8>)
    ensures
        r@ == bytes_below(set@, 256),
{
    let mut out: Vec<u8> = Vec::new();
    let mut n: u16 = 0;
    while n < 256
        invariant
            n <= 256,
            out@ == bytes_below(set@, n as nat),
        decreases 256 - n,
    {
        let value: u8 = n as u8;
        if set.contains(&value) {
            out.push(value);
        }
        n += 1;
    }
    out
}

impl PressedState {
    /// What is down, listed in order.
    pub fn snapshot(&self) -> (r: KeySnapshot)
        ensures
            r@ == listed(self@),
    {
        KeySnapshot {
            usages: mapping::ascending_keys(&self.keys),
            modifiers: current_modifiers(&self.keys),
            buttons: ascending_bytes(&self.buttons),
        }
    }

    /// The modifiers among the keys that are down.
    pub fn modifiers(&self) -> (r: ModifierMask)
        ensures
            r == ModifierMask(mapping::modifier_bits(self@.keys)),
    {
        current_modifiers(&self.keys)
    }

    /// Forgets everything that is down, and lists it.
    pub fn take(&mut self) -> (r: KeySnapshot)
        ensures
            r@ == listed(old(self)@),
            final(self)@ == none_pressed(),
    {
        let taken = self.snapshot();
        self.keys.clear();
        self.buttons.clear();
        taken
    }

    /// Whether a key is down.
    pub fn holds_key(&self, usage: u16) -> (r: bool)
        ensures
            r == self@.keys.contains(usage),
    {
        self.keys.contains(&usage)
    }

    /// The state with these keys and buttons down.
    pub fn from_sets(keys: BTreeSet<u16>, buttons: BTreeSet<u8>) -> (r: Self)
        ensures
            r@ == (PressedView { keys: keys@, buttons: buttons@ }),
    {
        PressedState { keys, buttons }
    }

    /// The button with the lowest number that is down.
    pub fn first_button(&self) -> (r: Option<u8>)
        ensures
            match r {
                Some(button) => self@.buttons.contains(button) && forall|b: u8|
                    #[trigger] self@.buttons.contains(b) ==> button <= b,
                None => self@.buttons.is_empty(),
            },
    {
        let mut n: u16 = 0;
        while n < 256
            invariant
                n <= 256,
                forall|b: u8| #[trigger] self@.buttons.contains(b) ==> n <= b,
            decreases 256 - n,
        {
            let value: u8 = n as u8;
            if self.buttons.contains(&value) {
                return Some(value);
            }
            n += 1;
        }
        assert(self@.buttons =~= Set::<u8>::empty());
        None
    }
}

/// A key or button event sets whether its own key or button is down, and nothing else. A repeat
/// of a key that goes down sets nothing.
pub proof fn events_set_only_their_own_key(
    state: PressedView,
    usage: u16,
    button: u8,
    down: bool,
    repeat: bool,
)
    ensures
        forall|other: u16| #[trigger]
            state.with_key(usage, down, repeat).keys.contains(other) <==> if other == usage && !(
            down && repeat) {
                down
            } else {
                state.keys.contains(other)
            },
        state.with_key(usage, down, repeat).buttons == state.buttons,
        forall|other: u8| #[trigger]
            state.with_button(button, down).buttons.contains(other) <==> if other == button {
                down
            } else {
                state.buttons.contains(other)
            },
        state.with_button(button, down).keys == state.keys,
        state.nothing() <==> (forall|other: u16| !(#[trigger] state.keys.contains(other))) && (
        forall|other: u8| !(#[trigger] state.buttons.contains(other))),
{
    if (forall|other: u16| !(#[trigger] state.keys.contains(other))) && (forall|other: u8|
        !(#[trigger] state.buttons.contains(other))) {
        assert(state.keys =~= Set::<u16>::empty());
        assert(state.buttons =~= Set::<u8>::empty());
    }
}

proof fn lemma_bytes_below(set: Set<u8>, limit: nat)
    requires
        limit <= 256,
    ensures
        ({
            let list = bytes_below(set, limit);
            &&& forall|i: int, j: int|
                0 <= i < j < list.len() ==> (#[trigger] list[i]) < (#[trigger] list[j])
            &&& forall|b: u8| #[trigger] list.contains(b) <==> set.contains(b) && b < limit
        }),
    decreases limit,
{
    if limit > 0 {
        let top = (limit - 1) as u8;
        let before = bytes_below(set, (limit - 1) as nat);
        let all = bytes_below(set, limit);
        lemma_bytes_below(set, (limit - 1) as nat);
        assert forall|b: u8| #[trigger] all.contains(b) <==> set.contains(b) && b < limit by {
            assert(before.contains(b) <==> set.contains(b) && b < limit - 1);
            if before.contains(b) {
                let i = choose|i: int| 0 <= i < before.len() && before[i] == b;
                assert(all[i] == b);
            }
            if all.contains(b) && !before.contains(b) {
                let i = choose|i: int| 0 <= i < all.len() && all[i] == b;
                if i < before.len() {
                    assert(before[i] == b);
                }
            }
            if b == top && set.contains(b) {
                assert(all[before.len() as int] == b);
            }
        }
        assert forall|i: int, j: int| 0 <= i < j < all.len() implies (#[trigger] all[i])
            < (#[trigger] all[j]) by {
            if j == before.len() {
                assert(before.contains(before[i]));
            }
        }
    }
}

/// What is down is listed without anything twice and in ascending order, with the modifiers
/// among the keys, and what a list names is down again when it is read.
pub proof fn listing_tells_what_is_down(state: PressedView)
    ensures
        ({
            let list = listed(state);
            &&& forall|i: int, j: int|
                0 <= i < j < list.usages.len() ==> (#[trigger] list.usages[i]) < (
                #[trigger] list.usages[j])
            &&& forall|i: int, j: int|
                0 <= i < j < list.buttons.len() ==> (#[trigger] list.buttons[i]) < (
                #[trigger] list.buttons[j])
            &&& list.modifiers == ModifierMask(mapping::modifier_bits(state.keys))
            &&& pressed_in(list) == state
        }),
{
    let list = listed(state);
    lemma_bytes_below(state.buttons, 256);
    mapping_laws::keys_are_listed_once_in_order(state.keys);
    assert forall|u: u16| #[trigger] list.usages.to_set().contains(u) <==> state.keys.contains(u) by {
        assert(list.usages.contains(u) <==> state.keys.contains(u));
    }
    assert(pressed_in(list).keys =~= state.keys);
    assert forall|b: u8| #[trigger] list.buttons.to_set().contains(b) <==> state.buttons.contains(
        b,
    ) by {
        assert(list.buttons.contains(b) <==> state.buttons.contains(b));
    }
    assert(pressed_in(list).buttons =~= state.buttons);
}

} // verus!
