//! What a key mapper keeps true while keys go down and up.

use crate::hotkey;
use crate::hotkey::ModifierMask;
use crate::mapping;
use crate::mapping::{InputPlatform, MapperView, MappingError};
use crate::protocol::SnapshotView;
use crate::text;
use vstd::prelude::*;

verus! {

/// The held keys that stand for a mapped key.
pub open spec fn sources(state: MapperView, target: u16) -> Set<u16> {
    state.pressed.dom().filter(|source: u16| state.pressed[source] == target)
}

/// Whether each mapped key is counted once for every held key that stands for it, and is not
/// counted at all where there is none.
pub open spec fn consistent(state: MapperView) -> bool {
    &&& state.pressed.dom().finite()
    &&& forall|target: u16| #[trigger] state.count(target) == sources(state, target).len()
    &&& forall|target: u16| #[trigger] state.counts.contains_key(target) ==> state.counts[target] > 0
}

proof fn lemma_set_of_u16_is_small(keys: Set<u16>)
    requires
        keys.finite(),
    ensures
        keys.len() <= 0x1_0000,
{
    let f = |u: u16| u as int;
    let image = keys.map(f);
    vstd::set_lib::lemma_map_size(keys, image, f);
    vstd::set_lib::lemma_int_range(0, 0x1_0000);
    assert(image.subset_of(vstd::set_lib::set_int_range(0, 0x1_0000)));
    vstd::set_lib::lemma_len_subset(image, vstd::set_lib::set_int_range(0, 0x1_0000));
}

proof fn lemma_sources_finite(state: MapperView, target: u16)
    requires
        state.pressed.dom().finite(),
    ensures
        sources(state, target).finite(),
        sources(state, target).len() <= 0x1_0000,
{
    state.pressed.dom().lemma_len_filter(|source: u16| state.pressed[source] == target);
    lemma_set_of_u16_is_small(sources(state, target));
}

/// A mapper that holds nothing is consistent.
pub proof fn released_is_consistent(state: MapperView)
    ensures
        consistent(state.released()),
        state.released().down() == Set::<u16>::empty(),
{
    let empty = state.released();
    assert forall|target: u16| #[trigger] empty.count(target) == sources(empty, target).len() by {
        assert(sources(empty, target) =~= Set::<u16>::empty());
    }
    assert(empty.down() =~= Set::<u16>::empty());
}

proof fn lemma_pressed_stays_consistent(state: MapperView, usage: u16)
    requires
        consistent(state),
        !state.pressed.contains_key(usage),
    ensures
        consistent(state.with_pressed(usage)),
{
    let after = state.with_pressed(usage);
    let target = state.target(usage);
    lemma_sources_finite(state, target);
    assert(state.count(target) == sources(state, target).len());
    assert(after.pressed.dom() =~= state.pressed.dom().insert(usage));
    assert forall|t: u16| #[trigger] after.count(t) == sources(after, t).len() by {
        lemma_sources_finite(state, t);
        assert(state.count(t) == sources(state, t).len());
        if t == target {
            assert(sources(after, t) =~= sources(state, t).insert(usage));
        } else {
            assert(sources(after, t) =~= sources(state, t));
        }
    }
    assert forall|t: u16| #[trigger] after.counts.contains_key(t) implies after.counts[t] > 0 by {
        if t != target {
            assert(state.counts.contains_key(t));
        }
    }
}

proof fn lemma_released_stays_consistent(state: MapperView, usage: u16)
    requires
        consistent(state),
        state.pressed.contains_key(usage),
    ensures
        consistent(state.without_pressed(usage)),
{
    let after = state.without_pressed(usage);
    let target = state.pressed[usage];
    lemma_sources_finite(state, target);
    assert(state.count(target) == sources(state, target).len());
    assert(sources(state, target).contains(usage));
    assert(after.pressed.dom() =~= state.pressed.dom().remove(usage));
    assert forall|t: u16| #[trigger] after.count(t) == sources(after, t).len() by {
        lemma_sources_finite(state, t);
        assert(state.count(t) == sources(state, t).len());
        if t == target {
            assert(sources(after, t) =~= sources(state, t).remove(usage));
        } else {
            assert(sources(after, t) =~= sources(state, t));
        }
    }
    assert forall|t: u16| #[trigger] after.counts.contains_key(t) implies after.counts[t] > 0 by {
        if t != target {
            assert(state.counts.contains_key(t));
        }
    }
}

/// Every key event keeps a mapper consistent.
pub proof fn key_events_keep_consistency(state: MapperView, usage: u16, down: bool, repeat: bool)
    requires
        consistent(state),
    ensures
        consistent(state.after_key(usage, down, repeat)),
{
    if !repeat {
        if down && !state.pressed.contains_key(usage) {
            lemma_pressed_stays_consistent(state, usage);
        } else if !down && state.pressed.contains_key(usage) {
            lemma_released_stays_consistent(state, usage);
        }
    }
}

/// A snapshot without a key twice leaves a mapper consistent. With a key listed twice the key
/// counts twice.
pub proof fn snapshots_keep_consistency(state: MapperView, usages: Seq<u16>)
    requires
        usages.no_duplicates(),
    ensures
        consistent(state.released().with_all_pressed(usages)),
        state.released().with_all_pressed(usages).pressed.dom() == usages.to_set(),
    decreases usages.len(),
{
    let empty = state.released();
    released_is_consistent(state);
    if usages.len() == 0 {
        assert(empty.pressed.dom() =~= usages.to_set());
    } else {
        let rest = usages.drop_last();
        let last = usages.last();
        assert(rest.no_duplicates());
        snapshots_keep_consistency(state, rest);
        let before = empty.with_all_pressed(rest);
        assert(!rest.to_set().contains(last)) by {
            if rest.contains(last) {
                let i = choose|i: int| 0 <= i < rest.len() && rest[i] == last;
                assert(usages[i] == usages[usages.len() - 1]);
            }
        }
        assert(!before.pressed.contains_key(last)) by {
            assert(before.pressed.dom().contains(last) == rest.to_set().contains(last));
        }
        lemma_pressed_stays_consistent(before, last);
        let after = empty.with_all_pressed(usages);
        assert(after == before.with_pressed(last));
        assert(after.pressed.dom() =~= usages.to_set()) by {
            assert(after.pressed.dom() =~= before.pressed.dom().insert(last));
            assert forall|u: u16| #[trigger] usages.to_set().contains(u) <==> rest.to_set().contains(u) || u == last by {
                if rest.contains(u) {
                    let i = choose|i: int| 0 <= i < rest.len() && rest[i] == u;
                    assert(usages[i] == u);
                }
                if usages.contains(u) && u != last {
                    let i = choose|i: int| 0 <= i < usages.len() && usages[i] == u;
                    assert(rest[i] == u);
                }
                if u == last {
                    assert(usages[usages.len() - 1] == u);
                }
            }
        }
    }
}

/// A mapped key is down exactly while some held key stands for it.
pub proof fn down_keys_are_the_mapped_held_keys(state: MapperView, target: u16)
    requires
        consistent(state),
    ensures
        state.down().contains(target) <==> exists|source: u16|
            #[trigger] state.pressed.contains_key(source) && state.pressed[source] == target,
{
    lemma_sources_finite(state, target);
    assert(state.count(target) == sources(state, target).len());
    let found = sources(state, target);
    if state.down().contains(target) {
        assert(state.counts.contains_key(target));
        assert(found.len() > 0);
        let source = found.choose();
        assert(found.contains(source));
        assert(state.pressed.contains_key(source));
    }
    if exists|source: u16| #[trigger] state.pressed.contains_key(source) && state.pressed[source] == target {
        let source = choose|source: u16|
            #[trigger] state.pressed.contains_key(source) && state.pressed[source] == target;
        assert(found.contains(source));
        if found.len() == 0 {
            assert(found =~= Set::<u16>::empty());
        }
    }
}

/// What is passed on keeps the two ends in step: a mapped key is reported down exactly when it
/// was up and is now down, up exactly when it was down and is now up, and nothing changes
/// otherwise.
pub proof fn reported_keys_are_the_changes(state: MapperView, usage: u16, down: bool)
    requires
        consistent(state),
    ensures
        ({
            let after = state.after_key(usage, down, false);
            match state.key_output(usage, down, false) {
                Some(key) => key.down == down && (if down {
                    !state.down().contains(key.usage) && after.down() == state.down().insert(key.usage)
                } else {
                    state.down().contains(key.usage) && after.down() == state.down().remove(key.usage)
                }),
                None => after.down() == state.down(),
            }
        }),
{
    let after = state.after_key(usage, down, false);
    if down {
        if !state.pressed.contains_key(usage) {
            let target = state.target(usage);
            assert(after.down() =~= state.down().insert(target));
            if state.counts.contains_key(target) {
                assert(after.down() =~= state.down());
            }
        }
    } else if state.pressed.contains_key(usage) {
        let target = state.pressed[usage];
        lemma_sources_finite(state, target);
        assert(state.count(target) == sources(state, target).len());
        assert(sources(state, target).contains(usage));
        if sources(state, target).len() == 0 {
            assert(sources(state, target) =~= Set::<u16>::empty());
        }
        if state.counts[target] > 1 {
            assert(after.down() =~= state.down());
        } else {
            assert(after.down() =~= state.down().remove(target));
        }
    }
}

/// Pressing a key that is not held and releasing it again leaves everything as it was.
pub proof fn press_and_release_cancel(state: MapperView, usage: u16)
    requires
        consistent(state),
        !state.pressed.contains_key(usage),
    ensures
        state.after_key(usage, true, false).after_key(usage, false, false) == state,
{
    let target = state.target(usage);
    let pressed = state.with_pressed(usage);
    let back = pressed.without_pressed(usage);
    lemma_sources_finite(state, target);
    assert(state.count(target) == sources(state, target).len());
    assert(back.pressed =~= state.pressed);
    assert(back.counts =~= state.counts);
}

/// A repeat is always passed on. For a held key it names the mapped key that its press stood
/// for, which is down, and for any other key the one that the mapping gives it. It changes
/// nothing.
pub proof fn repeats_name_the_mapped_key(state: MapperView, usage: u16, down: bool)
    ensures
        state.after_key(usage, down, true) == state,
        state.key_output(usage, down, true) matches Some(key) && {
            &&& key.repeat
            &&& key.down == down
            &&& state.pressed.contains_key(usage) ==> key.usage == state.pressed[usage]
            &&& !state.pressed.contains_key(usage) && state.mapping.contains_key(usage)
                ==> key.usage == state.mapping[usage]
            &&& !state.pressed.contains_key(usage) && !state.mapping.contains_key(usage)
                ==> key.usage == usage
            &&& consistent(state) && state.pressed.contains_key(usage) ==> state.counts.contains_key(
                key.usage,
            )
        },
{
    if consistent(state) && state.pressed.contains_key(usage) {
        down_keys_are_the_mapped_held_keys(state, state.pressed[usage]);
    }
}

/// A key that goes down stands for the key that the mapping gives it, or for itself. It is
/// passed on under that name exactly when no other held key stands for it already.
pub proof fn press_names_the_mapped_key(state: MapperView, usage: u16)
    requires
        consistent(state),
        !state.pressed.contains_key(usage),
    ensures
        ({
            let after = state.after_key(usage, true, false);
            let target = if state.mapping.contains_key(usage) {
                state.mapping[usage]
            } else {
                usage
            };
            &&& after.mapping == state.mapping
            &&& after.pressed == state.pressed.insert(usage, target)
            &&& after.counts.contains_key(target)
            &&& match state.key_output(usage, true, false) {
                Some(key) => {
                    &&& key.usage == target
                    &&& key.down
                    &&& !key.repeat
                    &&& !(exists|other: u16| #[trigger]
                        state.pressed.contains_key(other) && state.pressed[other] == target)
                },
                None => exists|other: u16| #[trigger]
                    state.pressed.contains_key(other) && state.pressed[other] == target,
            }
        }),
{
    let target = state.target(usage);
    down_keys_are_the_mapped_held_keys(state, target);
    assert(state.count(target) == sources(state, target).len());
    lemma_sources_finite(state, target);
}

/// A key that goes up is passed on under the name of its press, whatever the mapping says, and
/// exactly when no other held key stands for it any more.
pub proof fn release_names_the_key_of_the_press(state: MapperView, usage: u16)
    requires
        consistent(state),
        state.pressed.contains_key(usage),
    ensures
        ({
            let after = state.after_key(usage, false, false);
            let target = state.pressed[usage];
            &&& after.mapping == state.mapping
            &&& after.pressed == state.pressed.remove(usage)
            &&& match state.key_output(usage, false, false) {
                Some(key) => {
                    &&& key.usage == target
                    &&& !key.down
                    &&& !key.repeat
                    &&& !(exists|other: u16| #[trigger]
                        after.pressed.contains_key(other) && after.pressed[other] == target)
                },
                None => exists|other: u16| #[trigger]
                    after.pressed.contains_key(other) && after.pressed[other] == target,
            }
        }),
{
    let after = state.after_key(usage, false, false);
    let target = state.pressed[usage];
    key_events_keep_consistency(state, usage, false, false);
    down_keys_are_the_mapped_held_keys(after, target);
    down_keys_are_the_mapped_held_keys(state, target);
    assert(state.down().contains(target));
}

/// A key that is down cannot go down, and one that is up cannot go up: nothing is passed on, and
/// nothing changes.
pub proof fn idle_key_events_are_dropped(state: MapperView, usage: u16, down: bool)
    requires
        state.pressed.contains_key(usage) == down,
    ensures
        state.after_key(usage, down, false) == state,
        state.key_output(usage, down, false) is None,
{
}

/// Whether the bit of a modifier stands in a mask: the number of the bit is one, two, four or
/// eight.
pub open spec fn has_bit(mask: ModifierMask, bit: int) -> bool {
    (mask.0 as int / bit) % 2 == 1
}

/// The modifiers among some keys: each one is there exactly when its left or its right key is.
pub proof fn modifiers_are_those_of_the_keys(keys: Set<u16>)
    ensures
        ({
            let mask = ModifierMask(mapping::modifier_bits(keys));
            &&& mask.0 < 16
            &&& has_bit(mask, 1) <==> keys.contains(0xe0) || keys.contains(0xe4)
            &&& has_bit(mask, 4) <==> keys.contains(0xe1) || keys.contains(0xe5)
            &&& has_bit(mask, 2) <==> keys.contains(0xe2) || keys.contains(0xe6)
            &&& has_bit(mask, 8) <==> keys.contains(0xe3) || keys.contains(0xe7)
        }),
{
}

/// What is passed on carries the modifiers of the mapped keys that are down with the event.
pub proof fn reported_modifiers_are_the_mapped_ones(
    state: MapperView,
    usage: u16,
    down: bool,
    repeat: bool,
)
    ensures
        state.key_output(usage, down, repeat) matches Some(key) ==> {
            let held = state.after_key(usage, down, repeat).counts;
            &&& key.modifiers.0 < 16
            &&& has_bit(key.modifiers, 1) <==> held.contains_key(0xe0) || held.contains_key(0xe4)
            &&& has_bit(key.modifiers, 4) <==> held.contains_key(0xe1) || held.contains_key(0xe5)
            &&& has_bit(key.modifiers, 2) <==> held.contains_key(0xe2) || held.contains_key(0xe6)
            &&& has_bit(key.modifiers, 8) <==> held.contains_key(0xe3) || held.contains_key(0xe7)
        },
{
    modifiers_are_those_of_the_keys(state.after_key(usage, down, repeat).down());
}

proof fn lemma_members_below(keys: Set<u16>, limit: nat)
    requires
        limit <= 0x1_0000,
    ensures
        mapping::ascends(mapping::members_below(keys, limit)),
        forall|u: u16| #[trigger]
            mapping::members_below(keys, limit).contains(u) <==> keys.contains(u) && u < limit,
    decreases limit,
{
    if limit > 0 {
        let top = (limit - 1) as u16;
        let before = mapping::members_below(keys, (limit - 1) as nat);
        let all = mapping::members_below(keys, limit);
        lemma_members_below(keys, (limit - 1) as nat);
        assert forall|u: u16| #[trigger] all.contains(u) <==> keys.contains(u) && u < limit by {
            assert(before.contains(u) <==> keys.contains(u) && u < limit - 1);
            if before.contains(u) {
                let i = choose|i: int| 0 <= i < before.len() && before[i] == u;
                assert(all[i] == u);
            }
            if all.contains(u) && !before.contains(u) {
                let i = choose|i: int| 0 <= i < all.len() && all[i] == u;
                if i < before.len() {
                    assert(before[i] == u);
                }
            }
            if u == top && keys.contains(u) {
                assert(all[before.len() as int] == u);
            }
        }
        assert forall|i: int, j: int| 0 <= i < j < all.len() implies (#[trigger] all[i])
            < (#[trigger] all[j]) by {
            if j == before.len() {
                assert(before.contains(before[i]));
            }
        }
    }
}

/// A set of keys is listed in ascending order, each key once and no other.
pub proof fn keys_are_listed_once_in_order(keys: Set<u16>)
    ensures
        ({
            let list = mapping::in_ascending_order(keys);
            &&& forall|i: int, j: int|
                0 <= i < j < list.len() ==> (#[trigger] list[i]) < (#[trigger] list[j])
            &&& forall|usage: u16| #[trigger] list.contains(usage) <==> keys.contains(usage)
        }),
{
    lemma_members_below(keys, 0x1_0000);
}

proof fn lemma_all_pressed(state: MapperView, usages: Seq<u16>)
    ensures
        ({
            let after = state.released().with_all_pressed(usages);
            &&& after.mapping == state.mapping
            &&& forall|usage: u16| #[trigger]
                after.pressed.contains_key(usage) <==> usages.contains(usage)
            &&& forall|usage: u16| #[trigger]
                after.pressed.contains_key(usage) ==> after.pressed[usage] == state.target(usage)
            &&& forall|target: u16| #[trigger]
                after.counts.contains_key(target) <==> exists|usage: u16| #[trigger]
                    usages.contains(usage) && state.target(usage) == target
        }),
    decreases usages.len(),
{
    let after = state.released().with_all_pressed(usages);
    if usages.len() > 0 {
        let rest = usages.drop_last();
        let last = usages.last();
        lemma_all_pressed(state, rest);
        let before = state.released().with_all_pressed(rest);
        assert forall|usage: u16| #[trigger] usages.contains(usage) <==> rest.contains(usage)
            || usage == last by {
            if rest.contains(usage) {
                let i = choose|i: int| 0 <= i < rest.len() && rest[i] == usage;
                assert(usages[i] == usage);
            }
            if usages.contains(usage) && usage != last {
                let i = choose|i: int| 0 <= i < usages.len() && usages[i] == usage;
                assert(rest[i] == usage);
            }
            if usage == last {
                assert(usages[usages.len() - 1] == usage);
            }
        }
        assert forall|usage: u16| #[trigger] after.pressed.contains_key(usage) <==> usages.contains(
            usage,
        ) by {
            assert(before.pressed.contains_key(usage) <==> rest.contains(usage));
        }
        assert forall|usage: u16| #[trigger] after.pressed.contains_key(usage) implies after.pressed[usage]
            == state.target(usage) by {
            if usage != last {
                assert(before.pressed.contains_key(usage));
            }
        }
        assert forall|target: u16| #[trigger] after.counts.contains_key(target) <==> exists|
            usage: u16,
        | #[trigger] usages.contains(usage) && state.target(usage) == target by {
            assert(before.counts.contains_key(target) <==> exists|usage: u16| #[trigger]
                rest.contains(usage) && state.target(usage) == target);
            if after.counts.contains_key(target) {
                if target == state.target(last) {
                    assert(usages.contains(last));
                } else {
                    let usage = choose|usage: u16| #[trigger]
                        rest.contains(usage) && state.target(usage) == target;
                    assert(usages.contains(usage));
                }
            }
            if exists|usage: u16| #[trigger] usages.contains(usage) && state.target(usage) == target {
                let usage = choose|usage: u16| #[trigger]
                    usages.contains(usage) && state.target(usage) == target;
                if usage != last {
                    assert(rest.contains(usage));
                }
            }
        }
    } else {
        assert forall|target: u16| #[trigger] after.counts.contains_key(target) <==> exists|
            usage: u16,
        | #[trigger] usages.contains(usage) && state.target(usage) == target by {
        }
    }
}

/// The keys of a snapshot are handed over as the keys that the mapping gives them, each once and
/// in ascending order, with their modifiers; the buttons stay as they are. From then on each key
/// of the snapshot is held for the key that it stands for, and nothing else is.
pub proof fn snapshots_name_the_mapped_keys(state: MapperView, snapshot: SnapshotView)
    ensures
        ({
            let told = state.snapshot_output(snapshot);
            let after = state.released().with_all_pressed(snapshot.usages);
            let target = |usage: u16|
                if state.mapping.contains_key(usage) {
                    state.mapping[usage]
                } else {
                    usage
                };
            &&& forall|i: int, j: int|
                0 <= i < j < told.usages.len() ==> (#[trigger] told.usages[i]) < (
                #[trigger] told.usages[j])
            &&& forall|t: u16| #[trigger]
                told.usages.contains(t) <==> exists|usage: u16| #[trigger]
                    snapshot.usages.contains(usage) && target(usage) == t
            &&& told.buttons == snapshot.buttons
            &&& told.modifiers == ModifierMask(mapping::modifier_bits(told.usages.to_set()))
            &&& forall|usage: u16| #[trigger]
                after.pressed.contains_key(usage) <==> snapshot.usages.contains(usage)
            &&& forall|usage: u16| #[trigger]
                after.pressed.contains_key(usage) ==> after.pressed[usage] == target(usage)
        }),
{
    let told = state.snapshot_output(snapshot);
    let after = state.released().with_all_pressed(snapshot.usages);
    lemma_all_pressed(state, snapshot.usages);
    keys_are_listed_once_in_order(after.down());
    assert forall|t: u16| #[trigger] told.usages.contains(t) <==> exists|usage: u16| #[trigger]
        snapshot.usages.contains(usage) && state.target(usage) == t by {
        assert(after.counts.contains_key(t) <==> after.down().contains(t));
    }
    assert(told.usages.to_set() =~= after.down());
}

/// Whether both names of an entry are known.
pub open spec fn is_known(
    entry: (Seq<char>, Seq<char>),
    source: InputPlatform,
    target: InputPlatform,
) -> bool {
    mapping::key_by_name(source, entry.0) is Some && mapping::key_by_name(target, entry.1) is Some
}

proof fn lemma_compiled_known(
    entries: Seq<(Seq<char>, Seq<char>)>,
    source: InputPlatform,
    target: InputPlatform,
)
    requires
        entries.len() <= usize::MAX,
    ensures
        match mapping::compiled(entries, source, target) {
            Ok(_) => forall|i: int|
                0 <= i < entries.len() ==> is_known(#[trigger] entries[i], source, target),
            Err(MappingError::UnsupportedSource { entry }) => {
                &&& entry < entries.len()
                &&& mapping::key_by_name(source, entries[entry as int].0) is None
                &&& forall|i: int|
                    0 <= i < entry ==> is_known(#[trigger] entries[i], source, target)
            },
            Err(MappingError::UnsupportedTarget { entry }) => {
                &&& entry < entries.len()
                &&& mapping::key_by_name(source, entries[entry as int].0) is Some
                &&& mapping::key_by_name(target, entries[entry as int].1) is None
                &&& forall|i: int|
                    0 <= i < entry ==> is_known(#[trigger] entries[i], source, target)
            },
        },
    decreases entries.len(),
{
    if entries.len() > 0 {
        let before = entries.drop_last();
        lemma_compiled_known(before, source, target);
        assert(entries.last() == entries[entries.len() - 1]);
        assert forall|i: int| 0 <= i < before.len() implies before[i] == #[trigger] entries[i] by {
        }
        if mapping::compiled(before, source, target) is Ok {
            assert forall|i: int| 0 <= i < before.len() implies is_known(
                #[trigger] entries[i],
                source,
                target,
            ) by {
                assert(is_known(before[i], source, target));
            }
        }
    }
}

proof fn lemma_compiled_has(
    entries: Seq<(Seq<char>, Seq<char>)>,
    source: InputPlatform,
    target: InputPlatform,
    usage: u16,
)
    requires
        mapping::compiled(entries, source, target) is Ok,
        mapping::compiled(entries, source, target)->Ok_0.contains_key(usage),
    ensures
        exists|i: int|
            0 <= i < entries.len() && mapping::key_by_name(source, (#[trigger] entries[i]).0)
                == Some(usage) && mapping::key_by_name(target, entries[i].1) == Some(
                mapping::compiled(entries, source, target)->Ok_0[usage],
            ),
    decreases entries.len(),
{
    let before = entries.drop_last();
    let last = entries[entries.len() - 1];
    if mapping::key_by_name(source, last.0) != Some(usage) {
        lemma_compiled_has(before, source, target, usage);
        let i = choose|i: int|
            0 <= i < before.len() && mapping::key_by_name(source, (#[trigger] before[i]).0) == Some(
                usage,
            ) && mapping::key_by_name(target, before[i].1) == Some(
                mapping::compiled(before, source, target)->Ok_0[usage],
            );
        assert(entries[i] == before[i]);
    }
}

proof fn lemma_compiled_entry(
    entries: Seq<(Seq<char>, Seq<char>)>,
    source: InputPlatform,
    target: InputPlatform,
    i: int,
)
    requires
        mapping::compiled(entries, source, target) is Ok,
        0 <= i < entries.len(),
        forall|j: int|
            i < j < entries.len() ==> mapping::key_by_name(source, (#[trigger] entries[j]).0)
                != mapping::key_by_name(source, entries[i].0),
    ensures
        ({
            let compiled = mapping::compiled(entries, source, target)->Ok_0;
            let from = mapping::key_by_name(source, entries[i].0)->0;
            compiled.contains_key(from) && mapping::key_by_name(target, entries[i].1) == Some(
                compiled[from],
            )
        }),
        mapping::key_by_name(source, entries[i].0) is Some,
    decreases entries.len(),
{
    let before = entries.drop_last();
    if i < before.len() {
        assert(before[i] == entries[i]);
        assert forall|j: int| i < j < before.len() implies mapping::key_by_name(
            source,
            (#[trigger] before[j]).0,
        ) != mapping::key_by_name(source, before[i].0) by {
            assert(before[j] == entries[j]);
        }
        lemma_compiled_entry(before, source, target, i);
        assert(entries.last() == entries[entries.len() - 1]);
    }
}

/// A table makes a mapping exactly when all its names are known, and otherwise the first entry
/// with an unknown name is reported.
pub proof fn tables_need_known_names(
    entries: Seq<(Seq<char>, Seq<char>)>,
    source: InputPlatform,
    target: InputPlatform,
)
    requires
        entries.len() <= usize::MAX,
    ensures
        match mapping::compiled(entries, source, target) {
            Ok(_) => forall|i: int|
                0 <= i < entries.len() ==> is_known(#[trigger] entries[i], source, target),
            Err(MappingError::UnsupportedSource { entry }) => {
                &&& entry < entries.len()
                &&& mapping::key_by_name(source, entries[entry as int].0) is None
                &&& forall|i: int|
                    0 <= i < entry ==> is_known(#[trigger] entries[i], source, target)
            },
            Err(MappingError::UnsupportedTarget { entry }) => {
                &&& entry < entries.len()
                &&& mapping::key_by_name(source, entries[entry as int].0) is Some
                &&& mapping::key_by_name(target, entries[entry as int].1) is None
                &&& forall|i: int|
                    0 <= i < entry ==> is_known(#[trigger] entries[i], source, target)
            },
        },
{
    lemma_compiled_known(entries, source, target);
}

/// Each entry of a table maps the key of its name to the key that it stands for, unless a later
/// entry names the same key, and nothing else is mapped.
pub proof fn tables_map_what_they_name(
    entries: Seq<(Seq<char>, Seq<char>)>,
    source: InputPlatform,
    target: InputPlatform,
)
    requires
        mapping::compiled(entries, source, target) is Ok,
    ensures
        ({
            let compiled = mapping::compiled(entries, source, target)->Ok_0;
            &&& forall|usage: u16| #[trigger]
                compiled.contains_key(usage) ==> exists|i: int|
                    0 <= i < entries.len() && mapping::key_by_name(
                        source,
                        (#[trigger] entries[i]).0,
                    ) == Some(usage) && mapping::key_by_name(target, entries[i].1) == Some(
                        compiled[usage],
                    )
            &&& forall|i: int|
                #![trigger entries[i]]
                0 <= i < entries.len() && (forall|j: int|
                    i < j < entries.len() ==> mapping::key_by_name(
                        source,
                        (#[trigger] entries[j]).0,
                    ) != mapping::key_by_name(source, entries[i].0)) ==> compiled.contains_key(
                    mapping::key_by_name(source, entries[i].0)->0,
                ) && mapping::key_by_name(target, entries[i].1) == Some(
                    compiled[mapping::key_by_name(source, entries[i].0)->0],
                )
        }),
{
    let compiled = mapping::compiled(entries, source, target)->Ok_0;
    assert forall|usage: u16| #[trigger] compiled.contains_key(usage) implies exists|i: int|
        0 <= i < entries.len() && mapping::key_by_name(source, (#[trigger] entries[i]).0) == Some(
            usage,
        ) && mapping::key_by_name(target, entries[i].1) == Some(compiled[usage]) by {
        lemma_compiled_has(entries, source, target, usage);
    }
    assert forall|i: int|
        #![trigger entries[i]]
        0 <= i < entries.len() && (forall|j: int|
            i < j < entries.len() ==> mapping::key_by_name(source, (#[trigger] entries[j]).0)
                != mapping::key_by_name(source, entries[i].0)) implies compiled.contains_key(
        mapping::key_by_name(source, entries[i].0)->0,
    ) && mapping::key_by_name(target, entries[i].1) == Some(
        compiled[mapping::key_by_name(source, entries[i].0)->0],
    ) by {
        lemma_compiled_entry(entries, source, target, i);
    }
}

/// Each direction has its own table, and between equal platforms no key is mapped, whatever the
/// tables say.
pub proof fn each_direction_has_its_table(
    macos_to_windows: Seq<(Seq<char>, Seq<char>)>,
    windows_to_macos: Seq<(Seq<char>, Seq<char>)>,
    platform: InputPlatform,
)
    ensures
        mapping::direction(macos_to_windows, windows_to_macos, platform, platform) == Ok::<
            Map<u16, u16>,
            MappingError,
        >(Map::empty()),
        mapping::direction(
            macos_to_windows,
            windows_to_macos,
            InputPlatform::Macos,
            InputPlatform::Windows,
        ) == mapping::compiled(macos_to_windows, InputPlatform::Macos, InputPlatform::Windows),
        mapping::direction(
            macos_to_windows,
            windows_to_macos,
            InputPlatform::Windows,
            InputPlatform::Macos,
        ) == mapping::compiled(windows_to_macos, InputPlatform::Windows, InputPlatform::Macos),
{
}

/// The length of a word and three of its letters, by which the names of keys can be told apart.
spec fn letters(word: Seq<char>) -> (nat, char, char, char) {
    (word.len(), word[0], word[1], word[word.len() - 1])
}

#[verifier::rlimit(60)]
proof fn lemma_common_words()
    ensures
        mapping::common_word("enter"@) == Some(0x28u16),
        mapping::common_word("escape"@) == Some(0x29u16),
        mapping::common_word("backspace"@) == Some(0x2au16),
        mapping::common_word("tab"@) == Some(0x2bu16),
        mapping::common_word("space"@) == Some(0x2cu16),
        mapping::common_word("minus"@) == Some(0x2du16),
        mapping::common_word("equal"@) == Some(0x2eu16),
        mapping::common_word("left_bracket"@) == Some(0x2fu16),
        mapping::common_word("right_bracket"@) == Some(0x30u16),
        mapping::common_word("backslash"@) == Some(0x31u16),
        mapping::common_word("semicolon"@) == Some(0x33u16),
        mapping::common_word("apostrophe"@) == Some(0x34u16),
        mapping::common_word("grave"@) == Some(0x35u16),
        mapping::common_word("comma"@) == Some(0x36u16),
        mapping::common_word("period"@) == Some(0x37u16),
        mapping::common_word("slash"@) == Some(0x38u16),
        mapping::common_word("caps_lock"@) == Some(0x39u16),
        mapping::common_word("insert"@) == Some(0x49u16),
        mapping::common_word("home"@) == Some(0x4au16),
        mapping::common_word("page_up"@) == Some(0x4bu16),
        mapping::common_word("delete"@) == Some(0x4cu16),
        mapping::common_word("end"@) == Some(0x4du16),
        mapping::common_word("page_down"@) == Some(0x4eu16),
        mapping::common_word("right"@) == Some(0x4fu16),
        mapping::common_word("left"@) == Some(0x50u16),
        mapping::common_word("down"@) == Some(0x51u16),
        mapping::common_word("up"@) == Some(0x52u16),
{
    assert(letters("enter"@) == (5nat, 'e', 'n', 'r')) by { reveal_strlit("enter"); }
    assert(letters("escape"@) == (6nat, 'e', 's', 'e')) by { reveal_strlit("escape"); }
    assert(letters("backspace"@) == (9nat, 'b', 'a', 'e')) by { reveal_strlit("backspace"); }
    assert(letters("tab"@) == (3nat, 't', 'a', 'b')) by { reveal_strlit("tab"); }
    assert(letters("space"@) == (5nat, 's', 'p', 'e')) by { reveal_strlit("space"); }
    assert(letters("minus"@) == (5nat, 'm', 'i', 's')) by { reveal_strlit("minus"); }
    assert(letters("equal"@) == (5nat, 'e', 'q', 'l')) by { reveal_strlit("equal"); }
    assert(letters("left_bracket"@) == (12nat, 'l', 'e', 't')) by { reveal_strlit("left_bracket"); }
    assert(letters("right_bracket"@) == (13nat, 'r', 'i', 't')) by { reveal_strlit("right_bracket"); }
    assert(letters("backslash"@) == (9nat, 'b', 'a', 'h')) by { reveal_strlit("backslash"); }
    assert(letters("semicolon"@) == (9nat, 's', 'e', 'n')) by { reveal_strlit("semicolon"); }
    assert(letters("apostrophe"@) == (10nat, 'a', 'p', 'e')) by { reveal_strlit("apostrophe"); }
    assert(letters("grave"@) == (5nat, 'g', 'r', 'e')) by { reveal_strlit("grave"); }
    assert(letters("comma"@) == (5nat, 'c', 'o', 'a')) by { reveal_strlit("comma"); }
    assert(letters("period"@) == (6nat, 'p', 'e', 'd')) by { reveal_strlit("period"); }
    assert(letters("slash"@) == (5nat, 's', 'l', 'h')) by { reveal_strlit("slash"); }
    assert(letters("caps_lock"@) == (9nat, 'c', 'a', 'k')) by { reveal_strlit("caps_lock"); }
    assert(letters("insert"@) == (6nat, 'i', 'n', 't')) by { reveal_strlit("insert"); }
    assert(letters("home"@) == (4nat, 'h', 'o', 'e')) by { reveal_strlit("home"); }
    assert(letters("page_up"@) == (7nat, 'p', 'a', 'p')) by { reveal_strlit("page_up"); }
    assert(letters("delete"@) == (6nat, 'd', 'e', 'e')) by { reveal_strlit("delete"); }
    assert(letters("end"@) == (3nat, 'e', 'n', 'd')) by { reveal_strlit("end"); }
    assert(letters("page_down"@) == (9nat, 'p', 'a', 'n')) by { reveal_strlit("page_down"); }
    assert(letters("right"@) == (5nat, 'r', 'i', 't')) by { reveal_strlit("right"); }
    assert(letters("left"@) == (4nat, 'l', 'e', 't')) by { reveal_strlit("left"); }
    assert(letters("down"@) == (4nat, 'd', 'o', 'n')) by { reveal_strlit("down"); }
    assert(letters("up"@) == (2nat, 'u', 'p', 'p')) by { reveal_strlit("up"); }
}

#[verifier::rlimit(60)]
proof fn lemma_common_keys()
    ensures
        mapping::common_key("enter"@) == Some(0x28u16),
        mapping::common_key("escape"@) == Some(0x29u16),
        mapping::common_key("backspace"@) == Some(0x2au16),
        mapping::common_key("tab"@) == Some(0x2bu16),
        mapping::common_key("space"@) == Some(0x2cu16),
        mapping::common_key("minus"@) == Some(0x2du16),
        mapping::common_key("equal"@) == Some(0x2eu16),
        mapping::common_key("left_bracket"@) == Some(0x2fu16),
        mapping::common_key("right_bracket"@) == Some(0x30u16),
        mapping::common_key("backslash"@) == Some(0x31u16),
        mapping::common_key("semicolon"@) == Some(0x33u16),
        mapping::common_key("apostrophe"@) == Some(0x34u16),
        mapping::common_key("grave"@) == Some(0x35u16),
        mapping::common_key("comma"@) == Some(0x36u16),
        mapping::common_key("period"@) == Some(0x37u16),
        mapping::common_key("slash"@) == Some(0x38u16),
        mapping::common_key("caps_lock"@) == Some(0x39u16),
        mapping::common_key("insert"@) == Some(0x49u16),
        mapping::common_key("home"@) == Some(0x4au16),
        mapping::common_key("page_up"@) == Some(0x4bu16),
        mapping::common_key("delete"@) == Some(0x4cu16),
        mapping::common_key("end"@) == Some(0x4du16),
        mapping::common_key("page_down"@) == Some(0x4eu16),
        mapping::common_key("right"@) == Some(0x4fu16),
        mapping::common_key("left"@) == Some(0x50u16),
        mapping::common_key("down"@) == Some(0x51u16),
        mapping::common_key("up"@) == Some(0x52u16),
{
    lemma_common_words();
    assert(letters("enter"@) == (5nat, 'e', 'n', 'r')) by { reveal_strlit("enter"); }
    assert(letters("escape"@) == (6nat, 'e', 's', 'e')) by { reveal_strlit("escape"); }
    assert(letters("backspace"@) == (9nat, 'b', 'a', 'e')) by { reveal_strlit("backspace"); }
    assert(letters("tab"@) == (3nat, 't', 'a', 'b')) by { reveal_strlit("tab"); }
    assert(letters("space"@) == (5nat, 's', 'p', 'e')) by { reveal_strlit("space"); }
    assert(letters("minus"@) == (5nat, 'm', 'i', 's')) by { reveal_strlit("minus"); }
    assert(letters("equal"@) == (5nat, 'e', 'q', 'l')) by { reveal_strlit("equal"); }
    assert(letters("left_bracket"@) == (12nat, 'l', 'e', 't')) by { reveal_strlit("left_bracket"); }
    assert(letters("right_bracket"@) == (13nat, 'r', 'i', 't')) by { reveal_strlit("right_bracket"); }
    assert(letters("backslash"@) == (9nat, 'b', 'a', 'h')) by { reveal_strlit("backslash"); }
    assert(letters("semicolon"@) == (9nat, 's', 'e', 'n')) by { reveal_strlit("semicolon"); }
    assert(letters("apostrophe"@) == (10nat, 'a', 'p', 'e')) by { reveal_strlit("apostrophe"); }
    assert(letters("grave"@) == (5nat, 'g', 'r', 'e')) by { reveal_strlit("grave"); }
    assert(letters("comma"@) == (5nat, 'c', 'o', 'a')) by { reveal_strlit("comma"); }
    assert(letters("period"@) == (6nat, 'p', 'e', 'd')) by { reveal_strlit("period"); }
    assert(letters("slash"@) == (5nat, 's', 'l', 'h')) by { reveal_strlit("slash"); }
    assert(letters("caps_lock"@) == (9nat, 'c', 'a', 'k')) by { reveal_strlit("caps_lock"); }
    assert(letters("insert"@) == (6nat, 'i', 'n', 't')) by { reveal_strlit("insert"); }
    assert(letters("home"@) == (4nat, 'h', 'o', 'e')) by { reveal_strlit("home"); }
    assert(letters("page_up"@) == (7nat, 'p', 'a', 'p')) by { reveal_strlit("page_up"); }
    assert(letters("delete"@) == (6nat, 'd', 'e', 'e')) by { reveal_strlit("delete"); }
    assert(letters("end"@) == (3nat, 'e', 'n', 'd')) by { reveal_strlit("end"); }
    assert(letters("page_down"@) == (9nat, 'p', 'a', 'n')) by { reveal_strlit("page_down"); }
    assert(letters("right"@) == (5nat, 'r', 'i', 't')) by { reveal_strlit("right"); }
    assert(letters("left"@) == (4nat, 'l', 'e', 't')) by { reveal_strlit("left"); }
    assert(letters("down"@) == (4nat, 'd', 'o', 'n')) by { reveal_strlit("down"); }
    assert(letters("up"@) == (2nat, 'u', 'p', 'p')) by { reveal_strlit("up"); }
}

proof fn lemma_macos_modifiers()
    ensures
        mapping::modifier_key(InputPlatform::Macos, "left_ctrl"@) == Some(0xe0u16),
        mapping::modifier_key(InputPlatform::Macos, "left_shift"@) == Some(0xe1u16),
        mapping::modifier_key(InputPlatform::Macos, "left_option"@) == Some(0xe2u16),
        mapping::modifier_key(InputPlatform::Macos, "left_command"@) == Some(0xe3u16),
        mapping::modifier_key(InputPlatform::Macos, "right_ctrl"@) == Some(0xe4u16),
        mapping::modifier_key(InputPlatform::Macos, "right_shift"@) == Some(0xe5u16),
        mapping::modifier_key(InputPlatform::Macos, "right_option"@) == Some(0xe6u16),
        mapping::modifier_key(InputPlatform::Macos, "right_command"@) == Some(0xe7u16),
{
    assert(letters("left_ctrl"@) == (9nat, 'l', 'e', 'l')) by { reveal_strlit("left_ctrl"); }
    assert(letters("left_shift"@) == (10nat, 'l', 'e', 't')) by { reveal_strlit("left_shift"); }
    assert(letters("left_option"@) == (11nat, 'l', 'e', 'n')) by { reveal_strlit("left_option"); }
    assert(letters("left_command"@) == (12nat, 'l', 'e', 'd')) by { reveal_strlit("left_command"); }
    assert(letters("right_ctrl"@) == (10nat, 'r', 'i', 'l')) by { reveal_strlit("right_ctrl"); }
    assert(letters("right_shift"@) == (11nat, 'r', 'i', 't')) by { reveal_strlit("right_shift"); }
    assert(letters("right_option"@) == (12nat, 'r', 'i', 'n')) by { reveal_strlit("right_option"); }
    assert(letters("right_command"@) == (13nat, 'r', 'i', 'd')) by { reveal_strlit("right_command"); }
}

proof fn lemma_windows_modifiers()
    ensures
        mapping::modifier_key(InputPlatform::Windows, "left_ctrl"@) == Some(0xe0u16),
        mapping::modifier_key(InputPlatform::Windows, "left_shift"@) == Some(0xe1u16),
        mapping::modifier_key(InputPlatform::Windows, "left_alt"@) == Some(0xe2u16),
        mapping::modifier_key(InputPlatform::Windows, "left_win"@) == Some(0xe3u16),
        mapping::modifier_key(InputPlatform::Windows, "right_ctrl"@) == Some(0xe4u16),
        mapping::modifier_key(InputPlatform::Windows, "right_shift"@) == Some(0xe5u16),
        mapping::modifier_key(InputPlatform::Windows, "right_alt"@) == Some(0xe6u16),
        mapping::modifier_key(InputPlatform::Windows, "right_win"@) == Some(0xe7u16),
{
    assert(letters("left_ctrl"@) == (9nat, 'l', 'e', 'l')) by { reveal_strlit("left_ctrl"); }
    assert(letters("left_shift"@) == (10nat, 'l', 'e', 't')) by { reveal_strlit("left_shift"); }
    assert(letters("left_alt"@) == (8nat, 'l', 'e', 't')) by { reveal_strlit("left_alt"); }
    assert(letters("left_win"@) == (8nat, 'l', 'e', 'n')) by { reveal_strlit("left_win"); }
    assert(letters("right_ctrl"@) == (10nat, 'r', 'i', 'l')) by { reveal_strlit("right_ctrl"); }
    assert(letters("right_shift"@) == (11nat, 'r', 'i', 't')) by { reveal_strlit("right_shift"); }
    assert(letters("right_alt"@) == (9nat, 'r', 'i', 't')) by { reveal_strlit("right_alt"); }
    assert(letters("right_win"@) == (9nat, 'r', 'i', 'n')) by { reveal_strlit("right_win"); }
}

#[verifier::rlimit(60)]
proof fn lemma_modifier_words_are_no_common_keys()
    ensures
        mapping::common_key("left_ctrl"@) is None,
        mapping::common_key("left_shift"@) is None,
        mapping::common_key("left_option"@) is None,
        mapping::common_key("left_command"@) is None,
        mapping::common_key("right_ctrl"@) is None,
        mapping::common_key("right_shift"@) is None,
        mapping::common_key("right_option"@) is None,
        mapping::common_key("right_command"@) is None,
        mapping::common_key("left_alt"@) is None,
        mapping::common_key("left_win"@) is None,
        mapping::common_key("right_alt"@) is None,
        mapping::common_key("right_win"@) is None,
{
    assert(letters("enter"@) == (5nat, 'e', 'n', 'r')) by { reveal_strlit("enter"); }
    assert(letters("escape"@) == (6nat, 'e', 's', 'e')) by { reveal_strlit("escape"); }
    assert(letters("backspace"@) == (9nat, 'b', 'a', 'e')) by { reveal_strlit("backspace"); }
    assert(letters("tab"@) == (3nat, 't', 'a', 'b')) by { reveal_strlit("tab"); }
    assert(letters("space"@) == (5nat, 's', 'p', 'e')) by { reveal_strlit("space"); }
    assert(letters("minus"@) == (5nat, 'm', 'i', 's')) by { reveal_strlit("minus"); }
    assert(letters("equal"@) == (5nat, 'e', 'q', 'l')) by { reveal_strlit("equal"); }
    assert(letters("left_bracket"@) == (12nat, 'l', 'e', 't')) by { reveal_strlit("left_bracket"); }
    assert(letters("right_bracket"@) == (13nat, 'r', 'i', 't')) by { reveal_strlit("right_bracket"); }
    assert(letters("backslash"@) == (9nat, 'b', 'a', 'h')) by { reveal_strlit("backslash"); }
    assert(letters("semicolon"@) == (9nat, 's', 'e', 'n')) by { reveal_strlit("semicolon"); }
    assert(letters("apostrophe"@) == (10nat, 'a', 'p', 'e')) by { reveal_strlit("apostrophe"); }
    assert(letters("grave"@) == (5nat, 'g', 'r', 'e')) by { reveal_strlit("grave"); }
    assert(letters("comma"@) == (5nat, 'c', 'o', 'a')) by { reveal_strlit("comma"); }
    assert(letters("period"@) == (6nat, 'p', 'e', 'd')) by { reveal_strlit("period"); }
    assert(letters("slash"@) == (5nat, 's', 'l', 'h')) by { reveal_strlit("slash"); }
    assert(letters("caps_lock"@) == (9nat, 'c', 'a', 'k')) by { reveal_strlit("caps_lock"); }
    assert(letters("insert"@) == (6nat, 'i', 'n', 't')) by { reveal_strlit("insert"); }
    assert(letters("home"@) == (4nat, 'h', 'o', 'e')) by { reveal_strlit("home"); }
    assert(letters("page_up"@) == (7nat, 'p', 'a', 'p')) by { reveal_strlit("page_up"); }
    assert(letters("delete"@) == (6nat, 'd', 'e', 'e')) by { reveal_strlit("delete"); }
    assert(letters("end"@) == (3nat, 'e', 'n', 'd')) by { reveal_strlit("end"); }
    assert(letters("page_down"@) == (9nat, 'p', 'a', 'n')) by { reveal_strlit("page_down"); }
    assert(letters("right"@) == (5nat, 'r', 'i', 't')) by { reveal_strlit("right"); }
    assert(letters("left"@) == (4nat, 'l', 'e', 't')) by { reveal_strlit("left"); }
    assert(letters("down"@) == (4nat, 'd', 'o', 'n')) by { reveal_strlit("down"); }
    assert(letters("up"@) == (2nat, 'u', 'p', 'p')) by { reveal_strlit("up"); }
    assert(letters("left_ctrl"@) == (9nat, 'l', 'e', 'l')) by { reveal_strlit("left_ctrl"); }
    assert(letters("left_shift"@) == (10nat, 'l', 'e', 't')) by { reveal_strlit("left_shift"); }
    assert(letters("left_option"@) == (11nat, 'l', 'e', 'n')) by { reveal_strlit("left_option"); }
    assert(letters("left_command"@) == (12nat, 'l', 'e', 'd')) by { reveal_strlit("left_command"); }
    assert(letters("right_ctrl"@) == (10nat, 'r', 'i', 'l')) by { reveal_strlit("right_ctrl"); }
    assert(letters("right_shift"@) == (11nat, 'r', 'i', 't')) by { reveal_strlit("right_shift"); }
    assert(letters("right_option"@) == (12nat, 'r', 'i', 'n')) by { reveal_strlit("right_option"); }
    assert(letters("right_command"@) == (13nat, 'r', 'i', 'd')) by { reveal_strlit("right_command"); }
    assert(letters("left_alt"@) == (8nat, 'l', 'e', 't')) by { reveal_strlit("left_alt"); }
    assert(letters("left_win"@) == (8nat, 'l', 'e', 'n')) by { reveal_strlit("left_win"); }
    assert(letters("right_alt"@) == (9nat, 'r', 'i', 't')) by { reveal_strlit("right_alt"); }
    assert(letters("right_win"@) == (9nat, 'r', 'i', 'n')) by { reveal_strlit("right_win"); }
}


/// The keys with a word for their name are called in tables as they are called elsewhere, but
/// for four that are spelled differently, on every platform that has them.
pub proof fn tables_call_keys_by_their_names(platform: InputPlatform, usage: u16)
    requires
        mapping::has_key(platform, usage),
        0x04 <= usage <= 0x39 || 0x49 <= usage <= 0x52,
        usage != 0x29 && usage != 0x4b && usage != 0x4e,
    ensures
        mapping::key_by_name(platform, hotkey::key_text(usage)) == Some(usage),
{
    lemma_common_keys();
    if usage <= 0x27 {
        assert(hotkey::key_text(usage).len() == 1);
    }
}

/// The modifier keys have a name of their own on each platform, and the keys left and right of
/// the space bar take each other's place: where macOS has Option and Command, Windows has Alt
/// and its own key.
pub proof fn tables_call_modifiers_by_their_names()
    ensures
        mapping::key_by_name(InputPlatform::Macos, "left_option"@) == Some(0xe2u16),
        mapping::key_by_name(InputPlatform::Macos, "right_option"@) == Some(0xe6u16),
        mapping::key_by_name(InputPlatform::Macos, "left_command"@) == Some(0xe3u16),
        mapping::key_by_name(InputPlatform::Macos, "right_command"@) == Some(0xe7u16),
        mapping::key_by_name(InputPlatform::Windows, "left_alt"@) == Some(0xe2u16),
        mapping::key_by_name(InputPlatform::Windows, "right_alt"@) == Some(0xe6u16),
        mapping::key_by_name(InputPlatform::Windows, "left_win"@) == Some(0xe3u16),
        mapping::key_by_name(InputPlatform::Windows, "right_win"@) == Some(0xe7u16),
        forall|platform: InputPlatform| #[trigger]
            mapping::key_by_name(platform, "left_ctrl"@) == Some(0xe0u16),
        forall|platform: InputPlatform| #[trigger]
            mapping::key_by_name(platform, "left_shift"@) == Some(0xe1u16),
        forall|platform: InputPlatform| #[trigger]
            mapping::key_by_name(platform, "right_ctrl"@) == Some(0xe4u16),
        forall|platform: InputPlatform| #[trigger]
            mapping::key_by_name(platform, "right_shift"@) == Some(0xe5u16),
{
    lemma_macos_modifiers();
    lemma_windows_modifiers();
    lemma_modifier_words_are_no_common_keys();
    assert forall|platform: InputPlatform| #[trigger]
        mapping::key_by_name(platform, "left_ctrl"@) == Some(0xe0u16) by {
        assert(platform is Macos || platform is Windows);
    }
    assert forall|platform: InputPlatform| #[trigger]
        mapping::key_by_name(platform, "left_shift"@) == Some(0xe1u16) by {
        assert(platform is Macos || platform is Windows);
    }
    assert forall|platform: InputPlatform| #[trigger]
        mapping::key_by_name(platform, "right_ctrl"@) == Some(0xe4u16) by {
        assert(platform is Macos || platform is Windows);
    }
    assert forall|platform: InputPlatform| #[trigger]
        mapping::key_by_name(platform, "right_shift"@) == Some(0xe5u16) by {
        assert(platform is Macos || platform is Windows);
    }
}

/// A name stands only for a key that the platform has.
pub proof fn named_keys_are_there(platform: InputPlatform, name: Seq<char>)
    ensures
        mapping::key_by_name(platform, name) matches Some(usage) ==> mapping::has_key(
            platform,
            usage,
        ),
{
}

proof fn lemma_words_are_words(name: Seq<char>)
    ensures
        mapping::common_word(name) is Some ==> name.len() > 1 && 'a' <= name[0] <= 'z' && 'a'
            <= name.last() <= 'z' && name[0] != 'f',
{
    reveal_strlit("enter");
    reveal_strlit("escape");
    reveal_strlit("backspace");
    reveal_strlit("tab");
    reveal_strlit("space");
    reveal_strlit("minus");
    reveal_strlit("equal");
    reveal_strlit("left_bracket");
    reveal_strlit("right_bracket");
    reveal_strlit("backslash");
    reveal_strlit("semicolon");
    reveal_strlit("apostrophe");
    reveal_strlit("grave");
    reveal_strlit("comma");
    reveal_strlit("period");
    reveal_strlit("slash");
    reveal_strlit("caps_lock");
    reveal_strlit("insert");
    reveal_strlit("home");
    reveal_strlit("page_up");
    reveal_strlit("delete");
    reveal_strlit("end");
    reveal_strlit("page_down");
    reveal_strlit("right");
    reveal_strlit("left");
    reveal_strlit("down");
    reveal_strlit("up");
}

/// Of the names of one character tables know the letters and the digits, and no others; of the
/// longer ones none that begins or ends with anything but a letter, unless it is a function key.
/// Function keys are known by their number, from the first to the fifteenth.
pub proof fn tables_know_no_other_names(name: Seq<char>, number: u16)
    ensures
        name.len() == 0 ==> mapping::common_key(name) is None,
        name.len() == 1 ==> (mapping::common_key(name) is Some <==> 'a' <= name[0] <= 'z' || '0'
            <= name[0] <= '9'),
        name.len() > 1 && !('a' <= name[0] <= 'z') ==> mapping::common_key(name) is None,
        name.len() > 1 && name[0] != 'f' && !('a' <= name.last() <= 'z') ==> mapping::common_key(
            name,
        ) is None,
        mapping::common_key(seq!['f'] + text::decimal_text(number as nat)) == if 1 <= number <= 15 {
            Some((0x39 + number) as u16)
        } else {
            None
        },
{
    lemma_words_are_words(name);
    if name.len() == 1 && name[0] == 'f' {
        assert(name.drop_first() =~= Seq::<char>::empty());
    }
    let word = seq!['f'] + text::decimal_text(number as nat);
    text::lemma_decimal_digits(number as nat);
    text::written_numbers_are_read(number as nat);
    assert(word.drop_first() =~= text::decimal_text(number as nat));
    assert(word.len() > 1 && word[0] == 'f');
    lemma_words_are_words(word);
}

} // verus!
