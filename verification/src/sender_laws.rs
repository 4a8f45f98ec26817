//! What the sending end keeps to, whatever happens.

use crate::protocol::{EdgePosition, MessageView, SnapshotView};
use crate::platform::{MotionSample, NativeView};
use crate::scroll;
use crate::sender;
use crate::sender::{SenderActionView, SenderEventView, SenderSetup, SenderStopView, SenderView};
use crate::session::{ACTIVATION_TIMEOUT, HEARTBEAT_INTERVAL, HEARTBEAT_TIMEOUT, RETURN_COOLDOWN};
use vstd::prelude::*;

verus! {

/// Whether the parts of a sender's state fit together: a position to restore the pointer at is
/// kept exactly while the other end has control, a return waits only while something is down,
/// and a paused sender has given no control away.
pub open spec fn sound(state: SenderView) -> bool {
    &&& state.active <==> state.recovery is Some
    &&& state.confirmed ==> state.active
    &&& state.paused ==> !state.active
    &&& state.active ==> state.generation > 0
    &&& state.pending_return matches Some((generation, _)) ==> state.active && generation
        == state.generation && state.return_waits()
}

/// Whether an action ends the session.
pub open spec fn ends(actions: Seq<SenderActionView>) -> bool {
    exists|i: int| 0 <= i < actions.len() && (#[trigger] actions[i]) is Stop
}

/// Whether the pointer is put back by some action.
pub open spec fn restores(actions: Seq<SenderActionView>) -> bool {
    exists|i: int| 0 <= i < actions.len() && (#[trigger] actions[i]) is Restore
}

/// A sender starts sound.
pub proof fn start_is_sound(setup: SenderSetup, mapping: Map<u16, u16>, now: u64)
    ensures
        sound(sender::initial_sender(setup, mapping, now)),
{
}

/// Every event keeps a sender sound, unless it ends the session.
pub proof fn events_keep_soundness(state: SenderView, event: SenderEventView)
    requires
        sound(state),
        !(event is Abandon),
        !ends(state.output(event)),
    ensures
        sound(state.after(event)),
{
    let actions = state.output(event);
    match event {
        SenderEventView::Native { event: NativeView::ReliableQueueOverflow, .. } => {
            assert(actions[actions.len() - 1] is Stop);
        },
        SenderEventView::OverflowPoll { overflowed } => {
            if overflowed {
                assert(actions[actions.len() - 1] is Stop);
            }
        },
        _ => {},
    }
}

/// Whether an action, if it sends input or hands control back, does so with the other end in
/// control and under the number of the current handover.
pub open spec fn under_current_generation(state: SenderView, action: SenderActionView) -> bool {
    match action {
        SenderActionView::Send(message) => match message {
            MessageView::Key { generation, .. } => state.active && generation == state.generation,
            MessageView::Button { generation, .. } => state.active && generation == state.generation,
            MessageView::Motion { generation, .. } => state.active && generation == state.generation,
            MessageView::Wheel { generation, .. } => state.active && generation == state.generation,
            MessageView::Return { generation, .. } => state.active && generation == state.generation,
            _ => true,
        },
        _ => true,
    }
}

/// The same of all actions in a list.
pub open spec fn all_under_current_generation(state: SenderView, actions: Seq<SenderActionView>) -> bool {
    forall|i: int| 0 <= i < actions.len() ==> under_current_generation(state, #[trigger] actions[i])
}

proof fn lemma_settle_under_generation(state: SenderView, noted: SenderView)
    requires
        state.active,
        noted.generation == state.generation,
    ensures
        all_under_current_generation(state, noted.settle_output()),
{
}

proof fn lemma_concat_under_generation(state: SenderView, a: Seq<SenderActionView>, b: Seq<SenderActionView>)
    requires
        all_under_current_generation(state, a),
        all_under_current_generation(state, b),
    ensures
        all_under_current_generation(state, a + b),
{
}

proof fn lemma_native_under_generation(state: SenderView, event: NativeView)
    ensures
        all_under_current_generation(state, state.native_output(event)),
{
    match event {
        NativeView::Key { usage, down, repeat, .. } => {
            if state.active {
                let noted = state.noting_key(usage, down, repeat);
                lemma_settle_under_generation(state, noted);
                let keys = state.key_messages(usage, down, repeat);
                assert(all_under_current_generation(state, keys));
                lemma_concat_under_generation(state, keys, noted.settle_output());
            }
        },
        NativeView::Button { button, down } => {
            if state.active {
                let noted = state.noting_button(button, down);
                lemma_settle_under_generation(state, noted);
                let first = seq![
                    SenderActionView::Send(
                        MessageView::Button { generation: state.generation, button, down },
                    ),
                ];
                assert(all_under_current_generation(state, first));
                lemma_concat_under_generation(state, first, noted.settle_output());
            }
        },
        NativeView::Wheel { .. } => {},
        NativeView::Emergency => {},
        NativeView::SecureDesktop { .. } => {},
        NativeView::ReliableQueueOverflow => {},
        NativeView::Failed(_) => {},
    }
}

proof fn lemma_message_under_generation(state: SenderView, message: MessageView)
    ensures
        all_under_current_generation(state, state.message_output(message)),
{
}

/// The other end gets input only while it has control, and always under the number of the
/// current handover.
pub proof fn input_is_sent_under_the_current_generation(state: SenderView, event: SenderEventView, i: int)
    requires
        0 <= i < state.output(event).len(),
    ensures
        under_current_generation(state, state.output(event)[i]),
{
    match event {
        SenderEventView::Message { message, .. } => {
            lemma_message_under_generation(state, message);
        },
        SenderEventView::Native { event, .. } => {
            lemma_native_under_generation(state, event);
        },
        _ => {},
    }
}

/// The number of the handover changes only when the pointer leaves the desktop, and the
/// message that hands control over carries the new number, which is above the old one until
/// the numbers run out.
pub proof fn only_a_handover_changes_the_generation(state: SenderView, event: SenderEventView)
    ensures
        state.after(event).generation != state.generation ==> {
            &&& event is Activate
            &&& state.after(event).generation == sender::next_generation(state.generation)
            &&& state.output(event)[0] matches SenderActionView::Send(message)
            &&& message matches MessageView::Activate { generation, .. }
            &&& generation == state.after(event).generation
        },
        state.generation < u64::MAX ==> state.after(event).generation >= state.generation,
{
}

/// Whenever control comes back, the pointer is put back.
pub proof fn control_never_returns_without_the_pointer(state: SenderView, event: SenderEventView)
    requires
        sound(state),
        state.active,
        !state.after(event).active,
    ensures
        restores(state.output(event)),
{
    let actions = state.output(event);
    match event {
        SenderEventView::Message { message, now } => {
            match message {
                MessageView::ReturnRequest { .. } => {
                    assert(actions[1] is Restore);
                },
                MessageView::Deactivate { .. } => {
                    assert(actions[0] is Restore);
                },
                _ => {},
            }
        },
        SenderEventView::Native { event, now } => {
            match event {
                NativeView::Emergency => {
                    assert(actions[0] is Restore);
                },
                NativeView::Key { usage, down, repeat, .. } => {
                    let keys = state.key_messages(usage, down, repeat);
                    assert(actions[keys.len() as int + 1] is Restore);
                },
                NativeView::Button { button, down } => {
                    assert(actions[2] is Restore);
                },
                _ => {},
            }
        },
        SenderEventView::SecureInput { .. } => {
            assert(actions[0] is Restore);
        },
        _ => {},
    }
}

/// A session that ends in whatever way leaves nothing captured: the pointer is put back when
/// the sender is abandoned while the other end has control.
pub proof fn abandoning_restores_the_pointer(state: SenderView)
    requires
        sound(state),
        state.active,
    ensures
        restores(state.output(SenderEventView::Abandon)),
        state.after(SenderEventView::Abandon).recovery is None,
{
    assert(state.output(SenderEventView::Abandon)[0] is Restore);
}

/// When a step fails while the other end has control, the pointer is put back where it was
/// armed before that step, whatever the step was, and nothing is left to put back later.
pub proof fn failed_step_restores_the_pointer(state: SenderView, event: SenderEventView)
    requires
        sound(state),
        state.active,
    ensures
        state.recovery matches Some(position) && sender::restore_at(state.recovery) == seq![
            SenderActionView::Restore { position, required: false },
        ],
        state.after(event).abandoned().output(SenderEventView::Abandon).len() == 0,
{
}

/// A step that stops the sender while the other end has control puts the pointer back itself,
/// or leaves that to the end of the session, but not both.
pub proof fn stopping_restores_the_pointer_once(state: SenderView, event: SenderEventView)
    requires
        sound(state),
        state.active,
        ends(state.output(event)),
    ensures
        restores(state.output(event)) <==> !restores(
            state.after(event).output(SenderEventView::Abandon),
        ),
{
    let actions = state.output(event);
    let later = state.after(event).output(SenderEventView::Abandon);
    match event {
        SenderEventView::Message { message, .. } => {
            if message is Proof {
                assert(later[0] is Restore);
            } else {
                assert(!ends(actions));
            }
        },
        SenderEventView::Native { event, .. } => {
            match event {
                NativeView::ReliableQueueOverflow => {
                    assert(actions[0] is Restore);
                },
                NativeView::Failed(_) => {
                    assert(later[0] is Restore);
                },
                _ => {
                    assert(!ends(actions));
                },
            }
        },
        SenderEventView::OverflowPoll { overflowed } => {
            if overflowed {
                assert(actions[0] is Restore);
            }
        },
        SenderEventView::TimeoutTick { .. } => {
            assert(later[0] is Restore);
        },
        _ => {},
    }
}

/// Whether an action gives the other end input or control.
pub open spec fn gives_input(action: SenderActionView) -> bool {
    action matches SenderActionView::Send(message) && (message is Key || message is Button
        || message is Motion || message is Wheel || message is Activate)
}

/// While the system protects what is typed on this machine, no input is sent, control is not
/// handed over, and nothing captures input, whatever happens. This goes on until the protection
/// is gone.
pub proof fn paused_sender_sends_nothing(state: SenderView, event: SenderEventView)
    requires
        sound(state),
        state.paused,
    ensures
        forall|i: int|
            0 <= i < state.output(event).len() ==> {
                &&& !gives_input(#[trigger] state.output(event)[i])
                &&& !(state.output(event)[i] is SetCapture)
                &&& !(state.output(event)[i] is Consider)
                &&& !(state.output(event)[i] is AskCursor)
            },
        !state.after(event).active,
        !state.after(event).paused ==> event matches SenderEventView::SecureInput {
            active: false,
            ..
        },
{
}

/// The protection does not end the session. When it comes, control is on this machine, and the
/// pointer with it; when it goes, nothing is done.
pub proof fn protection_pauses_the_sender(state: SenderView, active: bool, now: u64)
    requires
        sound(state),
    ensures
        ({
            let event = SenderEventView::SecureInput { active, now };
            &&& !ends(state.output(event))
            &&& sound(state.after(event))
            &&& state.after(event).paused == active
            &&& active ==> !state.after(event).active
            &&& state.output(event).len() == 0 <==> !(active && state.active)
            &&& active && state.active ==> restores(state.output(event)) && state.output(event)[1]
                == SenderActionView::TrySend(state.deactivate_message())
        }),
{
    let event = SenderEventView::SecureInput { active, now };
    if active && state.active {
        assert(state.output(event)[0] is Restore);
    }
}

/// A pause that comes while control is on this machine leaves no trace once it is over.
pub proof fn pause_leaves_no_trace(state: SenderView, now: u64, later: u64)
    requires
        !state.active,
        !state.paused,
    ensures
        state.after(SenderEventView::SecureInput { active: true, now }).after(
            SenderEventView::SecureInput { active: false, now: later },
        ) == state,
{
}

/// With switching blocked while something is down, a request to return is put off: nothing is
/// sent, and the other end keeps control.
pub proof fn return_waits_while_something_is_down(
    state: SenderView,
    edge_position: EdgePosition,
    now: u64,
)
    requires
        state.active,
        state.setup.block_switch_on_press,
        !state.pressed.nothing(),
    ensures
        ({
            let event = SenderEventView::Message {
                message: MessageView::ReturnRequest { generation: state.generation, edge_position },
                now,
            };
            &&& state.output(event) == Seq::<SenderActionView>::empty()
            &&& state.after(event).active
            &&& state.after(event).pending_return == Some((state.generation, edge_position))
        }),
{
}

/// A return that was put off happens with the event that releases the last key or button.
pub proof fn put_off_return_happens_on_release(state: SenderView, event: NativeView, now: u64)
    requires
        state.active,
        state.pending_return is Some,
        event matches NativeView::Key { usage, down, repeat, .. } ==> state.noting_key(
            usage,
            down,
            repeat,
        ).pressed.nothing(),
        event matches NativeView::Button { button, down } ==> state.noting_button(
            button,
            down,
        ).pressed.nothing(),
        event is Key || event is Button,
    ensures
        !state.after_native(event, now).active,
        state.native_output(event).len() >= 2,
        state.native_output(event)[state.native_output(event).len() - 2] == SenderActionView::Send(
            MessageView::Return {
                generation: state.generation,
                edge_position: (state.pending_return->0).1,
            },
        ),
        state.native_output(event).last() == (SenderActionView::Restore {
            position: (state.pending_return->0).1,
            required: true,
        }),
{
}

/// Messages of another handover change nothing while the other end has control.
pub proof fn stale_messages_are_ignored(state: SenderView, message: MessageView, now: u64)
    requires
        state.active,
        match message {
            MessageView::ReturnRequest { generation, .. } => generation != state.generation,
            MessageView::Deactivate { generation, .. } => generation != state.generation,
            MessageView::Heartbeat { generation } => generation != state.generation,
            _ => false,
        },
    ensures
        state.after_message(message, now) == state,
        state.message_output(message) == Seq::<SenderActionView>::empty(),
{
}

/// With switching blocked, the pointer does not leave the desktop while something is down.
pub proof fn blocked_pointer_stays(state: SenderView, position: EdgePosition, held: SnapshotView, now: u64)
    requires
        state.setup.block_switch_on_press,
        !held.nothing_down(),
    ensures
        state.after_activation(position, held, now) == state,
        state.activation_output(position, held) == Seq::<SenderActionView>::empty(),
{
}

/// For a while after control came back, pointer motion leads nowhere.
pub proof fn motion_rests_after_a_return(state: SenderView, event: SenderEventView, sample: MotionSample, later: u64)
    requires
        state.active,
        !state.after(event).active,
        event matches SenderEventView::Message { now, .. } ==> later < now + crate::session::RETURN_COOLDOWN,
        event matches SenderEventView::Native { now, .. } ==> later < now + crate::session::RETURN_COOLDOWN,
        event matches SenderEventView::SecureInput { now, .. } ==> later < now + crate::session::RETURN_COOLDOWN,
        later < u64::MAX,
    ensures
        state.after(event).motion_output(sample, later) == Seq::<SenderActionView>::empty(),
{
}

/// The state after some events, one after the other.
pub open spec fn after_all(state: SenderView, events: Seq<SenderEventView>) -> SenderView
    decreases events.len(),
{
    if events.len() == 0 {
        state
    } else {
        after_all(state, events.drop_last()).after(events.last())
    }
}

/// What is done about some events, one after the other.
pub open spec fn output_of_all(state: SenderView, events: Seq<SenderEventView>) -> Seq<SenderActionView>
    decreases events.len(),
{
    if events.len() == 0 {
        Seq::empty()
    } else {
        output_of_all(state, events.drop_last()) + after_all(state, events.drop_last()).output(
            events.last(),
        )
    }
}

/// The motion that some actions send, added up.
pub open spec fn motion_sent(actions: Seq<SenderActionView>) -> (int, int)
    decreases actions.len(),
{
    if actions.len() == 0 {
        (0, 0)
    } else {
        let (x, y) = motion_sent(actions.drop_last());
        match actions.last() {
            SenderActionView::Send(MessageView::Motion { dx, dy, .. }) => (x + dx, y + dy),
            _ => (x, y),
        }
    }
}

/// The motion of some samples, added up.
pub open spec fn motion_sampled(events: Seq<SenderEventView>) -> (int, int)
    decreases events.len(),
{
    if events.len() == 0 {
        (0, 0)
    } else {
        let (x, y) = motion_sampled(events.drop_last());
        match events.last() {
            SenderEventView::Motion { sample, .. } => (x + sample.dx, y + sample.dy),
            _ => (x, y),
        }
    }
}

/// While the other end has control, every movement is sent at once, as it is and under the
/// number of the handover; standing still is not.
pub proof fn every_movement_is_sent(state: SenderView, sample: MotionSample, now: u64)
    requires
        state.active,
    ensures
        ({
            let event = SenderEventView::Motion { sample, now };
            let actions = state.output(event);
            &&& state.after(event) == state
            &&& actions.len() == 0 <==> sample.dx == 0 && sample.dy == 0
            &&& actions.len() <= 1
            &&& motion_sent(actions) == (sample.dx as int, sample.dy as int)
            &&& forall|i: int|
                0 <= i < actions.len() ==> (#[trigger] actions[i] matches SenderActionView::Send(message)
                    && message matches MessageView::Motion { generation, .. } && generation
                    == state.generation)
        }),
{
    let actions = state.output(SenderEventView::Motion { sample, now });
    reveal_with_fuel(motion_sent, 2);
    if actions.len() == 1 {
        assert(actions.drop_last() =~= Seq::<SenderActionView>::empty());
    }
}

proof fn lemma_motion_sent_adds_up(a: Seq<SenderActionView>, b: Seq<SenderActionView>)
    ensures
        motion_sent(a + b) == (motion_sent(a).0 + motion_sent(b).0, motion_sent(a).1 + motion_sent(
            b,
        ).1),
    decreases b.len(),
{
    if b.len() == 0 {
        assert(a + b =~= a);
    } else {
        assert((a + b).drop_last() =~= a + b.drop_last());
        lemma_motion_sent_adds_up(a, b.drop_last());
    }
}

/// However the pointer moves while the other end has control, what is sent adds up to what was
/// sampled.
pub proof fn motion_sent_is_motion_sampled(state: SenderView, events: Seq<SenderEventView>)
    requires
        state.active,
        forall|i: int| 0 <= i < events.len() ==> (#[trigger] events[i]) is Motion,
    ensures
        after_all(state, events) == state,
        motion_sent(output_of_all(state, events)) == motion_sampled(events),
    decreases events.len(),
{
    if events.len() > 0 {
        let before = events.drop_last();
        assert forall|i: int| 0 <= i < before.len() implies (#[trigger] before[i]) is Motion by {
            assert(before[i] == events[i]);
        }
        motion_sent_is_motion_sampled(state, before);
        let last = events[events.len() - 1];
        every_movement_is_sent(state, last->Motion_sample, last->Motion_now);
        lemma_motion_sent_adds_up(output_of_all(state, before), state.output(last));
    }
}

/// With control on this machine, motion is looked at exactly when nothing holds it back: the
/// sender is not paused, its rest is over, and there is a position to look at or a movement.
pub proof fn motion_is_looked_at(state: SenderView, sample: MotionSample, now: u64)
    requires
        !state.active,
    ensures
        ({
            let event = SenderEventView::Motion { sample, now };
            let actions = state.output(event);
            let placed = sample.position_updated && sample.position is Some;
            let looks = !state.paused && now >= state.cooldown_until && (placed || sample.dx != 0
                || sample.dy != 0);
            &&& state.after(event) == state
            &&& actions.len() == if looks { 1int } else { 0 }
            &&& looks && placed ==> actions[0] == (SenderActionView::Consider {
                point: sample.position->0,
                dx: sample.dx,
                dy: sample.dy,
            })
            &&& looks && !placed ==> actions[0] == (SenderActionView::AskCursor {
                dx: sample.dx,
                dy: sample.dy,
            })
        }),
{
}

/// While the other end has control, a key event reaches it as the mapper puts it, in front of
/// anything else, and the mapper and the keys that are down follow it.
pub proof fn key_events_are_sent(
    state: SenderView,
    usage: u16,
    modifiers: crate::hotkey::ModifierMask,
    down: bool,
    repeat: bool,
    now: u64,
)
    requires
        state.active,
    ensures
        ({
            let event = SenderEventView::Native {
                event: NativeView::Key { usage, modifiers, down, repeat },
                now,
            };
            let actions = state.output(event);
            let after = state.after(event);
            &&& match state.mapper.key_output(usage, down, repeat) {
                Some(key) => actions.len() > 0 && actions[0] == SenderActionView::Send(
                    MessageView::Key {
                        generation: state.generation,
                        usage: key.usage,
                        modifiers: key.modifiers,
                        down: key.down,
                        repeat: key.repeat,
                    },
                ),
                None => forall|i: int|
                    0 <= i < actions.len() ==> !(#[trigger] actions[i] matches SenderActionView::Send(
                        MessageView::Key { .. },
                    )),
            }
            &&& after.mapper == state.mapper.after_key(usage, down, repeat)
            &&& after.pressed.buttons == state.pressed.buttons
            &&& forall|other: u16| #[trigger]
                after.pressed.keys.contains(other) <==> if other == usage && !(down && repeat) {
                    down
                } else {
                    state.pressed.keys.contains(other)
                }
        }),
{
}

/// While the other end has control, a button event reaches it as it is, in front of anything
/// else, and the buttons that are down follow it.
pub proof fn button_events_are_sent(state: SenderView, button: u8, down: bool, now: u64)
    requires
        state.active,
    ensures
        ({
            let event = SenderEventView::Native {
                event: NativeView::Button { button, down },
                now,
            };
            let actions = state.output(event);
            let after = state.after(event);
            &&& actions.len() > 0
            &&& actions[0] == SenderActionView::Send(
                MessageView::Button { generation: state.generation, button, down },
            )
            &&& after.mapper == state.mapper
            &&& after.pressed.keys == state.pressed.keys
            &&& forall|other: u8| #[trigger]
                after.pressed.buttons.contains(other) <==> if other == button {
                    down
                } else {
                    state.pressed.buttons.contains(other)
                }
        }),
{
}

/// While the other end has control, scrolling reaches it in one message, converted and directed
/// by the options of the session. Between equal platforms without reversal it stays as it is.
pub proof fn wheel_events_are_sent(
    state: SenderView,
    x: i32,
    y: i32,
    source: crate::platform::ScrollSource,
    now: u64,
)
    requires
        state.active,
    ensures
        ({
            let event = SenderEventView::Native {
                event: NativeView::Wheel { x, y, source },
                now,
            };
            let actions = state.output(event);
            let setup = state.setup;
            &&& state.after(event) == state
            &&& actions.len() == 1
            &&& actions[0] matches SenderActionView::Send(message)
            &&& message matches MessageView::Wheel { generation, x: sent_x, y: sent_y }
            &&& generation == state.generation
            &&& (sent_x as int, sent_y as int) == scroll::directed(
                scroll::natively_converted(setup.scroll, x as int, source, setup.local, setup.remote),
                scroll::natively_converted(setup.scroll, y as int, source, setup.local, setup.remote),
                source,
                setup.local,
                setup.remote,
                setup.reverse_mouse_wheel,
                setup.reverse_trackpad,
            )
            &&& setup.local == setup.remote && !setup.reverse_mouse_wheel
                && !setup.reverse_trackpad ==> sent_x == x && sent_y == y
        }),
{
    let setup = state.setup;
    scroll::converted_amounts_fit(setup.scroll, x as int, source, setup.local, setup.remote);
    scroll::converted_amounts_fit(setup.scroll, y as int, source, setup.local, setup.remote);
}

/// With control on this machine, no event of the machine sends anything, and none changes the
/// state.
pub proof fn own_input_stays_here(state: SenderView, event: NativeView, now: u64)
    requires
        !state.active,
    ensures
        state.after(SenderEventView::Native { event, now }) == state,
        forall|i: int|
            0 <= i < state.output(SenderEventView::Native { event, now }).len() ==> (
            #[trigger] state.output(SenderEventView::Native { event, now })[i]) is Stop,
{
}

/// Control is handed over exactly when it is here, nothing pauses the sender, and nothing that
/// is held stands in the way. The other end is told first, with a new number, the edge and the
/// position where the pointer left and the keys that are held; then input is captured. From then
/// on the pointer would be put back at that position.
pub proof fn handover_goes_out(
    state: SenderView,
    position: EdgePosition,
    held: SnapshotView,
    now: u64,
)
    ensures
        ({
            let event = SenderEventView::Activate { position, held, now };
            let actions = state.output(event);
            let after = state.after(event);
            let free = !state.active && !state.paused && !(state.setup.block_switch_on_press && (
            held.usages.len() > 0 || held.buttons.len() > 0));
            &&& free == state.may_activate(held)
            &&& !free ==> actions.len() == 0 && after == state
            &&& free ==> {
                &&& actions.len() == 2
                &&& actions[0] matches SenderActionView::Send(message)
                &&& message matches MessageView::Activate {
                    generation,
                    source_edge,
                    edge_position,
                    pressed,
                }
                &&& generation == after.generation
                &&& generation > 0
                &&& state.generation < u64::MAX ==> generation == state.generation + 1
                &&& source_edge == state.setup.edge
                &&& edge_position == position
                &&& pressed == state.mapper.snapshot_output(held)
                &&& actions[1] == (SenderActionView::SetCapture { active: true, required: true })
                &&& after.active
                &&& !after.confirmed
                &&& !after.paused
                &&& after.recovery == Some(position)
                &&& after.last_heartbeat == now
                &&& after.pending_return is None
                &&& after.setup == state.setup
                &&& after.mapper == state.mapper.released().with_all_pressed(held.usages)
                &&& forall|usage: u16| #[trigger]
                    after.pressed.keys.contains(usage) <==> held.usages.contains(usage)
                &&& forall|button: u8| #[trigger]
                    after.pressed.buttons.contains(button) <==> held.buttons.contains(button)
            }
        }),
{
}

/// A return that the other end asks for, and that nothing holds back, is confirmed with the
/// position that was asked for; the pointer comes back at that position, and control with it.
pub proof fn return_is_confirmed_where_it_was_asked_for(
    state: SenderView,
    edge_position: EdgePosition,
    now: u64,
)
    requires
        state.active,
        !(state.setup.block_switch_on_press && !state.pressed.nothing()),
    ensures
        ({
            let event = SenderEventView::Message {
                message: MessageView::ReturnRequest { generation: state.generation, edge_position },
                now,
            };
            let after = state.after(event);
            &&& state.output(event) == seq![
                SenderActionView::Send(
                    MessageView::Return { generation: state.generation, edge_position },
                ),
                SenderActionView::Restore { position: edge_position, required: true },
            ]
            &&& !after.active
            &&& !after.confirmed
            &&& after.recovery is None
            &&& after.pending_return is None
            &&& after.generation == state.generation
            &&& after.mapper == state.mapper
        }),
{
}

/// When the other end lets go, the pointer comes back where that end says, or else where it
/// left, and nothing is held for the other end any more.
pub proof fn letting_go_brings_the_pointer_back(
    state: SenderView,
    edge_position: Option<EdgePosition>,
    now: u64,
)
    requires
        state.active,
    ensures
        ({
            let event = SenderEventView::Message {
                message: MessageView::Deactivate { generation: state.generation, edge_position },
                now,
            };
            let after = state.after(event);
            &&& edge_position matches Some(position) ==> state.output(event) == seq![
                SenderActionView::Restore { position, required: false },
            ]
            &&& edge_position is None ==> match state.recovery {
                Some(position) => state.output(event) == seq![
                    SenderActionView::Restore { position, required: false },
                ],
                None => state.output(event).len() == 0,
            }
            &&& !after.active
            &&& after.recovery is None
            &&& after.pending_return is None
            &&& after.generation == state.generation
            &&& after.mapper.pressed == Map::<u16, u16>::empty()
            &&& after.mapper.counts == Map::<u16, usize>::empty()
            &&& after.mapper.mapping == state.mapper.mapping
        }),
{
}

/// The emergency hotkey takes control back at once: the pointer comes back where it left, the
/// other end is told without a position, and nothing is held for it any more.
pub proof fn emergency_takes_control_back(state: SenderView, now: u64)
    requires
        sound(state),
    ensures
        ({
            let event = SenderEventView::Native { event: NativeView::Emergency, now };
            let after = state.after(event);
            &&& !state.active ==> after == state && state.output(event).len() == 0
            &&& state.active ==> {
                &&& state.output(event) == seq![
                    SenderActionView::Restore { position: state.recovery->0, required: false },
                    SenderActionView::TrySend(
                        MessageView::Deactivate {
                            generation: state.generation,
                            edge_position: None,
                        },
                    ),
                ]
                &&& !after.active
                &&& after.mapper.pressed == Map::<u16, u16>::empty()
                &&& after.mapper.counts == Map::<u16, usize>::empty()
            }
        }),
{
}

/// The rest after control came back is over a short while later.
pub proof fn rest_after_a_return_ends(state: SenderView, event: SenderEventView, now: u64)
    requires
        state.active,
        !state.after(event).active,
        event matches SenderEventView::Message { now: then, .. } ==> then == now,
        event matches SenderEventView::Native { now: then, .. } ==> then == now,
        event matches SenderEventView::SecureInput { now: then, .. } ==> then == now,
        now + RETURN_COOLDOWN <= u64::MAX,
    ensures
        state.after(event).cooldown_until == now + RETURN_COOLDOWN,
{
}

/// Control goes to the other end only when it is handed over, and comes back only with a return
/// that was asked for and is not put off, when the other end lets go, with the emergency hotkey,
/// with the protection of what is typed, or with the release that a return waited for.
pub proof fn control_changes_only_for_a_reason(state: SenderView, event: SenderEventView)
    ensures
        !state.active && state.after(event).active ==> event is Activate,
        state.active && !state.after(event).active <==> state.active && match event {
            SenderEventView::Message { message, .. } => match message {
                MessageView::ReturnRequest { generation, .. } => generation == state.generation
                    && !(state.setup.block_switch_on_press && !(state.pressed.keys.is_empty()
                    && state.pressed.buttons.is_empty())),
                MessageView::Deactivate { generation, .. } => generation == state.generation,
                _ => false,
            },
            SenderEventView::Native { event: native, .. } => match native {
                NativeView::Emergency => true,
                NativeView::Key { .. } => state.pending_return is Some && state.after(
                    event,
                ).pressed.keys.is_empty() && state.pressed.buttons.is_empty(),
                NativeView::Button { .. } => state.pending_return is Some
                    && state.pressed.keys.is_empty() && state.after(
                    event,
                ).pressed.buttons.is_empty(),
                _ => false,
            },
            SenderEventView::SecureInput { active, .. } => active,
            _ => false,
        },
        state.after(event).setup == state.setup,
        state.after(event).mapper.mapping == state.mapper.mapping,
{
    assert(state.after(event).mapper.mapping == state.mapper.mapping) by {
        match event {
            SenderEventView::Activate { held, .. } => {
                lemma_pressing_keeps_mapping(state.mapper.released(), held.usages);
            },
            _ => {},
        }
    }
}

proof fn lemma_pressing_keeps_mapping(mapper: crate::mapping::MapperView, usages: Seq<u16>)
    ensures
        mapper.with_all_pressed(usages).mapping == mapper.mapping,
    decreases usages.len(),
{
    if usages.len() > 0 {
        lemma_pressing_keeps_mapping(mapper, usages.drop_last());
    }
}

/// The sender stops for five reasons and no other, and gives the reason last: a proof that comes
/// once more, lost events, capturing that fails, and silence of the other end, which is longer
/// before it has answered.
pub proof fn sender_stops_only_for_a_reason(state: SenderView, event: SenderEventView)
    ensures
        ends(state.output(event)) <==> match event {
            SenderEventView::Message { message, .. } => message is Proof,
            SenderEventView::Native { event, .. } => event is ReliableQueueOverflow
                || event is Failed,
            SenderEventView::OverflowPoll { overflowed } => overflowed,
            SenderEventView::TimeoutTick { now } => state.active && now - state.last_heartbeat
                >= if state.confirmed {
                HEARTBEAT_TIMEOUT
            } else {
                ACTIVATION_TIMEOUT
            },
            _ => false,
        },
        ends(state.output(event)) ==> state.output(event).last() == SenderActionView::Stop(
            match event {
                SenderEventView::Message { .. } => SenderStopView::RepeatedProof,
                SenderEventView::Native { event: NativeView::Failed(message), .. } => {
                    SenderStopView::CaptureFailed(message)
                },
                SenderEventView::TimeoutTick { .. } => SenderStopView::HeartbeatTimeout,
                _ => SenderStopView::QueueOverflow,
            },
        ),
{
    let actions = state.output(event);
    if actions.len() > 0 {
        assert(actions.last() == actions[actions.len() - 1]);
    }
    match event {
        SenderEventView::Native { event: native, .. } => {
            match native {
                NativeView::Key { usage, down, repeat, .. } => {
                    let noted = state.noting_key(usage, down, repeat);
                    if state.active {
                        assert(actions =~= state.key_messages(usage, down, repeat)
                            + noted.settle_output());
                    }
                },
                _ => {},
            }
        },
        _ => {},
    }
}

/// When events were lost while the other end has control, the pointer comes back where it left
/// and the other end is told before the sender stops.
pub proof fn lost_events_give_control_back(state: SenderView, event: SenderEventView)
    requires
        sound(state),
        event matches SenderEventView::OverflowPoll { overflowed } ==> overflowed,
        event matches SenderEventView::Native { event: native, .. } ==> native
            is ReliableQueueOverflow,
        event is OverflowPoll || event is Native,
    ensures
        state.after(event).recovery is None,
        state.output(event) == if state.active {
            seq![
                SenderActionView::Restore { position: state.recovery->0, required: false },
                SenderActionView::TrySend(
                    MessageView::Deactivate { generation: state.generation, edge_position: None },
                ),
                SenderActionView::Stop(SenderStopView::QueueOverflow),
            ]
        } else {
            seq![SenderActionView::Stop(SenderStopView::QueueOverflow)]
        },
{
}

/// Heartbeats go out with every tick, whoever has control, and change nothing here.
pub proof fn heartbeats_go_out(state: SenderView)
    ensures
        state.output(SenderEventView::HeartbeatTick) == seq![
            SenderActionView::Send(MessageView::Heartbeat { generation: state.generation }),
        ],
        state.after(SenderEventView::HeartbeatTick) == state,
        HEARTBEAT_TIMEOUT > 3 * HEARTBEAT_INTERVAL,
        ACTIVATION_TIMEOUT > HEARTBEAT_TIMEOUT,
{
}

/// A heartbeat of the handover keeps it alive for as long as an end waits for one, and no
/// longer.
pub proof fn heartbeat_keeps_the_handover(state: SenderView, then: u64, now: u64)
    requires
        state.active,
    ensures
        ({
            let message = MessageView::Heartbeat { generation: state.generation };
            let heard = state.after(SenderEventView::Message { message, now: then });
            &&& heard.active
            &&& heard.generation == state.generation
            &&& heard.recovery == state.recovery
            &&& ends(heard.output(SenderEventView::TimeoutTick { now })) <==> now - then
                >= HEARTBEAT_TIMEOUT
        }),
{
    let message = MessageView::Heartbeat { generation: state.generation };
    let heard = state.after(SenderEventView::Message { message, now: then });
    sender_stops_only_for_a_reason(heard, SenderEventView::TimeoutTick { now });
}

/// After a handover the other end has longer to answer.
pub proof fn handover_waits_for_an_answer(
    state: SenderView,
    position: EdgePosition,
    held: SnapshotView,
    then: u64,
    now: u64,
)
    requires
        state.may_activate(held),
    ensures
        ({
            let handed = state.after(SenderEventView::Activate { position, held, now: then });
            ends(handed.output(SenderEventView::TimeoutTick { now })) <==> now - then
                >= ACTIVATION_TIMEOUT
        }),
{
    let handed = state.after(SenderEventView::Activate { position, held, now: then });
    sender_stops_only_for_a_reason(handed, SenderEventView::TimeoutTick { now });
}

/// Whether an event tells that the other end is there, or begins a handover.
pub open spec fn breaks_silence(generation: u64, event: SenderEventView) -> bool {
    ||| event is Activate
    ||| event matches SenderEventView::Message {
        message: MessageView::Heartbeat { generation: heard },
        ..
    } && heard == generation
}

/// Nothing but a heartbeat of the handover counts as an answer: whatever else happens, the other
/// end is given up at the same time as if nothing had happened.
pub proof fn nothing_else_breaks_the_silence(
    state: SenderView,
    events: Seq<SenderEventView>,
    now: u64,
)
    requires
        state.active,
        forall|i: int|
            0 <= i < events.len() ==> !breaks_silence(state.generation, #[trigger] events[i]),
    ensures
        after_all(state, events).generation == state.generation,
        after_all(state, events).active ==> {
            &&& after_all(state, events).last_heartbeat == state.last_heartbeat
            &&& after_all(state, events).confirmed == state.confirmed
            &&& after_all(state, events).output(SenderEventView::TimeoutTick { now })
                == state.output(SenderEventView::TimeoutTick { now })
        },
    decreases events.len(),
{
    if events.len() > 0 {
        let before = events.drop_last();
        assert forall|i: int| 0 <= i < before.len() implies !breaks_silence(
            state.generation,
            #[trigger] before[i],
        ) by {
            assert(before[i] == events[i]);
        }
        nothing_else_breaks_the_silence(state, before, now);
        let last = events[events.len() - 1];
        assert(!breaks_silence(state.generation, last));
        only_a_handover_changes_the_generation(after_all(state, before), last);
    }
}

/// A sender starts with control on this machine, with nothing to put back, with the options of
/// its session, and without a rest.
pub proof fn sender_starts_with_its_options(
    options: crate::session::InputRuntimeOptions,
    edge: crate::geometry::ScreenEdge,
    local: crate::mapping::InputPlatform,
    remote: crate::mapping::InputPlatform,
    mapping: Map<u16, u16>,
    now: u64,
)
    ensures
        ({
            let setup = sender::setup_of(options, edge, local, remote);
            let start = sender::initial_sender(setup, mapping, now);
            &&& !start.active && !start.paused && !start.confirmed
            &&& start.recovery is None && start.pending_return is None
            &&& start.generation == 0
            &&& start.cooldown_until <= now
            &&& start.pressed.keys.is_empty() && start.pressed.buttons.is_empty()
            &&& start.mapper.mapping == mapping
            &&& start.mapper.pressed == Map::<u16, u16>::empty()
            &&& start.mapper.counts == Map::<u16, usize>::empty()
            &&& start.setup.edge == edge
            &&& start.setup.local == local
            &&& start.setup.remote == remote
            &&& start.setup.block_switch_on_press == options.block_switch_on_press
            &&& start.setup.reverse_mouse_wheel == options.reverse_mouse_wheel
            &&& start.setup.reverse_trackpad == options.reverse_trackpad
            &&& start.setup.scroll.native_macos_to_windows
                == options.native_scroll_macos_to_windows
            &&& start.setup.scroll.native_windows_to_macos
                == options.native_scroll_windows_to_macos
        }),
{
}

/// A sender that waits too long for the other end frees the pointer, which may fail, and stops.
/// Until then it goes on waiting, and does nothing about it.
pub proof fn silence_frees_the_pointer(state: SenderView, now: u64)
    ensures
        ({
            let done = state.output(SenderEventView::TimeoutTick { now });
            if state.timed_out(now) {
                &&& done.len() == 2
                &&& done[0] matches SenderActionView::SetCapture { active, required }
                &&& !active && !required
                &&& done[1] == SenderActionView::Stop(SenderStopView::HeartbeatTimeout)
            } else {
                done.len() == 0
            }
        }),
        state.after(SenderEventView::TimeoutTick { now }) == state,
{
}

} // verus!
