//! What the receiving end keeps to, whatever happens, and how the two ends work together.

use crate::edge;
use crate::geometry;
use crate::geometry::{DisplayRect, Point, ScreenEdge};
use crate::incoming::CoalescedMotion;
use crate::movement;
use crate::platform::NativeView;
use crate::protocol::{MessageView, SnapshotView};
use crate::receiver;
use crate::receiver::{ReceiverActionView, ReceiverEventView, ReceiverStopView, ReceiverView};
use crate::sender::{SenderActionView, SenderEventView, SenderView};
use crate::sender_laws;
use crate::session::{CursorMode, HEARTBEAT_TIMEOUT};
use vstd::prelude::*;

verus! {

/// Whether the parts of a receiver's state fit together: a paused receiver has no control.
pub open spec fn sound(state: ReceiverView) -> bool {
    state.paused ==> !state.active
}

/// A receiver starts sound.
pub proof fn start_is_sound(displays: Seq<DisplayRect>, mode: CursorMode, captured: bool, now: u64)
    ensures
        sound(receiver::initial_receiver(displays, mode, captured, now)),
{
}

/// Every event keeps a receiver sound.
pub proof fn events_keep_soundness(state: ReceiverView, event: ReceiverEventView)
    requires
        sound(state),
    ensures
        sound(state.after(event)),
{
}

/// Whether an action hands input to this machine.
pub open spec fn injects(action: ReceiverActionView) -> bool {
    action is InjectKey || action is InjectButton || action is InjectWheel || action is InjectCursor
        || action is InjectMotion
}

/// Whether an event begins a handover: the message itself, or the report that the pointer is
/// in place.
pub open spec fn begins_handover(event: ReceiverEventView) -> bool {
    ||| event matches ReceiverEventView::Message { message, .. } && message is Activate
    ||| event is Placed
}

/// Outside the start of a handover, input reaches this machine only while it has control.
pub proof fn input_is_injected_only_with_control(state: ReceiverView, event: ReceiverEventView, i: int)
    requires
        !begins_handover(event),
        0 <= i < state.output(event).len(),
        injects(state.output(event)[i]),
    ensures
        state.active,
{
}

/// While the system protects what is typed on this machine, nothing is injected and the pointer
/// is not moved, whatever happens, and control is not taken. This goes on until the protection
/// is gone.
pub proof fn paused_receiver_injects_nothing(state: ReceiverView, event: ReceiverEventView)
    requires
        sound(state),
        state.paused,
    ensures
        forall|i: int|
            0 <= i < state.output(event).len() ==> {
                &&& !injects(#[trigger] state.output(event)[i])
                &&& !(state.output(event)[i] is PlaceCursor)
            },
        !state.after(event).active,
        !state.after(event).paused ==> event == (ReceiverEventView::SecureInput { active: false }),
{
}

/// The protection does not end the session. When it comes, what is held is released and control
/// is given back; when it goes, nothing is done.
pub proof fn protection_pauses_the_receiver(state: ReceiverView, active: bool)
    ensures
        ({
            let event = ReceiverEventView::SecureInput { active };
            &&& state.after(event).paused == active
            &&& active ==> !state.after(event).active
            &&& !active ==> state.after(event).active == state.active
            &&& state.output(event) == if active && state.active {
                seq![
                    ReceiverActionView::ReleaseAll { required: false },
                    ReceiverActionView::Deactivate {
                        generation: state.generation,
                        at: state.exit_position(),
                    },
                ]
            } else {
                Seq::empty()
            }
        }),
{
}

/// The number of the handover never goes down, and only a message that hands control over
/// changes it.
pub proof fn generation_only_grows(state: ReceiverView, event: ReceiverEventView)
    ensures
        state.after(event).generation >= state.generation,
        state.after(event).generation != state.generation ==> {
            &&& event matches ReceiverEventView::Message { message, .. }
            &&& message matches MessageView::Activate { generation, .. }
            &&& generation == state.after(event).generation
        },
{
}

/// A handover with a number that is not above the last one is ignored.
pub proof fn stale_handover_is_ignored(state: ReceiverView, message: MessageView, now: u64)
    requires
        message matches MessageView::Activate { generation, .. } && generation <= state.generation,
    ensures
        state.after_message(message, now) == state,
        state.message_output(message, now) == Seq::<ReceiverActionView>::empty(),
{
}

/// Input of another handover is ignored.
pub proof fn stale_input_is_ignored(state: ReceiverView, message: MessageView, now: u64)
    requires
        match message {
            MessageView::Key { generation, .. } => generation != state.generation,
            MessageView::Button { generation, .. } => generation != state.generation,
            MessageView::Wheel { generation, .. } => generation != state.generation,
            MessageView::Motion { generation, .. } => generation != state.generation,
            MessageView::Return { generation, .. } => generation != state.generation,
            MessageView::Deactivate { generation, .. } => generation != state.generation,
            MessageView::Heartbeat { generation } => generation != state.generation,
            _ => false,
        },
    ensures
        state.after_message(message, now) == state,
        state.message_output(message, now) == Seq::<ReceiverActionView>::empty(),
{
}

/// Whether an event takes control away: the sender says so for the current handover, or the
/// emergency hotkey is pressed here, or the system starts to protect what is typed here.
pub open spec fn takes_control_away(state: ReceiverView, event: ReceiverEventView) -> bool {
    match event {
        ReceiverEventView::Message { message, .. } => match message {
            MessageView::Return { generation, .. } => generation == state.generation,
            MessageView::Deactivate { generation, .. } => generation == state.generation,
            _ => false,
        },
        ReceiverEventView::Native { event } => event is Emergency,
        ReceiverEventView::SecureInput { active } => active,
        _ => false,
    }
}

/// The receiver does not give control back on its own: it waits for the sender, for the
/// emergency hotkey, or for the protection of what is typed. When control goes, everything that
/// is held is released first, and only for the protection may that fail.
pub proof fn control_is_kept_until_taken(state: ReceiverView, event: ReceiverEventView)
    requires
        sound(state),
        state.active,
    ensures
        state.after(event).active <==> !takes_control_away(state, event),
        !state.after(event).active ==> state.output(event)[0] == (ReceiverActionView::ReleaseAll {
            required: !(event is SecureInput),
        }),
{
}

/// Asking to return does not give control away.
pub proof fn asking_to_return_keeps_control(state: ReceiverView, event: ReceiverEventView, i: int)
    requires
        0 <= i < state.output(event).len(),
        state.output(event)[i] is RequestReturn,
    ensures
        state.active,
        state.after(event).active,
        state.output(event)[i] matches ReceiverActionView::RequestReturn { generation, .. } && generation
            == state.generation,
{
}

/// While only movements count, the receiver never asks to return, and movements are injected
/// as they are.
pub proof fn game_cursor_never_leaves(state: ReceiverView, dx: i32, dy: i32)
    requires
        state.game,
    ensures
        state.motion_output(dx, dy) == seq![ReceiverActionView::InjectMotion { dx, dy }],
        state.after_motion(dx as int, dy as int) == state,
{
}

/// In game mode only movements count, for ever.
pub proof fn game_mode_stays(state: ReceiverView, event: ReceiverEventView)
    requires
        state.mode is Game,
        state.game,
    ensures
        state.after(event).game,
        state.after(event).mode is Game,
{
}

/// A handover is answered with a heartbeat of its number: at once where only movements count,
/// and otherwise once the pointer is in place.
pub proof fn handover_is_answered(state: ReceiverView, message: MessageView, now: u64, at: Point, captured: bool)
    requires
        !state.paused,
        message matches MessageView::Activate { generation, .. } && generation > state.generation,
    ensures
        ({
            let entered = state.after_message(message, now);
            let answer = ReceiverActionView::Heartbeat { generation: entered.generation };
            &&& entered.active
            &&& state.game ==> state.message_output(message, now).last() == answer
            &&& !state.game ==> entered.placing_output(
                Some(at),
                captured,
                message->pressed,
            ).last() == answer
        }),
{
}

/// When the pointer cannot be put in place because a program holds the cursor, control is kept
/// and only movements count.
pub proof fn held_cursor_switches_to_movements(state: ReceiverView, pressed: SnapshotView)
    requires
        !state.paused,
    ensures
        state.after_placing(None, true).game,
        state.after_placing(None, true).active == state.active,
        state.placing_output(None, true, pressed) == state.entry_actions(pressed),
{
}

/// Once no program holds the cursor any more, its position counts again outside game mode, and
/// is asked for where it is not known. Control is kept.
pub proof fn released_cursor_counts_again(state: ReceiverView)
    requires
        !(state.mode is Game),
        state.game,
        state.active,
    ensures
        ({
            let event = ReceiverEventView::MonitorTick { captured: false };
            &&& !state.after(event).game
            &&& state.after(event).active
            &&& state.cursor is None ==> state.output(event) == seq![ReceiverActionView::AskCursor]
        }),
{
}

/// Wherever the pointer moves, it stays on the receiver's desktop.
pub proof fn pointer_stays_on_desktop(state: ReceiverView, dx: i32, dy: i32)
    requires
        state.displays.len() > 0,
        movement::all_visible(state.displays),
        !state.game,
        state.cursor is Some,
    ensures
        state.after_motion(dx as int, dy as int).cursor matches Some(point) && geometry::on_desktop(
            state.displays,
            point.x as int,
            point.y as int,
        ),
{
    let from = state.cursor->0;
    movement::moved_pointer_stays_on_desktop(state.displays, from, dx as int, dy as int);
    movement::moved_point_fits(state.displays, from, dx as int, dy as int);
}

/// Whether the two ends are in the same handover.
pub open spec fn connected(sender: SenderView, receiver: ReceiverView) -> bool {
    &&& sender.active
    &&& receiver.active
    &&& sender.generation == receiver.generation
}

/// A handover that the sender makes connects the two ends, if the receiver is not paused and
/// has not seen a number as high before.
pub proof fn handover_connects_the_ends(
    sender: SenderView,
    receiver: ReceiverView,
    position: crate::protocol::EdgePosition,
    held: SnapshotView,
    now: u64,
    then: u64,
)
    requires
        sender.may_activate(held),
        !receiver.paused,
        receiver.generation <= sender.generation < u64::MAX,
    ensures
        sender.activation_output(position, held)[0] is Send,
        connected(
            sender.after_activation(position, held, now),
            receiver.after_message(sender.activation_output(position, held)[0]->Send_0, then),
        ),
        receiver.after_message(
            sender.activation_output(position, held)[0]->Send_0,
            then,
        ).return_edge == sender.setup.edge.opposite_edge(),
{
}

/// A handover to a paused receiver comes straight back: the receiver refuses it under its
/// number, and the sender puts the pointer back where it left. Neither end stops.
pub proof fn paused_receiver_refuses_control(
    sender: SenderView,
    receiver: ReceiverView,
    position: crate::protocol::EdgePosition,
    held: SnapshotView,
    now: u64,
    then: u64,
)
    requires
        sender.may_activate(held),
        receiver.paused,
        receiver.generation <= sender.generation < u64::MAX,
    ensures
        ({
            let handed = sender.after_activation(position, held, now);
            let message = sender.activation_output(position, held)[0]->Send_0;
            let refusal = MessageView::Deactivate {
                generation: handed.generation,
                edge_position: None,
            };
            &&& receiver.message_output(message, then) == seq![
                ReceiverActionView::Deactivate { generation: handed.generation, at: None },
            ]
            &&& !receiver.after_message(message, then).active
            &&& !handed.after_message(refusal, then).active
            &&& handed.message_output(refusal) == seq![
                SenderActionView::Restore { position, required: false },
            ]
        }),
{
}

/// Whether a message carries input.
pub open spec fn carries_input(message: MessageView) -> bool {
    message is Key || message is Button || message is Wheel || message is Motion
}

/// What a message that carries input does to a receiver that accepts it.
pub open spec fn injected_for(receiver: ReceiverView, message: MessageView) -> Seq<ReceiverActionView> {
    match message {
        MessageView::Key { usage, modifiers, down, repeat, .. } => seq![
            ReceiverActionView::InjectKey { usage, modifiers, down, repeat },
        ],
        MessageView::Button { button, down, .. } => seq![
            ReceiverActionView::InjectButton { button, down },
        ],
        MessageView::Wheel { x, y, .. } => seq![ReceiverActionView::InjectWheel { x, y }],
        MessageView::Motion { dx, dy, .. } => receiver.motion_output(dx, dy),
        _ => Seq::empty(),
    }
}

/// In the same handover, all input that the sender forwards is injected as it was sent.
pub proof fn forwarded_input_is_injected(sender: SenderView, receiver: ReceiverView, event: SenderEventView, i: int, then: u64)
    requires
        connected(sender, receiver),
        0 <= i < sender.output(event).len(),
        sender.output(event)[i] matches SenderActionView::Send(message) && carries_input(message),
    ensures
        receiver.message_output(sender.output(event)[i]->Send_0, then) == injected_for(
            receiver,
            sender.output(event)[i]->Send_0,
        ),
{
    let message = sender.output(event)[i]->Send_0;
    sender_laws::input_is_sent_under_the_current_generation(sender, event, i);
    lemma_accepted_input(sender, receiver, message, then);
}

proof fn lemma_accepted_input(sender: SenderView, receiver: ReceiverView, message: MessageView, then: u64)
    requires
        connected(sender, receiver),
        carries_input(message),
        sender_laws::under_current_generation(sender, SenderActionView::Send(message)),
    ensures
        receiver.message_output(message, then) == injected_for(receiver, message),
{
}

/// The end of a handover by either side ends it on both sides: what the sender sends when it
/// takes control back makes the receiver let go, and what the receiver sends when it gives
/// control back makes the sender take it.
pub proof fn both_ends_let_go_together(
    sender: SenderView,
    receiver: ReceiverView,
    position: crate::protocol::EdgePosition,
    told: Option<crate::protocol::EdgePosition>,
    now: u64,
)
    requires
        connected(sender, receiver),
    ensures
        sender.return_actions(position)[0] is Send,
        !receiver.after_message(sender.return_actions(position)[0]->Send_0, now).active,
        !receiver.after_message(sender.deactivate_message(), now).active,
        !sender.after_message(
            MessageView::Deactivate { generation: receiver.generation, edge_position: told },
            now,
        ).active,
{
}

/// The state after some events, one after the other.
pub open spec fn after_all(state: ReceiverView, events: Seq<ReceiverEventView>) -> ReceiverView
    decreases events.len(),
{
    if events.len() == 0 {
        state
    } else {
        after_all(state, events.drop_last()).after(events.last())
    }
}

/// Whether one edge lies across the desktop from another.
pub open spec fn across(edge: ScreenEdge, other: ScreenEdge) -> bool {
    ||| edge is Left && other is Right
    ||| edge is Right && other is Left
    ||| edge is Top && other is Bottom
    ||| edge is Bottom && other is Top
}

/// A handover that is taken releases what was held, and brings the pointer in at the edge across
/// from the one that it left through, at the position where it left: that is also the edge that
/// it goes back through. Where only movements count, the pointer is left alone. The handover
/// starts the wait for heartbeats.
pub proof fn pointer_comes_in_across_from_where_it_left(
    state: ReceiverView,
    generation: u64,
    source_edge: ScreenEdge,
    edge_position: crate::protocol::EdgePosition,
    pressed: SnapshotView,
    now: u64,
)
    requires
        !state.paused,
        generation > state.generation,
    ensures
        ({
            let event = ReceiverEventView::Message {
                message: MessageView::Activate { generation, source_edge, edge_position, pressed },
                now,
            };
            let after = state.after(event);
            let actions = state.output(event);
            &&& after.active
            &&& after.generation == generation
            &&& across(source_edge, after.return_edge)
            &&& after.last_heartbeat == now
            &&& after.game == state.game
            &&& after.displays == state.displays
            &&& actions[0] == (ReceiverActionView::ReleaseAll { required: true })
            &&& !state.game ==> actions.len() == 2 && actions[1] == (
            ReceiverActionView::PlaceCursor { edge: after.return_edge, position: edge_position })
            &&& state.game ==> forall|i: int|
                0 <= i < actions.len() ==> !((#[trigger] actions[i]) is PlaceCursor)
        }),
{
}

/// The keys and buttons that were held when control came over are pressed one after the other,
/// the keys first, and then the handover is answered under its number. This is done at once
/// where only movements count, and otherwise when the pointer is in place.
pub proof fn held_input_is_pressed_on_entry(
    state: ReceiverView,
    message: MessageView,
    now: u64,
    at: Option<Point>,
    captured: bool,
)
    requires
        !state.paused,
        message matches MessageView::Activate { generation, .. } && generation > state.generation,
        at is Some || captured,
    ensures
        ({
            let entered = state.after_message(message, now);
            let pressed = message->pressed;
            let keys = pressed.usages.len();
            let buttons = pressed.buttons.len();
            let entry = if state.game {
                state.message_output(message, now).skip(1)
            } else {
                entered.output(ReceiverEventView::Placed { at, captured, pressed })
            };
            &&& entry.len() == keys + buttons + 1
            &&& forall|i: int|
                0 <= i < keys ==> #[trigger] entry[i] == (ReceiverActionView::InjectKey {
                    usage: pressed.usages[i],
                    modifiers: pressed.modifiers,
                    down: true,
                    repeat: false,
                })
            &&& forall|i: int|
                keys <= i < keys + buttons ==> #[trigger] entry[i] == (
                ReceiverActionView::InjectButton { button: pressed.buttons[i - keys], down: true })
            &&& entry.last() == (ReceiverActionView::Heartbeat { generation: message->Activate_generation })
        }),
{
}

/// Once the pointer was put in place, it is taken to be there. Where it could not be, and no
/// program holds the cursor, the receiver stops.
pub proof fn placed_pointer_is_where_it_was_put(
    state: ReceiverView,
    at: Option<Point>,
    captured: bool,
    pressed: SnapshotView,
)
    requires
        !state.paused,
    ensures
        ({
            let event = ReceiverEventView::Placed { at, captured, pressed };
            let after = state.after(event);
            &&& at is Some ==> after.cursor == at && after.game == state.game
            &&& at is None ==> after.cursor == state.cursor
            &&& at is None && captured ==> after.game
            &&& at is None && !captured ==> state.output(event) == seq![
                ReceiverActionView::Stop(ReceiverStopView::WarpFailed),
            ]
            &&& after.active == state.active
            &&& after.generation == state.generation
            &&& after.return_edge == state.return_edge
        }),
{
}

/// A heartbeat of the handover keeps it alive for as long as an end waits for one, and no
/// longer. When the wait is over, everything is released and the receiver stops.
pub proof fn heartbeat_keeps_the_handover(state: ReceiverView, then: u64, now: u64)
    requires
        state.active,
    ensures
        ({
            let message = MessageView::Heartbeat { generation: state.generation };
            let heard = state.after(ReceiverEventView::Message { message, now: then });
            let tick = ReceiverEventView::TimeoutTick { now };
            &&& heard.active
            &&& heard.generation == state.generation
            &&& heard.cursor == state.cursor
            &&& now - then < HEARTBEAT_TIMEOUT ==> heard.output(tick).len() == 0
            &&& now - then >= HEARTBEAT_TIMEOUT ==> heard.output(tick) == seq![
                ReceiverActionView::ReleaseAll { required: true },
                ReceiverActionView::Stop(ReceiverStopView::HeartbeatTimeout),
            ]
            &&& heard.after(tick) == heard
        }),
{
}

/// Whether an event tells that the other end is there, or begins a handover.
pub open spec fn breaks_silence(generation: u64, event: ReceiverEventView) -> bool {
    ||| event matches ReceiverEventView::Message { message, .. } && message is Activate
    ||| event matches ReceiverEventView::Message {
        message: MessageView::Heartbeat { generation: heard },
        ..
    } && heard == generation
}

/// Nothing but a heartbeat of the handover or a new handover keeps the receiver waiting:
/// whatever else happens while it has control, it gives up at the same time as if nothing had
/// happened.
pub proof fn nothing_else_breaks_the_silence(
    state: ReceiverView,
    events: Seq<ReceiverEventView>,
    now: u64,
)
    requires
        state.active,
        forall|i: int|
            0 <= i < events.len() ==> !breaks_silence(state.generation, #[trigger] events[i]),
    ensures
        after_all(state, events).generation == state.generation,
        after_all(state, events).active ==> after_all(state, events).output(
            ReceiverEventView::TimeoutTick { now },
        ) == state.output(ReceiverEventView::TimeoutTick { now }),
        after_all(state, events).last_heartbeat == state.last_heartbeat,
    decreases events.len(),
{
    if events.len() > 0 {
        let before = events.drop_last();
        assert forall|i: int| 0 <= i < before.len() implies !breaks_silence(
            state.generation,
            #[trigger] before[i],
        ) by {
            assert(before[i] == events[i]);
        }
        nothing_else_breaks_the_silence(state, before, now);
        let last = events[events.len() - 1];
        assert(!breaks_silence(state.generation, last));
    }
}

/// Without control the receiver waits for nobody, and heartbeats go out with every tick all the
/// same.
pub proof fn idle_receiver_is_patient(state: ReceiverView, now: u64)
    ensures
        !state.active ==> state.output(ReceiverEventView::TimeoutTick { now }).len() == 0,
        state.output(ReceiverEventView::HeartbeatTick) == seq![
            ReceiverActionView::Heartbeat { generation: state.generation },
        ],
        state.after(ReceiverEventView::HeartbeatTick) == state,
        state.after(ReceiverEventView::TimeoutTick { now }) == state,
{
}

/// Input of the handover is injected as it was sent, and changes nothing but the place of the
/// pointer.
pub proof fn accepted_input_is_injected_as_sent(state: ReceiverView, message: MessageView, now: u64)
    requires
        state.active,
    ensures
        ({
            let event = ReceiverEventView::Message { message, now };
            let actions = state.output(event);
            match message {
                MessageView::Key { generation, usage, modifiers, down, repeat } => generation
                    == state.generation ==> actions == seq![
                    ReceiverActionView::InjectKey { usage, modifiers, down, repeat },
                ] && state.after(event) == state,
                MessageView::Button { generation, button, down } => generation
                    == state.generation ==> actions == seq![
                    ReceiverActionView::InjectButton { button, down },
                ] && state.after(event) == state,
                MessageView::Wheel { generation, x, y } => generation == state.generation
                    ==> actions == seq![ReceiverActionView::InjectWheel { x, y }] && state.after(
                    event,
                ) == state,
                _ => true,
            }
        }),
{
}

/// A movement of the handover moves the pointer to where it ends on the desktop, and the pointer
/// is injected there. Where it leaves through the edge that it came in by, and only there, the
/// receiver asks to return, at the position where it leaves. Movements that were gathered while
/// they waited are used in the same way.
pub proof fn movements_move_the_pointer(
    state: ReceiverView,
    point: Point,
    dx: i32,
    dy: i32,
    now: u64,
    waited: bool,
)
    requires
        state.active,
        !state.game,
        state.cursor == Some(point),
    ensures
        ({
            let generation = state.generation;
            let event = if waited {
                ReceiverEventView::MotionTick {
                    motion: Some(CoalescedMotion { generation, dx, dy }),
                }
            } else {
                ReceiverEventView::Message {
                    message: MessageView::Motion { generation, dx, dy },
                    now,
                }
            };
            let after = state.after(event);
            let actions = state.output(event);
            let (x, y) = movement::moved_within(state.displays, point, dx as int, dy as int);
            let leaves = movement::crosses_outer_edge(
                state.displays,
                state.return_edge,
                point,
                dx as int,
                dy as int,
            );
            &&& after.cursor matches Some(target)
            &&& target.x == x && target.y == y
            &&& actions.len() == if leaves { 2int } else { 1 }
            &&& actions[0] == (ReceiverActionView::InjectCursor { point: target })
            &&& leaves ==> actions[1] == (ReceiverActionView::RequestReturn {
                generation,
                at: edge::offset_on_edge(state.displays, state.return_edge, point),
            })
            &&& after.active && after.generation == state.generation && after.return_edge
                == state.return_edge && after.last_heartbeat == state.last_heartbeat && after.game
                == state.game
        }),
{
    movement::moved_point_fits(state.displays, point, dx as int, dy as int);
}

/// Motion that waited is used only under the number of the handover, and motion that does not
/// wait is nothing.
pub proof fn stale_motion_is_ignored(state: ReceiverView, motion: Option<CoalescedMotion>)
    requires
        motion matches Some(waiting) ==> waiting.generation != state.generation || !state.active,
    ensures
        state.after(ReceiverEventView::MotionTick { motion }) == state,
        state.output(ReceiverEventView::MotionTick { motion }).len() == 0,
{
}

/// Where only movements count, they are injected as they are.
pub proof fn game_movements_are_injected_as_they_are(
    state: ReceiverView,
    dx: i32,
    dy: i32,
    now: u64,
)
    requires
        state.active,
        state.game,
    ensures
        ({
            let generation = state.generation;
            let message = ReceiverEventView::Message {
                message: MessageView::Motion { generation, dx, dy },
                now,
            };
            let waited = ReceiverEventView::MotionTick {
                motion: Some(CoalescedMotion { generation, dx, dy }),
            };
            &&& state.output(message) == seq![ReceiverActionView::InjectMotion { dx, dy }]
            &&& state.output(waited) == seq![ReceiverActionView::InjectMotion { dx, dy }]
            &&& state.after(message) == state
            &&& state.after(waited) == state
        }),
{
}

/// When the sender takes control back, everything is released, and the pointer is forgotten.
pub proof fn control_goes_back_with_everything_released(
    state: ReceiverView,
    message: MessageView,
    now: u64,
)
    requires
        state.active,
        match message {
            MessageView::Return { generation, .. } => generation == state.generation,
            MessageView::Deactivate { generation, .. } => generation == state.generation,
            _ => false,
        },
    ensures
        ({
            let event = ReceiverEventView::Message { message, now };
            let after = state.after(event);
            &&& state.output(event) == seq![ReceiverActionView::ReleaseAll { required: true }]
            &&& !after.active
            &&& after.cursor is None
            &&& after.generation == state.generation
            &&& after.game == state.game
            &&& after.paused == state.paused
        }),
{
}

/// The emergency hotkey releases everything and gives control back, with the position beside the
/// pointer if there is one.
pub proof fn emergency_gives_control_back(state: ReceiverView)
    ensures
        ({
            let event = ReceiverEventView::Native { event: NativeView::Emergency };
            let after = state.after(event);
            &&& !after.active
            &&& !state.active ==> state.output(event).len() == 0 && after == state
            &&& state.active ==> {
                &&& state.output(event).len() == 2
                &&& state.output(event)[0] == (ReceiverActionView::ReleaseAll { required: true })
                &&& state.output(event)[1] == (ReceiverActionView::Deactivate {
                    generation: state.generation,
                    at: match state.cursor {
                        Some(point) => Some(
                            edge::offset_on_edge(state.displays, state.return_edge, point),
                        ),
                        None => None,
                    },
                })
                &&& after.cursor is None
            }
        }),
{
}

/// Whether an action ends the session.
pub open spec fn ends(actions: Seq<ReceiverActionView>) -> bool {
    exists|i: int| 0 <= i < actions.len() && (#[trigger] actions[i]) is Stop
}

/// The receiver stops for seven reasons and no other, and gives the reason last.
pub proof fn receiver_stops_only_for_a_reason(state: ReceiverView, event: ReceiverEventView)
    ensures
        ends(state.output(event)) <==> match event {
            ReceiverEventView::Message { message, .. } => match message {
                MessageView::Proof { .. } => true,
                MessageView::Motion { generation, .. } => state.active && generation
                    == state.generation && !state.game && state.cursor is None,
                _ => false,
            },
            ReceiverEventView::Placed { at, captured, .. } => !state.paused && at is None
                && !captured,
            ReceiverEventView::MotionTick { motion } => motion matches Some(waiting)
                && state.active && waiting.generation == state.generation && !state.game
                && state.cursor is None,
            ReceiverEventView::Native { event } => event is ReliableQueueOverflow
                || event is Failed,
            ReceiverEventView::TimeoutTick { now } => state.active && now - state.last_heartbeat
                >= HEARTBEAT_TIMEOUT,
            ReceiverEventView::OverflowPoll { overflowed } => overflowed,
            _ => false,
        },
        ends(state.output(event)) ==> state.output(event).last() == ReceiverActionView::Stop(
            match event {
                ReceiverEventView::Message { message: MessageView::Proof { .. }, .. } => {
                    ReceiverStopView::RepeatedProof
                },
                ReceiverEventView::Message { .. } => ReceiverStopView::NoCursor,
                ReceiverEventView::MotionTick { .. } => ReceiverStopView::NoCursor,
                ReceiverEventView::Placed { .. } => ReceiverStopView::WarpFailed,
                ReceiverEventView::Native { event: NativeView::Failed(message) } => {
                    ReceiverStopView::InjectionFailed(message)
                },
                ReceiverEventView::Native { .. } => ReceiverStopView::EmergencyQueueFull,
                ReceiverEventView::TimeoutTick { .. } => ReceiverStopView::HeartbeatTimeout,
                _ => ReceiverStopView::QueueOverflow,
            },
        ),
        event matches ReceiverEventView::OverflowPoll { overflowed } && overflowed
            ==> state.output(event)[0] == (ReceiverActionView::ReleaseAll { required: false }),
{
    let actions = state.output(event);
    if actions.len() > 0 {
        assert(actions.last() == actions[actions.len() - 1]);
    }
    match event {
        ReceiverEventView::Message { message, now } => {
            match message {
                MessageView::Activate { generation, pressed, .. } => {
                    if generation > state.generation && !state.paused && state.game {
                        let entered = state.after_message(message, now);
                        assert(actions.skip(1) =~= entered.entry_actions(pressed));
                        assert forall|i: int| 0 <= i < actions.len() implies !((
                        #[trigger] actions[i]) is Stop) by {
                            if i > 0 {
                                assert(actions[i] == actions.skip(1)[i - 1]);
                            }
                        }
                    }
                },
                _ => {},
            }
        },
        _ => {},
    }
}

/// Whether only movements count follows the mode: never on a desktop once no program holds the
/// cursor, with the program in automatic mode, and always in a game. The pointer is asked for
/// exactly when its place starts to count while this end has control and does not know it.
pub proof fn monitoring_follows_the_mode(state: ReceiverView, captured: bool)
    ensures
        ({
            let event = ReceiverEventView::MonitorTick { captured };
            let after = state.after(event);
            &&& state.mode is Auto ==> after.game == captured
            &&& state.mode is Desktop ==> after.game == (state.game && captured)
            &&& state.mode is Game ==> after.game == state.game
            &&& after.active == state.active && after.cursor == state.cursor && after.generation
                == state.generation && after.mode == state.mode
            &&& state.output(event).len() == if state.game && !after.game && state.active
                && state.cursor is None {
                1int
            } else {
                0
            }
            &&& forall|i: int|
                0 <= i < state.output(event).len() ==> (#[trigger] state.output(event)[i])
                    is AskCursor
        }),
        forall|point: Point| #[trigger]
            state.after(ReceiverEventView::CursorFound { point }).cursor == Some(point),
{
}

/// A receiver starts without control, and by its mode: only movements count in a game, and in
/// automatic mode where a program holds the cursor.
pub proof fn receiver_starts_without_control(
    displays: Seq<DisplayRect>,
    mode: CursorMode,
    captured: bool,
    now: u64,
)
    ensures
        ({
            let start = receiver::initial_receiver(displays, mode, captured, now);
            &&& !start.active && !start.paused
            &&& start.generation == 0
            &&& start.cursor is None
            &&& start.displays == displays
            &&& start.mode == mode
            &&& mode is Desktop ==> !start.game
            &&& mode is Auto ==> start.game == captured
            &&& mode is Game ==> start.game
        }),
{
}

/// What stays the same whatever happens: the desktop and the mode.
pub proof fn desktop_and_mode_stay(state: ReceiverView, event: ReceiverEventView)
    ensures
        state.after(event).displays == state.displays,
        state.after(event).mode == state.mode,
{
}

/// A handover and a return through the same edges: the sender hands control over through its
/// edge, and the pointer of the receiver goes back through the edge across from it. The sender
/// then puts its pointer back at the position that the receiver gives.
pub proof fn pointer_comes_back_where_the_receiver_says(
    sender: SenderView,
    receiver: ReceiverView,
    position: crate::protocol::EdgePosition,
    held: SnapshotView,
    asked: crate::protocol::EdgePosition,
    now: u64,
    then: u64,
)
    requires
        sender.may_activate(held),
        !sender.setup.block_switch_on_press,
        !receiver.paused,
        receiver.generation <= sender.generation < u64::MAX,
    ensures
        ({
            let handed = sender.after_activation(position, held, now);
            let message = sender.activation_output(position, held)[0]->Send_0;
            let entered = receiver.after_message(message, then);
            let request = MessageView::ReturnRequest {
                generation: entered.generation,
                edge_position: asked,
            };
            &&& across(sender.setup.edge, entered.return_edge)
            &&& handed.message_output(request).len() == 2
            &&& handed.message_output(request)[1] == (SenderActionView::Restore {
                position: asked,
                required: true,
            })
            &&& handed.message_output(request)[0] matches SenderActionView::Send(answer)
            &&& !entered.after_message(answer, then).active
            &&& !handed.after_message(request, now).active
        }),
{
}

/// One display is enough to work on, and the length of the edges is all that can stand against a
/// desktop with displays.
pub proof fn desktops_with_short_edges_are_usable(displays: Seq<DisplayRect>)
    ensures
        displays.len() >= 1 && (forall|edge: ScreenEdge|
            #[trigger] edge::edge_extent(displays, edge) <= i32::MAX) ==> receiver::usable_desktop(
            displays,
        ),
        displays.len() == 0 ==> !receiver::usable_desktop(displays),
{
}

} // verus!
