//! Reading messages: pointer motion is gathered while it waits, everything else keeps its order.

use crate::numeric;
use crate::protocol::{InputMessage, MessageView};
use vstd::prelude::*;

verus! {

/// The motion of several messages in one.
#[derive(Clone, Copy, Debug, PartialEq, Eq, Structural)]
pub struct CoalescedMotion {
    pub generation: u64,
    pub dx: i32,
    pub dy: i32,
}

/// Motion that waits to be used.
#[derive(Clone, Copy, Debug, PartialEq, Eq, Structural)]
pub struct IncomingMotion {
    pub pending: Option<CoalescedMotion>,
}

/// What waits after one more motion. Motion of another generation takes the place of what
/// waited.
pub open spec fn gathered(pending: Option<CoalescedMotion>, motion: CoalescedMotion) -> CoalescedMotion {
    match pending {
        Some(waiting) => if waiting.generation == motion.generation {
            CoalescedMotion {
                generation: motion.generation,
                dx: numeric::saturate(waiting.dx + motion.dx) as i32,
                dy: numeric::saturate(waiting.dy + motion.dy) as i32,
            }
        } else {
            motion
        },
        None => motion,
    }
}

/// The message for some motion.
pub open spec fn motion_view(motion: CoalescedMotion) -> MessageView {
    MessageView::Motion { generation: motion.generation, dx: motion.dx, dy: motion.dy }
}

/// What is handed on when a message arrives: nothing for motion, which waits; for anything else
/// the motion that waited and then the message, except that a heartbeat overtakes motion.
pub open spec fn delivered(pending: Option<CoalescedMotion>, message: MessageView) -> Seq<MessageView> {
    match message {
        MessageView::Motion { .. } => Seq::empty(),
        MessageView::Heartbeat { .. } => seq![message],
        _ => match pending {
            Some(motion) => seq![motion_view(motion), message],
            None => seq![message],
        },
    }
}

/// What waits when a message has arrived.
pub open spec fn waiting_after(pending: Option<CoalescedMotion>, message: MessageView) -> Option<
    CoalescedMotion,
> {
    match message {
        MessageView::Motion { generation, dx, dy } => Some(
            gathered(pending, CoalescedMotion { generation, dx, dy }),
        ),
        MessageView::Heartbeat { .. } => pending,
        _ => None,
    }
}

/// The contents of a list of messages.
pub open spec fn message_views(messages: Seq<InputMessage>) -> Seq<MessageView> {
    messages.map_values(|m: InputMessage| m@)
}

impl Default for IncomingMotion {
    fn default() -> (r: Self)
        ensures
            r.pending is None,
    {
        IncomingMotion { pending: None }
    }
}

impl IncomingMotion {
    /// One more motion.
    pub fn push(&mut self, generation: u64, dx: i32, dy: i32)
        ensures
            final(self).pending == Some(
                gathered(old(self).pending, CoalescedMotion { generation, dx, dy }),
            ),
    {
        let motion = match self.pending {
            Some(waiting) => if waiting.generation == generation {
                CoalescedMotion {
                    generation,
                    dx: numeric::saturating_sum(waiting.dx, dx),
                    dy: numeric::saturating_sum(waiting.dy, dy),
                }
            } else {
                CoalescedMotion { generation, dx, dy }
            },
            None => CoalescedMotion { generation, dx, dy },
        };
        self.pending = Some(motion);
    }

    /// The motion that waited.
    pub fn take(&mut self) -> (r: Option<CoalescedMotion>)
        ensures
            r == old(self).pending,
            final(self).pending is None,
    {
        let pending = self.pending;
        self.pending = None;
        pending
    }

    /// A message has arrived. Gives what is handed on.
    pub fn receive(&mut self, message: InputMessage) -> (r: Vec<InputMessage>)
        ensures
            message_views(r@) == delivered(old(self).pending, message@),
            final(self).pending == waiting_after(old(self).pending, message@),
    {
        let mut out: Vec<InputMessage> = Vec::new();
        let ghost view = message@;
        match message {
            InputMessage::Motion { generation, dx, dy } => {
                self.push(generation, dx, dy);
            },
            InputMessage::Heartbeat { generation } => {
                out.push(InputMessage::Heartbeat { generation });
            },
            message => {
                if let Some(motion) = self.take() {
                    out.push(
                        InputMessage::Motion {
                            generation: motion.generation,
                            dx: motion.dx,
                            dy: motion.dy,
                        },
                    );
                }
                out.push(message);
            },
        }
        assert(message_views(out@) =~= delivered(old(self).pending, view));
        out
    }
}

/// Everything that some messages hand on, one after the other.
pub open spec fn all_delivered(pending: Option<CoalescedMotion>, messages: Seq<MessageView>) -> Seq<
    MessageView,
>
    decreases messages.len(),
{
    if messages.len() == 0 {
        Seq::empty()
    } else {
        delivered(pending, messages[0]) + all_delivered(
            waiting_after(pending, messages[0]),
            messages.drop_first(),
        )
    }
}

/// The messages of a list that are no motion.
pub open spec fn without_motion(messages: Seq<MessageView>) -> Seq<MessageView> {
    messages.filter(|m: MessageView| !(m is Motion))
}

/// Gathering motion neither loses nor reorders any other message.
pub proof fn reliable_messages_keep_their_order(pending: Option<CoalescedMotion>, messages: Seq<MessageView>)
    ensures
        without_motion(all_delivered(pending, messages)) == without_motion(messages),
    decreases messages.len(),
{
    let reliable = |m: MessageView| !(m is Motion);
    if messages.len() == 0 {
        assert(all_delivered(pending, messages) =~= messages);
    } else {
        let first = messages[0];
        let rest = messages.drop_first();
        let next = waiting_after(pending, first);
        reliable_messages_keep_their_order(next, rest);
        let head = delivered(pending, first);
        let tail = all_delivered(next, rest);
        Seq::filter_distributes_over_add(head, tail, reliable);
        assert(seq![first] + rest =~= messages);
        Seq::filter_distributes_over_add(seq![first], rest, reliable);
        assert(head.filter(reliable) =~= seq![first].filter(reliable)) by {
            reveal_with_fuel(Seq::filter, 3);
            if head.len() == 2 {
                assert(head.drop_last() =~= seq![head[0]]);
                assert(head.drop_last().drop_last() =~= Seq::<MessageView>::empty());
            } else if head.len() == 1 {
                assert(head =~= seq![first]);
            }
            assert(seq![first].drop_last() =~= Seq::<MessageView>::empty());
        }
    }
}

/// What waits after some messages.
pub open spec fn waiting_after_all(pending: Option<CoalescedMotion>, messages: Seq<MessageView>) -> Option<
    CoalescedMotion,
>
    decreases messages.len(),
{
    if messages.len() == 0 {
        pending
    } else {
        waiting_after(waiting_after_all(pending, messages.drop_last()), messages.last())
    }
}

/// The motion of several steps together.
pub open spec fn sum_of(steps: Seq<(i32, i32)>) -> (int, int)
    decreases steps.len(),
{
    if steps.len() == 0 {
        (0, 0)
    } else {
        let (x, y) = sum_of(steps.drop_last());
        (x + steps.last().0, y + steps.last().1)
    }
}

/// Whether the motion of the first steps can be written as one step, however many they are.
pub open spec fn sums_fit(steps: Seq<(i32, i32)>) -> bool {
    forall|n: int|
        0 <= n <= steps.len() ==> {
            let (x, y) = #[trigger] sum_of(steps.take(n));
            i32::MIN <= x <= i32::MAX && i32::MIN <= y <= i32::MAX
        }
}

/// The messages for some steps of one handover.
pub open spec fn motion_messages(generation: u64, steps: Seq<(i32, i32)>) -> Seq<MessageView> {
    steps.map_values(
        |step: (i32, i32)| MessageView::Motion { generation, dx: step.0, dy: step.1 },
    )
}

/// No motion is lost by waiting: what waits after some steps of one handover is their sum.
pub proof fn gathered_motion_is_the_sum(generation: u64, steps: Seq<(i32, i32)>)
    requires
        steps.len() > 0,
        sums_fit(steps),
    ensures
        waiting_after_all(None, motion_messages(generation, steps)) == Some(
            CoalescedMotion {
                generation,
                dx: sum_of(steps).0 as i32,
                dy: sum_of(steps).1 as i32,
            },
        ),
        i32::MIN <= sum_of(steps).0 <= i32::MAX,
        i32::MIN <= sum_of(steps).1 <= i32::MAX,
    decreases steps.len(),
{
    let messages = motion_messages(generation, steps);
    let before = steps.drop_last();
    assert(messages.drop_last() =~= motion_messages(generation, before));
    assert(messages.last() == (MessageView::Motion {
        generation,
        dx: steps.last().0,
        dy: steps.last().1,
    }));
    assert(steps.take(steps.len() as int) =~= steps);
    if before.len() == 0 {
        assert(sum_of(before) == (0int, 0int));
        assert(waiting_after_all(None, motion_messages(generation, before)) is None);
    } else {
        assert forall|n: int| 0 <= n <= before.len() implies {
            let (x, y) = #[trigger] sum_of(before.take(n));
            i32::MIN <= x <= i32::MAX && i32::MIN <= y <= i32::MAX
        } by {
            assert(before.take(n) =~= steps.take(n));
        }
        gathered_motion_is_the_sum(generation, before);
    }
}

/// Motion is in place when another message but a heartbeat is handed on: nothing waits behind
/// it.
pub proof fn motion_is_in_place_before_reliable_messages(
    pending: Option<CoalescedMotion>,
    message: MessageView,
)
    requires
        !(message is Motion),
        !(message is Heartbeat),
    ensures
        waiting_after(pending, message) is None,
        delivered(pending, message).last() == message,
        pending matches Some(motion) ==> delivered(pending, message)[0] == motion_view(motion),
{
}

/// Motion waits, a heartbeat goes ahead of it, and every other message is handed on behind the
/// motion that waited, which comes first and as it is.
pub proof fn messages_are_handed_on_in_their_order(
    pending: Option<CoalescedMotion>,
    message: MessageView,
)
    ensures
        message is Motion ==> delivered(pending, message).len() == 0 && waiting_after(
            pending,
            message,
        ) is Some,
        message is Heartbeat ==> delivered(pending, message) == seq![message] && waiting_after(
            pending,
            message,
        ) == pending,
        !(message is Motion) && !(message is Heartbeat) ==> {
            &&& waiting_after(pending, message) is None
            &&& pending is None ==> delivered(pending, message) == seq![message]
            &&& pending matches Some(motion) ==> delivered(pending, message) == seq![
                MessageView::Motion {
                    generation: motion.generation,
                    dx: motion.dx,
                    dy: motion.dy,
                },
                message,
            ]
        },
{
}

/// Motion of one handover is added up while it waits, and motion of another handover takes its
/// place.
pub proof fn waiting_motion_is_of_one_handover(
    pending: Option<CoalescedMotion>,
    generation: u64,
    dx: i32,
    dy: i32,
)
    ensures
        waiting_after(pending, MessageView::Motion { generation, dx, dy }) matches Some(motion) && {
            &&& motion.generation == generation
            &&& pending is None ==> motion.dx == dx && motion.dy == dy
            &&& pending matches Some(waiting) ==> if waiting.generation != generation {
                motion.dx == dx && motion.dy == dy
            } else {
                &&& i32::MIN <= waiting.dx + dx <= i32::MAX ==> motion.dx == waiting.dx + dx
                &&& i32::MIN <= waiting.dy + dy <= i32::MAX ==> motion.dy == waiting.dy + dy
                &&& waiting.dx + dx > i32::MAX ==> motion.dx == i32::MAX
                &&& waiting.dx + dx < i32::MIN ==> motion.dx == i32::MIN
                &&& waiting.dy + dy > i32::MAX ==> motion.dy == i32::MAX
                &&& waiting.dy + dy < i32::MIN ==> motion.dy == i32::MIN
            }
        },
{
}

} // verus!
