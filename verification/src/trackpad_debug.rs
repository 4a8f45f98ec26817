//! Watching everything that a trackpad sends, for diagnosis.

use crate::macos;
use crate::text;
use vstd::prelude::*;
use vstd::string::*;

verus! {

/// How many kinds of events are counted.
pub const EVENT_TYPE_COUNT: usize = 64;

/// Time between two summaries, in milliseconds.
pub const SUMMARY_INTERVAL: u64 = 1000;

/// Something to write to the log.
#[derive(Clone, Copy, Debug, PartialEq, Eq, Structural)]
pub enum DebugRecord {
    Button { kind: u32, button: i64 },
    Scroll { x: i64, y: i64, continuous: i64, phase: i64, momentum: i64 },
    Gesture { kind: u32 },
    Raw { kind: u32 },
    KeyboardExit { kind: u32, keycode: i64, flags: u64 },
    /// The system has stopped the watching of events, which is started again.
    Disabled { kind: u32 },
}

/// What is read from an event of the system.
#[derive(Clone, Copy, Debug, PartialEq, Eq, Structural)]
pub struct DebugEvent {
    pub kind: u32,
    pub delta_x: i64,
    pub delta_y: i64,
    pub button: i64,
    pub scroll_x: i64,
    pub scroll_y: i64,
    pub continuous: i64,
    pub phase: i64,
    pub momentum: i64,
    pub keycode: i64,
    pub flags: u64,
}

/// What becomes of an event.
#[derive(Clone, Copy, Debug, PartialEq, Eq, Structural)]
pub struct DebugOutcome {
    /// Whether this machine gets the event.
    pub pass: bool,
    /// Whether watching is started again.
    pub enable: bool,
    /// Whether watching ends.
    pub stop: bool,
    /// Whether the event was looked at, so that a summary may be due.
    pub observed: bool,
    pub record: Option<DebugRecord>,
}

/// The counters.
#[derive(Debug)]
pub struct DebugState {
    event_counts: [u64; 64],
    dropped_logs: u64,
    motion_x: i64,
    motion_y: i64,
    last_summary: u64,
    stopping: bool,
}

/// The values of the counters.
pub struct DebugView {
    pub counts: Seq<u64>,
    pub dropped: u64,
    pub motion_x: i64,
    pub motion_y: i64,
    pub last_summary: u64,
    pub stopping: bool,
}

impl View for DebugState {
    type V = DebugView;

    closed spec fn view(&self) -> DebugView {
        DebugView {
            counts: self.event_counts@,
            dropped: self.dropped_logs,
            motion_x: self.motion_x,
            motion_y: self.motion_y,
            last_summary: self.last_summary,
            stopping: self.stopping,
        }
    }
}

/// Whether an event comes from the keyboard.
pub open spec fn from_keyboard(kind: u32) -> bool {
    kind == 10 || kind == 11 || kind == 12
}

pub fn is_keyboard_event(event_type: u32) -> (r: bool)
    ensures
        r == from_keyboard(event_type),
{
    event_type == macos::EVENT_KEY_DOWN || event_type == macos::EVENT_KEY_UP || event_type
        == macos::EVENT_FLAGS_CHANGED
}

/// The kinds below `kinds` that were seen, each with its number.
pub open spec fn count_parts(counts: Seq<u64>, kinds: nat) -> Seq<Seq<char>>
    decreases kinds,
{
    if kinds == 0 {
        Seq::empty()
    } else {
        let before = count_parts(counts, (kinds - 1) as nat);
        if counts[kinds - 1] != 0 {
            before.push(
                text::decimal_text((kinds - 1) as nat) + ":"@ + text::decimal_text(
                    counts[kinds - 1] as nat,
                ),
            )
        } else {
            before
        }
    }
}

/// The kinds that were seen, each with its number, or the word for none.
pub open spec fn counts_text(counts: Seq<u64>) -> Seq<char> {
    let parts = count_parts(counts, counts.len());
    if parts.len() == 0 {
        "none"@
    } else {
        text::joined(parts, ","@)
    }
}

/// The kinds of events that were seen, each with its number.
pub fn event_counts_text(counts: &[u64; 64]) -> (r: String)
    ensures
        r@ == counts_text(counts@),
{
    let mut out = String::new();
    let mut first = true;
    let mut kind: usize = 0;
    while kind < 64
        invariant
            kind <= 64,
            counts@.len() == 64,
            first == (count_parts(counts@, kind as nat).len() == 0),
            out@ == text::joined(count_parts(counts@, kind as nat), ","@),
        decreases 64 - kind,
    {
        if counts[kind] != 0 {
            let ghost before = count_parts(counts@, kind as nat);
            let ghost part = text::decimal_text(kind as nat) + ":"@ + text::decimal_text(
                counts@[kind as int] as nat,
            );
            assert(before.push(part).drop_last() =~= before);
            if !first {
                out.append(",");
            }
            text::append_decimal(&mut out, kind as u64);
            out.append(":");
            text::append_decimal(&mut out, counts[kind]);
            first = false;
            assert(out@ =~= text::joined(before.push(part), ","@));
        }
        kind += 1;
    }
    if first {
        "none".to_owned()
    } else {
        out
    }
}

impl DebugView {
    /// With one more event of a kind. Kinds without a counter are not counted.
    pub open spec fn counted(self, kind: u32) -> DebugView {
        if kind < 64 {
            DebugView {
                counts: self.counts.update(kind as int, (self.counts[kind as int] + 1) as u64),
                ..self
            }
        } else {
            self
        }
    }

    /// Whether the counters have room for one more event.
    pub open spec fn has_room(self, event: DebugEvent) -> bool {
        &&& self.counts.len() == 64
        &&& event.kind < 64 ==> self.counts[event.kind as int] < u64::MAX
        &&& macos::is_pointer_motion(event.kind) ==> {
            &&& i64::MIN <= self.motion_x + event.delta_x <= i64::MAX
            &&& i64::MIN <= self.motion_y + event.delta_y <= i64::MAX
        }
    }

    /// Whether watching was stopped by the system.
    pub open spec fn was_disabled(self, event: DebugEvent) -> bool {
        event.kind == macos::EVENT_TAP_DISABLED_TIMEOUT || event.kind
            == macos::EVENT_TAP_DISABLED_USER_INPUT
    }

    pub open spec fn after(self, event: DebugEvent) -> DebugView {
        if self.was_disabled(event) {
            self
        } else if from_keyboard(event.kind) {
            if self.stopping {
                self
            } else {
                DebugView { stopping: true, ..self.counted(event.kind) }
            }
        } else if macos::is_pointer_motion(event.kind) {
            DebugView {
                motion_x: (self.motion_x + event.delta_x) as i64,
                motion_y: (self.motion_y + event.delta_y) as i64,
                ..self.counted(event.kind)
            }
        } else {
            self.counted(event.kind)
        }
    }

    pub open spec fn record(self, event: DebugEvent) -> Option<DebugRecord> {
        let kind = event.kind;
        if self.was_disabled(event) {
            Some(DebugRecord::Disabled { kind })
        } else if from_keyboard(kind) {
            if self.stopping {
                None
            } else {
                Some(DebugRecord::KeyboardExit { kind, keycode: event.keycode, flags: event.flags })
            }
        } else if macos::is_pointer_motion(kind) {
            None
        } else if macos::is_button_down(kind) || macos::is_button_up(kind) {
            Some(DebugRecord::Button { kind, button: event.button })
        } else if kind == macos::EVENT_SCROLL {
            Some(
                DebugRecord::Scroll {
                    x: event.scroll_x,
                    y: event.scroll_y,
                    continuous: event.continuous,
                    phase: event.phase,
                    momentum: event.momentum,
                },
            )
        } else if macos::is_gesture(kind) {
            Some(DebugRecord::Gesture { kind })
        } else {
            Some(DebugRecord::Raw { kind })
        }
    }
}

impl DebugState {
    pub fn new(now: u64) -> (r: Self)
        ensures
            r@.counts == Seq::new(64, |i: int| 0u64),
            r@.dropped == 0,
            r@.motion_x == 0,
            r@.motion_y == 0,
            r@.last_summary == now,
            !r@.stopping,
    {
        let r = DebugState {
            event_counts: [0; 64],
            dropped_logs: 0,
            motion_x: 0,
            motion_y: 0,
            last_summary: now,
            stopping: false,
        };
        assert(r@.counts =~= Seq::new(64, |i: int| 0u64));
        r
    }

    fn count(&mut self, kind: u32)
        requires
            kind < 64 ==> old(self)@.counts[kind as int] < u64::MAX,
        ensures
            final(self)@ == old(self)@.counted(kind),
    {
        if kind < 64 {
            let i: usize = kind as usize;
            self.event_counts[i] = self.event_counts[i] + 1;
            assert(self@.counts =~= old(self)@.counted(kind).counts);
        }
    }

    /// Whether the counters have room for one more event.
    pub fn has_room(&self, event: &DebugEvent) -> (r: bool)
        ensures
            r == self@.has_room(*event),
    {
        if event.kind < 64 && self.event_counts[event.kind as usize] == u64::MAX {
            return false;
        }
        let moves = event.kind == macos::EVENT_MOUSE_MOVED || event.kind == macos::EVENT_LEFT_DRAGGED
            || event.kind == macos::EVENT_RIGHT_DRAGGED || event.kind == macos::EVENT_OTHER_DRAGGED;
        !moves || (self.motion_x.checked_add(event.delta_x).is_some()
            && self.motion_y.checked_add(event.delta_y).is_some())
    }

    /// Whether one more record can be counted that found no room in the log.
    pub fn can_count_dropped(&self) -> (r: bool)
        ensures
            r == (self@.dropped < u64::MAX),
    {
        self.dropped_logs < u64::MAX
    }

    /// A record found no room in the log.
    pub fn log_dropped(&mut self)
        requires
            old(self)@.dropped < u64::MAX,
        ensures
            final(self)@ == (DebugView { dropped: (old(self)@.dropped + 1) as u64, ..old(self)@ }),
    {
        self.dropped_logs += 1;
    }

    /// An event of the system. All of them are kept from this machine, and any key ends
    /// watching.
    pub fn event_callback(&mut self, event: DebugEvent) -> (r: DebugOutcome)
        requires
            old(self)@.has_room(event),
        ensures
            final(self)@ == old(self)@.after(event),
            r.pass == old(self)@.was_disabled(event),
            r.enable == old(self)@.was_disabled(event),
            r.stop == (!old(self)@.was_disabled(event) && from_keyboard(event.kind)
                && !old(self)@.stopping),
            r.observed == (!old(self)@.was_disabled(event) && !from_keyboard(event.kind)),
            r.record == old(self)@.record(event),
    {
        let kind: u32 = event.kind;
        if kind == macos::EVENT_TAP_DISABLED_TIMEOUT || kind == macos::EVENT_TAP_DISABLED_USER_INPUT {
            return DebugOutcome {
                pass: true,
                enable: true,
                stop: false,
                observed: false,
                record: Some(DebugRecord::Disabled { kind }),
            };
        }
        if is_keyboard_event(kind) {
            if self.stopping {
                return DebugOutcome {
                    pass: false,
                    enable: false,
                    stop: false,
                    observed: false,
                    record: None,
                };
            }
            self.count(kind);
            self.stopping = true;
            return DebugOutcome {
                pass: false,
                enable: false,
                stop: true,
                observed: false,
                record: Some(
                    DebugRecord::KeyboardExit { kind, keycode: event.keycode, flags: event.flags },
                ),
            };
        }
        self.count(kind);
        let record = match kind {
            5 | 6 | 7 | 27 => {
                self.motion_x = self.motion_x + event.delta_x;
                self.motion_y = self.motion_y + event.delta_y;
                None
            },
            1 | 2 | 3 | 4 | 25 | 26 => Some(DebugRecord::Button { kind, button: event.button }),
            22 => Some(
                DebugRecord::Scroll {
                    x: event.scroll_x,
                    y: event.scroll_y,
                    continuous: event.continuous,
                    phase: event.phase,
                    momentum: event.momentum,
                },
            ),
            29 | 30 | 31 => Some(DebugRecord::Gesture { kind }),
            _ => Some(DebugRecord::Raw { kind }),
        };
        DebugOutcome { pass: false, enable: false, stop: false, observed: true, record }
    }

    /// What is written when watching has ended: the kinds of events that were seen, and how many
    /// records found no room in the log.
    pub fn final_counts(&self) -> (r: (String, u64))
        ensures
            r.0@ == counts_text(self@.counts),
            r.1 == self@.dropped,
    {
        (event_counts_text(&self.event_counts), self.dropped_logs)
    }

    /// The text of a summary, if it is time for one. The motion counters start anew then.
    pub fn emit_periodic_summary(&mut self, now: u64) -> (r: Option<(String, i64, i64, u64)>)
        ensures
            match r {
                Some((counts, x, y, dropped)) => {
                    &&& now - old(self)@.last_summary >= SUMMARY_INTERVAL
                    &&& counts@ == counts_text(old(self)@.counts)
                    &&& x == old(self)@.motion_x
                    &&& y == old(self)@.motion_y
                    &&& dropped == old(self)@.dropped
                    &&& final(self)@ == (DebugView {
                        motion_x: 0,
                        motion_y: 0,
                        last_summary: now,
                        ..old(self)@
                    })
                },
                None => now - old(self)@.last_summary < SUMMARY_INTERVAL && final(self)@ == old(
                    self,
                )@,
            },
    {
        if now < self.last_summary || now - self.last_summary < SUMMARY_INTERVAL {
            return None;
        }
        let summary = (
            event_counts_text(&self.event_counts),
            self.motion_x,
            self.motion_y,
            self.dropped_logs,
        );
        self.motion_x = 0;
        self.motion_y = 0;
        self.last_summary = now;
        Some(summary)
    }
}

/// An event adds one to the counter of its kind and to no other, if there is one for it; keys
/// after the first and stops of the system add to none.
pub proof fn events_are_counted_by_kind(state: DebugView, event: DebugEvent, kind: int)
    requires
        state.has_room(event),
        0 <= kind < 64,
    ensures
        ({
            let counts = event.kind < 0xffff_fffe && !(10 <= event.kind <= 12 && state.stopping);
            state.after(event).counts[kind] == state.counts[kind] + if kind == event.kind && counts {
                1int
            } else {
                0
            }
        }),
        state.after(event).counts.len() == 64,
        state.after(event).dropped == state.dropped,
{
}

/// Movements add up, and nothing else moves; a movement is not written to the log.
pub proof fn movements_add_up(state: DebugView, event: DebugEvent)
    requires
        state.has_room(event),
    ensures
        ({
            let moves = event.kind == 5 || event.kind == 6 || event.kind == 7 || event.kind == 27;
            &&& moves ==> state.after(event).motion_x - state.motion_x == event.delta_x
                && state.after(event).motion_y - state.motion_y == event.delta_y
            &&& !moves ==> state.after(event).motion_x == state.motion_x && state.after(
                event,
            ).motion_y == state.motion_y
            &&& moves ==> state.record(event) is None
        }),
{
}

/// The first key ends watching and is written to the log as it is; no key after it is. Nothing
/// but a key ends watching.
pub proof fn first_key_ends_watching(state: DebugView, event: DebugEvent)
    ensures
        state.after(event).stopping <==> state.stopping || 10 <= event.kind <= 12,
        10 <= event.kind <= 12 && !state.stopping ==> state.record(event) == Some(
            DebugRecord::KeyboardExit {
                kind: event.kind,
                keycode: event.keycode,
                flags: event.flags,
            },
        ),
        10 <= event.kind <= 12 && state.stopping ==> state.record(event) is None
            && state.after(event) == state,
{
}

/// Every other event is written to the log with what it holds: buttons with their number, scrolls
/// with their amounts and phases, and all others by their kind.
pub proof fn records_hold_the_event(state: DebugView, event: DebugEvent)
    requires
        !(10 <= event.kind <= 12),
        !(event.kind == 5 || event.kind == 6 || event.kind == 7 || event.kind == 27),
    ensures
        match state.record(event) {
            Some(DebugRecord::Button { kind, button }) => kind == event.kind && button
                == event.button && (1 <= kind <= 4 || kind == 25 || kind == 26),
            Some(DebugRecord::Scroll { x, y, continuous, phase, momentum }) => event.kind == 22 && x
                == event.scroll_x && y == event.scroll_y && continuous == event.continuous && phase
                == event.phase && momentum == event.momentum,
            Some(DebugRecord::Gesture { kind }) => kind == event.kind && 29 <= kind <= 31,
            Some(DebugRecord::Disabled { kind }) => kind == event.kind && kind >= 0xffff_fffe,
            Some(DebugRecord::Raw { kind }) => kind == event.kind && kind != 22 && !(1 <= kind <= 4)
                && kind != 25 && kind != 26 && !(29 <= kind <= 31) && kind < 0xffff_fffe,
            _ => false,
        },
{
}

/// The text of the counters names the kinds that were seen and no others: there is a part for
/// each of them, in order.
pub proof fn counters_in_use_are_named(counts: Seq<u64>, kinds: nat)
    requires
        kinds <= counts.len(),
    ensures
        count_parts(counts, kinds).len() == 0 <==> forall|i: int|
            0 <= i < kinds ==> #[trigger] counts[i] == 0,
        kinds > 0 && counts[kinds - 1] != 0 ==> count_parts(counts, kinds).last()
            == text::decimal_text((kinds - 1) as nat) + ":"@ + text::decimal_text(
            counts[kinds - 1] as nat,
        ) && count_parts(counts, kinds).drop_last() == count_parts(counts, (kinds - 1) as nat),
        kinds > 0 && counts[kinds - 1] == 0 ==> count_parts(counts, kinds) == count_parts(
            counts,
            (kinds - 1) as nat,
        ),
    decreases kinds,
{
    if kinds > 0 {
        counters_in_use_are_named(counts, (kinds - 1) as nat);
        if counts[kinds - 1] != 0 {
            assert(count_parts(counts, kinds).drop_last() =~= count_parts(
                counts,
                (kinds - 1) as nat,
            ));
        }
    }
}

} // verus!
