//! The agent's end of the connection: what it does about requests, and what it watches.

use crate::agent_protocol::{
    AgentRequest, AgentResponse, AgentToGuiPacket, ResponseView, AGENT_HEARTBEAT_TIMEOUT,
};
use crate::geometry::Point;
use crate::numeric;
use crate::platform::MotionSample;
use vstd::prelude::*;

verus! {

/// Time between two looks at the desktop, in milliseconds.
pub const DESKTOP_TICK: u64 = 250;

/// Time between two looks at the motion, in milliseconds.
pub const MOTION_TICK: u64 = 8;

/// When the program was last heard of.
#[derive(Clone, Copy, Debug, PartialEq, Eq, Structural)]
pub struct AgentHeartbeat {
    pub last_seen: u64,
}

impl AgentHeartbeat {
    pub fn new(now: u64) -> (r: Self)
        ensures
            r.last_seen == now,
    {
        AgentHeartbeat { last_seen: now }
    }

    pub fn observe(&mut self, now: u64)
        ensures
            final(self).last_seen == now,
    {
        self.last_seen = now;
    }

    /// Whether the program was not heard of for longer than the limit.
    pub fn expired(&self, now: u64) -> (r: bool)
        ensures
            r == (now - self.last_seen > AGENT_HEARTBEAT_TIMEOUT),
    {
        now > self.last_seen && now - self.last_seen > AGENT_HEARTBEAT_TIMEOUT
    }
}

/// Motion of the pointer.
#[derive(Clone, Copy, Debug, PartialEq, Eq, Structural)]
pub struct AgentMotion {
    pub dx: i32,
    pub dy: i32,
    pub position: Option<Point>,
    pub position_updated: bool,
}

/// Two motions as one.
pub open spec fn merged(first: AgentMotion, second: AgentMotion) -> AgentMotion {
    AgentMotion {
        dx: numeric::saturate(first.dx + second.dx) as i32,
        dy: numeric::saturate(first.dy + second.dy) as i32,
        position: if second.position_updated {
            second.position
        } else {
            first.position
        },
        position_updated: first.position_updated || second.position_updated,
    }
}

/// Motion that waits for being written.
#[derive(Clone, Copy, Debug, PartialEq, Eq, Structural)]
pub struct AgentMotionSlot {
    pub latest: Option<AgentMotion>,
    pub changed: bool,
}

impl AgentMotionSlot {
    pub fn new() -> (r: Self)
        ensures
            r == (AgentMotionSlot { latest: None, changed: false }),
    {
        AgentMotionSlot { latest: None, changed: false }
    }

    /// With more motion.
    pub open spec fn stored(self, motion: AgentMotion) -> AgentMotionSlot {
        AgentMotionSlot {
            latest: match self.latest {
                Some(current) => Some(merged(current, motion)),
                None => Some(motion),
            },
            changed: true,
        }
    }

    /// The motion that waits.
    pub open spec fn waiting(self) -> Option<AgentMotion> {
        if self.changed {
            self.latest
        } else {
            None
        }
    }

    /// After the motion that waits was taken.
    pub open spec fn emptied(self) -> AgentMotionSlot {
        if self.changed {
            AgentMotionSlot { latest: None, changed: false }
        } else {
            self
        }
    }

    /// More motion. It is added to what waits already.
    pub fn store_motion(&mut self, motion: AgentMotion)
        ensures
            final(self).changed,
            final(self).latest == match old(self).latest {
                Some(current) => Some(merged(current, motion)),
                None => Some(motion),
            },
            *final(self) == old(self).stored(motion),
    {
        self.latest = match self.latest {
            Some(current) => Some(
                AgentMotion {
                    dx: numeric::saturating_sum(current.dx, motion.dx),
                    dy: numeric::saturating_sum(current.dy, motion.dy),
                    position: if motion.position_updated {
                        motion.position
                    } else {
                        current.position
                    },
                    position_updated: current.position_updated || motion.position_updated,
                },
            ),
            None => Some(motion),
        };
        self.changed = true;
    }

    /// The motion that waits. It waits no longer.
    pub fn take(&mut self) -> (r: Option<AgentMotion>)
        ensures
            r == if old(self).changed {
                old(self).latest
            } else {
                None
            },
            *final(self) == if old(self).changed {
                AgentMotionSlot { latest: None, changed: false }
            } else {
                *old(self)
            },
            r == old(self).waiting(),
            *final(self) == old(self).emptied(),
    {
        if !self.changed {
            return None;
        }
        self.changed = false;
        let motion = self.latest;
        self.latest = None;
        motion
    }
}

/// Motion is not lost by being merged: what is written in one packet is the sum, and the last
/// position that was seen.
pub proof fn merging_keeps_the_sum(first: AgentMotion, second: AgentMotion)
    requires
        i32::MIN <= first.dx + second.dx <= i32::MAX,
        i32::MIN <= first.dy + second.dy <= i32::MAX,
    ensures
        merged(first, second).dx == first.dx + second.dx,
        merged(first, second).dy == first.dy + second.dy,
        second.position_updated ==> merged(first, second).position == second.position,
{
}

/// The motion to write for a sample of it. Without any there is none.
pub open spec fn motion_of(sample: MotionSample) -> Option<AgentMotion> {
    if sample.dx != 0 || sample.dy != 0 || sample.position_updated {
        Some(
            AgentMotion {
                dx: sample.dx,
                dy: sample.dy,
                position: sample.position,
                position_updated: sample.position_updated,
            },
        )
    } else {
        None
    }
}

/// The motion to write for a sample of it. Without any there is none.
pub fn sampled_motion(sample: MotionSample) -> (r: Option<AgentMotion>)
    ensures
        r == if sample.dx != 0 || sample.dy != 0 || sample.position_updated {
            Some(
                AgentMotion {
                    dx: sample.dx,
                    dy: sample.dy,
                    position: sample.position,
                    position_updated: sample.position_updated,
                },
            )
        } else {
            None
        },
        r == motion_of(sample),
{
    if sample.dx != 0 || sample.dy != 0 || sample.position_updated {
        Some(
            AgentMotion {
                dx: sample.dx,
                dy: sample.dy,
                position: sample.position,
                position_updated: sample.position_updated,
            },
        )
    } else {
        None
    }
}

/// What is done about a request.
#[derive(Clone, Copy, Debug, PartialEq, Eq, Structural)]
pub enum RequestPlan {
    /// Start controlling input, after what controls it now was stopped.
    Restart { stop_first: bool },
    /// Stop controlling input.
    Stop { running: bool },
    /// Answer that the agent is there.
    Pong,
    /// Have it done by what controls input.
    Call,
    /// Answer that nothing controls input.
    NotStarted,
}

/// What is done about a look at the desktop.
#[derive(Clone, Copy, Debug, PartialEq, Eq, Structural)]
pub struct TickPlan {
    /// The program is not heard of any more, or is heard of again.
    pub stalled: Option<bool>,
    /// A protected desktop has come, or has gone, which the program is told.
    pub secure: Option<bool>,
    /// Release everything that is held down.
    pub release: bool,
    /// Give the pointer back.
    pub end_capture: bool,
    /// Say which display is the primary one.
    pub with_primary: bool,
}

/// The agent.
#[derive(Clone, Copy, Debug, PartialEq, Eq, Structural)]
pub struct AgentServer {
    pub running: bool,
    pub heartbeat: AgentHeartbeat,
    pub stalled: bool,
    pub secure: bool,
    /// Whether the agent belongs to the system, and may go on on a protected desktop.
    pub is_system: bool,
}

impl AgentServer {
    /// What is done about a request.
    pub open spec fn request_plan(self, request: AgentRequest) -> RequestPlan {
        match request {
            AgentRequest::Start { .. } => RequestPlan::Restart { stop_first: self.running },
            AgentRequest::Stop => RequestPlan::Stop { running: self.running },
            AgentRequest::Health => RequestPlan::Pong,
            _ => if self.running {
                RequestPlan::Call
            } else {
                RequestPlan::NotStarted
            },
        }
    }

    /// Whether the program was not heard of for longer than the limit.
    pub open spec fn silent(self, now: u64) -> bool {
        now - self.heartbeat.last_seen > AGENT_HEARTBEAT_TIMEOUT
    }

    pub open spec fn tick_plan(self, now: u64, secure: bool) -> TickPlan {
        let changed = secure != self.secure;
        TickPlan {
            stalled: if self.silent(now) != self.stalled {
                Some(self.silent(now))
            } else {
                None
            },
            secure: if changed {
                Some(secure)
            } else {
                None
            },
            release: changed && secure && self.running,
            end_capture: changed && secure && self.running && !self.is_system,
            with_primary: changed && secure && self.running,
        }
    }

    /// The state after a request has come.
    pub open spec fn after_request(self, request: AgentRequest, now: u64) -> AgentServer {
        AgentServer {
            running: self.running && !(request is Start || request is Stop),
            heartbeat: AgentHeartbeat { last_seen: now },
            ..self
        }
    }

    /// The state after a look at the desktop.
    pub open spec fn after_tick(self, now: u64, secure: bool) -> AgentServer {
        AgentServer { stalled: self.silent(now), secure, ..self }
    }

    pub fn new(now: u64, is_system: bool) -> (r: Self)
        ensures
            r == (AgentServer {
                running: false,
                heartbeat: AgentHeartbeat { last_seen: now },
                stalled: false,
                secure: false,
                is_system,
            }),
    {
        AgentServer {
            running: false,
            heartbeat: AgentHeartbeat::new(now),
            stalled: false,
            secure: false,
            is_system,
        }
    }

    /// A request has come. It is a sign of life of the program.
    pub fn handle_agent_request(&mut self, request: &AgentRequest, now: u64) -> (r: RequestPlan)
        ensures
            r == old(self).request_plan(*request),
            *final(self) == (AgentServer {
                running: old(self).running && !(request is Start || request is Stop),
                heartbeat: AgentHeartbeat { last_seen: now },
                ..*old(self)
            }),
            *final(self) == old(self).after_request(*request, now),
    {
        self.heartbeat.observe(now);
        let running = self.running;
        match request {
            AgentRequest::Start { .. } => {
                self.running = false;
                RequestPlan::Restart { stop_first: running }
            },
            AgentRequest::Stop => {
                self.running = false;
                RequestPlan::Stop { running }
            },
            AgentRequest::Health => RequestPlan::Pong,
            _ => if running {
                RequestPlan::Call
            } else {
                RequestPlan::NotStarted
            },
        }
    }

    /// Controlling input was started, or could not be.
    pub fn runtime_started(&mut self, succeeded: bool)
        ensures
            *final(self) == (AgentServer { running: succeeded, ..*old(self) }),
    {
        self.running = succeeded;
    }

    /// A request was carried out.
    pub fn request_done(&mut self, now: u64)
        ensures
            *final(self) == (AgentServer {
                heartbeat: AgentHeartbeat { last_seen: now },
                ..*old(self)
            }),
    {
        self.heartbeat.observe(now);
    }

    /// A look at the desktop. `secure` says whether a protected one is shown.
    pub fn desktop_tick(&mut self, now: u64, secure: bool) -> (r: TickPlan)
        ensures
            r == old(self).tick_plan(now, secure),
            *final(self) == (AgentServer {
                stalled: old(self).silent(now),
                secure,
                ..*old(self)
            }),
            *final(self) == old(self).after_tick(now, secure),
    {
        let silent = self.heartbeat.expired(now);
        let stalled = if silent != self.stalled {
            Some(silent)
        } else {
            None
        };
        self.stalled = silent;
        if secure == self.secure {
            return TickPlan {
                stalled,
                secure: None,
                release: false,
                end_capture: false,
                with_primary: false,
            };
        }
        self.secure = secure;
        TickPlan {
            stalled,
            secure: Some(secure),
            release: secure && self.running,
            end_capture: secure && self.running && !self.is_system,
            with_primary: secure && self.running,
        }
    }
}

/// Everything held down is released when a protected desktop comes, and an agent without the
/// rights for it gives the pointer back.
pub proof fn protected_desktop_releases_input(state: AgentServer, now: u64)
    requires
        !state.secure,
        state.running,
    ensures
        state.tick_plan(now, true).release,
        state.tick_plan(now, true).end_capture == !state.is_system,
        state.tick_plan(now, true).secure == Some(true),
{
}

/// Nothing but starting, stopping and asking after the agent is done before it was started.
pub proof fn nothing_is_done_before_the_start(state: AgentServer, request: AgentRequest)
    requires
        !state.running,
    ensures
        !(state.request_plan(request) is Call),
{
}

/// The answer to a request.
pub fn agent_completion_packet(id: u64, response: Result<AgentResponse, String>) -> (r: AgentToGuiPacket)
    ensures
        r matches AgentToGuiPacket::Response { id: number, response: answer } && number == id
            && answer@ == match response {
            Ok(response) => response@,
            Err(message) => ResponseView::Error(message@),
        },
{
    match response {
        Ok(response) => AgentToGuiPacket::Response { id, response },
        Err(message) => AgentToGuiPacket::Response { id, response: AgentResponse::Error(message) },
    }
}

/// The agent takes notice once nothing was heard for more than ten seconds, and not before; any
/// request is a sign of life.
pub proof fn silence_is_noticed_after_ten_seconds(
    state: AgentServer,
    request: AgentRequest,
    heard: u64,
    now: u64,
)
    ensures
        state.silent(now) <==> now > state.heartbeat.last_seen + 10_000,
        now <= heard + 10_000 ==> !state.after_request(request, heard).silent(now),
        now > heard + 10_000 ==> state.after_request(request, heard).silent(now),
{
}

/// Starting and stopping end what runs, which is stopped first where something does; everything
/// else is done while something runs and leaves it running. Asking after the agent is answered in
/// any case.
pub proof fn requests_are_done_while_running(state: AgentServer, request: AgentRequest, now: u64)
    ensures
        ({
            let plan = state.request_plan(request);
            let next = state.after_request(request, now);
            match request {
                AgentRequest::Start { .. } => (plan matches RequestPlan::Restart { stop_first }
                    && stop_first == state.running) && !next.running,
                AgentRequest::Stop => (plan matches RequestPlan::Stop { running } && running
                    == state.running) && !next.running,
                AgentRequest::Health => plan is Pong && next.running == state.running,
                _ => (if state.running {
                    plan is Call
                } else {
                    plan is NotStarted
                }) && next.running == state.running,
            }
        }),
        state.after_request(request, now).secure == state.secure,
        state.after_request(request, now).stalled == state.stalled,
{
}

/// A change is told once: of the desktop, and of the silence of the program. Where nothing has
/// changed nothing is told and nothing done. A protected desktop that goes releases nothing.
pub proof fn changes_are_told_once(state: AgentServer, now: u64, secure: bool)
    ensures
        ({
            let plan = state.tick_plan(now, secure);
            let again = state.after_tick(now, secure).tick_plan(now, secure);
            &&& plan.secure == if secure != state.secure {
                Some(secure)
            } else {
                None
            }
            &&& plan.stalled == if state.silent(now) != state.stalled {
                Some(state.silent(now))
            } else {
                None
            }
            &&& again.secure is None && again.stalled is None
            &&& !again.release && !again.end_capture && !again.with_primary
            &&& plan.release <==> state.running && secure && !state.secure
            &&& plan.end_capture <==> plan.release && !state.is_system
            &&& plan.with_primary <==> plan.release
            &&& state.after_tick(now, secure).running == state.running
        }),
{
}

/// The position of merged motion is the last that was news, and it is news if either was.
pub proof fn merging_keeps_the_last_position(first: AgentMotion, second: AgentMotion)
    ensures
        merged(first, second).position_updated <==> first.position_updated
            || second.position_updated,
        second.position_updated ==> merged(first, second).position == second.position,
        !second.position_updated ==> merged(first, second).position == first.position,
{
}

/// What was sampled is written as it is, exactly where there is something to write: an amount, or
/// news of the position.
pub proof fn samples_are_written_as_they_are(sample: MotionSample)
    ensures
        motion_of(sample) is None <==> sample.dx == 0 && sample.dy == 0 && !sample.position_updated,
        motion_of(sample) matches Some(motion) ==> motion.dx == sample.dx && motion.dy == sample.dy
            && motion.position == sample.position && motion.position_updated
            == sample.position_updated,
{
}

/// Motion that waits is written once, all of it: what was stored since the last time comes out as
/// one motion, and then nothing waits.
pub proof fn motion_is_written_once(slot: AgentMotionSlot, first: AgentMotion, second: AgentMotion)
    requires
        slot.latest is None,
    ensures
        ({
            let one = slot.stored(first);
            let two = one.stored(second);
            &&& one.waiting() == Some(first)
            &&& two.waiting() == Some(merged(first, second))
            &&& two.emptied().waiting() is None
            &&& two.emptied().latest is None
        }),
{
}

} // verus!
