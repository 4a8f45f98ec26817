//! The program's end of the connection to its agent.
//!
//! Requests wait in a queue until one thread writes them, one after the other. Positions of the
//! pointer do not wait: only the latest one is kept, and it is written before anything that
//! depends on it.

use crate::agent_protocol::{
    AgentRequest, AgentResponse, AgentToGuiPacket, ResponseView, CLIENT_HEARTBEAT_INTERVAL,
};
use crate::geometry::{DesktopLayout, Point};
use crate::platform::{NativeEvent, NativeView};
use crate::protocol;
use crate::protocol::KeySnapshot;
use std::collections::BTreeMap;
use vstd::prelude::*;
use vstd::string::*;

verus! {

broadcast use vstd::std_specs::btree::group_btree_axioms;

/// How many requests wait at most.
pub const COMMAND_QUEUE_CAPACITY: usize = 64;

/// The longest time that the writer waits for a request, in milliseconds.
pub const WRITER_POLL: u64 = 50;

/// What came of putting something in the queue.
#[derive(Clone, Copy, Debug, PartialEq, Eq, Structural)]
pub enum QueueOutcome {
    Accepted,
    Full,
    Closed,
}

/// Why a request is not sent.
#[derive(Clone, Copy, Debug, PartialEq, Eq, Structural)]
pub enum ClientError {
    /// The connection to the agent is closed.
    Closed,
    /// A newer session has taken over the agent.
    Superseded,
    /// The queue has no room, or is gone.
    QueueUnavailable,
}

/// What goes into the queue for a notification.
#[derive(Clone, Copy, Debug, PartialEq, Eq, Structural)]
pub enum NotifyPlan {
    Nothing,
    /// A note that there is a new position of the pointer.
    QueueCursor,
    QueueCommand,
}

/// A request that was written and has no answer yet.
#[derive(Clone, Copy, Debug, PartialEq, Eq, Structural)]
pub struct PendingResponse {
    /// Whether it puts the pointer somewhere.
    pub cursor: bool,
    /// Whether somebody waits for the answer.
    pub has_caller: bool,
}

/// Something for the writer.
#[derive(Clone, Copy, Debug, PartialEq, Eq, Structural)]
pub enum WriterEvent {
    /// A request from the queue, and whether the pointer has to be in place for it.
    Command { ordered: bool },
    Cursor,
    Timeout,
    Closed,
}

/// What the writer does, in this order: put the pointer in place, send the request or a sign
/// of life, and count the time to the next sign of life anew.
#[derive(Clone, Copy, Debug, PartialEq, Eq, Structural)]
pub struct WriterPlan {
    pub cursor: Option<Point>,
    pub command: bool,
    pub heartbeat: bool,
    pub rearm: bool,
    pub stop: bool,
}

/// What a packet of the agent leads to.
#[derive(Debug)]
#[allow(inconsistent_fields)]
pub enum ReaderAction {
    Nothing,
    /// The answer to a request, and what is reported of it.
    Deliver { id: u64, response: AgentResponse, has_caller: bool, report: Option<NativeEvent> },
    Report(NativeEvent),
    AddMotion { dx: i32, dy: i32 },
    AddMotionAt { dx: i32, dy: i32, position: Point },
}

/// What a packet of the agent leads to.
#[allow(inconsistent_fields)]
pub enum ReaderView {
    Nothing,
    Deliver { id: u64, response: ResponseView, has_caller: bool, report: Option<NativeView> },
    Report(NativeView),
    AddMotion { dx: i32, dy: i32 },
    AddMotionAt { dx: i32, dy: i32, position: Point },
}

impl View for ReaderAction {
    type V = ReaderView;

    open spec fn view(&self) -> ReaderView {
        match *self {
            ReaderAction::Nothing => ReaderView::Nothing,
            ReaderAction::Deliver { id, response, has_caller, report } => ReaderView::Deliver {
                id,
                response: response@,
                has_caller,
                report: match report {
                    Some(event) => Some(event@),
                    None => None,
                },
            },
            ReaderAction::Report(event) => ReaderView::Report(event@),
            ReaderAction::AddMotion { dx, dy } => ReaderView::AddMotion { dx, dy },
            ReaderAction::AddMotionAt { dx, dy, position } => ReaderView::AddMotionAt {
                dx,
                dy,
                position,
            },
        }
    }
}

/// The connection to an agent.
#[derive(Debug)]
pub struct AgentClient {
    alive: bool,
    in_session: bool,
    next_lease: u64,
    active_lease: u64,
    latest_cursor: Option<Point>,
    cursor_queued: bool,
    pending: BTreeMap<u64, PendingResponse>,
    next_id: u64,
    next_heartbeat: u64,
}

/// The state of a connection.
pub struct ClientView {
    pub alive: bool,
    /// Whether a session uses the agent.
    pub in_session: bool,
    pub next_lease: u64,
    /// The session that the agent belongs to; zero for none.
    pub active_lease: u64,
    /// The position of the pointer that was not written yet.
    pub cursor: Option<Point>,
    /// Whether the queue holds a note of it.
    pub cursor_queued: bool,
    pub pending: Map<u64, PendingResponse>,
    pub next_id: u64,
    pub next_heartbeat: u64,
}

impl View for AgentClient {
    type V = ClientView;

    closed spec fn view(&self) -> ClientView {
        ClientView {
            alive: self.alive,
            in_session: self.in_session,
            next_lease: self.next_lease,
            active_lease: self.active_lease,
            cursor: self.latest_cursor,
            cursor_queued: self.cursor_queued,
            pending: self.pending@,
            next_id: self.next_id,
            next_heartbeat: self.next_heartbeat,
        }
    }
}

/// A time some milliseconds later, held inside the 64-bit range.
pub open spec fn later(now: u64, millis: u64) -> u64 {
    if now + millis > u64::MAX {
        u64::MAX
    } else {
        (now + millis) as u64
    }
}

fn later_than(now: u64, millis: u64) -> (r: u64)
    ensures
        r == later(now, millis),
{
    if now > u64::MAX - millis {
        u64::MAX
    } else {
        now + millis
    }
}

/// The number after another one; the first one after the last.
pub open spec fn wrapping_next(n: u64) -> u64 {
    if n == u64::MAX {
        0
    } else {
        (n + 1) as u64
    }
}

/// What is reported of a position that the agent could not put the pointer at.
pub open spec fn cursor_failure_text(message: Seq<char>) -> Seq<char> {
    "Windows input agent cursor injection failed: "@ + message
}

impl ClientView {
    /// Whether every request that waits for an answer has an earlier number than the next one.
    pub open spec fn sound(self) -> bool {
        self.next_id < u64::MAX ==> forall|id: u64| #[trigger]
            self.pending.contains_key(id) ==> id < self.next_id
    }

    /// What a backend with a lease may do.
    pub open spec fn lease_check(self, lease: u64) -> Result<(), ClientError> {
        if self.active_lease != lease {
            Err(ClientError::Superseded)
        } else if !self.alive {
            Err(ClientError::Closed)
        } else {
            Ok(())
        }
    }

    /// After a session has taken over the agent.
    pub open spec fn taken_over(self) -> ClientView {
        ClientView {
            next_lease: wrapping_next(self.next_lease),
            active_lease: self.next_lease,
            in_session: true,
            ..self
        }
    }

    /// After the backend with a lease has gone. The backend of an earlier session changes nothing.
    pub open spec fn left_by(self, lease: u64) -> ClientView {
        if self.active_lease == lease {
            ClientView { active_lease: 0, in_session: false, ..self }
        } else {
            self
        }
    }

    /// After the position of the pointer was written.
    pub open spec fn flushed(self) -> ClientView {
        ClientView { cursor: None, cursor_queued: false, ..self }
    }

    pub open spec fn after_notify(self, request: AgentRequest) -> ClientView {
        match request {
            AgentRequest::InjectCursor(point) => if self.alive {
                ClientView { cursor: Some(point), cursor_queued: true, ..self }
            } else {
                self
            },
            _ => self,
        }
    }

    pub open spec fn notify_plan(self, request: AgentRequest) -> Result<NotifyPlan, ClientError> {
        if !self.alive {
            Err(ClientError::Closed)
        } else if !(request is InjectCursor) {
            Ok(NotifyPlan::QueueCommand)
        } else if self.cursor_queued {
            Ok(NotifyPlan::Nothing)
        } else {
            Ok(NotifyPlan::QueueCursor)
        }
    }

    /// What the writer does about an event, and the state after it.
    pub open spec fn writer_plan(self, event: WriterEvent, now: u64) -> (ClientView, WriterPlan) {
        let idle = WriterPlan {
            cursor: None,
            command: false,
            heartbeat: false,
            rearm: false,
            stop: false,
        };
        match event {
            WriterEvent::Command { ordered } => if ordered {
                (
                    self.flushed(),
                    WriterPlan { cursor: self.cursor, command: true, rearm: true, ..idle },
                )
            } else {
                (self, WriterPlan { command: true, rearm: true, ..idle })
            },
            WriterEvent::Cursor => (
                self.flushed(),
                WriterPlan { cursor: self.cursor, rearm: true, ..idle },
            ),
            WriterEvent::Timeout => {
                let due = now >= self.next_heartbeat;
                (
                    self.flushed(),
                    WriterPlan { cursor: self.cursor, heartbeat: due, rearm: due, ..idle },
                )
            },
            WriterEvent::Closed => (self, WriterPlan { stop: true, ..idle }),
        }
    }

    /// What an answer leads to. Answers to requests that nobody knows lead to nothing.
    pub open spec fn delivery(self, id: u64, response: ResponseView) -> ReaderView {
        if self.pending.contains_key(id) {
            let waiting = self.pending[id];
            ReaderView::Deliver {
                id,
                response,
                has_caller: waiting.has_caller,
                report: match response {
                    ResponseView::Error(message) => if waiting.cursor && self.in_session {
                        Some(NativeView::Failed(cursor_failure_text(message)))
                    } else {
                        None
                    },
                    _ => None,
                },
            }
        } else {
            ReaderView::Nothing
        }
    }

    /// What a packet leads to. Some packets have no place here.
    pub open spec fn packet_action(self, packet: AgentToGuiPacket) -> Option<ReaderView> {
        match packet {
            AgentToGuiPacket::Response { id, response } => Some(self.delivery(id, response@)),
            AgentToGuiPacket::Event(event) => Some(
                if self.in_session {
                    ReaderView::Report(event@)
                } else {
                    ReaderView::Nothing
                },
            ),
            AgentToGuiPacket::Motion { dx, dy, position, position_updated } => Some(
                if !self.in_session {
                    ReaderView::Nothing
                } else if !position_updated {
                    ReaderView::AddMotion { dx, dy }
                } else {
                    match position {
                        Some(position) => ReaderView::AddMotionAt { dx, dy, position },
                        None => ReaderView::Nothing,
                    }
                },
            ),
            AgentToGuiPacket::SecureDesktopPaused(paused) => Some(
                if self.in_session && paused {
                    ReaderView::Report(NativeView::Emergency)
                } else {
                    ReaderView::Nothing
                },
            ),
            AgentToGuiPacket::SecureDesktopChanged { secure, primary } => Some(
                if self.in_session {
                    ReaderView::Report(NativeView::SecureDesktop { active: secure, primary })
                } else {
                    ReaderView::Nothing
                },
            ),
            _ => None,
        }
    }

    /// After a request was written.
    pub open spec fn registered(self, cursor: bool, has_caller: bool) -> ClientView {
        ClientView {
            pending: self.pending.insert(self.next_id, PendingResponse { cursor, has_caller }),
            next_id: if self.next_id == u64::MAX {
                self.next_id
            } else {
                (self.next_id + 1) as u64
            },
            ..self
        }
    }

    /// After the note of a position was put in the queue, or could not be.
    pub open spec fn note_result(self, outcome: QueueOutcome) -> ClientView {
        match outcome {
            QueueOutcome::Accepted => self,
            QueueOutcome::Full => ClientView { cursor_queued: false, ..self },
            QueueOutcome::Closed => ClientView { cursor_queued: false, alive: false, ..self },
        }
    }

    /// How long the writer waits, in milliseconds.
    pub open spec fn wait(self, now: u64) -> int {
        if now >= self.next_heartbeat {
            0
        } else if self.next_heartbeat - now < WRITER_POLL {
            self.next_heartbeat - now
        } else {
            WRITER_POLL as int
        }
    }

    pub open spec fn after_packet(self, packet: AgentToGuiPacket) -> ClientView {
        match packet {
            AgentToGuiPacket::Response { id, .. } => ClientView {
                pending: self.pending.remove(id),
                ..self
            },
            _ => self,
        }
    }
}

impl AgentClient {
    pub fn new(now: u64) -> (r: Self)
        ensures
            r@ == (ClientView {
                alive: true,
                in_session: false,
                next_lease: 1,
                active_lease: 0,
                cursor: None,
                cursor_queued: false,
                pending: Map::empty(),
                next_id: 1,
                next_heartbeat: later(now, CLIENT_HEARTBEAT_INTERVAL),
            }),
            r@.sound(),
    {
        let r = AgentClient {
            alive: true,
            in_session: false,
            next_lease: 1,
            active_lease: 0,
            latest_cursor: None,
            cursor_queued: false,
            pending: BTreeMap::new(),
            next_id: 1,
            next_heartbeat: later_than(now, CLIENT_HEARTBEAT_INTERVAL),
        };
        assert(r@.pending =~= Map::empty());
        r
    }

    /// Whether the connection is open.
    pub fn is_alive(&self) -> (r: bool)
        ensures
            r == self@.alive,
    {
        self.alive
    }

    /// The connection is of no use any more. Gives whether that is news.
    pub fn mark_unavailable(&mut self) -> (r: bool)
        ensures
            r == old(self)@.alive,
            final(self)@ == (ClientView { alive: false, ..old(self)@ }),
    {
        let news = self.alive;
        self.alive = false;
        news
    }

    /// A request was put in the queue, or could not be.
    pub fn request_queued(&mut self, outcome: QueueOutcome) -> (r: Result<(), ClientError>)
        ensures
            r == match outcome {
                QueueOutcome::Accepted => Ok::<(), ClientError>(()),
                _ => Err(ClientError::QueueUnavailable),
            },
            final(self)@ == if outcome is Closed {
                ClientView { alive: false, ..old(self)@ }
            } else {
                old(self)@
            },
    {
        match outcome {
            QueueOutcome::Accepted => Ok(()),
            QueueOutcome::Full => Err(ClientError::QueueUnavailable),
            QueueOutcome::Closed => {
                self.alive = false;
                Err(ClientError::QueueUnavailable)
            },
        }
    }

    /// A request without an answer. Of the positions of the pointer only the latest counts, so
    /// that the queue holds at most one note of them.
    pub fn notify(&mut self, request: &AgentRequest) -> (r: Result<NotifyPlan, ClientError>)
        ensures
            r == old(self)@.notify_plan(*request),
            final(self)@ == old(self)@.after_notify(*request),
    {
        if !self.alive {
            return Err(ClientError::Closed);
        }
        match request {
            AgentRequest::InjectCursor(point) => {
                self.latest_cursor = Some(*point);
                if self.cursor_queued {
                    Ok(NotifyPlan::Nothing)
                } else {
                    self.cursor_queued = true;
                    Ok(NotifyPlan::QueueCursor)
                }
            },
            _ => Ok(NotifyPlan::QueueCommand),
        }
    }

    /// The note of a position was put in the queue, or could not be.
    pub fn cursor_note_queued(&mut self, outcome: QueueOutcome)
        ensures
            final(self)@ == match outcome {
                QueueOutcome::Accepted => old(self)@,
                QueueOutcome::Full => ClientView { cursor_queued: false, ..old(self)@ },
                QueueOutcome::Closed => ClientView {
                    cursor_queued: false,
                    alive: false,
                    ..old(self)@
                },
            },
            final(self)@ == old(self)@.note_result(outcome),
    {
        match outcome {
            QueueOutcome::Accepted => {},
            QueueOutcome::Full => {
                self.cursor_queued = false;
            },
            QueueOutcome::Closed => {
                self.cursor_queued = false;
                self.alive = false;
            },
        }
    }

    /// A session takes over the agent. Gives its lease.
    pub fn open_lease(&mut self) -> (r: u64)
        ensures
            r == old(self)@.next_lease,
            final(self)@ == old(self)@.taken_over(),
    {
        let lease: u64 = self.next_lease;
        self.next_lease = if lease == u64::MAX {
            0
        } else {
            lease + 1
        };
        self.active_lease = lease;
        self.in_session = true;
        lease
    }

    /// What a backend with a lease may do: nothing once another session has the agent.
    pub fn check_lease(&self, lease: u64) -> (r: Result<(), ClientError>)
        ensures
            r == self@.lease_check(lease),
    {
        if self.active_lease != lease {
            return Err(ClientError::Superseded);
        }
        if !self.alive {
            return Err(ClientError::Closed);
        }
        Ok(())
    }

    /// A backend goes away. Gives whether the agent is to be stopped: not where another session
    /// has it.
    pub fn close_lease(&mut self, lease: u64) -> (r: bool)
        ensures
            r == (old(self)@.active_lease == lease),
            final(self)@ == old(self)@.left_by(lease),
    {
        if self.active_lease != lease {
            return false;
        }
        self.active_lease = 0;
        self.in_session = false;
        true
    }

    /// A request is written. Gives its number.
    pub fn register(&mut self, cursor: bool, has_caller: bool) -> (r: u64)
        ensures
            r == old(self)@.next_id,
            final(self)@ == (ClientView {
                pending: old(self)@.pending.insert(r, PendingResponse { cursor, has_caller }),
                next_id: if r == u64::MAX {
                    r
                } else {
                    (r + 1) as u64
                },
                ..old(self)@
            }),
            final(self)@ == old(self)@.registered(cursor, has_caller),
            old(self)@.sound() ==> final(self)@.sound(),
    {
        let id: u64 = self.next_id;
        self.next_id = if id == u64::MAX {
            id
        } else {
            id + 1
        };
        self.pending.insert(id, PendingResponse { cursor, has_caller });
        id
    }

    /// No answer to a request is waited for any more. Gives who is told, if the answer has not
    /// come meanwhile.
    pub fn give_up(&mut self, id: u64) -> (r: Option<PendingResponse>)
        ensures
            r == if old(self)@.pending.contains_key(id) {
                Some(old(self)@.pending[id])
            } else {
                None
            },
            final(self)@ == (ClientView { pending: old(self)@.pending.remove(id), ..old(self)@ }),
            old(self)@.sound() ==> final(self)@.sound(),
    {
        let r = self.pending.remove(&id);
        assert(self@.pending =~= old(self)@.pending.remove(id));
        r
    }

    /// The connection has failed. All requests without an answer have failed with it. Gives
    /// whether the session is told: the first time only.
    pub fn fail_transport(&mut self) -> (r: bool)
        ensures
            r == (old(self)@.alive && old(self)@.in_session),
            final(self)@ == (ClientView { alive: false, pending: Map::empty(), ..old(self)@ }),
            final(self)@.sound(),
    {
        let first = self.alive;
        self.alive = false;
        self.pending.clear();
        assert(self@.pending =~= Map::empty());
        first && self.in_session
    }

    /// How long the writer waits for the next request, in milliseconds.
    pub fn writer_wait(&self, now: u64) -> (r: u64)
        ensures
            r == if now >= self@.next_heartbeat {
                0int
            } else if self@.next_heartbeat - now < WRITER_POLL {
                self@.next_heartbeat - now
            } else {
                WRITER_POLL as int
            },
            r == self@.wait(now),
    {
        if now >= self.next_heartbeat {
            return 0;
        }
        let wait: u64 = self.next_heartbeat - now;
        if wait < WRITER_POLL {
            wait
        } else {
            WRITER_POLL
        }
    }

    fn take_cursor(&mut self) -> (r: Option<Point>)
        ensures
            r == old(self)@.cursor,
            final(self)@ == old(self)@.flushed(),
    {
        self.cursor_queued = false;
        let point = self.latest_cursor;
        self.latest_cursor = None;
        point
    }

    /// Something for the writer.
    pub fn writer_step(&mut self, event: WriterEvent, now: u64) -> (r: WriterPlan)
        ensures
            (final(self)@, r) == old(self)@.writer_plan(event, now),
            old(self)@.sound() ==> final(self)@.sound(),
    {
        match event {
            WriterEvent::Command { ordered } => {
                let cursor = if ordered {
                    self.take_cursor()
                } else {
                    None
                };
                WriterPlan { cursor, command: true, heartbeat: false, rearm: true, stop: false }
            },
            WriterEvent::Cursor => WriterPlan {
                cursor: self.take_cursor(),
                command: false,
                heartbeat: false,
                rearm: true,
                stop: false,
            },
            WriterEvent::Timeout => {
                let due = now >= self.next_heartbeat;
                WriterPlan {
                    cursor: self.take_cursor(),
                    command: false,
                    heartbeat: due,
                    rearm: due,
                    stop: false,
                }
            },
            WriterEvent::Closed => WriterPlan {
                cursor: None,
                command: false,
                heartbeat: false,
                rearm: false,
                stop: true,
            },
        }
    }

    /// The time to the next sign of life counts anew.
    pub fn rearm(&mut self, now: u64)
        ensures
            final(self)@ == (ClientView {
                next_heartbeat: later(now, CLIENT_HEARTBEAT_INTERVAL),
                ..old(self)@
            }),
    {
        self.next_heartbeat = later_than(now, CLIENT_HEARTBEAT_INTERVAL);
    }

    fn deliver(&mut self, id: u64, response: AgentResponse) -> (r: ReaderAction)
        ensures
            r@ == old(self)@.delivery(id, response@),
            final(self)@ == (ClientView { pending: old(self)@.pending.remove(id), ..old(self)@ }),
    {
        let waiting = match self.give_up(id) {
            Some(waiting) => waiting,
            None => return ReaderAction::Nothing,
        };
        let report = match &response {
            AgentResponse::Error(message) => if waiting.cursor && self.in_session {
                let mut text = "Windows input agent cursor injection failed: ".to_owned();
                text.append(message.as_str());
                Some(NativeEvent::Failed(text))
            } else {
                None
            },
            _ => None,
        };
        ReaderAction::Deliver { id, response, has_caller: waiting.has_caller, report }
    }

    /// A packet of the agent. Gives nothing for a packet that has no place here.
    pub fn handle_packet(&mut self, packet: AgentToGuiPacket) -> (r: Option<ReaderAction>)
        ensures
            match r {
                Some(action) => Some(action@) == old(self)@.packet_action(packet),
                None => old(self)@.packet_action(packet) is None,
            },
            final(self)@ == old(self)@.after_packet(packet),
            old(self)@.sound() ==> final(self)@.sound(),
    {
        match packet {
            AgentToGuiPacket::Response { id, response } => Some(self.deliver(id, response)),
            AgentToGuiPacket::Event(event) => Some(
                if self.in_session {
                    ReaderAction::Report(event)
                } else {
                    ReaderAction::Nothing
                },
            ),
            AgentToGuiPacket::Motion { dx, dy, position, position_updated } => {
                if !self.in_session {
                    return Some(ReaderAction::Nothing);
                }
                if !position_updated {
                    return Some(ReaderAction::AddMotion { dx, dy });
                }
                match position {
                    Some(position) => Some(ReaderAction::AddMotionAt { dx, dy, position }),
                    None => Some(ReaderAction::Nothing),
                }
            },
            AgentToGuiPacket::SecureDesktopPaused(paused) => Some(
                if self.in_session && paused {
                    ReaderAction::Report(NativeEvent::Emergency)
                } else {
                    ReaderAction::Nothing
                },
            ),
            AgentToGuiPacket::SecureDesktopChanged { secure, primary } => Some(
                if self.in_session {
                    ReaderAction::Report(NativeEvent::SecureDesktop { active: secure, primary })
                } else {
                    ReaderAction::Nothing
                },
            ),
            _ => None,
        }
    }
}

/// What an answer means to who asked: an error, or something else.
pub fn settle_response(response: AgentResponse) -> (r: Result<AgentResponse, String>)
    ensures
        match response@ {
            ResponseView::Error(message) => r matches Err(text) && text@ == message,
            _ => r == Ok::<AgentResponse, String>(response),
        },
{
    match response {
        AgentResponse::Error(message) => Err(message),
        other => Ok(other),
    }
}

/// The layout in the answer to a start. Other answers have none.
pub fn started_layout(response: AgentResponse) -> (r: Option<DesktopLayout>)
    ensures
        match response@ {
            ResponseView::Started { displays, .. } => r matches Some(layout) && layout@ == displays,
            _ => r is None,
        },
{
    match response {
        AgentResponse::Started { layout, .. } => Some(layout),
        _ => None,
    }
}

/// The position in the answer to a question for it. Other answers have none.
pub fn cursor_point(response: AgentResponse) -> (r: Option<Point>)
    ensures
        r == match response@ {
            ResponseView::Point(point) => Some(point),
            _ => None,
        },
{
    match response {
        AgentResponse::Point(point) => Some(point),
        _ => None,
    }
}

/// What is down by the answer to a question for it; nothing by any other answer, or by none.
pub fn snapshot_of(response: Option<AgentResponse>) -> (r: KeySnapshot)
    ensures
        r@ == match response {
            Some(response) => match response@ {
                ResponseView::Snapshot(snapshot) => snapshot,
                _ => protocol::empty_view(),
            },
            None => protocol::empty_view(),
        },
{
    match response {
        Some(AgentResponse::Snapshot(snapshot)) => snapshot,
        _ => protocol::empty_snapshot(),
    }
}

/// Of many positions only the latest is written, and the queue holds one note of them.
pub proof fn latest_position_wins(state: ClientView, first: Point, second: Point)
    requires
        state.alive,
        !state.cursor_queued,
    ensures
        ({
            let one = state.after_notify(AgentRequest::InjectCursor(first));
            let two = one.after_notify(AgentRequest::InjectCursor(second));
            &&& state.notify_plan(AgentRequest::InjectCursor(first)) == Ok::<NotifyPlan, ClientError>(NotifyPlan::QueueCursor)
            &&& one.notify_plan(AgentRequest::InjectCursor(second)) == Ok::<NotifyPlan, ClientError>(NotifyPlan::Nothing)
            &&& two.writer_plan(WriterEvent::Cursor, 0).1.cursor == Some(second)
            &&& two.writer_plan(WriterEvent::Cursor, 0).0.cursor is None
        }),
{
}

/// Buttons and wheels are written after the position that they belong to.
pub proof fn position_goes_before_ordered_requests(state: ClientView, request: AgentRequest, now: u64)
    requires
        request.ordered(),
    ensures
        ({
            let plan = state.writer_plan(WriterEvent::Command { ordered: request.ordered() }, now);
            &&& plan.1.cursor == state.cursor
            &&& plan.1.command
            &&& plan.0.cursor is None
        }),
{
}

/// A request has one answer at most: the second one leads to nothing.
pub proof fn requests_are_answered_once(state: ClientView, id: u64, second: ResponseView)
    ensures
        ({
            let answered = ClientView { pending: state.pending.remove(id), ..state };
            answered.delivery(id, second) is Nothing
        }),
{
}

/// Requests are numbered one after the other, so that no two of them that wait have the same
/// number.
pub proof fn numbers_are_new(state: ClientView)
    requires
        state.sound(),
        state.next_id < u64::MAX,
    ensures
        !state.pending.contains_key(state.next_id),
{
}

/// A backend that was superseded can neither ask for anything nor stop the agent.
pub proof fn superseded_backends_are_shut_out(state: ClientView, lease: u64)
    requires
        state.active_lease != lease,
    ensures
        state.lease_check(lease) == Err::<(), ClientError>(ClientError::Superseded),
        state.left_by(lease) == state,
{
}

/// A new lease supersedes the one before it.
pub proof fn new_lease_supersedes(state: ClientView)
    ensures
        state.taken_over().taken_over().lease_check(state.next_lease) == Err::<(), ClientError>(
            ClientError::Superseded,
        ),
{
}

/// How far the two pipes to a new agent have come.
#[derive(Clone, Copy, Debug, PartialEq, Eq, Structural)]
pub struct TransportStart {
    pub created: u32,
    pub failed: bool,
    pub ready: bool,
}

/// What is done next about a new agent.
#[derive(Clone, Copy, Debug, PartialEq, Eq, Structural)]
pub enum StartAction {
    Wait,
    /// Both pipes are there: the agent can be started.
    Launch,
    /// The agent is there.
    Use,
    GiveUp,
}

impl TransportStart {
    pub fn new() -> (r: Self)
        ensures
            r == (TransportStart { created: 0, failed: false, ready: false }),
    {
        TransportStart { created: 0, failed: false, ready: false }
    }

    /// After a pipe was made, or could not be.
    pub open spec fn after_pipe(self, succeeded: bool) -> TransportStart {
        TransportStart {
            created: if succeeded && !self.failed {
                (self.created + 1) as u32
            } else {
                self.created
            },
            failed: self.failed || !succeeded,
            ..self
        }
    }

    /// What follows once a pipe was made, or could not be.
    pub open spec fn pipe_action(self) -> StartAction {
        if self.failed {
            StartAction::GiveUp
        } else if self.created == 2 {
            StartAction::Launch
        } else {
            StartAction::Wait
        }
    }

    /// After the handshake.
    pub open spec fn after_handshake(self, succeeded: bool) -> TransportStart {
        TransportStart {
            failed: self.failed || !succeeded,
            ready: succeeded && !self.failed,
            ..self
        }
    }

    /// A pipe was made, or could not be. The agent is started once both are there.
    pub fn pipe_created(&mut self, succeeded: bool) -> (r: StartAction)
        requires
            old(self).created < 2,
        ensures
            *final(self) == (TransportStart {
                created: if succeeded && !old(self).failed {
                    (old(self).created + 1) as u32
                } else {
                    old(self).created
                },
                failed: old(self).failed || !succeeded,
                ..*old(self)
            }),
            r == if final(self).failed {
                StartAction::GiveUp
            } else if final(self).created == 2 {
                StartAction::Launch
            } else {
                StartAction::Wait
            },
            *final(self) == old(self).after_pipe(succeeded),
            r == final(self).pipe_action(),
    {
        if !succeeded {
            self.failed = true;
        }
        if self.failed {
            return StartAction::GiveUp;
        }
        self.created = self.created + 1;
        if self.created == 2 {
            StartAction::Launch
        } else {
            StartAction::Wait
        }
    }

    /// The handshake with the agent has ended, or the agent was not heard of in time.
    pub fn handshake_ended(&mut self, succeeded: bool) -> (r: StartAction)
        ensures
            *final(self) == (TransportStart {
                failed: old(self).failed || !succeeded,
                ready: succeeded && !old(self).failed,
                ..*old(self)
            }),
            r == if final(self).ready {
                StartAction::Use
            } else {
                StartAction::GiveUp
            },
            *final(self) == old(self).after_handshake(succeeded),
    {
        if !succeeded {
            self.failed = true;
        }
        self.ready = !self.failed;
        if self.ready {
            StartAction::Use
        } else {
            StartAction::GiveUp
        }
    }
}

/// What the program remembers of its agent.
#[derive(Clone, Copy, Debug, PartialEq, Eq, Structural)]
pub struct ElevationState {
    /// Whether there is an agent that can be reached.
    pub connected: bool,
    /// Whether more rights were asked for, with success.
    pub requested: bool,
}

/// How the agent is started.
#[derive(Clone, Copy, Debug, PartialEq, Eq, Structural)]
pub enum AgentLaunch {
    /// With the rights that this program has already.
    OwnRights,
    /// With more rights, for which the user is asked.
    AskUser,
}

/// Whether there is an agent that can be reached.
pub fn windows_input_agent_ready(state: &ElevationState) -> (r: bool)
    ensures
        r == state.connected,
{
    state.connected
}

/// Whether more rights were asked for.
pub fn windows_input_elevation_requested(state: &ElevationState) -> (r: bool)
    ensures
        r == state.requested,
{
    state.requested
}

/// Asking for more rights. An agent that is there and answers is enough; one that does not
/// answer is given up, and another one is started. `healthy` says whether it has answered.
pub fn request_elevation(state: &mut ElevationState, healthy: bool, elevated: bool) -> (r: Option<
    AgentLaunch,
>)
    ensures
        r == if old(state).connected && healthy {
            None
        } else if elevated {
            Some(AgentLaunch::OwnRights)
        } else {
            Some(AgentLaunch::AskUser)
        },
        *final(state) == if old(state).connected && healthy {
            *old(state)
        } else {
            ElevationState { connected: false, ..*old(state) }
        },
{
    if state.connected && healthy {
        return None;
    }
    state.connected = false;
    if elevated {
        Some(AgentLaunch::OwnRights)
    } else {
        Some(AgentLaunch::AskUser)
    }
}

/// The agent was started, and is there.
pub fn elevation_granted(state: &mut ElevationState)
    ensures
        *final(state) == (ElevationState { connected: true, requested: true }),
{
    state.connected = true;
    state.requested = true;
}

/// An answer reaches the request that it names, as it is, and that request waits no longer; all
/// others go on waiting. An answer to no request that waits leads to nothing.
pub proof fn answers_reach_their_request(
    state: ClientView,
    id: u64,
    response: AgentResponse,
    other: u64,
)
    ensures
        ({
            let packet = AgentToGuiPacket::Response { id, response };
            let next = state.after_packet(packet);
            &&& !next.pending.contains_key(id)
            &&& other != id ==> next.pending.contains_key(other) == state.pending.contains_key(other)
                && (state.pending.contains_key(other) ==> next.pending[other]
                == state.pending[other])
            &&& state.pending.contains_key(id) ==> (state.packet_action(packet) matches Some(
                ReaderView::Deliver { id: number, response: answer, has_caller, .. },
            ) && number == id && answer == response@ && has_caller == state.pending[id].has_caller)
            &&& !state.pending.contains_key(id) ==> state.packet_action(packet) == Some(
                ReaderView::Nothing,
            )
        }),
{
}

/// An answer is reported to the session exactly where it says that the pointer could not be put
/// somewhere, and where there is a session; the report holds what the agent said.
pub proof fn failed_positions_are_reported(state: ClientView, id: u64, response: AgentResponse)
    requires
        state.pending.contains_key(id),
    ensures
        state.packet_action(AgentToGuiPacket::Response { id, response }) matches Some(
            ReaderView::Deliver { report, .. },
        ) && ({
            &&& report is Some <==> response@ is Error && state.pending[id].cursor
                && state.in_session
            &&& report matches Some(event) ==> (response@ matches ResponseView::Error(message)
                && (event matches NativeView::Failed(text) && text.len() >= message.len()
                && text.skip(text.len() - message.len()) == message))
        }),
{
    if let ResponseView::Error(message) = response@ {
        let text = cursor_failure_text(message);
        assert(text.skip(text.len() - message.len()) =~= message);
    }
}

/// What happens on the agent's side reaches the session as it is: events, the amount of each
/// movement, and where the pointer is exactly if that is news. Without a session nothing of it
/// does.
pub proof fn events_reach_the_session(state: ClientView, packet: AgentToGuiPacket)
    requires
        !(packet is Response),
    ensures
        state.after_packet(packet) == state,
        !state.in_session ==> state.packet_action(packet) is None || state.packet_action(packet)
            == Some(ReaderView::Nothing),
        state.in_session ==> match packet {
            AgentToGuiPacket::Event(event) => state.packet_action(packet) == Some(
                ReaderView::Report(event@),
            ),
            AgentToGuiPacket::Motion { dx, dy, position, position_updated } => match state.packet_action(
                packet,
            ) {
                Some(ReaderView::AddMotion { dx: x, dy: y }) => !position_updated && x == dx && y
                    == dy,
                Some(ReaderView::AddMotionAt { dx: x, dy: y, position: at }) => position_updated && x
                    == dx && y == dy && position == Some(at),
                Some(ReaderView::Nothing) => position_updated && position is None,
                _ => false,
            },
            AgentToGuiPacket::SecureDesktopChanged { secure, primary } => state.packet_action(packet)
                == Some(
                ReaderView::Report(NativeView::SecureDesktop { active: secure, primary }),
            ),
            AgentToGuiPacket::SecureDesktopPaused(paused) => state.packet_action(packet) == Some(
                if paused {
                    ReaderView::Report(NativeView::Emergency)
                } else {
                    ReaderView::Nothing
                },
            ),
            _ => true,
        },
{
}

/// The writer writes each request that it gets, and with it the latest position wherever the
/// pointer has to be in place; a position never waits longer than to the next time-out. A sign of
/// life goes out when it is due and nothing else came, and every packet that goes out counts as
/// one. Only a closed queue stops the writer.
pub proof fn writer_writes_everything(state: ClientView, event: WriterEvent, now: u64)
    ensures
        ({
            let (next, plan) = state.writer_plan(event, now);
            &&& plan.command <==> event is Command
            &&& plan.stop <==> event is Closed
            &&& plan.heartbeat <==> event is Timeout && now >= state.next_heartbeat
            &&& plan.rearm <==> plan.command || event is Cursor || plan.heartbeat
            &&& event is Cursor || event is Timeout || event == (WriterEvent::Command {
                ordered: true,
            }) ==> plan.cursor == state.cursor && next.cursor is None && !next.cursor_queued
            &&& event is Closed || event == (WriterEvent::Command { ordered: false }) ==> plan.cursor
                is None && next.cursor == state.cursor && next.cursor_queued == state.cursor_queued
            &&& next.pending == state.pending && next.alive == state.alive && next.active_lease
                == state.active_lease
        }),
{
}

/// A position that was asked for is written, with the next note of the queue or before, and what
/// is asked for otherwise is put in the queue. A closed connection takes nothing.
pub proof fn notifications_are_queued(state: ClientView, request: AgentRequest)
    ensures
        !state.alive ==> state.notify_plan(request) == Err::<NotifyPlan, ClientError>(
            ClientError::Closed,
        ) && state.after_notify(request) == state,
        state.alive ==> match request {
            AgentRequest::InjectCursor(point) => {
                &&& state.after_notify(request).cursor == Some(point)
                &&& state.after_notify(request).cursor_queued
                &&& state.notify_plan(request) == Ok::<NotifyPlan, ClientError>(
                    if state.cursor_queued {
                        NotifyPlan::Nothing
                    } else {
                        NotifyPlan::QueueCursor
                    },
                )
            },
            _ => state.after_notify(request) == state && state.notify_plan(request) == Ok::<
                NotifyPlan,
                ClientError,
            >(NotifyPlan::QueueCommand),
        },
{
}

/// The session that took the agent over last may use it until it leaves, and then nobody may;
/// a later session is not disturbed by an earlier one that leaves.
pub proof fn leases_end_with_their_session(state: ClientView, lease: u64)
    requires
        state.next_lease > 0,
    ensures
        ({
            let taken = state.taken_over();
            let own = state.next_lease;
            &&& taken.in_session
            &&& taken.lease_check(own) is Ok <==> state.alive
            &&& lease != own ==> taken.lease_check(lease) == Err::<(), ClientError>(
                ClientError::Superseded,
            ) && taken.left_by(lease).lease_check(own) == taken.lease_check(own)
            &&& taken.left_by(own).lease_check(own) == Err::<(), ClientError>(
                ClientError::Superseded,
            )
            &&& !taken.left_by(own).in_session
            &&& taken.next_lease != own
        }),
{
}

/// A time that is to come is as far off as was said, unless it would be beyond all times.
pub proof fn later_is_that_much_later(now: u64, millis: u64)
    ensures
        later(now, millis) >= now,
        now + millis <= u64::MAX ==> later(now, millis) - now == millis,
        now + millis > u64::MAX ==> later(now, millis) == u64::MAX,
{
}

/// An agent is started once both of its pipes are there, and used once it has answered; one thing
/// that fails on the way is enough to give it up.
pub proof fn agents_need_both_pipes(start: TransportStart, first: bool, second: bool, answered: bool)
    requires
        start.created == 0,
        !start.failed,
    ensures
        ({
            let one = start.after_pipe(first);
            let two = one.after_pipe(second);
            &&& one.pipe_action() is Wait <==> first
            &&& one.pipe_action() is GiveUp <==> !first
            &&& two.pipe_action() is Launch <==> first && second
            &&& two.pipe_action() is GiveUp <==> !(first && second)
            &&& two.after_handshake(answered).ready <==> first && second && answered
        }),
{
}

/// The writer never waits longer than a twentieth of a second, nor beyond the time of the next
/// sign of life, and it waits as long as it can.
pub proof fn writer_waits_for_the_sign_of_life(state: ClientView, now: u64)
    ensures
        ({
            let wait = state.wait(now);
            &&& 0 <= wait <= 50
            &&& now < state.next_heartbeat ==> 0 < wait && now + wait <= state.next_heartbeat
            &&& now < state.next_heartbeat ==> wait == 50 || now + wait == state.next_heartbeat
            &&& now >= state.next_heartbeat ==> wait == 0
        }),
{
}

/// A request that was written waits for its answer under its number, and for who asked; others
/// wait as before. The next request has another number.
pub proof fn written_requests_wait_for_their_answer(
    state: ClientView,
    cursor: bool,
    has_caller: bool,
    response: ResponseView,
    other: u64,
)
    ensures
        ({
            let next = state.registered(cursor, has_caller);
            let id = state.next_id;
            &&& next.delivery(id, response) matches ReaderView::Deliver { has_caller: asked, .. }
            &&& asked == has_caller
            &&& next.pending[id].cursor == cursor
            &&& other != id ==> next.pending.contains_key(other) == state.pending.contains_key(other)
            &&& id < u64::MAX ==> next.next_id == id + 1
        }),
{
}

/// A note that found no room in the queue is put there again with the next position, so that the
/// position is written all the same; a closed queue is the end of the connection.
pub proof fn notes_without_room_are_put_again(state: ClientView, point: Point)
    requires
        state.alive,
    ensures
        ({
            let asked = state.after_notify(AgentRequest::InjectCursor(point));
            let full = asked.note_result(QueueOutcome::Full);
            &&& full.cursor == Some(point)
            &&& full.notify_plan(AgentRequest::InjectCursor(point)) == Ok::<NotifyPlan, ClientError>(
                NotifyPlan::QueueCursor,
            )
            &&& asked.note_result(QueueOutcome::Accepted) == asked
            &&& !asked.note_result(QueueOutcome::Closed).alive
            &&& full.alive
        }),
{
}

} // verus!
