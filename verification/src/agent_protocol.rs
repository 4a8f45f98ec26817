//! What the program and its agent with more rights say to each other.

use crate::framing;
use crate::framing::FrameError;
use crate::geometry::{DesktopLayout, DisplayRect, Point};
use crate::hotkey::{Hotkey, ModifierMask};
use crate::platform::NativeEvent;
use crate::protocol::{KeySnapshot, SnapshotView};
use crate::session::InputMode;
use crate::text;
use vstd::prelude::*;
use vstd::string::*;

verus! {

/// The longest packet, in bytes.
pub const IPC_MAX_FRAME: usize = 1048576;

/// How long the two wait for each other to start, in milliseconds.
pub const CONNECT_TIMEOUT: u64 = 30_000;

/// How long a request waits for being sent, in milliseconds.
pub const DISPATCH_TIMEOUT: u64 = 10_000;

/// How long a request waits for its answer, in milliseconds.
pub const REQUEST_DELIVERY_TIMEOUT: u64 = 4_000;

/// Time between two signs of life, in milliseconds.
pub const CLIENT_HEARTBEAT_INTERVAL: u64 = 500;

/// How long the agent goes without a sign of life before it takes notice, in milliseconds.
pub const AGENT_HEARTBEAT_TIMEOUT: u64 = 10_000;

/// What the agent is asked to do.
#[derive(Clone, Copy, Debug)]
pub enum AgentRequest {
    Start { mode: InputMode, hotkey: Hotkey },
    Stop,
    Health,
    CursorPosition,
    Snapshot,
    SetCapture(bool),
    WarpCursor(Point),
    InjectKey { usage: u16, modifiers: ModifierMask, down: bool, repeat: bool },
    InjectButton { button: u8, down: bool },
    InjectCursor(Point),
    InjectMotion { dx: i32, dy: i32 },
    InjectWheel { x: i32, y: i32 },
    ReleaseAll,
}

impl AgentRequest {
    pub open spec fn name_text(self) -> Seq<char> {
        match self {
            AgentRequest::Start { .. } => "Start"@,
            AgentRequest::Stop => "Stop"@,
            AgentRequest::Health => "Health"@,
            AgentRequest::CursorPosition => "CursorPosition"@,
            AgentRequest::Snapshot => "Snapshot"@,
            AgentRequest::SetCapture(_) => "SetCapture"@,
            AgentRequest::WarpCursor(_) => "WarpCursor"@,
            AgentRequest::InjectKey { .. } => "InjectKey"@,
            AgentRequest::InjectButton { .. } => "InjectButton"@,
            AgentRequest::InjectCursor(_) => "InjectCursor"@,
            AgentRequest::InjectMotion { .. } => "InjectMotion"@,
            AgentRequest::InjectWheel { .. } => "InjectWheel"@,
            AgentRequest::ReleaseAll => "ReleaseAll"@,
        }
    }

    /// Whether the pointer must be where it belongs before the request is carried out.
    pub open spec fn ordered(self) -> bool {
        self is InjectButton || self is InjectWheel
    }

    pub fn name(&self) -> (r: &'static str)
        ensures
            r@ == self.name_text(),
    {
        match self {
            AgentRequest::Start { .. } => "Start",
            AgentRequest::Stop => "Stop",
            AgentRequest::Health => "Health",
            AgentRequest::CursorPosition => "CursorPosition",
            AgentRequest::Snapshot => "Snapshot",
            AgentRequest::SetCapture(_) => "SetCapture",
            AgentRequest::WarpCursor(_) => "WarpCursor",
            AgentRequest::InjectKey { .. } => "InjectKey",
            AgentRequest::InjectButton { .. } => "InjectButton",
            AgentRequest::InjectCursor(_) => "InjectCursor",
            AgentRequest::InjectMotion { .. } => "InjectMotion",
            AgentRequest::InjectWheel { .. } => "InjectWheel",
            AgentRequest::ReleaseAll => "ReleaseAll",
        }
    }

    /// Whether the pointer must be where it belongs before the request is carried out.
    pub fn requires_cursor_ordering(&self) -> (r: bool)
        ensures
            r == self.ordered(),
    {
        match self {
            AgentRequest::InjectButton { .. } | AgentRequest::InjectWheel { .. } => true,
            _ => false,
        }
    }
}

/// What the agent answers.
#[derive(Clone, Debug)]
pub enum AgentResponse {
    Done,
    Pong,
    Started { layout: DesktopLayout, secure_desktop: bool, primary: Option<DisplayRect> },
    Point(Point),
    Snapshot(KeySnapshot),
    Error(String),
}

/// What an answer holds.
pub enum ResponseView {
    Done,
    Pong,
    Started { displays: Seq<DisplayRect>, secure_desktop: bool, primary: Option<DisplayRect> },
    Point(Point),
    Snapshot(SnapshotView),
    Error(Seq<char>),
}

impl View for AgentResponse {
    type V = ResponseView;

    open spec fn view(&self) -> ResponseView {
        match *self {
            AgentResponse::Done => ResponseView::Done,
            AgentResponse::Pong => ResponseView::Pong,
            AgentResponse::Started { layout, secure_desktop, primary } => ResponseView::Started {
                displays: layout@,
                secure_desktop,
                primary,
            },
            AgentResponse::Point(point) => ResponseView::Point(point),
            AgentResponse::Snapshot(snapshot) => ResponseView::Snapshot(snapshot@),
            AgentResponse::Error(message) => ResponseView::Error(message@),
        }
    }
}

/// A packet to the agent.
#[derive(Clone, Copy, Debug)]
pub enum GuiToAgentPacket {
    HelloAck { session_id: u32 },
    Request { id: u64, request: AgentRequest },
}

/// A packet from the agent.
#[derive(Clone, Debug)]
#[allow(inconsistent_fields)]
pub enum AgentToGuiPacket {
    Hello { token: String, agent_pid: u32, parent_pid: u32, agent_path: String, agent_is_system: bool },
    Ready,
    StartupError { error: String },
    Response { id: u64, response: AgentResponse },
    Event(NativeEvent),
    Motion { dx: i32, dy: i32, position: Option<Point>, position_updated: bool },
    SecureDesktopPaused(bool),
    SecureDesktopChanged { secure: bool, primary: Option<DisplayRect> },
}

impl AgentToGuiPacket {
    pub open spec fn name_text(self) -> Seq<char> {
        match self {
            AgentToGuiPacket::Hello { .. } => "Hello"@,
            AgentToGuiPacket::Ready => "Ready"@,
            AgentToGuiPacket::StartupError { .. } => "StartupError"@,
            AgentToGuiPacket::Response { .. } => "Response"@,
            AgentToGuiPacket::Event(_) => "Event"@,
            AgentToGuiPacket::Motion { .. } => "Motion"@,
            AgentToGuiPacket::SecureDesktopPaused(_) => "SecureDesktopPaused"@,
            AgentToGuiPacket::SecureDesktopChanged { .. } => "SecureDesktopChanged"@,
        }
    }

    pub fn packet_name(&self) -> (r: &'static str)
        ensures
            r@ == self.name_text(),
    {
        match self {
            AgentToGuiPacket::Hello { .. } => "Hello",
            AgentToGuiPacket::Ready => "Ready",
            AgentToGuiPacket::StartupError { .. } => "StartupError",
            AgentToGuiPacket::Response { .. } => "Response",
            AgentToGuiPacket::Event(_) => "Event",
            AgentToGuiPacket::Motion { .. } => "Motion",
            AgentToGuiPacket::SecureDesktopPaused(_) => "SecureDesktopPaused",
            AgentToGuiPacket::SecureDesktopChanged { .. } => "SecureDesktopChanged",
        }
    }
}

/// Puts a frame around the bytes of a packet. Packets without content and too long ones are
/// refused.
pub fn write_packet(content: &Vec<u8>) -> (r: Result<Vec<u8>, FrameError>)
    ensures
        match r {
            Ok(bytes) => 0 < content@.len() <= IPC_MAX_FRAME && bytes@ == framing::framed(content@),
            Err(FrameError::Empty) => content@.len() == 0,
            Err(FrameError::TooLong(n)) => content@.len() > IPC_MAX_FRAME && n == content@.len(),
        },
{
    framing::frame(content, IPC_MAX_FRAME, false)
}

/// The length of a packet, from the four bytes before it.
pub fn packet_length(prefix: &[u8; 4]) -> (r: Result<usize, FrameError>)
    ensures
        match r {
            Ok(n) => n == framing::length_value(prefix@) && 0 < n <= IPC_MAX_FRAME,
            Err(FrameError::Empty) => framing::length_value(prefix@) == 0,
            Err(FrameError::TooLong(n)) => framing::length_value(prefix@) > IPC_MAX_FRAME && n
                == framing::length_value(prefix@),
        },
{
    framing::content_length(prefix, IPC_MAX_FRAME)
}

/// How much of a time limit is left, in milliseconds.
pub fn remaining_time(limit: u64, elapsed: u64) -> (r: Option<u64>)
    ensures
        r == if elapsed < limit {
            Some((limit - elapsed) as u64)
        } else {
            None
        },
{
    if elapsed < limit {
        Some(limit - elapsed)
    } else {
        None
    }
}

/// Why the two ends do not come together.
#[derive(Debug)]
pub enum HandshakeError {
    /// Another packet came than the one expected.
    UnexpectedPacket,
    /// The agent was not started by this program.
    WrongToken,
    /// The agent could not start.
    Startup(String),
    /// The agent runs in another session than this program.
    WrongSession,
}

/// Who the agent says it is.
#[derive(Debug)]
pub struct AgentIdentity {
    pub agent_pid: u32,
    pub agent_path: String,
    pub agent_is_system: bool,
}

fn same_text(a: &str, b: &str) -> (r: bool)
    ensures
        r == (a@ == b@),
{
    text::is_text(&text::chars_of(a), b)
}

/// The first packet of an agent. It has to name the token and the process that it was started
/// with.
pub fn check_hello(packet: AgentToGuiPacket, token: &str, parent_pid: u32) -> (r: Result<
    AgentIdentity,
    HandshakeError,
>)
    ensures
        match packet {
            AgentToGuiPacket::Hello {
                token: given,
                agent_pid,
                parent_pid: parent,
                agent_path,
                agent_is_system,
            } => if given@ == token@ && parent == parent_pid {
                &&& r matches Ok(identity)
                &&& identity.agent_pid == agent_pid
                &&& identity.agent_path@ == agent_path@
                &&& identity.agent_is_system == agent_is_system
            } else {
                r matches Err(error) && error is WrongToken
            },
            _ => r matches Err(error) && error is UnexpectedPacket,
        },
{
    match packet {
        AgentToGuiPacket::Hello {
            token: given,
            agent_pid,
            parent_pid: parent,
            agent_path,
            agent_is_system,
        } => {
            if !same_text(given.as_str(), token) || parent != parent_pid {
                return Err(HandshakeError::WrongToken);
            }
            Ok(AgentIdentity { agent_pid, agent_path, agent_is_system })
        },
        _ => Err(HandshakeError::UnexpectedPacket),
    }
}

/// The second packet of an agent: whether it could start.
pub fn check_startup(packet: AgentToGuiPacket) -> (r: Result<(), HandshakeError>)
    ensures
        match packet {
            AgentToGuiPacket::Ready => r is Ok,
            AgentToGuiPacket::StartupError { error } => r matches Err(HandshakeError::Startup(text))
                && text@ == error@,
            _ => r matches Err(error) && error is UnexpectedPacket,
        },
{
    match packet {
        AgentToGuiPacket::Ready => Ok(()),
        AgentToGuiPacket::StartupError { error } => Err(HandshakeError::Startup(error)),
        _ => Err(HandshakeError::UnexpectedPacket),
    }
}

/// The first packet to an agent. Both have to be in one session.
pub fn check_ack(packet: GuiToAgentPacket, session: u32) -> (r: Result<(), HandshakeError>)
    ensures
        match packet {
            GuiToAgentPacket::HelloAck { session_id } => if session_id == session {
                r is Ok
            } else {
                r matches Err(error) && error is WrongSession
            },
            _ => r matches Err(error) && error is UnexpectedPacket,
        },
{
    match packet {
        GuiToAgentPacket::HelloAck { session_id } => if session_id == session {
            Ok(())
        } else {
            Err(HandshakeError::WrongSession)
        },
        _ => Err(HandshakeError::UnexpectedPacket),
    }
}

/// Milliseconds for a wait of the system: at least one, and never the number that stands for
/// no end.
pub fn duration_millis(millis: u128) -> (r: u32)
    ensures
        r == if millis < 1 {
            1int
        } else if millis > 0xffff_fffe {
            0xffff_fffe
        } else {
            millis as int
        },
{
    if millis < 1 {
        1
    } else if millis > 0xffff_fffe {
        0xffff_fffe
    } else {
        millis as u32
    }
}

/// A character as 16-bit units: one, or two for the characters behind the first 65536.
pub open spec fn units_of(c: char) -> Seq<u16> {
    if (c as int) < 0x1_0000 {
        seq![c as u16]
    } else {
        seq![
            (0xd800 + (c as int - 0x1_0000) / 0x400) as u16,
            (0xdc00 + (c as int - 0x1_0000) % 0x400) as u16,
        ]
    }
}

/// A text as 16-bit units.
pub open spec fn text_units(text: Seq<char>) -> Seq<u16>
    decreases text.len(),
{
    if text.len() == 0 {
        Seq::empty()
    } else {
        text_units(text.drop_last()) + units_of(text.last())
    }
}

fn append_units(out: &mut Vec<u16>, c: char)
    ensures
        final(out)@ == old(out)@ + units_of(c),
{
    let n: u32 = c as u32;
    if n < 0x1_0000 {
        out.push(n as u16);
    } else {
        out.push((0xd800 + (n - 0x1_0000) / 0x400) as u16);
        out.push((0xdc00 + (n - 0x1_0000) % 0x400) as u16);
    }
    assert(out@ =~= old(out)@ + units_of(c));
}

/// A text as 16-bit units, with a zero at its end.
pub fn wide(value: &str) -> (r: Vec<u16>)
    ensures
        r@ == text_units(value@).push(0),
{
    let chars = text::chars_of(value);
    let mut out: Vec<u16> = Vec::new();
    let mut i: usize = 0;
    while i < chars.len()
        invariant
            i <= chars@.len(),
            out@ == text_units(chars@.take(i as int)),
        decreases chars@.len() - i,
    {
        append_units(&mut out, chars[i]);
        assert(chars@.take(i + 1).drop_last() =~= chars@.take(i as int));
        i += 1;
    }
    assert(chars@.take(chars@.len() as int) =~= chars@);
    out.push(0);
    out
}

/// Whether a path is taken as it stands: the system does not look for anything in it but
/// backslashes.
pub open spec fn is_verbatim(path: Seq<char>) -> bool {
    path.len() >= 4 && path[0] == '\\' && path[1] == '\\' && path[2] == '?' && path[3] == '\\'
}

/// Whether a character is one of those that separate the parts of most paths.
pub open spec fn separates(c: char) -> bool {
    c == '\\' || c == '/'
}

/// Whether a character separates the parts of a path.
pub open spec fn separates_in(path: Seq<char>, c: char) -> bool {
    c == '\\' || (c == '/' && !is_verbatim(path))
}

/// Where the part of a path that holds a place ends.
pub open spec fn part_end(path: Seq<char>, from: int) -> int
    decreases path.len() - from,
{
    if from >= path.len() {
        path.len() as int
    } else if separates_in(path, path[from]) {
        from
    } else {
        part_end(path, from + 1)
    }
}

/// Whether a drive is named at a place.
pub open spec fn names_drive(path: Seq<char>, at: int) -> bool {
    path.len() >= at + 2 && ('a' <= text::lower(path[at]) <= 'z') && path[at + 1] == ':'
}

/// Where the name of a server ends that starts at a place, or that of what it shares, if there
/// is one.
pub open spec fn share_end(path: Seq<char>, from: int) -> int {
    let server = part_end(path, from);
    let share = part_end(path, server + 1);
    if share > server + 1 {
        share
    } else {
        server
    }
}

/// How many characters at the start of a path name no directory: a drive, a device, or a server
/// with what it shares. In a path that is taken as it stands, any first part may be there.
pub open spec fn prefix_length(path: Seq<char>) -> int {
    if is_verbatim(path) {
        if path.len() >= 8 && path.subrange(4, 7) == "UNC"@ && separates(path[7]) {
            share_end(path, 8)
        } else if names_drive(path, 4) && (path.len() == 6 || separates(path[6])) {
            6
        } else {
            part_end(path, 4)
        }
    } else if path.len() >= 2 && separates(path[0]) && separates(path[1]) {
        if path.len() >= 4 && path[2] == '.' && separates(path[3]) {
            part_end(path, 4)
        } else if part_end(path, 2) > 2 && share_end(path, 2) > part_end(path, 2) {
            share_end(path, 2)
        } else {
            0
        }
    } else if names_drive(path, 0) {
        2
    } else {
        0
    }
}

/// Whether a root follows the prefix of a path.
pub open spec fn is_rooted(path: Seq<char>) -> bool {
    prefix_length(path) < path.len() && separates(path[prefix_length(path)])
}

/// Where the parts of a path start, behind its prefix and its root.
pub open spec fn body_start(path: Seq<char>) -> int {
    if is_rooted(path) {
        prefix_length(path) + 1
    } else {
        prefix_length(path)
    }
}

/// Whether a path, up to a place, ends in a dot that stands for nothing. A dot at the start of
/// the parts counts where there is no root, and every dot does in a path that is taken as it
/// stands.
pub open spec fn ends_in_idle_dot(path: Seq<char>, high: int) -> bool {
    &&& !is_verbatim(path)
    &&& path[high - 1] == '.'
    &&& if high - 1 == body_start(path) {
        is_rooted(path)
    } else {
        separates(path[high - 2])
    }
}

/// Where the last part of a path ends, up to a place. Separators at the end do not count, nor
/// does a dot that stands for nothing.
pub open spec fn last_part_end(path: Seq<char>, high: int) -> int
    decreases high,
{
    if high <= body_start(path) || high <= 0 {
        high
    } else if separates_in(path, path[high - 1]) || ends_in_idle_dot(path, high) {
        last_part_end(path, high - 1)
    } else {
        high
    }
}

/// Where the part of a path that ends at a place starts.
pub open spec fn part_start(path: Seq<char>, high: int) -> int
    decreases high,
{
    if high <= body_start(path) || high <= 0 || separates_in(path, path[high - 1]) {
        high
    } else {
        part_start(path, high - 1)
    }
}

/// Where the last part of a path starts, and where it ends.
pub open spec fn last_part(path: Seq<char>) -> (int, int) {
    let high = last_part_end(path, path.len() as int);
    (part_start(path, high), high)
}

/// The name of the file that a path leads to. A path that ends in its prefix, in its root, or in
/// a step upwards leads to none.
pub open spec fn file_name(path: Seq<char>) -> Option<Seq<char>> {
    let (from, to) = last_part(path);
    let name = path.subrange(from, to);
    if name.len() == 0 || name == "."@ || name == ".."@ {
        None
    } else {
        Some(name)
    }
}

/// A name without what follows its last dot. A dot at the start does not count.
pub open spec fn stem(name: Seq<char>) -> Seq<char> {
    if exists|i: int| 0 < i < name.len() && name[i] == '.' {
        name.take(last_dot(name))
    } else {
        name
    }
}

/// Where the last dot of a name is.
pub open spec fn last_dot(name: Seq<char>) -> int
    decreases name.len(),
{
    if name.len() == 0 || name.last() == '.' {
        name.len() - 1
    } else {
        last_dot(name.drop_last())
    }
}

/// Whether a program is the main one, by the name of its file.
pub open spec fn is_host(path: Seq<char>) -> bool {
    file_name(path) matches Some(name) && text::lowered(stem(name)) == text::lowered("synly"@)
}

/// Whether a separator has to follow a path before a name can.
pub open spec fn needs_separator(path: Seq<char>) -> bool {
    path.len() > 0 && !separates(path.last()) && !(path.len() == 2 && prefix_length(path) == 2)
}

/// Where the directory ends of the file that a path leads to. Where it leads to none, it is the
/// directory itself.
pub open spec fn directory_end(path: Seq<char>) -> int {
    if file_name(path) is Some {
        last_part_end(path, last_part(path).0)
    } else {
        path.len() as int
    }
}

/// A text with one backslash for each run of them, and none at its start.
pub open spec fn squeezed(text: Seq<char>) -> Seq<char>
    decreases text.len(),
{
    if text.len() == 0 {
        Seq::empty()
    } else {
        let before = squeezed(text.drop_last());
        if text.last() == '\\' && (before.len() == 0 || before.last() == '\\') {
            before
        } else {
            before.push(text.last())
        }
    }
}

/// A text that is not empty ends in a backslash.
pub open spec fn ended(text: Seq<char>) -> Seq<char> {
    if text.len() == 0 || text.last() == '\\' {
        text
    } else {
        text.push('\\')
    }
}

/// A directory up to where the name of a file in it can follow. In a path that is taken as it
/// stands, one backslash stands behind the prefix and behind each part.
pub open spec fn opened_directory(path: Seq<char>) -> Seq<char> {
    let directory = path.take(directory_end(path));
    if is_verbatim(path) {
        path.take(prefix_length(path)) + "\\"@ + ended(
            squeezed(directory.skip(body_start(path))),
        )
    } else if needs_separator(directory) {
        directory + "\\"@
    } else {
        directory
    }
}

/// The path of the main program in the directory of another one.
pub open spec fn sibling_path(path: Seq<char>) -> Seq<char> {
    opened_directory(path) + "synly.exe"@
}

fn is_separator(c: char) -> (r: bool)
    ensures
        r == separates(c),
{
    c == '\\' || c == '/'
}

fn has_verbatim_prefix(chars: &Vec<char>) -> (r: bool)
    ensures
        r == is_verbatim(chars@),
{
    chars.len() >= 4 && chars[0] == '\\' && chars[1] == '\\' && chars[2] == '?' && chars[3] == '\\'
}

/// Whether there is a separator at a place.
fn is_separated_at(chars: &Vec<char>, i: usize) -> (r: bool)
    requires
        i < chars@.len(),
    ensures
        r == separates_in(chars@, chars@[i as int]),
{
    chars[i] == '\\' || (chars[i] == '/' && !has_verbatim_prefix(chars))
}

fn find_part_end(chars: &Vec<char>, from: usize) -> (r: usize)
    ensures
        r == part_end(chars@, from as int),
        r <= chars@.len(),
        from <= chars@.len() ==> from <= r,
{
    if from >= chars.len() {
        return chars.len();
    }
    let mut i: usize = from;
    while i < chars.len() && !is_separated_at(chars, i)
        invariant
            from <= i <= chars@.len(),
            part_end(chars@, from as int) == part_end(chars@, i as int),
        decreases chars@.len() - i,
    {
        i += 1;
    }
    i
}

/// The end of the part behind the separator at a place. At the end of the path there is none.
fn find_next_part_end(chars: &Vec<char>, at: usize) -> (r: usize)
    requires
        at <= chars@.len(),
    ensures
        r == part_end(chars@, at + 1),
        r <= chars@.len(),
        at < chars@.len() ==> at < r,
{
    if at >= chars.len() {
        chars.len()
    } else {
        find_part_end(chars, at + 1)
    }
}

fn is_drive_at(chars: &Vec<char>, at: usize) -> (r: bool)
    requires
        at <= 4,
    ensures
        r == names_drive(chars@, at as int),
{
    if chars.len() < at + 2 {
        return false;
    }
    let letter = chars[at];
    (('a' <= letter && letter <= 'z') || ('A' <= letter && letter <= 'Z')) && chars[at + 1] == ':'
}

fn find_share_end(chars: &Vec<char>, from: usize) -> (r: usize)
    requires
        from <= chars@.len(),
    ensures
        r == share_end(chars@, from as int),
        from <= r <= chars@.len(),
{
    let server: usize = find_part_end(chars, from);
    let share: usize = find_next_part_end(chars, server);
    if share > server && share - server > 1 {
        share
    } else {
        server
    }
}

fn find_prefix_length(chars: &Vec<char>) -> (r: usize)
    ensures
        r == prefix_length(chars@),
        r <= chars@.len(),
{
    if has_verbatim_prefix(chars) {
        if chars.len() >= 8 && is_separator(chars[7]) {
            let word = part_of(chars, 4, 7);
            if text::is_text(&word, "UNC") {
                return find_share_end(chars, 8);
            }
        }
        if is_drive_at(chars, 4) && (chars.len() == 6 || is_separator(chars[6])) {
            return 6;
        }
        return find_part_end(chars, 4);
    }
    if chars.len() >= 2 && is_separator(chars[0]) && is_separator(chars[1]) {
        if chars.len() >= 4 && chars[2] == '.' && is_separator(chars[3]) {
            return find_part_end(chars, 4);
        }
        let server: usize = find_part_end(chars, 2);
        let share: usize = find_share_end(chars, 2);
        return if server > 2 && share > server {
            share
        } else {
            0
        };
    }
    if is_drive_at(chars, 0) {
        2
    } else {
        0
    }
}

fn find_body_start(chars: &Vec<char>) -> (r: usize)
    ensures
        r == body_start(chars@),
        prefix_length(chars@) <= r <= chars@.len(),
{
    let prefix: usize = find_prefix_length(chars);
    if prefix < chars.len() && is_separator(chars[prefix]) {
        prefix + 1
    } else {
        prefix
    }
}

fn is_idle_dot_before(chars: &Vec<char>, low: usize, high: usize) -> (r: bool)
    requires
        low == body_start(chars@),
        low < high <= chars@.len(),
    ensures
        r == ends_in_idle_dot(chars@, high as int),
{
    if has_verbatim_prefix(chars) || chars[high - 1] != '.' {
        false
    } else if high - 1 == low {
        low > find_prefix_length(chars)
    } else {
        is_separator(chars[high - 2])
    }
}

fn find_last_part_end(chars: &Vec<char>, from: usize) -> (r: usize)
    requires
        body_start(chars@) <= from <= chars@.len(),
    ensures
        r == last_part_end(chars@, from as int),
        body_start(chars@) <= r <= from,
{
    let low: usize = find_body_start(chars);
    let mut high: usize = from;
    while high > low && (is_separated_at(chars, high - 1) || is_idle_dot_before(chars, low, high))
        invariant
            low == body_start(chars@),
            low <= high <= from <= chars@.len(),
            last_part_end(chars@, from as int) == last_part_end(chars@, high as int),
        decreases high,
    {
        high -= 1;
    }
    high
}

fn find_last_part(chars: &Vec<char>) -> (r: (usize, usize))
    ensures
        (r.0 as int, r.1 as int) == last_part(chars@),
        body_start(chars@) <= r.0 <= r.1 <= chars@.len(),
{
    let low: usize = find_body_start(chars);
    let high: usize = find_last_part_end(chars, chars.len());
    let mut start: usize = high;
    while start > low && !is_separated_at(chars, start - 1)
        invariant
            low == body_start(chars@),
            low <= start <= high <= chars@.len(),
            part_start(chars@, high as int) == part_start(chars@, start as int),
        decreases start,
    {
        start -= 1;
    }
    (start, high)
}

proof fn lemma_last_dot_at(name: Seq<char>, k: int)
    requires
        0 <= k < name.len(),
        name[k] == '.',
        forall|i: int| k < i < name.len() ==> name[i] != '.',
    ensures
        last_dot(name) == k,
    decreases name.len(),
{
    if k < name.len() - 1 {
        assert(name[name.len() - 1] != '.');
        lemma_last_dot_at(name.drop_last(), k);
    }
}

fn stem_end(name: &Vec<char>) -> (r: usize)
    ensures
        r <= name@.len(),
        stem(name@) == name@.take(r as int),
{
    let mut k: usize = name.len();
    while k > 1 && name[k - 1] != '.'
        invariant
            k <= name@.len(),
            forall|i: int| k <= i < name@.len() ==> name@[i] != '.',
        decreases k,
    {
        k -= 1;
    }
    if k > 1 {
        proof {
            assert(0 < k - 1 < name@.len() && name@[k - 1] == '.');
            lemma_last_dot_at(name@, k - 1);
        }
        return k - 1;
    }
    assert(name@.take(name@.len() as int) =~= name@);
    name.len()
}

fn part_of(chars: &Vec<char>, from: usize, to: usize) -> (r: Vec<char>)
    requires
        from <= to <= chars@.len(),
    ensures
        r@ == chars@.subrange(from as int, to as int),
{
    let mut out: Vec<char> = Vec::new();
    let mut i: usize = from;
    while i < to
        invariant
            from <= i <= to <= chars@.len(),
            out@ == chars@.subrange(from as int, i as int),
        decreases to - i,
    {
        out.push(chars[i]);
        assert(out@ =~= chars@.subrange(from as int, i + 1));
        i += 1;
    }
    out
}

/// Appends the parts between two places, with one backslash behind each.
fn append_ended_parts(out: &mut String, path: &str, from: usize, to: usize)
    requires
        from <= to <= path@.len(),
    ensures
        final(out)@ == old(out)@ + ended(squeezed(path@.subrange(from as int, to as int))),
{
    let mut ends = true;
    let mut i: usize = from;
    assert(out@ =~= old(out)@ + squeezed(path@.subrange(from as int, from as int)));
    while i < to
        invariant
            from <= i <= to <= path@.len(),
            out@ == old(out)@ + squeezed(path@.subrange(from as int, i as int)),
            ({
                let parts = squeezed(path@.subrange(from as int, i as int));
                ends == (parts.len() == 0 || parts.last() == '\\')
            }),
        decreases to - i,
    {
        let ghost parts = squeezed(path@.subrange(from as int, i as int));
        assert(path@.subrange(from as int, i + 1).drop_last() =~= path@.subrange(
            from as int,
            i as int,
        ));
        let separates = path.get_char(i) == '\\';
        if !(separates && ends) {
            out.append(path.substring_char(i, i + 1));
            assert(out@ =~= old(out)@ + parts.push(path@[i as int]));
        }
        ends = separates;
        i += 1;
    }
    if !ends {
        proof {
            reveal_strlit("\\");
        }
        out.append("\\");
    }
    assert(out@ =~= old(out)@ + ended(squeezed(path@.subrange(from as int, to as int))));
}

/// The path of the main program next to another one. There is none for the main program
/// itself.
pub fn sibling_host(current: &str) -> (r: Option<String>)
    ensures
        match r {
            Some(path) => !is_host(current@) && path@ == sibling_path(current@),
            None => is_host(current@),
        },
{
    let chars = text::chars_of(current);
    let (start, end) = find_last_part(&chars);
    let name = part_of(&chars, start, end);
    let named = !(name.len() == 0 || text::is_text(&name, ".") || text::is_text(&name, ".."));
    let mut kept: usize = chars.len();
    if named {
        let stem_length: usize = stem_end(&name);
        let stem_chars = part_of(&name, 0, stem_length);
        assert(stem_chars@ =~= name@.take(stem_length as int));
        if text::is_text_in_any_case(&stem_chars, "synly") {
            return None;
        }
        kept = find_last_part_end(&chars, start);
    }
    let mut path = String::new();
    if has_verbatim_prefix(&chars) {
        path.append(current.substring_char(0, find_prefix_length(&chars)));
        path.append("\\");
        append_ended_parts(&mut path, current, find_body_start(&chars), kept);
        assert(chars@.take(kept as int).skip(body_start(chars@)) =~= chars@.subrange(
            body_start(chars@),
            kept as int,
        ));
    } else {
        let directory = part_of(&chars, 0, kept);
        assert(directory@ =~= chars@.take(kept as int));
        let drive = kept == 2 && find_prefix_length(&directory) == 2;
        path.append(current.substring_char(0, kept));
        if kept > 0 && !is_separator(chars[kept - 1]) && !drive {
            path.append("\\");
        }
    }
    assert(path@ =~= opened_directory(current@));
    path.append("synly.exe");
    assert(path@ =~= sibling_path(current@));
    Some(path)
}

/// The program that is started as the agent: the main program itself, or the one next to this
/// program if there is one, or else this program.
pub fn resolve_agent_host_with(current: &str, is_there: impl Fn(&str) -> bool) -> (r: String)
    requires
        forall|path: &str| #[trigger] call_requires(is_there, (path,)),
    ensures
        is_host(current@) ==> r@ == current@,
        !is_host(current@) ==> exists|path: &str, found: bool|
            path@ == sibling_path(current@) && #[trigger] call_ensures(is_there, (path,), found) && r@
                == if found {
                sibling_path(current@)
            } else {
                current@
            },
{
    match sibling_host(current) {
        None => current.to_owned(),
        Some(sibling) => {
            let path = sibling.as_str();
            let found = is_there(path);
            assert(call_ensures(is_there, (path,), found));
            if found {
                sibling
            } else {
                current.to_owned()
            }
        },
    }
}

/// The code of the system for a pipe that is not there.
pub const ERROR_FILE_NOT_FOUND: i32 = 2;

/// The code of the system for a pipe that serves somebody else.
pub const ERROR_PIPE_BUSY: i32 = 231;

/// How long to wait before a pipe is tried again.
pub open spec fn retry_wait(code: Option<i32>, now: u64, deadline: u64) -> Option<u32> {
    if (code == Some(ERROR_FILE_NOT_FOUND) || code == Some(ERROR_PIPE_BUSY)) && now < deadline {
        Some(
            if deadline - now < 100 {
                (deadline - now) as u32
            } else {
                100u32
            },
        )
    } else {
        None
    }
}

/// How long to wait, in milliseconds, before a pipe is tried again that could not be opened.
/// Only a pipe that is not there yet, or that is busy, is tried again, and only in time.
pub fn pipe_retry(code: Option<i32>, now: u64, deadline: u64) -> (r: Option<u32>)
    ensures
        r == if (code == Some(ERROR_FILE_NOT_FOUND) || code == Some(ERROR_PIPE_BUSY)) && now
            < deadline {
            Some(
                if deadline - now < 100 {
                    (deadline - now) as u32
                } else {
                    100u32
                },
            )
        } else {
            None
        },
        r == retry_wait(code, now, deadline),
{
    let again = match code {
        Some(ERROR_FILE_NOT_FOUND) | Some(ERROR_PIPE_BUSY) => true,
        _ => false,
    };
    if !again || now >= deadline {
        return None;
    }
    let left: u64 = deadline - now;
    if left < 100 {
        Some(left as u32)
    } else {
        Some(100)
    }
}

/// Bytes on their way through a pipe, in parts.
#[derive(Clone, Copy, Debug, PartialEq, Eq, Structural)]
pub struct PipeTransfer {
    pub done: usize,
    pub total: usize,
    pub deadline: u64,
}

/// What is next for bytes on their way.
#[derive(Clone, Copy, Debug, PartialEq, Eq, Structural)]
pub enum TransferStep {
    /// Move the bytes from this one on, in at most so many milliseconds.
    Move { from: usize, wait: u64 },
    Complete,
    TimedOut,
}

impl PipeTransfer {
    /// Whether no more bytes went through than there are.
    pub open spec fn sound(self) -> bool {
        self.done <= self.total
    }

    pub fn new(total: usize, deadline: u64) -> (r: Self)
        ensures
            r == (PipeTransfer { done: 0, total, deadline }),
            r.sound(),
    {
        PipeTransfer { done: 0, total, deadline }
    }

    /// What is next at a time.
    pub open spec fn step(self, now: u64) -> TransferStep {
        if self.done >= self.total {
            TransferStep::Complete
        } else if now >= self.deadline {
            TransferStep::TimedOut
        } else {
            TransferStep::Move { from: self.done, wait: (self.deadline - now) as u64 }
        }
    }

    /// After some bytes went through.
    pub open spec fn after_move(self, count: usize) -> PipeTransfer {
        PipeTransfer { done: (self.done + count) as usize, ..self }
    }

    /// What is next.
    pub fn next(&self, now: u64) -> (r: TransferStep)
        ensures
            r == if self.done >= self.total {
                TransferStep::Complete
            } else if now >= self.deadline {
                TransferStep::TimedOut
            } else {
                TransferStep::Move { from: self.done, wait: (self.deadline - now) as u64 }
            },
            r == self.step(now),
    {
        if self.done >= self.total {
            TransferStep::Complete
        } else if now >= self.deadline {
            TransferStep::TimedOut
        } else {
            TransferStep::Move { from: self.done, wait: self.deadline - now }
        }
    }

    /// Some bytes went through. None at all means that the pipe is closed.
    pub fn moved(&mut self, count: usize) -> (r: bool)
        requires
            old(self).sound(),
            count <= old(self).total - old(self).done,
        ensures
            r == (count > 0),
            *final(self) == (PipeTransfer { done: (old(self).done + count) as usize, ..*old(self) }),
            *final(self) == old(self).after_move(count),
            final(self).sound(),
    {
        self.done = self.done + count;
        count > 0
    }
}

/// A character is read back from its 16-bit units: one that is no half of a pair, or two halves.
pub proof fn units_hold_their_character(c: char)
    ensures
        ({
            let units = units_of(c);
            if (c as int) < 0x1_0000 {
                units.len() == 1 && units[0] as int == c as int && !(0xd800 <= units[0] <= 0xdfff)
            } else {
                &&& units.len() == 2
                &&& 0xd800 <= units[0] <= 0xdbff
                &&& 0xdc00 <= units[1] <= 0xdfff
                &&& 0x1_0000 + (units[0] as int - 0xd800) * 0x400 + (units[1] as int - 0xdc00) == c as int
            }
        }),
{
}

/// The units of a text are those of its parts, one after the other.
pub proof fn units_of_joined_texts(first: Seq<char>, second: Seq<char>)
    ensures
        text_units(first + second) == text_units(first) + text_units(second),
    decreases second.len(),
{
    let whole = first + second;
    if second.len() == 0 {
        assert(whole =~= first);
        assert(text_units(first) + text_units(second) =~= text_units(first));
    } else {
        units_of_joined_texts(first, second.drop_last());
        assert(whole.drop_last() =~= first + second.drop_last());
        assert(text_units(whole) =~= text_units(first) + text_units(second));
    }
}

proof fn lemma_part_starts_behind(path: Seq<char>, at: int, high: int)
    requires
        body_start(path) <= at <= high <= path.len(),
        0 < at,
        forall|i: int| at <= i < high ==> !separates_in(path, #[trigger] path[i]),
        separates_in(path, path[at - 1]),
    ensures
        part_start(path, high) == at,
    decreases high - at,
{
    if at < high {
        assert(!separates_in(path, path[high - 1]));
        lemma_part_starts_behind(path, at, high - 1);
    }
}

/// The main program is looked for in the directory of the program itself, whatever the name of
/// that program is: a path through at least one directory leads to the file named at its end, and
/// the path of the main program differs from it in that name alone.
pub proof fn sibling_stands_in_the_same_directory(base: Seq<char>, name: Seq<char>)
    requires
        base.len() > 2,
        !separates(base.last()),
        base.last() != '.',
        name.len() > 0,
        name != "."@,
        name != ".."@,
        forall|i: int| 0 <= i < name.len() ==> !separates(#[trigger] name[i]),
        !is_verbatim(base + seq!['\\'] + name),
        body_start(base + seq!['\\'] + name) < base.len(),
    ensures
        file_name(base + seq!['\\'] + name) == Some(name),
        sibling_path(base + seq!['\\'] + name) == base + seq!['\\'] + "synly.exe"@,
{
    let path = base + seq!['\\'] + name;
    let at = base.len() + 1;
    let n = path.len() as int;
    assert(path[at - 1] == '\\');
    assert forall|i: int| at <= i < n implies !separates_in(path, #[trigger] path[i]) by {
        assert(path[i] == name[i - at]);
    }
    reveal_strlit(".");
    reveal_strlit("..");
    assert(path[n - 1] == name.last());
    assert(!separates_in(path, path[n - 1]));
    assert(!ends_in_idle_dot(path, n)) by {
        if path[n - 1] == '.' {
            if name.len() == 1 {
                assert(name =~= "."@);
            } else {
                assert(path[n - 2] == name[name.len() - 2]);
            }
        }
    }
    assert(last_part_end(path, n) == n);
    lemma_part_starts_behind(path, at as int, n);
    assert(last_part(path) == (at as int, n));
    assert(path.subrange(at as int, n) =~= name);
    assert(file_name(path) == Some(name));
    assert(path[at - 2] == base.last());
    assert(last_part_end(path, at - 1) == at - 1);
    assert(last_part_end(path, at as int) == at - 1);
    assert(path.take(at - 1) =~= base);
    reveal_strlit("\\");
    assert("\\"@ =~= seq!['\\']);
    assert(opened_directory(path) =~= base + seq!['\\']);
}

/// A name without its extension is the beginning of the name, up to the last dot that is not its
/// first character; without such a dot it is the whole name.
pub proof fn stem_ends_at_the_last_dot(name: Seq<char>)
    ensures
        stem(name).len() <= name.len(),
        stem(name) == name.take(stem(name).len() as int),
        stem(name).len() < name.len() ==> stem(name).len() > 0 && name[stem(name).len() as int] == '.'
            && forall|i: int| stem(name).len() < i < name.len() ==> #[trigger] name[i] != '.',
        stem(name).len() == name.len() ==> forall|i: int|
            0 < i < name.len() ==> #[trigger] name[i] != '.',
{
    if exists|i: int| 0 < i < name.len() && name[i] == '.' {
        let i = choose|i: int| 0 < i < name.len() && name[i] == '.';
        lemma_last_dot_is_last(name, i);
        assert(name.take(last_dot(name)).len() == last_dot(name));
    } else {
        assert(name.take(name.len() as int) =~= name);
    }
}

proof fn lemma_last_dot_is_last(name: Seq<char>, i: int)
    requires
        0 < i < name.len(),
        name[i] == '.',
    ensures
        i <= last_dot(name) < name.len(),
        name[last_dot(name)] == '.',
        forall|j: int| last_dot(name) < j < name.len() ==> #[trigger] name[j] != '.',
    decreases name.len(),
{
    if name.last() != '.' {
        lemma_last_dot_is_last(name.drop_last(), i);
        let at = last_dot(name.drop_last());
        assert forall|j: int| at < j < name.len() implies #[trigger] name[j] != '.' by {
            if j < name.len() - 1 {
                assert(name[j] == name.drop_last()[j]);
            }
        }
    }
}

/// Only what needs the pointer in its place waits for it: a button or a wheel.
pub proof fn buttons_and_wheels_wait_for_the_pointer(request: AgentRequest)
    ensures
        request.ordered() <==> match request {
            AgentRequest::InjectButton { .. } => true,
            AgentRequest::InjectWheel { .. } => true,
            _ => false,
        },
{
}

/// Bytes go through from where they stopped, never longer than there is time for; they are
/// through exactly when none is left, in time or not.
pub proof fn transfers_end_when_nothing_is_left(transfer: PipeTransfer, now: u64, count: usize)
    requires
        transfer.sound(),
        count <= transfer.total - transfer.done,
    ensures
        transfer.step(now) is Complete <==> transfer.done == transfer.total,
        transfer.after_move(count).step(now) is Complete <==> count == transfer.total
            - transfer.done,
        transfer.step(now) matches TransferStep::Move { from, wait } ==> from == transfer.done
            && wait > 0 && now + wait == transfer.deadline,
        transfer.step(now) is TimedOut <==> transfer.done < transfer.total && now
            >= transfer.deadline,
        transfer.after_move(count).done - transfer.done == count,
        transfer.after_move(count).total == transfer.total,
        transfer.after_move(count).deadline == transfer.deadline,
{
}

/// A pipe is tried again only where it may still come, or come free, and only in time: the wait
/// is a tenth of a second, or what is left if that is less.
pub proof fn pipes_are_tried_again_in_time(code: Option<i32>, now: u64, deadline: u64)
    ensures
        retry_wait(code, now, deadline) is Some <==> now < deadline && (code == Some(2i32) || code
            == Some(231i32)),
        retry_wait(code, now, deadline) matches Some(wait) ==> {
            &&& 0 < wait <= 100
            &&& now + wait <= deadline
            &&& wait == 100 || now + wait == deadline
        },
{
}

} // verus!
