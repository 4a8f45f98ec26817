//! What a session is set up with, how both ends agree on their parts, and reconnecting.

use crate::geometry::{DesktopLayout, DisplayRect, ScreenEdge};
use crate::hotkey::Hotkey;
use crate::mapping::{InputPlatform, KeyMappingConfig};
use crate::protocol::{InputMessage, MessageView};
use vstd::prelude::*;

verus! {

/// Time between two samples of pointer motion, in microseconds.
pub const MOTION_INTERVAL_MICROS: u64 = 8333;

/// Time between two heartbeats, in milliseconds, as all the times below.
pub const HEARTBEAT_INTERVAL: u64 = 250;

/// How long an end waits for a heartbeat before it gives up.
pub const HEARTBEAT_TIMEOUT: u64 = 1000;

/// How long the sender waits for the first heartbeat after it has handed over control.
pub const ACTIVATION_TIMEOUT: u64 = 5000;

/// How long the sender stays with its own desktop after control came back.
pub const RETURN_COOLDOWN: u64 = 300;

/// Time between two looks at whether a program has captured the cursor.
pub const GAME_MODE_POLL: u64 = 500;

/// Time between two looks at whether events were lost.
pub const OVERFLOW_POLL: u64 = 50;

/// How long proving each other's identity may take.
pub const AUTH_TIMEOUT: u64 = 5000;

/// How far inside the edge the pointer is put, in pixels.
pub const EDGE_INSET: i32 = 8;

/// How many pixels before an edge make the pointer leave without a further movement.
pub const JUMP_ZONE_SIZE: i32 = 1;

/// The shortest wait before connecting again, in seconds.
pub const RECONNECT_MIN_SECS: u64 = 2;

/// The longest wait before connecting again, in seconds.
pub const RECONNECT_MAX_SECS: u64 = 20;

/// What a machine is set up to do with input.
#[derive(Clone, Copy, Debug, PartialEq, Eq, Structural)]
pub enum InputMode {
    Off,
    Send,
    Receive,
}

/// The part that this machine has in a session.
#[derive(Clone, Copy, Debug, PartialEq, Eq, Structural)]
pub enum LocalInputRole {
    Send,
    Receive,
}

/// The part of the first machine when the two modes complement each other.
pub open spec fn negotiated(local: InputMode, remote: InputMode) -> Option<LocalInputRole> {
    if local is Send && remote is Receive {
        Some(LocalInputRole::Send)
    } else if local is Receive && remote is Send {
        Some(LocalInputRole::Receive)
    } else {
        None
    }
}

/// The part that this machine has with a peer, if their modes complement each other.
pub fn negotiate_input(local: InputMode, remote: InputMode) -> (r: Option<LocalInputRole>)
    ensures
        r == negotiated(local, remote),
{
    match (local, remote) {
        (InputMode::Send, InputMode::Receive) => Some(LocalInputRole::Send),
        (InputMode::Receive, InputMode::Send) => Some(LocalInputRole::Receive),
        _ => None,
    }
}

/// Both machines agree whether there is a session, and then take opposite parts.
pub proof fn both_ends_agree(local: InputMode, remote: InputMode)
    ensures
        negotiated(local, remote) is Some <==> negotiated(remote, local) is Some,
        negotiated(local, remote) is Some ==> negotiated(local, remote) != negotiated(remote, local),
        negotiated(local, remote) is Some ==> !(local is Off) && !(remote is Off),
{
}

/// What is left to do before input can be used on this machine.
#[derive(Clone, Copy, Debug, PartialEq, Eq, Structural)]
pub enum SupportCheck {
    /// Input is switched off.
    NotNeeded,
    /// The system has to be asked for permission.
    AskPermission,
    /// The system is not supported.
    Unsupported,
}

/// What is left to do before input can be used, on a system that is supported or not.
pub fn ensure_platform_supported(mode: InputMode, supported: bool) -> (r: SupportCheck)
    ensures
        r == if mode is Off {
            SupportCheck::NotNeeded
        } else if supported {
            SupportCheck::AskPermission
        } else {
            SupportCheck::Unsupported
        },
{
    match mode {
        InputMode::Off => SupportCheck::NotNeeded,
        _ => if supported {
            SupportCheck::AskPermission
        } else {
            SupportCheck::Unsupported
        },
    }
}

/// How the receiver treats the cursor.
#[derive(Clone, Copy, Debug, PartialEq, Eq, Structural)]
pub enum CursorMode {
    /// As on a desktop: it has a position.
    Desktop,
    /// By whether a program has captured it.
    Auto,
    /// As in a game: only movements count.
    Game,
}

impl Default for CursorMode {
    fn default() -> (r: Self)
        ensures
            r == CursorMode::Desktop,
    {
        CursorMode::Desktop
    }
}

impl CursorMode {
    /// The name of the mode on screen.
    pub open spec fn label_text(self) -> Seq<char> {
        match self {
            CursorMode::Desktop => "桌面光标"@,
            CursorMode::Auto => "自动切换"@,
            CursorMode::Game => "游戏光标"@,
        }
    }

    pub fn label(self) -> (r: &'static str)
        ensures
            r@ == self.label_text(),
    {
        match self {
            CursorMode::Desktop => "桌面光标",
            CursorMode::Auto => "自动切换",
            CursorMode::Game => "游戏光标",
        }
    }
}

/// What a session is set up with.
#[derive(Clone, Debug, PartialEq, Eq)]
pub struct InputRuntimeOptions {
    pub mode: InputMode,
    pub edge: ScreenEdge,
    pub hotkey: Hotkey,
    pub reverse_mouse_wheel: bool,
    pub reverse_trackpad: bool,
    pub native_scroll_macos_to_windows: bool,
    pub native_scroll_windows_to_macos: bool,
    pub block_switch_on_press: bool,
    pub filter_app_events: bool,
    pub key_mapping: KeyMappingConfig,
    pub cursor_mode: CursorMode,
}

/// Why the first message after the proofs was refused.
#[derive(Clone, Copy, Debug, PartialEq, Eq, Structural)]
pub enum HelloError {
    /// A proof came once more.
    RepeatedProof,
    /// Something else came before the desktop was made known.
    TooEarly,
}

/// The platform and the desktop in the first message after the proofs.
pub open spec fn hello_of(message: MessageView) -> Result<(InputPlatform, Seq<DisplayRect>), HelloError> {
    match message {
        MessageView::Hello { platform, layout } => Ok((platform, layout)),
        MessageView::Proof { .. } => Err(HelloError::RepeatedProof),
        _ => Err(HelloError::TooEarly),
    }
}

/// Takes the first message after the proofs, which makes the other end's desktop known.
pub fn take_hello(message: InputMessage) -> (r: Result<(InputPlatform, DesktopLayout), HelloError>)
    ensures
        match r {
            Ok((platform, layout)) => hello_of(message@) == Ok::<
                (InputPlatform, Seq<DisplayRect>),
                HelloError,
            >((platform, layout@)),
            Err(error) => hello_of(message@) == Err::<
                (InputPlatform, Seq<DisplayRect>),
                HelloError,
            >(error),
        },
{
    match message {
        InputMessage::Hello { platform, layout } => Ok((platform, layout)),
        InputMessage::Proof { .. } => Err(HelloError::RepeatedProof),
        _ => Err(HelloError::TooEarly),
    }
}

/// The wait of a client before it connects again.
#[derive(Clone, Copy, Debug, PartialEq, Eq, Structural)]
pub struct Reconnect {
    pub delay_secs: u64,
}

/// The wait after one more failure: twice as long, up to the longest.
pub open spec fn next_delay(delay_secs: int) -> int {
    if 2 * delay_secs < RECONNECT_MAX_SECS {
        2 * delay_secs
    } else {
        RECONNECT_MAX_SECS as int
    }
}

impl Reconnect {
    pub fn new() -> (r: Self)
        ensures
            r.delay_secs == RECONNECT_MIN_SECS,
    {
        Reconnect { delay_secs: RECONNECT_MIN_SECS }
    }

    /// A connection was made: the next wait is the shortest one.
    pub fn connected(&mut self)
        ensures
            final(self).delay_secs == RECONNECT_MIN_SECS,
    {
        self.delay_secs = RECONNECT_MIN_SECS;
    }

    /// A connection failed or ended with an error. Gives the seconds to wait before the next
    /// one, or nothing when the platform cannot be used any more.
    pub fn failed(&mut self, terminal: bool) -> (r: Option<u64>)
        ensures
            r == if terminal {
                None
            } else {
                Some(old(self).delay_secs)
            },
            final(self).delay_secs == if terminal {
                old(self).delay_secs as int
            } else {
                next_delay(old(self).delay_secs as int)
            },
    {
        if terminal {
            return None;
        }
        let wait: u64 = self.delay_secs;
        self.delay_secs = if wait >= 10 {
            RECONNECT_MAX_SECS
        } else {
            2 * wait
        };
        Some(wait)
    }
}

/// The wait after `failures` failures in a row.
pub open spec fn delay_after(failures: nat) -> int
    decreases failures,
{
    if failures == 0 {
        RECONNECT_MIN_SECS as int
    } else {
        next_delay(delay_after((failures - 1) as nat))
    }
}

/// However many connections fail in a row, the wait stays between the shortest and the longest,
/// and it never gets shorter.
pub proof fn delay_stays_in_range(failures: nat)
    ensures
        RECONNECT_MIN_SECS <= delay_after(failures) <= RECONNECT_MAX_SECS,
        delay_after(failures) <= delay_after(failures + 1),
    decreases failures,
{
    if failures > 0 {
        delay_stays_in_range((failures - 1) as nat);
    }
}

/// One machine sends and the other receives, and there is no other way to work together: each
/// then does what it is set up to do.
pub proof fn modes_have_to_complement_each_other(local: InputMode, remote: InputMode)
    ensures
        negotiated(local, remote) == Some(LocalInputRole::Send) <==> local is Send
            && remote is Receive,
        negotiated(local, remote) == Some(LocalInputRole::Receive) <==> local is Receive
            && remote is Send,
        negotiated(local, remote) is None <==> local is Off || remote is Off || local == remote,
{
}

/// A session begins with a message that names the platform and the desktop, which are taken as
/// they are; a proof that comes once more is told apart from anything else that comes too early.
pub proof fn sessions_begin_with_a_desktop(message: MessageView)
    ensures
        message matches MessageView::Hello { platform, layout } ==> hello_of(message) == Ok::<
            (InputPlatform, Seq<DisplayRect>),
            HelloError,
        >((platform, layout)),
        hello_of(message) is Ok ==> message is Hello,
        message is Proof ==> hello_of(message) == Err::<(InputPlatform, Seq<DisplayRect>), HelloError>(
            HelloError::RepeatedProof,
        ),
        !(message is Hello) && !(message is Proof) ==> hello_of(message) == Err::<
            (InputPlatform, Seq<DisplayRect>),
            HelloError,
        >(HelloError::TooEarly),
{
}

/// With each failure the wait becomes twice as long, until it is as long as it gets.
pub proof fn waits_double(failures: nat)
    ensures
        delay_after(0) == RECONNECT_MIN_SECS,
        delay_after(failures + 1) == 2 * delay_after(failures) || (2 * delay_after(failures)
            > RECONNECT_MAX_SECS && delay_after(failures + 1) == RECONNECT_MAX_SECS),
{
    delay_stays_in_range(failures);
}

/// How the times of a session fit together: 120 samples of motion and four heartbeats a second,
/// four heartbeats to wait for, five times as long before the first one, and a rest that is over
/// before the next heartbeat but one.
pub proof fn times_fit_together()
    ensures
        120 * MOTION_INTERVAL_MICROS <= 1_000_000 < 120 * (MOTION_INTERVAL_MICROS + 1),
        4 * HEARTBEAT_INTERVAL == 1000,
        HEARTBEAT_TIMEOUT == 4 * HEARTBEAT_INTERVAL,
        ACTIVATION_TIMEOUT == 5 * HEARTBEAT_TIMEOUT,
        AUTH_TIMEOUT == ACTIVATION_TIMEOUT,
        HEARTBEAT_INTERVAL < RETURN_COOLDOWN < 2 * HEARTBEAT_INTERVAL,
        GAME_MODE_POLL == 2 * HEARTBEAT_INTERVAL,
        5 * OVERFLOW_POLL == HEARTBEAT_INTERVAL,
        RECONNECT_MAX_SECS == 10 * RECONNECT_MIN_SECS,
        JUMP_ZONE_SIZE == 1,
        EDGE_INSET == 8 * JUMP_ZONE_SIZE,
{
}

} // verus!
