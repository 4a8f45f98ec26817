//! The service of the system that starts the agent.

use crate::identifier;
use crate::identifier::{dash_at, identifier_text, is_hex, uuid_text};
use crate::text;
use vstd::prelude::*;
use vstd::string::*;

verus! {

/// How long the service waits before it tries again, in milliseconds.
pub const SERVICE_STOP_POLL: u64 = 3_000;

/// How long stopping the service may take, in milliseconds.
pub const STOP_TIMEOUT: u64 = 30_000;

/// The code of the system for a service that is there already.
pub const ERROR_SERVICE_EXISTS: i32 = 1073;

/// The code of the system for a service that is not there.
pub const ERROR_SERVICE_DOES_NOT_EXIST: i32 = 1060;

/// The code of the system for a service that runs already.
pub const ERROR_SERVICE_ALREADY_RUNNING: i32 = 1056;

/// The code of the system for a user who has said no.
pub const ERROR_CANCELLED: i32 = 1223;

/// The state that the system gives for a service that runs.
pub const SERVICE_RUNNING: u32 = 4;

/// The number of the system for no session.
pub const NO_SESSION: u32 = 0xffff_ffff;

/// Whether the service is there.
#[derive(Clone, Copy, Debug, PartialEq, Eq, Structural)]
pub enum ServiceStatus {
    NotInstalled,
    Stopped,
    Running,
}

impl ServiceStatus {
    pub open spec fn label_text(self) -> Seq<char> {
        match self {
            ServiceStatus::NotInstalled => "not-installed"@,
            ServiceStatus::Stopped => "stopped"@,
            ServiceStatus::Running => "running"@,
        }
    }

    pub fn label(self) -> (r: &'static str)
        ensures
            r@ == self.label_text(),
    {
        match self {
            ServiceStatus::NotInstalled => "not-installed",
            ServiceStatus::Stopped => "stopped",
            ServiceStatus::Running => "running",
        }
    }

    /// The status by the state that the system gives for the service.
    pub fn of_state(state: u32) -> (r: Self)
        ensures
            r == if state == SERVICE_RUNNING {
                ServiceStatus::Running
            } else {
                ServiceStatus::Stopped
            },
    {
        if state == SERVICE_RUNNING {
            ServiceStatus::Running
        } else {
            ServiceStatus::Stopped
        }
    }

    /// The status where the service could not be opened: the system may say that it is not
    /// there. Other codes say nothing of the status.
    pub fn of_open_error(code: i32) -> (r: Option<Self>)
        ensures
            r == if code == ERROR_SERVICE_DOES_NOT_EXIST {
                Some(ServiceStatus::NotInstalled)
            } else {
                None
            },
    {
        if code == ERROR_SERVICE_DOES_NOT_EXIST {
            Some(ServiceStatus::NotInstalled)
        } else {
            None
        }
    }
}

/// What is remembered of the service while the program runs.
#[derive(Clone, Copy, Debug, PartialEq, Eq, Structural)]
pub struct ServiceMemory {
    pub install_attempted: bool,
    pub path_repair_attempted: bool,
    pub seen_installed: bool,
    pub manually_uninstalled: bool,
}

/// Nothing remembered.
pub open spec fn fresh_memory() -> ServiceMemory {
    ServiceMemory {
        install_attempted: false,
        path_repair_attempted: false,
        seen_installed: false,
        manually_uninstalled: false,
    }
}

impl Default for ServiceMemory {
    fn default() -> (r: Self)
        ensures
            r == fresh_memory(),
    {
        ServiceMemory {
            install_attempted: false,
            path_repair_attempted: false,
            seen_installed: false,
            manually_uninstalled: false,
        }
    }
}

impl ServiceMemory {
    /// What is remembered after a look at the service: once it was there, its absence means
    /// that somebody has taken it away.
    pub open spec fn looked(self, status: Option<ServiceStatus>) -> ServiceMemory {
        match status {
            Some(ServiceStatus::NotInstalled) => ServiceMemory {
                manually_uninstalled: self.manually_uninstalled || self.seen_installed,
                ..self
            },
            Some(_) => ServiceMemory { seen_installed: true, ..self },
            None => self,
        }
    }

    fn look(&mut self, status: Option<ServiceStatus>)
        ensures
            *final(self) == old(self).looked(status),
    {
        match status {
            Some(ServiceStatus::NotInstalled) => {
                if self.seen_installed {
                    self.manually_uninstalled = true;
                }
            },
            Some(_) => {
                self.seen_installed = true;
            },
            None => {},
        }
    }
}

/// Installing the service was tried.
pub fn mark_install_attempted(memory: &mut ServiceMemory)
    ensures
        *final(memory) == (ServiceMemory { install_attempted: true, ..*old(memory) }),
{
    memory.install_attempted = true;
}

/// Putting the path of the service right was tried.
pub fn mark_path_repair_attempted(memory: &mut ServiceMemory)
    ensures
        *final(memory) == (ServiceMemory { path_repair_attempted: true, ..*old(memory) }),
{
    memory.path_repair_attempted = true;
}

/// Whether the service is there, by its status as far as that could be read.
pub fn is_installed(memory: &mut ServiceMemory, status: Option<ServiceStatus>) -> (r: bool)
    ensures
        r == (status == Some(ServiceStatus::Stopped) || status == Some(ServiceStatus::Running)),
        *final(memory) == old(memory).looked(status),
{
    memory.look(status);
    match status {
        Some(ServiceStatus::Stopped) | Some(ServiceStatus::Running) => true,
        _ => false,
    }
}

/// Whether the service can be asked, by its status as far as that could be read.
pub fn is_available(memory: &mut ServiceMemory, status: Option<ServiceStatus>) -> (r: bool)
    ensures
        r == (status == Some(ServiceStatus::Running)),
        *final(memory) == old(memory).looked(status),
{
    memory.look(status);
    match status {
        Some(ServiceStatus::Running) => true,
        _ => false,
    }
}

/// Installing with more rights has ended. A user may have refused them.
pub fn install_via_uac(memory: &mut ServiceMemory, installed: bool) -> (r: bool)
    ensures
        r == installed,
        *final(memory) == if installed {
            ServiceMemory { seen_installed: true, ..*old(memory) }
        } else {
            *old(memory)
        },
{
    if installed {
        memory.seen_installed = true;
    }
    installed
}

/// Taking the service away with more rights has ended. A user may have refused them. Where it
/// is gone, it is not installed again by the program itself.
pub fn uninstall_via_uac(memory: &mut ServiceMemory, uninstalled: bool) -> (r: bool)
    ensures
        r == uninstalled,
        *final(memory) == if uninstalled {
            ServiceMemory { install_attempted: true, manually_uninstalled: true, ..*old(memory) }
        } else {
            *old(memory)
        },
{
    if uninstalled {
        memory.install_attempted = true;
        memory.manually_uninstalled = true;
    }
    uninstalled
}

/// What is remembered of the service stays remembered.
pub proof fn memory_only_grows(memory: ServiceMemory, status: Option<ServiceStatus>)
    ensures
        memory.install_attempted == memory.looked(status).install_attempted,
        memory.path_repair_attempted == memory.looked(status).path_repair_attempted,
        memory.seen_installed ==> memory.looked(status).seen_installed,
        memory.manually_uninstalled ==> memory.looked(status).manually_uninstalled,
{
}

/// A service that was there and is gone counts as taken away.
pub proof fn vanished_service_was_taken_away(memory: ServiceMemory, status: ServiceStatus)
    requires
        !(status is NotInstalled),
    ensures
        memory.looked(Some(status)).looked(Some(ServiceStatus::NotInstalled)).manually_uninstalled,
{
}

/// What came of a program that was run with more rights.
#[derive(Clone, Copy, Debug, PartialEq, Eq, Structural)]
pub enum ElevatedRun {
    Succeeded,
    /// The user has said no.
    Refused,
    Failed,
}

/// What came of a program that could not be run with more rights.
pub fn elevation_error(code: Option<i32>) -> (r: ElevatedRun)
    ensures
        r == if code == Some(ERROR_CANCELLED) {
            ElevatedRun::Refused
        } else {
            ElevatedRun::Failed
        },
{
    match code {
        Some(ERROR_CANCELLED) => ElevatedRun::Refused,
        _ => ElevatedRun::Failed,
    }
}

/// What came of a program that was run, by whether it has ended in time and its exit code.
pub fn elevated_result(ended: bool, exit_code: u32) -> (r: ElevatedRun)
    ensures
        r == if ended && exit_code == 0 {
            ElevatedRun::Succeeded
        } else {
            ElevatedRun::Failed
        },
{
    if ended && exit_code == 0 {
        ElevatedRun::Succeeded
    } else {
        ElevatedRun::Failed
    }
}

/// A step of installing the service.
#[derive(Clone, Copy, Debug, PartialEq, Eq, Structural)]
pub enum InstallAction {
    OpenManager,
    Create,
    /// Open the service that is there already.
    OpenExisting,
    Configure,
    /// Have the system start the service some time after itself.
    Delay,
    Describe,
    Start,
    Done,
    /// Installing has failed at this step.
    Failed(InstallStage),
}

/// Where installing stands.
#[derive(Clone, Copy, Debug, PartialEq, Eq, Structural)]
pub enum InstallStage {
    Opening,
    Creating,
    Reopening,
    Configuring,
    Delaying,
    Describing,
    Starting,
}

/// The next step of installing. `succeeded` and the code of the system say what came of the
/// last one. A service that is there already is set up anew, one that runs already is fine,
/// and the service needs neither the delay nor the description.
pub open spec fn install_step(stage: InstallStage, succeeded: bool, code: Option<i32>) -> InstallAction {
    match stage {
        InstallStage::Opening => if succeeded {
            InstallAction::Create
        } else {
            InstallAction::Failed(stage)
        },
        InstallStage::Creating => if succeeded {
            InstallAction::Configure
        } else if code == Some(ERROR_SERVICE_EXISTS) {
            InstallAction::OpenExisting
        } else {
            InstallAction::Failed(stage)
        },
        InstallStage::Reopening => if succeeded {
            InstallAction::Configure
        } else {
            InstallAction::Failed(stage)
        },
        InstallStage::Configuring => if succeeded {
            InstallAction::Delay
        } else {
            InstallAction::Failed(stage)
        },
        InstallStage::Delaying => InstallAction::Describe,
        InstallStage::Describing => InstallAction::Start,
        InstallStage::Starting => if succeeded || code == Some(ERROR_SERVICE_ALREADY_RUNNING) {
            InstallAction::Done
        } else {
            InstallAction::Failed(stage)
        },
    }
}

/// The next step of installing.
pub fn install(stage: InstallStage, succeeded: bool, code: Option<i32>) -> (r: InstallAction)
    ensures
        r == install_step(stage, succeeded, code),
{
    let exists = match code {
        Some(ERROR_SERVICE_EXISTS) => true,
        _ => false,
    };
    let running = match code {
        Some(ERROR_SERVICE_ALREADY_RUNNING) => true,
        _ => false,
    };
    match stage {
        InstallStage::Opening if succeeded => InstallAction::Create,
        InstallStage::Creating if succeeded => InstallAction::Configure,
        InstallStage::Creating if exists => InstallAction::OpenExisting,
        InstallStage::Reopening if succeeded => InstallAction::Configure,
        InstallStage::Configuring if succeeded => InstallAction::Delay,
        InstallStage::Delaying => InstallAction::Describe,
        InstallStage::Describing => InstallAction::Start,
        InstallStage::Starting if succeeded || running => InstallAction::Done,
        _ => InstallAction::Failed(stage),
    }
}

/// Installing fails only where a step that is needed has failed. A service that is there
/// already, or runs already, is no failure.
pub proof fn installing_fails_only_at_needed_steps(stage: InstallStage, succeeded: bool, code: Option<i32>)
    requires
        install_step(stage, succeeded, code) is Failed,
    ensures
        !succeeded,
        !(stage is Delaying || stage is Describing),
        stage is Creating ==> code != Some(ERROR_SERVICE_EXISTS),
        stage is Starting ==> code != Some(ERROR_SERVICE_ALREADY_RUNNING),
{
}

/// A step of serving one process.
#[derive(Clone, Copy, Debug, PartialEq, Eq, Structural)]
pub enum AcceptAction {
    /// Forget the agents that have ended, and look for the session of the user at the machine.
    FindSession,
    ReadUser,
    ReadUserName,
    MakeAccess,
    MakePipe,
    WaitForClient,
    Serve,
    /// Wait some time, and begin again.
    Rest,
    Stop,
}

/// Where serving stands.
#[derive(Clone, Copy, Debug, PartialEq, Eq, Structural)]
pub enum AcceptStage {
    Beginning,
    FindingSession,
    ReadingUser,
    ReadingUserName,
    MakingAccess,
    MakingPipe,
    Waiting,
    Serving,
    Resting,
}

/// The next step of serving. What fails before somebody could come is tried again after a rest;
/// where nobody has come, and after somebody was served, the next round begins at once.
pub open spec fn accept_step(stage: AcceptStage, succeeded: bool, stop: bool) -> AcceptAction {
    match stage {
        AcceptStage::Beginning => if stop {
            AcceptAction::Stop
        } else {
            AcceptAction::FindSession
        },
        AcceptStage::FindingSession => if succeeded {
            AcceptAction::ReadUser
        } else {
            AcceptAction::Rest
        },
        AcceptStage::ReadingUser => if succeeded {
            AcceptAction::ReadUserName
        } else {
            AcceptAction::Rest
        },
        AcceptStage::ReadingUserName => if succeeded {
            AcceptAction::MakeAccess
        } else {
            AcceptAction::Rest
        },
        AcceptStage::MakingAccess => if succeeded {
            AcceptAction::MakePipe
        } else {
            AcceptAction::Rest
        },
        AcceptStage::MakingPipe => if succeeded {
            AcceptAction::WaitForClient
        } else {
            AcceptAction::Rest
        },
        AcceptStage::Waiting => if succeeded {
            AcceptAction::Serve
        } else if stop {
            AcceptAction::Stop
        } else {
            AcceptAction::FindSession
        },
        AcceptStage::Serving | AcceptStage::Resting => if stop {
            AcceptAction::Stop
        } else {
            AcceptAction::FindSession
        },
    }
}

/// The next step of serving.
pub fn service_accept_loop(stage: AcceptStage, succeeded: bool, stop: bool) -> (r: AcceptAction)
    ensures
        r == accept_step(stage, succeeded, stop),
{
    let again = if stop {
        AcceptAction::Stop
    } else {
        AcceptAction::FindSession
    };
    match stage {
        AcceptStage::Beginning | AcceptStage::Serving | AcceptStage::Resting => again,
        AcceptStage::Waiting => if succeeded {
            AcceptAction::Serve
        } else {
            again
        },
        _ if !succeeded => AcceptAction::Rest,
        AcceptStage::FindingSession => AcceptAction::ReadUser,
        AcceptStage::ReadingUser => AcceptAction::ReadUserName,
        AcceptStage::ReadingUserName => AcceptAction::MakeAccess,
        AcceptStage::MakingAccess => AcceptAction::MakePipe,
        AcceptStage::MakingPipe => AcceptAction::WaitForClient,
    }
}

/// Nothing but a step that has failed makes the service rest, and it never rests once somebody
/// could come.
pub proof fn rests_after_failures_only(stage: AcceptStage, succeeded: bool, stop: bool)
    requires
        accept_step(stage, succeeded, stop) is Rest,
    ensures
        !succeeded,
        !(stage is Waiting || stage is Serving || stage is Resting || stage is Beginning),
{
}

/// How waiting for the service to stop goes on.
#[derive(Clone, Copy, Debug, PartialEq, Eq, Structural)]
pub enum StopWait {
    Delete,
    Wait,
    TimedOut,
}

/// How waiting for the service to stop goes on, by its state as far as that could be read and
/// by the time that has gone, in milliseconds.
pub fn stop_wait(stopped: Option<bool>, elapsed: u64) -> (r: StopWait)
    ensures
        r == match stopped {
            None => StopWait::Delete,
            Some(true) => StopWait::Delete,
            Some(false) => if elapsed >= STOP_TIMEOUT {
                StopWait::TimedOut
            } else {
                StopWait::Wait
            },
        },
{
    match stopped {
        None | Some(true) => StopWait::Delete,
        Some(false) => if elapsed >= STOP_TIMEOUT {
            StopWait::TimedOut
        } else {
            StopWait::Wait
        },
    }
}

/// What the service is asked.
#[derive(Debug)]
pub enum ServiceRequest {
    SpawnInputAgent { command_pipe: String, event_pipe: String, token: String },
}

impl ServiceRequest {
    pub fn name(&self) -> (r: &'static str)
        ensures
            r@ == "SpawnInputAgent"@,
    {
        match self {
            ServiceRequest::SpawnInputAgent { .. } => "SpawnInputAgent",
        }
    }
}

/// What the service answers.
#[derive(Debug)]
pub enum ServiceResponse {
    Done,
    Refused(String),
}

/// What an answer of the service means to who asked.
pub fn settle_service_response(response: ServiceResponse) -> (r: Result<(), String>)
    ensures
        match response {
            ServiceResponse::Done => r is Ok,
            ServiceResponse::Refused(message) => r matches Err(text) && text@ == message@,
        },
{
    match response {
        ServiceResponse::Done => Ok(()),
        ServiceResponse::Refused(message) => Err(message),
    }
}

/// Why a request is refused.
#[derive(Clone, Copy, Debug, PartialEq, Eq, Structural)]
pub enum ArgumentError {
    /// The name is none of this program's.
    WrongName,
    /// The name does not end in an identifier.
    WrongId,
    /// The token is no identifier.
    WrongToken,
}

fn uuid_from(chars: &Vec<char>, from: usize) -> (r: bool)
    requires
        from <= chars@.len(),
    ensures
        r == uuid_text(chars@.skip(from as int)),
{
    let ghost text = chars@.skip(from as int);
    if chars.len() - from != 36 {
        return false;
    }
    let mut i: usize = 0;
    while i < 36
        invariant
            i <= 36,
            text == chars@.skip(from as int),
            chars@.len() == from + 36,
            from + 36 <= usize::MAX,
            forall|k: int|
                0 <= k < i ==> if dash_at(k) {
                    #[trigger] text[k] == '-'
                } else {
                    is_hex(text[k])
                },
        decreases 36 - i,
    {
        let c = chars[from + i];
        assert(c == text[i as int]);
        let fits = if i == 8 || i == 13 || i == 18 || i == 23 {
            c == '-'
        } else {
            ('0' <= c && c <= '9') || ('a' <= c && c <= 'f') || ('A' <= c && c <= 'F')
        };
        if !fits {
            return false;
        }
        i += 1;
    }
    true
}

/// Whether a text is an identifier.
pub fn is_uuid_text(value: &str) -> (r: bool)
    ensures
        r == uuid_text(value@),
{
    let chars = text::chars_of(value);
    assert(chars@.skip(0) =~= chars@);
    uuid_from(&chars, 0)
}

/// What the name of a pipe of this program starts with.
pub open spec fn pipe_prefix(kind: Seq<char>) -> Seq<char> {
    "\\\\.\\pipe\\synly-input-"@ + kind + "-"@
}

/// The name of a pipe of this program.
pub fn pipe_name(kind: &str, id: &str) -> (r: String)
    ensures
        r@ == pipe_prefix(kind@) + id@,
{
    let mut out = "\\\\.\\pipe\\synly-input-".to_owned();
    out.append(kind);
    out.append("-");
    out.append(id);
    out
}

fn starts_with(chars: &Vec<char>, prefix: &Vec<char>) -> (r: bool)
    ensures
        r == prefix@.is_prefix_of(chars@),
{
    if chars.len() < prefix.len() {
        return false;
    }
    let mut i: usize = 0;
    while i < prefix.len()
        invariant
            i <= prefix@.len() <= chars@.len(),
            forall|k: int| 0 <= k < i ==> chars@[k] == prefix@[k],
        decreases prefix@.len() - i,
    {
        if chars[i] != prefix[i] {
            assert(chars@.take(prefix@.len() as int)[i as int] != prefix@[i as int]);
            return false;
        }
        i += 1;
    }
    assert(chars@.take(prefix@.len() as int) =~= prefix@);
    true
}

/// Whether the name of a pipe is one of this program's for a purpose, with an identifier at its
/// end.
pub open spec fn pipe_outcome(pipe: Seq<char>, kind: Seq<char>) -> Result<(), ArgumentError> {
    let prefix = pipe_prefix(kind);
    if !prefix.is_prefix_of(pipe) {
        Err(ArgumentError::WrongName)
    } else if !uuid_text(pipe.skip(prefix.len() as int)) {
        Err(ArgumentError::WrongId)
    } else {
        Ok(())
    }
}

/// Whether the name of a pipe is acceptable for a purpose.
pub fn validate_pipe_argument(pipe: &str, kind: &str) -> (r: Result<(), ArgumentError>)
    ensures
        r == pipe_outcome(pipe@, kind@),
{
    let mut prefix = "\\\\.\\pipe\\synly-input-".to_owned();
    prefix.append(kind);
    prefix.append("-");
    let chars = text::chars_of(pipe);
    let prefix_chars = text::chars_of(prefix.as_str());
    if !starts_with(&chars, &prefix_chars) {
        return Err(ArgumentError::WrongName);
    }
    if !uuid_from(&chars, prefix_chars.len()) {
        return Err(ArgumentError::WrongId);
    }
    Ok(())
}

/// Whether a token is an identifier.
pub fn validate_token_argument(token: &str) -> (r: Result<(), ArgumentError>)
    ensures
        r == if uuid_text(token@) {
            Ok::<(), ArgumentError>(())
        } else {
            Err(ArgumentError::WrongToken)
        },
{
    if is_uuid_text(token) {
        Ok(())
    } else {
        Err(ArgumentError::WrongToken)
    }
}

/// Whether what an agent is to be started with is acceptable. The first part that is not names
/// the error.
pub open spec fn request_outcome(
    command_pipe: Seq<char>,
    event_pipe: Seq<char>,
    token: Seq<char>,
) -> Result<(), ArgumentError> {
    match (pipe_outcome(command_pipe, "command"@), pipe_outcome(event_pipe, "event"@)) {
        (Err(error), _) => Err(error),
        (_, Err(error)) => Err(error),
        _ => if uuid_text(token) {
            Ok(())
        } else {
            Err(ArgumentError::WrongToken)
        },
    }
}

/// Whether what the service is asked to start the agent with is acceptable.
pub fn check_request(request: &ServiceRequest) -> (r: Result<(), ArgumentError>)
    ensures
        request matches ServiceRequest::SpawnInputAgent { command_pipe, event_pipe, token }
            ==> r == request_outcome(command_pipe@, event_pipe@, token@),
{
    match request {
        ServiceRequest::SpawnInputAgent { command_pipe, event_pipe, token } => {
            match validate_pipe_argument(command_pipe.as_str(), "command") {
                Err(error) => return Err(error),
                Ok(()) => {},
            }
            match validate_pipe_argument(event_pipe.as_str(), "event") {
                Err(error) => return Err(error),
                Ok(()) => {},
            }
            validate_token_argument(token.as_str())
        },
    }
}

/// Whether a request is for an agent with the given connection and token.
pub open spec fn asks_for_agent(request: ServiceRequest, connection: Seq<u8>, token: Seq<u8>) -> bool {
    request matches ServiceRequest::SpawnInputAgent { command_pipe, event_pipe, token: sent } && {
        &&& command_pipe@ == pipe_prefix("command"@) + identifier_text(connection)
        &&& event_pipe@ == pipe_prefix("event"@) + identifier_text(connection)
        &&& sent@ == identifier_text(token)
    }
}

/// The request for an agent: two pipes that share the identifier of the connection, and a token.
pub fn agent_request(connection: &[u8; 16], token: &[u8; 16]) -> (r: ServiceRequest)
    ensures
        asks_for_agent(r, connection@, token@),
{
    let id = identifier::text_of(connection);
    ServiceRequest::SpawnInputAgent {
        command_pipe: pipe_name("command", id.as_str()),
        event_pipe: pipe_name("event", id.as_str()),
        token: identifier::text_of(token),
    }
}

/// The request for an agent with a new connection and a new token.
pub fn new_agent_request() -> (r: ServiceRequest)
    ensures
        exists|connection: Seq<u8>, token: Seq<u8>|
            {
                &&& identifier::is_random_identifier(connection)
                &&& identifier::is_random_identifier(token)
                &&& #[trigger] asks_for_agent(r, connection, token)
            },
{
    let connection = identifier::random_identifier();
    let token = identifier::random_identifier();
    let r = agent_request(&connection, &token);
    assert(asks_for_agent(r, connection@, token@));
    r
}

/// What this program asks the service for is accepted, whatever the identifiers are.
pub proof fn own_requests_are_accepted(request: ServiceRequest, connection: Seq<u8>, token: Seq<u8>)
    requires
        connection.len() == 16,
        token.len() == 16,
        asks_for_agent(request, connection, token),
    ensures
        request matches ServiceRequest::SpawnInputAgent { command_pipe, event_pipe, token: sent }
            ==> request_outcome(command_pipe@, event_pipe@, sent@) == Ok::<(), ArgumentError>(()),
{
    own_pipes_are_accepted("command"@, connection);
    own_pipes_are_accepted("event"@, connection);
    identifier::identifier_text_is_recognised(token);
}

/// The names that this program gives to pipes are accepted for their purpose.
pub proof fn own_pipes_are_accepted(kind: Seq<char>, connection: Seq<u8>)
    requires
        connection.len() == 16,
    ensures
        pipe_outcome(pipe_prefix(kind) + identifier_text(connection), kind) == Ok::<
            (),
            ArgumentError,
        >(()),
{
    let prefix = pipe_prefix(kind);
    let name = prefix + identifier_text(connection);
    assert(name.take(prefix.len() as int) =~= prefix);
    assert(name.skip(prefix.len() as int) =~= identifier_text(connection));
    identifier::identifier_text_is_recognised(connection);
}

/// The pipe for one direction is not taken for the pipe of the other one.
pub proof fn pipes_are_not_confused(connection: Seq<u8>)
    ensures
        pipe_outcome(pipe_prefix("event"@) + identifier_text(connection), "command"@) == Err::<
            (),
            ArgumentError,
        >(ArgumentError::WrongName),
        pipe_outcome(pipe_prefix("command"@) + identifier_text(connection), "event"@) == Err::<
            (),
            ArgumentError,
        >(ArgumentError::WrongName),
{
    reveal_strlit("command");
    reveal_strlit("event");
    let start = "\\\\.\\pipe\\synly-input-"@;
    let n = start.len() as int;
    let command = pipe_prefix("command"@);
    let event = pipe_prefix("event"@);
    assert(command[n] == 'c');
    assert(event[n] == 'e');
    assert((event + identifier_text(connection))[n] == 'e');
    assert((command + identifier_text(connection))[n] == 'c');
}

/// The command line that starts the agent.
pub fn agent_command_line(
    executable: &str,
    command_pipe: &str,
    event_pipe: &str,
    token: &str,
    parent_pid: u32,
) -> (r: String)
    ensures
        r@ == "\""@ + executable@ + "\" __input-agent --command-pipe \""@ + command_pipe@
            + "\" --event-pipe \""@ + event_pipe@ + "\" --token \""@ + token@
            + "\" --parent-pid "@ + text::decimal_text(parent_pid as nat),
{
    let mut out = "\"".to_owned();
    out.append(executable);
    out.append("\" __input-agent --command-pipe \"");
    out.append(command_pipe);
    out.append("\" --event-pipe \"");
    out.append(event_pipe);
    out.append("\" --token \"");
    out.append(token);
    out.append("\" --parent-pid ");
    text::append_decimal(&mut out, parent_pid as u64);
    out
}

/// The command line that the system starts the service with.
pub fn service_bin_path(executable: &str) -> (r: String)
    ensures
        r@ == "\""@ + executable@ + "\" __service"@,
{
    let mut out = "\"".to_owned();
    out.append(executable);
    out.append("\" __service");
    out
}

/// Who may use a pipe, in the language of the system: the system itself and one user.
pub fn pipe_access_text(user_sid: &str) -> (r: String)
    ensures
        r@ == "D:P(A;;GA;;;SY)(A;;GA;;;"@ + user_sid@ + ")"@,
{
    let mut out = "D:P(A;;GA;;;SY)(A;;GA;;;".to_owned();
    out.append(user_sid);
    out.append(")");
    out
}

/// Whether a user is the system itself.
pub fn is_system_user(user_sid: &str) -> (r: bool)
    ensures
        r == (text::lowered(user_sid@) == text::lowered("S-1-5-18"@)),
{
    text::is_text_in_any_case(&text::chars_of(user_sid), "S-1-5-18")
}

/// The session of the user at the machine, from the number that the system gives.
pub fn active_console_session(session: u32) -> (r: Option<u32>)
    ensures
        r == if session == NO_SESSION {
            None
        } else {
            Some(session)
        },
{
    if session == NO_SESSION {
        None
    } else {
        Some(session)
    }
}

/// Why another process is not trusted.
#[derive(Clone, Copy, Debug, PartialEq, Eq, Structural)]
pub enum PeerError {
    /// It is another process than the one expected.
    WrongProcess,
    /// It runs another program.
    WrongProgram,
    /// Its program is installed somewhere else.
    WrongDirectory,
    /// It belongs to another session.
    WrongSession,
}

/// Whether the service serves a process.
pub open spec fn client_trust(same_program: bool, session: u32, console_session: u32) -> Result<
    (),
    PeerError,
> {
    if !same_program {
        Err(PeerError::WrongProgram)
    } else if session != console_session {
        Err(PeerError::WrongSession)
    } else {
        Ok(())
    }
}

/// Whether the service serves a process: it has to run the same program, in the session of the
/// user at the machine.
pub fn validate_client(same_program: bool, session: u32, console_session: u32) -> (r: Result<
    (),
    PeerError,
>)
    ensures
        r == if !same_program {
            Err(PeerError::WrongProgram)
        } else if session != console_session {
            Err(PeerError::WrongSession)
        } else {
            Ok::<(), PeerError>(())
        },
        r == client_trust(same_program, session, console_session),
{
    if !same_program {
        return Err(PeerError::WrongProgram);
    }
    if session != console_session {
        return Err(PeerError::WrongSession);
    }
    Ok(())
}

/// Whether the process at the other end of a pipe is the one expected.
pub fn validate_pipe_server(actual: Option<u32>, expected: u32) -> (r: Result<(), PeerError>)
    ensures
        r == if actual == Some(expected) {
            Ok::<(), PeerError>(())
        } else {
            Err(PeerError::WrongProcess)
        },
{
    match actual {
        Some(actual) => if actual == expected {
            Ok(())
        } else {
            Err(PeerError::WrongProcess)
        },
        None => Err(PeerError::WrongProcess),
    }
}

/// What is known of the process that says it is the agent.
#[derive(Clone, Copy, Debug, PartialEq, Eq, Structural)]
pub struct AgentProcess {
    /// Its number, if that could be read.
    pub pid: Option<u32>,
    /// Whether it runs the program that it has named; a process that may not be looked into is
    /// taken at its word.
    pub named_program: bool,
    /// Whether that program is installed next to this one.
    pub same_directory: bool,
    /// Its session; unknown for a process that may not be looked into.
    pub session: Option<u32>,
}

/// Whether a process is taken for the agent that was started.
pub open spec fn agent_trust(process: AgentProcess, expected_pid: u32, own_session: u32) -> Result<
    (),
    PeerError,
> {
    if process.pid != Some(expected_pid) {
        Err(PeerError::WrongProcess)
    } else if !process.named_program {
        Err(PeerError::WrongProgram)
    } else if !process.same_directory {
        Err(PeerError::WrongDirectory)
    } else if process.session is Some && process.session != Some(own_session) {
        Err(PeerError::WrongSession)
    } else {
        Ok(())
    }
}

/// Whether a process is the agent that was started.
pub fn validate_pipe_client(process: AgentProcess, expected_pid: u32, own_session: u32) -> (r: Result<
    (),
    PeerError,
>)
    ensures
        r == if process.pid != Some(expected_pid) {
            Err(PeerError::WrongProcess)
        } else if !process.named_program {
            Err(PeerError::WrongProgram)
        } else if !process.same_directory {
            Err(PeerError::WrongDirectory)
        } else if process.session is Some && process.session != Some(own_session) {
            Err(PeerError::WrongSession)
        } else {
            Ok::<(), PeerError>(())
        },
        r == agent_trust(process, expected_pid, own_session),
{
    match validate_pipe_server(process.pid, expected_pid) {
        Err(error) => return Err(error),
        Ok(()) => {},
    }
    if !process.named_program {
        return Err(PeerError::WrongProgram);
    }
    if !process.same_directory {
        return Err(PeerError::WrongDirectory);
    }
    match process.session {
        Some(session) => if session != own_session {
            Err(PeerError::WrongSession)
        } else {
            Ok(())
        },
        None => Ok(()),
    }
}

/// Whether a program is taken for the one that has started the agent.
pub open spec fn parent_trust(parent_session: u32, own_session: u32, same_directory: bool) -> Result<
    (),
    PeerError,
> {
    if parent_session != own_session {
        Err(PeerError::WrongSession)
    } else if !same_directory {
        Err(PeerError::WrongDirectory)
    } else {
        Ok(())
    }
}

/// Whether the program that has started the agent is the one expected.
pub fn validate_parent_process(parent_session: u32, own_session: u32, same_directory: bool) -> (r:
    Result<(), PeerError>)
    ensures
        r == if parent_session != own_session {
            Err(PeerError::WrongSession)
        } else if !same_directory {
            Err(PeerError::WrongDirectory)
        } else {
            Ok::<(), PeerError>(())
        },
        r == parent_trust(parent_session, own_session, same_directory),
{
    if parent_session != own_session {
        return Err(PeerError::WrongSession);
    }
    if !same_directory {
        return Err(PeerError::WrongDirectory);
    }
    Ok(())
}

/// Those that have not ended, in order.
pub open spec fn still_there(processes: Seq<(usize, usize)>, ended: Seq<bool>) -> Seq<(usize, usize)>
    decreases processes.len(),
{
    if processes.len() == 0 {
        Seq::empty()
    } else {
        let before = still_there(processes.drop_last(), ended);
        if ended[processes.len() - 1] {
            before
        } else {
            before.push(processes.last())
        }
    }
}

/// The agents that have not ended, in order. `ended` says of each whether it has.
pub fn reap_exited_agent_processes(processes: &Vec<(usize, usize)>, ended: &Vec<bool>) -> (r: Vec<
    (usize, usize),
>)
    requires
        processes@.len() == ended@.len(),
    ensures
        r@ == still_there(processes@, ended@),
{
    let mut out: Vec<(usize, usize)> = Vec::new();
    let mut i: usize = 0;
    while i < processes.len()
        invariant
            i <= processes@.len(),
            processes@.len() == ended@.len(),
            out@ == still_there(processes@.take(i as int), ended@),
        decreases processes@.len() - i,
    {
        assert(processes@.take(i + 1).drop_last() =~= processes@.take(i as int));
        if !ended[i] {
            out.push(processes[i]);
        }
        i += 1;
    }
    assert(processes@.take(i as int) =~= processes@);
    out
}

/// What a control of the system asks of the service.
#[derive(Clone, Copy, Debug, PartialEq, Eq, Structural)]
pub enum ControlAction {
    Nothing,
    Stop,
    NotSupported,
}

/// What a control of the system asks of the service.
pub fn service_ctrl_handler(control: u32) -> (r: ControlAction)
    ensures
        r == match control {
            1 => ControlAction::Stop,
            4 => ControlAction::Nothing,
            14 => ControlAction::Nothing,
            _ => ControlAction::NotSupported,
        },
{
    match control {
        1 => ControlAction::Stop,
        4 => ControlAction::Nothing,
        14 => ControlAction::Nothing,
        _ => ControlAction::NotSupported,
    }
}

/// A service that is not there says nothing of one that never was: only one that was seen before
/// counts as taken away. Without a status nothing is learned.
pub proof fn looks_are_remembered(memory: ServiceMemory, status: ServiceStatus)
    ensures
        memory.looked(None) == memory,
        memory.looked(Some(status)).seen_installed <==> memory.seen_installed || !(status
            is NotInstalled),
        memory.looked(Some(status)).manually_uninstalled <==> memory.manually_uninstalled || (
        memory.seen_installed && status is NotInstalled),
{
}

/// Steps that succeed install the service in this order: it is created, set up, delayed,
/// described and started. One that is there already is opened and set up all the same.
pub proof fn installing_goes_in_order(code: Option<i32>)
    ensures
        install_step(InstallStage::Opening, true, code) is Create,
        install_step(InstallStage::Creating, true, code) is Configure,
        install_step(InstallStage::Creating, false, Some(1073)) is OpenExisting,
        install_step(InstallStage::Reopening, true, code) is Configure,
        install_step(InstallStage::Configuring, true, code) is Delay,
        install_step(InstallStage::Delaying, true, code) is Describe,
        install_step(InstallStage::Describing, true, code) is Start,
        install_step(InstallStage::Starting, true, code) is Done,
        install_step(InstallStage::Starting, false, Some(1056)) is Done,
{
}

/// A step that is needed and fails is the last, and is named; the delay and the description may
/// fail.
pub proof fn failed_steps_are_named(stage: InstallStage, code: Option<i32>)
    requires
        code != Some(1073i32),
        code != Some(1056i32),
    ensures
        stage is Delaying || stage is Describing ==> install_step(stage, false, code)
            == install_step(stage, true, code),
        !(stage is Delaying || stage is Describing) ==> install_step(stage, false, code)
            == InstallAction::Failed(stage),
{
}

/// Serving goes, step by step, from the session of the user over the right to use the pipe to the
/// process that has come; only then is somebody served.
pub proof fn serving_goes_in_order(stop: bool)
    ensures
        accept_step(AcceptStage::FindingSession, true, stop) is ReadUser,
        accept_step(AcceptStage::ReadingUser, true, stop) is ReadUserName,
        accept_step(AcceptStage::ReadingUserName, true, stop) is MakeAccess,
        accept_step(AcceptStage::MakingAccess, true, stop) is MakePipe,
        accept_step(AcceptStage::MakingPipe, true, stop) is WaitForClient,
        accept_step(AcceptStage::Waiting, true, stop) is Serve,
{
}

/// The service stops only when it is told to, and then at the next round at the latest: no round
/// begins any more. Nobody is served who has not come.
pub proof fn serving_stops_when_told(stage: AcceptStage, succeeded: bool, stop: bool)
    ensures
        accept_step(stage, succeeded, stop) is Stop ==> stop,
        stop ==> !(accept_step(stage, succeeded, stop) is FindSession),
        !stop && (stage is Beginning || stage is Serving || stage is Resting) ==> accept_step(
            stage,
            succeeded,
            stop,
        ) is FindSession,
        accept_step(stage, succeeded, stop) is Serve <==> stage is Waiting && succeeded,
{
}

/// A pipe is accepted for a purpose exactly if its name is that of this program for the purpose,
/// with the text of an identifier behind it.
pub proof fn accepted_pipes_end_in_an_identifier(pipe: Seq<char>, kind: Seq<char>)
    ensures
        pipe_outcome(pipe, kind) is Ok <==> exists|id: Seq<char>| #[trigger]
            uuid_text(id) && pipe == pipe_prefix(kind) + id,
        pipe_outcome(pipe, kind) matches Err(error) ==> (error is WrongId <==> exists|id: Seq<char>|
            pipe == #[trigger] (pipe_prefix(kind) + id)),
{
    let prefix = pipe_prefix(kind);
    let n = prefix.len() as int;
    if prefix.is_prefix_of(pipe) {
        assert(pipe =~= prefix + pipe.skip(n));
    }
    assert forall|id: Seq<char>| pipe == #[trigger] (prefix + id) implies prefix.is_prefix_of(pipe)
        && pipe.skip(n) == id by {
        assert(pipe.skip(n) =~= id);
        assert(pipe.take(n) =~= prefix);
    }
    if exists|id: Seq<char>| #[trigger] uuid_text(id) && pipe == pipe_prefix(kind) + id {
        let id = choose|id: Seq<char>| #[trigger] uuid_text(id) && pipe == pipe_prefix(kind) + id;
        assert(pipe == prefix + id);
    }
}

/// An agent is started only where both pipes are this program's, each for its own purpose, and
/// the token is an identifier.
pub proof fn requests_need_all_their_parts(
    command_pipe: Seq<char>,
    event_pipe: Seq<char>,
    token: Seq<char>,
)
    ensures
        request_outcome(command_pipe, event_pipe, token) is Ok <==> pipe_outcome(
            command_pipe,
            "command"@,
        ) is Ok && pipe_outcome(event_pipe, "event"@) is Ok && uuid_text(token),
        request_outcome(command_pipe, event_pipe, token) == Err::<(), ArgumentError>(
            ArgumentError::WrongToken,
        ) <==> pipe_outcome(command_pipe, "command"@) is Ok && pipe_outcome(event_pipe, "event"@)
            is Ok && !uuid_text(token),
{
}

/// A process is trusted only if everything that is known of it is as expected. What an agent may
/// not be asked, its session, is not held against it.
pub proof fn trust_needs_everything(
    process: AgentProcess,
    expected_pid: u32,
    own_session: u32,
    same: bool,
    session: u32,
)
    ensures
        agent_trust(process, expected_pid, own_session) is Ok <==> {
            &&& process.pid == Some(expected_pid)
            &&& process.named_program
            &&& process.same_directory
            &&& process.session is None || process.session == Some(own_session)
        },
        client_trust(same, session, own_session) is Ok <==> same && session == own_session,
        parent_trust(session, own_session, same) is Ok <==> same && session == own_session,
{
}

/// An agent is kept exactly if it has not ended. Agents stay in their order.
pub proof fn agents_that_run_are_kept(processes: Seq<(usize, usize)>, ended: Seq<bool>, i: int)
    requires
        processes.len() <= ended.len(),
        0 <= i < processes.len(),
    ensures
        !ended[i] ==> still_there(processes, ended).contains(processes[i]),
        still_there(processes, ended).len() <= processes.len(),
        (forall|k: int| 0 <= k < processes.len() ==> !(#[trigger] ended[k])) ==> still_there(
            processes,
            ended,
        ) == processes,
        forall|process: (usize, usize)| #[trigger]
            still_there(processes, ended).contains(process) ==> exists|k: int|
                0 <= k < processes.len() && !ended[k] && (#[trigger] processes[k]) == process,
    decreases processes.len(),
{
    let rest = processes.drop_last();
    let before = still_there(rest, ended);
    let kept = still_there(processes, ended);
    let last = processes.len() - 1;
    if rest.len() == 0 {
        assert(before =~= Seq::<(usize, usize)>::empty());
    } else {
        agents_that_run_are_kept(rest, ended, if i < last { i } else { 0 });
    }
    if !ended[last] {
        assert(kept[kept.len() - 1] == processes[last]);
        assert forall|process: (usize, usize)| before.contains(process) implies #[trigger] kept.contains(
            process,
        ) by {
            let k = choose|k: int| 0 <= k < before.len() && before[k] == process;
            assert(kept[k] == process);
        }
    }
    if i < last && !ended[i] {
        assert(rest[i] == processes[i]);
        assert(before.contains(processes[i]));
    }
    if forall|k: int| 0 <= k < processes.len() ==> !(#[trigger] ended[k]) {
        assert(!ended[last]);
        assert(before =~= rest);
        assert(kept =~= processes);
    }
    assert forall|process: (usize, usize)| #[trigger] kept.contains(process) implies exists|k: int|
        0 <= k < processes.len() && !ended[k] && (#[trigger] processes[k]) == process by {
        if before.contains(process) {
            let k = choose|k: int| 0 <= k < rest.len() && !ended[k] && (#[trigger] rest[k]) == process;
            assert(processes[k] == process);
        } else {
            let k = choose|k: int| 0 <= k < kept.len() && kept[k] == process;
            if k < before.len() {
                assert(before[k] == process);
            }
            assert(processes[last] == process);
        }
    }
}

} // verus!
