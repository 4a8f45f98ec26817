use synly::agent_client::{
    cursor_point, elevation_granted, request_elevation, settle_response, snapshot_of,
    started_layout, windows_input_agent_ready, windows_input_elevation_requested, AgentClient,
    AgentLaunch, ClientError, ElevationState, NotifyPlan, PendingResponse, QueueOutcome,
    ReaderAction, StartAction, TransportStart, WriterEvent,
};
use synly::agent_protocol::{
    check_ack, check_hello, check_startup, duration_millis, packet_length, pipe_retry,
    remaining_time, resolve_agent_host_with, wide, write_packet, AgentRequest, AgentResponse,
    AgentToGuiPacket, GuiToAgentPacket, HandshakeError, PipeTransfer, TransferStep,
    AGENT_HEARTBEAT_TIMEOUT, IPC_MAX_FRAME,
};
use synly::agent_server::{
    agent_completion_packet, sampled_motion, AgentHeartbeat, AgentMotion, AgentMotionSlot,
    AgentServer, RequestPlan,
};
use synly::framing::FrameError;
use synly::geometry::{DesktopLayout, DisplayRect, Point};
use synly::hotkey::Hotkey;
use synly::platform::{MotionSample, NativeEvent};
use synly::protocol::empty_snapshot;
use synly::service::{
    active_console_session, agent_command_line, agent_request, check_request, elevated_result,
    elevation_error, install, install_via_uac, is_available, is_installed, is_system_user,
    is_uuid_text, mark_install_attempted, mark_path_repair_attempted, new_agent_request,
    pipe_access_text, pipe_name, reap_exited_agent_processes, service_accept_loop,
    service_bin_path, service_ctrl_handler, settle_service_response, stop_wait,
    uninstall_via_uac, validate_client, validate_parent_process, validate_pipe_argument,
    validate_pipe_client, validate_pipe_server, validate_token_argument, AcceptAction,
    AcceptStage, AgentProcess, ArgumentError, ControlAction, ElevatedRun, InstallAction,
    InstallStage, PeerError, ServiceMemory, ServiceRequest, ServiceResponse, ServiceStatus,
    StopWait, ERROR_CANCELLED, ERROR_SERVICE_ALREADY_RUNNING, ERROR_SERVICE_DOES_NOT_EXIST,
    ERROR_SERVICE_EXISTS, NO_SESSION, STOP_TIMEOUT,
};
use synly::session::InputMode;

const ID: &str = "736a2142-cf80-7767-fe7c-3586163d04c6";

fn layout() -> DesktopLayout {
    DesktopLayout::new(vec![DisplayRect { x: 0, y: 0, width: 1920, height: 1080 }]).unwrap()
}

#[test]
fn auxiliary_binary_prefers_sibling_synly_as_agent_host() {
    let mock = r"C:\tools\input-receiver-mock.exe";
    let main = r"C:\tools\synly.exe";
    let exists = |path: &str| path == main;
    assert_eq!(resolve_agent_host_with(mock, exists), main);
    assert_eq!(resolve_agent_host_with(main, exists), main);
}

#[test]
fn auxiliary_binary_falls_back_to_itself_without_sibling_host() {
    let mock = r"C:\tools\input-receiver-mock.exe";
    let main = r"C:\tools\synly.exe";
    let standalone = r"C:\tools\standalone.exe";
    assert_eq!(resolve_agent_host_with(mock, |_: &str| false), mock);
    assert_eq!(resolve_agent_host_with(standalone, |_: &str| false), standalone);
    assert_eq!(resolve_agent_host_with(main, |_: &str| false), main);
    assert_eq!(
        resolve_agent_host_with(r"C:\tools\Synly.EXE", |_: &str| false),
        r"C:\tools\Synly.EXE"
    );
    assert_eq!(resolve_agent_host_with("other", |_: &str| true), "synly.exe");
}

#[test]
fn tests_agent_heartbeat_only_expires_after_the_full_timeout() {
    let started = 1_000u64;
    let heartbeat = AgentHeartbeat::new(started);
    assert!(!heartbeat.expired(started + AGENT_HEARTBEAT_TIMEOUT));
    assert!(heartbeat.expired(started + AGENT_HEARTBEAT_TIMEOUT + 1));
}

#[test]
fn windows_agent_agent_heartbeat_only_expires_after_the_full_timeout() {
    let started = 1_000u64;
    let mut heartbeat = AgentHeartbeat::new(started);
    assert!(!heartbeat.expired(started + AGENT_HEARTBEAT_TIMEOUT));
    assert!(heartbeat.expired(started + AGENT_HEARTBEAT_TIMEOUT + 1));
    heartbeat.observe(started + 5_000);
    assert!(!heartbeat.expired(started + AGENT_HEARTBEAT_TIMEOUT + 1));
}

fn closed_queue_makes_the_agent_unavailable() {
    let mut client = AgentClient::new(0);
    assert_eq!(AgentRequest::Health.name(), "Health");
    assert!(client.request_queued(QueueOutcome::Closed).is_err());
    assert!(!client.is_alive());
}

fn old_backend_leaves_the_lease_alone() {
    let mut client = AgentClient::new(0);
    assert_eq!(client.open_lease(), 1);
    assert_eq!(client.open_lease(), 2);
    assert!(!client.close_lease(1));
    assert_eq!(client.check_lease(2), Ok(()));
    assert_eq!(client.check_lease(1), Err(ClientError::Superseded));
}

fn current_backend_stops_the_agent() {
    let mut client = AgentClient::new(0);
    assert_eq!(client.open_lease(), 1);
    assert!(client.close_lease(1));
    assert_eq!(client.notify(&AgentRequest::Stop), Ok(NotifyPlan::QueueCommand));
    assert_eq!(client.check_lease(0), Ok(()));
    assert_eq!(client.check_lease(1), Err(ClientError::Superseded));
    assert!(client.is_alive());
}

fn latest_position_is_kept() {
    let mut client = AgentClient::new(0);
    let mut notes = 0;
    for x in 0..20_000 {
        let plan = client.notify(&AgentRequest::InjectCursor(Point { x, y: 10 })).unwrap();
        if plan == NotifyPlan::QueueCursor {
            notes += 1;
            client.cursor_note_queued(QueueOutcome::Accepted);
        }
    }
    assert_eq!(notes, 1);
    let plan = client.writer_step(WriterEvent::Cursor, 1);
    assert_eq!(plan.cursor, Some(Point { x: 19_999, y: 10 }));
    assert_eq!(client.writer_step(WriterEvent::Cursor, 1).cursor, None);
}

fn long_frame_is_refused() {
    let prefix = (u32::try_from(IPC_MAX_FRAME).unwrap() + 1).to_be_bytes();
    assert!(packet_length(&prefix).is_err());
}

fn half_frame_is_an_error() {
    assert_eq!(packet_length(&16u32.to_be_bytes()), Ok(16));
    let mut transfer = PipeTransfer::new(16, 1000);
    assert_eq!(transfer.next(0), TransferStep::Move { from: 0, wait: 1000 });
    assert!(transfer.moved(3));
    assert_eq!(transfer.next(400), TransferStep::Move { from: 3, wait: 600 });
    assert!(!transfer.moved(0));
}

fn late_byte_is_given_up() {
    let transfer = PipeTransfer::new(1, 50);
    assert_eq!(transfer.next(0), TransferStep::Move { from: 0, wait: 50 });
    assert_eq!(transfer.next(50), TransferStep::TimedOut);
}

#[test]
fn tests_closed_command_queue_marks_agent_unavailable() {
    closed_queue_makes_the_agent_unavailable();
}

#[test]
fn windows_agent_closed_command_queue_marks_agent_unavailable() {
    closed_queue_makes_the_agent_unavailable();
}

#[test]
fn tests_stale_backend_drop_does_not_stop_current_lease() {
    old_backend_leaves_the_lease_alone();
}

#[test]
fn windows_agent_stale_backend_drop_does_not_stop_current_lease() {
    old_backend_leaves_the_lease_alone();
}

#[test]
fn tests_current_backend_drop_stops_runtime_without_closing_reusable_agent() {
    current_backend_stops_the_agent();
}

#[test]
fn windows_agent_current_backend_drop_stops_runtime_without_closing_reusable_agent() {
    current_backend_stops_the_agent();
}

#[test]
fn tests_cursor_notifications_keep_only_the_latest_value() {
    latest_position_is_kept();
}

#[test]
fn windows_agent_cursor_notifications_keep_only_the_latest_value() {
    latest_position_is_kept();
}

#[test]
fn tests_native_pipe_rejects_invalid_frame_length() {
    long_frame_is_refused();
}

#[test]
fn windows_agent_native_pipe_rejects_invalid_frame_length() {
    long_frame_is_refused();
}

#[test]
fn tests_native_pipe_reports_half_frame_when_peer_exits() {
    half_frame_is_an_error();
}

#[test]
fn windows_agent_native_pipe_reports_half_frame_when_peer_exits() {
    half_frame_is_an_error();
}

#[test]
fn tests_native_pipe_read_timeout_is_cancelled() {
    late_byte_is_given_up();
}

#[test]
fn windows_agent_native_pipe_read_timeout_is_cancelled() {
    late_byte_is_given_up();
}

#[test]
fn motion_notifications_are_queued_in_fifo_order() {
    let mut client = AgentClient::new(0);
    for i in 0..10_000 {
        let request = AgentRequest::InjectMotion { dx: i, dy: -i };
        assert_eq!(client.notify(&request), Ok(NotifyPlan::QueueCommand));
        let ordered = request.requires_cursor_ordering();
        assert!(!ordered);
        let plan = client.writer_step(WriterEvent::Command { ordered }, 1);
        assert!(plan.command && plan.cursor.is_none());
        assert_eq!(client.register(false, false), u64::try_from(i).unwrap() + 1);
    }
}

#[test]
fn reliable_request_timeout_keeps_transport_alive() {
    let mut client = AgentClient::new(0);
    let plan = client.writer_step(WriterEvent::Command { ordered: false }, 1);
    assert!(plan.command);
    assert_eq!(client.register(false, false), 1);
    assert!(client.is_alive());
    assert!(client.give_up(1).is_some());
    assert!(client.is_alive());
}

#[test]
fn queue_outcomes_decide_the_connection() {
    let mut client = AgentClient::new(0);
    assert_eq!(client.request_queued(QueueOutcome::Accepted), Ok(()));
    assert_eq!(
        client.request_queued(QueueOutcome::Full),
        Err(ClientError::QueueUnavailable)
    );
    assert!(client.is_alive());
    client.notify(&AgentRequest::InjectCursor(Point { x: 1, y: 1 })).unwrap();
    client.cursor_note_queued(QueueOutcome::Full);
    assert_eq!(
        client.notify(&AgentRequest::InjectCursor(Point { x: 2, y: 2 })),
        Ok(NotifyPlan::QueueCursor)
    );
    let plan = client.writer_step(WriterEvent::Timeout, 1);
    assert_eq!(plan.cursor, Some(Point { x: 2, y: 2 }));
    assert!(!plan.heartbeat);
    client.notify(&AgentRequest::InjectCursor(Point { x: 3, y: 3 })).unwrap();
    client.cursor_note_queued(QueueOutcome::Closed);
    assert!(!client.is_alive());
    assert_eq!(client.notify(&AgentRequest::Stop), Err(ClientError::Closed));
}

#[test]
fn ordered_requests_follow_the_pointer() {
    let mut client = AgentClient::new(0);
    client.notify(&AgentRequest::InjectCursor(Point { x: 5, y: 6 })).unwrap();
    let request = AgentRequest::InjectButton { button: 1, down: true };
    let ordered = request.requires_cursor_ordering();
    let plan = client.writer_step(WriterEvent::Command { ordered }, 1);
    assert_eq!(plan.cursor, Some(Point { x: 5, y: 6 }));
    assert!(plan.command && plan.rearm);
    assert!(AgentRequest::InjectWheel { x: 0, y: 1 }.requires_cursor_ordering());
    assert!(client.writer_step(WriterEvent::Closed, 1).stop);
}

#[test]
fn writers_send_signs_of_life() {
    let mut client = AgentClient::new(100);
    assert_eq!(client.writer_wait(100), 50);
    assert_eq!(client.writer_wait(580), 20);
    assert_eq!(client.writer_wait(600), 0);
    assert!(!client.writer_step(WriterEvent::Timeout, 599).heartbeat);
    assert!(client.writer_step(WriterEvent::Timeout, 600).heartbeat);
    client.rearm(600);
    assert!(!client.writer_step(WriterEvent::Timeout, 700).heartbeat);
}

#[test]
fn answers_reach_their_requests_once() {
    let mut client = AgentClient::new(0);
    client.open_lease();
    let id = client.register(true, true);
    let answer = |message: &str| AgentToGuiPacket::Response {
        id,
        response: AgentResponse::Error(message.to_string()),
    };
    let action = client.handle_packet(answer("no")).unwrap();
    match action {
        ReaderAction::Deliver { id: 1, has_caller: true, report, .. } => {
            assert!(matches!(
                report,
                Some(NativeEvent::Failed(text))
                    if text == "Windows input agent cursor injection failed: no"
            ));
        }
        other => panic!("unexpected {:?}", other),
    }
    assert!(matches!(client.handle_packet(answer("no")), Some(ReaderAction::Nothing)));
    let id = client.register(false, true);
    assert_eq!(
        client.give_up(id),
        Some(PendingResponse { cursor: false, has_caller: true })
    );
    assert_eq!(client.give_up(id), None);
}

#[test]
fn packets_reach_the_session() {
    let mut client = AgentClient::new(0);
    let motion = |position_updated: bool| AgentToGuiPacket::Motion {
        dx: 1,
        dy: 2,
        position: Some(Point { x: 3, y: 4 }),
        position_updated,
    };
    assert!(matches!(client.handle_packet(motion(true)), Some(ReaderAction::Nothing)));
    client.open_lease();
    assert!(matches!(
        client.handle_packet(motion(true)),
        Some(ReaderAction::AddMotionAt { dx: 1, dy: 2, position: Point { x: 3, y: 4 } })
    ));
    assert!(matches!(
        client.handle_packet(motion(false)),
        Some(ReaderAction::AddMotion { dx: 1, dy: 2 })
    ));
    assert!(matches!(
        client.handle_packet(AgentToGuiPacket::SecureDesktopPaused(true)),
        Some(ReaderAction::Report(NativeEvent::Emergency))
    ));
    assert!(matches!(
        client.handle_packet(AgentToGuiPacket::SecureDesktopPaused(false)),
        Some(ReaderAction::Nothing)
    ));
    assert!(matches!(
        client.handle_packet(AgentToGuiPacket::SecureDesktopChanged {
            secure: true,
            primary: None
        }),
        Some(ReaderAction::Report(NativeEvent::SecureDesktop { active: true, .. }))
    ));
    assert!(client.handle_packet(AgentToGuiPacket::Ready).is_none());
}

#[test]
fn failed_connections_are_reported_once() {
    let mut client = AgentClient::new(0);
    client.open_lease();
    let id = client.register(false, true);
    assert!(client.fail_transport());
    assert!(!client.fail_transport());
    assert_eq!(client.give_up(id), None);
    let mut other = AgentClient::new(0);
    assert!(other.mark_unavailable());
    assert!(!other.mark_unavailable());
    assert!(!other.fail_transport());
}

#[test]
fn answers_are_understood() {
    assert_eq!(
        settle_response(AgentResponse::Error("no".to_string())).unwrap_err(),
        "no"
    );
    assert!(matches!(settle_response(AgentResponse::Pong), Ok(AgentResponse::Pong)));
    let started = AgentResponse::Started {
        layout: layout(),
        secure_desktop: false,
        primary: None,
    };
    assert_eq!(started_layout(started), Some(layout()));
    assert_eq!(started_layout(AgentResponse::Done), None);
    assert_eq!(
        cursor_point(AgentResponse::Point(Point { x: 1, y: 2 })),
        Some(Point { x: 1, y: 2 })
    );
    assert_eq!(cursor_point(AgentResponse::Done), None);
    let mut held = empty_snapshot();
    held.buttons = vec![1];
    assert_eq!(snapshot_of(Some(AgentResponse::Snapshot(held))).buttons, vec![1]);
    assert_eq!(snapshot_of(None), empty_snapshot());
}

#[test]
fn agents_are_started_once_both_pipes_are_there() {
    let mut start = TransportStart::new();
    assert_eq!(start.pipe_created(true), StartAction::Wait);
    assert_eq!(start.pipe_created(true), StartAction::Launch);
    assert_eq!(start.handshake_ended(true), StartAction::Use);
    let mut broken = TransportStart::new();
    assert_eq!(broken.pipe_created(false), StartAction::GiveUp);
    assert_eq!(broken.handshake_ended(true), StartAction::GiveUp);
}

#[test]
fn elevation_reuses_a_healthy_agent() {
    let mut state = ElevationState { connected: false, requested: false };
    assert!(!windows_input_agent_ready(&state));
    assert_eq!(request_elevation(&mut state, true, false), Some(AgentLaunch::AskUser));
    assert_eq!(request_elevation(&mut state, true, true), Some(AgentLaunch::OwnRights));
    elevation_granted(&mut state);
    assert!(windows_input_agent_ready(&state));
    assert!(windows_input_elevation_requested(&state));
    assert_eq!(request_elevation(&mut state, true, false), None);
    assert_eq!(request_elevation(&mut state, false, false), Some(AgentLaunch::AskUser));
    assert!(!windows_input_agent_ready(&state));
}

#[test]
fn packets_are_framed() {
    assert_eq!(
        packet_length(&(u32::try_from(IPC_MAX_FRAME).unwrap() + 1).to_be_bytes()),
        Err(FrameError::TooLong(IPC_MAX_FRAME + 1))
    );
    assert_eq!(packet_length(&[0; 4]), Err(FrameError::Empty));
    assert_eq!(write_packet(&vec![]), Err(FrameError::Empty));
    assert_eq!(write_packet(&vec![7]), Ok(vec![0, 0, 0, 1, 7]));
    let mut transfer = PipeTransfer::new(1, 50);
    assert!(transfer.moved(1));
    assert_eq!(transfer.next(60), TransferStep::Complete);
    assert_eq!(remaining_time(10, 4), Some(6));
    assert_eq!(remaining_time(10, 10), None);
}

#[test]
fn pipes_are_tried_again_in_time() {
    assert_eq!(pipe_retry(Some(2), 0, 1000), Some(100));
    assert_eq!(pipe_retry(Some(231), 950, 1000), Some(50));
    assert_eq!(pipe_retry(Some(2), 1000, 1000), None);
    assert_eq!(pipe_retry(Some(5), 0, 1000), None);
    assert_eq!(pipe_retry(None, 0, 1000), None);
    assert_eq!(duration_millis(0), 1);
    assert_eq!(duration_millis(77), 77);
    assert_eq!(duration_millis(u128::MAX), u32::MAX - 1);
}

#[test]
fn texts_become_wide() {
    assert_eq!(wide("a\u{1f600}"), vec![0x61, 0xd83d, 0xde00, 0]);
    assert_eq!(wide(""), vec![0]);
}

#[test]
fn handshakes_are_checked() {
    let hello = |token: &str, parent_pid: u32| AgentToGuiPacket::Hello {
        token: token.to_string(),
        agent_pid: 9,
        parent_pid,
        agent_path: "synly.exe".to_string(),
        agent_is_system: true,
    };
    let identity = check_hello(hello(ID, 3), ID, 3).unwrap();
    assert_eq!((identity.agent_pid, identity.agent_is_system), (9, true));
    assert!(matches!(check_hello(hello("x", 3), ID, 3), Err(HandshakeError::WrongToken)));
    assert!(matches!(check_hello(hello(ID, 4), ID, 3), Err(HandshakeError::WrongToken)));
    assert!(matches!(
        check_hello(AgentToGuiPacket::Ready, ID, 3),
        Err(HandshakeError::UnexpectedPacket)
    ));
    assert!(check_startup(AgentToGuiPacket::Ready).is_ok());
    assert!(matches!(
        check_startup(AgentToGuiPacket::StartupError { error: "no".to_string() }),
        Err(HandshakeError::Startup(text)) if text == "no"
    ));
    assert!(check_ack(GuiToAgentPacket::HelloAck { session_id: 1 }, 1).is_ok());
    assert!(matches!(
        check_ack(GuiToAgentPacket::HelloAck { session_id: 2 }, 1),
        Err(HandshakeError::WrongSession)
    ));
    assert!(matches!(
        check_ack(
            GuiToAgentPacket::Request { id: 1, request: AgentRequest::Stop },
            1
        ),
        Err(HandshakeError::UnexpectedPacket)
    ));
    assert_eq!(AgentToGuiPacket::Ready.packet_name(), "Ready");
    assert_eq!(AgentRequest::ReleaseAll.name(), "ReleaseAll");
}

#[test]
fn motion_is_merged_until_it_is_written() {
    let mut slot = AgentMotionSlot::new();
    assert_eq!(slot.take(), None);
    let motion = |dx: i32, position: Option<Point>| AgentMotion {
        dx,
        dy: -dx,
        position,
        position_updated: position.is_some(),
    };
    slot.store_motion(motion(3, Some(Point { x: 1, y: 1 })));
    slot.store_motion(motion(4, None));
    let taken = slot.take().unwrap();
    assert_eq!((taken.dx, taken.dy), (7, -7));
    assert_eq!(taken.position, Some(Point { x: 1, y: 1 }));
    assert!(taken.position_updated);
    assert_eq!(slot.take(), None);
    slot.store_motion(motion(i32::MAX, None));
    slot.store_motion(motion(5, None));
    assert_eq!(slot.take().unwrap().dx, i32::MAX);
    let still = MotionSample { dx: 0, dy: 0, position: None, position_updated: false };
    assert_eq!(sampled_motion(still), None);
    assert!(sampled_motion(MotionSample { dx: 1, ..still }).is_some());
}

#[test]
fn agents_answer_requests() {
    let mut server = AgentServer::new(0, false);
    assert_eq!(
        server.handle_agent_request(&AgentRequest::Snapshot, 1),
        RequestPlan::NotStarted
    );
    assert_eq!(server.handle_agent_request(&AgentRequest::Health, 2), RequestPlan::Pong);
    let start = AgentRequest::Start {
        mode: InputMode::Send,
        hotkey: Hotkey::DEFAULT.parse().unwrap(),
    };
    assert_eq!(
        server.handle_agent_request(&start, 3),
        RequestPlan::Restart { stop_first: false }
    );
    server.runtime_started(true);
    server.request_done(4);
    assert_eq!(server.handle_agent_request(&AgentRequest::Snapshot, 5), RequestPlan::Call);
    assert_eq!(
        server.handle_agent_request(&start, 6),
        RequestPlan::Restart { stop_first: true }
    );
    server.runtime_started(false);
    assert_eq!(
        server.handle_agent_request(&AgentRequest::Stop, 7),
        RequestPlan::Stop { running: false }
    );
    assert!(matches!(
        agent_completion_packet(7, Err("no".to_string())),
        AgentToGuiPacket::Response { id: 7, response: AgentResponse::Error(text) } if text == "no"
    ));
}

#[test]
fn agents_watch_the_desktop() {
    let mut server = AgentServer::new(0, false);
    server.runtime_started(true);
    let plan = server.desktop_tick(1, true);
    assert!(plan.release && plan.end_capture && plan.with_primary);
    assert_eq!(plan.secure, Some(true));
    assert_eq!(server.desktop_tick(2, true).secure, None);
    let plan = server.desktop_tick(3, false);
    assert_eq!(plan.secure, Some(false));
    assert!(!plan.release);
    assert_eq!(server.desktop_tick(AGENT_HEARTBEAT_TIMEOUT + 1, false).stalled, Some(true));
    assert_eq!(server.desktop_tick(AGENT_HEARTBEAT_TIMEOUT + 2, false).stalled, None);
    server.request_done(AGENT_HEARTBEAT_TIMEOUT + 3);
    assert_eq!(server.desktop_tick(AGENT_HEARTBEAT_TIMEOUT + 4, false).stalled, Some(false));
    let mut system = AgentServer::new(0, true);
    system.runtime_started(true);
    assert!(!system.desktop_tick(1, true).end_capture);
}

#[test]
fn uuid_text_accepts_only_canonical_dashed_form() {
    assert!(is_uuid_text("736a2142-cf80-7767-fe7c-3586163d04c6"));
    assert!(is_uuid_text("736A2142-CF80-7767-FE7C-3586163D04C6"));
    assert!(!is_uuid_text("736a2142cf807767fe7c3586163d04c6"));
    assert!(!is_uuid_text("736a2142-cf80-7767-fe7c-3586163d04c6-"));
    assert!(!is_uuid_text("736a2142-cf80-7767-fe7c-3586163d04c"));
    assert!(!is_uuid_text("736a2142-cf80-7767-fe7c-3586163g04c6"));
}

#[test]
fn pipe_arguments_require_expected_prefix_and_uuid() {
    let id = ID;
    assert!(
        validate_pipe_argument(&format!(r"\\.\pipe\synly-input-command-{id}"), "command").is_ok()
    );
    assert!(
        validate_pipe_argument(&format!(r"\\.\pipe\synly-input-event-{id}"), "event").is_ok()
    );
    assert!(validate_pipe_argument(r"\\.\pipe\synly-input-command-bad", "command").is_err());
    assert!(
        validate_pipe_argument(&format!(r"\\.\pipe\synly-input-event-{id}"), "command").is_err()
    );
    assert!(
        validate_pipe_argument(&format!(r"\\.\pipe\other-input-command-{id}"), "command").is_err()
    );
    assert_eq!(
        validate_pipe_argument(r"\\.\pipe\synly-input-command-bad", "command"),
        Err(ArgumentError::WrongId)
    );
    assert_eq!(validate_pipe_argument("x", "command"), Err(ArgumentError::WrongName));
    assert_eq!(validate_token_argument(ID), Ok(()));
    assert_eq!(validate_token_argument("x"), Err(ArgumentError::WrongToken));
}

#[test]
fn own_requests_are_accepted() {
    let request = |command: String| ServiceRequest::SpawnInputAgent {
        command_pipe: command,
        event_pipe: pipe_name("event", ID),
        token: ID.to_string(),
    };
    let good = request(pipe_name("command", ID));
    assert_eq!(check_request(&good), Ok(()));
    assert_eq!(good.name(), "SpawnInputAgent");
    assert_eq!(
        check_request(&request(pipe_name("event", ID))),
        Err(ArgumentError::WrongName)
    );
    assert!(settle_service_response(ServiceResponse::Done).is_ok());
    assert_eq!(
        settle_service_response(ServiceResponse::Refused("no".to_string())),
        Err("no".to_string())
    );
}

#[test]
fn command_lines_are_quoted() {
    assert_eq!(
        agent_command_line("C:\\s.exe", "a", "b", "c", 42),
        "\"C:\\s.exe\" __input-agent --command-pipe \"a\" --event-pipe \"b\" --token \"c\" \
         --parent-pid 42"
    );
    assert_eq!(service_bin_path("C:\\s.exe"), "\"C:\\s.exe\" __service");
    assert_eq!(pipe_access_text("S-1"), "D:P(A;;GA;;;SY)(A;;GA;;;S-1)");
    assert!(is_system_user("s-1-5-18"));
    assert!(!is_system_user("S-1-5-19"));
}

#[test]
fn service_states_are_remembered() {
    let mut memory = ServiceMemory::default();
    assert!(!is_installed(&mut memory, Some(ServiceStatus::NotInstalled)));
    assert!(!memory.manually_uninstalled);
    assert!(is_installed(&mut memory, Some(ServiceStatus::Stopped)));
    assert!(!is_available(&mut memory, Some(ServiceStatus::Stopped)));
    assert!(is_available(&mut memory, Some(ServiceStatus::Running)));
    assert!(!is_available(&mut memory, None));
    assert!(!is_installed(&mut memory, Some(ServiceStatus::NotInstalled)));
    assert!(memory.manually_uninstalled);

    let mut other = ServiceMemory::default();
    assert!(!uninstall_via_uac(&mut other, false));
    assert_eq!(other, ServiceMemory::default());
    assert!(uninstall_via_uac(&mut other, true));
    assert!(other.install_attempted && other.manually_uninstalled);
    let mut third = ServiceMemory::default();
    mark_install_attempted(&mut third);
    mark_path_repair_attempted(&mut third);
    assert!(install_via_uac(&mut third, true));
    assert!(third.install_attempted && third.path_repair_attempted && third.seen_installed);
    assert_eq!(ServiceStatus::Running.label(), "running");
    assert_eq!(ServiceStatus::NotInstalled.label(), "not-installed");
    assert_eq!(ServiceStatus::of_state(4), ServiceStatus::Running);
    assert_eq!(ServiceStatus::of_state(1), ServiceStatus::Stopped);
    assert_eq!(
        ServiceStatus::of_open_error(ERROR_SERVICE_DOES_NOT_EXIST),
        Some(ServiceStatus::NotInstalled)
    );
    assert_eq!(ServiceStatus::of_open_error(5), None);
}

#[test]
fn installing_goes_through_its_steps() {
    let exists = Some(ERROR_SERVICE_EXISTS);
    let steps = [
        (InstallStage::Opening, true, None, InstallAction::Create),
        (InstallStage::Creating, false, exists, InstallAction::OpenExisting),
        (InstallStage::Reopening, true, None, InstallAction::Configure),
        (InstallStage::Configuring, true, None, InstallAction::Delay),
        (InstallStage::Delaying, false, None, InstallAction::Describe),
        (InstallStage::Describing, false, None, InstallAction::Start),
        (
            InstallStage::Starting,
            false,
            Some(ERROR_SERVICE_ALREADY_RUNNING),
            InstallAction::Done,
        ),
        (
            InstallStage::Creating,
            false,
            Some(5),
            InstallAction::Failed(InstallStage::Creating),
        ),
        (
            InstallStage::Starting,
            false,
            None,
            InstallAction::Failed(InstallStage::Starting),
        ),
    ];
    for (stage, succeeded, code, action) in steps {
        assert_eq!(install(stage, succeeded, code), action);
    }
    assert_eq!(stop_wait(None, 0), StopWait::Delete);
    assert_eq!(stop_wait(Some(true), 0), StopWait::Delete);
    assert_eq!(stop_wait(Some(false), STOP_TIMEOUT - 1), StopWait::Wait);
    assert_eq!(stop_wait(Some(false), STOP_TIMEOUT), StopWait::TimedOut);
    assert_eq!(elevation_error(Some(ERROR_CANCELLED)), ElevatedRun::Refused);
    assert_eq!(elevation_error(None), ElevatedRun::Failed);
    assert_eq!(elevated_result(true, 0), ElevatedRun::Succeeded);
    assert_eq!(elevated_result(false, 0), ElevatedRun::Failed);
}

#[test]
fn service_serves_one_after_the_other() {
    assert_eq!(
        service_accept_loop(AcceptStage::Beginning, true, true),
        AcceptAction::Stop
    );
    let stages = [
        (AcceptStage::Beginning, AcceptAction::FindSession),
        (AcceptStage::FindingSession, AcceptAction::ReadUser),
        (AcceptStage::ReadingUser, AcceptAction::ReadUserName),
        (AcceptStage::ReadingUserName, AcceptAction::MakeAccess),
        (AcceptStage::MakingAccess, AcceptAction::MakePipe),
        (AcceptStage::MakingPipe, AcceptAction::WaitForClient),
        (AcceptStage::Waiting, AcceptAction::Serve),
        (AcceptStage::Serving, AcceptAction::FindSession),
    ];
    for (stage, action) in stages {
        assert_eq!(service_accept_loop(stage, true, false), action);
    }
    assert_eq!(
        service_accept_loop(AcceptStage::MakingPipe, false, false),
        AcceptAction::Rest
    );
    assert_eq!(
        service_accept_loop(AcceptStage::Waiting, false, false),
        AcceptAction::FindSession
    );
    assert_eq!(active_console_session(NO_SESSION), None);
    assert_eq!(active_console_session(2), Some(2));
    assert_eq!(service_ctrl_handler(1), ControlAction::Stop);
    assert_eq!(service_ctrl_handler(4), ControlAction::Nothing);
    assert_eq!(service_ctrl_handler(2), ControlAction::NotSupported);
}

#[test]
fn peers_are_checked() {
    assert_eq!(validate_client(true, 1, 1), Ok(()));
    assert_eq!(validate_client(false, 1, 1), Err(PeerError::WrongProgram));
    assert_eq!(validate_client(true, 2, 1), Err(PeerError::WrongSession));
    assert_eq!(validate_pipe_server(Some(3), 3), Ok(()));
    assert_eq!(validate_pipe_server(None, 3), Err(PeerError::WrongProcess));
    let process = AgentProcess {
        pid: Some(3),
        named_program: true,
        same_directory: true,
        session: Some(1),
    };
    assert_eq!(validate_pipe_client(process, 3, 1), Ok(()));
    assert_eq!(validate_pipe_client(process, 4, 1), Err(PeerError::WrongProcess));
    assert_eq!(validate_pipe_client(process, 3, 2), Err(PeerError::WrongSession));
    assert_eq!(
        validate_pipe_client(AgentProcess { session: None, ..process }, 3, 2),
        Ok(())
    );
    assert_eq!(
        validate_pipe_client(AgentProcess { named_program: false, ..process }, 3, 1),
        Err(PeerError::WrongProgram)
    );
    assert_eq!(
        validate_pipe_client(AgentProcess { same_directory: false, ..process }, 3, 1),
        Err(PeerError::WrongDirectory)
    );
    assert_eq!(validate_parent_process(1, 1, true), Ok(()));
    assert_eq!(validate_parent_process(1, 2, true), Err(PeerError::WrongSession));
    assert_eq!(validate_parent_process(1, 1, false), Err(PeerError::WrongDirectory));
    assert_eq!(
        reap_exited_agent_processes(&vec![(1, 2), (3, 4), (5, 6)], &vec![false, true, false]),
        vec![(1, 2), (5, 6)]
    );
}

#[test]
fn agents_are_asked_for_with_one_connection() {
    let connection = [
        0x73, 0x6a, 0x21, 0x42, 0xcf, 0x80, 0x77, 0x67, 0xfe, 0x7c, 0x35, 0x86, 0x16, 0x3d, 0x04,
        0xc6,
    ];
    let request = agent_request(&connection, &[0; 16]);
    assert_eq!(check_request(&request), Ok(()));
    let ServiceRequest::SpawnInputAgent { command_pipe, event_pipe, token } = request;
    assert_eq!(
        command_pipe,
        r"\\.\pipe\synly-input-command-736a2142-cf80-7767-fe7c-3586163d04c6"
    );
    assert_eq!(
        event_pipe,
        r"\\.\pipe\synly-input-event-736a2142-cf80-7767-fe7c-3586163d04c6"
    );
    assert_eq!(token, "00000000-0000-0000-0000-000000000000");
}

#[test]
fn new_agents_have_their_own_connection() {
    let first = new_agent_request();
    let second = new_agent_request();
    assert_eq!(check_request(&first), Ok(()));
    let ServiceRequest::SpawnInputAgent { command_pipe, event_pipe, token } = first;
    let ServiceRequest::SpawnInputAgent { command_pipe: other, .. } = second;
    assert_ne!(command_pipe, other);
    assert_eq!(command_pipe.replace("command", "event"), event_pipe);
    assert!(!command_pipe.ends_with(token.as_str()));
    assert_eq!(token.chars().nth(14), Some('4'));
}

#[test]
fn every_path_has_a_host() {
    let beside = |path: &str| resolve_agent_host_with(path, |_: &str| true);
    assert_eq!(beside(r"C:\tools\mock\"), r"C:\tools\synly.exe");
    assert_eq!(beside(r"C:\tools\mock\.\"), r"C:\tools\synly.exe");
    assert_eq!(beside(r"C:\tools\.."), r"C:\tools\..\synly.exe");
    assert_eq!(beside(r"C:\synly\"), r"C:\synly\");
    assert_eq!(beside("C:mock.exe"), "C:synly.exe");
    assert_eq!(beside("C:Synly.exe"), "C:Synly.exe");
    assert_eq!(beside("C:"), "C:synly.exe");
    assert_eq!(beside(r"C:\"), r"C:\synly.exe");
    assert_eq!(beside("a:b:c"), "a:synly.exe");
    assert_eq!(beside(""), "synly.exe");
    assert_eq!(beside("."), r".\synly.exe");
    assert_eq!(beside("/"), "/synly.exe");
    assert_eq!(beside("./mock"), r".\synly.exe");
    assert_eq!(beside("//./mock"), r"//./mock\synly.exe");
    assert_eq!(beside("/./mock"), "/synly.exe");
    assert_eq!(beside("C:/tools//mock.exe"), r"C:/tools\synly.exe");
    assert_eq!(beside(r"C:\\mock.exe"), r"C:\synly.exe");
    assert_eq!(beside(r"\\server\share"), r"\\server\share\synly.exe");
    assert_eq!(beside(r"\\server\share\mock.exe"), r"\\server\share\synly.exe");
    assert_eq!(beside(r"\\?\C:\mock.exe"), r"\\?\C:\synly.exe");
    assert_eq!(beside(r"\\?\UNC\server\share"), r"\\?\UNC\server\share\synly.exe");
}

#[test]
fn paths_taken_as_they_stand_part_at_backslashes_alone() {
    let beside = |path: &str| resolve_agent_host_with(path, |_: &str| true);
    assert_eq!(beside(r"\\?\C:\tools\x/synly.exe"), r"\\?\C:\tools\synly.exe");
    assert_eq!(beside(r"\\?\C:\tools\synly.exe"), r"\\?\C:\tools\synly.exe");
    assert_eq!(beside(r"\\?\C:\tools\Synly.com"), r"\\?\C:\tools\Synly.com");
    assert_eq!(beside(r"\\?\C:\tools\\mock.exe\"), r"\\?\C:\tools\synly.exe");
    assert_eq!(beside(r"\\?\C:\tools\.\mock.exe"), r"\\?\C:\tools\.\synly.exe");
    assert_eq!(beside(r"\\?\C:\synly.exe\."), r"\\?\C:\synly.exe\.\synly.exe");
    assert_eq!(beside(r"\\?\C:/mock.exe"), r"\\?\C:\synly.exe");
    assert_eq!(beside(r"\\?\C:"), r"\\?\C:\synly.exe");
    assert_eq!(beside(r"\\?\C:x\mock.exe"), r"\\?\C:x\synly.exe");
    assert_eq!(beside(r"\\?\mock.exe"), r"\\?\mock.exe\synly.exe");
    assert_eq!(beside(r"\\?\UNC\server\share\mock"), r"\\?\UNC\server\share\synly.exe");
    assert_eq!(beside(r"\\?\UNC\server\a/b\mock"), r"\\?\UNC\server\a/b\synly.exe");
    assert_eq!(beside("//?/C:/mock.exe"), "//?/C:/synly.exe");
    assert_eq!(beside(r"\\.\pipe\mock"), r"\\.\pipe\synly.exe");
}
