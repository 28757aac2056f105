use tix_core::controller::{
    can_cut_arguments, parse_command_line, response_notice, response_text, CommandLine, Rejection,
    RequestManager, RequestState, ResponseNotice,
};
use tix_core::Command;

fn sent(line: &str) -> (Command, Vec<u8>) {
    assert!(can_cut_arguments(line));
    match parse_command_line(line) {
        CommandLine::Send(c, p) => (c, p),
        other => panic!("expected a command for {line:?}, got {other:?}"),
    }
}

fn rejected(line: &str) -> Rejection {
    assert!(can_cut_arguments(line));
    match parse_command_line(line) {
        CommandLine::Rejected(r) => r,
        other => panic!("expected a rejection for {line:?}, got {other:?}"),
    }
}

#[test]
fn request_ids_start_at_one_and_go_up() {
    let mut m = RequestManager::new();
    assert_eq!(m.add_request(RequestState::WaitingForResponse), 1);
    assert_eq!(m.add_request(RequestState::WaitingForResponse), 2);
    assert_eq!(m.add_request(RequestState::Solved), 3);
    assert_eq!(m.get_request(1), Some(&RequestState::WaitingForResponse));
    assert_eq!(m.get_request(3), Some(&RequestState::Solved));
    assert_eq!(m.get_request(0), None);
    assert_eq!(m.get_request(4), None);
    // a removed id is not handed out again
    assert_eq!(m.remove_request(2), Some(RequestState::WaitingForResponse));
    assert_eq!(m.remove_request(2), None);
    assert_eq!(m.add_request(RequestState::WaitingForResponse), 4);
}

#[test]
fn only_waiting_requests_are_finished() {
    let mut m = RequestManager::default();
    let a = m.add_request(RequestState::WaitingForResponse);
    let b = m.add_request(RequestState::WaitingForResponse);
    assert!(m.awaits_response(a));
    assert!(!m.awaits_response(0));
    assert!(!m.awaits_response(99));
    assert!(m.solve_request(a));
    assert_eq!(m.get_request(a), Some(&RequestState::Solved));
    assert!(!m.awaits_response(a));
    // solved stays solved
    assert!(!m.fail_request(a));
    assert!(!m.solve_request(a));
    assert_eq!(m.get_request(a), Some(&RequestState::Solved));
    assert!(m.fail_request(b));
    assert_eq!(m.get_request(b), Some(&RequestState::Failed));
    assert!(!m.solve_request(b));
    assert!(!m.solve_request(77));
    assert_eq!(m.get_request(77), None);
}

#[test]
fn last_five_requests_are_the_largest_ids_in_descending_order() {
    let mut m = RequestManager::new();
    assert!(m.get_last_5_requests().is_empty());
    for _ in 0..3 {
        m.add_request(RequestState::WaitingForResponse);
    }
    let ids: Vec<u64> = m.get_last_5_requests().iter().map(|(id, _)| *id).collect();
    assert_eq!(ids, vec![3, 2, 1]);
    for _ in 0..6 {
        m.add_request(RequestState::WaitingForResponse);
    }
    m.solve_request(8);
    m.remove_request(7);
    let last = m.get_last_5_requests();
    let ids: Vec<u64> = last.iter().map(|(id, _)| *id).collect();
    assert_eq!(ids, vec![9, 8, 6, 5, 4]);
    assert_eq!(*last[1].1, RequestState::Solved);
    assert_eq!(*last[0].1, RequestState::WaitingForResponse);
}

#[test]
fn command_lines() {
    assert!(matches!(parse_command_line(""), CommandLine::Empty));
    assert_eq!(sent("Ping"), (Command::Ping, vec![]));
    assert_eq!(
        sent("ShellExecute dir /w"),
        (Command::ShellExecute, b"dir /w".to_vec())
    );
    assert_eq!(rejected("ShellExecute"), Rejection::ShellNeedsCommand);
    assert_eq!(rejected("ShellExecute "), Rejection::ShellNeedsCommand);
    assert_eq!(rejected("ShellExecuteX"), Rejection::InvalidCommand);
    assert_eq!(sent("Copy a b"), (Command::Copy, b"a b".to_vec()));
    assert_eq!(rejected("Copy"), Rejection::CopyNeedsArguments);
    assert_eq!(rejected("Copy "), Rejection::CopyNeedsArguments);
    assert_eq!(rejected("Copyright"), Rejection::CopyNeedsArguments);
    assert_eq!(sent("ListDrives"), (Command::ListDrives, vec![]));
    assert_eq!(sent("ListDrives please"), (Command::ListDrives, vec![]));
    assert_eq!(sent("ListDir C:\\Users"), (Command::ListDir, b"C:\\Users".to_vec()));
    assert_eq!(sent("ListDir"), (Command::ListDir, b".".to_vec()));
    assert_eq!(sent("ListDirX"), (Command::ListDir, b".".to_vec()));
    assert_eq!(sent("Upload a|b"), (Command::Upload, b"a|b".to_vec()));
    assert_eq!(sent("Download a|b"), (Command::Download, b"a|b".to_vec()));
    assert_eq!(
        sent("SystemAction reboot"),
        (Command::SystemAction, b"reboot".to_vec())
    );
    assert_eq!(sent("Upload "), (Command::Upload, vec![]));
    assert_eq!(rejected("Pingu"), Rejection::InvalidCommand);
    assert_eq!(rejected("ping"), Rejection::InvalidCommand);
    assert_eq!(rejected("HelloWorld"), Rejection::InvalidCommand);
    // text that is not ASCII travels as UTF-8
    assert_eq!(
        sent("ShellExecute echo é"),
        (Command::ShellExecute, "echo é".as_bytes().to_vec())
    );
}

#[test]
fn arguments_that_cannot_be_cut() {
    assert!(!can_cut_arguments("Upload"));
    assert!(!can_cut_arguments("Download"));
    assert!(!can_cut_arguments("SystemAction"));
    assert!(!can_cut_arguments("Uploadé"));
    assert!(can_cut_arguments("Upload x"));
    assert!(can_cut_arguments("UploadXy"));
    assert!(can_cut_arguments("anything else"));
}

#[test]
fn responses() {
    assert_eq!(response_text(Command::Ping, "ignored").as_deref(), Some("Pong"));
    assert_eq!(
        response_text(Command::ShellExecute, "ok").as_deref(),
        Some("Executed: ok")
    );
    assert_eq!(response_text(Command::Copy, "copied").as_deref(), Some("copied"));
    assert_eq!(
        response_text(Command::ListDrives, "C:\\,D:\\").as_deref(),
        Some("Drives: C:\\,D:\\")
    );
    assert_eq!(
        response_text(Command::ListDir, "x").as_deref(),
        Some("Directory listing received")
    );
    assert_eq!(response_text(Command::Upload, "").as_deref(), Some("Upload complete"));
    assert_eq!(
        response_text(Command::Download, "").as_deref(),
        Some("Download complete")
    );
    assert_eq!(
        response_text(Command::SystemAction, "Sleep initiated").as_deref(),
        Some("System action: Sleep initiated")
    );
    assert_eq!(response_text(Command::Hello, ""), None);
    assert_eq!(response_text(Command::ScreenFrame, ""), None);
    assert_eq!(response_notice(Command::Copy), ResponseNotice::RefreshSlaveTree);
    assert_eq!(response_notice(Command::Upload), ResponseNotice::RefreshSlaveTree);
    assert_eq!(response_notice(Command::Download), ResponseNotice::RefreshLocalTree);
    assert_eq!(response_notice(Command::ListDrives), ResponseNotice::DriveList);
    assert_eq!(response_notice(Command::ListDir), ResponseNotice::DirectoryListing);
    assert_eq!(response_notice(Command::Ping), ResponseNotice::Nothing);
}
