use tix_core::agent::{
    copy_arguments, plan_command, runs_in_pool, system_action, transfer_arguments, AgentAction,
    SystemActionKind,
};
use tix_core::protocol::screen::{KeyAction, KeyEvent, MouseButton, MouseEvent, MouseEventKind};
use tix_core::rdp::input::{injection_steps, translate_event, InputAction, MouseBtn, WindowEvent};
use tix_core::textscan::{find_char, starts_with, trim_char};
use tix_core::Command;

#[test]
fn commands_map_to_actions() {
    assert_eq!(plan_command(Command::ShellExecute), AgentAction::RunShell);
    assert_eq!(plan_command(Command::Copy), AgentAction::CopyFiles);
    assert_eq!(plan_command(Command::ListDrives), AgentAction::ListDrives);
    assert_eq!(plan_command(Command::ListDir), AgentAction::ListDirectory);
    assert_eq!(plan_command(Command::Upload), AgentAction::Upload);
    assert_eq!(plan_command(Command::Download), AgentAction::Download);
    assert_eq!(plan_command(Command::SystemAction), AgentAction::SystemAction);
    assert_eq!(plan_command(Command::Ping), AgentAction::Pong);
    assert_eq!(plan_command(Command::Heartbeat), AgentAction::Unhandled);
    assert_eq!(plan_command(Command::ScreenStart), AgentAction::Unhandled);
    assert!(runs_in_pool(AgentAction::RunShell));
    assert!(runs_in_pool(AgentAction::CopyFiles));
    assert!(!runs_in_pool(AgentAction::ListDrives));
    assert!(!runs_in_pool(AgentAction::Pong));
}

#[test]
fn system_actions() {
    assert_eq!(system_action("shutdown"), SystemActionKind::Shutdown);
    assert_eq!(system_action("reboot"), SystemActionKind::Reboot);
    assert_eq!(system_action("sleep"), SystemActionKind::Sleep);
    assert_eq!(system_action("Sleep"), SystemActionKind::Unknown);
    assert_eq!(system_action("sleepy"), SystemActionKind::Unknown);
    assert_eq!(system_action(""), SystemActionKind::Unknown);
}

#[test]
fn copy_arguments_are_split_at_the_first_space() {
    assert_eq!(copy_arguments("a b"), Some(("a", "b")));
    assert_eq!(copy_arguments("a b c"), Some(("a", "b c")));
    assert_eq!(copy_arguments("\"C:\\x\" \"D:\\y z\""), Some(("C:\\x", "D:\\y z")));
    assert_eq!(copy_arguments("\"\"a\"\" b\""), Some(("a", "b")));
    assert_eq!(copy_arguments("a "), Some(("a", "")));
    assert_eq!(copy_arguments(" b"), Some(("", "b")));
    assert_eq!(copy_arguments("\"\" x"), Some(("", "x")));
    assert_eq!(copy_arguments("ab"), None);
    assert_eq!(copy_arguments(""), None);
}

#[test]
fn transfer_arguments_are_the_first_two_fields() {
    assert_eq!(transfer_arguments("a|b"), Some(("a", "b")));
    assert_eq!(transfer_arguments("a|b|c"), Some(("a", "b")));
    assert_eq!(transfer_arguments("|"), Some(("", "")));
    assert_eq!(transfer_arguments("a|"), Some(("a", "")));
    assert_eq!(transfer_arguments("C:\\a b|D:\\c"), Some(("C:\\a b", "D:\\c")));
    assert_eq!(transfer_arguments("ab"), None);
    assert_eq!(transfer_arguments(""), None);
}

#[test]
fn text_scanning() {
    assert!(starts_with("ListDirectory", "ListDir"));
    assert!(!starts_with("ListDrives", "ListDir"));
    assert!(starts_with("x", ""));
    assert!(!starts_with("List", "ListDir"));
    assert!(!starts_with("listDir", "ListDir"));
    assert_eq!(find_char("a|b|c", '|'), 1);
    assert_eq!(find_char("abc", '|'), 3);
    assert_eq!(find_char("", '|'), 0);
    assert_eq!(find_char("é|", '|'), 1);
    assert_eq!(trim_char("\"\"a\"b\"", '"'), "a\"b");
    assert_eq!(trim_char("\"\"\"", '"'), "");
    assert_eq!(trim_char("", '"'), "");
    assert_eq!(trim_char("abc", '"'), "abc");
}

#[test]
fn window_events_become_protocol_events() {
    assert_eq!(
        translate_event(&WindowEvent::MouseMove(10, 20), 100, 200),
        Some(InputAction::Mouse(MouseEvent::move_to(100, 200)))
    );
    assert_eq!(
        translate_event(&WindowEvent::MouseButton(MouseBtn::Right, true), 5, 5),
        Some(InputAction::Mouse(MouseEvent::press(0, 0, MouseButton::Right)))
    );
    assert_eq!(
        translate_event(&WindowEvent::MouseButton(MouseBtn::Middle, false), 5, 5),
        Some(InputAction::Mouse(MouseEvent::release(0, 0, MouseButton::Middle)))
    );
    assert_eq!(
        translate_event(&WindowEvent::MouseWheel(-120), 5, 5),
        Some(InputAction::Mouse(MouseEvent::scroll(0, 0, -120)))
    );
    assert_eq!(
        translate_event(&WindowEvent::Key(0x41, 0x1E, true), 0, 0),
        Some(InputAction::Key(KeyEvent::press(0x41, 0x1E, 0)))
    );
    match translate_event(&WindowEvent::Key(0x41, 0x1E, false), 0, 0) {
        Some(InputAction::Key(k)) => assert_eq!(k.action, KeyAction::Release),
        _ => panic!("expected a key event"),
    }
    assert_eq!(translate_event(&WindowEvent::Close, 0, 0), None);
    assert_eq!(translate_event(&WindowEvent::Resize(1, 1), 0, 0), None);
}

#[test]
fn a_double_click_is_injected_as_down_up_down_up() {
    let dbl = MouseEvent {
        x: 7,
        y: 9,
        kind: MouseEventKind::DoubleClick,
        button: MouseButton::Left,
        scroll_delta: 3,
    };
    let down = MouseEvent::press(7, 9, MouseButton::Left);
    let up = MouseEvent::release(7, 9, MouseButton::Left);
    assert_eq!(injection_steps(&dbl), vec![down, up, down, up]);
    let mv = MouseEvent::move_to(1, 2);
    assert_eq!(injection_steps(&mv), vec![mv]);
    let scroll = MouseEvent::scroll(1, 2, 5);
    assert_eq!(injection_steps(&scroll), vec![scroll]);
}

#[test]
fn a_ping_is_answered_with_pong() {
    let p = tix_core::agent::pong(17).unwrap();
    assert_eq!(p.request_id(), 17);
    assert_eq!(p.command().unwrap(), tix_core::Command::Ping);
    assert_eq!(p.message_type(), tix_core::MessageType::Response);
    assert_eq!(p.payload(), b"Pong");
    assert!(p.flags().is_empty());
    assert!(p.validate_checksum());
}
