use tix_core::{Command, MessageType, TixError};

#[test]
fn message_type_roundtrip() {
    assert_eq!(
        MessageType::try_from(MessageType::Command.code()).unwrap(),
        MessageType::Command
    );
    assert_eq!(
        MessageType::try_from(MessageType::Response.code()).unwrap(),
        MessageType::Response
    );
}

#[test]
fn message_type_invalid() {
    assert!(MessageType::try_from(0xFF).is_err());
}

#[test]
fn message_command_roundtrip() {
    let cmds = [
        Command::Ping,
        Command::Hello,
        Command::Goodbye,
        Command::Heartbeat,
        Command::ShellExecute,
        Command::ShellCancel,
        Command::ShellResize,
        Command::ListDir,
        Command::FileRead,
        Command::FileWrite,
        Command::ListDrives,
        Command::Copy,
        Command::Upload,
        Command::Download,
        Command::SystemInfo,
        Command::SystemAction,
        Command::ProcessList,
        Command::ScreenStart,
        Command::ScreenStop,
        Command::ScreenFrame,
        Command::InputMouse,
        Command::InputKeyboard,
        Command::UpdateCheck,
        Command::UpdatePush,
        Command::UpdateApply,
    ];
    for cmd in cmds {
        assert_eq!(Command::try_from(cmd.code()).unwrap(), cmd);
    }
}

#[test]
fn command_invalid() {
    assert!(Command::try_from(0xDEAD).is_err());
}

#[test]
fn heartbeat_does_not_expect_response() {
    assert!(!Command::Heartbeat.expects_response());
    assert!(Command::Ping.expects_response());
}

#[test]
fn command_codes_are_the_wire_values() {
    assert_eq!(Command::Ping.code(), 0x0001);
    assert_eq!(Command::Heartbeat.code(), 0x0004);
    assert_eq!(Command::ShellExecute.code(), 0x0101);
    assert_eq!(Command::ShellResize.code(), 0x0103);
    assert_eq!(Command::ListDir.code(), 0x0201);
    assert_eq!(Command::Download.code(), 0x0207);
    assert_eq!(Command::SystemInfo.code(), 0x0301);
    assert_eq!(Command::ProcessList.code(), 0x0303);
    assert_eq!(Command::ScreenStart.code(), 0x0401);
    assert_eq!(Command::InputKeyboard.code(), 0x0405);
    assert_eq!(Command::UpdateCheck.code(), 0x0501);
    assert_eq!(Command::UpdateApply.code(), 0x0503);
    assert_eq!(MessageType::Command.code(), 1);
    assert_eq!(MessageType::Response.code(), 2);
}

#[test]
fn unknown_codes_carry_the_value() {
    match Command::try_from(0x0104) {
        Err(TixError::UnknownVariant { kind_name, value }) => {
            assert_eq!(kind_name, "Command");
            assert_eq!(value, 0x0104);
        }
        _ => panic!("expected UnknownVariant"),
    }
    match MessageType::try_from(0) {
        Err(TixError::UnknownVariant { kind_name, value }) => {
            assert_eq!(kind_name, "MessageType");
            assert_eq!(value, 0);
        }
        _ => panic!("expected UnknownVariant"),
    }
    assert!(!Command::Goodbye.expects_response());
    assert!(Command::Hello.expects_response());
    assert_eq!(MessageType::Response.to_string(), "Response");
}

#[test]
fn commands_are_named_as_their_variants() {
    assert_eq!(Command::Ping.to_string(), "Ping");
    assert_eq!(Command::ShellExecute.to_string(), "ShellExecute");
    assert_eq!(Command::ListDrives.to_string(), "ListDrives");
    assert_eq!(Command::UpdateApply.to_string(), "UpdateApply");
    assert_eq!(Command::InputKeyboard.to_string(), format!("{:?}", Command::InputKeyboard));
}
