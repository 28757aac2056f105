//! Message types and the command enumeration.

use vstd::prelude::*;
use vstd::string::StringExecFns;
use crate::error::TixError;

verus! {

/// Distinguishes commands from the responses to them.
#[derive(Debug, Clone, Copy, PartialEq, Eq, Hash, Structural)]
pub enum MessageType {
    /// A request.
    Command,
    /// A reply to a request.
    Response,
}

impl MessageType {
    /// The number that stands for this message type.
    pub open spec fn spec_code(self) -> u32 {
        match self {
            MessageType::Command => 0x1,
            MessageType::Response => 0x2,
        }
    }

    /// The message type that `value` stands for, if any.
    pub open spec fn of_code(value: u32) -> Option<MessageType> {
        if value == 0x1 {
            Some(MessageType::Command)
        } else if value == 0x2 {
            Some(MessageType::Response)
        } else {
            None
        }
    }

    /// The number that stands for this message type.
    pub fn code(self) -> (r: u32)
        ensures
            r == self.spec_code(),
    {
        match self {
            MessageType::Command => 0x1,
            MessageType::Response => 0x2,
        }
    }

    /// Reads a message type from its number; an unknown number is an
    /// `UnknownVariant` error that carries it.
    pub fn try_from(value: u32) -> (r: Result<MessageType, TixError>)
        ensures
            match r {
                Ok(m) => MessageType::of_code(value) == Some(m),
                Err(e) => MessageType::of_code(value).is_none() && (e
                    matches TixError::UnknownVariant { kind_name, value: v } && kind_name@
                    == "MessageType"@ && v == value),
            },
    {
        if value == 0x1 {
            Ok(MessageType::Command)
        } else if value == 0x2 {
            Ok(MessageType::Response)
        } else {
            Err(TixError::UnknownVariant { kind_name: "MessageType", value: value as u64 })
        }
    }

    /// The name of the message type.
    pub fn to_string(&self) -> (s: String)
        ensures
            s@ == match self {
                MessageType::Command => "Command"@,
                MessageType::Response => "Response"@,
            },
    {
        match self {
            MessageType::Command => String::from_str("Command"),
            MessageType::Response => String::from_str("Response"),
        }
    }
}

/// All commands of the protocol, grouped by the high byte of their code:
/// `0x00` protocol, `0x01` shell, `0x02` file, `0x03` system, `0x04`
/// screen, `0x05` update.
#[derive(Debug, Clone, Copy, PartialEq, Eq, Hash, Structural)]
pub enum Command {
    /// Keep-alive ping.
    Ping,
    /// Connection handshake.
    Hello,
    /// Graceful disconnect.
    Goodbye,
    /// Periodic heartbeat.
    Heartbeat,
    /// Execute a shell command.
    ShellExecute,
    /// Cancel a running shell command.
    ShellCancel,
    /// Resize the terminal of a shell session.
    ShellResize,
    /// List the contents of a directory.
    ListDir,
    /// Read a file.
    FileRead,
    /// Write a file.
    FileWrite,
    /// List the drives of the machine.
    ListDrives,
    /// Copy files on the remote machine.
    Copy,
    /// Upload a file.
    Upload,
    /// Download a file.
    Download,
    /// Query system information.
    SystemInfo,
    /// Perform a system action.
    SystemAction,
    /// List running processes.
    ProcessList,
    /// Start a screen session.
    ScreenStart,
    /// Stop a screen session.
    ScreenStop,
    /// One screen frame.
    ScreenFrame,
    /// A mouse input event.
    InputMouse,
    /// A keyboard input event.
    InputKeyboard,
    /// Check for updates.
    UpdateCheck,
    /// Push an update.
    UpdatePush,
    /// Apply the staged update.
    UpdateApply,
}

impl Command {
    /// The number that stands for this command on the wire.
    pub open spec fn spec_code(self) -> u64 {
        match self {
            Command::Ping => 0x0001,
            Command::Hello => 0x0002,
            Command::Goodbye => 0x0003,
            Command::Heartbeat => 0x0004,
            Command::ShellExecute => 0x0101,
            Command::ShellCancel => 0x0102,
            Command::ShellResize => 0x0103,
            Command::ListDir => 0x0201,
            Command::FileRead => 0x0202,
            Command::FileWrite => 0x0203,
            Command::ListDrives => 0x0204,
            Command::Copy => 0x0205,
            Command::Upload => 0x0206,
            Command::Download => 0x0207,
            Command::SystemInfo => 0x0301,
            Command::SystemAction => 0x0302,
            Command::ProcessList => 0x0303,
            Command::ScreenStart => 0x0401,
            Command::ScreenStop => 0x0402,
            Command::ScreenFrame => 0x0403,
            Command::InputMouse => 0x0404,
            Command::InputKeyboard => 0x0405,
            Command::UpdateCheck => 0x0501,
            Command::UpdatePush => 0x0502,
            Command::UpdateApply => 0x0503,
        }
    }

    /// The command that `value` stands for, if any.
    pub open spec fn of_code(value: u64) -> Option<Command> {
        if value == 0x0001 {
            Some(Command::Ping)
        } else if value == 0x0002 {
            Some(Command::Hello)
        } else if value == 0x0003 {
            Some(Command::Goodbye)
        } else if value == 0x0004 {
            Some(Command::Heartbeat)
        } else if value == 0x0101 {
            Some(Command::ShellExecute)
        } else if value == 0x0102 {
            Some(Command::ShellCancel)
        } else if value == 0x0103 {
            Some(Command::ShellResize)
        } else if value == 0x0201 {
            Some(Command::ListDir)
        } else if value == 0x0202 {
            Some(Command::FileRead)
        } else if value == 0x0203 {
            Some(Command::FileWrite)
        } else if value == 0x0204 {
            Some(Command::ListDrives)
        } else if value == 0x0205 {
            Some(Command::Copy)
        } else if value == 0x0206 {
            Some(Command::Upload)
        } else if value == 0x0207 {
            Some(Command::Download)
        } else if value == 0x0301 {
            Some(Command::SystemInfo)
        } else if value == 0x0302 {
            Some(Command::SystemAction)
        } else if value == 0x0303 {
            Some(Command::ProcessList)
        } else if value == 0x0401 {
            Some(Command::ScreenStart)
        } else if value == 0x0402 {
            Some(Command::ScreenStop)
        } else if value == 0x0403 {
            Some(Command::ScreenFrame)
        } else if value == 0x0404 {
            Some(Command::InputMouse)
        } else if value == 0x0405 {
            Some(Command::InputKeyboard)
        } else if value == 0x0501 {
            Some(Command::UpdateCheck)
        } else if value == 0x0502 {
            Some(Command::UpdatePush)
        } else if value == 0x0503 {
            Some(Command::UpdateApply)
        } else {
            None
        }
    }

    /// Whether the peer is expected to answer this command.
    pub open spec fn spec_expects_response(self) -> bool {
        self != Command::Heartbeat && self != Command::Goodbye
    }

    /// The number that stands for this command on the wire.
    pub fn code(self) -> (r: u64)
        ensures
            r == self.spec_code(),
            r <= 0xFFFF,
    {
        match self {
            Command::Ping => 0x0001,
            Command::Hello => 0x0002,
            Command::Goodbye => 0x0003,
            Command::Heartbeat => 0x0004,
            Command::ShellExecute => 0x0101,
            Command::ShellCancel => 0x0102,
            Command::ShellResize => 0x0103,
            Command::ListDir => 0x0201,
            Command::FileRead => 0x0202,
            Command::FileWrite => 0x0203,
            Command::ListDrives => 0x0204,
            Command::Copy => 0x0205,
            Command::Upload => 0x0206,
            Command::Download => 0x0207,
            Command::SystemInfo => 0x0301,
            Command::SystemAction => 0x0302,
            Command::ProcessList => 0x0303,
            Command::ScreenStart => 0x0401,
            Command::ScreenStop => 0x0402,
            Command::ScreenFrame => 0x0403,
            Command::InputMouse => 0x0404,
            Command::InputKeyboard => 0x0405,
            Command::UpdateCheck => 0x0501,
            Command::UpdatePush => 0x0502,
            Command::UpdateApply => 0x0503,
        }
    }

    /// Reads a command from its number; an unknown number is an
    /// `UnknownVariant` error that carries it.
    pub fn try_from(value: u64) -> (r: Result<Command, TixError>)
        ensures
            match r {
                Ok(c) => Command::of_code(value) == Some(c),
                Err(e) => Command::of_code(value).is_none() && (e
                    matches TixError::UnknownVariant { kind_name, value: v } && kind_name@
                    == "Command"@ && v == value),
            },
    {
        if value == 0x0001 {
            Ok(Command::Ping)
        } else if value == 0x0002 {
            Ok(Command::Hello)
        } else if value == 0x0003 {
            Ok(Command::Goodbye)
        } else if value == 0x0004 {
            Ok(Command::Heartbeat)
        } else if value == 0x0101 {
            Ok(Command::ShellExecute)
        } else if value == 0x0102 {
            Ok(Command::ShellCancel)
        } else if value == 0x0103 {
            Ok(Command::ShellResize)
        } else if value == 0x0201 {
            Ok(Command::ListDir)
        } else if value == 0x0202 {
            Ok(Command::FileRead)
        } else if value == 0x0203 {
            Ok(Command::FileWrite)
        } else if value == 0x0204 {
            Ok(Command::ListDrives)
        } else if value == 0x0205 {
            Ok(Command::Copy)
        } else if value == 0x0206 {
            Ok(Command::Upload)
        } else if value == 0x0207 {
            Ok(Command::Download)
        } else if value == 0x0301 {
            Ok(Command::SystemInfo)
        } else if value == 0x0302 {
            Ok(Command::SystemAction)
        } else if value == 0x0303 {
            Ok(Command::ProcessList)
        } else if value == 0x0401 {
            Ok(Command::ScreenStart)
        } else if value == 0x0402 {
            Ok(Command::ScreenStop)
        } else if value == 0x0403 {
            Ok(Command::ScreenFrame)
        } else if value == 0x0404 {
            Ok(Command::InputMouse)
        } else if value == 0x0405 {
            Ok(Command::InputKeyboard)
        } else if value == 0x0501 {
            Ok(Command::UpdateCheck)
        } else if value == 0x0502 {
            Ok(Command::UpdatePush)
        } else if value == 0x0503 {
            Ok(Command::UpdateApply)
        } else {
            Err(TixError::UnknownVariant { kind_name: "Command", value })
        }
    }

    /// The name of the command, as its variant is written.
    pub open spec fn spec_name(self) -> Seq<char> {
        match self {
            Command::Ping => "Ping"@,
            Command::Hello => "Hello"@,
            Command::Goodbye => "Goodbye"@,
            Command::Heartbeat => "Heartbeat"@,
            Command::ShellExecute => "ShellExecute"@,
            Command::ShellCancel => "ShellCancel"@,
            Command::ShellResize => "ShellResize"@,
            Command::ListDir => "ListDir"@,
            Command::FileRead => "FileRead"@,
            Command::FileWrite => "FileWrite"@,
            Command::ListDrives => "ListDrives"@,
            Command::Copy => "Copy"@,
            Command::Upload => "Upload"@,
            Command::Download => "Download"@,
            Command::SystemInfo => "SystemInfo"@,
            Command::SystemAction => "SystemAction"@,
            Command::ProcessList => "ProcessList"@,
            Command::ScreenStart => "ScreenStart"@,
            Command::ScreenStop => "ScreenStop"@,
            Command::ScreenFrame => "ScreenFrame"@,
            Command::InputMouse => "InputMouse"@,
            Command::InputKeyboard => "InputKeyboard"@,
            Command::UpdateCheck => "UpdateCheck"@,
            Command::UpdatePush => "UpdatePush"@,
            Command::UpdateApply => "UpdateApply"@,
        }
    }

    /// The name of the command.
    pub fn to_string(&self) -> (s: String)
        ensures
            s@ == self.spec_name(),
    {
        match self {
            Command::Ping => String::from_str("Ping"),
            Command::Hello => String::from_str("Hello"),
            Command::Goodbye => String::from_str("Goodbye"),
            Command::Heartbeat => String::from_str("Heartbeat"),
            Command::ShellExecute => String::from_str("ShellExecute"),
            Command::ShellCancel => String::from_str("ShellCancel"),
            Command::ShellResize => String::from_str("ShellResize"),
            Command::ListDir => String::from_str("ListDir"),
            Command::FileRead => String::from_str("FileRead"),
            Command::FileWrite => String::from_str("FileWrite"),
            Command::ListDrives => String::from_str("ListDrives"),
            Command::Copy => String::from_str("Copy"),
            Command::Upload => String::from_str("Upload"),
            Command::Download => String::from_str("Download"),
            Command::SystemInfo => String::from_str("SystemInfo"),
            Command::SystemAction => String::from_str("SystemAction"),
            Command::ProcessList => String::from_str("ProcessList"),
            Command::ScreenStart => String::from_str("ScreenStart"),
            Command::ScreenStop => String::from_str("ScreenStop"),
            Command::ScreenFrame => String::from_str("ScreenFrame"),
            Command::InputMouse => String::from_str("InputMouse"),
            Command::InputKeyboard => String::from_str("InputKeyboard"),
            Command::UpdateCheck => String::from_str("UpdateCheck"),
            Command::UpdatePush => String::from_str("UpdatePush"),
            Command::UpdateApply => String::from_str("UpdateApply"),
        }
    }

    /// Whether the peer is expected to answer this command: every command
    /// but `Heartbeat` and `Goodbye`.
    pub fn expects_response(&self) -> (r: bool)
        ensures
            r == self.spec_expects_response(),
    {
        match self {
            Command::Heartbeat => false,
            Command::Goodbye => false,
            _ => true,
        }
    }
}

/// Every command is read back from its own code.
pub proof fn lemma_command_code_roundtrip(c: Command)
    ensures
        Command::of_code(c.spec_code()) == Some(c),
{
}

/// A number that reads as a command is that command's code, so no two
/// numbers read as the same command.
pub proof fn lemma_command_code_unique(value: u64, c: Command)
    requires
        Command::of_code(value) == Some(c),
    ensures
        c.spec_code() == value,
{
}

/// Every message type is read back from its own code.
pub proof fn lemma_message_type_code_roundtrip(m: MessageType)
    ensures
        MessageType::of_code(m.spec_code()) == Some(m),
{
}

} // verus!
