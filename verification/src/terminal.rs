//! Messages of the terminal server: what a message from the browser asks of
//! the shell, and how the shell's output is sent back.

use vstd::prelude::*;
use crate::text::{owned, same_text};

verus! {

/// A message on the terminal's WebSocket: its type and, depending on it,
/// data or a size.
pub struct TerminalMessage {
    pub message_type: String,
    pub data: Option<String>,
    pub cols: Option<u16>,
    pub rows: Option<u16>,
}

/// What a message from the browser asks for.
pub enum TerminalAction {
    /// Write the data to the shell
    WriteInput(String),
    /// An input message without data
    MissingData,
    /// Resize the terminal
    Resize { cols: u16, rows: u16 },
    /// A resize message without both dimensions
    MissingSize,
    /// A message of an unknown type
    Unknown(String),
}

/// The action a message asks for: "input" writes its data, "resize"
/// resizes to its columns and rows, anything else is unknown.
pub open spec fn action_for(msg: TerminalMessage, a: TerminalAction) -> bool {
    if msg.message_type@ == "input"@ {
        match msg.data {
            Some(d) => a matches TerminalAction::WriteInput(w) && w@ == d@,
            None => a is MissingData,
        }
    } else if msg.message_type@ == "resize"@ {
        match (msg.cols, msg.rows) {
            (Some(c), Some(r)) => a == (TerminalAction::Resize { cols: c, rows: r }),
            _ => a is MissingSize,
        }
    } else {
        a matches TerminalAction::Unknown(t) && t@ == msg.message_type@
    }
}

/// Decides what a message from the browser asks of the shell.
pub fn terminal_action(msg: TerminalMessage) -> (a: TerminalAction)
    ensures
        action_for(msg, a),
{
    let is_input = same_text(msg.message_type.as_str(), "input");
    let is_resize = same_text(msg.message_type.as_str(), "resize");
    if is_input {
        match msg.data {
            Some(d) => TerminalAction::WriteInput(d),
            None => TerminalAction::MissingData,
        }
    } else if is_resize {
        match (msg.cols, msg.rows) {
            (Some(cols), Some(rows)) => TerminalAction::Resize { cols, rows },
            _ => TerminalAction::MissingSize,
        }
    } else {
        TerminalAction::Unknown(msg.message_type)
    }
}

/// The message that carries output of the shell to the browser.
pub fn output_message(data: String) -> (m: TerminalMessage)
    ensures
        m.message_type@ == "output"@,
        m.data matches Some(d) && d@ == data@,
        m.cols is None,
        m.rows is None,
{
    TerminalMessage { message_type: owned("output"), data: Some(data), cols: None, rows: None }
}

/// The size a new terminal starts with: 24 rows of 80 columns.
pub fn initial_size() -> (s: (u16, u16))
    ensures
        s == (24u16, 80u16),
{
    (24, 80)
}

} // verus!
