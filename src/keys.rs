use vstd::prelude::*;

verus! {

/// Number of bytes read from the terminal for one key press: enough for the
/// longest escape sequence a terminal sends for a single key.
pub const KEY_WINDOW: usize = 3;

/// A logical command decoded from one key press.
#[derive(Clone, Copy, Debug, PartialEq, Eq, Structural)]
pub enum Command {
    MoveUp,
    MoveDown,
    ToggleSelect,
    Confirm,
    Cancel,
    ForceQuit,
    Unrecognized,
}

/// The command bound to a single-byte key.
pub open spec fn command_of_byte(b: u8) -> Command {
    if b == 3 {
        Command::ForceQuit  // Ctrl-C
    } else if b == 13 {
        Command::Confirm  // Enter
    } else if b == 27 || b == 113 {
        Command::Cancel  // Escape, q
    } else if b == 32 {
        Command::ToggleSelect  // Space
    } else if b == 106 {
        Command::MoveDown  // j
    } else if b == 107 {
        Command::MoveUp  // k
    } else {
        Command::Unrecognized
    }
}

/// The command for a zero-filled read window. A second byte means that the
/// terminal sent a multi-byte sequence, and none is bound.
pub open spec fn command_of_window(w: Seq<u8>) -> Command {
    if w[1] != 0 {
        Command::Unrecognized
    } else {
        command_of_byte(w[0])
    }
}

/// Maps one read window (zero-filled past the bytes that were read) to the
/// command it stands for.
pub fn decode_key(window: &[u8; 3]) -> (c: Command)
    ensures
        c == command_of_window(window@),
{
    if window[1] != 0 {
        return Command::Unrecognized;
    }
    match window[0] {
        3 => Command::ForceQuit,
        13 => Command::Confirm,
        27 | 113 => Command::Cancel,
        32 => Command::ToggleSelect,
        106 => Command::MoveDown,
        107 => Command::MoveUp,
        _ => Command::Unrecognized,
    }
}

} // verus!
