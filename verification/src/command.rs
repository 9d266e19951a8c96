//! Commands that the host sends to a running machine, and the mapping from
//! the front end's key events to those commands.
use vstd::prelude::*;

verus! {

/// A request from the host to the emulation loop.
#[derive(Clone, Copy, Debug, PartialEq, Eq, Structural)]
pub enum EmulatorCommand {
    /// Hold down a key of the keypad.
    KeyPress(u16),
    /// Release a key of the keypad.
    KeyRelease(u16),
    /// Pause or resume execution.
    SetPaused(bool),
    /// Stop the emulation loop.
    Terminate,
    /// Change the speed multiplier.
    SetSpeed(u16),
}

/// The command that the front end's key event `key` stands for: 0x10
/// pauses, 0x11 resumes, 0x12 terminates, `0x20 + s` sets speed `s`, and any
/// other code presses or releases that key.
pub open spec fn command_for_key_spec(key: u16, is_pressed: bool) -> EmulatorCommand {
    if key == 0x10 {
        EmulatorCommand::SetPaused(true)
    } else if key == 0x11 {
        EmulatorCommand::SetPaused(false)
    } else if key == 0x12 {
        EmulatorCommand::Terminate
    } else if key >= 0x20 {
        EmulatorCommand::SetSpeed((key - 0x20) as u16)
    } else if is_pressed {
        EmulatorCommand::KeyPress(key)
    } else {
        EmulatorCommand::KeyRelease(key)
    }
}

/// Translate a key event of the front end into a command.
pub fn command_for_key_event(key: u16, is_pressed: bool) -> (cmd: EmulatorCommand)
    ensures
        cmd == command_for_key_spec(key, is_pressed),
{
    if key == 0x10 {
        EmulatorCommand::SetPaused(true)
    } else if key == 0x11 {
        EmulatorCommand::SetPaused(false)
    } else if key == 0x12 {
        EmulatorCommand::Terminate
    } else if key >= 0x20 {
        let speed = key - 0x20;
        EmulatorCommand::SetSpeed(speed)
    } else {
        if is_pressed {
            EmulatorCommand::KeyPress(key)
        } else {
            EmulatorCommand::KeyRelease(key)
        }
    }
}

} // verus!
