//! Words for the reason codes of the terminal events.

use vstd::prelude::*;

verus! {

/// What the reason code of a graceful stop means.
pub open spec fn grace_text(code: u32) -> Seq<char> {
    if code == 0 {
        "Graceful Halt"@
    } else if code == 1 {
        "End of Program"@
    } else {
        "Unknown Stop Code"@
    }
}

/// What the reason code of a crash means.
pub open spec fn error_text(code: u32) -> Seq<char> {
    if code == 1 {
        "Invalid Header"@
    } else if code == 2 {
        "Incomplete Bytecode"@
    } else if code == 3 {
        "Unknown Opcode"@
    } else {
        "Unknown Error"@
    }
}

pub fn grace_description(code: u32) -> (text: &'static str)
    ensures
        text@ == grace_text(code),
{
    match code {
        0 => "Graceful Halt",
        1 => "End of Program",
        _ => "Unknown Stop Code",
    }
}

pub fn error_description(code: u32) -> (text: &'static str)
    ensures
        text@ == error_text(code),
{
    match code {
        1 => "Invalid Header",
        2 => "Incomplete Bytecode",
        3 => "Unknown Opcode",
        _ => "Unknown Error",
    }
}

} // verus!
