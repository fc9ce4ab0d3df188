//! The error that a message is too long.

use vstd::prelude::*;

verus! {

/// The operating systems that number the error in different ways.
#[derive(Debug, PartialEq, Eq, Clone, Copy, Structural)]
pub enum Platform {
    Linux,
    MacOs,
    Ios,
    FreeBsd,
    OpenBsd,
    Windows,
    Other,
}

/// An error as the operating system numbers it.
#[derive(Debug, PartialEq, Eq, Clone, Copy, Structural)]
pub struct OsError {
    pub code: i32,
}

/// The number that a platform has for a message that is too long.
pub open spec fn message_too_long(platform: Platform) -> i32 {
    match platform {
        Platform::Linux | Platform::Other => 90,
        Platform::MacOs | Platform::Ios | Platform::FreeBsd | Platform::OpenBsd => 40,
        Platform::Windows => 10040,
    }
}

/// The number that a platform has for a message that is too long.
pub fn emsgsize_code(platform: Platform) -> (code: i32)
    ensures
        code == message_too_long(platform),
{
    match platform {
        Platform::Linux => 90,
        Platform::MacOs => 40,
        Platform::Ios => 40,
        Platform::FreeBsd => 40,
        Platform::OpenBsd => 40,
        Platform::Windows => 10040,
        // Systems that follow the numbering of Linux.
        Platform::Other => 90,
    }
}

/// The error that a message is too long.
pub fn errmsgsize(platform: Platform) -> (error: OsError)
    ensures
        error.code == message_too_long(platform),
{
    OsError { code: emsgsize_code(platform) }
}

} // verus!
