//! The macOS side of the interface contract: the handle of a tunnel device
//! and the reasons for which the macOS allocator refuses one.

use vstd::prelude::*;
use vstd::string::StringExecFns;

use crate::interfaces::ErrorOS;
use crate::interfaces::Failure;
use crate::interfaces::Handle;

verus! {

/// What a negative status of the macOS allocator stands for.
pub open spec fn macos_failure(status: int) -> Failure {
    if status == -1 {
        Failure::Macos("SockErr"@)
    } else if status == -2 {
        Failure::Macos("InfoErr"@)
    } else if status == -3 {
        Failure::Macos("AddrErr"@)
    } else if status == -4 {
        Failure::Macos("NameErr"@)
    } else {
        Failure::Unknown
    }
}

/// A tunnel device on macOS: the one owner of its socket descriptor.
#[derive(Debug, PartialEq, Eq)]
pub struct MacosInterface {
    handle: Handle,
}

impl View for MacosInterface {
    type V = Option<int>;

    closed spec fn view(&self) -> Option<int> {
        self.handle@
    }
}

impl MacosInterface {
    /// The error that a negative status of the allocator stands for.
    pub fn failure(status: i32) -> (error: ErrorOS)
        ensures
            error@ == macos_failure(status as int),
    {
        if status == -1 {
            ErrorOS::MacosErr(String::from_str("SockErr"))
        } else if status == -2 {
            ErrorOS::MacosErr(String::from_str("InfoErr"))
        } else if status == -3 {
            ErrorOS::MacosErr(String::from_str("AddrErr"))
        } else if status == -4 {
            ErrorOS::MacosErr(String::from_str("NameErr"))
        } else {
            ErrorOS::Unknown
        }
    }

    /// Reads the allocator's answer: a socket descriptor where it is not
    /// negative, else the reason for which the device was refused.
    pub fn from_status(status: i32) -> (opened: Result<MacosInterface, ErrorOS>)
        ensures
            match opened {
                Ok(interface) => status >= 0 && interface@ == Some(status as int),
                Err(error) => status < 0 && error@ == macos_failure(status as int),
            },
    {
        match Handle::adopt(status) {
            Some(handle) => Ok(MacosInterface { handle }),
            None => Err(MacosInterface::failure(status)),
        }
    }

    /// The socket descriptor, for as long as the device has not released it.
    pub fn handle(&self) -> (fd: Option<i32>)
        ensures
            match fd {
                Some(value) => value >= 0 && self@ == Some(value as int),
                None => self@ is None,
            },
    {
        self.handle.get()
    }

    /// Gives the socket descriptor up for closing. Only the first call
    /// returns it.
    pub fn release(&mut self) -> (fd: Option<i32>)
        ensures
            match fd {
                Some(value) => value >= 0 && old(self)@ == Some(value as int),
                None => old(self)@ is None,
            },
            final(self)@ is None,
    {
        self.handle.release()
    }
}

} // verus!
