//! The Linux side of the interface contract: the handle of a tunnel device
//! and the reasons for which the Linux allocator refuses one.

use vstd::prelude::*;
use vstd::string::StringExecFns;

use crate::interfaces::ErrorOS;
use crate::interfaces::Failure;
use crate::interfaces::Handle;

verus! {

/// What a negative status of the Linux allocator stands for.
pub open spec fn linux_failure(status: int) -> Failure {
    if status == -1 {
        Failure::Linux("OpenErr"@)
    } else if status == -2 {
        Failure::Linux("CtrlErr"@)
    } else {
        Failure::Unknown
    }
}

/// A tunnel device on Linux: the one owner of its file descriptor.
#[derive(Debug, PartialEq, Eq)]
pub struct LinuxInterface {
    handle: Handle,
}

impl View for LinuxInterface {
    type V = Option<int>;

    closed spec fn view(&self) -> Option<int> {
        self.handle@
    }
}

impl LinuxInterface {
    /// The error that a negative status of the allocator stands for.
    pub fn failure(status: i32) -> (error: ErrorOS)
        ensures
            error@ == linux_failure(status as int),
    {
        if status == -1 {
            ErrorOS::LinuxErr(String::from_str("OpenErr"))
        } else if status == -2 {
            ErrorOS::LinuxErr(String::from_str("CtrlErr"))
        } else {
            ErrorOS::Unknown
        }
    }

    /// Reads the allocator's answer: a file descriptor where it is not
    /// negative, else the reason for which the device was refused.
    pub fn from_status(status: i32) -> (opened: Result<LinuxInterface, ErrorOS>)
        ensures
            match opened {
                Ok(interface) => status >= 0 && interface@ == Some(status as int),
                Err(error) => status < 0 && error@ == linux_failure(status as int),
            },
    {
        match Handle::adopt(status) {
            Some(handle) => Ok(LinuxInterface { handle }),
            None => Err(LinuxInterface::failure(status)),
        }
    }

    /// The file descriptor, for as long as the device has not released it.
    pub fn handle(&self) -> (fd: Option<i32>)
        ensures
            match fd {
                Some(value) => value >= 0 && self@ == Some(value as int),
                None => self@ is None,
            },
    {
        self.handle.get()
    }

    /// Gives the file descriptor up for closing. Only the first call
    /// returns it.
    pub fn release(&mut self) -> (fd: Option<i32>)
        ensures
            match fd {
                Some(value) => value >= 0 && old(self)@ == Some(value as int),
                None => old(self)@ is None,
            },
            final(self)@ is None,
    {
        self.handle.release()
    }
}

} // verus!
