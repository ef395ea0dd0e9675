//! The capability contract of a virtual network interface: the two error
//! categories, the push and pull capabilities, and the interface that binds
//! them to one device.

use vstd::prelude::*;
use vstd::string::StringExecFns;

use crate::name::text_of;
use crate::name::NAME_CAPACITY;

pub mod linux;
pub mod macos;

verus! {

/// What an error stands for, with the platform's reason as plain text.
///
/// Both error categories are read through this model, so that contracts can
/// speak of a reason without speaking of the `String` that carries it.
pub enum Failure {
    /// The sentinel: nothing failed.
    NoError,
    /// A failure on Linux, with its reason.
    Linux(Seq<char>),
    /// A failure on macOS, with its reason.
    Macos(Seq<char>),
    /// A failure that no platform table names.
    Unknown,
}

/// Why opening a device failed.
#[derive(Debug, PartialEq, Eq)]
pub enum ErrorOS {
    /// The sentinel; `open` never returns it.
    NoError,
    /// The Linux allocator refused, for the reason given.
    LinuxErr(String),
    /// The macOS allocator refused, for the reason given.
    MacosErr(String),
    /// The allocator returned a status that its platform does not define.
    Unknown,
}

/// Why a transfer through an open device failed.
#[derive(Debug, PartialEq, Eq)]
pub enum ErrorIO {
    /// The sentinel; a transfer never returns it.
    NoError,
    /// A transfer failed on Linux, for the reason given.
    LinuxErr(String),
    /// A transfer failed on macOS, for the reason given.
    MacosErr(String),
    /// A transfer failed for a reason that the platform does not name.
    Unknown,
}

impl View for ErrorOS {
    type V = Failure;

    open spec fn view(&self) -> Failure {
        match self {
            ErrorOS::NoError => Failure::NoError,
            ErrorOS::LinuxErr(reason) => Failure::Linux(reason@),
            ErrorOS::MacosErr(reason) => Failure::Macos(reason@),
            ErrorOS::Unknown => Failure::Unknown,
        }
    }
}

impl View for ErrorIO {
    type V = Failure;

    open spec fn view(&self) -> Failure {
        match self {
            ErrorIO::NoError => Failure::NoError,
            ErrorIO::LinuxErr(reason) => Failure::Linux(reason@),
            ErrorIO::MacosErr(reason) => Failure::Macos(reason@),
            ErrorIO::Unknown => Failure::Unknown,
        }
    }
}

impl Failure {
    /// The diagnostic line of an open failure.
    pub open spec fn os_line(self) -> Seq<char> {
        match self {
            Failure::NoError => "NO OS ERROR"@,
            Failure::Linux(reason) => "LINUX OS ERROR: "@ + reason,
            Failure::Macos(reason) => "MACOS OS ERROR: "@ + reason,
            Failure::Unknown => "UNKNOWN OS ERROR"@,
        }
    }

    /// The diagnostic line of a transfer failure.
    pub open spec fn io_line(self) -> Seq<char> {
        match self {
            Failure::NoError => "NO IO ERROR"@,
            Failure::Linux(reason) => "LINUX IO ERROR: "@ + reason,
            Failure::Macos(reason) => "MACOS IO ERROR: "@ + reason,
            Failure::Unknown => "UNKNOWN IO ERROR"@,
        }
    }
}

impl ErrorOS {
    /// Renders the error as one line of text for diagnostics.
    pub fn describe(&self) -> (line: String)
        ensures
            line@ == self@.os_line(),
    {
        match self {
            ErrorOS::NoError => String::from_str("NO OS ERROR"),
            ErrorOS::LinuxErr(reason) => String::from_str("LINUX OS ERROR: ").concat(
                reason.as_str(),
            ),
            ErrorOS::MacosErr(reason) => String::from_str("MACOS OS ERROR: ").concat(
                reason.as_str(),
            ),
            ErrorOS::Unknown => String::from_str("UNKNOWN OS ERROR"),
        }
    }
}

impl ErrorIO {
    /// Renders the error as one line of text for diagnostics.
    pub fn describe(&self) -> (line: String)
        ensures
            line@ == self@.io_line(),
    {
        match self {
            ErrorIO::NoError => String::from_str("NO IO ERROR"),
            ErrorIO::LinuxErr(reason) => String::from_str("LINUX IO ERROR: ").concat(
                reason.as_str(),
            ),
            ErrorIO::MacosErr(reason) => String::from_str("MACOS IO ERROR: ").concat(
                reason.as_str(),
            ),
            ErrorIO::Unknown => String::from_str("UNKNOWN IO ERROR"),
        }
    }
}

/// What a device does with its handle.
pub enum Step {
    /// A view reads the handle to transfer through it.
    View,
    /// The device gives the handle up.
    Release,
}

/// One OS handle, from the allocator's answer to its release.
///
/// The handle is read as often as views need it and given up once: after
/// `release` nothing is left to give up again.
#[derive(Debug, PartialEq, Eq)]
pub struct Handle {
    fd: Option<i32>,
}

impl View for Handle {
    type V = Option<int>;

    closed spec fn view(&self) -> Option<int> {
        match self.fd {
            Some(fd) => Some(fd as int),
            None => None,
        }
    }
}

impl Handle {
    #[verifier::type_invariant]
    spec fn well_formed(&self) -> bool {
        self.fd matches Some(fd) ==> fd >= 0
    }

    /// The state that `state` has become after `steps`.
    pub open spec fn after(state: Option<int>, steps: Seq<Step>) -> Option<int>
        decreases steps.len(),
    {
        if steps.len() == 0 {
            state
        } else {
            match steps.last() {
                Step::View => Handle::after(state, steps.drop_last()),
                Step::Release => None,
            }
        }
    }

    /// How many handles `steps` have given up, starting from `state`.
    pub open spec fn released(state: Option<int>, steps: Seq<Step>) -> nat
        decreases steps.len(),
    {
        if steps.len() == 0 {
            0
        } else {
            let before = steps.drop_last();
            let now: nat = match steps.last() {
                Step::View => 0,
                Step::Release => if Handle::after(state, before) is Some {
                    1
                } else {
                    0
                },
            };
            Handle::released(state, before) + now
        }
    }

    /// A handle is given up exactly once, by the first release, however
    /// often views read it before or after; where there is no handle,
    /// nothing is given up.
    pub proof fn lemma_released_once(handle: int, steps: Seq<Step>)
        ensures
            Handle::released(Some(handle), steps) == if steps.contains(Step::Release) {
                1nat
            } else {
                0nat
            },
            Handle::after(Some(handle), steps) == if steps.contains(Step::Release) {
                None
            } else {
                Some(handle)
            },
            Handle::released(None, steps) == 0,
            Handle::after(None, steps) is None,
        decreases steps.len(),
    {
        if steps.len() > 0 {
            let before = steps.drop_last();
            Handle::lemma_released_once(handle, before);
            assert(steps == before.push(steps.last()));
            if steps.last() == Step::Release {
                assert(steps[steps.len() - 1] == Step::Release);
            } else {
                assert(forall|i: int| 0 <= i < before.len() ==> steps[i] == before[i]);
            }
        }
    }

    /// Takes what the allocator returned: a handle where it is not negative.
    pub fn adopt(status: i32) -> (adopted: Option<Handle>)
        ensures
            match adopted {
                Some(handle) => status >= 0 && handle@ == Some(status as int),
                None => status < 0,
            },
    {
        if status >= 0 {
            Some(Handle { fd: Some(status) })
        } else {
            None
        }
    }

    /// The handle, for as long as it has not been released.
    pub fn get(&self) -> (fd: Option<i32>)
        ensures
            match fd {
                Some(value) => value >= 0 && self@ == Some(value as int),
                None => self@ is None,
            },
    {
        proof {
            use_type_invariant(self);
        }
        self.fd
    }

    /// Gives the handle up. Only the first call returns it.
    pub fn release(&mut self) -> (fd: Option<i32>)
        ensures
            match fd {
                Some(value) => value >= 0 && old(self)@ == Some(value as int),
                None => old(self)@ is None,
            },
            final(self)@ == Handle::after(old(self)@, seq![Step::Release]),
            final(self)@ is None,
    {
        proof {
            use_type_invariant(&*self);
        }
        let fd = self.fd;
        self.fd = None;
        fd
    }
}

/// The write capability over a device.
///
/// The bytes go to the device as they are: nothing frames or buffers them.
/// A call blocks for as long as the device does, and nothing here adds a
/// timeout or a retry.
pub trait Pusher {
    /// Writes `buf` into the device and returns how many bytes the device
    /// took. A count below `buf.len()` is a partial write: the rest was not
    /// sent, and sending it is the caller's to decide.
    fn push(&mut self, buf: &[u8]) -> Result<usize, ErrorIO>;
}

/// The read capability over a device.
///
/// The bytes come from the device as they are. A call blocks for as long as
/// the device does, and nothing here adds a timeout or a retry.
pub trait Puller {
    /// Reads from the device into the front of `buf` and returns how many
    /// bytes were read, at most `buf.len()`. A device that has nothing to
    /// deliver yet reports an error, so `Ok(0)` means that the device has
    /// ended or that `buf` is empty.
    fn pull(&mut self, buf: &mut [u8]) -> Result<usize, ErrorIO>;
}

/// One tunnel device of some platform, the sole owner of its OS handle.
///
/// A pusher or a puller borrows the interface exclusively for as long as it
/// lives. So at most one view exists at any time, none outlives the
/// interface, and none owns the handle: releasing it stays with the
/// interface.
pub trait Interface: Sized {
    /// The write view that this interface lends.
    type PUSHER<'a>: Pusher where Self: 'a;

    /// The read view that this interface lends.
    type PULLER<'a>: Puller where Self: 'a;

    /// Opens the device by running the platform's allocation routine on the
    /// name buffer, which the routine may rewrite. The buffer that comes in
    /// has the width of a name buffer and holds text, padded with zero
    /// bytes.
    fn open(name: &mut [u8]) -> Result<Self, ErrorOS>
        requires
            old(name)@.len() == NAME_CAPACITY,
            text_of(old(name)@) is Some,
    ;

    /// Lends the write view.
    fn pusher<'a>(&'a mut self) -> Self::PUSHER<'a>;

    /// Lends the read view.
    fn puller<'a>(&'a mut self) -> Self::PULLER<'a>;
}

} // verus!
