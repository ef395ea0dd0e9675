//! Opening a TUN-style virtual network interface and exchanging raw packets
//! through it, in the same way on every host OS.
//!
//! A caller asks for a device by name and gets an [`Adapter`]: the device's
//! two names and the interface that owns its OS handle. The adapter lends a
//! pusher to write frames and a puller to read them.

use vstd::prelude::*;
use vstd::string::StringSliceAdditionalSpecFns;

pub mod interfaces;
pub mod name;

pub use interfaces::ErrorIO;
pub use interfaces::ErrorOS;
pub use interfaces::Failure;
pub use interfaces::Handle;
pub use interfaces::Interface;
pub use interfaces::Puller;
pub use interfaces::Pusher;
pub use interfaces::Step;
pub use name::ErrorName;
pub use name::Name;

use name::lemma_stored_is_text;
use name::stored;
use name::text_of;

verus! {

/// An open device together with the two names it goes by.
pub struct Adapter<I: Interface> {
    /// The name that the OS knows the device by. The allocator may have
    /// rewritten it.
    pub kernel_name: Name,
    /// The name that the caller asked for. Nothing rewrites it.
    pub custom_name: Name,
    /// The device itself.
    pub interface: I,
}

impl<I: Interface> Adapter<I> {
    /// Opens the device `name`.
    ///
    /// Both names start out as `name`, cut to the capacity of a name buffer.
    /// The interface then opens the device on the kernel name. Whether that
    /// succeeds is the interface's to say. What comes back is its answer to
    /// a buffer that held the stored name, wrapped as `wraps` says; so the
    /// custom name is the stored name whatever the interface did.
    pub fn open(name: &str) -> (opened: Result<Adapter<I>, ErrorOS>)
        ensures
            opened matches Ok(adapter) ==> adapter.custom_name@ == stored(name.spec_bytes()),
            exists|handed: &mut [u8], outcome: Result<I, ErrorOS>|
                (*handed)@ == stored(name.spec_bytes())
                    && call_ensures(I::open, (handed,), outcome)
                    && Adapter::wraps(opened, outcome, stored(name.spec_bytes()), (*final(handed))@),
    {
        let custom_name = Name::from_text(name);
        let mut kernel_name = custom_name;
        proof {
            lemma_stored_is_text(name@);
        }
        let outcome = I::open(&mut kernel_name.bytes);
        let opened = Adapter::assemble(kernel_name, custom_name, outcome);
        proof {
            let handed = choose|handed: &mut [u8]|
                (*handed)@ == stored(name.spec_bytes()) && (*final(handed))@ == kernel_name@
                    && call_ensures(I::open, (handed,), outcome);
            assert(Adapter::wraps(opened, outcome, stored(name.spec_bytes()), (*final(handed))@));
        }
        opened
    }

    /// Joins the answer of the interface with the two names: an adapter
    /// around the opened interface, or the interface's error as it came.
    pub fn assemble(kernel_name: Name, custom_name: Name, outcome: Result<I, ErrorOS>) -> (opened:
        Result<Adapter<I>, ErrorOS>)
        ensures
            match outcome {
                Ok(interface) => opened == Ok::<Adapter<I>, ErrorOS>(
                    (Adapter { kernel_name, custom_name, interface }),
                ),
                Err(error) => opened == Err::<Adapter<I>, ErrorOS>(error),
            },
    {
        match outcome {
            Ok(interface) => Ok(Adapter { kernel_name, custom_name, interface }),
            Err(error) => Err(error),
        }
    }

    /// Lends the write view of the interface: the view is the one that the
    /// interface's `pusher` lends, and the interface is afterwards what that
    /// lending leaves of it. The adapter stays borrowed until the view is
    /// gone, and the names are as before.
    pub fn pusher<'a>(&'a mut self) -> (view: I::PUSHER<'a>)
        ensures
            final(self).kernel_name == old(self).kernel_name,
            final(self).custom_name == old(self).custom_name,
            exists|lent: &mut I|
                *lent == old(self).interface && *final(lent) == final(self).interface
                    && call_ensures(I::pusher, (lent,), view),
    {
        self.interface.pusher()
    }

    /// Lends the read view of the interface: the view is the one that the
    /// interface's `puller` lends, and the interface is afterwards what that
    /// lending leaves of it. The adapter stays borrowed until the view is
    /// gone, and the names are as before.
    pub fn puller<'a>(&'a mut self) -> (view: I::PULLER<'a>)
        ensures
            final(self).kernel_name == old(self).kernel_name,
            final(self).custom_name == old(self).custom_name,
            exists|lent: &mut I|
                *lent == old(self).interface && *final(lent) == final(self).interface
                    && call_ensures(I::puller, (lent,), view),
    {
        self.interface.puller()
    }

    /// The kernel name as text.
    pub fn kernel_name(&self) -> (read: Result<String, ErrorName>)
        ensures
            match read {
                Ok(text) => text_of(self.kernel_name@) == Some(text@),
                Err(error) => text_of(self.kernel_name@) is None && error == ErrorName::KernelName,
            },
    {
        match self.kernel_name.text() {
            Some(text) => Ok(text),
            None => Err(ErrorName::KernelName),
        }
    }

    /// The custom name as text.
    pub fn custom_name(&self) -> (read: Result<String, ErrorName>)
        ensures
            match read {
                Ok(text) => text_of(self.custom_name@) == Some(text@),
                Err(error) => text_of(self.custom_name@) is None && error == ErrorName::CustomName,
            },
    {
        match self.custom_name.text() {
            Some(text) => Ok(text),
            None => Err(ErrorName::CustomName),
        }
    }

    /// `opened` is what becomes of `outcome`, the answer of the interface
    /// to a buffer that held `asked` and holds `left` after the call: its
    /// error comes back as it is; its interface comes back in an adapter
    /// whose kernel name is `left` and whose custom name is `asked`.
    pub open spec fn wraps(
        opened: Result<Adapter<I>, ErrorOS>,
        outcome: Result<I, ErrorOS>,
        asked: Seq<u8>,
        left: Seq<u8>,
    ) -> bool {
        match outcome {
            Ok(interface) => {
                &&& opened matches Ok(adapter)
                &&& adapter.interface == interface
                &&& adapter.kernel_name@ == left
                &&& adapter.custom_name@ == asked
            },
            Err(error) => opened == Err::<Adapter<I>, ErrorOS>(error),
        }
    }
}

/// Opens the device `name` on the interface `I`, as `Adapter::open` does.
pub fn open<I: Interface>(name: &str) -> (opened: Result<Adapter<I>, ErrorOS>)
    ensures
        opened matches Ok(adapter) ==> adapter.custom_name@ == stored(name.spec_bytes()),
        exists|handed: &mut [u8], outcome: Result<I, ErrorOS>|
            (*handed)@ == stored(name.spec_bytes())
                && call_ensures(I::open, (handed,), outcome)
                && Adapter::wraps(opened, outcome, stored(name.spec_bytes()), (*final(handed))@),
{
    Adapter::open(name)
}

} // verus!
